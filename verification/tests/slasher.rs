use prover_core::contracts::{Address, RequestId};
use prover_core::orders::{Order, OrderBook};
use prover_core::slasher::{
    is_skipped, process_fulfilled_events, process_locked_events, process_slash_result,
    process_slashed_events, slash_decision, ServiceError, Supervisor,
};

fn request(tag: u8) -> RequestId {
    let mut bytes = [0u8; 32];
    bytes[31] = tag;
    bytes[10] = 0xaa;
    RequestId { bytes }
}

fn address(tag: u8) -> Address {
    Address { bytes: [tag; 20] }
}

fn sorted(mut ids: Vec<RequestId>) -> Vec<RequestId> {
    ids.sort_by_key(|id| id.bytes);
    ids
}

// One tick as the service runs it, against a market that answers each slash
// with what `market` returns.
fn tick(
    book: &mut OrderBook,
    supervisor: &mut Supervisor,
    current_block: u64,
    locked: &Vec<Order>,
    fulfilled: &Vec<RequestId>,
    slashed: &Vec<RequestId>,
    market: &dyn Fn(&RequestId) -> Result<(), String>,
) -> Result<bool, ServiceError> {
    let (_from, to) = match supervisor.next_window(current_block) {
        Some(window) => window,
        None => return Ok(false),
    };
    let outcome = (|| {
        process_locked_events(book, locked);
        process_fulfilled_events(book, fulfilled);
        process_slashed_events(book, slashed);
        for id in book.get_expired_orders(to) {
            process_slash_result(book, &id, market(&id))?;
        }
        book.set_last_block(to);
        Ok(())
    })();
    match outcome {
        Ok(()) => {
            supervisor.record_success(to);
            Ok(true)
        }
        Err(e) => match supervisor.record_failure(e) {
            Some(end) => Err(end),
            None => Ok(false),
        },
    }
}

#[test]
fn ers_happy_path() {
    let r = request(1);
    let mut book = OrderBook::new();
    let mut supervisor = Supervisor::new(10, None, None, 100);
    let accept = |_: &RequestId| -> Result<(), String> { Ok(()) };
    let locked = vec![Order { request_id: r, deadline: 110 }];
    assert_eq!(tick(&mut book, &mut supervisor, 100, &locked, &vec![], &vec![], &accept), Ok(true));
    assert_eq!(book.deadline_of(&r), Some(110));
    assert_eq!(book.get_last_block(), Some(100));
    assert_eq!(book.get_expired_orders(110), vec![]);
    assert_eq!(book.get_expired_orders(111), vec![r]);
    assert_eq!(tick(&mut book, &mut supervisor, 111, &vec![], &vec![], &vec![], &accept), Ok(true));
    assert_eq!(book.deadline_of(&r), None);
    assert_eq!(book.len(), 0);
    assert_eq!(book.get_last_block(), Some(111));
    assert_eq!(supervisor.next_window(112), Some((112, 112)));
}

#[test]
fn ers_benign_race() {
    let r = request(1);
    let mut book = OrderBook::new();
    let mut supervisor = Supervisor::new(10, None, None, 100);
    let fulfilled = |_: &RequestId| -> Result<(), String> {
        Err("server returned an error response: execution reverted: RequestIsFulfilled".to_string())
    };
    let locked = vec![Order { request_id: r, deadline: 110 }];
    assert_eq!(
        tick(&mut book, &mut supervisor, 100, &locked, &vec![], &vec![], &fulfilled),
        Ok(true)
    );
    assert_eq!(
        tick(&mut book, &mut supervisor, 111, &vec![], &vec![], &vec![], &fulfilled),
        Ok(true)
    );
    assert_eq!(book.deadline_of(&r), None);
    assert_eq!(book.get_last_block(), Some(111));
}

#[test]
fn ers_retry_cap() {
    let mut supervisor = Supervisor::new(10, None, None, 100);
    let mut ended = None;
    let mut failures = 0;
    for _ in 0..15 {
        failures += 1;
        if let Some(end) = supervisor.record_failure(ServiceError::RpcError("timeout".to_string()))
        {
            ended = Some(end);
            break;
        }
    }
    assert_eq!(ended, Some(ServiceError::MaxRetries));
    assert_eq!(failures, 11);
}

#[test]
fn retry_cap_counts_unreadable_blocks_too() {
    let mut supervisor = Supervisor::new(2, None, None, 100);
    assert_eq!(supervisor.record_block_failure(), None);
    assert_eq!(supervisor.record_failure(ServiceError::EventQueryError("x".to_string())), None);
    assert_eq!(supervisor.record_block_failure(), Some(ServiceError::MaxRetries));
    let mut none = Supervisor::new(0, None, None, 100);
    assert_eq!(none.record_block_failure(), Some(ServiceError::MaxRetries));
}

#[test]
fn success_resets_the_failure_count() {
    let mut supervisor = Supervisor::new(1, None, None, 100);
    for block in 100..110 {
        assert_eq!(
            supervisor.record_failure(ServiceError::BoundlessMarketError("x".to_string())),
            None
        );
        supervisor.record_success(block);
    }
}

#[test]
fn irrecoverable_errors_end_the_service_at_once() {
    for error in [
        ServiceError::DatabaseError("disk".to_string()),
        ServiceError::InsufficientFunds("insufficient funds".to_string()),
        ServiceError::MaxRetries,
        ServiceError::RequestNotExpired,
    ] {
        assert!(error.is_irrecoverable());
        let mut supervisor = Supervisor::new(10, None, None, 100);
        assert_eq!(supervisor.record_failure(error.clone()), Some(error));
    }
    for error in [
        ServiceError::BoundlessMarketError("x".to_string()),
        ServiceError::RpcError("x".to_string()),
        ServiceError::EventQueryError("x".to_string()),
    ] {
        assert!(!error.is_irrecoverable());
    }
}

#[test]
fn first_window_starts_at_the_named_the_stored_or_the_current_block() {
    assert_eq!(Supervisor::new(3, None, None, 100).next_window(100), Some((100, 100)));
    assert_eq!(Supervisor::new(3, None, Some(90), 100).next_window(100), Some((90, 100)));
    assert_eq!(Supervisor::new(3, Some(50), Some(90), 100).next_window(105), Some((50, 105)));
    assert_eq!(Supervisor::new(3, Some(500), Some(90), 100).next_window(100), Some((100, 100)));
    assert_eq!(Supervisor::new(3, None, Some(500), 100).next_window(100), Some((100, 100)));
}

#[test]
fn windows_advance_only_after_success() {
    let mut supervisor = Supervisor::new(5, None, Some(90), 100);
    assert_eq!(supervisor.next_window(100), Some((90, 100)));
    assert_eq!(supervisor.record_failure(ServiceError::RpcError("x".to_string())), None);
    assert_eq!(supervisor.next_window(101), Some((90, 101)));
    supervisor.record_success(101);
    assert_eq!(supervisor.next_window(101), None);
    assert_eq!(supervisor.next_window(100), None);
    assert_eq!(supervisor.next_window(102), Some((102, 102)));
    assert_eq!(supervisor.next_window(150), Some((102, 150)));
}

#[test]
fn last_processed_block_never_goes_back() {
    let mut book = OrderBook::new();
    let mut supervisor = Supervisor::new(3, None, None, 10);
    let accept = |_: &RequestId| -> Result<(), String> { Ok(()) };
    let mut last = None;
    for current in [10u64, 12, 11, 12, 13, 13, 20, 5, 21] {
        let _ = tick(&mut book, &mut supervisor, current, &vec![], &vec![], &vec![], &accept);
        let now = book.get_last_block();
        assert!(now >= last);
        last = now;
    }
    assert_eq!(last, Some(21));
}

#[test]
fn slash_outcomes() {
    let r = request(1);
    let fresh = || {
        let mut book = OrderBook::new();
        book.add_order(r, 10);
        book
    };
    let mut book = fresh();
    assert_eq!(process_slash_result(&mut book, &r, Ok(())), Ok(()));
    assert_eq!(book.deadline_of(&r), None);

    for message in ["revert RequestIsSlashed", "RequestIsFulfilled(0x01)"] {
        let mut book = fresh();
        assert_eq!(process_slash_result(&mut book, &r, Err(message.to_string())), Ok(()));
        assert_eq!(book.deadline_of(&r), None);
    }

    let mut book = fresh();
    assert_eq!(
        process_slash_result(&mut book, &r, Err("revert RequestIsNotExpired".to_string())),
        Err(ServiceError::RequestNotExpired)
    );
    assert_eq!(book.deadline_of(&r), Some(10));

    for message in ["insufficient funds for gas", "gas required exceeds allowance (0)"] {
        let mut book = fresh();
        assert_eq!(
            process_slash_result(&mut book, &r, Err(message.to_string())),
            Err(ServiceError::InsufficientFunds(message.to_string()))
        );
        assert_eq!(book.deadline_of(&r), Some(10));
    }

    let mut book = fresh();
    assert_eq!(
        process_slash_result(&mut book, &r, Err("connection reset".to_string())),
        Err(ServiceError::BoundlessMarketError("connection reset".to_string()))
    );
    assert_eq!(book.deadline_of(&r), Some(10));

    // a settled request goes before any other reading of the message
    let mut book = fresh();
    assert_eq!(
        process_slash_result(
            &mut book,
            &r,
            Err("RequestIsNotExpired insufficient funds RequestIsSlashed".to_string())
        ),
        Ok(())
    );
    let mut book = fresh();
    assert_eq!(
        process_slash_result(
            &mut book,
            &r,
            Err("insufficient funds; RequestIsNotExpired".to_string())
        ),
        Err(ServiceError::RequestNotExpired)
    );
}

#[test]
fn fatal_slash_outcome_ends_the_tick_and_the_service() {
    let mut book = OrderBook::new();
    let mut supervisor = Supervisor::new(10, None, None, 100);
    let locked = vec![Order { request_id: request(1), deadline: 50 }];
    let refuse = |_: &RequestId| -> Result<(), String> { Err("RequestIsNotExpired".to_string()) };
    assert_eq!(
        tick(&mut book, &mut supervisor, 100, &locked, &vec![], &vec![], &refuse),
        Err(ServiceError::RequestNotExpired)
    );
    assert_eq!(book.get_last_block(), None);
    assert_eq!(book.deadline_of(&request(1)), Some(50));
}

#[test]
fn recoverable_slash_outcome_is_retried_over_the_same_window() {
    let mut book = OrderBook::new();
    let mut supervisor = Supervisor::new(10, None, None, 100);
    let locked = vec![Order { request_id: request(1), deadline: 50 }];
    let fail = |_: &RequestId| -> Result<(), String> { Err("timeout".to_string()) };
    let accept = |_: &RequestId| -> Result<(), String> { Ok(()) };
    assert_eq!(tick(&mut book, &mut supervisor, 100, &locked, &vec![], &vec![], &fail), Ok(false));
    assert_eq!(book.get_last_block(), None);
    assert_eq!(supervisor.next_window(101), Some((100, 101)));
    assert_eq!(tick(&mut book, &mut supervisor, 101, &locked, &vec![], &vec![], &accept), Ok(true));
    assert_eq!(book.len(), 0);
    assert_eq!(book.get_last_block(), Some(101));
}

#[test]
fn order_book_upserts_and_removes() {
    let mut book = OrderBook::new();
    assert_eq!(book.len(), 0);
    assert_eq!(book.get_last_block(), None);
    book.add_order(request(1), 10);
    book.add_order(request(2), 20);
    book.add_order(request(1), 30);
    assert_eq!(book.len(), 2);
    assert_eq!(book.deadline_of(&request(1)), Some(30));
    assert_eq!(book.deadline_of(&request(2)), Some(20));
    assert_eq!(book.deadline_of(&request(3)), None);
    book.remove_order(&request(3));
    assert_eq!(book.len(), 2);
    book.remove_order(&request(1));
    book.remove_order(&request(1));
    assert_eq!(book.len(), 1);
    assert_eq!(book.deadline_of(&request(1)), None);
    book.set_last_block(7);
    assert_eq!(book.get_last_block(), Some(7));
    assert_eq!(book.deadline_of(&request(2)), Some(20));
}

#[test]
fn expired_orders_are_those_past_their_deadline() {
    let mut book = OrderBook::new();
    book.add_order(request(1), 10);
    book.add_order(request(2), 20);
    book.add_order(request(3), 20);
    book.add_order(request(4), 0);
    assert_eq!(book.get_expired_orders(0), vec![]);
    assert_eq!(sorted(book.get_expired_orders(10)), vec![request(4)]);
    assert_eq!(sorted(book.get_expired_orders(11)), vec![request(1), request(4)]);
    assert_eq!(sorted(book.get_expired_orders(20)), vec![request(1), request(4)]);
    assert_eq!(
        sorted(book.get_expired_orders(21)),
        vec![request(1), request(2), request(3), request(4)]
    );
    assert_eq!(book.get_expired_orders(u64::MAX).len(), 4);
}

#[test]
fn replaying_a_window_changes_nothing() {
    let locked = vec![
        Order { request_id: request(1), deadline: 10 },
        Order { request_id: request(2), deadline: 20 },
        Order { request_id: request(1), deadline: 15 },
        Order { request_id: request(3), deadline: 30 },
        Order { request_id: request(5), deadline: 50 },
    ];
    let fulfilled = vec![request(2), request(9)];
    let slashed = vec![request(5), request(2)];
    let mut book = OrderBook::new();
    book.add_order(request(7), 70);
    book.add_order(request(9), 90);
    let snapshot = |book: &OrderBook| -> Vec<Option<u64>> {
        (0..12u8).map(|tag| book.deadline_of(&request(tag))).collect()
    };
    process_locked_events(&mut book, &locked);
    process_fulfilled_events(&mut book, &fulfilled);
    process_slashed_events(&mut book, &slashed);
    let once = snapshot(&book);
    assert_eq!(book.len(), 3);
    assert_eq!(book.deadline_of(&request(1)), Some(15));
    assert_eq!(book.deadline_of(&request(3)), Some(30));
    assert_eq!(book.deadline_of(&request(7)), Some(70));
    process_locked_events(&mut book, &locked);
    process_fulfilled_events(&mut book, &fulfilled);
    process_slashed_events(&mut book, &slashed);
    assert_eq!(snapshot(&book), once);
    assert_eq!(book.len(), 3);
}

#[test]
fn skip_list() {
    let skip = vec![address(1), address(2)];
    assert!(is_skipped(&address(1), &skip));
    assert!(is_skipped(&address(2), &skip));
    assert!(!is_skipped(&address(3), &skip));
    assert!(!is_skipped(&address(1), &vec![]));
    let mut near = address(1);
    near.bytes[19] = 0;
    assert!(!is_skipped(&near, &skip));
}

#[test]
fn slash_decisions() {
    assert_eq!(slash_decision(Ok(())), Ok(()));
    assert_eq!(slash_decision(Err("x RequestIsSlashed y".to_string())), Ok(()));
    assert_eq!(slash_decision(Err("RequestIsFulfilled".to_string())), Ok(()));
    assert_eq!(
        slash_decision(Err("RequestIsNotExpired".to_string())),
        Err(ServiceError::RequestNotExpired)
    );
    assert_eq!(
        slash_decision(Err("insufficient funds".to_string())),
        Err(ServiceError::InsufficientFunds("insufficient funds".to_string()))
    );
    assert_eq!(
        slash_decision(Err("gas required exceeds allowance".to_string())),
        Err(ServiceError::InsufficientFunds("gas required exceeds allowance".to_string()))
    );
    assert_eq!(
        slash_decision(Err("".to_string())),
        Err(ServiceError::BoundlessMarketError("".to_string()))
    );
    assert_eq!(
        slash_decision(Err("Insufficient Funds".to_string())),
        Err(ServiceError::BoundlessMarketError("Insufficient Funds".to_string()))
    );
}
