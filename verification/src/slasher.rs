//! The decisions of the expiry reconciliation service: which locked
//! requests it follows, how it reads the outcome of a slash, and how its
//! supervisor moves from one window of blocks to the next.

use vstd::prelude::*;
use vstd::string::*;
use crate::contracts::{Address, RequestId};
use crate::bytes::bytes_eq;
use crate::orders::{names, Order, OrderBook};
use crate::text::{contains_text, text_contains};

verus! {

/// Why a tick of the service failed.
#[derive(Clone, Debug, PartialEq, Eq)]
pub enum ServiceError {
    /// The local database failed.
    DatabaseError(String),
    /// A call of the market contract failed.
    BoundlessMarketError(String),
    /// The node could not be reached.
    RpcError(String),
    /// The events of a window could not be read.
    EventQueryError(String),
    /// The account cannot pay for a slash.
    InsufficientFunds(String),
    /// Too many ticks failed in a row.
    MaxRetries,
    /// The contract says that a request is not expired which the book says is.
    RequestNotExpired,
}

impl ServiceError {
    /// Whether the error ends the service: the supervisor retries after
    /// market, RPC and event query errors only.
    pub open spec fn irrecoverable(&self) -> bool {
        match self {
            ServiceError::BoundlessMarketError(_) => false,
            ServiceError::RpcError(_) => false,
            ServiceError::EventQueryError(_) => false,
            _ => true,
        }
    }

    /// Whether the error ends the service.
    pub fn is_irrecoverable(&self) -> (r: bool)
        ensures
            r == self.irrecoverable(),
    {
        match self {
            ServiceError::BoundlessMarketError(_) => false,
            ServiceError::RpcError(_) => false,
            ServiceError::EventQueryError(_) => false,
            _ => true,
        }
    }
}

/// Whether `sender` is one of the addresses whose requests are not followed.
pub open spec fn skipped(sender: Address, skip_addresses: Seq<Address>) -> bool {
    exists|i: int|
        0 <= i < skip_addresses.len() && (#[trigger] skip_addresses[i]).bytes@ == sender.bytes@
}

/// Whether the locked requests of `sender` are left alone.
pub fn is_skipped(sender: &Address, skip_addresses: &Vec<Address>) -> (r: bool)
    ensures
        r == skipped(*sender, skip_addresses@),
{
    let mut i: usize = 0;
    while i < skip_addresses.len()
        invariant
            i <= skip_addresses@.len(),
            forall|j: int| 0 <= j < i ==> (#[trigger] skip_addresses@[j]).bytes@ != sender.bytes@,
        decreases skip_addresses@.len() - i,
    {
        if bytes_eq(skip_addresses[i].bytes.as_slice(), sender.bytes.as_slice()) {
            return true;
        }
        i += 1;
    }
    false
}

/// The deadlines after the orders of `locked` were recorded one by one.
pub open spec fn with_orders(orders: Map<Seq<u8>, u64>, locked: Seq<Order>) -> Map<Seq<u8>, u64>
    decreases locked.len(),
{
    if locked.len() == 0 {
        orders
    } else {
        with_orders(orders, locked.drop_last()).insert(
            locked.last().request_id.bytes@,
            locked.last().deadline,
        )
    }
}

/// The deadlines after the requests of `settled` were taken out one by one.
pub open spec fn without_requests(orders: Map<Seq<u8>, u64>, settled: Seq<RequestId>) -> Map<
    Seq<u8>,
    u64,
>
    decreases settled.len(),
{
    if settled.len() == 0 {
        orders
    } else {
        without_requests(orders, settled.drop_last()).remove(settled.last().bytes@)
    }
}

/// The deadlines after the events of one window of blocks: the locked
/// requests are recorded, then the fulfilled and the slashed ones taken out.
pub open spec fn after_window(
    orders: Map<Seq<u8>, u64>,
    locked: Seq<Order>,
    fulfilled: Seq<RequestId>,
    slashed: Seq<RequestId>,
) -> Map<Seq<u8>, u64> {
    without_requests(without_requests(with_orders(orders, locked), fulfilled), slashed)
}

/// Records the locked requests of a window, each with its deadline.
pub fn process_locked_events(book: &mut OrderBook, locked: &Vec<Order>)
    requires
        old(book).wf(),
    ensures
        final(book).wf(),
        final(book)@.orders == with_orders(old(book)@.orders, locked@),
        final(book)@.last_block == old(book)@.last_block,
{
    let mut i: usize = 0;
    assert(locked@.subrange(0, 0) =~= Seq::<Order>::empty());
    while i < locked.len()
        invariant
            i <= locked@.len(),
            book.wf(),
            book@.orders == with_orders(old(book)@.orders, locked@.subrange(0, i as int)),
            book@.last_block == old(book)@.last_block,
        decreases locked@.len() - i,
    {
        let order = locked[i];
        book.add_order(order.request_id, order.deadline);
        i += 1;
        assert(locked@.subrange(0, i as int).drop_last() =~= locked@.subrange(0, i - 1));
    }
    assert(locked@.subrange(0, i as int) =~= locked@);
}

/// Takes the requests out of the book that the events of a window name.
fn remove_orders(book: &mut OrderBook, settled: &Vec<RequestId>)
    requires
        old(book).wf(),
    ensures
        final(book).wf(),
        final(book)@.orders == without_requests(old(book)@.orders, settled@),
        final(book)@.last_block == old(book)@.last_block,
{
    let mut i: usize = 0;
    assert(settled@.subrange(0, 0) =~= Seq::<RequestId>::empty());
    while i < settled.len()
        invariant
            i <= settled@.len(),
            book.wf(),
            book@.orders == without_requests(old(book)@.orders, settled@.subrange(0, i as int)),
            book@.last_block == old(book)@.last_block,
        decreases settled@.len() - i,
    {
        book.remove_order(&settled[i]);
        i += 1;
        assert(settled@.subrange(0, i as int).drop_last() =~= settled@.subrange(0, i - 1));
    }
    assert(settled@.subrange(0, i as int) =~= settled@);
}

/// Takes the requests out of the book that were fulfilled in a window.
pub fn process_fulfilled_events(book: &mut OrderBook, fulfilled: &Vec<RequestId>)
    requires
        old(book).wf(),
    ensures
        final(book).wf(),
        final(book)@.orders == without_requests(old(book)@.orders, fulfilled@),
        final(book)@.last_block == old(book)@.last_block,
{
    remove_orders(book, fulfilled)
}

/// Takes the requests out of the book that were slashed in a window.
pub fn process_slashed_events(book: &mut OrderBook, slashed: &Vec<RequestId>)
    requires
        old(book).wf(),
    ensures
        final(book).wf(),
        final(book)@.orders == without_requests(old(book)@.orders, slashed@),
        final(book)@.last_block == old(book)@.last_block,
{
    remove_orders(book, slashed)
}

/// Whether a failed slash says that someone else settled the request first.
pub open spec fn settled_elsewhere(message: Seq<char>) -> bool {
    contains_text(message, "RequestIsSlashed"@) || contains_text(message, "RequestIsFulfilled"@)
}

/// Whether a failed slash says that the request is not expired.
pub open spec fn not_expired(message: Seq<char>) -> bool {
    contains_text(message, "RequestIsNotExpired"@)
}

/// Whether a failed slash says that the account cannot pay for it.
pub open spec fn out_of_funds(message: Seq<char>) -> bool {
    contains_text(message, "insufficient funds"@) || contains_text(
        message,
        "gas required exceeds allowance"@,
    )
}

/// What the outcome of a slash means for the order.
pub open spec fn slash_removes_order(result: Result<(), String>) -> bool {
    match result {
        Ok(_) => true,
        Err(message) => settled_elsewhere(message@),
    }
}

/// Whether `r` is what the outcome of a slash comes to: nothing more to do
/// about the order but to take it out, after a slash that went through or
/// one that failed because the request was settled by someone else; and
/// else the error to hand up. A request that is not expired and an account
/// out of funds end the service, any other failure is retried.
pub open spec fn slash_decision_is(r: Result<(), ServiceError>, result: Result<(), String>) -> bool {
    match result {
        Ok(_) => r is Ok,
        Err(message) => if settled_elsewhere(message@) {
            r is Ok
        } else if not_expired(message@) {
            r matches Err(ServiceError::RequestNotExpired)
        } else if out_of_funds(message@) {
            r matches Err(ServiceError::InsufficientFunds(text)) && text@ == message@
        } else {
            r matches Err(ServiceError::BoundlessMarketError(text)) && text@ == message@
        },
    }
}

/// Reads the outcome of a slash: `Ok` where the order is to be taken out of
/// the book, and else the error that ends the tick.
pub fn slash_decision(result: Result<(), String>) -> (r: Result<(), ServiceError>)
    ensures
        slash_decision_is(r, result),
        r is Ok <==> slash_removes_order(result),
{
    let message = match result {
        Ok(_) => {
            return Ok(());
        },
        Err(message) => message,
    };
    if text_contains(message.as_str(), "RequestIsSlashed") || text_contains(
        message.as_str(),
        "RequestIsFulfilled",
    ) {
        Ok(())
    } else if text_contains(message.as_str(), "RequestIsNotExpired") {
        Err(ServiceError::RequestNotExpired)
    } else if text_contains(message.as_str(), "insufficient funds") || text_contains(
        message.as_str(),
        "gas required exceeds allowance",
    ) {
        Err(ServiceError::InsufficientFunds(message))
    } else {
        Err(ServiceError::BoundlessMarketError(message))
    }
}

/// Reads the outcome of the slash of `request_id` and settles the book.
/// After a slash that went through, or one that failed because the request
/// was settled by someone else, the order leaves the book and the tick goes
/// on. Any other failure is handed up and leaves the book as it was.
pub fn process_slash_result(
    book: &mut OrderBook,
    request_id: &RequestId,
    result: Result<(), String>,
) -> (r: Result<(), ServiceError>)
    requires
        old(book).wf(),
    ensures
        final(book).wf(),
        final(book)@.last_block == old(book)@.last_block,
        slash_decision_is(r, result),
        r is Ok <==> slash_removes_order(result),
        r is Ok ==> final(book)@.orders == old(book)@.orders.remove(request_id.bytes@),
        r is Err ==> final(book)@.orders == old(book)@.orders,
{
    let decision = slash_decision(result);
    if decision.is_ok() {
        book.remove_order(request_id);
    }
    decision
}

/// The abstract state of a supervisor.
pub struct SupervisorView {
    /// The first block of the next window.
    pub from_block: u64,
    /// How many ticks have failed in a row.
    pub attempt: u32,
    /// How many failures in a row are borne.
    pub retries: u32,
}

/// The smaller of two block numbers.
pub open spec fn min_block(a: u64, b: u64) -> u64 {
    if a < b {
        a
    } else {
        b
    }
}

/// The first block that a service starts at: the block the operator names,
/// else the last block processed before, else the current block; and never
/// a block after the current one.
pub open spec fn first_block(
    starting_block: Option<u64>,
    last_processed_block: Option<u64>,
    current_block: u64,
) -> u64 {
    let wanted = match starting_block {
        Some(block) => block,
        None => match last_processed_block {
            Some(block) => block,
            None => current_block,
        },
    };
    min_block(wanted, current_block)
}

impl SupervisorView {
    /// The window of the tick at `current_block`, or nothing where the chain
    /// is behind the window's first block.
    pub open spec fn window(&self, current_block: u64) -> Option<(u64, u64)> {
        if current_block < self.from_block {
            None
        } else {
            Some((self.from_block, current_block))
        }
    }

    /// The state after a tick that processed the blocks up to `to_block`.
    pub open spec fn after_success(&self, to_block: u64) -> SupervisorView {
        SupervisorView { from_block: (to_block + 1) as u64, attempt: 0, retries: self.retries }
    }

    /// Whether one more failure is borne.
    pub open spec fn bears_failure(&self) -> bool {
        self.attempt + 1 <= self.retries
    }

    /// The state after a failure that is borne.
    pub open spec fn after_failure(&self) -> SupervisorView {
        SupervisorView { attempt: (self.attempt + 1) as u32, ..*self }
    }

    /// The state after a tick that failed: the failure is counted where it
    /// is borne, and the state stays as it is where the service ends.
    pub open spec fn after_failed_tick(&self) -> SupervisorView {
        if self.bears_failure() {
            self.after_failure()
        } else {
            *self
        }
    }
}

/// Decides from tick to tick which blocks are processed next and whether
/// the service goes on.
pub struct Supervisor {
    from_block: u64,
    attempt: u32,
    retries: u32,
}

impl View for Supervisor {
    type V = SupervisorView;

    closed spec fn view(&self) -> SupervisorView {
        SupervisorView { from_block: self.from_block, attempt: self.attempt, retries: self.retries }
    }
}

impl Supervisor {
    /// The supervisor's invariant: a service that goes on has not failed
    /// more often in a row than it bears.
    pub open spec fn wf(&self) -> bool {
        self@.attempt <= self@.retries
    }

    /// The supervisor of a service that starts now.
    pub fn new(
        retries: u32,
        starting_block: Option<u64>,
        last_processed_block: Option<u64>,
        current_block: u64,
    ) -> (supervisor: Supervisor)
        ensures
            supervisor.wf(),
            supervisor@ == (SupervisorView {
                from_block: first_block(starting_block, last_processed_block, current_block),
                attempt: 0,
                retries,
            }),
    {
        let wanted = match starting_block {
            Some(block) => block,
            None => match last_processed_block {
                Some(block) => block,
                None => current_block,
            },
        };
        let from_block = if wanted < current_block {
            wanted
        } else {
            current_block
        };
        Supervisor { from_block, attempt: 0, retries }
    }

    /// The window of blocks that the tick at `current_block` processes, first
    /// and last block included. A tick at which the chain is behind the
    /// window's first block processes nothing.
    pub fn next_window(&self, current_block: u64) -> (window: Option<(u64, u64)>)
        ensures
            window == self@.window(current_block),
    {
        if current_block < self.from_block {
            None
        } else {
            Some((self.from_block, current_block))
        }
    }

    /// Records a tick that processed the blocks up to `to_block`: the next
    /// window starts after it, and the count of failures starts anew.
    pub fn record_success(&mut self, to_block: u64)
        requires
            to_block < u64::MAX,
        ensures
            final(self).wf(),
            final(self)@ == old(self)@.after_success(to_block),
    {
        self.attempt = 0;
        self.from_block = to_block + 1;
    }

    /// Records a tick that failed with `error` and says whether the service
    /// ends, and with which error. An irrecoverable error ends it. Any other
    /// is counted; the service ends with `MaxRetries` once more ticks have
    /// failed in a row than it bears. The window stays where it was.
    pub fn record_failure(&mut self, error: ServiceError) -> (end: Option<ServiceError>)
        requires
            old(self).wf(),
        ensures
            final(self).wf(),
            end is None <==> !error.irrecoverable() && old(self)@.bears_failure(),
            end is None ==> final(self)@ == old(self)@.after_failure(),
            end is Some ==> final(self)@ == old(self)@,
            end matches Some(e) ==> (if error.irrecoverable() {
                e == error
            } else {
                e is MaxRetries
            }),
    {
        if error.is_irrecoverable() {
            return Some(error);
        }
        self.count_failure()
    }

    /// Records a tick at which the current block could not be read. It is
    /// counted like a failed tick.
    pub fn record_block_failure(&mut self) -> (end: Option<ServiceError>)
        requires
            old(self).wf(),
        ensures
            final(self).wf(),
            end is None <==> old(self)@.bears_failure(),
            end is None ==> final(self)@ == old(self)@.after_failure(),
            end is Some ==> final(self)@ == old(self)@ && end->0 is MaxRetries,
    {
        self.count_failure()
    }

    /// Counts one more failure in a row.
    fn count_failure(&mut self) -> (end: Option<ServiceError>)
        requires
            old(self).wf(),
        ensures
            final(self).wf(),
            end is None <==> old(self)@.bears_failure(),
            end is None ==> final(self)@ == old(self)@.after_failure(),
            end is Some ==> final(self)@ == old(self)@ && end->0 is MaxRetries,
    {
        if self.attempt >= self.retries {
            Some(ServiceError::MaxRetries)
        } else {
            self.attempt = self.attempt + 1;
            None
        }
    }
}

/// From one processed window to the next the last processed block grows:
/// whatever failed in between, the window after a tick that processed the
/// blocks up to `to_block` starts behind `to_block`, and so ends behind it.
pub proof fn lemma_processed_blocks_grow(
    before: SupervisorView,
    to_block: u64,
    later: SupervisorView,
    current_block: u64,
)
    requires
        to_block < u64::MAX,
        later.from_block == before.after_success(to_block).from_block,
        later.window(current_block) is Some,
    ensures
        later.window(current_block) matches Some((from, to)) && from == to_block + 1 && to
            > to_block,
{
}

/// A failed tick leaves the window where it was.
pub proof fn lemma_failure_keeps_window(state: SupervisorView, current_block: u64)
    ensures
        state.after_failure().window(current_block) == state.window(current_block),
{
}

/// The first window of a service never ends before the block it starts at,
/// and it starts at or before the last block processed by an earlier run.
pub proof fn lemma_first_window(
    retries: u32,
    last_processed_block: u64,
    current_block: u64,
    tick_block: u64,
)
    requires
        last_processed_block <= tick_block,
    ensures
        ({
            let state = SupervisorView {
                from_block: first_block(None, Some(last_processed_block), current_block),
                attempt: 0,
                retries,
            };
            state.window(tick_block) matches Some((from, to)) && from <= last_processed_block
                && to >= last_processed_block
        }),
{
}

/// What one tick of the service saw and did.
pub struct Tick {
    /// The current block, where it could be read.
    pub current_block: Option<u64>,
    /// Whether the blocks of the tick's window were processed, all of them.
    pub processed: bool,
}

/// The supervisor's state and the last processed block after a run of
/// ticks. A tick that had a window and processed it records the window's
/// last block as the last processed block; a tick without a window changes
/// nothing; any other tick has failed.
pub open spec fn after_ticks(state: SupervisorView, last_block: Option<u64>, ticks: Seq<Tick>) -> (
    SupervisorView,
    Option<u64>,
)
    decreases ticks.len(),
{
    if ticks.len() == 0 {
        (state, last_block)
    } else {
        let (before, last) = after_ticks(state, last_block, ticks.drop_last());
        let tick = ticks.last();
        match tick.current_block {
            Some(current) => match before.window(current) {
                Some((_, to)) => if tick.processed {
                    (before.after_success(to), Some(to))
                } else {
                    (before.after_failed_tick(), last)
                },
                None => (before, last),
            },
            None => (before.after_failed_tick(), last),
        }
    }
}

/// Across the ticks of a service the last processed block never goes back,
/// provided the service starts behind it: with no block processed yet, or
/// with a first window that starts behind the last processed block.
pub proof fn lemma_last_block_never_goes_back(
    state: SupervisorView,
    last_block: Option<u64>,
    ticks: Seq<Tick>,
)
    requires
        last_block matches Some(block) ==> block < state.from_block,
        forall|i: int|
            0 <= i < ticks.len() ==> ((#[trigger] ticks[i]).current_block matches Some(current)
                ==> current < u64::MAX),
    ensures
        ({
            let (later, last) = after_ticks(state, last_block, ticks);
            &&& last matches Some(block) ==> block < later.from_block
            &&& last_block matches Some(block) ==> last matches Some(later_block) && later_block
                >= block
        }),
    decreases ticks.len(),
{
    if ticks.len() > 0 {
        let earlier = ticks.drop_last();
        assert forall|i: int| 0 <= i < earlier.len() implies ((
        #[trigger] earlier[i]).current_block matches Some(current) ==> current < u64::MAX) by {
            assert(earlier[i] == ticks[i]);
        }
        lemma_last_block_never_goes_back(state, last_block, earlier);
        assert(ticks.last() == ticks[ticks.len() - 1]);
    }
}

/// Whether some order of `locked` is for the request `id`.
pub open spec fn locks(locked: Seq<Order>, id: Seq<u8>) -> bool {
    exists|i: int| 0 <= i < locked.len() && (#[trigger] locked[i]).request_id.bytes@ == id
}

/// The deadline of the last order of `locked` for the request `id`.
pub open spec fn last_deadline(locked: Seq<Order>, id: Seq<u8>) -> u64
    decreases locked.len(),
{
    if locked.len() == 0 {
        0
    } else if locked.last().request_id.bytes@ == id {
        locked.last().deadline
    } else {
        last_deadline(locked.drop_last(), id)
    }
}

/// Recording locked requests: a request is in the book if it was there or
/// is among them; it has the deadline of its last order, or the one it had.
pub proof fn lemma_with_orders(orders: Map<Seq<u8>, u64>, locked: Seq<Order>, id: Seq<u8>)
    ensures
        with_orders(orders, locked).contains_key(id) <==> orders.contains_key(id) || locks(
            locked,
            id,
        ),
        locks(locked, id) ==> with_orders(orders, locked)[id] == last_deadline(locked, id),
        !locks(locked, id) ==> with_orders(orders, locked)[id] == orders[id],
    decreases locked.len(),
{
    if locked.len() > 0 {
        let rest = locked.drop_last();
        lemma_with_orders(orders, rest, id);
        if locks(rest, id) {
            let i = choose|i: int| 0 <= i < rest.len() && (#[trigger] rest[i]).request_id.bytes@ == id;
            assert(locked[i] == rest[i]);
        }
        if locks(locked, id) && locked.last().request_id.bytes@ != id {
            let i = choose|i: int|
                0 <= i < locked.len() && (#[trigger] locked[i]).request_id.bytes@ == id;
            assert(rest[i] == locked[i]);
        }
        if locked.last().request_id.bytes@ == id {
            assert(locked[locked.len() - 1].request_id.bytes@ == id);
        }
    }
}

/// Taking requests out: a request is in the book if it was there and is not
/// among them, and it keeps its deadline.
pub proof fn lemma_without_requests(orders: Map<Seq<u8>, u64>, settled: Seq<RequestId>, id: Seq<u8>)
    ensures
        without_requests(orders, settled).contains_key(id) <==> orders.contains_key(id) && !names(
            settled,
            id,
        ),
        without_requests(orders, settled).contains_key(id) ==> without_requests(orders, settled)[id]
            == orders[id],
    decreases settled.len(),
{
    if settled.len() > 0 {
        let rest = settled.drop_last();
        lemma_without_requests(orders, rest, id);
        if names(rest, id) {
            let i = choose|i: int| 0 <= i < rest.len() && (#[trigger] rest[i]).bytes@ == id;
            assert(settled[i] == rest[i]);
        }
        if names(settled, id) && settled.last().bytes@ != id {
            let i = choose|i: int| 0 <= i < settled.len() && (#[trigger] settled[i]).bytes@ == id;
            assert(rest[i] == settled[i]);
        }
        if settled.last().bytes@ == id {
            assert(settled[settled.len() - 1].bytes@ == id);
        }
    }
}

/// Replaying the events of a window changes nothing: the book after the
/// second pass is the book after the first. No request gets a second order,
/// and a request that was taken out is not missed when it is taken out again.
pub proof fn lemma_replay_changes_nothing(
    orders: Map<Seq<u8>, u64>,
    locked: Seq<Order>,
    fulfilled: Seq<RequestId>,
    slashed: Seq<RequestId>,
)
    ensures
        after_window(after_window(orders, locked, fulfilled, slashed), locked, fulfilled, slashed)
            == after_window(orders, locked, fulfilled, slashed),
{
    let once = after_window(orders, locked, fulfilled, slashed);
    let twice = after_window(once, locked, fulfilled, slashed);
    assert forall|id: Seq<u8>|
        (#[trigger] twice.contains_key(id) <==> once.contains_key(id)) && (twice.contains_key(id)
            ==> twice[id] == once[id]) by {
        lemma_with_orders(orders, locked, id);
        lemma_without_requests(with_orders(orders, locked), fulfilled, id);
        lemma_without_requests(
            without_requests(with_orders(orders, locked), fulfilled),
            slashed,
            id,
        );
        lemma_with_orders(once, locked, id);
        lemma_without_requests(with_orders(once, locked), fulfilled, id);
        lemma_without_requests(without_requests(with_orders(once, locked), fulfilled), slashed, id);
    }
    assert(twice =~= once);
}

} // verus!
