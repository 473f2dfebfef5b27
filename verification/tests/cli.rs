use prover_core::cli::{
    balance_account, bidding_start, check_http_status, check_preflight, fetch_plan_for, fetch_url,
    inline_input, input_location, order_stream_url, request_source, select_input,
    select_predicate, submitted_request_id, url_input, verify_call, CliError, FetchPlan,
    InputLocation, InputSource, RequestSource, UrlParts, VerifyCall, BIDDING_START_DELAY,
};
use prover_core::contracts::{Address, Input, InputType, Predicate, PredicateType, RequestId};
use prover_core::ids::Digest;

fn text(value: &str) -> Option<String> {
    Some(value.to_string())
}

#[test]
fn order_stream_is_needed_off_chain_only() {
    assert_eq!(order_stream_url(false, None), Ok(None));
    assert_eq!(order_stream_url(false, text("https://orders")), Ok(None));
    assert_eq!(order_stream_url(true, text("https://orders")), Ok(text("https://orders")));
    assert_eq!(order_stream_url(true, None), Err(CliError::MissingOrderStreamUrl));
}

#[test]
fn bidding_starts_three_blocks_after_the_latest_where_not_set() {
    assert_eq!(BIDDING_START_DELAY, 3);
    assert_eq!(bidding_start(0, 100), 103);
    assert_eq!(bidding_start(0, 0), 3);
    assert_eq!(bidding_start(42, 100), 42);
    assert_eq!(bidding_start(42, u64::MAX), 42);
    assert_eq!(bidding_start(0, u64::MAX - 3), u64::MAX);
}

#[test]
fn exactly_one_input() {
    assert_eq!(select_input(text("héllo"), None), Ok(InputSource::Text("héllo".as_bytes().to_vec())));
    assert_eq!(select_input(text(""), None), Ok(InputSource::Text(vec![])));
    assert_eq!(select_input(None, text("/tmp/in")), Ok(InputSource::File("/tmp/in".to_string())));
    assert_eq!(select_input(None, None), Err(CliError::AmbiguousInput));
    assert_eq!(select_input(text("a"), text("b")), Err(CliError::AmbiguousInput));
}

#[test]
fn exactly_one_predicate() {
    let digest = "0f".repeat(32);
    assert_eq!(
        select_predicate(Some(digest.clone()), None),
        Ok(Predicate { predicate_type: PredicateType::DigestMatch, data: vec![0x0f; 32] })
    );
    assert_eq!(
        select_predicate(text("abc"), None),
        Err(CliError::InvalidJournalDigest)
    );
    assert_eq!(
        select_predicate(None, text("pre")),
        Ok(Predicate { predicate_type: PredicateType::PrefixMatch, data: b"pre".to_vec() })
    );
    assert_eq!(select_predicate(None, None), Err(CliError::AmbiguousRequirements));
    assert_eq!(
        select_predicate(Some(digest), text("pre")),
        Err(CliError::AmbiguousRequirements)
    );
}

#[test]
fn request_inputs() {
    assert_eq!(inline_input(vec![1, 2]), Input { input_type: InputType::Inline, data: vec![1, 2] });
    assert_eq!(
        url_input("https://x/y"),
        Input { input_type: InputType::Url, data: b"https://x/y".to_vec() }
    );
}

#[test]
fn request_keeps_the_id_it_came_with() {
    let zero = RequestId { bytes: [0; 32] };
    let made = RequestId { bytes: [1; 32] };
    let given = RequestId { bytes: [2; 32] };
    assert_eq!(submitted_request_id(made, zero), made);
    assert_eq!(submitted_request_id(made, given), given);
}

#[test]
fn balance_is_shown_for_the_caller_by_default() {
    let caller = Address { bytes: [1; 20] };
    let other = Address { bytes: [2; 20] };
    assert_eq!(balance_account(None, caller), caller);
    assert_eq!(balance_account(Some(other), caller), other);
}

#[test]
fn request_comes_from_a_file_or_from_the_chain() {
    let id = RequestId { bytes: [3; 32] };
    let hash = Digest { bytes: [4; 32] };
    assert_eq!(
        request_source(text("request.yaml"), None, None),
        Ok(RequestSource::File("request.yaml".to_string()))
    );
    assert_eq!(
        request_source(text("request.yaml"), Some(id), Some(hash)),
        Ok(RequestSource::File("request.yaml".to_string()))
    );
    assert_eq!(
        request_source(None, Some(id), Some(hash)),
        Ok(RequestSource::Chain { request_id: id, tx_hash: Some(hash) })
    );
    assert_eq!(
        request_source(None, Some(id), None),
        Ok(RequestSource::Chain { request_id: id, tx_hash: None })
    );
    assert_eq!(request_source(None, None, Some(hash)), Err(CliError::MissingRequestSource));
    assert_eq!(request_source(None, None, None), Err(CliError::MissingRequestSource));
}

#[test]
fn input_locations() {
    assert_eq!(
        input_location(Input { input_type: InputType::Inline, data: vec![1, 2] }),
        Ok(InputLocation::Inline(vec![1, 2]))
    );
    assert_eq!(
        input_location(Input { input_type: InputType::Url, data: vec![0x68, 0x74, 0x0a] }),
        Ok(InputLocation::Url("0x68740a".to_string()))
    );
    assert_eq!(
        input_location(Input { input_type: InputType::Url, data: vec![] }),
        Ok(InputLocation::Url("0x".to_string()))
    );
    assert_eq!(
        input_location(Input { input_type: InputType::Invalid, data: vec![1] }),
        Err(CliError::UnsupportedInputType)
    );
}

#[test]
fn urls_are_fetched_by_scheme() {
    assert_eq!(
        fetch_url("http://example.com/a?b=c"),
        Ok(FetchPlan::Http("http://example.com/a?b=c".to_string()))
    );
    assert_eq!(
        fetch_url("HTTPS://Example.com/image.bin"),
        Ok(FetchPlan::Http("https://example.com/image.bin".to_string()))
    );
    assert_eq!(
        fetch_url("https://example.com"),
        Ok(FetchPlan::Http("https://example.com/".to_string()))
    );
    assert_eq!(
        fetch_url("file:///tmp/elf/guest.bin"),
        Ok(FetchPlan::File("/tmp/elf/guest.bin".to_string()))
    );
    assert_eq!(
        fetch_url("ftp://example.com/a"),
        Err(CliError::UnsupportedUrlScheme("ftp".to_string()))
    );
    assert_eq!(
        fetch_url("data:text/plain,hi"),
        Err(CliError::UnsupportedUrlScheme("data".to_string()))
    );
    assert_eq!(fetch_url("not a url"), Err(CliError::InvalidUrl));
    assert_eq!(fetch_url("/tmp/guest.bin"), Err(CliError::InvalidUrl));
    assert_eq!(fetch_url("0x68747470"), Err(CliError::InvalidUrl));
    assert_eq!(fetch_url(""), Err(CliError::InvalidUrl));
}

#[test]
fn fetch_plan_follows_the_parts_it_is_given() {
    let parts = |scheme: &str| {
        Some(UrlParts {
            scheme: scheme.to_string(),
            path: "/p".to_string(),
            text: "u".to_string(),
        })
    };
    assert_eq!(fetch_plan_for(parts("http")), Ok(FetchPlan::Http("u".to_string())));
    assert_eq!(fetch_plan_for(parts("https")), Ok(FetchPlan::Http("u".to_string())));
    assert_eq!(fetch_plan_for(parts("file")), Ok(FetchPlan::File("/p".to_string())));
    assert_eq!(
        fetch_plan_for(parts("httpx")),
        Err(CliError::UnsupportedUrlScheme("httpx".to_string()))
    );
    assert_eq!(fetch_plan_for(parts("")), Err(CliError::UnsupportedUrlScheme("".to_string())));
    assert_eq!(fetch_plan_for(None), Err(CliError::InvalidUrl));
}

#[test]
fn only_2xx_is_success() {
    assert_eq!(check_http_status(200), Ok(()));
    assert_eq!(check_http_status(204), Ok(()));
    assert_eq!(check_http_status(299), Ok(()));
    assert_eq!(check_http_status(199), Err(CliError::HttpStatus(199)));
    assert_eq!(check_http_status(300), Err(CliError::HttpStatus(300)));
    assert_eq!(check_http_status(404), Err(CliError::HttpStatus(404)));
    assert_eq!(check_http_status(0), Err(CliError::HttpStatus(0)));
}

#[test]
fn preflight_is_held_against_the_request() {
    let image = Digest { bytes: [7; 32] };
    let other = Digest { bytes: [8; 32] };
    let prefix = Predicate { predicate_type: PredicateType::PrefixMatch, data: vec![1] };
    assert_eq!(check_preflight(Some(image), &image, &prefix, &[1, 2]), Ok(()));
    assert_eq!(check_preflight(None, &image, &prefix, &[1, 2]), Ok(()));
    assert_eq!(
        check_preflight(Some(other), &image, &prefix, &[1, 2]),
        Err(CliError::ImageIdMismatch)
    );
    assert_eq!(
        check_preflight(Some(other), &image, &prefix, &[2]),
        Err(CliError::ImageIdMismatch)
    );
    assert_eq!(
        check_preflight(Some(image), &image, &prefix, &[2]),
        Err(CliError::PredicateFailed)
    );
    assert_eq!(check_preflight(None, &image, &prefix, &[]), Err(CliError::PredicateFailed));
}

#[test]
fn verifier_is_called_with_the_digest_of_the_journal() {
    let image = Digest { bytes: [7; 32] };
    let abc = Digest::from_text("ba7816bf8f01cfea414140de5dae2223b00361a396177a9cb410ff61f20015ad")
        .unwrap();
    let empty =
        Digest::from_text("e3b0c44298fc1c149afbf4c8996fb92427ae41e4649b934ca495991b7852b855")
            .unwrap();
    assert_eq!(
        verify_call(b"abc", vec![1, 2, 3], image),
        VerifyCall { seal: vec![1, 2, 3], image_id: image, journal_digest: abc }
    );
    assert_eq!(
        verify_call(b"", vec![], image),
        VerifyCall { seal: vec![], image_id: image, journal_digest: empty }
    );
}
