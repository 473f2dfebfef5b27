//! The rules of the command line client: how its arguments combine into a
//! request, where a request and its input are read from, and what a
//! preflight run is held against.

use vstd::prelude::*;
use vstd::string::*;
use crate::contracts::{
    sha256_digest, Address, Input, InputType, Predicate, PredicateType, RequestId,
};
use crate::ids::{hex_encode, hex_text, parse_digest, Digest};
use crate::text::text_eq;

verus! {

/// Why the client refuses to go on.
#[derive(Clone, Debug, PartialEq, Eq)]
pub enum CliError {
    /// The request is to be submitted off chain, but no order stream is named.
    MissingOrderStreamUrl,
    /// Not exactly one of the input and the input file is given.
    AmbiguousInput,
    /// Not exactly one of the journal digest and the journal prefix is given.
    AmbiguousRequirements,
    /// The journal digest is not a digest in hexadecimal.
    InvalidJournalDigest,
    /// Neither a request file nor a request id says what to execute.
    MissingRequestSource,
    /// The input of the request is neither inline nor a URL.
    UnsupportedInputType,
    /// The text is not a URL.
    InvalidUrl,
    /// The URL has a scheme from which nothing is fetched.
    UnsupportedUrlScheme(String),
    /// The server answered with a status other than success.
    HttpStatus(u16),
    /// The program of the request is not the one its requirements name.
    ImageIdMismatch,
    /// The journal does not meet the predicate of the request.
    PredicateFailed,
}

/// The order stream that a request is submitted to: the given one where the
/// request goes off chain, and none where it goes on chain.
pub fn order_stream_url(offchain: bool, url: Option<String>) -> (r: Result<Option<String>, CliError>)
    ensures
        !offchain ==> r == Ok::<Option<String>, CliError>(None),
        offchain && url is Some ==> r == Ok::<Option<String>, CliError>(url),
        offchain && url is None ==> r == Err::<Option<String>, CliError>(
            CliError::MissingOrderStreamUrl,
        ),
{
    if offchain {
        match url {
            Some(url) => Ok(Some(url)),
            None => Err(CliError::MissingOrderStreamUrl),
        }
    } else {
        Ok(None)
    }
}

/// How many blocks after the latest one bidding starts where the offer does
/// not say: provers get to see the request before its price rises.
pub const BIDDING_START_DELAY: u64 = 3;

/// The block at which bidding starts: the one the offer names, or a few
/// blocks after the latest one where it names none.
pub fn bidding_start(offered: u64, latest_block: u64) -> (start: u64)
    requires
        offered == 0 ==> latest_block + BIDDING_START_DELAY <= u64::MAX,
    ensures
        start == if offered == 0 {
            (latest_block + BIDDING_START_DELAY) as u64
        } else {
            offered
        },
{
    if offered == 0 {
        latest_block + BIDDING_START_DELAY
    } else {
        offered
    }
}

/// Where the guest input comes from.
#[derive(Clone, Debug, PartialEq, Eq)]
pub enum InputSource {
    /// The bytes of the text given on the command line.
    Text(Vec<u8>),
    /// The file at this path.
    File(String),
}

/// Chooses the guest input: exactly one of the text and the file is given.
pub fn select_input(input: Option<String>, input_file: Option<String>) -> (r: Result<
    InputSource,
    CliError,
>)
    ensures
        match (input, input_file) {
            (Some(text), None) => r matches Ok(InputSource::Text(bytes)) && bytes@
                == vstd::utf8::encode_utf8(text@),
            (None, Some(path)) => r matches Ok(InputSource::File(file)) && file@ == path@,
            _ => r == Err::<InputSource, CliError>(CliError::AmbiguousInput),
        },
{
    match (input, input_file) {
        (Some(text), None) => Ok(InputSource::Text(text.as_str().as_bytes_vec())),
        (None, Some(path)) => Ok(InputSource::File(path)),
        _ => Err(CliError::AmbiguousInput),
    }
}

/// Chooses the predicate of a request: the journal's digest, given in
/// hexadecimal, or a prefix of the journal; exactly one of them is given.
pub fn select_predicate(journal_digest: Option<String>, journal_prefix: Option<String>) -> (r:
    Result<Predicate, CliError>)
    ensures
        match (journal_digest, journal_prefix) {
            (Some(digest), None) => match parse_digest(digest@) {
                Some(bytes) => r matches Ok(predicate) && predicate.predicate_type
                    == PredicateType::DigestMatch && predicate.data@ == bytes,
                None => r == Err::<Predicate, CliError>(CliError::InvalidJournalDigest),
            },
            (None, Some(prefix)) => r matches Ok(predicate) && predicate.predicate_type
                == PredicateType::PrefixMatch && predicate.data@ == vstd::utf8::encode_utf8(prefix@),
            _ => r == Err::<Predicate, CliError>(CliError::AmbiguousRequirements),
        },
{
    match (journal_digest, journal_prefix) {
        (Some(digest), None) => match Digest::from_text(digest.as_str()) {
            Some(digest) => {
                let mut data: Vec<u8> = Vec::new();
                let mut i: usize = 0;
                while i < 32
                    invariant
                        i <= 32,
                        data@ == digest.bytes@.subrange(0, i as int),
                    decreases 32 - i,
                {
                    data.push(digest.bytes[i]);
                    i += 1;
                    assert(data@ =~= digest.bytes@.subrange(0, i as int));
                }
                assert(digest.bytes@.subrange(0, 32) =~= digest.bytes@);
                Ok(Predicate { predicate_type: PredicateType::DigestMatch, data })
            },
            None => Err(CliError::InvalidJournalDigest),
        },
        (None, Some(prefix)) => Ok(
            Predicate {
                predicate_type: PredicateType::PrefixMatch,
                data: prefix.as_str().as_bytes_vec(),
            },
        ),
        _ => Err(CliError::AmbiguousRequirements),
    }
}

/// The input of a request that carries its input itself.
pub fn inline_input(encoded_input: Vec<u8>) -> (input: Input)
    ensures
        input.input_type == InputType::Inline,
        input.data@ == encoded_input@,
{
    Input { input_type: InputType::Inline, data: encoded_input }
}

/// The input of a request whose input was uploaded: it names the URL.
pub fn url_input(uploaded_url: &str) -> (input: Input)
    ensures
        input.input_type == InputType::Url,
        input.data@ == vstd::utf8::encode_utf8(uploaded_url@),
{
    Input { input_type: InputType::Url, data: uploaded_url.as_bytes_vec() }
}

/// The id under which a request read from a file is submitted: its own
/// where it has one, and the one made for it otherwise.
pub fn submitted_request_id(made: RequestId, given: RequestId) -> (id: RequestId)
    ensures
        id == if crate::client::zero_id(given) {
            made
        } else {
            given
        },
{
    if given.is_zero() {
        made
    } else {
        given
    }
}

/// The account whose balance is shown: the given one, or the caller's.
pub fn balance_account(address: Option<Address>, caller: Address) -> (account: Address)
    ensures
        account == match address {
            Some(address) => address,
            None => caller,
        },
{
    match address {
        Some(address) => address,
        None => caller,
    }
}

/// Where the request to execute comes from.
#[derive(Clone, Debug, PartialEq, Eq)]
pub enum RequestSource {
    /// The request file at this path.
    File(String),
    /// The chain: the request with this id, submitted in the transaction
    /// with this hash where one is given.
    Chain { request_id: RequestId, tx_hash: Option<Digest> },
}

/// Chooses where the request to execute is read from. A request file goes
/// before a request id.
pub fn request_source(
    request_path: Option<String>,
    request_id: Option<RequestId>,
    tx_hash: Option<Digest>,
) -> (r: Result<RequestSource, CliError>)
    ensures
        match (request_path, request_id) {
            (Some(path), _) => r matches Ok(RequestSource::File(file)) && file@ == path@,
            (None, Some(id)) => r == Ok::<RequestSource, CliError>(
                RequestSource::Chain { request_id: id, tx_hash },
            ),
            (None, None) => r == Err::<RequestSource, CliError>(CliError::MissingRequestSource),
        },
{
    match request_path {
        Some(path) => Ok(RequestSource::File(path)),
        None => match request_id {
            Some(request_id) => Ok(RequestSource::Chain { request_id, tx_hash }),
            None => Err(CliError::MissingRequestSource),
        },
    }
}

/// Where the input of a request is found when the request is executed.
#[derive(Clone, Debug, PartialEq, Eq)]
pub enum InputLocation {
    /// The data of the request is the input.
    Inline(Vec<u8>),
    /// The input is fetched from this URL.
    Url(String),
}

/// The text that the data of a request is written as: `0x` and its
/// hexadecimal digits.
pub open spec fn data_text(data: Seq<u8>) -> Seq<char> {
    "0x"@ + hex_text(data)
}

/// Says where the input of a request is found. The URL of an input that is
/// not inline is read from the text of the request's data.
pub fn input_location(input: Input) -> (r: Result<InputLocation, CliError>)
    ensures
        match input.input_type {
            InputType::Inline => r matches Ok(InputLocation::Inline(data)) && data@ == input.data@,
            InputType::Url => r matches Ok(InputLocation::Url(url)) && url@ == data_text(
                input.data@,
            ),
            InputType::Invalid => r == Err::<InputLocation, CliError>(
                CliError::UnsupportedInputType,
            ),
        },
{
    match input.input_type {
        InputType::Inline => Ok(InputLocation::Inline(input.data)),
        InputType::Url => {
            let digits = hex_encode(input.data.as_slice());
            Ok(InputLocation::Url(String::from_str("0x").concat(digits.as_str())))
        },
        InputType::Invalid => Err(CliError::UnsupportedInputType),
    }
}

/// How the bytes behind a URL are fetched.
#[derive(Clone, Debug, PartialEq, Eq)]
pub enum FetchPlan {
    /// By a GET request to this URL.
    Http(String),
    /// By reading the file at this path.
    File(String),
}

/// What the client reads of a URL.
#[derive(Clone, Debug, PartialEq, Eq)]
pub struct UrlParts {
    /// The scheme, in lower case.
    pub scheme: String,
    /// The path.
    pub path: String,
    /// The whole URL as it is written out again.
    pub text: String,
}

/// The abstract value of [`UrlParts`].
pub struct UrlPartsView {
    pub scheme: Seq<char>,
    pub path: Seq<char>,
    pub text: Seq<char>,
}

impl View for UrlParts {
    type V = UrlPartsView;

    open spec fn view(&self) -> UrlPartsView {
        UrlPartsView { scheme: self.scheme@, path: self.path@, text: self.text@ }
    }
}

/// The parts of the URL that `text` is, as the `url` crate reads it, or
/// nothing where it refuses the text.
pub uninterp spec fn parsed_url(text: Seq<char>) -> Option<UrlPartsView>;

/// Calls `url::Url::parse`, and `scheme`, `path` and `as_str` of the URL it
/// returns.
#[verifier::external_body]
fn url_parts(text: &str) -> (r: Option<UrlParts>)
    ensures
        match parsed_url(text@) {
            Some(parts) => r is Some && r->0@ == parts,
            None => r is None,
        },
{
    url::Url::parse(text).ok().map(
        |u| UrlParts {
            scheme: u.scheme().to_string(),
            path: u.path().to_string(),
            text: u.as_str().to_string(),
        },
    )
}

/// Whether `r` says how the URL with the given parts is fetched: `http` and
/// `https` by a request to the URL, `file` by reading the path; text that is
/// no URL and any other scheme are refused.
pub open spec fn fetch_plan_is(r: Result<FetchPlan, CliError>, parts: Option<UrlPartsView>) -> bool {
    match parts {
        None => r == Err::<FetchPlan, CliError>(CliError::InvalidUrl),
        Some(parts) => if parts.scheme == "http"@ || parts.scheme == "https"@ {
            r matches Ok(FetchPlan::Http(text)) && text@ == parts.text
        } else if parts.scheme == "file"@ {
            r matches Ok(FetchPlan::File(text)) && text@ == parts.path
        } else {
            r matches Err(CliError::UnsupportedUrlScheme(text)) && text@ == parts.scheme
        },
    }
}

/// Says how the URL with the parts that were read from it is fetched.
pub fn fetch_plan_for(parts: Option<UrlParts>) -> (r: Result<FetchPlan, CliError>)
    ensures
        fetch_plan_is(
            r,
            match parts {
                Some(parts) => Some(parts@),
                None => None,
            },
        ),
{
    match parts {
        None => Err(CliError::InvalidUrl),
        Some(parts) => {
            if text_eq(parts.scheme.as_str(), "http") || text_eq(parts.scheme.as_str(), "https") {
                Ok(FetchPlan::Http(parts.text))
            } else if text_eq(parts.scheme.as_str(), "file") {
                Ok(FetchPlan::File(parts.path))
            } else {
                Err(CliError::UnsupportedUrlScheme(parts.scheme))
            }
        },
    }
}

/// Says how the URL `url` is fetched.
pub fn fetch_url(url: &str) -> (r: Result<FetchPlan, CliError>)
    ensures
        fetch_plan_is(r, parsed_url(url@)),
{
    fetch_plan_for(url_parts(url))
}

/// Checks the status of an HTTP response: only a status from 200 to 299 is
/// a success.
pub fn check_http_status(status: u16) -> (r: Result<(), CliError>)
    ensures
        r == if 200 <= status < 300 {
            Ok::<(), CliError>(())
        } else {
            Err::<(), CliError>(CliError::HttpStatus(status))
        },
{
    if 200 <= status && status < 300 {
        Ok(())
    } else {
        Err(CliError::HttpStatus(status))
    }
}

/// Holds the preflight run of a request read from a file against the
/// request: the program that ran must be the one the requirements name,
/// where the run says which program ran, and the journal must meet the
/// predicate.
pub fn check_preflight(
    ran_image: Option<Digest>,
    required_image: &Digest,
    predicate: &Predicate,
    journal: &[u8],
) -> (r: Result<(), CliError>)
    requires
        predicate.predicate_type != PredicateType::Invalid,
    ensures
        r == if ran_image is Some && ran_image->0.bytes@ != required_image.bytes@ {
            Err::<(), CliError>(CliError::ImageIdMismatch)
        } else if !crate::contracts::predicate_holds(
            predicate.predicate_type,
            predicate.data@,
            journal@,
            sha256_digest(journal@),
        ) {
            Err::<(), CliError>(CliError::PredicateFailed)
        } else {
            Ok::<(), CliError>(())
        },
{
    match ran_image {
        Some(image) => {
            if !image.same_as(required_image) {
                return Err(CliError::ImageIdMismatch);
            }
        },
        None => {},
    }
    if predicate.eval(journal) {
        Ok(())
    } else {
        Err(CliError::PredicateFailed)
    }
}

/// The digest of a journal, as `risc0_zkvm` computes it.
pub uninterp spec fn journal_digest(journal: Seq<u8>) -> Seq<u8>;

/// Calls `risc0_zkvm::Journal::new` and the journal's `digest`, which
/// hashes the journal's bytes.
#[verifier::external_body]
fn digest_of_journal(journal: &[u8]) -> (digest: [u8; 32])
    ensures
        digest@ == journal_digest(journal@),
{
    risc0_zkvm::sha::Digestible::digest(&risc0_zkvm::Journal::new(journal.to_vec())).into()
}

/// What is handed to the verifier contract to verify a fulfilled request.
#[derive(Clone, Debug, PartialEq, Eq)]
pub struct VerifyCall {
    pub seal: Vec<u8>,
    pub image_id: Digest,
    pub journal_digest: Digest,
}

/// Says what the verifier contract is called with for a request that was
/// fulfilled with the given journal and seal: the seal, the image id of the
/// request, and the digest of the journal.
pub fn verify_call(journal: &[u8], seal: Vec<u8>, image_id: Digest) -> (call: VerifyCall)
    ensures
        call.seal@ == seal@,
        call.image_id == image_id,
        call.journal_digest.bytes@ == journal_digest(journal@),
{
    VerifyCall { seal, image_id, journal_digest: Digest { bytes: digest_of_journal(journal) } }
}

} // verus!
