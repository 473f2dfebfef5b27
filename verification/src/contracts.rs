//! The values of the market contract that the client works with: request
//! ids, requests and their predicates, seals, and failed transactions.

use vstd::prelude::*;
use vstd::array::*;
use vstd::string::*;
use crate::bytes::{bytes_eq, has_prefix, starts_with};
use crate::ids::{parse_hex, Digest};

verus! {

/// Status of a proving request.
#[derive(Clone, Copy, Debug, PartialEq, Eq, Structural)]
pub enum ProofStatus {
    /// The request has expired.
    Expired,
    /// The request is locked in and waiting for fulfillment.
    Locked,
    /// The request has been fulfilled.
    Fulfilled,
    /// The state holds no evidence of the request: it may be open for
    /// bidding, or it may not exist.
    Unknown,
}

/// A 20-byte account address.
#[derive(Clone, Copy, Debug, PartialEq, Eq)]
pub struct Address {
    pub bytes: [u8; 20],
}

/// The 256-bit id of a request, as 32 bytes with the highest first.
#[derive(Clone, Copy, Debug, PartialEq, Eq)]
pub struct RequestId {
    pub bytes: [u8; 32],
}

/// The signing domain of the market contract, without a salt.
#[derive(Clone, Debug, PartialEq, Eq)]
pub struct EIP721DomainSaltless {
    pub name: String,
    pub version: String,
    pub chain_id: u64,
    pub verifying_contract: Address,
}

/// The signing domain of the market contract at `addr` on chain `chain_id`.
pub fn eip712_domain(addr: Address, chain_id: u64) -> (domain: EIP721DomainSaltless)
    ensures
        domain.name@ == "IProofMarket"@,
        domain.version@ == "1"@,
        domain.chain_id == chain_id,
        domain.verifying_contract == addr,
{
    EIP721DomainSaltless {
        name: String::from_str("IProofMarket"),
        version: String::from_str("1"),
        chain_id,
        verifying_contract: addr,
    }
}

/// The four bytes of `index`, the highest first.
pub open spec fn index_bytes(index: u32) -> Seq<u8> {
    seq![
        (index / 0x100_0000) as u8,
        ((index / 0x1_0000) % 0x100) as u8,
        ((index / 0x100) % 0x100) as u8,
        (index % 0x100) as u8,
    ]
}

/// The id of the request with number `index` of the client at `addr`: the
/// address shifted left by 32 bits, with the number in the low 32 bits.
pub open spec fn request_id_bytes(addr: Seq<u8>, index: u32) -> Seq<u8> {
    Seq::new(8, |i: int| 0u8) + addr + index_bytes(index)
}

/// The id of the request with number `id` of the client at `addr`.
pub fn request_id(addr: &Address, id: u32) -> (request_id: RequestId)
    ensures
        request_id.bytes@ == request_id_bytes(addr.bytes@, id),
{
    let mut bytes = [0u8;32];
    let mut i: usize = 0;
    while i < 20
        invariant
            i <= 20,
            forall|j: int| 0 <= j < 8 ==> bytes@[j] == 0,
            forall|j: int| 0 <= j < i ==> bytes@[8 + j] == addr.bytes@[j],
        decreases 20 - i,
    {
        bytes.set(8 + i, addr.bytes[i]);
        i += 1;
    }
    bytes.set(28, (id / 0x100_0000) as u8);
    bytes.set(29, ((id / 0x1_0000) % 0x100) as u8);
    bytes.set(30, ((id / 0x100) % 0x100) as u8);
    bytes.set(31, (id % 0x100) as u8);
    assert(bytes@ =~= request_id_bytes(addr.bytes@, id));
    RequestId { bytes }
}

impl RequestId {
    /// Whether the id is zero, which stands for "not set".
    pub fn is_zero(&self) -> (zero: bool)
        ensures
            zero == (forall|i: int| 0 <= i < 32 ==> self.bytes@[i] == 0),
    {
        let mut i: usize = 0;
        while i < 32
            invariant
                i <= 32,
                forall|j: int| 0 <= j < i ==> self.bytes@[j] == 0,
            decreases 32 - i,
        {
            if self.bytes[i] != 0 {
                return false;
            }
            i += 1;
        }
        true
    }

    /// Whether two ids are the same number.
    pub fn same_as(&self, other: &RequestId) -> (same: bool)
        ensures
            same == (self.bytes@ == other.bytes@),
    {
        bytes_eq(self.bytes.as_slice(), other.bytes.as_slice())
    }
}

/// How a predicate reads a journal.
#[derive(Clone, Copy, Debug, PartialEq, Eq, Structural)]
pub enum PredicateType {
    /// The journal's SHA-256 digest equals the predicate's data.
    DigestMatch,
    /// The journal begins with the predicate's data.
    PrefixMatch,
    /// Not a predicate type of the contract.
    Invalid,
}

/// What a request demands of the journal.
#[derive(Clone, Debug, PartialEq, Eq)]
pub struct Predicate {
    pub predicate_type: PredicateType,
    pub data: Vec<u8>,
}

/// What a request demands of the proof.
#[derive(Clone, Debug, PartialEq, Eq)]
pub struct Requirements {
    pub image_id: Digest,
    pub predicate: Predicate,
}

/// How the input of a request is given.
#[derive(Clone, Copy, Debug, PartialEq, Eq, Structural)]
pub enum InputType {
    /// The data is the input.
    Inline,
    /// The data is the URL of the input.
    Url,
    /// Not an input type of the contract.
    Invalid,
}

/// The input of a request.
#[derive(Clone, Debug, PartialEq, Eq)]
pub struct Input {
    pub input_type: InputType,
    pub data: Vec<u8>,
}

/// What the client offers for a proof, as far as the client reads it.
#[derive(Clone, Copy, Debug, PartialEq, Eq)]
pub struct Offer {
    /// The highest price the client pays.
    pub max_price: u128,
    /// The block at which bidding starts; zero stands for "not set".
    pub bidding_start: u64,
}

/// A request for a proof.
#[derive(Clone, Debug, PartialEq, Eq)]
pub struct ProvingRequest {
    pub id: RequestId,
    pub requirements: Requirements,
    pub image_url: String,
    pub input: Input,
    pub offer: Offer,
}

impl ProvingRequest {
    /// The request with number `id` of the client at `addr`.
    pub fn new(
        id: u32,
        addr: &Address,
        requirements: Requirements,
        image_url: &str,
        input: Input,
        offer: Offer,
    ) -> (request: ProvingRequest)
        ensures
            request.id.bytes@ == request_id_bytes(addr.bytes@, id),
            request.requirements == requirements,
            request.image_url@ == image_url@,
            request.input == input,
            request.offer == offer,
    {
        ProvingRequest {
            id: request_id(addr, id),
            requirements,
            image_url: String::from_str(image_url),
            input,
            offer,
        }
    }

    /// The address of the client that the request id names: bits 32 to 191
    /// of the id.
    pub fn client_address(&self) -> (addr: Address)
        ensures
            addr.bytes@ == self.id.bytes@.subrange(8, 28),
    {
        let mut bytes = [0u8;20];
        let mut i: usize = 0;
        while i < 20
            invariant
                i <= 20,
                forall|j: int| 0 <= j < i ==> bytes@[j] == self.id.bytes@[8 + j],
            decreases 20 - i,
        {
            bytes.set(i, self.id.bytes[8 + i]);
            i += 1;
        }
        assert(bytes@ =~= self.id.bytes@.subrange(8, 28));
        Address { bytes }
    }
}

/// The client address that a request id names is the address the id was
/// made from.
pub proof fn lemma_request_id_names_its_client(addr: Seq<u8>, index: u32)
    requires
        addr.len() == 20,
    ensures
        request_id_bytes(addr, index).len() == 32,
        request_id_bytes(addr, index).subrange(8, 28) == addr,
{
    assert(request_id_bytes(addr, index).subrange(8, 28) =~= addr);
}

/// The SHA-256 digest of `data`, as `sha2` computes it.
pub uninterp spec fn sha256_digest(data: Seq<u8>) -> Seq<u8>;

/// Calls `sha2::Sha256::digest`, which returns the SHA-256 digest of its
/// argument.
#[verifier::external_body]
fn sha256(data: &[u8]) -> (digest: Vec<u8>)
    ensures
        digest@ == sha256_digest(data@),
{
    <sha2::Sha256 as sha2::Digest>::digest(data).to_vec()
}

/// Whether a journal with the given SHA-256 digest meets a predicate.
pub open spec fn predicate_holds(
    predicate_type: PredicateType,
    data: Seq<u8>,
    journal: Seq<u8>,
    journal_digest: Seq<u8>,
) -> bool {
    match predicate_type {
        PredicateType::DigestMatch => data == journal_digest,
        PredicateType::PrefixMatch => has_prefix(journal, data),
        PredicateType::Invalid => false,
    }
}

impl Predicate {
    /// Evaluates the predicate against a journal whose SHA-256 digest is
    /// `journal_digest`.
    pub fn eval_with_digest(&self, journal: &[u8], journal_digest: &[u8]) -> (holds: bool)
        requires
            self.predicate_type != PredicateType::Invalid,
        ensures
            holds == predicate_holds(self.predicate_type, self.data@, journal@, journal_digest@),
    {
        match self.predicate_type {
            PredicateType::DigestMatch => bytes_eq(self.data.as_slice(), journal_digest),
            PredicateType::PrefixMatch => starts_with(journal, self.data.as_slice()),
            PredicateType::Invalid => false,
        }
    }

    /// Evaluates the predicate against the given journal.
    pub fn eval(&self, journal: &[u8]) -> (holds: bool)
        requires
            self.predicate_type != PredicateType::Invalid,
        ensures
            holds == predicate_holds(
                self.predicate_type,
                self.data@,
                journal@,
                sha256_digest(journal@),
            ),
    {
        match self.predicate_type {
            PredicateType::DigestMatch => {
                let digest = sha256(journal);
                self.eval_with_digest(journal, digest.as_slice())
            },
            PredicateType::PrefixMatch => starts_with(journal, self.data.as_slice()),
            PredicateType::Invalid => false,
        }
    }
}

/// What a seal is made from.
#[derive(Clone, Debug, PartialEq, Eq)]
pub enum SealSource {
    /// A fake receipt with the digest of its claim.
    Fake { claim_digest: Digest },
    /// A Groth16 receipt with the digest of its verifier parameters and its
    /// seal.
    Groth16 { verifier_parameters: Digest, seal: Vec<u8> },
    /// A receipt of another kind, for which the contract has no seal.
    Unsupported,
}

/// Why no seal could be encoded.
#[derive(Clone, Copy, Debug, PartialEq, Eq, Structural)]
pub enum SealError {
    /// The receipt is neither fake nor Groth16.
    UnsupportedReceipt,
}

/// The seal of a receipt: a four-byte selector and the seal proper. A fake
/// receipt has the selector zero and its claim digest as the seal; a Groth16
/// receipt has the first four bytes of its verifier parameters as selector.
pub open spec fn seal_bytes(source: SealSource) -> Option<Seq<u8>> {
    match source {
        SealSource::Fake { claim_digest } => Some(Seq::new(4, |i: int| 0u8) + claim_digest.bytes@),
        SealSource::Groth16 { verifier_parameters, seal } => Some(
            verifier_parameters.bytes@.subrange(0, 4) + seal@,
        ),
        SealSource::Unsupported => None,
    }
}

/// Encodes the seal of a receipt as the contract takes it.
pub fn encode_seal(receipt: &SealSource) -> (r: Result<Vec<u8>, SealError>)
    ensures
        match seal_bytes(*receipt) {
            Some(bytes) => r is Ok && r->Ok_0@ == bytes,
            None => r == Err::<Vec<u8>, SealError>(SealError::UnsupportedReceipt),
        },
{
    match receipt {
        SealSource::Fake { claim_digest } => {
            let mut out: Vec<u8> = Vec::new();
            out.push(0);
            out.push(0);
            out.push(0);
            out.push(0);
            let mut i: usize = 0;
            while i < 32
                invariant
                    i <= 32,
                    out@ == Seq::new(4, |i: int| 0u8) + claim_digest.bytes@.subrange(0, i as int),
                decreases 32 - i,
            {
                out.push(claim_digest.bytes[i]);
                i += 1;
                assert(out@ =~= Seq::new(4, |i: int| 0u8) + claim_digest.bytes@.subrange(
                    0,
                    i as int,
                ));
            }
            assert(claim_digest.bytes@.subrange(0, 32) =~= claim_digest.bytes@);
            Ok(out)
        },
        SealSource::Groth16 { verifier_parameters, seal } => {
            let mut out: Vec<u8> = Vec::new();
            out.push(verifier_parameters.bytes[0]);
            out.push(verifier_parameters.bytes[1]);
            out.push(verifier_parameters.bytes[2]);
            out.push(verifier_parameters.bytes[3]);
            assert(out@ =~= verifier_parameters.bytes@.subrange(0, 4));
            let mut i: usize = 0;
            while i < seal.len()
                invariant
                    i <= seal.len(),
                    out@ == verifier_parameters.bytes@.subrange(0, 4) + seal@.subrange(0, i as int),
                decreases seal.len() - i,
            {
                out.push(seal[i]);
                i += 1;
                assert(out@ =~= verifier_parameters.bytes@.subrange(0, 4) + seal@.subrange(
                    0,
                    i as int,
                ));
            }
            assert(seal@.subrange(0, seal@.len() as int) =~= seal@);
            Ok(out)
        },
        SealSource::Unsupported => Err(SealError::UnsupportedReceipt),
    }
}

/// Which contract interface a failed call went to.
#[derive(Clone, Copy, Debug, PartialEq, Eq, Structural)]
pub enum Interface {
    SetVerifier,
    ProofMarket,
}

/// A failed contract call, as far as its decoding reads it.
#[derive(Clone, Debug, PartialEq, Eq)]
pub enum ContractFailure {
    /// The node answered with an error response, which may carry data.
    ErrorResponse { data: Option<String> },
    /// Any other failure, with its message.
    Other { message: String },
}

/// A failed transaction.
#[derive(Clone, Debug, PartialEq, Eq)]
pub enum TxnErr {
    /// An error of the set verifier contract, with its encoded form.
    SetVerifierErr(Vec<u8>),
    /// An error of the market contract, with its encoded form.
    ProofMarketErr(Vec<u8>),
    /// The error response carries no data.
    MissingData,
    /// The data of the error response is not hexadecimal.
    BytesDecode,
    /// The call failed otherwise.
    ContractErr(String),
    /// The data is no error of the interface; with the decoder's message and
    /// the data.
    DecodeErr(String, Vec<u8>),
}

/// `text` without the double quotes at its start.
pub open spec fn trim_leading_quotes(text: Seq<char>) -> Seq<char>
    decreases text.len(),
{
    if text.len() > 0 && text[0] == '"' {
        trim_leading_quotes(text.drop_first())
    } else {
        text
    }
}

/// `text` without the double quotes at its end.
pub open spec fn trim_trailing_quotes(text: Seq<char>) -> Seq<char>
    decreases text.len(),
{
    if text.len() > 0 && text.last() == '"' {
        trim_trailing_quotes(text.drop_last())
    } else {
        text
    }
}

/// `text` without the double quotes at its start and at its end.
pub open spec fn trim_quotes(text: Seq<char>) -> Seq<char> {
    trim_trailing_quotes(trim_leading_quotes(text))
}

/// Removes the double quotes at the start and at the end of `text`.
pub fn trim_quotes_of(text: &str) -> (trimmed: &str)
    ensures
        trimmed@ == trim_quotes(text@),
{
    let len = text.unicode_len();
    let mut start: usize = 0;
    assert(text@.subrange(0, len as int) =~= text@);
    while start < len && text.get_char(start) == '"'
        invariant
            start <= len,
            len == text@.len(),
            trim_leading_quotes(text@) == trim_leading_quotes(
                text@.subrange(start as int, len as int),
            ),
        decreases len - start,
    {
        assert(text@.subrange(start as int, len as int).drop_first() =~= text@.subrange(
            start + 1,
            len as int,
        ));
        start += 1;
    }
    let ghost rest = text@.subrange(start as int, len as int);
    assert(trim_leading_quotes(text@) == rest);
    let mut end: usize = len;
    while end > start && text.get_char(end - 1) == '"'
        invariant
            start <= end <= len,
            len == text@.len(),
            trim_trailing_quotes(rest) == trim_trailing_quotes(
                text@.subrange(start as int, end as int),
            ),
        decreases end - start,
    {
        assert(text@.subrange(start as int, end as int).drop_last() =~= text@.subrange(
            start as int,
            end - 1,
        ));
        end -= 1;
    }
    text.substring_char(start, end)
}

/// `text` without a leading `0x` or `0X`.
pub open spec fn strip_hex_prefix(text: Seq<char>) -> Seq<char> {
    if text.len() >= 2 && text[0] == '0' && (text[1] == 'x' || text[1] == 'X') {
        text.subrange(2, text.len() as int)
    } else {
        text
    }
}

/// The bytes that hexadecimal `text` with or without a `0x` stands for.
pub open spec fn parse_prefixed_hex(text: Seq<char>) -> Option<Seq<u8>> {
    parse_hex(strip_hex_prefix(text))
}

/// Calls `str::parse` for `alloy_primitives::Bytes`, which reads an even
/// number of hexadecimal digits of either case, after a `0x` or `0X` if
/// there is one, two digits per byte.
#[verifier::external_body]
fn bytes_from_hex(text: &str) -> (r: Option<Vec<u8>>)
    ensures
        match parse_prefixed_hex(text@) {
            Some(bytes) => r is Some && r->0@ == bytes,
            None => r is None,
        },
{
    text.parse::<alloy_primitives::Bytes>().ok().map(|bytes| bytes.to_vec())
}

/// The data that a failed call carries: the hexadecimal data of an error
/// response, read without the quotes around it.
pub fn revert_data(failure: ContractFailure) -> (r: Result<Vec<u8>, TxnErr>)
    ensures
        match failure {
            ContractFailure::ErrorResponse { data: Some(text) } => match parse_prefixed_hex(
                trim_quotes(text@),
            ) {
                Some(bytes) => r is Ok && r->Ok_0@ == bytes,
                None => r is Err && r->Err_0 is BytesDecode,
            },
            ContractFailure::ErrorResponse { data: None } => r is Err && r->Err_0 is MissingData,
            ContractFailure::Other { message } => r is Err && r->Err_0 is ContractErr
                && r->Err_0->ContractErr_0@ == message@,
        },
{
    match failure {
        ContractFailure::ErrorResponse { data } => {
            let text = match data {
                Some(text) => text,
                None => {
                    return Err(TxnErr::MissingData);
                },
            };
            match bytes_from_hex(trim_quotes_of(text.as_str())) {
                Some(bytes) => Ok(bytes),
                None => Err(TxnErr::BytesDecode),
            }
        },
        ContractFailure::Other { message } => Err(TxnErr::ContractErr(message)),
    }
}

/// The error of a failed call whose data was handed to the decoder of
/// `interface`: the interface's error where the decoder accepted the data,
/// and the decoder's message with the data where it did not.
pub fn decoded_error(interface: Interface, data: Vec<u8>, refusal: Option<String>) -> (err: TxnErr)
    ensures
        match refusal {
            Some(message) => err is DecodeErr && err->DecodeErr_0@ == message@ && err->DecodeErr_1@
                == data@,
            None => match interface {
                Interface::SetVerifier => err is SetVerifierErr && err->SetVerifierErr_0@ == data@,
                Interface::ProofMarket => err is ProofMarketErr && err->ProofMarketErr_0@ == data@,
            },
        },
{
    match refusal {
        Some(message) => TxnErr::DecodeErr(message, data),
        None => match interface {
            Interface::SetVerifier => TxnErr::SetVerifierErr(data),
            Interface::ProofMarket => TxnErr::ProofMarketErr(data),
        },
    }
}

} // verus!
