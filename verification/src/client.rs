//! What the client decides before it submits a request: which fields it
//! fills in, and whether the balance covers the offer.

use vstd::prelude::*;
use vstd::string::*;
use crate::contracts::{ProvingRequest, RequestId};
use crate::text::{decimal_string_u128, decimal_text};

verus! {

/// Client error.
#[derive(Clone, Debug, PartialEq, Eq)]
#[non_exhaustive]
pub enum ClientError {
    /// The storage provider failed.
    StorageProviderError(String),
    /// The market contract failed.
    MarketError(String),
    /// The request is not valid.
    RequestError(String),
    /// Anything else.
    Error(String),
}

/// A 256-bit amount of the market's currency, as 32 bytes with the highest
/// first.
#[derive(Clone, Copy, Debug, PartialEq, Eq)]
pub struct Amount {
    pub bytes: [u8; 32],
}

/// The number that the bytes stand for, the highest byte first.
pub open spec fn be_value(bytes: Seq<u8>) -> nat
    decreases bytes.len(),
{
    if bytes.len() == 0 {
        0
    } else {
        be_value(bytes.drop_last()) * 256 + bytes.last() as nat
    }
}

/// A number is at least as large as the number of any of its leading bytes.
proof fn lemma_be_value_grows(bytes: Seq<u8>, k: int)
    requires
        0 <= k <= bytes.len(),
    ensures
        be_value(bytes.subrange(0, k)) <= be_value(bytes),
    decreases bytes.len() - k,
{
    if k == bytes.len() {
        assert(bytes.subrange(0, k) =~= bytes);
    } else {
        lemma_be_value_grows(bytes, k + 1);
        assert(bytes.subrange(0, k + 1).drop_last() =~= bytes.subrange(0, k));
    }
}

impl Amount {
    /// The amount as a number.
    pub open spec fn value(&self) -> nat {
        be_value(self.bytes@)
    }

    /// The amount as a 128-bit number, if it is that small.
    pub fn to_u128(&self) -> (r: Option<u128>)
        ensures
            r == if self.value() <= u128::MAX {
                Some(self.value() as u128)
            } else {
                None
            },
    {
        let mut acc: u128 = 0;
        let mut i: usize = 0;
        assert(self.bytes@.subrange(0, 0) =~= Seq::<u8>::empty());
        while i < 32
            invariant
                i <= 32,
                acc == be_value(self.bytes@.subrange(0, i as int)),
            decreases 32 - i,
        {
            let byte = self.bytes[i];
            proof {
                assert(self.bytes@.subrange(0, i + 1).drop_last() =~= self.bytes@.subrange(
                    0,
                    i as int,
                ));
                assert(self.bytes@.subrange(0, i + 1).last() == byte);
                lemma_be_value_grows(self.bytes@, i + 1);
                assert(self.bytes@.subrange(0, 32) =~= self.bytes@);
            }
            if acc > (u128::MAX - byte as u128) / 256 {
                return None;
            }
            acc = acc * 256 + byte as u128;
            i += 1;
        }
        assert(self.bytes@.subrange(0, 32) =~= self.bytes@);
        Some(acc)
    }
}

/// Which fields of a request the client fills in before it submits it.
#[derive(Clone, Copy, Debug, PartialEq, Eq, Structural)]
pub struct MissingFields {
    /// The request has no id: the client asks the market for one.
    pub id: bool,
    /// The offer names no block at which bidding starts: the client takes
    /// the current block.
    pub bidding_start: bool,
}

/// Whether an id is zero, which stands for "not set".
pub open spec fn zero_id(id: RequestId) -> bool {
    forall|i: int| 0 <= i < 32 ==> id.bytes@[i] == 0
}

/// Says which fields of a request are not set.
pub fn missing_fields(request: &ProvingRequest) -> (missing: MissingFields)
    ensures
        missing.id == zero_id(request.id),
        missing.bidding_start == (request.offer.bidding_start == 0),
{
    MissingFields { id: request.id.is_zero(), bidding_start: request.offer.bidding_start == 0 }
}

/// The request as it is submitted: with the id and the first bidding block
/// that the client got for it, where the request had none.
pub fn fill_missing_fields(
    request: ProvingRequest,
    id: Option<RequestId>,
    current_block: Option<u64>,
) -> (filled: ProvingRequest)
    ensures
        filled.id == match id {
            Some(id) => if zero_id(request.id) {
                id
            } else {
                request.id
            },
            None => request.id,
        },
        filled.offer.bidding_start == match current_block {
            Some(block) => if request.offer.bidding_start == 0 {
                block
            } else {
                request.offer.bidding_start
            },
            None => request.offer.bidding_start,
        },
        filled.offer.max_price == request.offer.max_price,
        filled.requirements == request.requirements,
        filled.image_url == request.image_url,
        filled.input == request.input,
{
    let mut filled = request;
    match id {
        Some(id) => {
            if filled.id.is_zero() {
                filled.id = id;
            }
        },
        None => {},
    }
    match current_block {
        Some(block) => {
            if filled.offer.bidding_start == 0 {
                filled.offer.bidding_start = block;
            }
        },
        None => {},
    }
    filled
}

/// The message of a balance that does not cover the highest price.
pub open spec fn insufficient_balance_text(balance: nat, max_price: nat) -> Seq<char> {
    "Insufficient balance to cover request: "@ + decimal_text(balance) + " < "@ + decimal_text(
        max_price,
    )
}

/// Checks that the client's balance covers the highest price of its offer,
/// as a request that is submitted off chain needs it.
pub fn check_balance(balance: &Amount, max_price: u128) -> (r: Result<(), ClientError>)
    ensures
        r is Ok <==> balance.value() >= max_price,
        r matches Err(e) ==> e matches ClientError::Error(message) && message@
            == insufficient_balance_text(balance.value(), max_price as nat),
{
    match balance.to_u128() {
        Some(value) => {
            if value < max_price {
                let have = decimal_string_u128(value);
                let want = decimal_string_u128(max_price);
                let message = String::from_str("Insufficient balance to cover request: ").concat(
                    have.as_str(),
                ).concat(" < ").concat(want.as_str());
                Err(ClientError::Error(message))
            } else {
                Ok(())
            }
        },
        None => Ok(()),
    }
}

} // verus!
