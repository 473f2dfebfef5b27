//! Identifiers that travel through the pipeline as opaque bytes, and the
//! text they take in keys and task names.

use vstd::prelude::*;

verus! {

/// The character of one hexadecimal digit, in lower case.
pub open spec fn hex_digit_char(d: nat) -> char {
    if d == 0 {
        '0'
    } else if d == 1 {
        '1'
    } else if d == 2 {
        '2'
    } else if d == 3 {
        '3'
    } else if d == 4 {
        '4'
    } else if d == 5 {
        '5'
    } else if d == 6 {
        '6'
    } else if d == 7 {
        '7'
    } else if d == 8 {
        '8'
    } else if d == 9 {
        '9'
    } else if d == 10 {
        'a'
    } else if d == 11 {
        'b'
    } else if d == 12 {
        'c'
    } else if d == 13 {
        'd'
    } else if d == 14 {
        'e'
    } else {
        'f'
    }
}

/// Lower-case hexadecimal text of `bytes`: two digits per byte, the high
/// half first.
pub open spec fn hex_text(bytes: Seq<u8>) -> Seq<char> {
    Seq::new(
        2 * bytes.len(),
        |i: int|
            if i % 2 == 0 {
                hex_digit_char(bytes[i / 2] as nat / 16)
            } else {
                hex_digit_char(bytes[i / 2] as nat % 16)
            },
    )
}

/// The hyphenated text of a 16-byte identifier: its hexadecimal digits in
/// groups of 8, 4, 4, 4 and 12.
pub open spec fn hyphenated_text(bytes: Seq<u8>) -> Seq<char> {
    hex_text(bytes.subrange(0, 4)) + seq!['-'] + hex_text(bytes.subrange(4, 6)) + seq!['-']
        + hex_text(bytes.subrange(6, 8)) + seq!['-'] + hex_text(bytes.subrange(8, 10)) + seq!['-']
        + hex_text(bytes.subrange(10, 16))
}

/// The value of a hexadecimal digit of either case, if `c` is one.
pub open spec fn hex_value(c: char) -> Option<nat> {
    if '0' <= c <= '9' {
        Some((c as u32 - '0' as u32) as nat)
    } else if 'a' <= c <= 'f' {
        Some((c as u32 - 'a' as u32 + 10) as nat)
    } else if 'A' <= c <= 'F' {
        Some((c as u32 - 'A' as u32 + 10) as nat)
    } else {
        None
    }
}

/// The bytes that hexadecimal `text` stands for: two digits per byte, the
/// high half first. Text of odd length or with another character stands for
/// nothing.
pub open spec fn parse_hex(text: Seq<char>) -> Option<Seq<u8>> {
    if text.len() % 2 == 0 && (forall|i: int| 0 <= i < text.len() ==> hex_value(#[trigger] text[i]) is Some) {
        Some(
            Seq::new(
                text.len() / 2,
                |i: int| (16 * hex_value(text[2 * i])->0 + hex_value(text[2 * i + 1])->0) as u8,
            ),
        )
    } else {
        None
    }
}

/// The digest that `text` stands for: 64 hexadecimal digits.
pub open spec fn parse_digest(text: Seq<char>) -> Option<Seq<u8>> {
    if text.len() == 64 {
        parse_hex(text)
    } else {
        None
    }
}

/// Identifies one job.
#[derive(Clone, Copy, Debug, PartialEq, Eq)]
pub struct JobId {
    pub bytes: [u8; 16],
}

/// Identifies one stream of the task database.
#[derive(Clone, Copy, Debug, PartialEq, Eq)]
pub struct StreamId {
    pub bytes: [u8; 16],
}

/// A 32-byte digest.
#[derive(Clone, Copy, Debug, PartialEq, Eq)]
pub struct Digest {
    pub bytes: [u8; 32],
}

/// Calls `hex::encode`, which writes each byte as two lower-case hexadecimal
/// digits, the high half first.
#[verifier::external_body]
pub(crate) fn hex_encode(bytes: &[u8]) -> (text: String)
    ensures
        text@ == hex_text(bytes@),
{
    hex::encode(bytes)
}

/// Calls `uuid::Uuid::from_bytes` and the identifier's `to_string`, which
/// writes the sixteen bytes in lower-case hexadecimal with hyphens after the
/// 4th, 6th, 8th and 10th byte.
#[verifier::external_body]
pub(crate) fn uuid_text(bytes: &[u8; 16]) -> (text: String)
    ensures
        text@ == hyphenated_text(bytes@),
{
    uuid::Uuid::from_bytes(*bytes).to_string()
}

/// Calls `hex::FromHex::from_hex` for a 32-byte array, which accepts exactly
/// 64 hexadecimal digits of either case and reads them two per byte.
#[verifier::external_body]
pub(crate) fn digest_from_hex(text: &str) -> (r: Option<[u8; 32]>)
    ensures
        match parse_digest(text@) {
            Some(bytes) => r is Some && r->0@ == bytes,
            None => r is None,
        },
{
    <[u8; 32] as hex::FromHex>::from_hex(text).ok()
}

impl JobId {
    /// The text of the identifier as it stands in keys.
    pub open spec fn text(&self) -> Seq<char> {
        hyphenated_text(self.bytes@)
    }

    /// Writes the identifier as hyphenated lower-case hexadecimal text.
    pub fn to_text(&self) -> (text: String)
        ensures
            text@ == self.text(),
    {
        uuid_text(&self.bytes)
    }
}

impl Digest {
    /// The text of the digest as it stands in keys.
    pub open spec fn text(&self) -> Seq<char> {
        hex_text(self.bytes@)
    }

    /// Reads a digest from 64 hexadecimal digits.
    pub fn from_text(text: &str) -> (r: Option<Digest>)
        ensures
            match parse_digest(text@) {
                Some(bytes) => r is Some && r->0.bytes@ == bytes,
                None => r is None,
            },
    {
        match digest_from_hex(text) {
            Some(bytes) => Some(Digest { bytes }),
            None => None,
        }
    }

    /// Whether two digests hold the same bytes.
    pub fn same_as(&self, other: &Digest) -> (same: bool)
        ensures
            same == (self.bytes@ == other.bytes@),
    {
        let mut i: usize = 0;
        while i < 32
            invariant
                i <= 32,
                forall|j: int| 0 <= j < i ==> self.bytes@[j] == other.bytes@[j],
            decreases 32 - i,
        {
            if self.bytes[i] != other.bytes[i] {
                return false;
            }
            i += 1;
        }
        assert(self.bytes@ =~= other.bytes@);
        true
    }

    /// Writes the digest as lower-case hexadecimal text.
    pub fn to_text(&self) -> (text: String)
        ensures
            text@ == self.text(),
    {
        hex_encode(self.bytes.as_slice())
    }
}

} // verus!
