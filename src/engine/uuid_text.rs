//! UUIDs in text form, through the `uuid` crate.

use vstd::prelude::*;

verus! {

/// The 16 bytes of the UUID that the text `s` spells, in one of the forms
/// the `uuid` crate reads (simple, hyphenated, braced, URN); `None` for other
/// text.
pub uninterp spec fn parsed_uuid(s: Seq<char>) -> Option<Seq<u8>>;

/// Relies on `uuid::Uuid::parse_str` and `Uuid::into_bytes`: the bytes of
/// the UUID that `s` spells, or `None` when `s` spells none. The result
/// depends on the text alone.
#[verifier::external_body]
pub(crate) fn parse_uuid(s: &str) -> (r: Option<[u8; 16]>)
    ensures
        match r {
            Some(b) => parsed_uuid(s@) == Some(b@),
            None => parsed_uuid(s@) is None,
        },
{
    match uuid::Uuid::parse_str(s) {
        Ok(u) => Some(u.into_bytes()),
        Err(_) => None,
    }
}

/// The lowercase hexadecimal digit of `n` (below 16).
pub open spec fn hex_digit(n: nat) -> char {
    seq!['0', '1', '2', '3', '4', '5', '6', '7', '8', '9', 'a', 'b', 'c', 'd', 'e', 'f'][n as int]
}

/// Two lowercase hexadecimal digits per byte of `b`.
pub open spec fn hex_of(b: Seq<u8>) -> Seq<char>
    decreases b.len(),
{
    if b.len() == 0 {
        Seq::empty()
    } else {
        seq![hex_digit((b[0] / 16) as nat), hex_digit((b[0] % 16) as nat)] + hex_of(b.drop_first())
    }
}

/// The hyphenated form of the UUID with bytes `b`: groups of 4, 2, 2, 2
/// and 6 bytes in lowercase hexadecimal, joined by `-`.
pub open spec fn hyphenated(b: Seq<u8>) -> Seq<char> {
    hex_of(b.subrange(0, 4)) + seq!['-'] + hex_of(b.subrange(4, 6)) + seq!['-'] + hex_of(
        b.subrange(6, 8),
    ) + seq!['-'] + hex_of(b.subrange(8, 10)) + seq!['-'] + hex_of(b.subrange(10, 16))
}

/// Relies on `uuid::Uuid::from_bytes` and its `Display`, which writes the
/// lowercase hyphenated form.
#[verifier::external_body]
pub(crate) fn uuid_to_text(b: &[u8; 16]) -> (r: String)
    ensures
        r@ == hyphenated(b@),
{
    uuid::Uuid::from_bytes(*b).to_string()
}

} // verus!
