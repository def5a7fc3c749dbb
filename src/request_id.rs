//! Identifiers that tag each request.
use crate::fresh::new_id;
use vstd::prelude::*;

verus! {

/// The lowercase hexadecimal digit of a value below 16.
pub open spec fn hex_digit(n: u128) -> char {
    if n < 10 {
        (48 + n) as char
    } else {
        (87 + n) as char
    }
}

/// Hex digit `k` of the identifier, the most significant first.
pub open spec fn nibble(id: u128, k: int) -> u128 {
    (id >> ((4 * (31 - k)) as u128)) & 15
}

/// How many hyphens come before position `p` of the hyphenated text.
pub open spec fn hyphens_before(p: int) -> int {
    if p < 8 {
        0
    } else if p < 13 {
        1
    } else if p < 18 {
        2
    } else if p < 23 {
        3
    } else {
        4
    }
}

/// The hyphenated form of an identifier: its 32 lowercase hex digits, most
/// significant first, in groups of 8, 4, 4, 4 and 12 split by hyphens.
pub open spec fn uuid_text(id: u128) -> Seq<char> {
    Seq::new(
        36,
        |p: int|
            if p == 8 || p == 13 || p == 18 || p == 23 {
                '-'
            } else {
                hex_digit(nibble(id, p - hyphens_before(p)))
            },
    )
}

/// Relies on uuid's `Uuid::from_u128(..).hyphenated()`, as text: the bytes
/// of the identifier big-endian, each as two lowercase hex digits, with
/// hyphens after the 4th, 6th, 8th and 10th byte.
#[verifier::external_body]
fn hyphenated(id: u128) -> (r: String)
    ensures
        r@ == uuid_text(id),
{
    uuid::Uuid::from_u128(id).hyphenated().to_string()
}

/// Makes the id of each incoming request: a fresh random UUID.
#[derive(Clone, Copy, Debug)]
pub struct RequestUuid;

impl RequestUuid {
    /// A new request id, as hyphenated UUID text.
    pub fn make_request_id(&mut self) -> (r: String)
        ensures
            exists|id: u128| r@ == #[trigger] uuid_text(id),
            r@.len() == 36,
    {
        let id = new_id();
        hyphenated(id)
    }
}

} // verus!
