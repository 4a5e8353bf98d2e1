//! Job ids: 128-bit numbers, written on the wire as canonical hyphenated hex.

use vstd::prelude::*;
use crate::types::DWError;

verus! {

/// The id that a text names, as `uuid` parsing reads it.
pub uninterp spec fn parsed_id(s: Seq<char>) -> Option<u128>;

/// Lower-case hex digit of `n < 16`.
pub open spec fn hex_digit(n: int) -> char {
    if n < 10 { ((48 + n) as u8) as char } else { ((87 + n) as u8) as char }
}

/// Hex digit `k` of an id, from the most significant (`k == 0`) on.
pub open spec fn nibble(id: u128, k: int) -> int {
    (id as int / vstd::arithmetic::power::pow(16, (31 - k) as nat)) % 16
}

/// Character `p` of an id's canonical text: hyphens at 8, 13, 18 and 23, the
/// 32 hex digits of the id in order elsewhere.
pub open spec fn id_char(id: u128, p: int) -> char {
    if p == 8 || p == 13 || p == 18 || p == 23 {
        '-'
    } else {
        let before = if p > 23 { 4int } else if p > 18 { 3int } else if p > 13 { 2int } else if p > 8 { 1int } else { 0int };
        hex_digit(nibble(id, p - before))
    }
}

/// `t` is the canonical hyphenated text of `id`.
pub open spec fn is_id_text(t: Seq<char>, id: u128) -> bool {
    t.len() == 36 && forall|p: int| 0 <= p < 36 ==> #[trigger] t[p] == id_char(id, p)
}

/// Relies on `getrandom::fill`: sixteen bytes from the operating system's
/// random source, or `None` when that source fails.
#[verifier::external_body]
pub(crate) fn random_bytes() -> (r: Option<[u8; 16]>) {
    let mut b = [0u8; 16];
    match getrandom::fill(&mut b) {
        Ok(()) => Some(b),
        Err(_) => None,
    }
}

/// Relies on `uuid::Builder::from_random_bytes`: the version-4 id made of
/// the bytes, taken as its 128-bit value (`as_u128`). The version nibble is 4
/// and the two variant bits are `10`.
#[verifier::external_body]
pub(crate) fn v4_id(b: [u8; 16]) -> (r: u128)
    ensures
        (r >> 76u128) & 0xfu128 == 4,
        (r >> 62u128) & 0x3u128 == 2,
{
    uuid::Builder::from_random_bytes(b).into_uuid().as_u128()
}

/// Relies on `uuid::Uuid::parse_str`: the id that `s` writes, if it writes
/// one, taken as its 128-bit value.
#[verifier::external_body]
fn parse_uuid(s: &str) -> (r: Option<u128>)
    ensures
        r == parsed_id(s@),
{
    match uuid::Uuid::parse_str(s) {
        Ok(u) => Some(u.as_u128()),
        Err(_) => None,
    }
}

/// Relies on `uuid::Uuid::from_u128` and its `Display`: the hyphenated
/// lower-case hex text of the id's 16 big-endian bytes.
#[verifier::external_body]
pub(crate) fn uuid_string(id: u128) -> (r: String)
    ensures
        is_id_text(r@, id),
{
    uuid::Uuid::from_u128(id).to_string()
}

/// The job id that a command carries; a text that is no id is refused.
pub fn command_id(text: &str) -> (r: Result<u128, DWError>)
    ensures
        parsed_id(text@) matches Some(id) ==> r == Ok::<u128, DWError>(id),
        parsed_id(text@) is None ==> r == Err::<u128, DWError>(DWError::InvalidId),
{
    match parse_uuid(text) {
        Some(id) => Ok(id),
        None => Err(DWError::InvalidId),
    }
}

} // verus!
