use vstd::arithmetic::power::pow;
use vstd::prelude::*;

verus! {

/// The lower-case hexadecimal digit of `n`, for `0 <= n < 16`.
pub open spec fn hex_digit(n: int) -> char {
    seq!['0', '1', '2', '3', '4', '5', '6', '7', '8', '9', 'a', 'b', 'c', 'd', 'e', 'f'][n]
}

/// The `k`-th of the 32 hexadecimal digits of `v`, most significant first.
pub open spec fn nibble(v: u128, k: int) -> int {
    (v as int / pow(16, (31 - k) as nat)) % 16
}

/// The hyphenated text of a session id: 32 lower-case hexadecimal digits in
/// groups of 8, 4, 4, 4 and 12, separated by `-`.
pub open spec fn hyphenated(v: u128) -> Seq<char> {
    Seq::new(
        36,
        |i: int|
            if i == 8 || i == 13 || i == 18 || i == 23 {
                '-'
            } else {
                let skipped: int = if i < 8 {
                    0
                } else if i < 13 {
                    1
                } else if i < 18 {
                    2
                } else if i < 23 {
                    3
                } else {
                    4
                };
                hex_digit(nibble(v, i - skipped))
            },
    )
}

/// The id that uuid's parser reads from a text, if it accepts the text.
pub uninterp spec fn parsed_uuid(s: Seq<char>) -> Option<u128>;

/// Relies on uuid's `Display` for `Uuid` (built with `Uuid::from_u128`, which
/// keeps the most significant byte first): the hyphenated lower-case form.
#[verifier::external_body]
pub(crate) fn session_id_text(id: u128) -> (r: String)
    ensures
        r@ == hyphenated(id),
{
    uuid::Uuid::from_u128(id).to_string()
}

/// Relies on `Uuid::parse_str` and `Uuid::as_u128`: the id the text names, or
/// `None` where the parser refuses it.
#[verifier::external_body]
pub(crate) fn parse_session_id(s: &str) -> (r: Option<u128>)
    ensures
        r == parsed_uuid(s@),
{
    uuid::Uuid::parse_str(s).ok().map(|u| u.as_u128())
}

/// Relies on `Uuid::new_v4`: a random id; nothing is known of its value.
#[verifier::external_body]
pub(crate) fn fresh_session_id() -> (r: u128) {
    uuid::Uuid::new_v4().as_u128()
}

} // verus!
