//! Session tokens: 128-bit random identifiers and their textual form.

use vstd::prelude::*;

verus! {

/// The textual form of a token: the hyphenated lower-case form that
/// `uuid::Uuid` displays for the UUID with that 128-bit value.
pub uninterp spec fn token_text(token: u128) -> Seq<char>;

/// The token that a text denotes, if `uuid::Uuid::parse_str` accepts the text.
pub uninterp spec fn parsed_token(text: Seq<char>) -> Option<u128>;

/// Whether the value carries the version and variant marks of a random
/// UUID: version 4 in bits 76 to 79, variant `10` in bits 62 and 63.
pub open spec fn is_random_uuid(token: u128) -> bool {
    token & 0xF000_C000_0000_0000_0000u128 == 0x4000_8000_0000_0000_0000u128
}

/// Draws a random token with `uuid::Uuid::new_v4`.
///
/// Claims only that the value carries the marks of a random UUID. Which
/// value comes back is left open: callers must be correct for every one.
#[verifier::external_body]
pub(crate) fn draw_token() -> (token: u128)
    ensures
        is_random_uuid(token),
{
    uuid::Uuid::new_v4().as_u128()
}

/// Renders a token with `uuid::Uuid::from_u128` and the `Display` of `Uuid`.
///
/// Claims only that the text is a function of the token alone.
#[verifier::external_body]
pub(crate) fn render_token(token: u128) -> (text: String)
    ensures
        text@ == token_text(token),
{
    uuid::Uuid::from_u128(token).to_string()
}

/// Parses a token with `uuid::Uuid::parse_str`.
///
/// Claims only that the outcome is a function of the text alone.
#[verifier::external_body]
pub(crate) fn read_token(text: &str) -> (token: Option<u128>)
    ensures
        token == parsed_token(text@),
{
    match uuid::Uuid::parse_str(text) {
        Ok(id) => Some(id.as_u128()),
        Err(_) => None,
    }
}

} // verus!
