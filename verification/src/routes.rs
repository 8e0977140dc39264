//! The access check of the PSP event stream.

use vstd::prelude::*;

use subtle::ConstantTimeEq;

use crate::secret::SecretString;

verus! {

/// The query of an event stream request.
#[derive(Debug)]
pub struct TokenQuery {
    pub token: Option<String>,
}

/// `subtle::ConstantTimeEq::ct_eq` on byte slices, turned into a `bool`: true iff the
/// two slices are equal (different lengths give false at once).
#[verifier::external_body]
fn ct_eq_bytes(a: &[u8], b: &[u8]) -> (r: bool)
    ensures
        r == (a@ == b@),
{
    a.ct_eq(b).into()
}

/// Compares tokens in time independent of their contents (for equal lengths).
pub fn ct_token_eq(provided: &[u8], expected: &[u8]) -> (r: bool)
    ensures
        r == (provided@ == expected@),
{
    if provided.len() != expected.len() {
        let _ = ct_eq_bytes(expected, expected);
        return false;
    }
    ct_eq_bytes(provided, expected)
}

/// The token a request carries: the one given, or the empty text.
pub open spec fn provided_token(q: TokenQuery) -> Seq<char> {
    match q.token {
        Some(t) => t@,
        None => Seq::empty(),
    }
}

/// Whether a request with `query` may open the event stream: always when no token is
/// configured, else exactly when it carries the configured token.
pub fn events_authorized(query: &TokenQuery, expected: &Option<SecretString>) -> (r: bool)
    ensures
        r == (match expected {
            None => true,
            Some(e) => provided_token(*query) == e@,
        }),
{
    match expected {
        None => true,
        Some(e) => {
            let empty = String::new();
            let provided: &str = match &query.token {
                Some(t) => t.as_str(),
                None => empty.as_str(),
            };
            let exp: &str = e.expose();
            let r = ct_token_eq(provided.as_bytes(), exp.as_bytes());
            proof {
                vstd::utf8::encode_utf8_decode_utf8(provided@);
                vstd::utf8::encode_utf8_decode_utf8(exp@);
            }
            r
        },
    }
}

} // verus!
