//! The shared-secret check on the query token of a request.
use vstd::prelude::*;
use vstd::string::StringSliceAdditionalSpecFns;
use vstd::utf8::{decode_utf8, valid_utf8};
use crate::http::{find, find_char};
use crate::text::{chars_of, has_at, starts_at, string_of};

verus! {

/// The value of the first `token=` pair among the `&`-separated pairs of
/// `u[i..qe]`.
pub open spec fn token_in(u: Seq<char>, i: int, qe: int) -> Option<Seq<char>>
    decreases qe - i,
{
    if 0 <= i <= qe {
        let se = find(u, qe, i, '&');
        if se <= qe && has_at(u.subrange(0, se), i, "token="@) {
            Some(u.subrange(i + 6, se))
        } else if i <= se < qe {
            token_in(u, se + 1, qe)
        } else {
            None
        }
    } else {
        None
    }
}

/// The `token` value of the query of `u`: the query is what stands between
/// the first `?` and the next `?` or the end.
pub open spec fn query_token(u: Seq<char>) -> Option<Seq<char>> {
    let q = find(u, u.len() as int, 0, '?');
    if q < u.len() {
        token_in(u, q + 1, find(u, u.len() as int, q + 1, '?'))
    } else {
        None
    }
}

/// The `token` value of the query string of a request target.
pub fn extract_token_from_query(uri: &str) -> (r: Option<String>)
    ensures
        match r {
            Some(t) => query_token(uri@) == Some(t@),
            None => query_token(uri@) is None,
        },
{
    let cs = chars_of(uri);
    let key = chars_of("token=");
    let q = find_char(&cs, cs.len(), 0, '?');
    if q == cs.len() {
        return None;
    }
    let qe = find_char(&cs, cs.len(), q + 1, '?');
    let mut i = q + 1;
    while i <= qe
        invariant
            q + 1 <= i,
            qe <= cs.len(),
            key@ == "token="@,
            cs@ == uri@,
            query_token(cs@) == token_in(cs@, i as int, qe as int),
            q < cs.len(),
            qe == find(cs@, cs@.len() as int, q + 1, '?'),
        decreases qe + 1 - i,
    {
        let se = find_char(&cs, qe, i, '&');
        let head = string_of(&cs, 0, se);
        let hs = chars_of(head.as_str());
        assert(hs@ == cs@.subrange(0, se as int));
        if starts_at(&hs, i, &key) {
            proof {
                reveal_strlit("token=");
            }
            assert(token_in(cs@, i as int, qe as int) == Some(cs@.subrange(i + 6, se as int)));
            return Some(string_of(&cs, i + 6, se));
        }
        if se == qe {
            assert(token_in(cs@, i as int, qe as int) is None);
            return None;
        }
        assert(token_in(cs@, i as int, qe as int) == token_in(cs@, se + 1, qe as int));
        i = se + 1;
    }
    None
}

/// An ASCII hexadecimal digit.
pub open spec fn is_hex(b: u8) -> bool {
    (48 <= b <= 57) || (65 <= b <= 70) || (97 <= b <= 102)
}

/// The value of a hexadecimal digit.
pub open spec fn hex_value(b: u8) -> int {
    if b <= 57 {
        b - 48
    } else if b <= 70 {
        b - 55
    } else {
        b - 87
    }
}

/// Percent-decoding: each `%` followed by two hexadecimal digits stands
/// for the byte they spell; every other byte stands for itself.
pub open spec fn percent_decoded(b: Seq<u8>) -> Seq<u8>
    decreases b.len(),
{
    if b.len() == 0 {
        b
    } else if b[0] == 37 && b.len() >= 3 && is_hex(b[1]) && is_hex(b[2]) {
        seq![(hex_value(b[1]) * 16 + hex_value(b[2])) as u8] + percent_decoded(
            b.subrange(3, b.len() as int),
        )
    } else {
        seq![b[0]] + percent_decoded(b.subrange(1, b.len() as int))
    }
}

/// Relies on `percent_encoding::percent_decode_str` followed by
/// `PercentDecode::decode_utf8`: the bytes are percent-decoded, and the
/// result is a string exactly when they form valid UTF-8.
#[verifier::external_body]
fn percent_decode_utf8(t: &str) -> (r: Option<String>)
    ensures
        match r {
            Some(d) => valid_utf8(percent_decoded(t.spec_bytes())) && d@ == decode_utf8(
                percent_decoded(t.spec_bytes()),
            ),
            None => !valid_utf8(percent_decoded(t.spec_bytes())),
        },
{
    match percent_encoding::percent_decode_str(t).decode_utf8() {
        Ok(d) => Some(d.into_owned()),
        Err(_) => None,
    }
}

/// Whether a token decodes to `secret`.
pub open spec fn token_matches(token: Seq<u8>, secret: Seq<char>) -> bool {
    valid_utf8(percent_decoded(token)) && decode_utf8(percent_decoded(token)) == secret
}

/// Access is open when the secret is empty; otherwise the token, once
/// percent-decoded, must equal it.
pub fn is_authorized(token: Option<&str>, secret: &str) -> (r: bool)
    ensures
        r == (secret@.len() == 0 || match token {
            Some(t) => token_matches(t.spec_bytes(), secret@),
            None => false,
        }),
{
    if secret.is_empty() {
        return true;
    }
    match token {
        None => false,
        Some(t) => match percent_decode_utf8(t) {
            None => false,
            Some(d) => d == secret.to_owned(),
        },
    }
}

} // verus!
