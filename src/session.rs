//! The session cookie: encoding the session identifier for outgoing requests
//! and decoding it from the router's `Set-Cookie` header.
use vstd::prelude::*;

use crate::error::TrafficError;
use crate::text::{
    all_digits, chars_of, decimal, find_chars, find_from, is_digit, is_first_at,
    lemma_decimal_reads_back, lemma_first_unique, matches_at, occurs_at, parse_u64,
    parse_u64_chars, push_decimal, slice_chars,
};

verus! {

broadcast use vstd::string::group_string_axioms;

/// The cookie that names the session.
pub const SESSION_KEY: &'static str = "SessionID_R3=";

/// The cookie sent before a session exists.
pub const LOGIN_COOKIE: &'static str = "Language=en_us.";

/// What precedes the session identifier in the `Cookie` header.
pub const COOKIE_PREFIX: &'static str = "Language=en_us; SessionID_R3=";

/// The `Cookie` header value that carries session `id`.
pub open spec fn cookie_header(id: u64) -> Seq<char> {
    COOKIE_PREFIX@ + decimal(id as nat)
}

/// The `Cookie` header value for session `session_id`.
pub fn build_cookie_header(session_id: u64) -> (r: String)
    ensures
        r@ == cookie_header(session_id),
{
    let mut r = String::new();
    r.append(COOKIE_PREFIX);
    push_decimal(&mut r, session_id);
    r
}

/// The session identifier that a `Set-Cookie` header value gives: the text
/// before the first `;` must start with the session key, and what follows the
/// key there is the identifier.
pub open spec fn session_id_of(header: Option<Seq<char>>) -> Result<u64, TrafficError> {
    match header {
        None => Err(TrafficError::NoCookie),
        Some(h) => match find_from(h, seq![';'], 0) {
            None => Err(TrafficError::NoCookie),
            Some(k) => {
                let head = h.subrange(0, k);
                let key = SESSION_KEY@;
                if !(key.len() <= head.len() && head.subrange(0, key.len() as int) == key) {
                    Err(TrafficError::NoSessionId)
                } else {
                    match parse_u64(head.skip(key.len() as int)) {
                        Some(n) => Ok(n),
                        None => Err(TrafficError::InvalidSessionId),
                    }
                }
            },
        },
    }
}

/// Decodes the session identifier from the login response's `Set-Cookie`
/// header, if the response had one.
pub fn extract_session_id(set_cookie: Option<&str>) -> (r: Result<u64, TrafficError>)
    ensures
        r == session_id_of(
            match set_cookie {
                Some(h) => Some(h@),
                None => None,
            },
        ),
{
    let header = match set_cookie {
        Some(h) => h,
        None => {
            return Err(TrafficError::NoCookie);
        },
    };
    let h = chars_of(header);
    let semicolon: Vec<char> = vec![';'];
    assert(semicolon@ =~= seq![';']);
    let k = match find_chars(&h, &semicolon, 0) {
        Some(k) => k,
        None => {
            return Err(TrafficError::NoCookie);
        },
    };
    let key = chars_of(SESSION_KEY);
    let ghost head = h@.subrange(0, k as int);
    if !(key.len() <= k && matches_at(&h, &key, 0)) {
        proof {
            if key@.len() <= head.len() {
                assert(head.subrange(0, key@.len() as int) =~= h@.subrange(0, key@.len() as int));
            }
        }
        return Err(TrafficError::NoSessionId);
    }
    assert(head.subrange(0, key@.len() as int) =~= h@.subrange(0, key@.len() as int));
    let digits = slice_chars(&h, key.len(), k);
    assert(digits@ =~= head.skip(key@.len() as int));
    match parse_u64_chars(&digits) {
        Some(n) => Ok(n),
        None => Err(TrafficError::InvalidSessionId),
    }
}

/// Decoding inverts the router's cookie: for every number `n` that fits in 64
/// bits, the header `SessionID_R3=<n>; Path=/` yields the session `n`.
pub proof fn lemma_session_cookie_decodes(n: u64)
    ensures
        session_id_of(Some(SESSION_KEY@ + decimal(n as nat) + "; Path=/"@)) == Ok::<u64, TrafficError>(n),
{
    reveal_strlit("SessionID_R3=");
    reveal_strlit("; Path=/");
    let key = SESSION_KEY@;
    let d = decimal(n as nat);
    let tail = "; Path=/"@;
    let h = key + d + tail;
    lemma_decimal_reads_back(n as nat);
    let k: int = (key.len() + d.len()) as int;
    assert(h.subrange(k, k + 1) =~= seq![';']);
    assert forall|j: int| 0 <= j < k implies !occurs_at(h, seq![';'], j) by {
        assert(h.subrange(j, j + 1)[0] == h[j]);
        if j >= key.len() {
            assert(h[j] == d[j - key.len()]);
            assert(is_digit(d[j - key.len()]));
        }
    }
    assert(is_first_at(h, seq![';'], 0, k));
    lemma_first_unique(h, seq![';'], 0, k);
    let head = h.subrange(0, k);
    assert(head.subrange(0, key.len() as int) =~= key);
    assert(head.skip(key.len() as int) =~= d);
    assert(is_digit(d[0]));
    assert(all_digits(d));
}

} // verus!
