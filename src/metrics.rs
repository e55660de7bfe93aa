//! The line-protocol body and the credentials with which a reading is sent to
//! the metrics store.
use vstd::prelude::*;
use vstd::string::StringSliceAdditionalSpecFns;

use crate::text::{push_signed_decimal, signed_decimal};

verus! {

broadcast use vstd::string::group_string_axioms;

/// The name of the measurement.
pub const MEASUREMENT: &'static str = "traffic";

/// What separates the tags from the field.
pub const FIELD_PREFIX: &'static str = " month_cumulative=";

/// The path that writes to a database of the metrics store.
pub const WRITE_PATH: &'static str = "/write?db=";

/// Every tag, each preceded by a comma.
pub open spec fn tag_suffix(tags: Seq<Seq<char>>) -> Seq<char>
    decreases tags.len(),
{
    if tags.len() == 0 {
        Seq::empty()
    } else {
        tag_suffix(tags.drop_last()) + seq![','] + tags.last()
    }
}

/// The texts of the tags.
pub open spec fn tag_texts(tags: Seq<String>) -> Seq<Seq<char>> {
    tags.map_values(|t: String| t@)
}

/// The line that records `total` under `tags`:
/// `traffic,<tag>,<tag> month_cumulative=<total>`.
pub open spec fn metrics_line_of(total: i64, tags: Seq<Seq<char>>) -> Seq<char> {
    MEASUREMENT@ + tag_suffix(tags) + FIELD_PREFIX@ + signed_decimal(total as int)
}

/// The line-protocol body that records the total traffic.
pub fn metrics_line(total_traffic: i64, tags: &Vec<String>) -> (r: String)
    ensures
        r@ == metrics_line_of(total_traffic, tag_texts(tags@)),
{
    let mut r = String::new();
    r.append(MEASUREMENT);
    let mut i: usize = 0;
    while i < tags.len()
        invariant
            i <= tags@.len(),
            r@ == MEASUREMENT@ + tag_suffix(tag_texts(tags@.subrange(0, i as int))),
        decreases tags@.len() - i,
    {
        r.append(",");
        r.append(tags[i].as_str());
        proof {
            let next = tag_texts(tags@.subrange(0, i + 1));
            assert(next.drop_last() =~= tag_texts(tags@.subrange(0, i as int)));
            assert(next.last() == tags@[i as int]@);
            reveal_strlit(",");
            assert(","@ =~= seq![',']);
            assert(tag_suffix(next) == tag_suffix(next.drop_last()) + seq![','] + next.last());
            assert(r@ =~= MEASUREMENT@ + tag_suffix(next));
        }
        i += 1;
    }
    assert(tags@.subrange(0, i as int) =~= tags@);
    r.append(FIELD_PREFIX);
    push_signed_decimal(&mut r, total_traffic);
    r
}

/// The path, under the store's address, that writes to `database`.
pub fn write_path(database: &str) -> (r: String)
    ensures
        r@ == WRITE_PATH@ + database@,
{
    let mut r = String::new();
    r.append(WRITE_PATH);
    r.append(database);
    r
}

/// The standard base64 encoding of `data`.
pub uninterp spec fn base64_of(data: Seq<u8>) -> Seq<char>;

/// Relies on `base64::encode`: the standard alphabet with padding, a function
/// of the bytes alone.
#[verifier::external_body]
fn base64_encode(data: &[u8]) -> (r: String)
    ensures
        r@ == base64_of(data@),
{
    base64::encode(data)
}

/// The value of an `Authorization` header for HTTP basic authentication.
pub open spec fn basic_authorization_of(username: Seq<char>, password: Seq<char>) -> Seq<char> {
    "Basic "@ + base64_of(vstd::utf8::encode_utf8(username + ":"@ + password))
}

/// The `Authorization` header value that carries `username` and `password`.
pub fn basic_authorization(username: &str, password: &str) -> (r: String)
    ensures
        r@ == basic_authorization_of(username@, password@),
{
    let mut credentials = String::new();
    credentials.append(username);
    credentials.append(":");
    let mut r = String::new();
    r.append("Basic ");
    credentials.append(password);
    let encoded = base64_encode(credentials.as_str().as_bytes());
    r.append(encoded.as_str());
    r
}

} // verus!
