//! Search terms and endpoint addresses for the outbound calls.
//!
//! The lookup term is built as `"{title} {year}"` when the release year
//! is known and as the bare title otherwise; it is percent-encoded
//! before it enters a query string.

use vstd::prelude::*;
use vstd::string::StringExecFns;
use crate::text::{i32_chars, spec_i32_chars, string_from_chars};

verus! {

/// The percent-encoding of a string: every byte of its UTF-8 form except
/// alphanumerics and `-`, `_`, `.`, `~` rendered as a `%` escape. A
/// function of the characters alone.
pub uninterp spec fn percent_encoding_of(s: Seq<char>) -> Seq<char>;

/// Relies on `urlencoding::encode`: percent-encodes every byte except
/// alphanumerics and `-`, `_`, `.`, `~`, deterministically from the
/// input characters alone; an empty input stays empty.
#[verifier::external_body]
pub fn percent_encode(s: &str) -> (r: String)
    ensures
        r@ == percent_encoding_of(s@),
        s@.len() == 0 ==> r@.len() == 0,
{
    urlencoding::encode(s).into_owned()
}

/// The lookup term for a title: `"{title} {year}"` when the year is
/// known, the bare title otherwise.
pub open spec fn spec_search_term(title: Seq<char>, year: Option<i32>) -> Seq<char> {
    match year {
        Some(y) => title + " "@ + spec_i32_chars(y as int),
        None => title,
    }
}

pub fn search_term(title: &str, year: Option<i32>) -> (r: String)
    ensures
        r@ == spec_search_term(title@, year),
{
    match year {
        None => title.to_owned(),
        Some(y) => {
            let mut t = title.to_owned();
            t.append(" ");
            let digits = i32_chars(y);
            let ds = string_from_chars(&digits);
            t.append(ds.as_str());
            t
        },
    }
}

/// A manager endpoint address: base, path, and the key as the query.
pub fn api_url(base: &str, path: &str, key: &str) -> (u: String)
    ensures
        u@ == base@ + path@ + "?apikey="@ + key@,
{
    let mut u = base.to_owned();
    u.append(path);
    u.append("?apikey=");
    u.append(key);
    u
}

/// A manager lookup address: base, lookup path, the percent-encoded
/// term, and the key.
pub fn lookup_url(base: &str, path: &str, term: &str, key: &str) -> (u: String)
    ensures
        u@ == base@ + path@ + "?term="@ + percent_encoding_of(term@) + "&apikey="@ + key@,
{
    let mut u = base.to_owned();
    u.append(path);
    u.append("?term=");
    let enc = percent_encode(term);
    u.append(enc.as_str());
    u.append("&apikey=");
    u.append(key);
    u
}

} // verus!
