//! URI parsing and reference resolution, through the `url` crate.

use vstd::prelude::*;

verus! {

/// The serialization of `url::Url::parse` applied to the given text, when
/// the text parses as an absolute URL.
pub uninterp spec fn url_norm(s: Seq<char>) -> Option<Seq<char>>;

/// The serialization of resolving a relative reference against a base
/// URL, as `url::Url::join` does, when the base parses and the join
/// succeeds.
pub uninterp spec fn url_join_of(base: Seq<char>, rel: Seq<char>) -> Option<Seq<char>>;

/// Relies on url::Url::parse and url::Url::as_str: parses an absolute URL
/// and hands back its serialization. The result depends on the text
/// alone.
#[verifier::external_body]
pub fn url_parse_norm(s: &str) -> (r: Option<String>)
    ensures
        match r {
            Some(u) => url_norm(s@) == Some(u@),
            None => url_norm(s@) is None,
        },
{
    match url::Url::parse(s) {
        Ok(u) => Some(String::from(u.as_str())),
        Err(_) => None,
    }
}

/// Relies on url::Url::parse, url::Url::join and url::Url::as_str: parses
/// the base, resolves `rel` against it, and hands back the serialization
/// of the result. The result depends on the two texts alone.
#[verifier::external_body]
pub fn url_join_str(base: &str, rel: &str) -> (r: Option<String>)
    ensures
        match r {
            Some(u) => url_join_of(base@, rel@) == Some(u@),
            None => url_join_of(base@, rel@) is None,
        },
{
    match url::Url::parse(base) {
        Ok(b) => match b.join(rel) {
            Ok(u) => Some(String::from(u.as_str())),
            Err(_) => None,
        },
        Err(_) => None,
    }
}

} // verus!
