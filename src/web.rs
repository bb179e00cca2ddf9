//! URL arithmetic, which the library leaves to the `url` crate (re-exported by
//! reqwest). URLs are held as their serialized text.

use vstd::prelude::*;

verus! {

/// Whether `url::Url::parse` accepts `s` as an absolute URL.
pub uninterp spec fn is_absolute_url(s: Seq<char>) -> bool;

/// The serialization of `input` resolved against the absolute URL `base`, or
/// `None` where `base` is not an absolute URL or `input` cannot be resolved.
pub uninterp spec fn url_join(base: Seq<char>, input: Seq<char>) -> Option<Seq<char>>;

/// The serialization of the absolute URL `url` with its query replaced by
/// `query`, or `None` where `url` is not an absolute URL.
pub uninterp spec fn url_with_query(url: Seq<char>, query: Seq<char>) -> Option<Seq<char>>;

/// Relies on `url::Url::parse` and `url::Url::join`: parses `base`, resolves
/// `input` against it, and gives back the serialization; the result depends on
/// the two texts alone. The serialization of a `Url` parses again (the crate's
/// own invariant check, `check_invariants`, asserts it), so a result is an
/// absolute URL.
#[verifier::external_body]
pub(crate) fn join_url(base: &str, input: &str) -> (r: Option<String>)
    ensures
        match r {
            Some(u) => url_join(base@, input@) == Some(u@) && is_absolute_url(u@),
            None => url_join(base@, input@) is None,
        },
{
    match reqwest::Url::parse(base) {
        Ok(b) => match b.join(input) {
            Ok(u) => Some(String::from(u)),
            Err(_) => None,
        },
        Err(_) => None,
    }
}

/// Relies on `url::Url::parse` and `url::Url::set_query`: parses `url`,
/// replaces its query, and gives back the serialization; the result depends on
/// the two texts alone. `set_query` cannot fail, so the call fails exactly
/// where `url` does not parse.
#[verifier::external_body]
pub(crate) fn set_url_query(url: &str, query: &str) -> (r: Option<String>)
    ensures
        match r {
            Some(u) => url_with_query(url@, query@) == Some(u@),
            None => url_with_query(url@, query@) is None,
        },
        r is Some == is_absolute_url(url@),
{
    match reqwest::Url::parse(url) {
        Ok(mut u) => {
            u.set_query(Some(query));
            Some(String::from(u))
        },
        Err(_) => None,
    }
}

/// The serialization of the absolute URL `url` with the pair `name`=`value`
/// appended to its query in form encoding, or `None` where `url` is not an
/// absolute URL.
pub uninterp spec fn url_with_pair(url: Seq<char>, name: Seq<char>, value: Seq<char>) -> Option<
    Seq<char>,
>;

/// Relies on `url::Url::parse` and `url::Url::query_pairs_mut` with
/// `append_pair`: parses `url`, appends the pair to its query, and gives back
/// the serialization; the result depends on the three texts alone. Appending
/// cannot fail, so the call fails exactly where `url` does not parse.
#[verifier::external_body]
pub(crate) fn append_url_pair(url: &str, name: &str, value: &str) -> (r: Option<String>)
    ensures
        match r {
            Some(u) => url_with_pair(url@, name@, value@) == Some(u@),
            None => url_with_pair(url@, name@, value@) is None,
        },
        r is Some == is_absolute_url(url@),
{
    match reqwest::Url::parse(url) {
        Ok(mut u) => {
            u.query_pairs_mut().append_pair(name, value);
            Some(String::from(u))
        },
        Err(_) => None,
    }
}

/// The lower-case hexadecimal digit for a value below 16.
pub open spec fn hex_digit(n: u128) -> char {
    if n < 10 {
        (n + 48) as char
    } else {
        (n + 87) as char
    }
}

/// The `k`-th of the 32 four-bit groups of `id`, the most significant first.
pub open spec fn uuid_nibble(id: u128, k: int) -> u128 {
    (id >> ((124 - 4 * k) as u128)) & 15u128
}

/// Which hexadecimal digit stands at position `i` of the hyphenated text.
pub open spec fn uuid_digit_index(i: int) -> int {
    if i < 8 {
        i
    } else if i < 13 {
        i - 1
    } else if i < 18 {
        i - 2
    } else if i < 23 {
        i - 3
    } else {
        i - 4
    }
}

/// The hyphenated lower-case text of the UUID whose 128 bits are `id`: 32
/// hexadecimal digits, most significant first, in groups of 8, 4, 4, 4 and 12
/// separated by hyphens.
pub open spec fn uuid_hyphenated(id: u128) -> Seq<char> {
    Seq::new(
        36,
        |i: int|
            if i == 8 || i == 13 || i == 18 || i == 23 {
                '-'
            } else {
                hex_digit(uuid_nibble(id, uuid_digit_index(i)))
            },
    )
}

/// Relies on `uuid::Uuid::from_u128` and the `Display` of `Uuid`, which writes
/// the hyphenated lower-case form; the text depends on the bits alone.
#[verifier::external_body]
pub(crate) fn uuid_text(id: u128) -> (r: String)
    ensures
        r@ == uuid_hyphenated(id),
{
    uuid::Uuid::from_u128(id).to_string()
}

} // verus!
