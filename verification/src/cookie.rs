//! Session-id extraction from a raw cookie header.
//!
//! The entry is located by substring search (not by a strict cookie-grammar
//! parse, for compatibility with existing deployments) and its value runs up
//! to, but excludes, the next space or semicolon, or the end of the header.

use vstd::prelude::*;
use vstd::string::StrSliceExecFns;
use crate::text::{contains_at, find_from, find_sub, is_value_delim, lemma_find_from_found,
    lemma_value_end, scan_value_end, value_end};

verus! {

/// The value of the named cookie entry: the span after the first occurrence
/// of `name`, up to the first space or semicolon.
pub open spec fn extract_cookie_spec(cookie: Seq<char>, name: Seq<char>) -> Option<Seq<char>> {
    match find_from(cookie, name, 0) {
        Some(i) => Some(
            cookie.subrange(i + name.len(), value_end(cookie, i + name.len())),
        ),
        None => None,
    }
}

/// Locates `element_name` in `cookie` and returns the value that follows it,
/// ended by the next space or semicolon; `None` when the name does not occur.
pub fn extract_cookie_element(cookie: &str, element_name: &str) -> (r: Option<String>)
    ensures
        r is Some <==> extract_cookie_spec(cookie@, element_name@) is Some,
        r is Some ==> extract_cookie_spec(cookie@, element_name@) == Some(r->0@),
{
    let position = find_sub(cookie, element_name);
    match position {
        Some(p) => {
            proof {
                lemma_find_from_found(cookie@, element_name@, 0);
            }
            let cookie_len = cookie.unicode_len();
            assert(p + element_name@.len() <= cookie_len);
            let pos = p + element_name.unicode_len();
            let end = scan_value_end(cookie, pos);
            proof {
                lemma_value_end(cookie@, pos as int);
            }
            let value = cookie.substring_char(pos, end);
            Some(value.to_owned())
        },
        None => None,
    }
}

/// When the header is `prefix + name + value + rest` with no earlier
/// occurrence of `name`, no delimiter inside `value`, and `rest` either empty
/// or opening with a delimiter, extraction returns exactly `value`.
pub proof fn lemma_extract_delimited(
    cookie: Seq<char>,
    name: Seq<char>,
    prefix: Seq<char>,
    value: Seq<char>,
    rest: Seq<char>,
)
    requires
        cookie == prefix + name + value + rest,
        forall|j: int| 0 <= j < prefix.len() ==> !contains_at(cookie, name, j),
        forall|j: int| 0 <= j < value.len() ==> !is_value_delim(value[j]),
        rest.len() > 0 ==> is_value_delim(rest[0]),
    ensures
        extract_cookie_spec(cookie, name) == Some(value),
{
    let start = prefix.len() as int;
    assert(cookie.subrange(start, start + name.len()) =~= name);
    assert(contains_at(cookie, name, start));
    lemma_find_from_mono(cookie, name, 0, start);
    assert(find_from(cookie, name, 0) is Some);
    lemma_find_from_found(cookie, name, 0);
    let found = find_from(cookie, name, 0)->0;
    assert(found == start) by {
        if found < start {
            assert(!contains_at(cookie, name, found));
        }
        if found > start {
            assert(!contains_at(cookie, name, start));
        }
    }
    let vstart = start + name.len();
    let vend = vstart + value.len();
    lemma_value_end(cookie, vstart);
    let e = value_end(cookie, vstart);
    assert(forall|j: int| vstart <= j < vend ==> cookie[j] == value[j - vstart]);
    assert(e == vend) by {
        if e < vend {
            assert(is_value_delim(cookie[e]));
            assert(cookie[e] == value[e - vstart]);
        }
        if e > vend {
            assert(vend < cookie.len());
            assert(cookie[vend] == rest[0]);
            assert(!is_value_delim(cookie[vend]));
        }
    }
    assert(cookie.subrange(vstart, vend) =~= value);
}

/// When `name` occurs nowhere in the header, extraction returns nothing.
pub proof fn lemma_extract_absent(cookie: Seq<char>, name: Seq<char>)
    requires
        forall|j: int| 0 <= j ==> !contains_at(cookie, name, j),
    ensures
        extract_cookie_spec(cookie, name) is None,
{
    if find_from(cookie, name, 0) is Some {
        lemma_find_from_found(cookie, name, 0);
    }
}

/// A search started earlier finds a match wherever a later start does.
proof fn lemma_find_from_mono(h: Seq<char>, n: Seq<char>, i: int, k: int)
    requires
        0 <= i <= k,
        contains_at(h, n, k),
    ensures
        find_from(h, n, i) is Some,
    decreases k - i,
{
    if i < k && !contains_at(h, n, i) {
        lemma_find_from_mono(h, n, i + 1, k);
    }
}

} // verus!
