//! Character-level string helpers: equality, substring search, and the
//! delimiter scan used by cookie extraction.

use vstd::prelude::*;
use vstd::string::StrSliceExecFns;

verus! {

/// Compares two string slices character by character.
pub fn str_eq(a: &str, b: &str) -> (r: bool)
    ensures
        r == (a@ == b@),
{
    let a_len = a.unicode_len();
    let b_len = b.unicode_len();
    if a_len != b_len {
        return false;
    }
    let mut i: usize = 0;
    while i < a_len
        invariant
            a_len == a@.len(),
            b_len == b@.len(),
            a_len == b_len,
            i <= a_len,
            forall|j: int| 0 <= j < i ==> a@[j] == b@[j],
        decreases a_len - i,
    {
        if a.get_char(i) != b.get_char(i) {
            return false;
        }
        i = i + 1;
    }
    proof {
        assert(a@ =~= b@);
    }
    true
}

/// The needle `n` occurs in `h` starting at position `i`.
pub open spec fn contains_at(h: Seq<char>, n: Seq<char>, i: int) -> bool {
    0 <= i && i + n.len() <= h.len() && h.subrange(i, i + n.len()) == n
}

/// Position of the first occurrence of `n` in `h` at or after `i`.
pub open spec fn find_from(h: Seq<char>, n: Seq<char>, i: int) -> Option<int>
    decreases h.len() - i + 1,
{
    if i < 0 || i + n.len() > h.len() {
        None
    } else if contains_at(h, n, i) {
        Some(i)
    } else {
        find_from(h, n, i + 1)
    }
}

/// A match found by `find_from` is a real occurrence, and the first one
/// at or after the start position.
pub proof fn lemma_find_from_found(h: Seq<char>, n: Seq<char>, i: int)
    requires
        find_from(h, n, i) is Some,
    ensures
        contains_at(h, n, find_from(h, n, i)->0),
        i <= find_from(h, n, i)->0,
        forall|j: int| i <= j < find_from(h, n, i)->0 ==> !contains_at(h, n, j),
    decreases h.len() - i + 1,
{
    if !(i < 0 || i + n.len() > h.len()) && !contains_at(h, n, i) {
        lemma_find_from_found(h, n, i + 1);
    }
}

/// Position of the first occurrence of `n` in `h`, as the original search
/// performs it.
pub fn find_sub(h: &str, n: &str) -> (r: Option<usize>)
    ensures
        r is Some <==> find_from(h@, n@, 0) is Some,
        r is Some ==> find_from(h@, n@, 0) == Some(r->0 as int),
{
    let h_len = h.unicode_len();
    let n_len = n.unicode_len();
    if n_len > h_len {
        return None;
    }
    if n_len == 0 {
        proof {
            assert(h@.subrange(0, 0) =~= n@);
        }
        return Some(0);
    }
    let mut i: usize = 0;
    while i <= h_len - n_len
        invariant
            h_len == h@.len(),
            n_len == n@.len(),
            0 < n_len <= h_len,
            i <= h_len,
            find_from(h@, n@, 0) == find_from(h@, n@, i as int),
        decreases h_len - i,
    {
        let candidate = h.substring_char(i, i + n_len);
        if str_eq(candidate, n) {
            assert(contains_at(h@, n@, i as int));
            return Some(i);
        }
        assert(find_from(h@, n@, i as int) == find_from(h@, n@, i + 1));
        i = i + 1;
    }
    None
}

/// A cookie value is ended by a space or a semicolon.
pub open spec fn is_value_delim(c: char) -> bool {
    c == ' ' || c == ';'
}

/// Position of the first value delimiter in `h` at or after `i`, or the end
/// of `h` if there is none.
pub open spec fn value_end(h: Seq<char>, i: int) -> int
    decreases h.len() - i,
{
    if !(0 <= i < h.len()) {
        i
    } else if is_value_delim(h[i]) {
        i
    } else {
        value_end(h, i + 1)
    }
}

/// `value_end` stays within bounds and the span before it is delimiter-free.
pub proof fn lemma_value_end(h: Seq<char>, i: int)
    requires
        0 <= i <= h.len(),
    ensures
        i <= value_end(h, i) <= h.len(),
        forall|j: int| i <= j < value_end(h, i) ==> !is_value_delim(h[j]),
        value_end(h, i) < h.len() ==> is_value_delim(h[value_end(h, i)]),
    decreases h.len() - i,
{
    if 0 <= i < h.len() && !is_value_delim(h[i]) {
        lemma_value_end(h, i + 1);
    }
}

/// First delimiter position at or after `from`, found by a forward scan.
pub fn scan_value_end(h: &str, from: usize) -> (r: usize)
    requires
        from <= h@.len(),
    ensures
        r == value_end(h@, from as int),
{
    let h_len = h.unicode_len();
    let mut i: usize = from;
    while i < h_len
        invariant
            h_len == h@.len(),
            from <= i <= h_len,
            value_end(h@, from as int) == value_end(h@, i as int),
        decreases h_len - i,
    {
        let c = h.get_char(i);
        if c == ' ' || c == ';' {
            return i;
        }
        assert(value_end(h@, i as int) == value_end(h@, i + 1));
        i = i + 1;
    }
    h_len
}

} // verus!
