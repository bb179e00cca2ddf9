//! Character-level helpers shared by the codec, name matching and URL building.

use vstd::prelude::*;

verus! {

broadcast use vstd::string::axiom_spec_iter;

/// The view of an optional value.
pub open spec fn opt_view<T: View>(o: Option<T>) -> Option<T::V> {
    match o {
        Some(t) => Some(t@),
        None => None,
    }
}

/// The characters of `s`, in order.
pub fn chars_of(s: &str) -> (v: Vec<char>)
    ensures
        v@ == s@,
{
    let mut v: Vec<char> = Vec::new();
    for c in it: s.chars()
        invariant
            it.seq() == s@,
            v@ == it.seq().take(it.index() as int),
    {
        v.push(c);
    }
    v
}

/// Relies on `String::push`: appends one character at the end.
#[verifier::external_body]
pub(crate) fn push_char(s: &mut String, c: char)
    ensures
        final(s)@ == old(s)@.push(c),
{
    s.push(c)
}

/// Relies on `String::push_str`: appends the characters of `t` at the end.
#[verifier::external_body]
pub(crate) fn push_str(s: &mut String, t: &str)
    ensures
        final(s)@ == old(s)@ + t@,
{
    s.push_str(t)
}

/// ASCII upper-case letters folded to lower case; every other character kept.
pub open spec fn fold_char(c: char) -> char {
    if 'A' <= c <= 'Z' {
        ((c as u32) + 32) as char
    } else {
        c
    }
}

pub open spec fn fold_seq(s: Seq<char>) -> Seq<char> {
    s.map_values(|c: char| fold_char(c))
}

/// Whether `q` is a prefix of `s`.
pub open spec fn is_prefix_of(q: Seq<char>, s: Seq<char>) -> bool {
    q.len() <= s.len() && s.take(q.len() as int) == q
}

/// Whether `q` occurs in `s` as a contiguous run.
pub open spec fn occurs_in(q: Seq<char>, s: Seq<char>) -> bool {
    exists|i: int| 0 <= i && i + q.len() <= s.len() && #[trigger] s.subrange(i, i + q.len()) == q
}

pub fn fold_ascii(c: char) -> (r: char)
    ensures
        r == fold_char(c),
{
    if 'A' <= c && c <= 'Z' {
        ((c as u8) + 32) as char
    } else {
        c
    }
}

/// The characters of `s` with ASCII letters in lower case.
pub fn folded_chars(s: &str) -> (r: Vec<char>)
    ensures
        r@ == fold_seq(s@),
{
    let cs = chars_of(s);
    let mut r: Vec<char> = Vec::new();
    let mut i: usize = 0;
    while i < cs.len()
        invariant
            i <= cs.len(),
            cs@ == s@,
            r@ == fold_seq(cs@.take(i as int)),
        decreases cs.len() - i,
    {
        r.push(fold_ascii(cs[i]));
        i = i + 1;
        assert(fold_seq(cs@.take(i as int)) =~= r@);
    }
    assert(cs@.take(i as int) =~= cs@);
    r
}

/// Whether `q` and `s` hold the same characters from position `at` of `s` on.
fn matches_at(q: &Vec<char>, s: &Vec<char>, at: usize) -> (r: bool)
    requires
        at + q@.len() <= s@.len(),
    ensures
        r == (s@.subrange(at as int, at + q@.len()) == q@),
{
    let n = s.len();
    let mut i: usize = 0;
    while i < q.len()
        invariant
            i <= q.len(),
            n == s@.len(),
            at + q@.len() <= s@.len(),
            forall|j: int| 0 <= j < i ==> s@[at + j] == q@[j],
        decreases q.len() - i,
    {
        if s[at + i] != q[i] {
            assert(s@.subrange(at as int, at + q@.len())[i as int] != q@[i as int]);
            return false;
        }
        i = i + 1;
    }
    assert(s@.subrange(at as int, at + q@.len()) =~= q@);
    true
}

pub fn chars_eq(a: &Vec<char>, b: &Vec<char>) -> (r: bool)
    ensures
        r == (a@ == b@),
{
    if a.len() != b.len() {
        return false;
    }
    let r = matches_at(a, b, 0);
    assert(b@.subrange(0, a@.len() as int) =~= b@);
    r
}

pub fn starts_with(s: &Vec<char>, q: &Vec<char>) -> (r: bool)
    ensures
        r == is_prefix_of(q@, s@),
{
    if q.len() > s.len() {
        return false;
    }
    let r = matches_at(q, s, 0);
    assert(s@.subrange(0, q@.len() as int) =~= s@.take(q@.len() as int));
    r
}

pub fn contains(s: &Vec<char>, q: &Vec<char>) -> (r: bool)
    ensures
        r == occurs_in(q@, s@),
{
    if q.len() > s.len() {
        return false;
    }
    let last = s.len() - q.len();
    let mut at: usize = 0;
    while at < last
        invariant
            at <= last,
            last + q@.len() == s@.len(),
            forall|j: int| 0 <= j < at ==> #[trigger] s@.subrange(j, j + q@.len()) != q@,
        decreases last - at,
    {
        if matches_at(q, s, at) {
            return true;
        }
        at = at + 1;
    }
    if matches_at(q, s, last) {
        return true;
    }
    assert forall|j: int| 0 <= j && j + q@.len() <= s@.len() implies #[trigger] s@.subrange(
        j,
        j + q@.len(),
    ) != q@ by {
        assert(j <= last);
    }
    false
}

} // verus!
