//! Character-level helpers on strings.
//!
//! Strings are compared and cut by characters, so every contract here speaks of
//! the `Seq<char>` view of its arguments.

use vstd::prelude::*;

verus! {

broadcast use vstd::string::group_string_axioms;

/// `String::push` appends one character to the end of the string.
pub assume_specification[ String::push ](s: &mut String, c: char)
    ensures
        final(s)@ == old(s)@.push(c),
;

/// The characters of `s`, in order.
pub fn chars_of(s: &str) -> (out: Vec<char>)
    ensures
        out@ == s@,
{
    let mut out: Vec<char> = Vec::new();
    for c in it: s.chars()
        invariant
            it.seq() == s@,
            out@ == s@.take(it.index()),
    {
        out.push(c);
    }
    out
}

/// The string made of `chars`, in order.
pub fn string_of(chars: &Vec<char>) -> (out: String)
    ensures
        out@ == chars@,
{
    let mut out = String::new();
    let mut i: usize = 0;
    while i < chars.len()
        invariant
            i <= chars.len(),
            out@ == chars@.take(i as int),
        decreases chars.len() - i,
    {
        out.push(chars[i]);
        i += 1;
    }
    out
}

/// Whether `whole`, read from index `start`, begins with `part`.
pub fn matches_at(whole: &Vec<char>, start: usize, part: &Vec<char>) -> (b: bool)
    requires
        start <= whole.len(),
    ensures
        b == part@.is_prefix_of(whole@.skip(start as int)),
{
    if part.len() > whole.len() - start {
        return false;
    }
    let mut i: usize = 0;
    while i < part.len()
        invariant
            start <= whole.len(),
            part.len() <= whole.len() - start,
            i <= part.len(),
            forall|j: int| 0 <= j < i ==> part@[j] == whole@[start + j],
        decreases part.len() - i,
    {
        if part[i] != whole[start + i] {
            assert(whole@.skip(start as int).subrange(0, part@.len() as int)[i as int]
                == whole@[start + i]);
            return false;
        }
        i += 1;
    }
    assert(part@ =~= whole@.skip(start as int).subrange(0, part@.len() as int));
    true
}

/// Whether `s` begins with `prefix`.
pub fn starts_with(s: &str, prefix: &str) -> (b: bool)
    ensures
        b == prefix@.is_prefix_of(s@),
{
    let whole = chars_of(s);
    let part = chars_of(prefix);
    assert(whole@.skip(0) =~= whole@);
    matches_at(&whole, 0, &part)
}

/// Whether `s` ends with `suffix`.
pub fn ends_with(s: &str, suffix: &str) -> (b: bool)
    ensures
        b == suffix@.is_suffix_of(s@),
{
    let whole = chars_of(s);
    let part = chars_of(suffix);
    if part.len() > whole.len() {
        return false;
    }
    let start = whole.len() - part.len();
    let b = matches_at(&whole, start, &part);
    assert(whole@.skip(start as int) =~= whole@.subrange(start as int, whole@.len() as int));
    assert(whole@.skip(start as int).subrange(0, part@.len() as int) =~= whole@.skip(
        start as int,
    ));
    b
}

/// Whether the character `c` occurs in `s`.
pub fn contains_char(s: &str, c: char) -> (b: bool)
    ensures
        b == s@.contains(c),
{
    let whole = chars_of(s);
    let mut i: usize = 0;
    while i < whole.len()
        invariant
            whole@ == s@,
            i <= whole.len(),
            forall|j: int| 0 <= j < i ==> whole@[j] != c,
        decreases whole.len() - i,
    {
        if whole[i] == c {
            assert(s@[i as int] == c);
            return true;
        }
        i += 1;
    }
    false
}

/// What is left of `s` once `prefix` is taken from its front; `None` where `s` does
/// not begin with `prefix`.
pub fn strip_prefix(s: &str, prefix: &str) -> (rest: Option<String>)
    ensures
        rest is Some <==> prefix@.is_prefix_of(s@),
        rest matches Some(r) ==> r@ == s@.skip(prefix@.len() as int),
{
    let whole = chars_of(s);
    let part = chars_of(prefix);
    assert(whole@.skip(0) =~= whole@);
    if !matches_at(&whole, 0, &part) {
        return None;
    }
    let mut out = String::new();
    let mut i: usize = part.len();
    while i < whole.len()
        invariant
            part.len() <= i <= whole.len(),
            out@ == whole@.subrange(part.len() as int, i as int),
        decreases whole.len() - i,
    {
        out.push(whole[i]);
        i += 1;
    }
    assert(out@ =~= whole@.skip(part.len() as int));
    Some(out)
}

/// Whether `a` and `b` hold the same characters.
pub fn same_text(a: &str, b: &str) -> (eq: bool)
    ensures
        eq == (a@ == b@),
{
    let x = chars_of(a);
    let y = chars_of(b);
    if x.len() != y.len() {
        return false;
    }
    assert(x@.skip(0) =~= x@);
    let eq = matches_at(&x, 0, &y);
    assert(eq ==> y@ =~= x@);
    eq
}

} // verus!
