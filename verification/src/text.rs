//! Comparing and searching text.

use vstd::prelude::*;
use vstd::utf8::encode_utf8_decode_utf8;
use crate::bytes::bytes_equal;

verus! {

/// What a list of strings holds, as text.
pub open spec fn texts(list: Seq<String>) -> Seq<Seq<char>> {
    Seq::new(list.len(), |i: int| list[i]@)
}

/// Whether two pieces of text are the same.
pub fn str_eq(a: &str, b: &str) -> (same: bool)
    ensures
        same == (a@ == b@),
{
    proof {
        encode_utf8_decode_utf8(a@);
        encode_utf8_decode_utf8(b@);
    }
    bytes_equal(a.as_bytes(), b.as_bytes())
}

/// `text` begins with `prefix`.
pub open spec fn has_prefix(text: Seq<char>, prefix: Seq<char>) -> bool {
    prefix.len() <= text.len() && text.take(prefix.len() as int) == prefix
}

/// Whether `text` begins with `prefix`.
pub fn starts_with(text: &str, prefix: &str) -> (found: bool)
    ensures
        found == has_prefix(text@, prefix@),
{
    let n = prefix.unicode_len();
    if text.unicode_len() < n {
        return false;
    }
    let mut i: usize = 0;
    while i < n
        invariant
            i <= n,
            n == prefix@.len(),
            n <= text@.len(),
            text@.take(i as int) == prefix@.take(i as int),
        decreases n - i,
    {
        if text.get_char(i) != prefix.get_char(i) {
            assert(text@.take(n as int)[i as int] != prefix@[i as int]);
            return false;
        }
        i += 1;
        assert(text@.take(i as int) =~= text@.take(i - 1).push(text@[i - 1]));
        assert(prefix@.take(i as int) =~= prefix@.take(i - 1).push(prefix@[i - 1]));
    }
    assert(prefix@.take(n as int) =~= prefix@);
    true
}

/// Whether `needle` stands in `list`.
pub fn contains_text(list: &Vec<String>, needle: &str) -> (found: bool)
    ensures
        found == exists|i: int| 0 <= i < list.len() && (#[trigger] list[i])@ == needle@,
{
    let mut i: usize = 0;
    while i < list.len()
        invariant
            i <= list.len(),
            forall|j: int| 0 <= j < i ==> (#[trigger] list[j])@ != needle@,
        decreases list.len() - i,
    {
        if str_eq(list[i].as_str(), needle) {
            return true;
        }
        i += 1;
    }
    false
}

/// The first position from `from` on at which `c` stands in `text`, or the
/// length of `text` if there is none.
pub open spec fn first_index_from(text: Seq<char>, c: char, from: int) -> int
    decreases text.len() - from,
{
    if from < 0 || from >= text.len() {
        text.len() as int
    } else if text[from] == c {
        from
    } else {
        first_index_from(text, c, from + 1)
    }
}

/// Looks for `c` in `text` from position `from` on.
pub fn find_char(text: &str, c: char, from: usize) -> (index: usize)
    ensures
        index == first_index_from(text@, c, from as int),
        index <= text@.len(),
        from <= text@.len() ==> from <= index,
{
    let n = text.unicode_len();
    if from >= n {
        return n;
    }
    let mut i = from;
    while i < n
        invariant
            from <= i <= n,
            n == text@.len(),
            first_index_from(text@, c, from as int) == first_index_from(text@, c, i as int),
        decreases n - i,
    {
        if text.get_char(i) == c {
            return i;
        }
        i += 1;
    }
    i
}

/// The characters of `text` from `from` up to `to`, as a string of their
/// own.
pub fn slice_text(text: &str, from: usize, to: usize) -> (part: String)
    requires
        from <= to <= text@.len(),
    ensures
        part@ == text@.subrange(from as int, to as int),
{
    text.substring_char(from, to).to_owned()
}

/// `first` followed by `second`.
pub fn join_text(first: &str, second: &str) -> (joined: String)
    ensures
        joined@ == first@ + second@,
{
    let mut joined = first.to_owned();
    joined.append(second);
    joined
}

} // verus!
