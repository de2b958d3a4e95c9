//! Comparing and splitting strings, with contracts over the characters they hold.
use vstd::prelude::*;
use vstd::slice::*;
use vstd::utf8::*;

verus! {

/// `pattern` stands in `text` at position `at`.
pub open spec fn occurs_at<T>(text: Seq<T>, pattern: Seq<T>, at: int) -> bool {
    0 <= at <= text.len() - pattern.len() && text.subrange(at, at + pattern.len()) == pattern
}

/// The first position at which `pattern` stands in `text` is `at`.
pub open spec fn first_occurrence<T>(text: Seq<T>, pattern: Seq<T>, at: int) -> bool {
    occurs_at(text, pattern, at) && forall|i: int| 0 <= i < at ==> !occurs_at(text, pattern, i)
}

/// What stands before and after the first `pattern` in `text`, if it stands there at all.
pub open spec fn split_at_first<T>(text: Seq<T>, pattern: Seq<T>) -> Option<(Seq<T>, Seq<T>)> {
    if exists|at: int| first_occurrence(text, pattern, at) {
        let at = choose|at: int| first_occurrence(text, pattern, at);
        Some((text.take(at), text.skip(at + pattern.len())))
    } else {
        None
    }
}

proof fn lemma_encode_concat(a: Seq<char>, b: Seq<char>)
    ensures
        encode_utf8(a + b) == encode_utf8(a) + encode_utf8(b),
    decreases a.len(),
{
    if a.len() == 0 {
        assert(a + b =~= b);
        assert(encode_utf8(a) + encode_utf8(b) =~= encode_utf8(b));
    } else {
        lemma_encode_concat(a.drop_first(), b);
        assert((a + b).drop_first() =~= a.drop_first() + b);
        assert((a + b)[0] == a[0]);
        assert(encode_scalar(a[0] as u32) + (encode_utf8(a.drop_first()) + encode_utf8(b))
            =~= encode_scalar(a[0] as u32) + encode_utf8(a.drop_first()) + encode_utf8(b));
    }
}

proof fn lemma_encode_injective(a: Seq<char>, b: Seq<char>)
    requires
        encode_utf8(a) == encode_utf8(b),
    ensures
        a == b,
{
    encode_utf8_decode_utf8(a);
    encode_utf8_decode_utf8(b);
}

/// Only one position can be the first.
pub proof fn lemma_split_at_first<T>(text: Seq<T>, pattern: Seq<T>, at: int)
    requires
        first_occurrence(text, pattern, at),
    ensures
        split_at_first(text, pattern) == Some((text.take(at), text.skip(at + pattern.len()))),
{
    let chosen = choose|i: int| first_occurrence(text, pattern, i);
    assert(first_occurrence(text, pattern, chosen));
    assert(chosen == at);
}

/// A pattern of characters stands where the bytes before it end.
proof fn lemma_char_occurrence(text: Seq<char>, pattern: Seq<char>, at: int)
    requires
        occurs_at(text, pattern, at),
    ensures
        occurs_at(encode_utf8(text), encode_utf8(pattern), encode_utf8(text.take(at)).len() as int),
{
    let before = text.take(at);
    let after = text.skip(at + pattern.len());
    assert(text =~= before + (pattern + after));
    lemma_encode_concat(before, pattern + after);
    lemma_encode_concat(pattern, after);
    let start = encode_utf8(before).len() as int;
    assert(encode_utf8(text).subrange(start, start + encode_utf8(pattern).len())
        =~= encode_utf8(pattern));
}

/// Where a valid encoding is a prefix of another, a character of the longer one ends with it.
proof fn lemma_prefix_boundary(prefix: Seq<u8>, rest: Seq<u8>)
    requires
        valid_utf8(prefix),
        valid_utf8(prefix + rest),
    ensures
        is_char_boundary(prefix + rest, prefix.len() as int),
    decreases prefix.len(),
{
    let whole = prefix + rest;
    if prefix.len() > 0 {
        assert(length_of_first_scalar(whole) == length_of_first_scalar(prefix));
        assert(pop_first_scalar(whole) =~= pop_first_scalar(prefix) + rest);
        lemma_prefix_boundary(pop_first_scalar(prefix), rest);
    }
}

/// The encoding of a non-empty separator starts and ends where characters of the text do.
proof fn lemma_separator_boundaries(text: Seq<char>, separator: Seq<char>, at: int)
    requires
        separator.len() > 0,
        occurs_at(encode_utf8(text), encode_utf8(separator), at),
    ensures
        is_char_boundary(encode_utf8(text), at),
        is_char_boundary(
            encode_utf8(text).skip(at),
            encode_utf8(separator).len() as int,
        ),
{
    let bytes = encode_utf8(text);
    let wanted = encode_utf8(separator);
    encode_utf8_valid_utf8(text);
    encode_utf8_valid_utf8(separator);
    lemma_encode_not_empty(separator);
    is_char_boundary_iff_not_is_continuation_byte(wanted, 0);
    assert(bytes[at] == bytes.subrange(at, at + wanted.len())[0]);
    is_char_boundary_iff_not_is_continuation_byte(bytes, at);
    valid_utf8_split(bytes, at);
    let tail = bytes.skip(at + wanted.len());
    assert(bytes.skip(at) =~= bytes.subrange(at, bytes.len() as int));
    assert(bytes.skip(at) =~= wanted + tail);
    lemma_prefix_boundary(wanted, tail);
}

proof fn lemma_encode_not_empty(chars: Seq<char>)
    requires
        chars.len() > 0,
    ensures
        encode_utf8(chars).len() > 0,
{
    assert(encode_scalar(chars[0] as u32).len() > 0);
}

/// A separator that stands first among the bytes stands first among the characters.
proof fn lemma_first_among_chars(before: Seq<char>, separator: Seq<char>, after: Seq<char>)
    requires
        forall|i: int|
            0 <= i < encode_utf8(before).len() ==> !occurs_at(
                encode_utf8(before + separator + after),
                encode_utf8(separator),
                i,
            ),
    ensures
        split_at_first(before + separator + after, separator) == Some((before, after)),
{
    let text = before + separator + after;
    let at = before.len() as int;
    assert(text.subrange(at, at + separator.len()) =~= separator);
    assert forall|i: int| 0 <= i < at implies !occurs_at(text, separator, i) by {
        if occurs_at(text, separator, i) {
            lemma_char_occurrence(text, separator, i);
            assert(before =~= text.take(i) + before.skip(i));
            lemma_encode_concat(text.take(i), before.skip(i));
            lemma_encode_not_empty(before.skip(i));
        }
    }
    lemma_split_at_first(text, separator, at);
    assert(text.take(at) =~= before);
    assert(text.skip(at + separator.len()) =~= after);
}

/// Whether two byte slices hold the same bytes.
pub fn bytes_eq(a: &[u8], b: &[u8]) -> (equal: bool)
    ensures
        equal == (a@ == b@),
{
    if a.len() != b.len() {
        return false;
    }
    let mut i: usize = 0;
    while i < a.len()
        invariant
            a.len() == b.len(),
            0 <= i <= a.len(),
            forall|j: int| 0 <= j < i ==> a@[j] == b@[j],
        decreases a.len() - i,
    {
        if a[i] != b[i] {
            return false;
        }
        i += 1;
    }
    assert(a@ =~= b@);
    true
}

/// Whether two strings hold the same characters.
pub fn str_eq(a: &str, b: &str) -> (equal: bool)
    ensures
        equal == (a@ == b@),
{
    let equal = bytes_eq(a.as_bytes(), b.as_bytes());
    proof {
        if equal {
            lemma_encode_injective(a@, b@);
        }
    }
    equal
}

/// Whether `pattern` stands in `text` at byte `at`.
fn bytes_at(text: &[u8], pattern: &[u8], at: usize) -> (found: bool)
    requires
        at <= text.len(),
    ensures
        found == occurs_at(text@, pattern@, at as int),
{
    if text.len() - at < pattern.len() {
        return false;
    }
    bytes_eq(slice_subrange(text, at, at + pattern.len()), pattern)
}

/// The two sides of the first `separator` in `text`, or `None` where it does not occur.
pub fn split_once<'a>(text: &'a str, separator: &str) -> (parts: Option<(&'a str, &'a str)>)
    requires
        separator@.len() > 0,
    ensures
        match parts {
            Some((before, after)) => split_at_first(text@, separator@) == Some((before@, after@)),
            None => split_at_first(text@, separator@) is None,
        },
{
    let bytes = text.as_bytes();
    let wanted = separator.as_bytes();
    let mut at: usize = 0;
    while at < bytes.len()
        invariant
            bytes@ == encode_utf8(text@),
            wanted@ == encode_utf8(separator@),
            separator@.len() > 0,
            0 <= at <= bytes.len(),
            forall|i: int| 0 <= i < at ==> !occurs_at(bytes@, wanted@, i),
        decreases bytes.len() - at,
    {
        if bytes_at(bytes, wanted, at) {
            proof {
                lemma_separator_boundaries(text@, separator@, at as int);
            }
            let (before, rest) = text.split_at(at);
            let (found, after) = rest.split_at(wanted.len());
            proof {
                assert(bytes@.skip(at as int) =~= bytes@.subrange(at as int, bytes@.len() as int));
                assert(encode_utf8(found@) =~= wanted@);
                lemma_encode_injective(found@, separator@);
                lemma_encode_concat(found@, after@);
                lemma_encode_concat(before@, found@ + after@);
                assert(encode_utf8(text@) =~= encode_utf8(before@ + (found@ + after@)));
                lemma_encode_injective(text@, before@ + (found@ + after@));
                assert(text@ =~= before@ + separator@ + after@);
                lemma_first_among_chars(before@, separator@, after@);
            }
            return Some((before, after));
        }
        at += 1;
    }
    proof {
        assert forall|i: int| !occurs_at(text@, separator@, i) by {
            if occurs_at(text@, separator@, i) {
                lemma_char_occurrence(text@, separator@, i);
                lemma_encode_not_empty(separator@);
            }
        }
    }
    None
}

} // verus!
