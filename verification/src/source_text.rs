//! Characters and their positions in source text.

use vstd::prelude::*;
use vstd::utf8::{encode_scalar, encode_utf8};

verus! {

/// The number of bytes that `c` takes in UTF-8.
pub open spec fn utf8_len(c: char) -> nat {
    encode_scalar(c as u32).len()
}

/// `char::len_utf8` gives the number of bytes that the character takes when
/// it is encoded in UTF-8.
pub assume_specification[ char::len_utf8 ](c: char) -> (n: usize)
    ensures
        n == utf8_len(c),
        1 <= n <= 4,
;

/// The byte at which the character with index `index` starts in the UTF-8
/// encoding of `text`.
pub open spec fn byte_offset(text: Seq<char>, index: int) -> nat {
    encode_utf8(text.take(index)).len()
}

/// The encoding of a text is the encoding of its head, then that of its tail.
pub proof fn lemma_encode_concat(head: Seq<char>, tail: Seq<char>)
    ensures
        encode_utf8(head + tail) == encode_utf8(head) + encode_utf8(tail),
    decreases head.len(),
{
    if head.len() == 0 {
        assert(head + tail =~= tail);
        assert(encode_utf8(head) + encode_utf8(tail) =~= encode_utf8(tail));
    } else {
        lemma_encode_concat(head.drop_first(), tail);
        assert((head + tail).drop_first() =~= head.drop_first() + tail);
        assert((head + tail)[0] == head[0]);
        assert(encode_utf8(head + tail) =~= encode_utf8(head) + encode_utf8(tail));
    }
}

/// Each character starts where the one before it ends.
pub proof fn lemma_byte_offset_step(text: Seq<char>, index: int)
    requires
        0 <= index < text.len(),
    ensures
        byte_offset(text, index + 1) == byte_offset(text, index) + utf8_len(text[index]),
        byte_offset(text, index + 1) <= encode_utf8(text).len(),
{
    let head = text.take(index);
    let one = seq![text[index]];
    assert(text.take(index + 1) =~= head + one);
    lemma_encode_concat(head, one);
    assert(one.drop_first() =~= Seq::<char>::empty());
    assert(encode_utf8(one) =~= encode_scalar(text[index] as u32)) by {
        reveal_with_fuel(encode_utf8, 2);
    }
    assert(text =~= text.take(index + 1) + text.skip(index + 1));
    lemma_encode_concat(text.take(index + 1), text.skip(index + 1));
}

/// The text ends where its encoding ends.
pub proof fn lemma_byte_offset_ends(text: Seq<char>)
    ensures
        byte_offset(text, 0) == 0,
        byte_offset(text, text.len() as int) == encode_utf8(text).len(),
{
    assert(text.take(0) =~= Seq::<char>::empty());
    assert(text.take(text.len() as int) =~= text);
}

/// The characters of `text`.
pub fn str_chars(text: &str) -> (chars: Vec<char>)
    ensures
        chars@ == text@,
{
    let mut chars: Vec<char> = Vec::new();
    for c in it: text.chars()
        invariant
            it.seq() == text@,
            chars@ == text@.take(it.index() as int),
    {
        chars.push(c);
        proof {
            assert(chars@ =~= text@.take(it.index() + 1));
        }
    }
    proof {
        assert(text@.take(text@.len() as int) =~= text@);
    }
    chars
}

/// Whether `c` is one of the digits `0` to `9`.
pub open spec fn is_ascii_digit(c: char) -> bool {
    '0' <= c <= '9'
}

/// Whether `c` is one of the digits `0` to `9`.
pub fn ascii_digit(c: char) -> (r: bool)
    ensures
        r == is_ascii_digit(c),
{
    '0' <= c && c <= '9'
}

/// Whether `c` is one of `set`.
pub fn contains_char<const N: usize>(set: &[char; N], c: char) -> (r: bool)
    ensures
        r == set@.contains(c),
{
    let mut j: usize = 0;
    while j < N
        invariant
            j <= N,
            set@.len() == N,
            forall|k: int| 0 <= k < j ==> set@[k] != c,
        decreases N - j,
    {
        if set[j] == c {
            return true;
        }
        j += 1;
    }
    false
}

/// The indices at which `byte` stands among the first `n` of `bytes`, in
/// increasing order.
pub open spec fn positions_of(bytes: Seq<u8>, byte: u8, n: int) -> Seq<usize>
    decreases n,
{
    if n <= 0 {
        Seq::empty()
    } else {
        let before = positions_of(bytes, byte, n - 1);
        if n <= bytes.len() && bytes[n - 1] == byte {
            before.push((n - 1) as usize)
        } else {
            before
        }
    }
}

/// The positions are indices at which the byte stands, in increasing order.
pub proof fn lemma_positions_of(bytes: Seq<u8>, byte: u8, n: int)
    requires
        0 <= n <= bytes.len() <= usize::MAX,
    ensures
        positions_of(bytes, byte, n).len() <= n,
        forall|i: int|
            0 <= i < positions_of(bytes, byte, n).len() ==> {
                &&& (#[trigger] positions_of(bytes, byte, n)[i]) < n
                &&& bytes[positions_of(bytes, byte, n)[i] as int] == byte
            },
        forall|i: int, j: int|
            0 <= i < j < positions_of(bytes, byte, n).len() ==> positions_of(bytes, byte, n)[i]
                < positions_of(bytes, byte, n)[j],
    decreases n,
{
    if n > 0 {
        lemma_positions_of(bytes, byte, n - 1);
    }
}

/// Each index at which the byte stands is one of the positions.
pub proof fn lemma_positions_complete(bytes: Seq<u8>, byte: u8, n: int)
    requires
        0 <= n <= bytes.len() <= usize::MAX,
    ensures
        forall|i: int|
            0 <= i < n && #[trigger] bytes[i] == byte ==> exists|j: int|
                0 <= j < positions_of(bytes, byte, n).len() && positions_of(bytes, byte, n)[j] == i,
    decreases n,
{
    if n > 0 {
        lemma_positions_complete(bytes, byte, n - 1);
        let before = positions_of(bytes, byte, n - 1);
        let now = positions_of(bytes, byte, n);
        assert forall|i: int| 0 <= i < n && #[trigger] bytes[i] == byte implies exists|j: int|
            0 <= j < now.len() && now[j] == i by {
            if i < n - 1 {
                let j = choose|j: int| 0 <= j < before.len() && before[j] == i;
                assert(now[j] == i);
            } else {
                assert(now[now.len() - 1] == i);
            }
        }
    }
}

/// All places at which `needle` stands in `haystack`.
///
/// Trusted: `memchr::memchr_iter`, which yields the index of each
/// occurrence of the needle in the haystack, from the first to the last.
#[verifier::external_body]
pub(crate) fn find_byte(needle: u8, haystack: &[u8]) -> (positions: Vec<usize>)
    ensures
        positions@ == positions_of(haystack@, needle, haystack@.len() as int),
{
    memchr::memchr_iter(needle, haystack).collect()
}

/// All places at which the one byte of `needle` stands in `haystack`.
///
/// Trusted: `memchr::memmem::find_iter`, which yields the start of each
/// occurrence of the needle in the haystack that does not overlap an
/// earlier one, from the first to the last. Occurrences of a needle of one
/// byte never overlap, so these are all the indices at which the byte stands.
#[verifier::external_body]
pub(crate) fn find_single(haystack: &[u8], needle: &[u8]) -> (positions: Vec<usize>)
    requires
        needle@.len() == 1,
    ensures
        positions@ == positions_of(haystack@, needle@[0], haystack@.len() as int),
{
    memchr::memmem::find_iter(haystack, needle).collect()
}

/// The character of `text` that starts at byte `byte` of its encoding.
pub open spec fn char_at_byte(text: Seq<char>, byte: int) -> Option<char> {
    if exists|k: int| 0 <= k < text.len() && byte_offset(text, k) == byte {
        let k = choose|k: int| 0 <= k < text.len() && byte_offset(text, k) == byte;
        Some(text[k])
    } else {
        None
    }
}

/// Characters start at increasing bytes.
pub proof fn lemma_byte_offset_increases(text: Seq<char>, i: int, j: int)
    requires
        0 <= i < j <= text.len(),
    ensures
        byte_offset(text, i) < byte_offset(text, j),
    decreases j - i,
{
    lemma_byte_offset_step(text, j - 1);
    vstd::utf8::char_is_scalar(text[j - 1]);
    if i < j - 1 {
        lemma_byte_offset_increases(text, i, j - 1);
    }
}

/// The character of `chars` that starts at byte `byte` of their encoding.
pub fn find_char_at_byte(chars: &Vec<char>, byte: usize) -> (r: Option<char>)
    ensures
        r == char_at_byte(chars@, byte as int),
{
    let mut start: usize = 0;
    let mut i: usize = 0;
    proof {
        lemma_byte_offset_ends(chars@);
    }
    while i < chars.len()
        invariant
            i <= chars.len(),
            start == byte_offset(chars@, i as int),
            start <= byte,
            forall|k: int| 0 <= k < i ==> byte_offset(chars@, k) != byte,
        decreases chars.len() - i,
    {
        if start == byte {
            proof {
                assert forall|k: int| 0 <= k < chars@.len() && byte_offset(chars@, k)
                    == byte implies k == i by {
                    if k < i {
                    } else if k > i {
                        lemma_byte_offset_increases(chars@, i as int, k);
                    }
                }
            }
            return Some(chars[i]);
        }
        let len = chars[i].len_utf8();
        proof {
            lemma_byte_offset_step(chars@, i as int);
        }
        if len > byte - start {
            proof {
                assert forall|k: int| 0 <= k < chars@.len() implies byte_offset(chars@, k)
                    != byte by {
                    if k > i {
                        if k > i + 1 {
                            lemma_byte_offset_increases(chars@, i + 1, k);
                        }
                    }
                }
            }
            return None;
        }
        start += len;
        i += 1;
    }
    None
}

/// Whether `a` and `b` are the same text.
pub fn str_eq(a: &str, b: &str) -> (r: bool)
    ensures
        r == (a@ == b@),
{
    let left = str_chars(a);
    let right = str_chars(b);
    if left.len() != right.len() {
        return false;
    }
    let mut i: usize = 0;
    while i < left.len()
        invariant
            i <= left.len(),
            left@.len() == right@.len(),
            left@ == a@,
            right@ == b@,
            forall|k: int| 0 <= k < i ==> left@[k] == right@[k],
        decreases left.len() - i,
    {
        if left[i] != right[i] {
            return false;
        }
        i += 1;
    }
    proof {
        assert(a@ =~= b@);
    }
    true
}

} // verus!
