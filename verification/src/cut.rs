//! Cutting string slices at character counts.
//!
//! A string slice is cut at a byte offset. The offset behind a number of
//! characters is found by walking over them, so a cut costs as much as the
//! characters in front of it, whatever follows.

use vstd::prelude::*;
use vstd::string::*;
use vstd::std_specs::iter::IteratorSpec;
use vstd::utf8::{
    char_is_scalar, encode_scalar, encode_utf8, encode_utf8_decode_utf8,
    encode_utf8_first_scalar, encode_utf8_valid_utf8, is_char_boundary, pop_first_scalar,
};

verus! {

broadcast use vstd::string::group_string_axioms;

/// The number of bytes that the characters of `chars` take in UTF-8.
pub open spec fn byte_len(chars: Seq<char>) -> nat {
    encode_utf8(chars).len()
}

/// The encoding of two texts in a row is the two encodings in a row.
pub proof fn lemma_encode_concat(a: Seq<char>, b: Seq<char>)
    ensures
        encode_utf8(a + b) == encode_utf8(a) + encode_utf8(b),
    decreases a.len(),
{
    if a.len() == 0 {
        assert(a + b =~= b);
        assert(encode_utf8(a) + encode_utf8(b) =~= encode_utf8(b));
    } else {
        assert((a + b).drop_first() =~= a.drop_first() + b);
        lemma_encode_concat(a.drop_first(), b);
        assert(encode_utf8(a + b) =~= encode_utf8(a) + encode_utf8(b));
    }
}

/// The encoding of one character is the encoding of its scalar value.
pub proof fn lemma_encode_one(c: char)
    ensures
        encode_utf8(seq![c]) == encode_scalar(c as u32),
{
    reveal_with_fuel(encode_utf8, 2);
    assert(seq![c].drop_first() =~= Seq::<char>::empty());
    assert(encode_utf8(seq![c]) =~= encode_scalar(c as u32));
}

/// The encoding of a text splits at the end of the encoding of each of its
/// fronts: that position is a character boundary, and the two parts are the
/// encodings of the front and of the rest.
pub proof fn lemma_encode_split(chars: Seq<char>, k: int)
    requires
        0 <= k <= chars.len(),
    ensures
        byte_len(chars.take(k)) <= byte_len(chars),
        is_char_boundary(encode_utf8(chars), byte_len(chars.take(k)) as int),
        encode_utf8(chars).subrange(0, byte_len(chars.take(k)) as int) == encode_utf8(
            chars.take(k),
        ),
        encode_utf8(chars).subrange(byte_len(chars.take(k)) as int, byte_len(chars) as int)
            == encode_utf8(chars.skip(k)),
    decreases k,
{
    broadcast use encode_utf8_valid_utf8;

    let bytes = encode_utf8(chars);
    let front = encode_utf8(chars.take(k));
    let rest = encode_utf8(chars.skip(k));
    assert(chars.take(k) + chars.skip(k) =~= chars);
    lemma_encode_concat(chars.take(k), chars.skip(k));
    assert(bytes.subrange(0, front.len() as int) =~= front);
    assert(bytes.subrange(front.len() as int, bytes.len() as int) =~= rest);
    if k > 0 {
        let tail = chars.drop_first();
        encode_utf8_first_scalar(chars);
        assert(pop_first_scalar(bytes) =~= encode_utf8(tail));
        lemma_encode_split(tail, k - 1);
        assert(chars.take(k).drop_first() =~= tail.take(k - 1));
        assert(front.len() == encode_scalar(chars[0] as u32).len() + byte_len(tail.take(k - 1)));
    }
}

/// Every character takes at least one byte.
pub proof fn lemma_byte_len_bound(chars: Seq<char>)
    ensures
        chars.len() <= byte_len(chars),
    decreases chars.len(),
{
    if chars.len() > 0 {
        char_is_scalar(chars[0]);
        lemma_byte_len_bound(chars.drop_first());
    }
}

/// Two texts with the same encoding are the same text.
pub proof fn lemma_encode_injective(a: Seq<char>, b: Seq<char>)
    requires
        encode_utf8(a) == encode_utf8(b),
    ensures
        a == b,
{
    encode_utf8_decode_utf8(a);
    encode_utf8_decode_utf8(b);
}

/// The number of bytes that `c` takes in UTF-8.
pub fn width(c: char) -> (r: usize)
    ensures
        r == encode_scalar(c as u32).len(),
        1 <= r <= 4,
{
    proof {
        char_is_scalar(c);
    }
    if c <= '\u{7F}' {
        1
    } else if c <= '\u{7FF}' {
        2
    } else if c <= '\u{FFFF}' {
        3
    } else {
        4
    }
}

/// The number of bytes of the text. It is no less than the number of
/// characters, so that this fits in `usize` too.
pub fn measure(s: &str) -> (bytes: usize)
    ensures
        bytes == byte_len(s@),
        s@.len() <= bytes,
{
    proof {
        lemma_byte_len_bound(s@);
    }
    s.as_bytes().len()
}

/// Cuts the text behind its first `n` characters, and returns the two parts.
pub fn split_chars<'a>(s: &'a str, n: usize) -> (r: (&'a str, &'a str))
    requires
        n <= s@.len(),
    ensures
        r.0@ == s@.take(n as int),
        r.1@ == s@.skip(n as int),
{
    // learns that the length fits in `usize`
    measure(s);
    let mut walk = s.chars();
    let mut offset: usize = 0;
    let mut i: usize = 0;
    proof {
        assert(s@.take(0) =~= Seq::empty());
        assert(s@.skip(0) =~= s@);
    }
    while i < n
        invariant
            i <= n <= s@.len(),
            byte_len(s@) <= usize::MAX,
            walk.remaining() == s@.skip(i as int),
            walk.obeys_prophetic_iter_laws(),
            offset == byte_len(s@.take(i as int)),
        decreases n - i,
    {
        match walk.next() {
            Some(c) => {
                proof {
                    assert(c == s@[i as int]);
                    assert(s@.skip(i as int).drop_first() =~= s@.skip(i + 1));
                    assert(s@.take(i + 1) =~= s@.take(i as int) + seq![c]);
                    lemma_encode_concat(s@.take(i as int), seq![c]);
                    lemma_encode_one(c);
                    lemma_encode_split(s@, i + 1);
                }
                offset = offset + width(c);
                i = i + 1;
            },
            None => {
                assert(false);
            },
        }
    }
    proof {
        lemma_encode_split(s@, n as int);
    }
    let r = s.split_at(offset);
    proof {
        lemma_encode_injective(r.0@, s@.take(n as int));
        lemma_encode_injective(r.1@, s@.skip(n as int));
    }
    r
}

} // verus!
