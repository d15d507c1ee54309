//! Character classes and the low-level consumption of text.
//!
//! The remaining text is a string slice that only ever shrinks from the
//! front, and the cursor counts the characters that were taken from it.
//! Every step walks over the characters it takes and over no others.

use vstd::prelude::*;
use vstd::string::*;
use vstd::std_specs::iter::IteratorSpec;
use crate::cut::{measure, split_chars};
use crate::error::{Outcome, ParseError, ParseErrorView, parsed};
use crate::span::{Span, Spanning};

verus! {

broadcast use vstd::string::group_string_axioms;

/// The characters with the Unicode property `White_Space`.
pub open spec fn is_whitespace(c: char) -> bool {
    ||| ('\u{9}' <= c && c <= '\u{D}')
    ||| c == ' '
    ||| c == '\u{85}'
    ||| c == '\u{A0}'
    ||| c == '\u{1680}'
    ||| ('\u{2000}' <= c && c <= '\u{200A}')
    ||| c == '\u{2028}'
    ||| c == '\u{2029}'
    ||| c == '\u{202F}'
    ||| c == '\u{205F}'
    ||| c == '\u{3000}'
}

/// The characters that may start an identifier: ASCII letters and `_`.
pub open spec fn is_identifier_start(c: char) -> bool {
    ('a' <= c && c <= 'z') || ('A' <= c && c <= 'Z') || c == '_'
}

/// The characters that may continue an identifier: ASCII letters, digits
/// and `_`.
pub open spec fn is_identifier_part(c: char) -> bool {
    is_identifier_start(c) || ('0' <= c && c <= '9')
}

/// Length of the maximal run of whitespace at the front of `s`.
#[verifier::opaque]
pub open spec fn whitespace_len(s: Seq<char>) -> nat
    decreases s.len(),
{
    if s.len() > 0 && is_whitespace(s[0]) {
        1 + whitespace_len(s.skip(1))
    } else {
        0
    }
}

/// Length of the maximal run of identifier characters at the front of `s`.
#[verifier::opaque]
pub open spec fn identifier_part_len(s: Seq<char>) -> nat
    decreases s.len(),
{
    if s.len() > 0 && is_identifier_part(s[0]) {
        1 + identifier_part_len(s.skip(1))
    } else {
        0
    }
}

/// Length of the identifier at the front of `s`; 0 where there is none.
pub open spec fn identifier_len(s: Seq<char>) -> nat {
    if s.len() > 0 && is_identifier_start(s[0]) {
        1 + identifier_part_len(s.skip(1))
    } else {
        0
    }
}

/// Whether `text` is an identifier: a letter or `_`, followed by letters,
/// digits and `_`.
pub open spec fn is_identifier(text: Seq<char>) -> bool {
    &&& text.len() > 0
    &&& is_identifier_start(text[0])
    &&& forall|i: int| 0 <= i < text.len() ==> is_identifier_part(#[trigger] text[i])
}

/// What is left of `s` behind its first `n` characters.
pub open spec fn after(s: Seq<char>, n: nat) -> Seq<char> {
    s.skip(n as int)
}

/// `s` without its leading whitespace.
pub open spec fn trim_start(s: Seq<char>) -> Seq<char> {
    s.skip(whitespace_len(s) as int)
}

/// `s` without its trailing whitespace.
#[verifier::opaque]
pub open spec fn trim_end(s: Seq<char>) -> Seq<char>
    decreases s.len(),
{
    if s.len() > 0 && is_whitespace(s.last()) {
        trim_end(s.drop_last())
    } else {
        s
    }
}

/// Number of characters in front of the first `c` in `s`; the length of `s`
/// where it holds no `c`.
#[verifier::opaque]
pub open spec fn distance_to(s: Seq<char>, c: char) -> nat
    decreases s.len(),
{
    if s.len() > 0 && s[0] != c {
        1 + distance_to(s.skip(1), c)
    } else {
        0
    }
}

/// Leaving out `a` characters and then `b` more leaves out `a + b`.
pub proof fn lemma_after_after(s: Seq<char>, a: nat, b: nat)
    requires
        a + b <= s.len(),
    ensures
        after(after(s, a), b) == after(s, a + b),
{
    assert(after(after(s, a), b) =~= after(s, a + b));
}

/// `n` is the length of the leading whitespace of `s` exactly when the first
/// `n` characters are whitespace and the next one, if any, is not.
pub proof fn lemma_whitespace_len(s: Seq<char>, n: int)
    requires
        0 <= n <= s.len(),
        forall|i: int| 0 <= i < n ==> is_whitespace(#[trigger] s[i]),
        n < s.len() ==> !is_whitespace(s[n]),
    ensures
        whitespace_len(s) == n,
    decreases n,
{
    reveal(whitespace_len);
    if n > 0 {
        let t = s.skip(1);
        assert forall|i: int| 0 <= i < n - 1 implies is_whitespace(#[trigger] t[i]) by {
            assert(t[i] == s[i + 1]);
        }
        lemma_whitespace_len(t, n - 1);
    }
}

/// The leading whitespace lies within the text, and what follows it does not
/// start with whitespace.
pub proof fn lemma_whitespace_len_bound(s: Seq<char>)
    ensures
        whitespace_len(s) <= s.len(),
        forall|i: int| 0 <= i < whitespace_len(s) ==> is_whitespace(#[trigger] s[i]),
        whitespace_len(s) < s.len() ==> !is_whitespace(s[whitespace_len(s) as int]),
        whitespace_len(trim_start(s)) == 0,
    decreases s.len(),
{
    reveal(whitespace_len);
    if s.len() > 0 && is_whitespace(s[0]) {
        let t = s.skip(1);
        lemma_whitespace_len_bound(t);
        assert forall|i: int| 0 <= i < whitespace_len(s) implies is_whitespace(
            #[trigger] s[i],
        ) by {
            if i > 0 {
                assert(s[i] == t[i - 1]);
            }
        }
        assert(trim_start(s) =~= trim_start(t));
    } else {
        assert(trim_start(s) =~= s);
    }
}

/// `n` is the length of the leading run of identifier characters of `s`
/// exactly when the first `n` characters are such and the next one is not.
pub proof fn lemma_identifier_part_len(s: Seq<char>, n: int)
    requires
        0 <= n <= s.len(),
        forall|i: int| 0 <= i < n ==> is_identifier_part(#[trigger] s[i]),
        n < s.len() ==> !is_identifier_part(s[n]),
    ensures
        identifier_part_len(s) == n,
    decreases n,
{
    reveal(identifier_part_len);
    if n > 0 {
        let t = s.skip(1);
        assert forall|i: int| 0 <= i < n - 1 implies is_identifier_part(#[trigger] t[i]) by {
            assert(t[i] == s[i + 1]);
        }
        lemma_identifier_part_len(t, n - 1);
    }
}

/// The leading run of identifier characters lies within the text and ends at
/// the first character that is none.
pub proof fn lemma_identifier_part_len_bound(s: Seq<char>)
    ensures
        identifier_part_len(s) <= s.len(),
        forall|i: int| 0 <= i < identifier_part_len(s) ==> is_identifier_part(#[trigger] s[i]),
        identifier_part_len(s) < s.len() ==> !is_identifier_part(
            s[identifier_part_len(s) as int],
        ),
    decreases s.len(),
{
    reveal(identifier_part_len);
    if s.len() > 0 && is_identifier_part(s[0]) {
        let t = s.skip(1);
        lemma_identifier_part_len_bound(t);
        assert forall|i: int| 0 <= i < identifier_part_len(s) implies is_identifier_part(
            #[trigger] s[i],
        ) by {
            if i > 0 {
                assert(s[i] == t[i - 1]);
            }
        }
    }
}

/// The characters that `identifier_len` counts at the front of a text are an
/// identifier, and the character behind them, if any, cannot continue it.
pub proof fn lemma_identifier_len(s: Seq<char>)
    ensures
        identifier_len(s) <= s.len(),
        identifier_len(s) > 0 ==> is_identifier(s.take(identifier_len(s) as int)),
        0 < identifier_len(s) < s.len() ==> !is_identifier_part(s[identifier_len(s) as int]),
{
    if s.len() > 0 && is_identifier_start(s[0]) {
        let t = s.skip(1);
        lemma_identifier_part_len_bound(t);
        let n = identifier_len(s) as int;
        let taken = s.take(n);
        assert forall|i: int| 0 <= i < taken.len() implies is_identifier_part(
            #[trigger] taken[i],
        ) by {
            if i > 0 {
                assert(taken[i] == t[i - 1]);
            }
        }
        if n < s.len() {
            assert(s[n] == t[n - 1]);
        }
    }
}

/// What trimming leaves is a stretch of the text that neither starts nor ends
/// with whitespace.
pub proof fn lemma_trimmed(s: Seq<char>)
    ensures
        ({
            let kept = trim_end(trim_start(s));
            &&& kept.len() + whitespace_len(s) <= s.len()
            &&& kept == s.subrange(
                whitespace_len(s) as int,
                (whitespace_len(s) + kept.len()) as int,
            )
            &&& kept.len() > 0 ==> !is_whitespace(kept[0]) && !is_whitespace(kept.last())
        }),
{
    lemma_whitespace_len_bound(s);
    let rest = trim_start(s);
    lemma_trim_end_bound(rest);
    let kept = trim_end(rest);
    assert(kept =~= s.subrange(
        whitespace_len(s) as int,
        (whitespace_len(s) + kept.len()) as int,
    ));
    if kept.len() > 0 {
        assert(kept[0] == rest[0]);
    }
}

/// What `trim_end` leaves is the front of the text, and does not end with
/// whitespace.
pub proof fn lemma_trim_end_bound(s: Seq<char>)
    ensures
        trim_end(s).len() <= s.len(),
        trim_end(s) == s.take(trim_end(s).len() as int),
        trim_end(s).len() > 0 ==> !is_whitespace(trim_end(s).last()),
    decreases s.len(),
{
    reveal(trim_end);
    if s.len() > 0 && is_whitespace(s.last()) {
        let t = s.drop_last();
        lemma_trim_end_bound(t);
        assert(t.take(trim_end(t).len() as int) =~= s.take(trim_end(t).len() as int));
    } else {
        assert(s.take(s.len() as int) =~= s);
    }
}

/// `n` is the distance to the first `c` exactly when no earlier character is
/// `c` and the one at `n`, if any, is.
pub proof fn lemma_distance_to(s: Seq<char>, c: char, n: int)
    requires
        0 <= n <= s.len(),
        forall|i: int| 0 <= i < n ==> #[trigger] s[i] != c,
        n < s.len() ==> s[n] == c,
    ensures
        distance_to(s, c) == n,
    decreases n,
{
    reveal(distance_to);
    if n > 0 {
        let t = s.skip(1);
        assert forall|i: int| 0 <= i < n - 1 implies #[trigger] t[i] != c by {
            assert(t[i] == s[i + 1]);
        }
        lemma_distance_to(t, c, n - 1);
    }
}

/// The distance to the first `c` lies within the text, no character before
/// it is `c`, and the one at it, if any, is.
pub proof fn lemma_distance_to_bound(s: Seq<char>, c: char)
    ensures
        distance_to(s, c) <= s.len(),
        forall|i: int| 0 <= i < distance_to(s, c) ==> #[trigger] s[i] != c,
        distance_to(s, c) < s.len() ==> s[distance_to(s, c) as int] == c,
    decreases s.len(),
{
    reveal(distance_to);
    if s.len() > 0 && s[0] != c {
        let t = s.skip(1);
        lemma_distance_to_bound(t, c);
        assert forall|i: int| 0 <= i < distance_to(s, c) implies #[trigger] s[i] != c by {
            if i > 0 {
                assert(s[i] == t[i - 1]);
            }
        }
    }
}

/// Cutting `s` behind its last character that is no whitespace gives
/// `trim_end(s)`.
pub proof fn lemma_trim_end(s: Seq<char>, n: int)
    requires
        0 <= n <= s.len(),
        forall|i: int| n <= i < s.len() ==> is_whitespace(#[trigger] s[i]),
        n > 0 ==> !is_whitespace(s[n - 1]),
    ensures
        trim_end(s) == s.take(n),
    decreases s.len() - n,
{
    reveal(trim_end);
    if n < s.len() {
        let t = s.drop_last();
        assert(is_whitespace(s[s.len() - 1]));
        lemma_trim_end(t, n);
        assert(t.take(n) =~= s.take(n));
    } else {
        assert(s.take(n) =~= s);
    }
}

/// Tells whether `c` is whitespace.
pub fn whitespace(c: char) -> (r: bool)
    ensures
        r == is_whitespace(c),
{
    (c >= '\u{9}' && c <= '\u{D}') || c == ' ' || c == '\u{85}' || c == '\u{A0}' || c
        == '\u{1680}' || (c >= '\u{2000}' && c <= '\u{200A}') || c == '\u{2028}' || c
        == '\u{2029}' || c == '\u{202F}' || c == '\u{205F}' || c == '\u{3000}'
}

/// Tells whether `c` may start an identifier.
pub fn identifier_start(c: char) -> (r: bool)
    ensures
        r == is_identifier_start(c),
{
    (c >= 'a' && c <= 'z') || (c >= 'A' && c <= 'Z') || c == '_'
}

/// Tells whether `c` may continue an identifier.
pub fn identifier_part(c: char) -> (r: bool)
    ensures
        r == is_identifier_part(c),
{
    identifier_start(c) || (c >= '0' && c <= '9')
}

/// Whether the cursor can run to the end of the text without leaving `usize`.
pub open spec fn in_bounds(s: Seq<char>, pos: usize) -> bool {
    pos + s.len() <= usize::MAX
}

/// Takes `length` characters from the front of the text: the cursor moves
/// past them, and they are returned with the extent they covered.
pub fn consume<'a>(from: &mut &'a str, pos: &mut usize, length: usize) -> (r: Spanning<String>)
    requires
        length <= old(from)@.len(),
        in_bounds(old(from)@, *old(pos)),
    ensures
        r.0 == Span(*old(pos), length),
        r.1@ == old(from)@.take(length as int),
        final(from)@ == old(from)@.skip(length as int),
        *final(pos) == *old(pos) + length,
{
    let whole: &'a str = *from;
    let (taken, rest) = split_chars(whole, length);
    let span = Span(*pos, length);
    *pos = *pos + length;
    *from = rest;
    Spanning(span, String::from_str(taken))
}

/// Moves past `length` characters of the text without keeping them.
pub fn advance<'a>(from: &mut &'a str, pos: &mut usize, length: usize)
    requires
        length <= old(from)@.len(),
        in_bounds(old(from)@, *old(pos)),
    ensures
        final(from)@ == old(from)@.skip(length as int),
        *final(pos) == *old(pos) + length,
{
    let whole: &'a str = *from;
    let (_, rest) = split_chars(whole, length);
    *pos = *pos + length;
    *from = rest;
}

/// Tells whether the text starts with `symbol`.
pub fn starts_with(from: &str, symbol: &str) -> (r: bool)
    ensures
        r == symbol@.is_prefix_of(from@),
{
    let mut wanted = symbol.chars();
    let mut found = from.chars();
    let ghost mut i: int = 0;
    proof {
        assert(symbol@.skip(0) =~= symbol@);
        assert(from@.skip(0) =~= from@);
    }
    loop
        invariant
            0 <= i <= symbol@.len(),
            i <= from@.len(),
            wanted.remaining() == symbol@.skip(i),
            found.remaining() == from@.skip(i),
            wanted.obeys_prophetic_iter_laws(),
            found.obeys_prophetic_iter_laws(),
            forall|j: int| 0 <= j < i ==> symbol@[j] == from@[j],
        decreases symbol@.len() - i,
    {
        let a = match wanted.next() {
            Some(a) => a,
            None => {
                assert(symbol@ =~= from@.subrange(0, symbol@.len() as int));
                return true;
            },
        };
        assert(a == symbol@[i]);
        let b = match found.next() {
            Some(b) => b,
            None => {
                return false;
            },
        };
        assert(b == from@[i]);
        if a != b {
            proof {
                if symbol@.len() <= from@.len() {
                    assert(symbol@[i] != from@.subrange(0, symbol@.len() as int)[i]);
                }
            }
            return false;
        }
        proof {
            assert(symbol@.skip(i).drop_first() =~= symbol@.skip(i + 1));
            assert(from@.skip(i).drop_first() =~= from@.skip(i + 1));
            i = i + 1;
        }
    }
}

/// An exact match of `symbol` at the front of `s`, with the cursor at `pos`:
/// the symbol with the extent it covers, or an error at `pos` with nothing
/// consumed.
pub open spec fn spec_symbol(symbol: Seq<char>, s: Seq<char>, pos: usize) -> Outcome<
    Spanning<Seq<char>>,
> {
    if symbol.is_prefix_of(s) {
        Outcome {
            result: Ok(Spanning(Span(pos, symbol.len() as usize), symbol)),
            consumed: symbol.len(),
        }
    } else {
        Outcome { result: Err(ParseErrorView::ExpectedSymbol(symbol, pos)), consumed: 0 }
    }
}

/// Reads `symbol` at the front of the text, character for character.
pub fn parse_symbol<'a>(symbol: &str, from: &mut &'a str, pos: &mut usize) -> (r: Result<
    Spanning<String>,
    ParseError,
>)
    requires
        in_bounds(old(from)@, *old(pos)),
    ensures
        parsed(
            old(from)@,
            *old(pos),
            final(from)@,
            *final(pos),
            r,
            spec_symbol(symbol@, old(from)@, *old(pos)),
        ),
{
    if starts_with(*from, symbol) {
        let length: usize = symbol.unicode_len();
        assert(from@.take(length as int) =~= symbol@);
        Ok(consume(from, pos, length))
    } else {
        assert(from@.skip(0) =~= from@);
        Err(ParseError::ExpectedSymbol(String::from_str(symbol), *pos))
    }
}

/// Tells whether two strings hold the same characters.
pub fn same_text(a: &str, b: &str) -> (r: bool)
    ensures
        r == (a@ == b@),
{
    let mut left = a.chars();
    let mut right = b.chars();
    let ghost mut i: int = 0;
    proof {
        assert(a@.skip(0) =~= a@);
        assert(b@.skip(0) =~= b@);
    }
    loop
        invariant
            0 <= i <= a@.len(),
            i <= b@.len(),
            left.remaining() == a@.skip(i),
            right.remaining() == b@.skip(i),
            left.obeys_prophetic_iter_laws(),
            right.obeys_prophetic_iter_laws(),
            forall|j: int| 0 <= j < i ==> a@[j] == b@[j],
        decreases a@.len() - i,
    {
        match (left.next(), right.next()) {
            (Some(x), Some(y)) => {
                assert(x == a@[i]);
                assert(y == b@[i]);
                if x != y {
                    return false;
                }
            },
            (None, None) => {
                assert(a@ =~= b@);
                return true;
            },
            _ => {
                assert(a@.len() != b@.len());
                return false;
            },
        }
        proof {
            assert(a@.skip(i).drop_first() =~= a@.skip(i + 1));
            assert(b@.skip(i).drop_first() =~= b@.skip(i + 1));
            i = i + 1;
        }
    }
}

/// Moves past the maximal run of whitespace at the front of the text. At the
/// end of the text this does nothing.
pub fn strip_whitespace<'a>(from: &mut &'a str, pos: &mut usize)
    requires
        in_bounds(old(from)@, *old(pos)),
    ensures
        final(from)@ == trim_start(old(from)@),
        *final(pos) == *old(pos) + whitespace_len(old(from)@),
        whitespace_len(old(from)@) <= old(from)@.len(),
{
    let whole: &'a str = *from;
    let length = leading_whitespace(whole);
    advance(from, pos, length);
}

/// Counts the whitespace characters at the front of the text.
pub fn leading_whitespace(s: &str) -> (r: usize)
    ensures
        r == whitespace_len(s@),
        r <= s@.len(),
{
    // learns that the length fits in `usize`
    measure(s);
    let mut walk = s.chars();
    let mut i: usize = 0;
    proof {
        assert(s@.skip(0) =~= s@);
        lemma_whitespace_len_bound(s@);
    }
    loop
        invariant
            s@.len() <= usize::MAX,
            i <= whitespace_len(s@) <= s@.len(),
            walk.remaining() == s@.skip(i as int),
            walk.obeys_prophetic_iter_laws(),
            forall|j: int| 0 <= j < i ==> is_whitespace(#[trigger] s@[j]),
        decreases s@.len() - i,
    {
        match walk.next() {
            Some(c) => {
                assert(c == s@[i as int]);
                if !whitespace(c) {
                    proof {
                        lemma_whitespace_len(s@, i as int);
                    }
                    return i;
                }
                proof {
                    assert(s@.skip(i as int).drop_first() =~= s@.skip(i + 1));
                    lemma_whitespace_len_bound(s@);
                }
                i = i + 1;
            },
            None => {
                proof {
                    lemma_whitespace_len(s@, i as int);
                }
                return i;
            },
        }
    }
}

/// Finds the first `c` in the text and returns the number of characters in
/// front of it.
pub fn find_char(s: &str, c: char) -> (r: Option<usize>)
    ensures
        match r {
            Some(i) => i == distance_to(s@, c) && i < s@.len(),
            None => distance_to(s@, c) == s@.len(),
        },
{
    // learns that the length fits in `usize`
    measure(s);
    let mut walk = s.chars();
    let mut i: usize = 0;
    proof {
        assert(s@.skip(0) =~= s@);
        lemma_distance_to_bound(s@, c);
    }
    loop
        invariant
            s@.len() <= usize::MAX,
            i <= distance_to(s@, c) <= s@.len(),
            walk.remaining() == s@.skip(i as int),
            walk.obeys_prophetic_iter_laws(),
            forall|j: int| 0 <= j < i ==> #[trigger] s@[j] != c,
        decreases s@.len() - i,
    {
        match walk.next() {
            Some(found) => {
                assert(found == s@[i as int]);
                if found == c {
                    proof {
                        lemma_distance_to(s@, c, i as int);
                    }
                    return Some(i);
                }
                proof {
                    assert(s@.skip(i as int).drop_first() =~= s@.skip(i + 1));
                    lemma_distance_to_bound(s@, c);
                }
                i = i + 1;
            },
            None => {
                proof {
                    lemma_distance_to(s@, c, i as int);
                }
                return None;
            },
        }
    }
}

/// The text without the whitespace at its two ends.
pub fn trimmed(s: &str) -> (r: String)
    ensures
        r@ == trim_end(trim_start(s@)),
{
    let first = leading_whitespace(s);
    let (_, rest) = split_chars(s, first);
    // learns that the length fits in `usize`
    measure(rest);
    let mut walk = rest.chars();
    let mut i: usize = 0;
    let mut last: usize = 0;
    proof {
        assert(rest@.skip(0) =~= rest@);
    }
    loop
        invariant_except_break
            i <= rest@.len(),
            walk.remaining() == rest@.skip(i as int),
            walk.obeys_prophetic_iter_laws(),
        invariant
            rest@ == trim_start(s@),
            rest@.len() <= usize::MAX,
            last <= i <= rest@.len(),
            forall|j: int| last <= j < i ==> is_whitespace(#[trigger] rest@[j]),
            last > 0 ==> !is_whitespace(rest@[last - 1]),
        ensures
            i == rest@.len(),
        decreases rest@.len() - i,
    {
        match walk.next() {
            Some(c) => {
                assert(c == rest@[i as int]);
                proof {
                    assert(rest@.skip(i as int).drop_first() =~= rest@.skip(i + 1));
                }
                i = i + 1;
                if !whitespace(c) {
                    last = i;
                }
            },
            None => {
                break ;
            },
        }
    }
    proof {
        lemma_trim_end(rest@, last as int);
    }
    let (kept, _) = split_chars(rest, last);
    String::from_str(kept)
}

} // verus!
