//! Identifiers: `[A-Za-z_][A-Za-z0-9_]*`.

use vstd::prelude::*;
use vstd::string::*;
use vstd::std_specs::cmp::PartialEqSpecImpl;
use vstd::std_specs::iter::IteratorSpec;
use crate::error::{Outcome, ParseError, ParseErrorView, is_syntax_error, parsed};
use crate::span::{Span, Spanning, Spans};
use crate::text::{
    consume, identifier_len, identifier_part, identifier_start, in_bounds, is_identifier,
    is_identifier_part, is_identifier_start, lemma_identifier_len, lemma_identifier_part_len,
    same_text,
};

verus! {

broadcast use vstd::string::group_string_axioms;

/// A name in the source text, with the extent it was read from.
#[derive(Debug)]
pub struct Identifier(pub Spanning<String>);

impl View for Identifier {
    type V = Spanning<Seq<char>>;

    open spec fn view(&self) -> Spanning<Seq<char>> {
        self.0@
    }
}

impl Clone for Identifier {
    fn clone(&self) -> (r: Self)
        ensures
            r@ == self@,
    {
        Identifier(Spanning(self.0.0, self.0.1.clone()))
    }
}

impl std::ops::Deref for Identifier {
    type Target = str;

    /// An identifier can stand where its text is wanted.
    fn deref(&self) -> (r: &str)
        ensures
            r@ == self@.1,
    {
        self.0.1.as_str()
    }
}

impl PartialEq for Identifier {
    /// Two identifiers are the same when their texts are, wherever they were
    /// read.
    fn eq(&self, other: &Self) -> (r: bool) {
        same_text(self.as_str(), other.as_str())
    }
}

impl PartialEqSpecImpl for Identifier {
    open spec fn obeys_eq_spec() -> bool {
        true
    }

    open spec fn eq_spec(&self, other: &Self) -> bool {
        self@.1 == other@.1
    }
}

impl Eq for Identifier {

}

impl Identifier {
    /// The identifier at the front of `s`, with the cursor at `pos`: the
    /// maximal run of identifier characters, which must start with a letter
    /// or `_`. Where there is none, nothing is consumed.
    pub open spec fn spec_parse(s: Seq<char>, pos: usize) -> Outcome<Spanning<Seq<char>>> {
        let n = identifier_len(s);
        if n == 0 {
            Outcome { result: Err(ParseErrorView::ExpectedIdentifier(pos)), consumed: 0 }
        } else {
            Outcome {
                result: Ok(Spanning(Span(pos, n as usize), s.take(n as int))),
                consumed: n,
            }
        }
    }

    /// An identifier lies within the text. One that is read holds at least
    /// one character, its text is an identifier, and its extent starts at the
    /// cursor and is as long as the text. A failure is a syntax error and
    /// consumes nothing.
    pub proof fn lemma_spec_parse_bound(s: Seq<char>, pos: usize)
        ensures
            Self::spec_parse(s, pos).consumed <= s.len(),
            match Self::spec_parse(s, pos).result {
                Ok(name) => {
                    &&& Self::spec_parse(s, pos).consumed >= 1
                    &&& is_identifier(name.1)
                    &&& name.1.len() == Self::spec_parse(s, pos).consumed
                    &&& name.0.0 == pos
                    &&& in_bounds(s, pos) ==> name.0.1 == name.1.len()
                },
                Err(error) => is_syntax_error(error) && Self::spec_parse(s, pos).consumed == 0,
            },
    {
        lemma_identifier_len(s);
    }

    /// An identifier that was not read from any text: its extent is empty.
    pub fn named(name: &str) -> (r: Self)
        ensures
            r@ == Spanning(Span(0, 0), name@),
    {
        Identifier(Spanning(Span(0, 0), String::from_str(name)))
    }

    /// The identifier's text.
    pub fn as_str(&self) -> (r: &str)
        ensures
            r@ == self@.1,
    {
        self.0.1.as_str()
    }

    /// Reads the identifier at the front of the text.
    pub fn parse<'a>(from: &mut &'a str, pos: &mut usize) -> (r: Result<Self, ParseError>)
        requires
            in_bounds(old(from)@, *old(pos)),
        ensures
            parsed(
                old(from)@,
                *old(pos),
                final(from)@,
                *final(pos),
                r,
                Self::spec_parse(old(from)@, *old(pos)),
            ),
    {
        let whole: &'a str = *from;
        let mut walk = whole.chars();
        proof {
            assert(whole@.skip(0) =~= whole@);
        }
        match walk.next() {
            Some(c) => {
                assert(c == whole@[0]);
                if !identifier_start(c) {
                    return Err(ParseError::ExpectedIdentifier(*pos));
                }
            },
            None => {
                return Err(ParseError::ExpectedIdentifier(*pos));
            },
        }
        let mut len: usize = 1;
        proof {
            assert(whole@.skip(0).drop_first() =~= whole@.skip(1));
        }
        loop
            invariant_except_break
                walk.remaining() == whole@.skip(len as int),
                walk.obeys_prophetic_iter_laws(),
            invariant
                in_bounds(whole@, *pos),
                1 <= len <= whole@.len(),
                is_identifier_start(whole@[0]),
                forall|j: int| 1 <= j < len ==> is_identifier_part(#[trigger] whole@[j]),
            ensures
                len < whole@.len() ==> !is_identifier_part(whole@[len as int]),
            decreases whole@.len() - len,
        {
            match walk.next() {
                Some(c) => {
                    assert(c == whole@[len as int]);
                    if !identifier_part(c) {
                        break ;
                    }
                    proof {
                        assert(whole@.skip(len as int).drop_first() =~= whole@.skip(len + 1));
                    }
                    len = len + 1;
                },
                None => {
                    break ;
                },
            }
        }
        proof {
            let t = whole@.skip(1);
            assert forall|j: int| 0 <= j < len - 1 implies is_identifier_part(#[trigger] t[j]) by {
                assert(t[j] == whole@[j + 1]);
            }
            lemma_identifier_part_len(t, len - 1);
        }
        Ok(Identifier(consume(from, pos, len)))
    }
}

impl Spans for Identifier {
    open spec fn spec_span(&self) -> Span {
        self@.0
    }

    fn span(&self) -> (r: Span) {
        self.0.span()
    }
}

} // verus!
