//! Qualifiers: the named, optionally valued prefixes of a declaration.

use vstd::prelude::*;
use vstd::string::*;
use vstd::std_specs::cmp::PartialEqSpecImpl;
use crate::cut::split_chars;
use crate::error::{Outcome, ParseError, ParseErrorView, is_syntax_error, parsed};
use crate::identifier::Identifier;
use crate::span::{Span, Spanning, Spans};
use crate::text::{
    advance, after, distance_to, find_char, in_bounds, lemma_after_after,
    lemma_distance_to_bound, lemma_whitespace_len_bound, parse_symbol, same_text, spec_symbol,
    strip_whitespace, trim_end, trim_start, trimmed, whitespace_len,
};

verus! {

/// The words that introduce a declaration.
#[derive(Debug)]
pub enum Keyword {
    Fn,
    Struct,
}

/// A named attribute in front of a declaration, such as `fn`, `struct` or
/// `layout|packed|`.
#[derive(Debug)]
pub struct Qualifier {
    name: Identifier,
    value: Option<Spanning<String>>,
}

/// What a [`Qualifier`] holds, with texts as sequences of characters.
pub struct QualifierView {
    pub name: Spanning<Seq<char>>,
    pub value: Option<Spanning<Seq<char>>>,
}

impl View for Qualifier {
    type V = QualifierView;

    closed spec fn view(&self) -> QualifierView {
        QualifierView {
            name: self.name@,
            value: match self.value {
                Some(value) => Some(value@),
                None => None,
            },
        }
    }
}

impl Clone for Qualifier {
    fn clone(&self) -> (r: Self)
        ensures
            r@ == self@,
    {
        let value = match &self.value {
            Some(value) => Some(Spanning(value.0, value.1.clone())),
            None => None,
        };
        Qualifier { name: self.name.clone(), value }
    }
}

impl PartialEq for Qualifier {
    /// Two qualifiers are the same when their names are: the value does not
    /// count, so that a set of qualifiers holds each name once.
    fn eq(&self, other: &Self) -> (r: bool) {
        same_text(self.name.as_str(), other.name.as_str())
    }
}

impl PartialEqSpecImpl for Qualifier {
    open spec fn obeys_eq_spec() -> bool {
        true
    }

    open spec fn eq_spec(&self, other: &Self) -> bool {
        self@.name.1 == other@.name.1
    }
}

impl Eq for Qualifier {

}

impl Qualifier {
    /// The qualifier at the front of `s`, with the cursor at `pos`:
    /// whitespace, an identifier, whitespace, and then, if a `|` follows, the
    /// text up to the next `|`, which is the value once trimmed. The value's
    /// extent starts at the opening `|` and ends in front of the closing one;
    /// the cursor moves past the closing one. A `|` that is never closed is
    /// an error at the position behind it.
    #[verifier::opaque]
    pub open spec fn spec_parse(s: Seq<char>, pos: usize) -> Outcome<QualifierView> {
        let at_name = whitespace_len(s);
        let name = Identifier::spec_parse(after(s, at_name), (pos + at_name) as usize);
        match name.result {
            Err(error) => Outcome { result: Err(error), consumed: at_name },
            Ok(name_value) => {
                let past_name = at_name + name.consumed;
                let at_value = past_name + whitespace_len(after(s, past_name));
                let open = spec_symbol("|"@, after(s, at_value), (pos + at_value) as usize);
                match open.result {
                    Err(_) => Outcome {
                        result: Ok(QualifierView { name: name_value, value: None }),
                        consumed: at_value,
                    },
                    Ok(_) => {
                        let at_text = at_value + open.consumed;
                        let text = after(s, at_text);
                        let raw = distance_to(text, '|');
                        if raw < text.len() {
                            Outcome {
                                result: Ok(
                                    QualifierView {
                                        name: name_value,
                                        value: Some(
                                            Spanning(
                                                Span(
                                                    (pos + at_value) as usize,
                                                    (open.consumed + raw) as usize,
                                                ),
                                                trim_end(trim_start(text.take(raw as int))),
                                            ),
                                        ),
                                    },
                                ),
                                consumed: at_text + raw + 1,
                            }
                        } else {
                            Outcome {
                                result: Err(
                                    ParseErrorView::ExpectedSymbol(
                                        "|"@,
                                        (pos + at_text) as usize,
                                    ),
                                ),
                                consumed: at_text,
                            }
                        }
                    },
                }
            },
        }
    }

    /// A qualifier lies within the text; one that is read holds at least one
    /// character, and its name starts at or behind the cursor and in front
    /// of where the reading ends. A failure is a syntax error.
    pub proof fn lemma_spec_parse_bound(s: Seq<char>, pos: usize)
        ensures
            Self::spec_parse(s, pos).consumed <= s.len(),
            match Self::spec_parse(s, pos).result {
                Ok(qualifier) => {
                    &&& Self::spec_parse(s, pos).consumed >= 1
                    &&& in_bounds(s, pos) ==> pos <= qualifier.name.0.0 < pos + Self::spec_parse(
                        s,
                        pos,
                    ).consumed
                },
                Err(error) => is_syntax_error(error),
            },
    {
        reveal(Qualifier::spec_parse);
        lemma_whitespace_len_bound(s);
        let at_name = whitespace_len(s);
        let name = Identifier::spec_parse(after(s, at_name), (pos + at_name) as usize);
        Identifier::lemma_spec_parse_bound(after(s, at_name), (pos + at_name) as usize);
        if name.result is Ok {
            let past_name = at_name + name.consumed;
            lemma_whitespace_len_bound(after(s, past_name));
            let at_value = past_name + whitespace_len(after(s, past_name));
            let open = spec_symbol("|"@, after(s, at_value), (pos + at_value) as usize);
            if open.result is Ok {
                lemma_distance_to_bound(after(s, at_value + open.consumed), '|');
            }
        }
    }

    /// A qualifier with a name and no value, not read from any text.
    pub fn named(name: &str) -> (r: Self)
        ensures
            r@ == (QualifierView { name: Spanning(Span(0, 0), name@), value: None }),
    {
        Qualifier { name: Identifier::named(name), value: None }
    }

    /// The qualifier's name.
    pub fn name(&self) -> (r: &Identifier)
        ensures
            r@ == self@.name,
    {
        &self.name
    }

    /// The qualifier's value, where it has one.
    pub fn value(&self) -> (r: Option<&Spanning<String>>)
        ensures
            match r {
                Some(value) => self@.value == Some(value@),
                None => self@.value is None,
            },
    {
        match &self.value {
            Some(value) => Some(value),
            None => None,
        }
    }

    /// Reads the qualifier at the front of the text.
    pub fn parse<'a>(from: &mut &'a str, pos: &mut usize) -> (r: Result<Self, ParseError>)
        requires
            in_bounds(old(from)@, *old(pos)),
        ensures
            parsed(
                old(from)@,
                *old(pos),
                final(from)@,
                *final(pos),
                r,
                Self::spec_parse(old(from)@, *old(pos)),
            ),
    {
        let ghost s = from@;
        let ghost start = *pos;
        proof {
            reveal(Qualifier::spec_parse);
        }
        strip_whitespace(from, pos);
        let ghost at_name = whitespace_len(s);
        let name = Identifier::parse(from, pos);
        let ghost past_name = at_name + Identifier::spec_parse(
            after(s, at_name),
            (start + at_name) as usize,
        ).consumed;
        proof {
            lemma_after_after(s, at_name, (past_name - at_name) as nat);
        }
        let name = match name {
            Ok(name) => name,
            Err(error) => {
                return Err(error);
            },
        };
        strip_whitespace(from, pos);
        let ghost at_value = past_name + whitespace_len(after(s, past_name));
        proof {
            lemma_after_after(s, past_name, (at_value - past_name) as nat);
        }
        let value_pos: usize = *pos;
        let open = parse_symbol("|", from, pos);
        let ghost at_text = at_value + spec_symbol(
            "|"@,
            after(s, at_value),
            (start + at_value) as usize,
        ).consumed;
        proof {
            lemma_after_after(s, at_value, (at_text - at_value) as nat);
        }
        if let Err(_) = open {
            return Ok(Qualifier { name, value: None });
        }
        let text: &'a str = *from;
        match find_char(text, '|') {
            Some(raw) => {
                let (left, _) = split_chars(text, raw);
                let value = trimmed(left);
                advance(from, pos, raw);
                let span = Span(value_pos, *pos - value_pos);
                advance(from, pos, 1);
                proof {
                    lemma_after_after(s, at_text, raw as nat);
                    lemma_after_after(s, at_text + raw as nat, 1);
                }
                Ok(Qualifier { name, value: Some(Spanning(span, value)) })
            },
            None => Err(ParseError::ExpectedSymbol(String::from_str("|"), *pos)),
        }
    }
}

impl Spans for Qualifier {
    /// The extent of the name.
    open spec fn spec_span(&self) -> Span {
        self@.name.0
    }

    fn span(&self) -> (r: Span) {
        self.name.span()
    }
}

} // verus!
