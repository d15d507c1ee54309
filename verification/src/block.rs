//! Blocks: the braces that hold the body of a function.

use vstd::prelude::*;
use vstd::string::*;
use crate::datatype::DataType;
use crate::error::{Outcome, ParseError, is_syntax_error, parsed};
use crate::span::{Span, Spans};
use crate::text::{
    after, in_bounds, lemma_after_after, lemma_whitespace_len_bound, parse_symbol, spec_symbol,
    strip_whitespace, whitespace_len,
};

verus! {

/// An expression inside a block. The grammar of bodies produces none yet.
pub trait Expression {
    fn data_type(&self) -> DataType;
}

/// The body of a function: its two braces and the expressions between them.
pub struct Block {
    open_brace: Span,
    expressions: Vec<Box<dyn Expression>>,
    close_brace: Span,
}

/// What a [`Block`] holds: the extents of its braces and the number of its
/// expressions.
pub struct BlockView {
    pub open_brace: Span,
    pub expressions: nat,
    pub close_brace: Span,
}

impl View for Block {
    type V = BlockView;

    closed spec fn view(&self) -> BlockView {
        BlockView {
            open_brace: self.open_brace,
            expressions: self.expressions@.len(),
            close_brace: self.close_brace,
        }
    }
}

impl Block {
    /// The closing brace does not end in front of the opening one.
    #[verifier::type_invariant]
    spec fn well_formed(self) -> bool {
        self.open_brace.precedes(self.close_brace)
    }

    /// The block at the front of `s`, with the cursor at `pos`: `{` and `}`
    /// with whitespace allowed in front of each. It holds no expression.
    #[verifier::opaque]
    pub open spec fn spec_parse(s: Seq<char>, pos: usize) -> Outcome<BlockView> {
        let at_open = whitespace_len(s);
        let open = spec_symbol("{"@, after(s, at_open), (pos + at_open) as usize);
        match open.result {
            Err(error) => Outcome { result: Err(error), consumed: at_open },
            Ok(open_value) => {
                let past_open = at_open + open.consumed;
                let at_close = past_open + whitespace_len(after(s, past_open));
                let close = spec_symbol("}"@, after(s, at_close), (pos + at_close) as usize);
                match close.result {
                    Err(error) => Outcome { result: Err(error), consumed: at_close },
                    Ok(close_value) => Outcome {
                        result: Ok(
                            BlockView {
                                open_brace: open_value.0,
                                expressions: 0,
                                close_brace: close_value.0,
                            },
                        ),
                        consumed: at_close + close.consumed,
                    },
                }
            },
        }
    }

    /// A block lies within the text. A failure is a syntax error.
    pub proof fn lemma_spec_parse_bound(s: Seq<char>, pos: usize)
        ensures
            match Self::spec_parse(s, pos).result {
                Err(error) => is_syntax_error(error),
                Ok(_) => true,
            },
            Self::spec_parse(s, pos).consumed <= s.len(),
    {
        reveal(Block::spec_parse);
        lemma_whitespace_len_bound(s);
        let at_open = whitespace_len(s);
        let open = spec_symbol("{"@, after(s, at_open), (pos + at_open) as usize);
        if open.result is Ok {
            let past_open = at_open + open.consumed;
            lemma_whitespace_len_bound(after(s, past_open));
        }
    }

    /// The extent of the opening brace.
    pub fn open_brace(&self) -> (r: Span)
        ensures
            r == self@.open_brace,
    {
        self.open_brace
    }

    /// The extent of the closing brace.
    pub fn close_brace(&self) -> (r: Span)
        ensures
            r == self@.close_brace,
    {
        self.close_brace
    }

    /// The expressions between the braces.
    pub fn expressions(&self) -> (r: &Vec<Box<dyn Expression>>)
        ensures
            r@.len() == self@.expressions,
    {
        &self.expressions
    }

    /// Reads the block at the front of the text.
    pub fn parse<'a>(from: &mut &'a str, pos: &mut usize) -> (r: Result<Self, ParseError>)
        requires
            in_bounds(old(from)@, *old(pos)),
        ensures
            parsed(
                old(from)@,
                *old(pos),
                final(from)@,
                *final(pos),
                r,
                Self::spec_parse(old(from)@, *old(pos)),
            ),
    {
        let ghost s = from@;
        let ghost start = *pos;
        proof {
            reveal(Block::spec_parse);
        }
        strip_whitespace(from, pos);
        let ghost at_open = whitespace_len(s);
        let open = parse_symbol("{", from, pos);
        let ghost past_open = at_open + spec_symbol(
            "{"@,
            after(s, at_open),
            (start + at_open) as usize,
        ).consumed;
        proof {
            lemma_after_after(s, at_open, (past_open - at_open) as nat);
        }
        let open_brace = match open {
            Ok(open) => open.span(),
            Err(error) => {
                return Err(error);
            },
        };
        strip_whitespace(from, pos);
        let ghost at_close = past_open + whitespace_len(after(s, past_open));
        proof {
            lemma_after_after(s, past_open, (at_close - past_open) as nat);
        }
        let expressions: Vec<Box<dyn Expression>> = Vec::new();
        let close = parse_symbol("}", from, pos);
        proof {
            let taken = spec_symbol("}"@, after(s, at_close), (start + at_close) as usize).consumed;
            lemma_after_after(s, at_close, taken);
        }
        let close_brace = match close {
            Ok(close) => close.span(),
            Err(error) => {
                return Err(error);
            },
        };
        Ok(Block { open_brace, expressions, close_brace })
    }
}

impl Spans for Block {
    /// From the opening brace to the closing one.
    open spec fn spec_span(&self) -> Span {
        self@.open_brace.spec_combine(self@.close_brace)
    }

    fn span(&self) -> (r: Span) {
        proof {
            use_type_invariant(self);
        }
        self.open_brace.combine(self.close_brace)
    }
}

} // verus!
