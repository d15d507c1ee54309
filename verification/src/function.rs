//! Functions: declarations and definitions.

use vstd::prelude::*;
use vstd::string::*;
use vstd::hash_map::StringHashMap;
use crate::binding::{TypedBinding, TypedBindingView, bindings_view};
use crate::block::{Block, BlockView};
use crate::error::{Outcome, ParseError, ParseErrorView, is_syntax_error, moved, parsed};
use crate::identifier::Identifier;
use crate::qualifier::{Qualifier, QualifierView};
use crate::span::{Span, Spanning, Spans};
use crate::text::{
    after, in_bounds, lemma_after_after, lemma_whitespace_len_bound, parse_symbol, spec_symbol,
    strip_whitespace, whitespace_len,
};

verus! {

/// A function. Without a block it is a declaration, with one a definition.
pub struct Function {
    fn_qualifier: Qualifier,
    name: Identifier,
    args: Vec<TypedBinding>,
    return_type: Option<Identifier>,
    block: Option<Block>,
}

/// What a [`Function`] holds, with texts as sequences of characters.
pub struct FunctionView {
    pub fn_qualifier: QualifierView,
    pub name: Spanning<Seq<char>>,
    pub args: Seq<TypedBindingView>,
    pub return_type: Option<Spanning<Seq<char>>>,
    pub block: Option<BlockView>,
}

/// The name and the parameters of a function.
pub struct Signature {
    pub name: Spanning<Seq<char>>,
    pub args: Seq<TypedBindingView>,
}

impl View for Function {
    type V = FunctionView;

    closed spec fn view(&self) -> FunctionView {
        FunctionView {
            fn_qualifier: self.fn_qualifier@,
            name: self.name@,
            args: bindings_view(self.args@),
            return_type: match self.return_type {
                Some(name) => Some(name@),
                None => None,
            },
            block: match self.block {
                Some(block) => Some(block@),
                None => None,
            },
        }
    }
}

impl Function {
    /// The name and the parameter list at the front of `s`, with the cursor
    /// at `pos`: an identifier, `(`, a list of bindings and `)`, with
    /// whitespace allowed in front of each.
    #[verifier::opaque]
    pub open spec fn spec_parse_signature(s: Seq<char>, pos: usize) -> Outcome<Signature> {
        let at_name = whitespace_len(s);
        let name = Identifier::spec_parse(after(s, at_name), (pos + at_name) as usize);
        match name.result {
            Err(error) => Outcome { result: Err(error), consumed: at_name },
            Ok(name_value) => {
                let past_name = at_name + name.consumed;
                let at_open = past_name + whitespace_len(after(s, past_name));
                let open = spec_symbol("("@, after(s, at_open), (pos + at_open) as usize);
                match open.result {
                    Err(error) => Outcome { result: Err(error), consumed: at_open },
                    Ok(_) => {
                        let at_list = at_open + open.consumed;
                        let list = TypedBinding::spec_parse_list(
                            after(s, at_list),
                            (pos + at_list) as usize,
                        );
                        let past_list = at_list + list.consumed;
                        let at_close = past_list + whitespace_len(after(s, past_list));
                        let close = spec_symbol(
                            ")"@,
                            after(s, at_close),
                            (pos + at_close) as usize,
                        );
                        match close.result {
                            Err(error) => Outcome { result: Err(error), consumed: at_close },
                            Ok(_) => Outcome {
                                result: Ok(Signature { name: name_value, args: list.items }),
                                consumed: at_close + close.consumed,
                            },
                        }
                    },
                }
            },
        }
    }

    /// The return type at the front of `s`, with the cursor at `pos`: after
    /// whitespace, `:` and an identifier where a `:` stands, and nothing
    /// where none does.
    #[verifier::opaque]
    pub open spec fn spec_parse_return_type(s: Seq<char>, pos: usize) -> Outcome<
        Option<Spanning<Seq<char>>>,
    > {
        let at_colon = whitespace_len(s);
        let colon = spec_symbol(":"@, after(s, at_colon), (pos + at_colon) as usize);
        match colon.result {
            Err(_) => Outcome { result: Ok(None), consumed: at_colon },
            Ok(_) => {
                let past_colon = at_colon + colon.consumed;
                let at_name = past_colon + whitespace_len(after(s, past_colon));
                let name = Identifier::spec_parse(after(s, at_name), (pos + at_name) as usize);
                Outcome {
                    result: match name.result {
                        Ok(name_value) => Ok(Some(name_value)),
                        Err(error) => Err(error),
                    },
                    consumed: at_name + name.consumed,
                }
            },
        }
    }

    /// The end of a function at the front of `s`, with the cursor at `pos`:
    /// after whitespace, `;` for a declaration, which has no block, or else a
    /// block.
    #[verifier::opaque]
    pub open spec fn spec_parse_body(s: Seq<char>, pos: usize) -> Outcome<Option<BlockView>> {
        let at_end = whitespace_len(s);
        let semicolon = spec_symbol(";"@, after(s, at_end), (pos + at_end) as usize);
        match semicolon.result {
            Ok(_) => Outcome { result: Ok(None), consumed: at_end + semicolon.consumed },
            Err(_) => {
                let block = Block::spec_parse(after(s, at_end), (pos + at_end) as usize);
                Outcome {
                    result: match block.result {
                        Ok(block_value) => Ok(Some(block_value)),
                        Err(error) => Err(error),
                    },
                    consumed: at_end + block.consumed,
                }
            },
        }
    }

    /// The function at the front of `s`, with the cursor at `pos`, behind its
    /// qualifier `fn`: the signature, the return type and the body, in this
    /// order. The first of them that fails is the function's error.
    #[verifier::opaque]
    pub open spec fn spec_parse(fn_qualifier: QualifierView, s: Seq<char>, pos: usize) -> Outcome<
        FunctionView,
    > {
        let signature = Self::spec_parse_signature(s, pos);
        match signature.result {
            Err(error) => Outcome { result: Err(error), consumed: signature.consumed },
            Ok(signature_value) => {
                let at_return = signature.consumed;
                let return_type = Self::spec_parse_return_type(
                    after(s, at_return),
                    (pos + at_return) as usize,
                );
                let at_body = at_return + return_type.consumed;
                match return_type.result {
                    Err(error) => Outcome { result: Err(error), consumed: at_body },
                    Ok(return_value) => {
                        let body = Self::spec_parse_body(
                            after(s, at_body),
                            (pos + at_body) as usize,
                        );
                        Outcome {
                            result: match body.result {
                                Ok(block) => Ok(
                                    FunctionView {
                                        fn_qualifier,
                                        name: signature_value.name,
                                        args: signature_value.args,
                                        return_type: return_value,
                                        block,
                                    },
                                ),
                                Err(error) => Err(error),
                            },
                            consumed: at_body + body.consumed,
                        }
                    },
                }
            },
        }
    }

    /// A function lies within the text, and one that is read holds at least
    /// one character. A failure is a syntax error.
    pub proof fn lemma_spec_parse_bound(fn_qualifier: QualifierView, s: Seq<char>, pos: usize)
        ensures
            match Self::spec_parse(fn_qualifier, s, pos).result {
                Err(error) => is_syntax_error(error),
                Ok(_) => true,
            },
            Self::spec_parse(fn_qualifier, s, pos).consumed <= s.len(),
            Self::spec_parse(fn_qualifier, s, pos).result is Ok ==> Self::spec_parse(
                fn_qualifier,
                s,
                pos,
            ).consumed >= 1,
    {
        reveal(Function::spec_parse);
        Self::lemma_spec_parse_signature_bound(s, pos);
        let signature = Self::spec_parse_signature(s, pos);
        if signature.result is Ok {
            let at_return = signature.consumed;
            Self::lemma_spec_parse_return_type_bound(
                after(s, at_return),
                (pos + at_return) as usize,
            );
            let return_type = Self::spec_parse_return_type(
                after(s, at_return),
                (pos + at_return) as usize,
            );
            let at_body = at_return + return_type.consumed;
            if return_type.result is Ok {
                Self::lemma_spec_parse_body_bound(after(s, at_body), (pos + at_body) as usize);
            }
        }
    }

    /// A function that is read carries the qualifier it was read behind.
    pub proof fn lemma_spec_parse_qualifier(fn_qualifier: QualifierView, s: Seq<char>, pos: usize)
        ensures
            match Self::spec_parse(fn_qualifier, s, pos).result {
                Ok(function) => function.fn_qualifier == fn_qualifier,
                Err(_) => true,
            },
    {
        reveal(Function::spec_parse);
    }

    /// A signature lies within the text. A failure is a syntax error.
    pub proof fn lemma_spec_parse_signature_bound(s: Seq<char>, pos: usize)
        ensures
            match Self::spec_parse_signature(s, pos).result {
                Err(error) => is_syntax_error(error),
                Ok(_) => true,
            },
            Self::spec_parse_signature(s, pos).consumed <= s.len(),
            Self::spec_parse_signature(s, pos).result is Ok ==> Self::spec_parse_signature(
                s,
                pos,
            ).consumed >= 1,
    {
        reveal(Function::spec_parse_signature);
        lemma_whitespace_len_bound(s);
        let at_name = whitespace_len(s);
        Identifier::lemma_spec_parse_bound(after(s, at_name), (pos + at_name) as usize);
        let name = Identifier::spec_parse(after(s, at_name), (pos + at_name) as usize);
        if name.result is Ok {
            let past_name = at_name + name.consumed;
            lemma_whitespace_len_bound(after(s, past_name));
            let at_open = past_name + whitespace_len(after(s, past_name));
            let open = spec_symbol("("@, after(s, at_open), (pos + at_open) as usize);
            if open.result is Ok {
                let at_list = at_open + open.consumed;
                TypedBinding::lemma_spec_parse_list_bound(
                    after(s, at_list),
                    (pos + at_list) as usize,
                );
                let list = TypedBinding::spec_parse_list(
                    after(s, at_list),
                    (pos + at_list) as usize,
                );
                let past_list = at_list + list.consumed;
                lemma_whitespace_len_bound(after(s, past_list));
            }
        }
    }

    /// Whatever stands in the parameter list, a signature fails only for want
    /// of its name or of one of its parentheses: a parameter that cannot be
    /// read ends the list and raises nothing.
    pub proof fn lemma_spec_parse_signature_failures(s: Seq<char>, pos: usize)
        ensures
            match Self::spec_parse_signature(s, pos).result {
                Err(ParseErrorView::ExpectedIdentifier(_)) => true,
                Err(ParseErrorView::ExpectedSymbol(symbol, _)) => symbol == "("@ || symbol
                    == ")"@,
                Err(_) => false,
                Ok(_) => true,
            },
    {
        reveal(Function::spec_parse_signature);
    }

    /// A return type lies within the text. A failure is a syntax error.
    pub proof fn lemma_spec_parse_return_type_bound(s: Seq<char>, pos: usize)
        ensures
            match Self::spec_parse_return_type(s, pos).result {
                Err(error) => is_syntax_error(error),
                Ok(_) => true,
            },
            Self::spec_parse_return_type(s, pos).consumed <= s.len(),
    {
        reveal(Function::spec_parse_return_type);
        lemma_whitespace_len_bound(s);
        let at_colon = whitespace_len(s);
        let colon = spec_symbol(":"@, after(s, at_colon), (pos + at_colon) as usize);
        if colon.result is Ok {
            let past_colon = at_colon + colon.consumed;
            lemma_whitespace_len_bound(after(s, past_colon));
            let at_name = past_colon + whitespace_len(after(s, past_colon));
            Identifier::lemma_spec_parse_bound(after(s, at_name), (pos + at_name) as usize);
        }
    }

    /// The end of a function lies within the text. A failure is a syntax
    /// error.
    pub proof fn lemma_spec_parse_body_bound(s: Seq<char>, pos: usize)
        ensures
            match Self::spec_parse_body(s, pos).result {
                Err(error) => is_syntax_error(error),
                Ok(_) => true,
            },
            Self::spec_parse_body(s, pos).consumed <= s.len(),
    {
        reveal(Function::spec_parse_body);
        lemma_whitespace_len_bound(s);
        let at_end = whitespace_len(s);
        Block::lemma_spec_parse_bound(after(s, at_end), (pos + at_end) as usize);
    }

    /// The qualifier `fn` that introduced the function.
    pub fn fn_qualifier(&self) -> (r: &Qualifier)
        ensures
            r@ == self@.fn_qualifier,
    {
        &self.fn_qualifier
    }

    /// The function's name.
    pub fn name(&self) -> (r: &Identifier)
        ensures
            r@ == self@.name,
    {
        &self.name
    }

    /// The function's parameters, in their order.
    pub fn args(&self) -> (r: &Vec<TypedBinding>)
        ensures
            bindings_view(r@) == self@.args,
    {
        &self.args
    }

    /// The function's return type, where it names one.
    pub fn return_type(&self) -> (r: Option<&Identifier>)
        ensures
            match r {
                Some(name) => self@.return_type == Some(name@),
                None => self@.return_type is None,
            },
    {
        match &self.return_type {
            Some(name) => Some(name),
            None => None,
        }
    }

    /// The function's block, where it is a definition.
    pub fn block(&self) -> (r: Option<&Block>)
        ensures
            match r {
                Some(block) => self@.block == Some(block@),
                None => self@.block is None,
            },
    {
        match &self.block {
            Some(block) => Some(block),
            None => None,
        }
    }

    /// Reads the name and the parameter list of a function.
    fn parse_signature<'a>(from: &mut &'a str, pos: &mut usize) -> (r: Result<
        (Identifier, Vec<TypedBinding>),
        ParseError,
    >)
        requires
            in_bounds(old(from)@, *old(pos)),
        ensures
            moved(
                old(from)@,
                *old(pos),
                final(from)@,
                *final(pos),
                Self::spec_parse_signature(old(from)@, *old(pos)).consumed,
            ),
            Self::spec_parse_signature(old(from)@, *old(pos)).result == match r {
                Ok((name, args)) => Ok(Signature { name: name@, args: bindings_view(args@) }),
                Err(error) => Err(error@),
            },
    {
        let ghost s = from@;
        let ghost start = *pos;
        proof {
            reveal(Function::spec_parse_signature);
        }
        strip_whitespace(from, pos);
        let ghost at_name = whitespace_len(s);
        let name = Identifier::parse(from, pos);
        let ghost past_name = at_name + Identifier::spec_parse(
            after(s, at_name),
            (start + at_name) as usize,
        ).consumed;
        proof {
            lemma_after_after(s, at_name, (past_name - at_name) as nat);
        }
        let name = match name {
            Ok(name) => name,
            Err(error) => {
                return Err(error);
            },
        };
        strip_whitespace(from, pos);
        let ghost at_open = past_name + whitespace_len(after(s, past_name));
        proof {
            lemma_after_after(s, past_name, (at_open - past_name) as nat);
        }
        let open = parse_symbol("(", from, pos);
        let ghost at_list = at_open + spec_symbol(
            "("@,
            after(s, at_open),
            (start + at_open) as usize,
        ).consumed;
        proof {
            lemma_after_after(s, at_open, (at_list - at_open) as nat);
        }
        if let Err(error) = open {
            return Err(error);
        }
        let args = TypedBinding::parse_list(from, pos);
        let ghost past_list = at_list + TypedBinding::spec_parse_list(
            after(s, at_list),
            (start + at_list) as usize,
        ).consumed;
        proof {
            lemma_after_after(s, at_list, (past_list - at_list) as nat);
        }
        strip_whitespace(from, pos);
        let ghost at_close = past_list + whitespace_len(after(s, past_list));
        proof {
            lemma_after_after(s, past_list, (at_close - past_list) as nat);
        }
        let close = parse_symbol(")", from, pos);
        proof {
            let taken = spec_symbol(")"@, after(s, at_close), (start + at_close) as usize).consumed;
            lemma_after_after(s, at_close, taken);
        }
        if let Err(error) = close {
            return Err(error);
        }
        Ok((name, args))
    }

    /// Reads the return type of a function, where it names one.
    fn parse_return_type<'a>(from: &mut &'a str, pos: &mut usize) -> (r: Result<
        Option<Identifier>,
        ParseError,
    >)
        requires
            in_bounds(old(from)@, *old(pos)),
        ensures
            moved(
                old(from)@,
                *old(pos),
                final(from)@,
                *final(pos),
                Self::spec_parse_return_type(old(from)@, *old(pos)).consumed,
            ),
            Self::spec_parse_return_type(old(from)@, *old(pos)).result == match r {
                Ok(Some(name)) => Ok(Some(name@)),
                Ok(None) => Ok(None),
                Err(error) => Err(error@),
            },
    {
        let ghost s = from@;
        let ghost start = *pos;
        proof {
            reveal(Function::spec_parse_return_type);
        }
        strip_whitespace(from, pos);
        let ghost at_colon = whitespace_len(s);
        let colon = parse_symbol(":", from, pos);
        let ghost past_colon = at_colon + spec_symbol(
            ":"@,
            after(s, at_colon),
            (start + at_colon) as usize,
        ).consumed;
        proof {
            lemma_after_after(s, at_colon, (past_colon - at_colon) as nat);
        }
        if let Err(_) = colon {
            return Ok(None);
        }
        strip_whitespace(from, pos);
        let ghost at_name = past_colon + whitespace_len(after(s, past_colon));
        proof {
            lemma_after_after(s, past_colon, (at_name - past_colon) as nat);
        }
        let name = Identifier::parse(from, pos);
        proof {
            let named = Identifier::spec_parse(after(s, at_name), (start + at_name) as usize);
            lemma_after_after(s, at_name, named.consumed);
        }
        match name {
            Ok(name) => Ok(Some(name)),
            Err(error) => Err(error),
        }
    }

    /// Reads the end of a function: `;` or a block.
    fn parse_body<'a>(from: &mut &'a str, pos: &mut usize) -> (r: Result<
        Option<Block>,
        ParseError,
    >)
        requires
            in_bounds(old(from)@, *old(pos)),
        ensures
            moved(
                old(from)@,
                *old(pos),
                final(from)@,
                *final(pos),
                Self::spec_parse_body(old(from)@, *old(pos)).consumed,
            ),
            Self::spec_parse_body(old(from)@, *old(pos)).result == match r {
                Ok(Some(block)) => Ok(Some(block@)),
                Ok(None) => Ok(None),
                Err(error) => Err(error@),
            },
    {
        let ghost s = from@;
        let ghost start = *pos;
        proof {
            reveal(Function::spec_parse_body);
        }
        strip_whitespace(from, pos);
        let ghost at_end = whitespace_len(s);
        let semicolon = parse_symbol(";", from, pos);
        proof {
            let taken = spec_symbol(";"@, after(s, at_end), (start + at_end) as usize).consumed;
            lemma_after_after(s, at_end, taken);
        }
        if let Ok(_) = semicolon {
            return Ok(None);
        }
        let block = Block::parse(from, pos);
        proof {
            let taken = Block::spec_parse(after(s, at_end), (start + at_end) as usize).consumed;
            lemma_after_after(s, at_end, taken);
        }
        match block {
            Ok(block) => Ok(Some(block)),
            Err(error) => Err(error),
        }
    }

    /// Reads the function at the front of the text. `qualifiers` holds the
    /// qualifiers that stood in front of it, among them `fn`, which becomes
    /// the function's own.
    pub fn parse<'a>(
        qualifiers: StringHashMap<Qualifier>,
        from: &mut &'a str,
        pos: &mut usize,
    ) -> (r: Result<Self, ParseError>)
        requires
            qualifiers@.contains_key("fn"@),
            in_bounds(old(from)@, *old(pos)),
        ensures
            parsed(
                old(from)@,
                *old(pos),
                final(from)@,
                *final(pos),
                r,
                Self::spec_parse(qualifiers@["fn"@]@, old(from)@, *old(pos)),
            ),
    {
        let ghost s = from@;
        let ghost start = *pos;
        proof {
            reveal(Function::spec_parse);
        }
        let fn_qualifier = match qualifiers.get("fn") {
            Some(found) => found.clone(),
            None => vstd::pervasive::unreached(),
        };
        let signature = Self::parse_signature(from, pos);
        let ghost at_return = Self::spec_parse_signature(s, start).consumed;
        let (name, args) = match signature {
            Ok(signature) => signature,
            Err(error) => {
                return Err(error);
            },
        };
        let return_type = Self::parse_return_type(from, pos);
        let ghost at_body = at_return + Self::spec_parse_return_type(
            after(s, at_return),
            (start + at_return) as usize,
        ).consumed;
        proof {
            lemma_after_after(s, at_return, (at_body - at_return) as nat);
        }
        let return_type = match return_type {
            Ok(return_type) => return_type,
            Err(error) => {
                return Err(error);
            },
        };
        let block = Self::parse_body(from, pos);
        proof {
            let body = Self::spec_parse_body(after(s, at_body), (start + at_body) as usize);
            lemma_after_after(s, at_body, body.consumed);
        }
        match block {
            Ok(block) => Ok(Function { fn_qualifier, name, args, return_type, block }),
            Err(error) => Err(error),
        }
    }
}

impl Spans for Function {
    /// The extent of the qualifier `fn`.
    open spec fn spec_span(&self) -> Span {
        self@.fn_qualifier.name.0
    }

    fn span(&self) -> (r: Span) {
        self.fn_qualifier.span()
    }
}

} // verus!
