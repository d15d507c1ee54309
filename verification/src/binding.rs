//! Typed bindings: the parameters of a function and the fields of a
//! structure.

use vstd::prelude::*;
use vstd::string::*;
use crate::datatype::{DataType, DataTypeView, render};
use crate::error::{Outcome, ParseError, is_syntax_error, moved, parsed};
use crate::identifier::Identifier;
use crate::span::Spanning;
use crate::text::{
    after, in_bounds, lemma_after_after, lemma_whitespace_len_bound, parse_symbol, spec_symbol,
    strip_whitespace, whitespace_len,
};

verus! {

/// A name with its type: `name: type`.
#[derive(Debug)]
pub struct TypedBinding {
    name: Identifier,
    datatype: DataType,
}

/// What a [`TypedBinding`] holds, with texts as sequences of characters.
pub struct TypedBindingView {
    pub name: Spanning<Seq<char>>,
    pub datatype: DataTypeView,
}

/// What reading a list of bindings gives: the bindings that were read, and
/// the number of characters that the reading took, those of a last binding
/// that failed included.
pub struct Listed {
    pub items: Seq<TypedBindingView>,
    pub consumed: nat,
}

impl View for TypedBinding {
    type V = TypedBindingView;

    closed spec fn view(&self) -> TypedBindingView {
        TypedBindingView { name: self.name@, datatype: self.datatype@ }
    }
}

impl Clone for TypedBinding {
    fn clone(&self) -> (r: Self)
        ensures
            r@ == self@,
    {
        TypedBinding { name: self.name.clone(), datatype: self.datatype.clone() }
    }
}

/// The views of the bindings of a list, in their order.
pub open spec fn bindings_view(list: Seq<TypedBinding>) -> Seq<TypedBindingView> {
    list.map_values(|binding: TypedBinding| binding@)
}

impl TypedBinding {
    /// The binding at the front of `s`, with the cursor at `pos`: an
    /// identifier, `:` and a type expression, with whitespace allowed in
    /// front of each of them and taken behind the last.
    #[verifier::opaque]
    pub open spec fn spec_parse(s: Seq<char>, pos: usize) -> Outcome<TypedBindingView> {
        let at_name = whitespace_len(s);
        let name = Identifier::spec_parse(after(s, at_name), (pos + at_name) as usize);
        match name.result {
            Err(error) => Outcome { result: Err(error), consumed: at_name },
            Ok(name_value) => {
                let past_name = at_name + name.consumed;
                let at_colon = past_name + whitespace_len(after(s, past_name));
                let colon = spec_symbol(":"@, after(s, at_colon), (pos + at_colon) as usize);
                match colon.result {
                    Err(error) => Outcome { result: Err(error), consumed: at_colon },
                    Ok(_) => {
                        let at_type = at_colon + colon.consumed;
                        let datatype = DataType::spec_parse(
                            after(s, at_type),
                            (pos + at_type) as usize,
                        );
                        let past_type = at_type + datatype.consumed;
                        match datatype.result {
                            Err(error) => Outcome { result: Err(error), consumed: past_type },
                            Ok(datatype_value) => Outcome {
                                result: Ok(
                                    TypedBindingView { name: name_value, datatype: datatype_value },
                                ),
                                consumed: past_type + whitespace_len(after(s, past_type)),
                            },
                        }
                    },
                }
            },
        }
    }

    /// A binding lies within the text, and one that is read holds at least
    /// one character. A failure is a syntax error.
    pub proof fn lemma_spec_parse_bound(s: Seq<char>, pos: usize)
        ensures
            match Self::spec_parse(s, pos).result {
                Err(error) => is_syntax_error(error),
                Ok(_) => true,
            },
            Self::spec_parse(s, pos).consumed <= s.len(),
            Self::spec_parse(s, pos).result is Ok ==> Self::spec_parse(s, pos).consumed >= 1,
    {
        reveal(TypedBinding::spec_parse);
        let at_name = whitespace_len(s);
        lemma_whitespace_len_bound(s);
        let name = Identifier::spec_parse(after(s, at_name), (pos + at_name) as usize);
        Identifier::lemma_spec_parse_bound(after(s, at_name), (pos + at_name) as usize);
        if name.result is Ok {
            let past_name = at_name + name.consumed;
            lemma_whitespace_len_bound(after(s, past_name));
            let at_colon = past_name + whitespace_len(after(s, past_name));
            let colon = spec_symbol(":"@, after(s, at_colon), (pos + at_colon) as usize);
            if colon.result is Ok {
                let at_type = at_colon + colon.consumed;
                DataType::lemma_spec_parse_bound(after(s, at_type), (pos + at_type) as usize);
                let datatype = DataType::spec_parse(after(s, at_type), (pos + at_type) as usize);
                let past_type = at_type + datatype.consumed;
                lemma_whitespace_len_bound(after(s, past_type));
            }
        }
    }

    /// The bindings at the front of `s`, with the cursor at `pos`, separated
    /// by `,`. The list ends in front of the first binding that cannot be
    /// read, or behind a binding that no `,` follows. A binding that cannot
    /// be read raises no error, and what its reading took stays taken.
    #[verifier::opaque]
    pub open spec fn spec_parse_list(s: Seq<char>, pos: usize) -> Listed
        decreases s.len(),
    {
        let first = Self::spec_parse(s, pos);
        match first.result {
            Err(_) => Listed { items: Seq::empty(), consumed: first.consumed },
            Ok(binding) => {
                let at_comma = first.consumed + whitespace_len(after(s, first.consumed));
                let comma = spec_symbol(","@, after(s, at_comma), (pos + at_comma) as usize);
                match comma.result {
                    Err(_) => Listed { items: seq![binding], consumed: at_comma },
                    Ok(_) => {
                        let past_comma = at_comma + comma.consumed;
                        let at_next = past_comma + whitespace_len(after(s, past_comma));
                        proof {
                            Self::lemma_spec_parse_bound(s, pos);
                            lemma_whitespace_len_bound(after(s, first.consumed));
                            lemma_whitespace_len_bound(after(s, past_comma));
                        }
                        let more = Self::spec_parse_list(
                            after(s, at_next),
                            (pos + at_next) as usize,
                        );
                        Listed {
                            items: seq![binding] + more.items,
                            consumed: at_next + more.consumed,
                        }
                    },
                }
            },
        }
    }

    /// A list of bindings lies within the text.
    pub proof fn lemma_spec_parse_list_bound(s: Seq<char>, pos: usize)
        ensures
            Self::spec_parse_list(s, pos).consumed <= s.len(),
        decreases s.len(),
    {
        reveal(TypedBinding::spec_parse_list);
        Self::lemma_spec_parse_bound(s, pos);
        let first = Self::spec_parse(s, pos);
        if first.result is Ok {
            lemma_whitespace_len_bound(after(s, first.consumed));
            let at_comma = first.consumed + whitespace_len(after(s, first.consumed));
            let comma = spec_symbol(","@, after(s, at_comma), (pos + at_comma) as usize);
            if comma.result is Ok {
                let past_comma = at_comma + comma.consumed;
                lemma_whitespace_len_bound(after(s, past_comma));
                let at_next = past_comma + whitespace_len(after(s, past_comma));
                Self::lemma_spec_parse_list_bound(after(s, at_next), (pos + at_next) as usize);
            }
        }
    }

    /// The binding's name.
    pub fn name(&self) -> (r: &Identifier)
        ensures
            r@ == self@.name,
    {
        &self.name
    }

    /// The binding's type.
    pub fn datatype(&self) -> (r: &DataType)
        ensures
            r@ == self@.datatype,
    {
        &self.datatype
    }

    /// The text of a binding: its name, `: ` and its type.
    pub open spec fn render(binding: TypedBindingView) -> Seq<char> {
        binding.name.1 + ": "@ + render(binding.datatype)
    }

    /// Writes the binding as text.
    pub fn to_string(&self) -> (r: String)
        ensures
            r@ == Self::render(self@),
    {
        String::from_str(self.name.as_str()).concat(": ").concat(
            self.datatype.to_string().as_str(),
        )
    }

    /// Reads the binding at the front of the text.
    pub fn parse<'a>(from: &mut &'a str, pos: &mut usize) -> (r: Result<Self, ParseError>)
        requires
            in_bounds(old(from)@, *old(pos)),
        ensures
            parsed(
                old(from)@,
                *old(pos),
                final(from)@,
                *final(pos),
                r,
                Self::spec_parse(old(from)@, *old(pos)),
            ),
    {
        let ghost s = from@;
        let ghost start = *pos;
        proof {
            reveal(TypedBinding::spec_parse);
        }
        strip_whitespace(from, pos);
        let ghost at_name = whitespace_len(s);
        let name = Identifier::parse(from, pos);
        let ghost past_name = at_name + Identifier::spec_parse(
            after(s, at_name),
            (start + at_name) as usize,
        ).consumed;
        proof {
            lemma_after_after(s, at_name, (past_name - at_name) as nat);
        }
        let name = match name {
            Ok(name) => name,
            Err(error) => {
                return Err(error);
            },
        };
        strip_whitespace(from, pos);
        let ghost at_colon = past_name + whitespace_len(after(s, past_name));
        proof {
            lemma_after_after(s, past_name, (at_colon - past_name) as nat);
        }
        let colon = parse_symbol(":", from, pos);
        let ghost at_type = at_colon + spec_symbol(
            ":"@,
            after(s, at_colon),
            (start + at_colon) as usize,
        ).consumed;
        proof {
            lemma_after_after(s, at_colon, (at_type - at_colon) as nat);
        }
        if let Err(error) = colon {
            return Err(error);
        }
        let datatype = DataType::parse(from, pos);
        let ghost past_type = at_type + DataType::spec_parse(
            after(s, at_type),
            (start + at_type) as usize,
        ).consumed;
        proof {
            lemma_after_after(s, at_type, (past_type - at_type) as nat);
        }
        let datatype = match datatype {
            Ok(datatype) => datatype,
            Err(error) => {
                return Err(error);
            },
        };
        strip_whitespace(from, pos);
        proof {
            lemma_after_after(s, past_type, whitespace_len(after(s, past_type)));
        }
        Ok(TypedBinding { name, datatype })
    }

    /// Reads the bindings at the front of the text, up to the first one that
    /// cannot be read.
    pub fn parse_list<'a>(from: &mut &'a str, pos: &mut usize) -> (r: Vec<TypedBinding>)
        requires
            in_bounds(old(from)@, *old(pos)),
        ensures
            bindings_view(r@) == Self::spec_parse_list(old(from)@, *old(pos)).items,
            moved(
                old(from)@,
                *old(pos),
                final(from)@,
                *final(pos),
                Self::spec_parse_list(old(from)@, *old(pos)).consumed,
            ),
    {
        let ghost s = from@;
        let ghost start = *pos;
        let mut list: Vec<TypedBinding> = Vec::new();
        let ghost mut done: nat = 0;
        proof {
            Self::lemma_spec_parse_list_bound(s, start);
            assert(after(s, 0) =~= s);
            assert(bindings_view(list@) =~= Seq::empty());
        }
        loop
            invariant_except_break
                done <= s.len(),
                from@ == after(s, done),
                *pos == start + done,
                Self::spec_parse_list(s, start).items == bindings_view(list@)
                    + Self::spec_parse_list(after(s, done), (start + done) as usize).items,
                Self::spec_parse_list(s, start).consumed == done + Self::spec_parse_list(
                    after(s, done),
                    (start + done) as usize,
                ).consumed,
            invariant
                in_bounds(s, start),
                Self::spec_parse_list(s, start).consumed <= s.len(),
            ensures
                bindings_view(list@) == Self::spec_parse_list(s, start).items,
                from@ == after(s, Self::spec_parse_list(s, start).consumed),
                *pos == start + Self::spec_parse_list(s, start).consumed,
            decreases s.len() - done,
        {
            proof {
                reveal(TypedBinding::spec_parse_list);
            }
            let ghost here = from@;
            let ghost here_pos = *pos;
            let ghost first = Self::spec_parse(here, here_pos);
            let binding = Self::parse(from, pos);
            proof {
                Self::lemma_spec_parse_bound(here, here_pos);
                lemma_after_after(s, done, first.consumed);
            }
            let binding = match binding {
                Ok(binding) => binding,
                Err(_) => {
                    proof {
                        assert(bindings_view(list@) + Seq::<TypedBindingView>::empty()
                            =~= bindings_view(list@));
                    }
                    break ;
                },
            };
            let ghost before = list@;
            list.push(binding);
            proof {
                assert(bindings_view(list@) =~= bindings_view(before) + seq![binding@]);
            }
            strip_whitespace(from, pos);
            let ghost at_comma = first.consumed + whitespace_len(after(here, first.consumed));
            proof {
                lemma_after_after(here, first.consumed, (at_comma - first.consumed) as nat);
                lemma_after_after(s, done, at_comma);
            }
            let comma = parse_symbol(",", from, pos);
            let ghost past_comma = at_comma + spec_symbol(
                ","@,
                after(here, at_comma),
                (here_pos + at_comma) as usize,
            ).consumed;
            proof {
                lemma_after_after(here, at_comma, (past_comma - at_comma) as nat);
                lemma_after_after(s, done, past_comma);
            }
            if let Err(_) = comma {
                break ;
            }
            strip_whitespace(from, pos);
            let ghost at_next = past_comma + whitespace_len(after(here, past_comma));
            proof {
                lemma_after_after(here, past_comma, (at_next - past_comma) as nat);
                lemma_after_after(s, done, at_next);
                let more = Self::spec_parse_list(
                    after(here, at_next),
                    (here_pos + at_next) as usize,
                );
                assert(bindings_view(before) + (seq![binding@] + more.items) =~= (bindings_view(
                    before,
                ) + seq![binding@]) + more.items);
                done = done + at_next;
            }
        }
        list
    }
}

} // verus!
