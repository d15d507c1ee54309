//! Structures: named lists of fields.

use vstd::prelude::*;
use vstd::string::*;
use vstd::hash_map::StringHashMap;
use crate::binding::{TypedBinding, TypedBindingView, bindings_view};
use crate::error::{Outcome, ParseError, ParseErrorView, is_syntax_error, parsed};
use crate::identifier::Identifier;
use crate::qualifier::{Qualifier, QualifierView};
use crate::span::{Span, Spanning, Spans};
use crate::text::{
    after, in_bounds, lemma_after_after, lemma_whitespace_len_bound, parse_symbol, spec_symbol,
    strip_whitespace, whitespace_len,
};

verus! {

/// A structure: its fields in the order in which they were declared.
#[derive(Debug)]
pub struct Structure {
    struct_qualifier: Qualifier,
    name: Identifier,
    fields: Vec<TypedBinding>,
    end_brace: Span,
}

/// What a [`Structure`] holds, with texts as sequences of characters.
pub struct StructureView {
    pub struct_qualifier: QualifierView,
    pub name: Spanning<Seq<char>>,
    pub fields: Seq<TypedBindingView>,
    pub end_brace: Span,
}

impl View for Structure {
    type V = StructureView;

    closed spec fn view(&self) -> StructureView {
        StructureView {
            struct_qualifier: self.struct_qualifier@,
            name: self.name@,
            fields: bindings_view(self.fields@),
            end_brace: self.end_brace,
        }
    }
}

/// The text of the fields of a structure: each field followed by `, `.
pub open spec fn render_fields(fields: Seq<TypedBindingView>) -> Seq<char>
    decreases fields.len(),
{
    if fields.len() == 0 {
        Seq::empty()
    } else {
        render_fields(fields.drop_last()) + TypedBinding::render(fields.last()) + ", "@
    }
}

/// The text of a structure: `struct`, the qualifier's value between two `|`
/// where it has one, the name, and the fields between braces.
pub open spec fn render_structure(structure: StructureView) -> Seq<char> {
    "struct"@ + match structure.struct_qualifier.value {
        Some(value) => "|"@ + value.1 + "|"@,
        None => Seq::empty(),
    } + " "@ + structure.name.1 + " {"@ + render_fields(structure.fields) + "}"@
}

impl Structure {
    /// The closing brace does not end in front of the qualifier `struct`.
    #[verifier::type_invariant]
    spec fn well_formed(self) -> bool {
        self.struct_qualifier@.name.0.precedes(self.end_brace)
    }

    /// The structure at the front of `s`, with the cursor at `pos`, behind
    /// its qualifier `struct`: an identifier, `{`, a list of bindings and
    /// `}`, with whitespace allowed in front of each and taken behind the
    /// last.
    #[verifier::opaque]
    pub open spec fn spec_parse(
        struct_qualifier: QualifierView,
        s: Seq<char>,
        pos: usize,
    ) -> Outcome<StructureView> {
        let at_name = whitespace_len(s);
        let name = Identifier::spec_parse(after(s, at_name), (pos + at_name) as usize);
        match name.result {
            Err(error) => Outcome { result: Err(error), consumed: at_name },
            Ok(name_value) => {
                let past_name = at_name + name.consumed;
                let at_open = past_name + whitespace_len(after(s, past_name));
                let open = spec_symbol("{"@, after(s, at_open), (pos + at_open) as usize);
                match open.result {
                    Err(error) => Outcome { result: Err(error), consumed: at_open },
                    Ok(_) => {
                        let at_list = at_open + open.consumed;
                        let list = TypedBinding::spec_parse_list(
                            after(s, at_list),
                            (pos + at_list) as usize,
                        );
                        let past_list = at_list + list.consumed;
                        let at_close = past_list + whitespace_len(after(s, past_list));
                        let close = spec_symbol(
                            "}"@,
                            after(s, at_close),
                            (pos + at_close) as usize,
                        );
                        match close.result {
                            Err(error) => Outcome { result: Err(error), consumed: at_close },
                            Ok(close_value) => {
                                let past_close = at_close + close.consumed;
                                Outcome {
                                    result: Ok(
                                        StructureView {
                                            struct_qualifier,
                                            name: name_value,
                                            fields: list.items,
                                            end_brace: close_value.0,
                                        },
                                    ),
                                    consumed: past_close + whitespace_len(after(s, past_close)),
                                }
                            },
                        }
                    },
                }
            },
        }
    }

    /// A structure lies within the text, and one that is read holds at least
    /// one character. A failure is a syntax error.
    pub proof fn lemma_spec_parse_bound(struct_qualifier: QualifierView, s: Seq<char>, pos: usize)
        ensures
            match Self::spec_parse(struct_qualifier, s, pos).result {
                Err(error) => is_syntax_error(error),
                Ok(_) => true,
            },
            Self::spec_parse(struct_qualifier, s, pos).consumed <= s.len(),
            Self::spec_parse(struct_qualifier, s, pos).result is Ok ==> Self::spec_parse(
                struct_qualifier,
                s,
                pos,
            ).consumed >= 1,
    {
        reveal(Structure::spec_parse);
        lemma_whitespace_len_bound(s);
        let at_name = whitespace_len(s);
        Identifier::lemma_spec_parse_bound(after(s, at_name), (pos + at_name) as usize);
        let name = Identifier::spec_parse(after(s, at_name), (pos + at_name) as usize);
        if name.result is Ok {
            let past_name = at_name + name.consumed;
            lemma_whitespace_len_bound(after(s, past_name));
            let at_open = past_name + whitespace_len(after(s, past_name));
            let open = spec_symbol("{"@, after(s, at_open), (pos + at_open) as usize);
            if open.result is Ok {
                let at_list = at_open + open.consumed;
                TypedBinding::lemma_spec_parse_list_bound(
                    after(s, at_list),
                    (pos + at_list) as usize,
                );
                let list = TypedBinding::spec_parse_list(
                    after(s, at_list),
                    (pos + at_list) as usize,
                );
                let past_list = at_list + list.consumed;
                lemma_whitespace_len_bound(after(s, past_list));
                let at_close = past_list + whitespace_len(after(s, past_list));
                let close = spec_symbol("}"@, after(s, at_close), (pos + at_close) as usize);
                if close.result is Ok {
                    lemma_whitespace_len_bound(after(s, at_close + close.consumed));
                }
            }
        }
    }

    /// Whatever stands in the list of fields, a structure fails only for want
    /// of its name or of one of its braces: a field that cannot be read ends
    /// the list and raises nothing.
    pub proof fn lemma_spec_parse_failures(
        struct_qualifier: QualifierView,
        s: Seq<char>,
        pos: usize,
    )
        ensures
            match Self::spec_parse(struct_qualifier, s, pos).result {
                Err(ParseErrorView::ExpectedIdentifier(_)) => true,
                Err(ParseErrorView::ExpectedSymbol(symbol, _)) => symbol == "{"@ || symbol
                    == "}"@,
                Err(_) => false,
                Ok(_) => true,
            },
    {
        reveal(Structure::spec_parse);
    }

    /// A structure that is read carries the qualifier it was read behind.
    pub proof fn lemma_spec_parse_qualifier(
        struct_qualifier: QualifierView,
        s: Seq<char>,
        pos: usize,
    )
        ensures
            match Self::spec_parse(struct_qualifier, s, pos).result {
                Ok(structure) => structure.struct_qualifier == struct_qualifier,
                Err(_) => true,
            },
    {
        reveal(Structure::spec_parse);
    }

    /// The qualifier `struct` that introduced the structure.
    pub fn struct_qualifier(&self) -> (r: &Qualifier)
        ensures
            r@ == self@.struct_qualifier,
    {
        &self.struct_qualifier
    }

    /// The structure's name.
    pub fn name(&self) -> (r: &Identifier)
        ensures
            r@ == self@.name,
    {
        &self.name
    }

    /// The structure's fields, in their order.
    pub fn fields(&self) -> (r: &Vec<TypedBinding>)
        ensures
            bindings_view(r@) == self@.fields,
    {
        &self.fields
    }

    /// The extent of the closing brace.
    pub fn end_brace(&self) -> (r: Span)
        ensures
            r == self@.end_brace,
    {
        self.end_brace
    }

    /// Reads the structure at the front of the text. `qualifiers` holds the
    /// qualifiers that stood in front of it, among them `struct`, which
    /// becomes the structure's own and must have been read in front of the
    /// cursor.
    pub fn parse<'a>(
        qualifiers: StringHashMap<Qualifier>,
        from: &mut &'a str,
        pos: &mut usize,
    ) -> (r: Result<Self, ParseError>)
        requires
            qualifiers@.contains_key("struct"@),
            qualifiers@["struct"@]@.name.0.0 <= *old(pos),
            in_bounds(old(from)@, *old(pos)),
        ensures
            parsed(
                old(from)@,
                *old(pos),
                final(from)@,
                *final(pos),
                r,
                Self::spec_parse(qualifiers@["struct"@]@, old(from)@, *old(pos)),
            ),
    {
        let ghost s = from@;
        let ghost start = *pos;
        proof {
            reveal(Structure::spec_parse);
        }
        let struct_qualifier = match qualifiers.get("struct") {
            Some(found) => found.clone(),
            None => vstd::pervasive::unreached(),
        };
        strip_whitespace(from, pos);
        let ghost at_name = whitespace_len(s);
        let name = Identifier::parse(from, pos);
        let ghost past_name = at_name + Identifier::spec_parse(
            after(s, at_name),
            (start + at_name) as usize,
        ).consumed;
        proof {
            lemma_after_after(s, at_name, (past_name - at_name) as nat);
        }
        let name = match name {
            Ok(name) => name,
            Err(error) => {
                return Err(error);
            },
        };
        strip_whitespace(from, pos);
        let ghost at_open = past_name + whitespace_len(after(s, past_name));
        proof {
            lemma_after_after(s, past_name, (at_open - past_name) as nat);
        }
        let open = parse_symbol("{", from, pos);
        let ghost at_list = at_open + spec_symbol(
            "{"@,
            after(s, at_open),
            (start + at_open) as usize,
        ).consumed;
        proof {
            lemma_after_after(s, at_open, (at_list - at_open) as nat);
        }
        if let Err(error) = open {
            return Err(error);
        }
        let fields = TypedBinding::parse_list(from, pos);
        let ghost past_list = at_list + TypedBinding::spec_parse_list(
            after(s, at_list),
            (start + at_list) as usize,
        ).consumed;
        proof {
            lemma_after_after(s, at_list, (past_list - at_list) as nat);
        }
        strip_whitespace(from, pos);
        let ghost at_close = past_list + whitespace_len(after(s, past_list));
        proof {
            lemma_after_after(s, past_list, (at_close - past_list) as nat);
        }
        let close = parse_symbol("}", from, pos);
        let ghost past_close = at_close + spec_symbol(
            "}"@,
            after(s, at_close),
            (start + at_close) as usize,
        ).consumed;
        proof {
            lemma_after_after(s, at_close, (past_close - at_close) as nat);
        }
        let end_brace = match close {
            Ok(close) => close.span(),
            Err(error) => {
                return Err(error);
            },
        };
        strip_whitespace(from, pos);
        proof {
            lemma_after_after(s, past_close, whitespace_len(after(s, past_close)));
        }
        Ok(Structure { struct_qualifier, name, fields, end_brace })
    }

    /// Writes the structure as text.
    pub fn to_string(&self) -> (r: String)
        ensures
            r@ == render_structure(self@),
    {
        let mut text = String::from_str("struct");
        match self.struct_qualifier.value() {
            Some(value) => {
                text.append("|");
                text.append(value.1.as_str());
                text.append("|");
            },
            None => {
                assert(text@ + Seq::<char>::empty() =~= text@);
            },
        }
        text.append(" ");
        text.append(self.name.as_str());
        text.append(" {");
        let ghost head = text@;
        let mut i: usize = 0;
        while i < self.fields.len()
            invariant
                i <= self.fields.len(),
                text@ == head + render_fields(bindings_view(self.fields@).take(i as int)),
            decreases self.fields.len() - i,
        {
            let ghost before = bindings_view(self.fields@).take(i as int);
            let ghost now = bindings_view(self.fields@).take(i + 1);
            let field = self.fields[i].to_string();
            text.append(field.as_str());
            text.append(", ");
            proof {
                assert(now.drop_last() =~= before);
                assert(now.last() == self.fields@[i as int]@);
                assert(head + (render_fields(before) + field@ + ", "@) =~= head + render_fields(
                    before,
                ) + field@ + ", "@);
            }
            i = i + 1;
        }
        proof {
            assert(bindings_view(self.fields@).take(i as int) =~= bindings_view(self.fields@));
        }
        text.append("}");
        text
    }
}

impl Spans for Structure {
    /// From the qualifier `struct` to the closing brace.
    open spec fn spec_span(&self) -> Span {
        self@.struct_qualifier.name.0.spec_combine(self@.end_brace)
    }

    fn span(&self) -> (r: Span) {
        proof {
            use_type_invariant(self);
        }
        self.struct_qualifier.span().combine(self.end_brace)
    }
}

} // verus!
