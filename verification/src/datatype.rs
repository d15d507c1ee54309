//! Type expressions: primitives, the four wrappers and named structures.

use vstd::prelude::*;
use vstd::string::*;
use crate::error::{Outcome, ParseError, ParseErrorView, is_syntax_error, moved, parsed};
use crate::identifier::Identifier;
use crate::span::{Span, Spanning};
use crate::text::{
    advance, after, in_bounds, is_identifier_part, is_whitespace, lemma_after_after,
    lemma_identifier_part_len, lemma_whitespace_len, lemma_whitespace_len_bound, same_text,
    starts_with, strip_whitespace, whitespace_len,
};

verus! {

/// A type expression. The flag of an integer type is `true` for the
/// spellings that start with `uint`. A wrapper owns the type it wraps.
#[derive(Debug)]
pub enum DataType {
    Integer8(bool),
    Integer16(bool),
    Integer32(bool),
    Integer64(bool),
    Integer(bool),
    Pointer(Box<DataType>),
    Reference(Box<DataType>),
    DynamicArray(Box<DataType>),
    StaticArray(Box<DataType>),
    Structure(Identifier),
}

/// A [`DataType`] with the structure's name as a sequence of characters.
pub enum DataTypeView {
    Integer8(bool),
    Integer16(bool),
    Integer32(bool),
    Integer64(bool),
    Integer(bool),
    Pointer(Box<DataTypeView>),
    Reference(Box<DataTypeView>),
    DynamicArray(Box<DataTypeView>),
    StaticArray(Box<DataTypeView>),
    Structure(Spanning<Seq<char>>),
}

impl View for DataType {
    type V = DataTypeView;

    open spec fn view(&self) -> DataTypeView
        decreases self,
    {
        match self {
            DataType::Integer8(flag) => DataTypeView::Integer8(*flag),
            DataType::Integer16(flag) => DataTypeView::Integer16(*flag),
            DataType::Integer32(flag) => DataTypeView::Integer32(*flag),
            DataType::Integer64(flag) => DataTypeView::Integer64(*flag),
            DataType::Integer(flag) => DataTypeView::Integer(*flag),
            DataType::Pointer(inner) => DataTypeView::Pointer(Box::new((**inner)@)),
            DataType::Reference(inner) => DataTypeView::Reference(Box::new((**inner)@)),
            DataType::DynamicArray(inner) => DataTypeView::DynamicArray(Box::new((**inner)@)),
            DataType::StaticArray(inner) => DataTypeView::StaticArray(Box::new((**inner)@)),
            DataType::Structure(name) => DataTypeView::Structure(name@),
        }
    }
}

impl Clone for DataType {
    fn clone(&self) -> (r: Self)
        ensures
            r@ == self@,
        decreases self,
    {
        match self {
            DataType::Integer8(flag) => DataType::Integer8(*flag),
            DataType::Integer16(flag) => DataType::Integer16(*flag),
            DataType::Integer32(flag) => DataType::Integer32(*flag),
            DataType::Integer64(flag) => DataType::Integer64(*flag),
            DataType::Integer(flag) => DataType::Integer(*flag),
            DataType::Pointer(inner) => DataType::Pointer(Box::new((&**inner).clone())),
            DataType::Reference(inner) => DataType::Reference(Box::new((&**inner).clone())),
            DataType::DynamicArray(inner) => DataType::DynamicArray(
                Box::new((&**inner).clone()),
            ),
            DataType::StaticArray(inner) => DataType::StaticArray(Box::new((&**inner).clone())),
            DataType::Structure(name) => DataType::Structure(name.clone()),
        }
    }
}

/// The primitive type that `name` spells, if any.
pub open spec fn primitive(name: Seq<char>) -> Option<DataTypeView> {
    if name == "uint8"@ {
        Some(DataTypeView::Integer8(true))
    } else if name == "int8"@ {
        Some(DataTypeView::Integer8(false))
    } else if name == "uint16"@ {
        Some(DataTypeView::Integer16(true))
    } else if name == "int16"@ {
        Some(DataTypeView::Integer16(false))
    } else if name == "uint32"@ {
        Some(DataTypeView::Integer32(true))
    } else if name == "int32"@ {
        Some(DataTypeView::Integer32(false))
    } else if name == "uint64"@ {
        Some(DataTypeView::Integer64(true))
    } else if name == "int64"@ {
        Some(DataTypeView::Integer64(false))
    } else if name == "uint"@ {
        Some(DataTypeView::Integer(true))
    } else if name == "int"@ {
        Some(DataTypeView::Integer(false))
    } else {
        None
    }
}

/// The four ways in which a type expression wraps another one.
#[derive(Debug, Clone, Copy, PartialEq, Eq, Structural)]
pub enum Wrapper {
    Pointer,
    Reference,
    DynamicArray,
    StaticArray,
}

impl Wrapper {
    /// The characters that announce the wrapper.
    pub open spec fn sigil(self) -> Seq<char> {
        match self {
            Wrapper::Pointer => "*"@,
            Wrapper::Reference => "&"@,
            Wrapper::DynamicArray => "[&]"@,
            Wrapper::StaticArray => "[]"@,
        }
    }

    /// The wrapper around `inner`.
    pub open spec fn spec_wrap(self, inner: DataTypeView) -> DataTypeView {
        match self {
            Wrapper::Pointer => DataTypeView::Pointer(Box::new(inner)),
            Wrapper::Reference => DataTypeView::Reference(Box::new(inner)),
            Wrapper::DynamicArray => DataTypeView::DynamicArray(Box::new(inner)),
            Wrapper::StaticArray => DataTypeView::StaticArray(Box::new(inner)),
        }
    }

    /// The wrapper whose sigil `s` starts with. The sigils are tried in a
    /// fixed order: `*`, `&`, `[&]`, `[]`.
    pub open spec fn leading(s: Seq<char>) -> Option<Wrapper> {
        if "*"@.is_prefix_of(s) {
            Some(Wrapper::Pointer)
        } else if "&"@.is_prefix_of(s) {
            Some(Wrapper::Reference)
        } else if "[&]"@.is_prefix_of(s) {
            Some(Wrapper::DynamicArray)
        } else if "[]"@.is_prefix_of(s) {
            Some(Wrapper::StaticArray)
        } else {
            None
        }
    }

    /// A sigil is one to three characters long.
    pub proof fn lemma_sigil_len(self)
        ensures
            self.sigil().len() == match self {
                Wrapper::Pointer => 1nat,
                Wrapper::Reference => 1nat,
                Wrapper::DynamicArray => 3nat,
                Wrapper::StaticArray => 2nat,
            },
    {
        reveal_strlit("*");
        reveal_strlit("&");
        reveal_strlit("[&]");
        reveal_strlit("[]");
    }

    /// A wrapper that leads a text has its sigil at the front of it.
    pub proof fn lemma_leading(s: Seq<char>)
        ensures
            match Self::leading(s) {
                Some(wrapper) => wrapper.sigil().is_prefix_of(s) && 1 <= wrapper.sigil().len()
                    <= s.len(),
                None => true,
            },
    {
        if let Some(wrapper) = Self::leading(s) {
            wrapper.lemma_sigil_len();
        }
    }

    /// Reads the sigil at the front of the text, if there is one, and moves
    /// past it.
    pub fn read<'a>(from: &mut &'a str, pos: &mut usize) -> (r: Option<Wrapper>)
        requires
            in_bounds(old(from)@, *old(pos)),
        ensures
            r == Self::leading(old(from)@),
            match r {
                Some(wrapper) => moved(
                    old(from)@,
                    *old(pos),
                    final(from)@,
                    *final(pos),
                    wrapper.sigil().len(),
                ),
                None => final(from)@ == old(from)@ && *final(pos) == *old(pos),
            },
    {
        proof {
            Self::lemma_leading(from@);
        }
        if starts_with(*from, "*") {
            proof {
                Wrapper::Pointer.lemma_sigil_len();
            }
            advance(from, pos, 1);
            Some(Wrapper::Pointer)
        } else if starts_with(*from, "&") {
            proof {
                Wrapper::Reference.lemma_sigil_len();
            }
            advance(from, pos, 1);
            Some(Wrapper::Reference)
        } else if starts_with(*from, "[&]") {
            proof {
                Wrapper::DynamicArray.lemma_sigil_len();
            }
            advance(from, pos, 3);
            Some(Wrapper::DynamicArray)
        } else if starts_with(*from, "[]") {
            proof {
                Wrapper::StaticArray.lemma_sigil_len();
            }
            advance(from, pos, 2);
            Some(Wrapper::StaticArray)
        } else {
            None
        }
    }

    /// Puts the wrapper around `inner`.
    pub fn wrap(self, inner: DataType) -> (r: DataType)
        ensures
            r@ == self.spec_wrap(inner@),
    {
        match self {
            Wrapper::Pointer => DataType::Pointer(Box::new(inner)),
            Wrapper::Reference => DataType::Reference(Box::new(inner)),
            Wrapper::DynamicArray => DataType::DynamicArray(Box::new(inner)),
            Wrapper::StaticArray => DataType::StaticArray(Box::new(inner)),
        }
    }
}

/// The text of a type expression: the primitive spellings and the wrapper
/// sigils, nested as the type is. A structure is written as `[]` and its
/// name.
pub open spec fn render(t: DataTypeView) -> Seq<char>
    decreases t,
{
    match t {
        DataTypeView::Integer8(flag) => if flag {
            "uint8"@
        } else {
            "int8"@
        },
        DataTypeView::Integer16(flag) => if flag {
            "uint16"@
        } else {
            "int16"@
        },
        DataTypeView::Integer32(flag) => if flag {
            "uint32"@
        } else {
            "int32"@
        },
        DataTypeView::Integer64(flag) => if flag {
            "uint64"@
        } else {
            "int64"@
        },
        DataTypeView::Integer(flag) => if flag {
            "uint"@
        } else {
            "int"@
        },
        DataTypeView::Pointer(inner) => "*"@ + render(*inner),
        DataTypeView::Reference(inner) => "&"@ + render(*inner),
        DataTypeView::DynamicArray(inner) => "[&]"@ + render(*inner),
        DataTypeView::StaticArray(inner) => "[]"@ + render(*inner),
        DataTypeView::Structure(name) => "[]"@ + name.1,
    }
}

/// Whether the type is built from primitives and wrappers alone.
pub open spec fn structure_free(t: DataTypeView) -> bool
    decreases t,
{
    match t {
        DataTypeView::Pointer(inner) => structure_free(*inner),
        DataTypeView::Reference(inner) => structure_free(*inner),
        DataTypeView::DynamicArray(inner) => structure_free(*inner),
        DataTypeView::StaticArray(inner) => structure_free(*inner),
        DataTypeView::Structure(_) => false,
        _ => true,
    }
}

impl DataType {
    /// A type expression that starts with no sigil, at the front of `s` with
    /// the cursor at `pos`: `struct`, whitespace and an identifier, which
    /// names a structure; or an identifier that spells a primitive.
    #[verifier::opaque]
    pub open spec fn spec_parse_named(s: Seq<char>, pos: usize) -> Outcome<DataTypeView> {
        if "struct"@.is_prefix_of(s) {
            let word = "struct"@.len();
            let gap = whitespace_len(after(s, word));
            let name = Identifier::spec_parse(
                after(s, word + gap),
                (pos + word + gap) as usize,
            );
            Outcome {
                result: match name.result {
                    Ok(value) => Ok(DataTypeView::Structure(value)),
                    Err(error) => Err(error),
                },
                consumed: word + gap + name.consumed,
            }
        } else {
            let name = Identifier::spec_parse(s, pos);
            Outcome {
                result: match name.result {
                    Ok(value) => match primitive(value.1) {
                        Some(found) => Ok(found),
                        None => Err(ParseErrorView::UnknownType),
                    },
                    Err(error) => Err(error),
                },
                consumed: name.consumed,
            }
        }
    }

    /// The type expression at the front of `s`, with the cursor at `pos`.
    /// After whitespace the alternatives are tried in this order: one of the
    /// sigils `*`, `&`, `[&]` and `[]`, followed by a type expression;
    /// `struct` followed by whitespace and an identifier; an identifier that
    /// spells a primitive.
    #[verifier::opaque]
    pub open spec fn spec_parse(s: Seq<char>, pos: usize) -> Outcome<DataTypeView>
        decreases s.len(),
    {
        let lead = whitespace_len(s);
        match Wrapper::leading(after(s, lead)) {
            Some(wrapper) => {
                proof {
                    Wrapper::lemma_leading(after(s, lead));
                    lemma_whitespace_len_bound(s);
                }
                let taken = lead + wrapper.sigil().len();
                let inner = Self::spec_parse(after(s, taken), (pos + taken) as usize);
                Outcome {
                    result: match inner.result {
                        Ok(value) => Ok(wrapper.spec_wrap(value)),
                        Err(error) => Err(error),
                    },
                    consumed: taken + inner.consumed,
                }
            },
            None => {
                let named = Self::spec_parse_named(after(s, lead), (pos + lead) as usize);
                Outcome { result: named.result, consumed: lead + named.consumed }
            },
        }
    }

    /// A type expression lies within the text, and one that is read holds at
    /// least one character. A failure is a syntax error.
    pub proof fn lemma_spec_parse_bound(s: Seq<char>, pos: usize)
        ensures
            match Self::spec_parse(s, pos).result {
                Err(error) => is_syntax_error(error),
                Ok(_) => true,
            },
            Self::spec_parse(s, pos).consumed <= s.len(),
            Self::spec_parse(s, pos).result is Ok ==> Self::spec_parse(s, pos).consumed >= 1,
        decreases s.len(),
    {
        reveal(DataType::spec_parse);
        reveal(DataType::spec_parse_named);
        let lead = whitespace_len(s);
        lemma_whitespace_len_bound(s);
        let rest = after(s, lead);
        match Wrapper::leading(rest) {
            Some(wrapper) => {
                Wrapper::lemma_leading(rest);
                let taken = lead + wrapper.sigil().len();
                Self::lemma_spec_parse_bound(after(s, taken), (pos + taken) as usize);
            },
            None => {
                if "struct"@.is_prefix_of(rest) {
                    let word = "struct"@.len();
                    lemma_whitespace_len_bound(after(rest, word));
                    let gap = whitespace_len(after(rest, word));
                    Identifier::lemma_spec_parse_bound(
                        after(rest, word + gap),
                        (pos + lead + word + gap) as usize,
                    );
                } else {
                    Identifier::lemma_spec_parse_bound(rest, (pos + lead) as usize);
                }
            },
        }
    }

    /// Reads a type expression that starts with no sigil.
    pub fn parse_named<'a>(from: &mut &'a str, pos: &mut usize) -> (r: Result<Self, ParseError>)
        requires
            in_bounds(old(from)@, *old(pos)),
        ensures
            parsed(
                old(from)@,
                *old(pos),
                final(from)@,
                *final(pos),
                r,
                Self::spec_parse_named(old(from)@, *old(pos)),
            ),
    {
        let ghost s = from@;
        proof {
            reveal(DataType::spec_parse_named);
        }
        if starts_with(*from, "struct") {
            let word: usize = "struct".unicode_len();
            advance(from, pos, word);
            strip_whitespace(from, pos);
            let ghost gap = whitespace_len(after(s, word as nat));
            proof {
                lemma_after_after(s, word as nat, gap);
            }
            let name = Identifier::parse(from, pos);
            proof {
                let taken = Identifier::spec_parse(
                    after(s, word as nat + gap),
                    (*old(pos) + word + gap) as usize,
                ).consumed;
                lemma_after_after(s, word as nat + gap, taken);
            }
            return match name {
                Ok(name) => Ok(DataType::Structure(name)),
                Err(error) => Err(error),
            };
        }
        match Identifier::parse(from, pos) {
            Ok(name) => match Self::primitive_named(name.as_str()) {
                Some(found) => Ok(found),
                None => Err(ParseError::UnknownType),
            },
            Err(error) => Err(error),
        }
    }

    /// Reads the type expression at the front of the text.
    pub fn parse<'a>(from: &mut &'a str, pos: &mut usize) -> (r: Result<Self, ParseError>)
        requires
            in_bounds(old(from)@, *old(pos)),
        ensures
            parsed(
                old(from)@,
                *old(pos),
                final(from)@,
                *final(pos),
                r,
                Self::spec_parse(old(from)@, *old(pos)),
            ),
        decreases old(from)@.len(),
    {
        let ghost s = from@;
        let ghost lead = whitespace_len(s);
        proof {
            reveal(DataType::spec_parse);
        }
        strip_whitespace(from, pos);
        match Wrapper::read(from, pos) {
            Some(wrapper) => {
                let ghost taken = lead + wrapper.sigil().len();
                proof {
                    Wrapper::lemma_leading(after(s, lead));
                    lemma_after_after(s, lead, wrapper.sigil().len());
                }
                let inner = Self::parse(from, pos);
                proof {
                    let inner = Self::spec_parse(after(s, taken), (*old(pos) + taken) as usize);
                    lemma_after_after(s, taken, inner.consumed);
                }
                match inner {
                    Ok(inner) => Ok(wrapper.wrap(inner)),
                    Err(error) => Err(error),
                }
            },
            None => {
                let named = Self::parse_named(from, pos);
                proof {
                    let rest = Self::spec_parse_named(after(s, lead), (*old(pos) + lead) as usize);
                    lemma_after_after(s, lead, rest.consumed);
                }
                named
            },
        }
    }

    /// The primitive type that `text` spells, if any.
    pub fn primitive_named(text: &str) -> (r: Option<Self>)
        ensures
            match r {
                Some(found) => primitive(text@) == Some(found@),
                None => primitive(text@) is None,
            },
    {
        if same_text(text, "uint8") {
            Some(DataType::Integer8(true))
        } else if same_text(text, "int8") {
            Some(DataType::Integer8(false))
        } else if same_text(text, "uint16") {
            Some(DataType::Integer16(true))
        } else if same_text(text, "int16") {
            Some(DataType::Integer16(false))
        } else if same_text(text, "uint32") {
            Some(DataType::Integer32(true))
        } else if same_text(text, "int32") {
            Some(DataType::Integer32(false))
        } else if same_text(text, "uint64") {
            Some(DataType::Integer64(true))
        } else if same_text(text, "int64") {
            Some(DataType::Integer64(false))
        } else if same_text(text, "uint") {
            Some(DataType::Integer(true))
        } else if same_text(text, "int") {
            Some(DataType::Integer(false))
        } else {
            None
        }
    }

    /// Writes the type expression as text: each wrapper's sigil in front of
    /// what it wraps, and each primitive by its spelling.
    pub fn to_string(&self) -> (r: String)
        ensures
            r@ == render(self@),
        decreases self,
    {
        match self {
            DataType::Integer8(flag) => String::from_str(
                if *flag {
                    "uint8"
                } else {
                    "int8"
                },
            ),
            DataType::Integer16(flag) => String::from_str(
                if *flag {
                    "uint16"
                } else {
                    "int16"
                },
            ),
            DataType::Integer32(flag) => String::from_str(
                if *flag {
                    "uint32"
                } else {
                    "int32"
                },
            ),
            DataType::Integer64(flag) => String::from_str(
                if *flag {
                    "uint64"
                } else {
                    "int64"
                },
            ),
            DataType::Integer(flag) => String::from_str(
                if *flag {
                    "uint"
                } else {
                    "int"
                },
            ),
            DataType::Pointer(inner) => String::from_str("*").concat(inner.to_string().as_str()),
            DataType::Reference(inner) => String::from_str("&").concat(inner.to_string().as_str()),
            DataType::DynamicArray(inner) => String::from_str("[&]").concat(
                inner.to_string().as_str(),
            ),
            DataType::StaticArray(inner) => String::from_str("[]").concat(
                inner.to_string().as_str(),
            ),
            DataType::Structure(name) => String::from_str("[]").concat(name.as_str()),
        }
    }
}

/// A word that starts with `u` or `i` and holds identifier characters only
/// is read whole as an identifier, and nothing else is tried on it first.
proof fn lemma_word(s: Seq<char>, pos: usize)
    requires
        s.len() > 0,
        s[0] == 'u' || s[0] == 'i',
        forall|i: int| 0 <= i < s.len() ==> is_identifier_part(#[trigger] s[i]),
    ensures
        whitespace_len(s) == 0,
        Wrapper::leading(s) is None,
        !"struct"@.is_prefix_of(s),
        Identifier::spec_parse(s, pos) == (Outcome {
            result: Ok(Spanning(Span(pos, s.len() as usize), s)),
            consumed: s.len(),
        }),
{
    reveal_strlit("*");
    reveal_strlit("&");
    reveal_strlit("[&]");
    reveal_strlit("[]");
    reveal_strlit("struct");
    assert(!"*"@.is_prefix_of(s)) by {
        if "*"@.is_prefix_of(s) {
            assert(s.subrange(0, 1)[0] == '*');
        }
    }
    assert(!"&"@.is_prefix_of(s)) by {
        if "&"@.is_prefix_of(s) {
            assert(s.subrange(0, 1)[0] == '&');
        }
    }
    assert(!"[&]"@.is_prefix_of(s)) by {
        if "[&]"@.is_prefix_of(s) {
            assert(s.subrange(0, 3)[0] == '[');
        }
    }
    assert(!"[]"@.is_prefix_of(s)) by {
        if "[]"@.is_prefix_of(s) {
            assert(s.subrange(0, 2)[0] == '[');
        }
    }
    assert(!"struct"@.is_prefix_of(s)) by {
        if "struct"@.is_prefix_of(s) {
            assert(s.subrange(0, 6)[0] == 's');
        }
    }
    lemma_whitespace_len(s, 0);
    let tail = s.skip(1);
    assert forall|i: int| 0 <= i < tail.len() implies is_identifier_part(#[trigger] tail[i]) by {
        assert(tail[i] == s[i + 1]);
    }
    lemma_identifier_part_len(tail, tail.len() as int);
    assert(s.take(s.len() as int) =~= s);
}

/// What tells the ten primitive spellings apart: their lengths and a few
/// of their characters.
proof fn lemma_spellings()
    ensures
        "uint8"@.len() == 5 && "uint8"@[0] == 'u',
        "int8"@.len() == 4 && "int8"@[0] == 'i',
        "uint16"@.len() == 6 && "uint16"@[0] == 'u' && "uint16"@[4] == '1',
        "int16"@.len() == 5 && "int16"@[0] == 'i' && "int16"@[3] == '1',
        "uint32"@.len() == 6 && "uint32"@[0] == 'u' && "uint32"@[4] == '3',
        "int32"@.len() == 5 && "int32"@[0] == 'i' && "int32"@[3] == '3',
        "uint64"@.len() == 6 && "uint64"@[0] == 'u' && "uint64"@[4] == '6',
        "int64"@.len() == 5 && "int64"@[0] == 'i' && "int64"@[3] == '6',
        "uint"@.len() == 4 && "uint"@[0] == 'u',
        "int"@.len() == 3 && "int"@[0] == 'i',
        forall|t: DataTypeView|
            (t is Integer8 || t is Integer16 || t is Integer32 || t is Integer64 || t is Integer)
                ==> forall|i: int|
                0 <= i < (#[trigger] render(t)).len() ==> is_identifier_part(
                    #[trigger] render(t)[i],
                ),
{
    reveal_strlit("uint8");
    reveal_strlit("int8");
    reveal_strlit("uint16");
    reveal_strlit("int16");
    reveal_strlit("uint32");
    reveal_strlit("int32");
    reveal_strlit("uint64");
    reveal_strlit("int64");
    reveal_strlit("uint");
    reveal_strlit("int");
}

/// A primitive is read back from its spelling.
proof fn lemma_render_parse_primitive(t: DataTypeView, pos: usize)
    requires
        t is Integer8 || t is Integer16 || t is Integer32 || t is Integer64 || t is Integer,
    ensures
        DataType::spec_parse(render(t), pos) == (Outcome {
            result: Ok(t),
            consumed: render(t).len(),
        }),
{
    reveal(DataType::spec_parse);
    reveal(DataType::spec_parse_named);
    lemma_spellings();
    let s = render(t);
    lemma_word(s, pos);
    assert(after(s, 0) =~= s);
    assert(primitive(s) == Some(t));
}

/// A sigil in front of any text is the one that leads it, and no whitespace
/// stands in front of it.
proof fn lemma_leading_sigil(wrapper: Wrapper, rest: Seq<char>)
    ensures
        Wrapper::leading(wrapper.sigil() + rest) == Some(wrapper),
        whitespace_len(wrapper.sigil() + rest) == 0,
        after(wrapper.sigil() + rest, wrapper.sigil().len()) == rest,
{
    let sigil = wrapper.sigil();
    let s = sigil + rest;
    reveal_strlit("*");
    reveal_strlit("&");
    reveal_strlit("[&]");
    reveal_strlit("[]");
    assert(!is_whitespace(s[0]));
    lemma_whitespace_len(s, 0);
    assert(sigil =~= s.subrange(0, sigil.len() as int));
    if "*"@.is_prefix_of(s) {
        assert(s.subrange(0, 1)[0] == '*');
    }
    if "&"@.is_prefix_of(s) {
        assert(s.subrange(0, 1)[0] == '&');
    }
    if "[&]"@.is_prefix_of(s) {
        assert(s.subrange(0, 3)[1] == '&');
    }
    if "[]"@.is_prefix_of(s) {
        assert(s.subrange(0, 2)[1] == ']');
    }
    assert(after(s, sigil.len()) =~= rest);
}

/// The round trip for a wrapper, given the round trip for what it wraps.
proof fn lemma_render_parse_wrapped(wrapper: Wrapper, inner: DataTypeView, pos: usize)
    requires
        DataType::spec_parse(render(inner), (pos + wrapper.sigil().len()) as usize) == (Outcome {
            result: Ok(inner),
            consumed: render(inner).len(),
        }),
    ensures
        DataType::spec_parse(render(wrapper.spec_wrap(inner)), pos) == (Outcome {
            result: Ok(wrapper.spec_wrap(inner)),
            consumed: render(wrapper.spec_wrap(inner)).len(),
        }),
{
    reveal(DataType::spec_parse);
    let s = wrapper.sigil() + render(inner);
    assert(render(wrapper.spec_wrap(inner)) == s);
    lemma_leading_sigil(wrapper, render(inner));
    assert(after(s, 0) == s) by {
        assert(s.skip(0) =~= s);
    }
    let taken = wrapper.sigil().len();
    assert(whitespace_len(s) + taken == taken);
    assert(DataType::spec_parse(s, pos).consumed == taken + render(inner).len());
}

/// Round trip: a type built from primitives and wrappers alone, written as
/// text and read again, gives the same type, and the reading takes the whole
/// text.
pub proof fn lemma_render_parse(t: DataTypeView, pos: usize)
    requires
        structure_free(t),
    ensures
        DataType::spec_parse(render(t), pos) == (Outcome {
            result: Ok(t),
            consumed: render(t).len(),
        }),
    decreases t,
{
    match t {
        DataTypeView::Pointer(inner) => {
            lemma_render_parse(*inner, (pos + Wrapper::Pointer.sigil().len()) as usize);
            lemma_render_parse_wrapped(Wrapper::Pointer, *inner, pos);
        },
        DataTypeView::Reference(inner) => {
            lemma_render_parse(*inner, (pos + Wrapper::Reference.sigil().len()) as usize);
            lemma_render_parse_wrapped(Wrapper::Reference, *inner, pos);
        },
        DataTypeView::DynamicArray(inner) => {
            lemma_render_parse(*inner, (pos + Wrapper::DynamicArray.sigil().len()) as usize);
            lemma_render_parse_wrapped(Wrapper::DynamicArray, *inner, pos);
        },
        DataTypeView::StaticArray(inner) => {
            lemma_render_parse(*inner, (pos + Wrapper::StaticArray.sigil().len()) as usize);
            lemma_render_parse_wrapped(Wrapper::StaticArray, *inner, pos);
        },
        _ => {
            lemma_render_parse_primitive(t, pos);
        },
    }
}

} // verus!
