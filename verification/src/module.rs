//! Modules: the declarations of one source text.

use vstd::prelude::*;
use vstd::string::*;
use vstd::hash_map::StringHashMap;
use crate::cut::measure;
use crate::error::{Outcome, ParseError, ParseErrorView};
use crate::function::{Function, FunctionView};
use crate::qualifier::{Qualifier, QualifierView};
use crate::span::Spans;
use crate::structure::{Structure, StructureView};
use crate::text::{after, in_bounds, lemma_after_after, same_text};
use crate::unit::Unit;

verus! {

/// The kinds of top-level names.
pub enum Global {
    Function,
    External,
}

/// The declarations of one source text: its functions and its structures,
/// each kind filed under the declarations' names.
pub struct Module {
    pub functions: StringHashMap<Function>,
    pub structures: StringHashMap<Structure>,
}

/// What a [`Module`] holds, as two maps from names to declarations.
pub struct ModuleView {
    pub functions: Map<Seq<char>, FunctionView>,
    pub structures: Map<Seq<char>, StructureView>,
}

impl ModuleView {
    /// The module without declarations.
    pub open spec fn empty() -> ModuleView {
        ModuleView { functions: Map::empty(), structures: Map::empty() }
    }

    /// Every declaration is filed under its own name.
    pub open spec fn keyed_by_name(self) -> bool {
        &&& forall|name: Seq<char>| #[trigger]
            self.functions.contains_key(name) ==> self.functions[name].name.1 == name
        &&& forall|name: Seq<char>| #[trigger]
            self.structures.contains_key(name) ==> self.structures[name].name.1 == name
    }
}

impl View for Module {
    type V = ModuleView;

    open spec fn view(&self) -> ModuleView {
        ModuleView {
            functions: self.functions@.map_values(|function: Function| function@),
            structures: self.structures@.map_values(|structure: Structure| structure@),
        }
    }
}

/// The views of the qualifiers that wait for a declaration, by their names.
pub open spec fn pending_view(pending: Map<Seq<char>, Qualifier>) -> Map<
    Seq<char>,
    QualifierView,
> {
    pending.map_values(|qualifier: Qualifier| qualifier@)
}

impl Default for Module {
    fn default() -> (r: Self)
        ensures
            r@ == ModuleView::empty(),
    {
        let r = Module { functions: StringHashMap::new(), structures: StringHashMap::new() };
        assert(r@.functions =~= Map::empty());
        assert(r@.structures =~= Map::empty());
        r
    }
}

impl Module {
    /// What is left of a module's text `s`, with the cursor at `pos`, while
    /// the qualifiers `pending` wait for a declaration and `module` holds the
    /// declarations read so far.
    ///
    /// At the end of the text the module is complete, unless qualifiers are
    /// still waiting. Else a qualifier is read. One whose name is already
    /// waiting is an error that carries both. After `fn` a function follows,
    /// after `struct` a structure; the declaration takes the waiting
    /// qualifiers, and one whose name the module already holds in its kind is
    /// an error that carries the name and both extents. Any other qualifier
    /// waits.
    #[verifier::opaque]
    pub open spec fn spec_parse_from(
        s: Seq<char>,
        pos: usize,
        pending: Map<Seq<char>, QualifierView>,
        module: ModuleView,
    ) -> Outcome<ModuleView>
        decreases s.len(),
    {
        if s.len() == 0 {
            Outcome {
                result: if pending.dom().is_empty() {
                    Ok(module)
                } else {
                    Err(ParseErrorView::UnexpectedEOF)
                },
                consumed: 0,
            }
        } else {
            let qualifier = Qualifier::spec_parse(s, pos);
            let at = qualifier.consumed;
            match qualifier.result {
                Err(error) => Outcome { result: Err(error), consumed: at },
                Ok(read) => {
                    let name = read.name.1;
                    if pending.contains_key(name) {
                        Outcome {
                            result: Err(ParseErrorView::DuplicateQualifier(read, pending[name])),
                            consumed: at,
                        }
                    } else if name == "fn"@ {
                        let function = Function::spec_parse(
                            read,
                            after(s, at),
                            (pos + at) as usize,
                        );
                        let past = at + function.consumed;
                        match function.result {
                            Err(error) => Outcome { result: Err(error), consumed: past },
                            Ok(found) => {
                                if module.functions.contains_key(found.name.1) {
                                    Outcome {
                                        result: Err(
                                            ParseErrorView::DuplicateFunction(
                                                found.name.1,
                                                found.fn_qualifier.name.0,
                                                module.functions[found.name.1].fn_qualifier.name.0,
                                            ),
                                        ),
                                        consumed: past,
                                    }
                                } else {
                                    proof {
                                        Qualifier::lemma_spec_parse_bound(s, pos);
                                        Function::lemma_spec_parse_bound(
                                            read,
                                            after(s, at),
                                            (pos + at) as usize,
                                        );
                                    }
                                    let rest = Self::spec_parse_from(
                                        after(s, past),
                                        (pos + past) as usize,
                                        Map::empty(),
                                        ModuleView {
                                            functions: module.functions.insert(
                                                found.name.1,
                                                found,
                                            ),
                                            structures: module.structures,
                                        },
                                    );
                                    Outcome {
                                        result: rest.result,
                                        consumed: past + rest.consumed,
                                    }
                                }
                            },
                        }
                    } else if name == "struct"@ {
                        let structure = Structure::spec_parse(
                            read,
                            after(s, at),
                            (pos + at) as usize,
                        );
                        let past = at + structure.consumed;
                        match structure.result {
                            Err(error) => Outcome { result: Err(error), consumed: past },
                            Ok(found) => {
                                if module.structures.contains_key(found.name.1) {
                                    let earlier = module.structures[found.name.1];
                                    Outcome {
                                        result: Err(
                                            ParseErrorView::DuplicateStructure(
                                                found.name.1,
                                                found.struct_qualifier.name.0.spec_combine(
                                                    found.end_brace,
                                                ),
                                                earlier.struct_qualifier.name.0.spec_combine(
                                                    earlier.end_brace,
                                                ),
                                            ),
                                        ),
                                        consumed: past,
                                    }
                                } else {
                                    proof {
                                        Qualifier::lemma_spec_parse_bound(s, pos);
                                        Structure::lemma_spec_parse_bound(
                                            read,
                                            after(s, at),
                                            (pos + at) as usize,
                                        );
                                    }
                                    let rest = Self::spec_parse_from(
                                        after(s, past),
                                        (pos + past) as usize,
                                        Map::empty(),
                                        ModuleView {
                                            functions: module.functions,
                                            structures: module.structures.insert(
                                                found.name.1,
                                                found,
                                            ),
                                        },
                                    );
                                    Outcome {
                                        result: rest.result,
                                        consumed: past + rest.consumed,
                                    }
                                }
                            },
                        }
                    } else {
                        proof {
                            Qualifier::lemma_spec_parse_bound(s, pos);
                        }
                        let rest = Self::spec_parse_from(
                            after(s, at),
                            (pos + at) as usize,
                            pending.insert(name, read),
                            module,
                        );
                        Outcome { result: rest.result, consumed: at + rest.consumed }
                    }
                },
            }
        }
    }

    /// The module that the text `s` declares: its declarations are read from
    /// position 0 on, with no qualifier waiting and no declaration read.
    pub open spec fn spec_parse(s: Seq<char>) -> Outcome<ModuleView> {
        Self::spec_parse_from(s, 0, Map::empty(), ModuleView::empty())
    }

    /// A qualifier whose name already waits is refused as soon as it is read,
    /// before any declaration is looked at: the error carries the qualifier
    /// and the waiting one, and nothing behind the qualifier is consumed.
    pub proof fn lemma_duplicate_qualifier(
        s: Seq<char>,
        pos: usize,
        pending: Map<Seq<char>, QualifierView>,
        module: ModuleView,
    )
        requires
            s.len() > 0,
            Qualifier::spec_parse(s, pos).result is Ok,
            pending.contains_key(Qualifier::spec_parse(s, pos).result->Ok_0.name.1),
        ensures
            Self::spec_parse_from(s, pos, pending, module) == (Outcome::<ModuleView> {
                result: Err(
                    ParseErrorView::DuplicateQualifier(
                        Qualifier::spec_parse(s, pos).result->Ok_0,
                        pending[Qualifier::spec_parse(s, pos).result->Ok_0.name.1],
                    ),
                ),
                consumed: Qualifier::spec_parse(s, pos).consumed,
            }),
    {
        reveal(Module::spec_parse_from);
    }

    /// A function whose name the module already holds is refused: the error
    /// carries the name and the extents of the two functions, the later one
    /// first.
    pub proof fn lemma_duplicate_function(
        s: Seq<char>,
        pos: usize,
        pending: Map<Seq<char>, QualifierView>,
        module: ModuleView,
    )
        requires
            s.len() > 0,
            Qualifier::spec_parse(s, pos).result is Ok,
            Qualifier::spec_parse(s, pos).result->Ok_0.name.1 == "fn"@,
            !pending.contains_key("fn"@),
            Function::spec_parse(
                Qualifier::spec_parse(s, pos).result->Ok_0,
                after(s, Qualifier::spec_parse(s, pos).consumed),
                (pos + Qualifier::spec_parse(s, pos).consumed) as usize,
            ).result is Ok,
            module.functions.contains_key(
                Function::spec_parse(
                    Qualifier::spec_parse(s, pos).result->Ok_0,
                    after(s, Qualifier::spec_parse(s, pos).consumed),
                    (pos + Qualifier::spec_parse(s, pos).consumed) as usize,
                ).result->Ok_0.name.1,
            ),
        ensures
            ({
                let read = Qualifier::spec_parse(s, pos);
                let later = Function::spec_parse(
                    read.result->Ok_0,
                    after(s, read.consumed),
                    (pos + read.consumed) as usize,
                ).result->Ok_0;
                Self::spec_parse_from(s, pos, pending, module).result == Err::<
                    ModuleView,
                    ParseErrorView,
                >(
                    ParseErrorView::DuplicateFunction(
                        later.name.1,
                        read.result->Ok_0.name.0,
                        module.functions[later.name.1].fn_qualifier.name.0,
                    ),
                )
            }),
    {
        reveal(Module::spec_parse_from);
        let read = Qualifier::spec_parse(s, pos);
        Function::lemma_spec_parse_qualifier(
            read.result->Ok_0,
            after(s, read.consumed),
            (pos + read.consumed) as usize,
        );
    }

    /// A structure whose name the module already holds is refused: the error
    /// carries the name and the extents of the two structures, the later one
    /// first.
    pub proof fn lemma_duplicate_structure(
        s: Seq<char>,
        pos: usize,
        pending: Map<Seq<char>, QualifierView>,
        module: ModuleView,
    )
        requires
            s.len() > 0,
            Qualifier::spec_parse(s, pos).result is Ok,
            Qualifier::spec_parse(s, pos).result->Ok_0.name.1 == "struct"@,
            !pending.contains_key("struct"@),
            Structure::spec_parse(
                Qualifier::spec_parse(s, pos).result->Ok_0,
                after(s, Qualifier::spec_parse(s, pos).consumed),
                (pos + Qualifier::spec_parse(s, pos).consumed) as usize,
            ).result is Ok,
            module.structures.contains_key(
                Structure::spec_parse(
                    Qualifier::spec_parse(s, pos).result->Ok_0,
                    after(s, Qualifier::spec_parse(s, pos).consumed),
                    (pos + Qualifier::spec_parse(s, pos).consumed) as usize,
                ).result->Ok_0.name.1,
            ),
        ensures
            ({
                let read = Qualifier::spec_parse(s, pos);
                let later = Structure::spec_parse(
                    read.result->Ok_0,
                    after(s, read.consumed),
                    (pos + read.consumed) as usize,
                ).result->Ok_0;
                let earlier = module.structures[later.name.1];
                Self::spec_parse_from(s, pos, pending, module).result == Err::<
                    ModuleView,
                    ParseErrorView,
                >(
                    ParseErrorView::DuplicateStructure(
                        later.name.1,
                        read.result->Ok_0.name.0.spec_combine(later.end_brace),
                        earlier.struct_qualifier.name.0.spec_combine(earlier.end_brace),
                    ),
                )
            }),
    {
        reveal(Module::spec_parse_from);
        assert("struct"@ != "fn"@) by {
            reveal_strlit("fn");
            reveal_strlit("struct");
            assert("fn"@.len() == 2);
            assert("struct"@.len() == 6);
        }
        let read = Qualifier::spec_parse(s, pos);
        Structure::lemma_spec_parse_qualifier(
            read.result->Ok_0,
            after(s, read.consumed),
            (pos + read.consumed) as usize,
        );
    }

    /// Whether every waiting qualifier and every declaration of `module`
    /// starts in front of `pos`.
    pub open spec fn read_before(
        pending: Map<Seq<char>, QualifierView>,
        module: ModuleView,
        pos: usize,
    ) -> bool {
        &&& forall|name: Seq<char>| #[trigger]
            pending.contains_key(name) ==> pending[name].name.0.0 < pos
        &&& forall|name: Seq<char>| #[trigger]
            module.functions.contains_key(name) ==> module.functions[name].fn_qualifier.name.0.0
                < pos
        &&& forall|name: Seq<char>| #[trigger]
            module.structures.contains_key(name)
                ==> module.structures[name].struct_qualifier.name.0.0 < pos
    }

    /// Whether the earlier of the two things that a duplicate error carries
    /// starts in front of the later one. Other errors carry no two things.
    pub open spec fn in_order(error: ParseErrorView) -> bool {
        match error {
            ParseErrorView::DuplicateQualifier(later, earlier) => earlier.name.0.0
                < later.name.0.0,
            ParseErrorView::DuplicateFunction(_, later, earlier) => earlier.0 < later.0,
            ParseErrorView::DuplicateStructure(_, later, earlier) => earlier.0 < later.0,
            _ => true,
        }
    }

    /// The two extents of a duplicate error differ, from any state in which
    /// all that was read lies in front of the cursor.
    pub proof fn lemma_duplicates_in_order_from(
        s: Seq<char>,
        pos: usize,
        pending: Map<Seq<char>, QualifierView>,
        module: ModuleView,
    )
        requires
            in_bounds(s, pos),
            Self::read_before(pending, module, pos),
        ensures
            match Self::spec_parse_from(s, pos, pending, module).result {
                Err(error) => Self::in_order(error),
                Ok(_) => true,
            },
        decreases s.len(),
    {
        reveal(Module::spec_parse_from);
        if s.len() > 0 {
            let qualifier = Qualifier::spec_parse(s, pos);
            let at = qualifier.consumed;
            Qualifier::lemma_spec_parse_bound(s, pos);
            if let Ok(read) = qualifier.result {
                let name = read.name.1;
                let next = (pos + at) as usize;
                if pending.contains_key(name) {
                } else if name == "fn"@ {
                    let function = Function::spec_parse(read, after(s, at), next);
                    Function::lemma_spec_parse_bound(read, after(s, at), next);
                    Function::lemma_spec_parse_qualifier(read, after(s, at), next);
                    let past = at + function.consumed;
                    if let Ok(found) = function.result {
                        if !module.functions.contains_key(found.name.1) {
                            Self::lemma_duplicates_in_order_from(
                                after(s, past),
                                (pos + past) as usize,
                                Map::empty(),
                                ModuleView {
                                    functions: module.functions.insert(found.name.1, found),
                                    structures: module.structures,
                                },
                            );
                        }
                    }
                } else if name == "struct"@ {
                    let structure = Structure::spec_parse(read, after(s, at), next);
                    Structure::lemma_spec_parse_bound(read, after(s, at), next);
                    Structure::lemma_spec_parse_qualifier(read, after(s, at), next);
                    let past = at + structure.consumed;
                    if let Ok(found) = structure.result {
                        if !module.structures.contains_key(found.name.1) {
                            Self::lemma_duplicates_in_order_from(
                                after(s, past),
                                (pos + past) as usize,
                                Map::empty(),
                                ModuleView {
                                    functions: module.functions,
                                    structures: module.structures.insert(found.name.1, found),
                                },
                            );
                        }
                    }
                } else {
                    Self::lemma_duplicates_in_order_from(
                        after(s, at),
                        next,
                        pending.insert(name, read),
                        module,
                    );
                }
            }
        }
    }

    /// The two extents that a duplicate error of a module carries are never
    /// equal: the earlier declaration, or qualifier, starts in front of the
    /// later one.
    pub proof fn lemma_duplicates_in_order(s: Seq<char>)
        requires
            s.len() <= usize::MAX,
        ensures
            match Self::spec_parse(s).result {
                Err(error) => Self::in_order(error),
                Ok(_) => true,
            },
    {
        Self::lemma_duplicates_in_order_from(s, 0, Map::empty(), ModuleView::empty());
    }

    /// Parses the text of a module into its declarations, and returns with
    /// them the names of the modules that it needs. The grammar has no way
    /// to name such a module yet, so that list is empty. Any failure ends the
    /// parsing with that failure.
    pub fn parse<'a>(from: &mut &'a str, unit: &mut Unit) -> (r: Result<
        (Vec<String>, Self),
        ParseError,
    >)
        ensures
            Self::spec_parse(old(from)@).consumed <= old(from)@.len(),
            final(from)@ == after(old(from)@, Self::spec_parse(old(from)@).consumed),
            Self::spec_parse(old(from)@).result == match r {
                Ok((_, module)) => Ok(module@),
                Err(error) => Err(error@),
            },
            match r {
                Ok((imports, module)) => {
                    &&& imports@.len() == 0
                    &&& final(from)@.len() == 0
                    &&& module@.keyed_by_name()
                },
                Err(_) => true,
            },
            *final(unit) == *old(unit),
    {
        let ghost s = from@;
        // learns that the length fits in `usize`
        measure(*from);
        let mut this = Self::default();
        let modules: Vec<String> = Vec::new();
        let mut pos: usize = 0;
        let mut qualifiers: StringHashMap<Qualifier> = StringHashMap::new();
        let ghost mut done: nat = 0;
        proof {
            assert(after(s, 0) =~= s);
            assert(pending_view(qualifiers@) =~= Map::empty());
        }
        while !from.is_empty()
            invariant
                s == old(from)@,
                *unit == *old(unit),
                s.len() <= usize::MAX,
                done <= s.len(),
                from@ == after(s, done),
                pos == done,
                this@.keyed_by_name(),
                Self::spec_parse(s).result == Self::spec_parse_from(
                    from@,
                    pos,
                    pending_view(qualifiers@),
                    this@,
                ).result,
                Self::spec_parse(s).consumed == done + Self::spec_parse_from(
                    from@,
                    pos,
                    pending_view(qualifiers@),
                    this@,
                ).consumed,
            decreases s.len() - done,
        {
            let ghost here = from@;
            let ghost pending = pending_view(qualifiers@);
            let ghost before = this@;
            proof {
                reveal(Module::spec_parse_from);
                Qualifier::lemma_spec_parse_bound(here, pos);
            }
            let ghost at = Qualifier::spec_parse(here, pos).consumed;
            let qualifier = Qualifier::parse(from, &mut pos);
            proof {
                lemma_after_after(s, done, at);
            }
            let qualifier = match qualifier {
                Ok(qualifier) => qualifier,
                Err(error) => {
                    return Err(error);
                },
            };
            let qualifier_name = String::from_str(qualifier.name().as_str());
            match qualifiers.get(qualifier_name.as_str()) {
                Some(earlier) => {
                    return Err(ParseError::DuplicateQualifier(qualifier, earlier.clone()));
                },
                None => {},
            }
            let ghost read = qualifier@;
            let is_fn = same_text(qualifier_name.as_str(), "fn");
            let is_struct = same_text(qualifier_name.as_str(), "struct");
            qualifiers.insert(qualifier_name, qualifier);
            proof {
                assert(pending_view(qualifiers@) =~= pending.insert(read.name.1, read));
            }
            if is_fn {
                proof {
                    Function::lemma_spec_parse_bound(read, after(here, at), (pos) as usize);
                }
                let ghost taken = Function::spec_parse(read, after(here, at), pos).consumed;
                let function = Function::parse(qualifiers, from, &mut pos);
                proof {
                    lemma_after_after(here, at, taken);
                    lemma_after_after(s, done, at + taken);
                }
                let function = match function {
                    Ok(function) => function,
                    Err(error) => {
                        return Err(error);
                    },
                };
                let function_name = String::from_str(function.name().as_str());
                let function_span = function.span();
                match this.functions.get(function_name.as_str()) {
                    Some(earlier) => {
                        return Err(
                            ParseError::DuplicateFunction(
                                function_name,
                                function_span,
                                earlier.span(),
                            ),
                        );
                    },
                    None => {},
                }
                let ghost found = function@;
                this.functions.insert(function_name, function);
                qualifiers = StringHashMap::new();
                proof {
                    assert(this@.functions =~= before.functions.insert(found.name.1, found));
                    assert(this@.structures =~= before.structures);
                    assert(pending_view(qualifiers@) =~= Map::empty());
                    done = done + at + taken;
                }
            } else if is_struct {
                proof {
                    Structure::lemma_spec_parse_bound(read, after(here, at), (pos) as usize);
                }
                let ghost taken = Structure::spec_parse(read, after(here, at), pos).consumed;
                let structure = Structure::parse(qualifiers, from, &mut pos);
                proof {
                    lemma_after_after(here, at, taken);
                    lemma_after_after(s, done, at + taken);
                }
                let structure = match structure {
                    Ok(structure) => structure,
                    Err(error) => {
                        return Err(error);
                    },
                };
                let structure_name = String::from_str(structure.name().as_str());
                let structure_span = structure.span();
                match this.structures.get(structure_name.as_str()) {
                    Some(earlier) => {
                        return Err(
                            ParseError::DuplicateStructure(
                                structure_name,
                                structure_span,
                                earlier.span(),
                            ),
                        );
                    },
                    None => {},
                }
                let ghost found = structure@;
                this.structures.insert(structure_name, structure);
                qualifiers = StringHashMap::new();
                proof {
                    assert(this@.structures =~= before.structures.insert(found.name.1, found));
                    assert(this@.functions =~= before.functions);
                    assert(pending_view(qualifiers@) =~= Map::empty());
                    done = done + at + taken;
                }
            } else {
                proof {
                    done = done + at;
                }
            }
        }
        proof {
            reveal(Module::spec_parse_from);
            assert(after(s, done).len() == 0);
        }
        if !qualifiers.is_empty() {
            proof {
                assert(pending_view(qualifiers@).dom() =~= qualifiers@.dom());
            }
            Err(ParseError::UnexpectedEOF)
        } else {
            proof {
                assert(pending_view(qualifiers@).dom() =~= qualifiers@.dom());
            }
            Ok((modules, this))
        }
    }
}

} // verus!
