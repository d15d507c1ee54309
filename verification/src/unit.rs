//! Units: the modules of a whole program, and how they are found.
//!
//! Resolution is breadth first. The resolver keeps the queue of module names
//! that wait and the modules read so far; it decides which module is needed
//! next and where its file lies, and takes the file's text in return. Reading
//! the file is left to the caller.

use std::collections::VecDeque;
use std::ops::Index;
use vstd::prelude::*;
use vstd::string::*;
use vstd::hash_map::StringHashMap;
use crate::cut::{measure, split_chars};
use crate::error::{ParseError, ParseErrorView};
use crate::module::{Module, ModuleView};
use crate::text::{distance_to, find_char, starts_with};

verus! {

/// The modules of a program, by their names.
pub struct Unit {
    modules: StringHashMap<Module>,
}

impl View for Unit {
    type V = Map<Seq<char>, ModuleView>;

    closed spec fn view(&self) -> Map<Seq<char>, ModuleView> {
        self.modules@.map_values(|module: Module| module@)
    }
}

impl Default for Unit {
    fn default() -> (r: Self)
        ensures
            r@ == Map::<Seq<char>, ModuleView>::empty(),
    {
        let r = Unit { modules: StringHashMap::new() };
        assert(r@ =~= Map::empty());
        r
    }
}

impl Unit {
    /// The place at which functions will be made known across modules. So
    /// far it does nothing.
    pub fn register_function() {
    }

    /// The place at which types will be made known across modules. So far it
    /// does nothing.
    pub fn register_type() {
    }

    /// Tells whether the unit holds a module of that name.
    pub fn contains(&self, name: &str) -> (r: bool)
        ensures
            r == self@.contains_key(name@),
    {
        self.modules.contains_key(name)
    }

    /// The module of that name, if the unit holds one.
    pub fn get(&self, name: &str) -> (r: Option<&Module>)
        ensures
            match r {
                Some(module) => self@.contains_key(name@) && self@[name@] == module@,
                None => !self@.contains_key(name@),
            },
    {
        self.modules.get(name)
    }

    /// The number of modules in the unit.
    pub fn len(&self) -> (r: usize)
        ensures
            r == self@.len(),
    {
        proof {
            lemma_modules_len(self.modules@);
        }
        self.modules.len()
    }
}

/// Seeing each module through its view keeps their number.
proof fn lemma_modules_len(modules: Map<Seq<char>, Module>)
    ensures
        modules.map_values(|module: Module| module@).len() == modules.len(),
{
    assert(modules.map_values(|module: Module| module@).dom() =~= modules.dom());
}

impl Index<&str> for Unit {
    type Output = Module;

    fn index(&self, name: &str) -> (r: &Module)
        ensures
            r@ == self@[name@],
    {
        match self.modules.get(name) {
            Some(module) => module,
            None => {
                vstd::pervasive::unreached()
            },
        }
    }
}

impl vstd::std_specs::core::IndexSpecImpl<&str> for Unit {
    /// Only a module that the unit holds can be asked for.
    open spec fn index_req(&self, name: &&str) -> bool {
        self@.contains_key(name@)
    }
}

/// The module name with every `::` replaced by `/`, from left to right.
pub open spec fn replace_separators(name: Seq<char>) -> Seq<char>
    decreases name.len(),
{
    if name.len() == 0 {
        Seq::empty()
    } else if "::"@.is_prefix_of(name) {
        proof {
            reveal_strlit("::");
        }
        "/"@ + replace_separators(name.skip("::"@.len() as int))
    } else {
        seq![name[0]] + replace_separators(name.skip(1))
    }
}

/// Where the file of a module lies below the root directory: the module
/// name with `/` for `::`, and the extension `.bm`.
pub open spec fn spec_source_path(name: Seq<char>) -> Seq<char> {
    replace_separators(name) + ".bm"@
}

/// The path, below the root directory, of the file that holds a module.
pub fn source_path(name: &str) -> (r: String)
    ensures
        r@ == spec_source_path(name@),
{
    // learns that the length fits in `usize`
    measure(name);
    let mut path = String::from_str("");
    let mut rest: &str = name;
    let ghost mut done: nat = 0;
    proof {
        reveal_strlit("");
        reveal_strlit("::");
        assert(path@ =~= Seq::empty());
        assert(name@.skip(0) =~= name@);
    }
    while !rest.is_empty()
        invariant
            done <= name@.len() <= usize::MAX,
            rest@ == name@.skip(done as int),
            "::"@.len() == 2,
            path@ + replace_separators(rest@) == replace_separators(name@),
        decreases name@.len() - done,
    {
        let ghost before = path@;
        let ghost tail = rest@;
        if starts_with(rest, "::") {
            path.append("/");
            let (_, behind) = split_chars(rest, 2);
            rest = behind;
            proof {
                assert(before + ("/"@ + replace_separators(tail.skip(2))) =~= (before + "/"@)
                    + replace_separators(tail.skip(2)));
                assert(tail.skip(2) =~= name@.skip(done as int + 2));
                done = done + 2;
            }
        } else {
            let (one, behind) = split_chars(rest, 1);
            path.append(one);
            rest = behind;
            proof {
                assert(one@ =~= seq![tail[0]]);
                assert(before + (seq![tail[0]] + replace_separators(tail.skip(1))) =~= (before
                    + seq![tail[0]]) + replace_separators(tail.skip(1)));
                assert(tail.skip(1) =~= name@.skip(done as int + 1));
                done = done + 1;
            }
        }
    }
    proof {
        assert(path@ + Seq::<char>::empty() =~= path@);
    }
    path.append(".bm");
    path
}

/// A module that the resolver needs: its name, and the path of its file
/// below the root directory.
#[derive(Debug)]
pub struct Request {
    pub module: String,
    pub path: String,
}

/// The state of a resolution: the unit built so far and the names that wait,
/// first come first served.
pub struct Resolver {
    unit: Unit,
    to_parse: VecDeque<String>,
}

/// The number of names at the front of `waiting` whose modules were read
/// already.
pub open spec fn settled(waiting: Seq<Seq<char>>, modules: Map<Seq<char>, ModuleView>) -> nat
    decreases waiting.len(),
{
    if waiting.len() > 0 && modules.contains_key(waiting[0]) {
        1 + settled(waiting.skip(1), modules)
    } else {
        0
    }
}

/// The names at the front of the queue whose modules were read already lie
/// within the queue, and the name behind them, if any, was not read.
pub proof fn lemma_settled(waiting: Seq<Seq<char>>, modules: Map<Seq<char>, ModuleView>)
    ensures
        settled(waiting, modules) <= waiting.len(),
        forall|i: int|
            0 <= i < settled(waiting, modules) ==> modules.contains_key(#[trigger] waiting[i]),
        settled(waiting, modules) < waiting.len() ==> !modules.contains_key(
            waiting[settled(waiting, modules) as int],
        ),
    decreases waiting.len(),
{
    if waiting.len() > 0 && modules.contains_key(waiting[0]) {
        let rest = waiting.skip(1);
        lemma_settled(rest, modules);
        assert forall|i: int| 0 <= i < settled(waiting, modules) implies modules.contains_key(
            #[trigger] waiting[i],
        ) by {
            if i > 0 {
                assert(waiting[i] == rest[i - 1]);
            }
        }
    }
}

impl Resolver {
    /// The modules read so far, by their names.
    pub closed spec fn modules(&self) -> Map<Seq<char>, ModuleView> {
        self.unit@
    }

    /// The names that wait to be looked at, the next one first.
    pub closed spec fn waiting(&self) -> Seq<Seq<char>> {
        self.to_parse@.map_values(|name: String| name@)
    }

    /// Starts a resolution at the entry module: no module is read yet, and
    /// the entry module's name waits.
    pub fn new(initial_module: &str) -> (r: Self)
        ensures
            r.modules() == Map::<Seq<char>, ModuleView>::empty(),
            r.waiting() == seq![initial_module@],
    {
        let mut to_parse: VecDeque<String> = VecDeque::new();
        to_parse.push_back(String::from_str(initial_module));
        let r = Resolver { unit: Unit::default(), to_parse };
        assert(r.waiting() =~= seq![initial_module@]);
        r
    }

    /// Puts a module name at the end of the queue.
    pub fn enqueue(&mut self, name: String)
        ensures
            final(self).modules() == old(self).modules(),
            final(self).waiting() == old(self).waiting().push(name@),
    {
        self.to_parse.push_back(name);
        assert(self.waiting() =~= old(self).waiting().push(name@));
    }

    /// Takes names from the front of the queue up to the first one whose
    /// module was not read yet, and asks for that module. Names whose modules
    /// were read are dropped, so that no module is read twice, whatever
    /// imports what. A needed name that holds a `.` is refused, since its
    /// file's path could not be told from another one's. With nothing left
    /// in the queue the resolution is complete.
    pub fn next_request(&mut self) -> (r: Result<Option<Request>, ParseError>)
        ensures
            final(self).modules() == old(self).modules(),
            settled(old(self).waiting(), old(self).modules()) <= old(self).waiting().len(),
            r matches Ok(Some(request)) ==> !old(self).modules().contains_key(request.module@),
            !(r matches Ok(None)) ==> final(self).waiting().len() < old(self).waiting().len(),
            ({
                let waiting = old(self).waiting();
                let dropped = settled(waiting, old(self).modules());
                if dropped == waiting.len() {
                    &&& r matches Ok(None)
                    &&& final(self).waiting() == Seq::<Seq<char>>::empty()
                } else {
                    let name = waiting[dropped as int];
                    &&& final(self).waiting() == waiting.skip(dropped as int + 1)
                    &&& if name.contains('.') {
                        r matches Err(error) && error@ == ParseErrorView::ModuleName(name)
                    } else {
                        r matches Ok(Some(request)) && request.module@ == name && request.path@
                            == spec_source_path(name)
                    }
                }
            }),
    {
        let ghost waiting = self.waiting();
        let ghost modules = self.modules();
        let ghost mut dropped: nat = 0;
        proof {
            lemma_settled(waiting, modules);
            assert(waiting.skip(0) =~= waiting);
        }
        loop
            invariant
                self.modules() == modules,
                dropped <= waiting.len(),
                self.waiting() == waiting.skip(dropped as int),
                settled(waiting, modules) == dropped + settled(self.waiting(), modules),
                waiting == old(self).waiting(),
                modules == old(self).modules(),
                settled(waiting, modules) <= waiting.len(),
            decreases waiting.len() - dropped,
        {
            let ghost here = self.waiting();
            match self.to_parse.pop_front() {
                None => {
                    assert(here =~= Seq::empty());
                    return Ok(None);
                },
                Some(module_name) => {
                    assert(here[0] == module_name@);
                    assert(self.waiting() =~= here.skip(1));
                    assert(here.skip(1) =~= waiting.skip(dropped as int + 1));
                    if self.unit.contains(module_name.as_str()) {
                        proof {
                            dropped = dropped + 1;
                        }
                    } else {
                        proof {
                            lemma_distance_dot(module_name@);
                        }
                        match find_char(module_name.as_str(), '.') {
                            Some(_) => {
                                return Err(ParseError::ModuleName(module_name));
                            },
                            None => {
                                let path = source_path(module_name.as_str());
                                return Ok(Some(Request { module: module_name, path }));
                            },
                        }
                    }
                },
            }
        }
    }

    /// Takes the text of a module's file. Unless the unit holds a module of
    /// that name already, the text is parsed, the module is filed under the
    /// name, and the modules that it needs are put at the end of the queue.
    /// Where the text does not parse, nothing changes.
    pub fn supply(&mut self, module_name: String, contents: &str) -> (r: Result<(), ParseError>)
        ensures
            if old(self).modules().contains_key(module_name@) {
                &&& r is Ok
                &&& final(self).modules() == old(self).modules()
                &&& final(self).waiting() == old(self).waiting()
            } else {
                match Module::spec_parse(contents@).result {
                    Ok(module) => {
                        &&& r is Ok
                        &&& final(self).modules() == old(self).modules().insert(
                            module_name@,
                            module,
                        )
                        &&& final(self).waiting() == old(self).waiting()
                    },
                    Err(error) => {
                        &&& r matches Err(found) && found@ == error
                        &&& final(self).modules() == old(self).modules()
                        &&& final(self).waiting() == old(self).waiting()
                    },
                }
            },
    {
        if self.unit.contains(module_name.as_str()) {
            return Ok(());
        }
        let mut text: &str = contents;
        let (imports, module) = match Module::parse(&mut text, &mut self.unit) {
            Ok(parsed) => parsed,
            Err(error) => {
                return Err(error);
            },
        };
        let mut i: usize = 0;
        while i < imports.len()
            invariant
                imports@.len() == 0,
                self.to_parse == old(self).to_parse,
                self.unit == old(self).unit,
            decreases imports.len() - i,
        {
            self.to_parse.push_back(imports[i].clone());
            i = i + 1;
        }
        let ghost before = self.unit.modules@;
        self.unit.modules.insert(module_name, module);
        assert(self.unit@ =~= before.map_values(|module: Module| module@).insert(
            module_name@,
            module@,
        ));
        Ok(())
    }

    /// The unit built so far.
    pub fn unit(&self) -> (r: &Unit)
        ensures
            r@ == self.modules(),
    {
        &self.unit
    }

    /// Ends the resolution and hands out the unit.
    pub fn finish(self) -> (r: Unit)
        ensures
            r@ == self.modules(),
    {
        self.unit
    }
}

/// A text holds a `.` exactly when the distance to the first `.` is less
/// than its length.
proof fn lemma_distance_dot(name: Seq<char>)
    ensures
        name.contains('.') <==> distance_to(name, '.') < name.len(),
{
    crate::text::lemma_distance_to_bound(name, '.');
    if name.contains('.') {
        let i = choose|i: int| 0 <= i < name.len() && name[i] == '.';
        if distance_to(name, '.') >= name.len() {
            assert(name[i] != '.');
        }
    } else if distance_to(name, '.') < name.len() {
        assert(name[distance_to(name, '.') as int] == '.');
    }
}

} // verus!
