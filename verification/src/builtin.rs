//! The built-in modules: a table, made once and handed to the loader,
//! from the name of a module to where its code comes from.

use crate::module_specifier::{ModuleSpecifier, SpecifierView};
use crate::text::{clone_strings, texts};
use vstd::prelude::*;
use vstd::string::StringExecFns;

verus! {

/// Where the code of a built-in module comes from.
#[derive(Debug)]
pub enum BuiltinSource {
    /// Script text, compiled like a file.
    Script(String),
    /// Native bindings: the names that the synthetic module exports.
    Native(Vec<String>),
}

/// The source of a built-in module as a mathematical value.
pub enum BuiltinSourceView {
    Script(Seq<char>),
    Native(Seq<Seq<char>>),
}

impl View for BuiltinSource {
    type V = BuiltinSourceView;

    open spec fn view(&self) -> BuiltinSourceView {
        match self {
            BuiltinSource::Script(text) => BuiltinSourceView::Script(text@),
            BuiltinSource::Native(names) => BuiltinSourceView::Native(texts(names@)),
        }
    }
}

impl Clone for BuiltinSource {
    fn clone(&self) -> (r: BuiltinSource)
        ensures
            r@ == self@,
    {
        match self {
            BuiltinSource::Script(text) => BuiltinSource::Script(text.clone()),
            BuiltinSource::Native(names) => BuiltinSource::Native(clone_strings(names)),
        }
    }
}

/// One built-in module: its name and its source.
#[derive(Debug)]
pub struct BuiltinModule {
    pub name: String,
    pub source: BuiltinSource,
}

/// The source registered first under the name, if any.
pub open spec fn find_builtin(
    entries: Seq<(Seq<char>, BuiltinSourceView)>,
    name: Seq<char>,
) -> Option<BuiltinSourceView>
    decreases entries.len(),
{
    if entries.len() == 0 {
        None
    } else if entries[0].0 == name {
        Some(entries[0].1)
    } else {
        find_builtin(entries.drop_first(), name)
    }
}

/// The table of built-in modules.
#[derive(Debug)]
pub struct BuiltinRegistry {
    modules: Vec<BuiltinModule>,
}

impl View for BuiltinRegistry {
    type V = Seq<(Seq<char>, BuiltinSourceView)>;

    closed spec fn view(&self) -> Seq<(Seq<char>, BuiltinSourceView)> {
        Seq::new(self.modules@.len(), |i: int| (self.modules@[i].name@, self.modules@[i].source@))
    }
}

impl BuiltinRegistry {
    /// A table without modules.
    pub fn new() -> (r: BuiltinRegistry)
        ensures
            r@.len() == 0,
    {
        BuiltinRegistry { modules: Vec::new() }
    }

    /// Adds a module at the end of the table. A name that is registered
    /// already keeps its earlier source.
    pub fn register(&mut self, name: String, source: BuiltinSource)
        ensures
            final(self)@ == old(self)@.push((name@, source@)),
    {
        self.modules.push(BuiltinModule { name, source });
        assert(self@ =~= old(self)@.push((name@, source@)));
    }

    /// The source registered first under the name, if any.
    pub fn lookup(&self, name: &str) -> (r: Option<&BuiltinSource>)
        ensures
            r matches Some(source) ==> find_builtin(self@, name@) == Some(source@),
            r is None ==> find_builtin(self@, name@) is None,
    {
        let wanted = name.to_owned();
        let n = self.modules.len();
        let mut i: usize = 0;
        assert(self@.skip(0) =~= self@);
        while i < n
            invariant
                i <= n,
                n == self.modules@.len(),
                wanted@ == name@,
                find_builtin(self@, name@) == find_builtin(self@.skip(i as int), name@),
            decreases n - i,
        {
            let ghost rest = self@.skip(i as int);
            assert(rest[0] == self@[i as int]);
            assert(rest.drop_first() =~= self@.skip(i + 1));
            if self.modules[i].name == wanted {
                return Some(&self.modules[i].source);
            }
            i += 1;
        }
        None
    }
}

/// The specifier of the built-in runtime module, `rt`.
pub fn rt() -> (r: ModuleSpecifier)
    ensures
        r@ == SpecifierView::Builtin(seq!['r', 't']),
{
    proof {
        reveal_strlit("rt");
    }
    let name = String::from_str("rt");
    assert(name@ =~= seq!['r', 't']);
    ModuleSpecifier::Builtin(name)
}

/// The specifier of the built-in module of native calls, `syscall`.
pub fn syscall() -> (r: ModuleSpecifier)
    ensures
        r@ == SpecifierView::Builtin(seq!['s', 'y', 's', 'c', 'a', 'l', 'l']),
{
    proof {
        reveal_strlit("syscall");
    }
    let name = String::from_str("syscall");
    assert(name@ =~= seq!['s', 'y', 's', 'c', 'a', 'l', 'l']);
    ModuleSpecifier::Builtin(name)
}

} // verus!
