//! Module specifiers: the tagged addresses of modules, and their text
//! form.

use crate::path::lemmas::lemma_neutral;
use crate::path::model::is_neutral;
use crate::text::{chars_of, string_of};
use vstd::prelude::*;
use vstd::std_specs::cmp::PartialEqSpecImpl;
use vstd::string::StringExecFns;

verus! {

/// The prefix of a built-in module in text.
pub const BUILTIN_MODULE_PREFIX: &'static str = "builtin:";

/// The prefix of a memory module in text.
pub const MEMORY_MODULE_PREFIX: &'static str = "memory:";

/// The prefix of an import-map alias in text.
pub const IMPORT_MAP_MODULE_PREFIX: &'static str = "@";

/// The address of a module.
#[derive(Debug, Hash)]
pub enum ModuleSpecifier {
    /// A built-in module, by its name without the prefix.
    Builtin(String),
    /// A module held in memory, by its name without the prefix.
    Memory(String),
    /// A file, by its path. The path is as written until the loader has
    /// resolved it; from then on it is a neutral path inside the sandbox.
    File(String),
    /// An alias of the import map, by its name without the prefix.
    ImportMap(String),
}

/// A module specifier as a mathematical value.
pub enum SpecifierView {
    Builtin(Seq<char>),
    Memory(Seq<char>),
    File(Seq<char>),
    ImportMap(Seq<char>),
}

impl View for ModuleSpecifier {
    type V = SpecifierView;

    open spec fn view(&self) -> SpecifierView {
        match self {
            ModuleSpecifier::Builtin(name) => SpecifierView::Builtin(name@),
            ModuleSpecifier::Memory(name) => SpecifierView::Memory(name@),
            ModuleSpecifier::File(path) => SpecifierView::File(path@),
            ModuleSpecifier::ImportMap(name) => SpecifierView::ImportMap(name@),
        }
    }
}

/// The text `builtin:`.
pub open spec fn builtin_prefix() -> Seq<char> {
    seq!['b', 'u', 'i', 'l', 't', 'i', 'n', ':']
}

/// The text `memory:`.
pub open spec fn memory_prefix() -> Seq<char> {
    seq!['m', 'e', 'm', 'o', 'r', 'y', ':']
}

/// The text `@`.
pub open spec fn import_map_prefix() -> Seq<char> {
    seq!['@']
}

/// The text starts with one of the three prefixes.
pub open spec fn has_prefix(s: Seq<char>) -> bool {
    builtin_prefix().is_prefix_of(s) || memory_prefix().is_prefix_of(s)
        || import_map_prefix().is_prefix_of(s)
}

/// The text form of a specifier: its prefix and its name; a file is its
/// path alone.
pub open spec fn encode(v: SpecifierView) -> Seq<char> {
    match v {
        SpecifierView::Builtin(name) => builtin_prefix() + name,
        SpecifierView::Memory(name) => memory_prefix() + name,
        SpecifierView::File(path) => path,
        SpecifierView::ImportMap(name) => import_map_prefix() + name,
    }
}

/// The specifier that a text stands for. The prefixes are tried in the
/// order built-in, memory, import map; a text with none of them is a
/// file.
pub open spec fn decode(s: Seq<char>) -> SpecifierView {
    if builtin_prefix().is_prefix_of(s) {
        SpecifierView::Builtin(s.skip(builtin_prefix().len() as int))
    } else if memory_prefix().is_prefix_of(s) {
        SpecifierView::Memory(s.skip(memory_prefix().len() as int))
    } else if import_map_prefix().is_prefix_of(s) {
        SpecifierView::ImportMap(s.skip(import_map_prefix().len() as int))
    } else {
        SpecifierView::File(s)
    }
}

/// Decoding undoes encoding, for every specifier but a file whose path
/// starts with one of the prefixes.
pub proof fn decode_inverts_encode(v: SpecifierView)
    requires
        v matches SpecifierView::File(path) ==> !has_prefix(path),
    ensures
        decode(encode(v)) == v,
{
    let b = builtin_prefix();
    let m = memory_prefix();
    let a = import_map_prefix();
    match v {
        SpecifierView::Builtin(name) => {
            assert((b + name).subrange(0, b.len() as int) =~= b);
            assert((b + name).skip(b.len() as int) =~= name);
        },
        SpecifierView::Memory(name) => {
            assert((m + name)[0] == 'm');
            assert(b.is_prefix_of(m + name) ==> (m + name)[0] == b[0]);
            assert((m + name).subrange(0, m.len() as int) =~= m);
            assert((m + name).skip(m.len() as int) =~= name);
        },
        SpecifierView::ImportMap(name) => {
            assert((a + name)[0] == '@');
            assert(b.is_prefix_of(a + name) ==> (a + name)[0] == b[0]);
            assert(m.is_prefix_of(a + name) ==> (a + name)[0] == m[0]);
            assert((a + name).subrange(0, a.len() as int) =~= a);
            assert((a + name).skip(a.len() as int) =~= name);
        },
        SpecifierView::File(path) => {},
    }
}

/// Encoding undoes decoding, for every text.
pub proof fn encode_inverts_decode(s: Seq<char>)
    ensures
        encode(decode(s)) == s,
{
    let b = builtin_prefix();
    let m = memory_prefix();
    let a = import_map_prefix();
    if b.is_prefix_of(s) {
        assert(b + s.skip(b.len() as int) =~= s);
    } else if m.is_prefix_of(s) {
        assert(m + s.skip(m.len() as int) =~= s);
    } else if a.is_prefix_of(s) {
        assert(a + s.skip(a.len() as int) =~= s);
    }
}

/// No text starts with two of the prefixes: the order in which they are
/// tried decides nothing.
pub proof fn prefixes_do_not_overlap(s: Seq<char>)
    ensures
        !(builtin_prefix().is_prefix_of(s) && memory_prefix().is_prefix_of(s)),
        !(builtin_prefix().is_prefix_of(s) && import_map_prefix().is_prefix_of(s)),
        !(memory_prefix().is_prefix_of(s) && import_map_prefix().is_prefix_of(s)),
{
    let b = builtin_prefix();
    let m = memory_prefix();
    let a = import_map_prefix();
    assert(b.is_prefix_of(s) ==> s[0] == b[0]);
    assert(m.is_prefix_of(s) ==> s[0] == m[0]);
    assert(a.is_prefix_of(s) ==> s[0] == a[0]);
}

/// A neutral path is never taken for a built-in or a memory module, and
/// it is taken for a file unless it starts with `@`.
pub proof fn neutral_path_decodes_as_file(path: Seq<char>)
    requires
        is_neutral(path),
    ensures
        !builtin_prefix().is_prefix_of(path),
        !memory_prefix().is_prefix_of(path),
        path[0] != '@' ==> decode(path) == SpecifierView::File(path),
        path[0] != '@' ==> decode(encode(SpecifierView::File(path))) == SpecifierView::File(path),
{
    lemma_neutral(path);
    let b = builtin_prefix();
    let m = memory_prefix();
    let a = import_map_prefix();
    assert(b.is_prefix_of(path) ==> path[7] == b[7]);
    assert(m.is_prefix_of(path) ==> path[6] == m[6]);
    assert(a.is_prefix_of(path) ==> path[0] == a[0]);
}

/// The key under which tables hold a specifier: a letter for its kind,
/// then its text. Unlike the text form it tells a file from every other
/// kind, whatever the file's path.
pub open spec fn table_key(v: SpecifierView) -> Seq<char> {
    match v {
        SpecifierView::Builtin(name) => seq!['b'] + name,
        SpecifierView::Memory(name) => seq!['m'] + name,
        SpecifierView::File(path) => seq!['f'] + path,
        SpecifierView::ImportMap(name) => seq!['i'] + name,
    }
}

/// The text of a specifier, without its kind.
pub open spec fn payload(v: SpecifierView) -> Seq<char> {
    match v {
        SpecifierView::Builtin(name) => name,
        SpecifierView::Memory(name) => name,
        SpecifierView::File(path) => path,
        SpecifierView::ImportMap(name) => name,
    }
}

/// Different specifiers have different keys.
pub proof fn table_key_is_injective(a: SpecifierView, b: SpecifierView)
    requires
        table_key(a) == table_key(b),
    ensures
        a == b,
{
    assert(table_key(a)[0] == table_key(b)[0]);
    assert(table_key(a).skip(1) =~= payload(a));
    assert(table_key(b).skip(1) =~= payload(b));
    assert(payload(a) == payload(b));
    match a {
        SpecifierView::Builtin(_) => {
            assert(table_key(a)[0] == 'b');
        },
        SpecifierView::Memory(_) => {
            assert(table_key(a)[0] == 'm');
        },
        SpecifierView::File(_) => {
            assert(table_key(a)[0] == 'f');
        },
        SpecifierView::ImportMap(_) => {
            assert(table_key(a)[0] == 'i');
        },
    }
    match b {
        SpecifierView::Builtin(_) => {
            assert(table_key(b)[0] == 'b');
        },
        SpecifierView::Memory(_) => {
            assert(table_key(b)[0] == 'm');
        },
        SpecifierView::File(_) => {
            assert(table_key(b)[0] == 'f');
        },
        SpecifierView::ImportMap(_) => {
            assert(table_key(b)[0] == 'i');
        },
    }
}

/// Whether the text starts with the prefix.
fn starts_with(text: &Vec<char>, prefix: &Vec<char>) -> (r: bool)
    ensures
        r == prefix@.is_prefix_of(text@),
{
    let n = prefix.len();
    if text.len() < n {
        return false;
    }
    let mut i: usize = 0;
    while i < n
        invariant
            i <= n,
            n == prefix.len(),
            n <= text.len(),
            forall|j: int| 0 <= j < i ==> text@[j] == prefix@[j],
        decreases n - i,
    {
        if text[i] != prefix[i] {
            assert(text@.subrange(0, n as int)[i as int] != prefix@[i as int]);
            return false;
        }
        i += 1;
    }
    assert(text@.subrange(0, n as int) =~= prefix@);
    true
}

impl ModuleSpecifier {
    /// The specifier that the text stands for.
    pub fn from(s: &str) -> (r: ModuleSpecifier)
        ensures
            r@ == decode(s@),
    {
        let text = chars_of(s);
        let n = text.len();
        let builtin = chars_of(BUILTIN_MODULE_PREFIX);
        let memory = chars_of(MEMORY_MODULE_PREFIX);
        let import_map = chars_of(IMPORT_MAP_MODULE_PREFIX);
        proof {
            reveal_strlit("builtin:");
            reveal_strlit("memory:");
            reveal_strlit("@");
            assert(builtin@ =~= builtin_prefix());
            assert(memory@ =~= memory_prefix());
            assert(import_map@ =~= import_map_prefix());
        }
        if starts_with(&text, &builtin) {
            assert(text@.subrange(8, n as int) =~= text@.skip(8));
            ModuleSpecifier::Builtin(string_of(&text, 8, n))
        } else if starts_with(&text, &memory) {
            assert(text@.subrange(7, n as int) =~= text@.skip(7));
            ModuleSpecifier::Memory(string_of(&text, 7, n))
        } else if starts_with(&text, &import_map) {
            assert(text@.subrange(1, n as int) =~= text@.skip(1));
            ModuleSpecifier::ImportMap(string_of(&text, 1, n))
        } else {
            assert(text@.subrange(0, n as int) =~= text@);
            ModuleSpecifier::File(string_of(&text, 0, n))
        }
    }

    /// The text form of the specifier.
    pub fn with_prefix(&self) -> (r: String)
        ensures
            r@ == encode(self@),
    {
        proof {
            reveal_strlit("builtin:");
            reveal_strlit("memory:");
            reveal_strlit("@");
            assert(BUILTIN_MODULE_PREFIX@ =~= builtin_prefix());
            assert(MEMORY_MODULE_PREFIX@ =~= memory_prefix());
            assert(IMPORT_MAP_MODULE_PREFIX@ =~= import_map_prefix());
        }
        match self {
            ModuleSpecifier::Builtin(name) => String::from_str(BUILTIN_MODULE_PREFIX).concat(
                name.as_str(),
            ),
            ModuleSpecifier::Memory(name) => String::from_str(MEMORY_MODULE_PREFIX).concat(
                name.as_str(),
            ),
            ModuleSpecifier::ImportMap(name) => String::from_str(IMPORT_MAP_MODULE_PREFIX).concat(
                name.as_str(),
            ),
            ModuleSpecifier::File(path) => path.clone(),
        }
    }

    /// The key under which tables hold the specifier.
    pub fn key(&self) -> (r: String)
        ensures
            r@ == table_key(self@),
    {
        let mut out = String::new();
        match self {
            ModuleSpecifier::Builtin(name) => {
                out.push('b');
                assert(out@ =~= seq!['b']);
                out.append(name.as_str());
            },
            ModuleSpecifier::Memory(name) => {
                out.push('m');
                assert(out@ =~= seq!['m']);
                out.append(name.as_str());
            },
            ModuleSpecifier::File(path) => {
                out.push('f');
                assert(out@ =~= seq!['f']);
                out.append(path.as_str());
            },
            ModuleSpecifier::ImportMap(name) => {
                out.push('i');
                assert(out@ =~= seq!['i']);
                out.append(name.as_str());
            },
        }
        out
    }

    /// The text form of the specifier.
    pub fn to_string(&self) -> (r: String)
        ensures
            r@ == encode(self@),
    {
        self.with_prefix()
    }
}

impl Clone for ModuleSpecifier {
    fn clone(&self) -> (r: ModuleSpecifier)
        ensures
            r@ == self@,
    {
        match self {
            ModuleSpecifier::Builtin(name) => ModuleSpecifier::Builtin(name.clone()),
            ModuleSpecifier::Memory(name) => ModuleSpecifier::Memory(name.clone()),
            ModuleSpecifier::File(path) => ModuleSpecifier::File(path.clone()),
            ModuleSpecifier::ImportMap(name) => ModuleSpecifier::ImportMap(name.clone()),
        }
    }
}

impl PartialEq for ModuleSpecifier {
    /// Two specifiers are equal when they are of one kind and their
    /// texts are equal.
    fn eq(&self, other: &ModuleSpecifier) -> (r: bool) {
        match (self, other) {
            (ModuleSpecifier::Builtin(a), ModuleSpecifier::Builtin(b)) => *a == *b,
            (ModuleSpecifier::Memory(a), ModuleSpecifier::Memory(b)) => *a == *b,
            (ModuleSpecifier::File(a), ModuleSpecifier::File(b)) => *a == *b,
            (ModuleSpecifier::ImportMap(a), ModuleSpecifier::ImportMap(b)) => *a == *b,
            _ => false,
        }
    }
}

impl PartialEqSpecImpl for ModuleSpecifier {
    open spec fn obeys_eq_spec() -> bool {
        true
    }

    open spec fn eq_spec(&self, other: &ModuleSpecifier) -> bool {
        self@ == other@
    }
}

impl Eq for ModuleSpecifier {

}

} // verus!
