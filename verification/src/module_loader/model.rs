//! The state of a module loader as a mathematical value, and what each
//! operation makes of it.

use crate::builtin::{find_builtin, BuiltinSourceView};
use crate::module_specifier::{encode, SpecifierView};
use crate::path::model::{lies_in, normalized, parse, with_part, PathError};
use vstd::prelude::*;

verus! {

/// How the loader is set up.
#[derive(Clone, Copy, Debug, PartialEq, Eq, Hash, Structural)]
pub struct Options {
    pub enable_imports: bool,
}

/// What a loader holds.
pub struct LoaderState {
    /// The options that the loader was made with.
    pub options: Options,
    /// The text of the sandbox root.
    pub root: Seq<char>,
    /// The built-in modules, in the order of their registration.
    pub builtins: Seq<(Seq<char>, BuiltinSourceView)>,
    /// The import map: from an alias to the specifier it stands for.
    pub imports: Map<Seq<char>, SpecifierView>,
    /// The module cache: from a specifier to the handle of its compiled
    /// module.
    pub cache: Map<SpecifierView, u64>,
    /// The reverse of the cache: from a handle to the specifier that it
    /// was compiled for.
    pub owners: Map<u64, SpecifierView>,
    /// The dependency graph: from a referrer to the specifiers that it
    /// imported, in order.
    pub graph: Map<SpecifierView, Seq<SpecifierView>>,
}

/// How the resolution of a specifier ends.
pub enum Resolution {
    /// It names this module.
    Resolved(SpecifierView),
    /// It cannot be imported from this referrer, or not at all.
    NotSupported,
    /// It is an alias that the import map does not hold.
    NotFound,
    /// Its path, or that of the referrer, is no neutral path.
    BadPath(PathError),
    /// Its path, given here, lies outside the sandbox root.
    Escape(Seq<char>),
}

/// The directory of a file: the path with `..` joined on.
pub open spec fn directory_of(file: Seq<char>) -> Seq<char> {
    normalized(with_part(file, seq!['.', '.']))
}

/// How a file import ends: both paths must be neutral, and the target,
/// read in the directory of the referrer, must lie in the root.
pub open spec fn file_resolution(
    root: Seq<char>,
    target: Seq<char>,
    from: Seq<char>,
) -> Resolution {
    match parse(target) {
        Err(e) => Resolution::BadPath(e),
        Ok(wanted) => match parse(from) {
            Err(e) => Resolution::BadPath(e),
            Ok(file) => {
                let found = normalized(with_part(directory_of(file), wanted));
                if lies_in(found, root) {
                    Resolution::Resolved(SpecifierView::File(found))
                } else {
                    Resolution::Escape(found)
                }
            },
        },
    }
}

/// How the resolution of `specifier`, imported by `referrer`, ends.
pub open spec fn resolution(
    state: LoaderState,
    specifier: SpecifierView,
    referrer: SpecifierView,
) -> Resolution {
    match specifier {
        SpecifierView::Builtin(_) => Resolution::Resolved(specifier),
        SpecifierView::Memory(_) => Resolution::NotSupported,
        SpecifierView::ImportMap(alias) => if state.imports.dom().contains(alias) {
            Resolution::Resolved(state.imports[alias])
        } else {
            Resolution::NotFound
        },
        SpecifierView::File(target) => match referrer {
            SpecifierView::File(from) => file_resolution(state.root, target, from),
            _ => Resolution::NotSupported,
        },
    }
}

/// The imports recorded for a referrer so far.
pub open spec fn imports_of(state: LoaderState, referrer: SpecifierView) -> Seq<SpecifierView> {
    if state.graph.dom().contains(referrer) {
        state.graph[referrer]
    } else {
        Seq::empty()
    }
}

/// The state with one more edge in the dependency graph.
pub open spec fn with_edge(
    state: LoaderState,
    referrer: SpecifierView,
    target: SpecifierView,
) -> LoaderState {
    LoaderState {
        graph: state.graph.insert(referrer, imports_of(state, referrer).push(target)),
        ..state
    }
}

/// The state after a resolution: a file import that succeeded is
/// recorded as an edge from the referrer; nothing else changes anything.
pub open spec fn after_resolve(
    state: LoaderState,
    specifier: SpecifierView,
    referrer: SpecifierView,
) -> LoaderState {
    match (specifier, resolution(state, specifier, referrer)) {
        (SpecifierView::File(_), Resolution::Resolved(found)) => with_edge(state, referrer, found),
        _ => state,
    }
}

/// What is to be done to have the compiled module of a specifier.
pub enum PlanView {
    /// Nothing: it was compiled before, and this is its handle.
    Cached(u64),
    /// Read the file at the path, and compile its text under the origin
    /// name.
    ReadFile(Seq<char>, Seq<char>),
    /// Compile the script text under the origin name.
    CompileScript(Seq<char>, Seq<char>),
    /// Make a synthetic module with the exports, under the origin name.
    CompileNative(Seq<Seq<char>>, Seq<char>),
}

/// How planning the load of a specifier ends.
pub enum Planned {
    /// With a plan.
    Plan(PlanView),
    /// The built-in module of this name is not registered.
    UnknownBuiltin(Seq<char>),
    /// The specifier is of a kind that is never compiled: a memory
    /// module that is not in the cache, or an unresolved alias.
    UnknownSpecifier,
}

/// The plan for a specifier. A module in the cache is never compiled
/// again; the origin name of a compilation is the text form of the
/// specifier.
pub open spec fn load_plan(state: LoaderState, specifier: SpecifierView) -> Planned {
    if state.cache.dom().contains(specifier) {
        Planned::Plan(PlanView::Cached(state.cache[specifier]))
    } else {
        match specifier {
            SpecifierView::File(path) => Planned::Plan(PlanView::ReadFile(path, encode(specifier))),
            SpecifierView::Builtin(name) => match find_builtin(state.builtins, name) {
                Some(BuiltinSourceView::Script(text)) => Planned::Plan(
                    PlanView::CompileScript(text, encode(specifier)),
                ),
                Some(BuiltinSourceView::Native(names)) => Planned::Plan(
                    PlanView::CompileNative(names, encode(specifier)),
                ),
                None => Planned::UnknownBuiltin(name),
            },
            _ => Planned::UnknownSpecifier,
        }
    }
}

/// The state once the module of a specifier has been compiled: the
/// cache and its reverse hold the handle.
pub open spec fn after_compile(
    state: LoaderState,
    specifier: SpecifierView,
    handle: u64,
) -> LoaderState {
    LoaderState {
        cache: state.cache.insert(specifier, handle),
        owners: state.owners.insert(handle, specifier),
        ..state
    }
}

/// The state with one more alias in the import map.
pub open spec fn with_import(
    state: LoaderState,
    alias: Seq<char>,
    target: SpecifierView,
) -> LoaderState {
    LoaderState { imports: state.imports.insert(alias, target), ..state }
}

/// What an import gives: the module that the specifier resolves to and
/// the plan for it, or nothing where the resolution or the planning
/// fails.
pub open spec fn import_outcome(
    state: LoaderState,
    specifier: SpecifierView,
    referrer: SpecifierView,
) -> Option<(SpecifierView, PlanView)> {
    match resolution(state, specifier, referrer) {
        Resolution::Resolved(found) => match load_plan(state, found) {
            Planned::Plan(plan) => Some((found, plan)),
            _ => None,
        },
        _ => None,
    }
}

} // verus!
