//! What holds of the loader whatever the inputs.

use super::model::{
    after_compile, after_resolve, directory_of, imports_of, load_plan, resolution, LoaderState,
    PlanView, Planned, Resolution,
};
use crate::module_specifier::SpecifierView;
use crate::path::lemmas::{lemma_join_neutral, lemma_parent_neutral, lemma_parse_neutral};
use crate::path::model::{is_neutral, lies_in, parse};
use vstd::prelude::*;

verus! {

/// Once the module of a specifier has been compiled, the plan for that
/// specifier is the handle in the cache: nothing is read and nothing is
/// compiled a second time. Resolving imports in between changes nothing
/// of that.
pub proof fn compiled_module_is_cached(
    state: LoaderState,
    specifier: SpecifierView,
    handle: u64,
    wanted: SpecifierView,
    referrer: SpecifierView,
)
    ensures
        load_plan(after_compile(state, specifier, handle), specifier) == Planned::Plan(
            PlanView::Cached(handle),
        ),
        load_plan(
            after_resolve(after_compile(state, specifier, handle), wanted, referrer),
            specifier,
        ) == Planned::Plan(PlanView::Cached(handle)),
{
}

/// A file imported by anything but a file is not supported.
pub proof fn file_needs_file_referrer(
    state: LoaderState,
    target: Seq<char>,
    referrer: SpecifierView,
)
    requires
        !(referrer is File),
    ensures
        resolution(state, SpecifierView::File(target), referrer) == Resolution::NotSupported,
{
}

/// An alias that the import map does not hold is not found.
pub proof fn unknown_alias_is_not_found(
    state: LoaderState,
    alias: Seq<char>,
    referrer: SpecifierView,
)
    requires
        !state.imports.dom().contains(alias),
    ensures
        resolution(state, SpecifierView::ImportMap(alias), referrer) == Resolution::NotFound,
{
}

/// A file import that succeeds is the last edge recorded for its
/// referrer; the edges recorded before stay, in their order.
pub proof fn resolved_file_is_recorded(
    state: LoaderState,
    target: Seq<char>,
    referrer: SpecifierView,
)
    requires
        resolution(state, SpecifierView::File(target), referrer) is Resolved,
    ensures
        ({
            let found = resolution(state, SpecifierView::File(target), referrer)->Resolved_0;
            let after = after_resolve(state, SpecifierView::File(target), referrer);
            imports_of(after, referrer) == imports_of(state, referrer).push(found)
        }),
{
}

/// A file import that succeeds names a neutral path inside the sandbox
/// root: no import leads a script out of the root.
pub proof fn resolved_file_lies_in_root(
    state: LoaderState,
    target: Seq<char>,
    referrer: SpecifierView,
)
    requires
        resolution(state, SpecifierView::File(target), referrer) is Resolved,
    ensures
        resolution(state, SpecifierView::File(target), referrer) matches Resolution::Resolved(
            SpecifierView::File(found),
        ) && is_neutral(found) && lies_in(found, state.root),
{
    let from = referrer->File_0;
    let wanted = parse(target)->Ok_0;
    let file = parse(from)->Ok_0;
    lemma_parse_neutral(target);
    lemma_parse_neutral(from);
    lemma_parent_neutral(file);
    lemma_join_neutral(directory_of(file), wanted);
}

} // verus!
