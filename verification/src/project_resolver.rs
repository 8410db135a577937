//! The project resolver: it keeps track of the project files that are
//! being resolved and of those that are done, so that a project is run
//! once and a circular import is reported instead of followed.

use crate::module_loader::ModuleLoadError;
use crate::module_specifier::{ModuleSpecifier, SpecifierView};
use crate::table::TextTable;
use vstd::prelude::*;

verus! {

/// Why a project file could not be resolved.
#[derive(Debug)]
pub enum ProjectResolveError {
    /// There is no file at the path.
    FileNotExists(String),
    /// What is at the path is no regular file.
    NotAFile(String),
    /// The project at the path is being resolved already.
    CircularDependency(String),
    /// The file system failed; the payload says how.
    IOError(String),
    /// The module of the project could not be loaded or run.
    ModuleError(ModuleLoadError),
}

/// What is to be done for a project file.
#[derive(Debug)]
pub enum ProjectStep {
    /// Nothing: the project was resolved before.
    AlreadyResolved,
    /// Run the module, and report how it ended.
    Execute(ModuleSpecifier),
}

/// What a resolver holds.
pub struct ResolverState {
    /// For each path that was visited, whether it is being resolved.
    pub resolving: Map<Seq<char>, bool>,
    /// For each path that was resolved, the value that its module
    /// exported.
    pub results: Map<Seq<char>, u64>,
}

/// How the start of a resolution ends.
pub enum Verdict {
    FileNotExists,
    NotAFile,
    CircularDependency,
    AlreadyResolved,
    Execute,
}

/// The project at the path is being resolved.
pub open spec fn is_resolving(state: ResolverState, path: Seq<char>) -> bool {
    state.resolving.dom().contains(path) && state.resolving[path]
}

/// How the start of the resolution of the file at `path` ends, given
/// what the file system says of the path.
pub open spec fn verdict(
    state: ResolverState,
    path: Seq<char>,
    exists: bool,
    is_file: bool,
) -> Verdict {
    if !exists {
        Verdict::FileNotExists
    } else if !is_file {
        Verdict::NotAFile
    } else if is_resolving(state, path) {
        Verdict::CircularDependency
    } else if state.results.dom().contains(path) {
        Verdict::AlreadyResolved
    } else {
        Verdict::Execute
    }
}

/// The state after the start of a resolution: a project that is to be
/// run is marked as being resolved; nothing else changes anything.
pub open spec fn after_start(
    state: ResolverState,
    path: Seq<char>,
    exists: bool,
    is_file: bool,
) -> ResolverState {
    match verdict(state, path, exists, is_file) {
        Verdict::Execute => ResolverState {
            resolving: state.resolving.insert(path, true),
            ..state
        },
        _ => state,
    }
}

/// The state after the run of a project has ended: the mark is cleared,
/// and a value, if there is one, is kept as the result.
pub open spec fn after_run(
    state: ResolverState,
    path: Seq<char>,
    value: Option<u64>,
) -> ResolverState {
    match value {
        Some(v) => ResolverState {
            resolving: state.resolving.insert(path, false),
            results: state.results.insert(path, v),
        },
        None => ResolverState { resolving: state.resolving.insert(path, false), ..state },
    }
}

/// The value that a run gave, if it gave one.
pub open spec fn value_of(outcome: Result<u64, ProjectResolveError>) -> Option<u64> {
    match outcome {
        Ok(value) => Some(value),
        Err(_) => None,
    }
}

/// What the resolution of a project that was run ends with: success
/// where the run gave a value, else the very error that ended the run.
pub open spec fn reported(outcome: Result<u64, ProjectResolveError>) -> Result<
    (),
    ProjectResolveError,
> {
    match outcome {
        Ok(_) => Ok(()),
        Err(e) => Err(e),
    }
}

/// The bookkeeping of project resolutions.
pub struct ProjectResolver {
    result: TextTable<u64>,
    resolving: TextTable<bool>,
}

impl View for ProjectResolver {
    type V = ResolverState;

    closed spec fn view(&self) -> ResolverState {
        ResolverState {
            resolving: Map::new(
                |path: Seq<char>| self.resolving.has(path),
                |path: Seq<char>| self.resolving.value(path),
            ),
            results: Map::new(
                |path: Seq<char>| self.result.has(path),
                |path: Seq<char>| self.result.value(path),
            ),
        }
    }
}

impl ProjectResolver {
    /// The tables of the resolver are in order.
    pub closed spec fn wf(&self) -> bool {
        self.result.wf() && self.resolving.wf()
    }

    /// A resolver that has seen no project.
    pub fn new() -> (r: ProjectResolver)
        ensures
            r.wf(),
            r@.resolving == Map::<Seq<char>, bool>::empty(),
            r@.results == Map::<Seq<char>, u64>::empty(),
    {
        let r = ProjectResolver { result: TextTable::new(), resolving: TextTable::new() };
        proof {
            assert(r@.resolving =~= Map::<Seq<char>, bool>::empty());
            assert(r@.results =~= Map::<Seq<char>, u64>::empty());
        }
        r
    }

    /// Starts the resolution of the project file at the canonical path
    /// `path`, of which the file system says whether it exists and
    /// whether it is a regular file. A path that does not exist, or is
    /// no file, is an error; so is a project that is being resolved
    /// already. A project that was resolved before needs nothing. Any
    /// other is marked as being resolved and is to be run.
    pub fn resolve_project(&mut self, path: &str, exists: bool, is_file: bool) -> (r: Result<
        ProjectStep,
        ProjectResolveError,
    >)
        requires
            old(self).wf(),
        ensures
            final(self).wf(),
            final(self)@ == after_start(old(self)@, path@, exists, is_file),
            match verdict(old(self)@, path@, exists, is_file) {
                Verdict::FileNotExists => r matches Err(ProjectResolveError::FileNotExists(p))
                    && p@ == path@,
                Verdict::NotAFile => r matches Err(ProjectResolveError::NotAFile(p)) && p@
                    == path@,
                Verdict::CircularDependency => r matches Err(
                    ProjectResolveError::CircularDependency(p),
                ) && p@ == path@,
                Verdict::AlreadyResolved => r matches Ok(ProjectStep::AlreadyResolved),
                Verdict::Execute => r matches Ok(ProjectStep::Execute(module)) && module@
                    == SpecifierView::File(path@),
            },
    {
        if !exists {
            return Err(ProjectResolveError::FileNotExists(path.to_owned()));
        }
        if !is_file {
            return Err(ProjectResolveError::NotAFile(path.to_owned()));
        }
        match self.resolving.get(path) {
            Some(flag) => {
                if *flag {
                    return Err(ProjectResolveError::CircularDependency(path.to_owned()));
                }
            },
            None => {},
        }
        match self.result.get(path) {
            Some(_) => {
                return Ok(ProjectStep::AlreadyResolved);
            },
            None => {},
        }
        self.resolving.insert(path.to_owned(), true);
        proof {
            assert(self@.resolving =~= old(self)@.resolving.insert(path@, true));
            assert(self@.results =~= old(self)@.results);
        }
        Ok(ProjectStep::Execute(ModuleSpecifier::File(path.to_owned())))
    }

    /// Ends the resolution of the project at `path`, given how its run
    /// ended: with the value that its module exported, or with an error.
    /// Either way the project is no longer being resolved; only a value
    /// makes it resolved. The result is success for a value, and for an
    /// error that same error: a failure inside a project is the failure
    /// of the project.
    pub fn project_executed(&mut self, path: &str, outcome: Result<u64, ProjectResolveError>) -> (r:
        Result<(), ProjectResolveError>)
        requires
            old(self).wf(),
        ensures
            final(self).wf(),
            final(self)@ == after_run(old(self)@, path@, value_of(outcome)),
            r == reported(outcome),
    {
        self.resolving.insert(path.to_owned(), false);
        proof {
            assert(self@.resolving =~= old(self)@.resolving.insert(path@, false));
        }
        match outcome {
            Ok(v) => {
                self.result.insert(path.to_owned(), v);
                proof {
                    assert(self@.results =~= old(self)@.results.insert(path@, v));
                }
                Ok(())
            },
            Err(e) => {
                proof {
                    assert(self@.results =~= old(self)@.results);
                }
                Err(e)
            },
        }
    }

    /// The value that the project at `path` exported, if it was
    /// resolved.
    pub fn result_of(&self, path: &str) -> (r: Option<u64>)
        requires
            self.wf(),
        ensures
            self@.results.dom().contains(path@) ==> r == Some(self@.results[path@]),
            !self@.results.dom().contains(path@) ==> r is None,
    {
        match self.result.get(path) {
            Some(v) => Some(*v),
            None => None,
        }
    }
}

/// A project that imports a second one, which imports the first again:
/// the first and the second are run, and the import that closes the
/// circle is reported, whatever else the resolver holds.
pub proof fn circular_import_is_reported(
    state: ResolverState,
    first: Seq<char>,
    second: Seq<char>,
)
    requires
        verdict(state, first, true, true) == Verdict::Execute,
        verdict(state, second, true, true) == Verdict::Execute,
        first != second,
    ensures
        ({
            let one = after_start(state, first, true, true);
            let two = after_start(one, second, true, true);
            &&& verdict(one, second, true, true) == Verdict::Execute
            &&& verdict(two, first, true, true) == Verdict::CircularDependency
            &&& verdict(two, second, true, true) == Verdict::CircularDependency
            &&& after_start(two, first, true, true) == two
        }),
{
}

/// A project whose run gave a value is resolved: starting it again asks
/// for nothing and changes nothing. One whose run failed is run again.
pub proof fn resolved_project_is_not_run_again(state: ResolverState, path: Seq<char>, value: u64)
    ensures
        verdict(after_run(state, path, Some(value)), path, true, true)
            == Verdict::AlreadyResolved,
        after_start(after_run(state, path, Some(value)), path, true, true) == after_run(
            state,
            path,
            Some(value),
        ),
        !state.results.dom().contains(path) ==> verdict(
            after_run(state, path, None),
            path,
            true,
            true,
        ) == Verdict::Execute,
{
}

/// A circular import fails every project on the circle. Where a first
/// project imports a second one, which imports the first again, the
/// import that closes the circle is reported as circular; a run that
/// ends with that error ends the second project with it, and a run that
/// ends with it in turn ends the first project with it. Afterwards
/// neither project is being resolved, and neither is resolved.
pub proof fn circular_import_fails_the_outermost_project(
    state: ResolverState,
    first: Seq<char>,
    second: Seq<char>,
    error: ProjectResolveError,
)
    requires
        verdict(state, first, true, true) == Verdict::Execute,
        verdict(state, second, true, true) == Verdict::Execute,
        first != second,
        error matches ProjectResolveError::CircularDependency(path) && path@ == first,
    ensures
        ({
            let one = after_start(state, first, true, true);
            let two = after_start(one, second, true, true);
            let inner = reported(Err(error));
            let outer = reported(Err(inner->Err_0));
            let three = after_run(two, second, value_of(Err(error)));
            let four = after_run(three, first, value_of(Err(inner->Err_0)));
            &&& verdict(two, first, true, true) == Verdict::CircularDependency
            &&& inner == Err::<(), ProjectResolveError>(error)
            &&& outer == Err::<(), ProjectResolveError>(error)
            &&& !is_resolving(four, first) && !is_resolving(four, second)
            &&& four.results == state.results
        }),
{
}

} // verus!
