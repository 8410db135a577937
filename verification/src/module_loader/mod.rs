//! The module loader: it resolves import requests, plans what has to be
//! compiled, and keeps the cache of what was. The script runtime does
//! the compiling and the running; the loader decides.

pub mod laws;
pub mod model;

use crate::builtin::{BuiltinRegistry, BuiltinSource};
use crate::lifecycle::{next_step, step_after, LifecycleEvent, LifecycleStep, ModuleStatus};
use crate::maps::{id_map_entries, id_map_get, id_map_insert, id_map_new};
use crate::module_specifier::{
    decode, table_key, table_key_is_injective, ModuleSpecifier, SpecifierView,
};
use crate::path::model::PathError;
use crate::path::NeutralPath;
use crate::sandbox::{Sandbox, SandboxError};
use crate::table::TextTable;
use crate::text::{clone_strings, texts};
use ahash::AHashMap;
pub use model::Options;
use model::{
    after_compile, after_resolve, import_outcome, imports_of, load_plan, resolution, with_edge,
    with_import, LoaderState, PlanView, Planned, Resolution,
};
use vstd::prelude::*;

verus! {

/// Why a module could not be resolved, loaded or run.
#[derive(Debug)]
pub enum ModuleLoadError {
    /// An alias that the import map does not hold.
    NotFound { referer: ModuleSpecifier, specifier: ModuleSpecifier },
    /// A memory module, or a file imported by something that is no file.
    NotSupported { referer: ModuleSpecifier, specifier: ModuleSpecifier },
    /// A path that is no neutral path.
    PathError(PathError),
    /// The file could not be read; the payload says why.
    IoError(String),
    /// A path that leaves the sandbox root.
    SandboxError(SandboxError),
    /// The runtime could not allocate an object.
    V8ObjectAllocationError(&'static str),
    /// The runtime could not compile the module.
    V8CompileError(ModuleSpecifier),
    /// The runtime could not instantiate or evaluate the module.
    V8InstaniateAndEvaluateError(ModuleSpecifier),
    /// The runtime refused an export of a synthetic module.
    V8SyntheticModuleBuildingError(&'static str),
    /// A specifier of a kind that is never compiled.
    UnknownModuleSpecifier(ModuleSpecifier),
    /// A built-in module that is not registered.
    UnknownBuiltinModuleSpecifier(String),
}

/// What is to be done to have the compiled module of a specifier.
#[derive(Debug)]
pub enum ModulePlan {
    /// Nothing: it was compiled before, and this is its handle.
    Cached(u64),
    /// Read the file and compile its text under the origin name.
    ReadFile { path: String, origin: String },
    /// Compile the script text under the origin name.
    CompileScript { source: String, origin: String },
    /// Make a synthetic module with the exports, under the origin name.
    CompileNative { exports: Vec<String>, origin: String },
}

impl View for ModulePlan {
    type V = PlanView;

    open spec fn view(&self) -> PlanView {
        match self {
            ModulePlan::Cached(handle) => PlanView::Cached(*handle),
            ModulePlan::ReadFile { path, origin } => PlanView::ReadFile(path@, origin@),
            ModulePlan::CompileScript { source, origin } => PlanView::CompileScript(
                source@,
                origin@,
            ),
            ModulePlan::CompileNative { exports, origin } => PlanView::CompileNative(
                texts(exports@),
                origin@,
            ),
        }
    }
}

/// How carrying out a plan ended.
#[derive(Debug)]
pub enum LoadOutcome {
    /// The module was compiled, and this is its handle.
    Compiled(u64),
    /// The file could not be read; the payload says why.
    ReadFailed(String),
    /// The runtime could not compile the code.
    CompileFailed,
}

/// The error tells how the resolution ended.
pub open spec fn reports(
    e: ModuleLoadError,
    outcome: Resolution,
    specifier: SpecifierView,
    referrer: SpecifierView,
) -> bool {
    match e {
        ModuleLoadError::NotFound { referer, specifier: wanted } => outcome == Resolution::NotFound
            && referer@ == referrer && wanted@ == specifier,
        ModuleLoadError::NotSupported { referer, specifier: wanted } => outcome
            == Resolution::NotSupported && referer@ == referrer && wanted@ == specifier,
        ModuleLoadError::PathError(cause) => outcome == Resolution::BadPath(cause),
        ModuleLoadError::SandboxError(SandboxError::Escape(path)) => outcome == Resolution::Escape(
            path@,
        ),
        _ => false,
    }
}

/// The error tells how the planning ended.
pub open spec fn reports_plan(
    e: ModuleLoadError,
    outcome: Planned,
    specifier: SpecifierView,
) -> bool {
    match e {
        ModuleLoadError::UnknownBuiltinModuleSpecifier(name) => outcome == Planned::UnknownBuiltin(
            name@,
        ),
        ModuleLoadError::UnknownModuleSpecifier(wanted) => outcome == Planned::UnknownSpecifier
            && wanted@ == specifier,
        _ => false,
    }
}

/// The views of a list of specifiers.
pub open spec fn specifiers_of(list: Seq<ModuleSpecifier>) -> Seq<SpecifierView> {
    Seq::new(list.len(), |i: int| list[i]@)
}

/// The loader of one script runtime.
pub struct ModuleLoader {
    options: Options,
    sandbox: Sandbox,
    builtins: BuiltinRegistry,
    modules: Vec<ModuleSpecifier>,
    module_map: AHashMap<u64, u64>,
    module_cache: TextTable<u64>,
    dependencies: TextTable<Vec<ModuleSpecifier>>,
    import_map: TextTable<ModuleSpecifier>,
}

impl View for ModuleLoader {
    type V = LoaderState;

    closed spec fn view(&self) -> LoaderState {
        LoaderState {
            options: self.options,
            root: self.sandbox.root_text(),
            builtins: self.builtins@,
            imports: Map::new(
                |alias: Seq<char>| self.import_map.has(alias),
                |alias: Seq<char>| self.import_map.value(alias)@,
            ),
            cache: Map::new(
                |v: SpecifierView| self.module_cache.has(table_key(v)),
                |v: SpecifierView| self.module_cache.value(table_key(v)),
            ),
            owners: Map::new(
                |handle: u64| id_map_entries(self.module_map).dom().contains(handle),
                |handle: u64| self.modules@[id_map_entries(self.module_map)[handle] as int]@,
            ),
            graph: Map::new(
                |v: SpecifierView| self.dependencies.has(table_key(v)),
                |v: SpecifierView| specifiers_of(self.dependencies.value(table_key(v))@),
            ),
        }
    }
}

impl ModuleLoader {
    /// The loader is in order: its sandbox and its tables are, and every
    /// handle leads to a module.
    pub closed spec fn wf(&self) -> bool {
        &&& self.sandbox.wf()
        &&& self.module_cache.wf()
        &&& self.dependencies.wf()
        &&& self.import_map.wf()
        &&& forall|handle: u64| #[trigger]
            id_map_entries(self.module_map).dom().contains(handle) ==> id_map_entries(
                self.module_map,
            )[handle] < self.modules.len()
    }

    /// The options that the loader was made with.
    pub open spec fn spec_options(&self) -> Options {
        self@.options
    }

    /// A loader for the sandbox, with the built-in modules of the table
    /// and with nothing in its import map, its cache or its graph.
    pub fn new(sandbox: Sandbox, options: Options, builtins: BuiltinRegistry) -> (r: ModuleLoader)
        requires
            sandbox.wf(),
        ensures
            r.wf(),
            r.spec_options() == options,
            r@.root == sandbox.root_text(),
            r@.builtins == builtins@,
            r@.imports == Map::<Seq<char>, SpecifierView>::empty(),
            r@.cache == Map::<SpecifierView, u64>::empty(),
            r@.owners == Map::<u64, SpecifierView>::empty(),
            r@.graph == Map::<SpecifierView, Seq<SpecifierView>>::empty(),
    {
        let r = ModuleLoader {
            options,
            sandbox,
            builtins,
            modules: Vec::new(),
            module_map: id_map_new(),
            module_cache: TextTable::new(),
            dependencies: TextTable::new(),
            import_map: TextTable::new(),
        };
        proof {
            assert(r@.imports =~= Map::<Seq<char>, SpecifierView>::empty());
            assert(r@.cache =~= Map::<SpecifierView, u64>::empty());
            assert(r@.owners =~= Map::<u64, SpecifierView>::empty());
            assert(r@.graph =~= Map::<SpecifierView, Seq<SpecifierView>>::empty());
        }
        r
    }

    /// The options that the loader was made with.
    pub fn options(&self) -> (r: &Options)
        ensures
            *r == self.spec_options(),
    {
        &self.options
    }

    /// Makes `alias` stand for `target` in the import map.
    pub fn register_import(&mut self, alias: String, target: ModuleSpecifier)
        requires
            old(self).wf(),
        ensures
            final(self).wf(),
            final(self)@ == with_import(old(self)@, alias@, target@),
            final(self).spec_options() == old(self).spec_options(),
    {
        self.import_map.insert(alias, target);
        proof {
            assert(self@.imports =~= old(self)@.imports.insert(alias@, target@));
        }
    }

    /// Records that `found` was imported by `referrer`.
    fn record_import(&mut self, referrer: &ModuleSpecifier, found: ModuleSpecifier)
        requires
            old(self).wf(),
        ensures
            final(self).wf(),
            final(self)@ == with_edge(old(self)@, referrer@, found@),
    {
        let ghost before = imports_of(self@, referrer@);
        self.dependencies.append(referrer.key(), found);
        proof {
            let wanted = old(self)@.graph.insert(referrer@, before.push(found@));
            let now = self@.graph;
            assert forall|v: SpecifierView| #[trigger] now.dom().contains(v) == wanted.dom().contains(
                v,
            ) by {
                if table_key(v) == table_key(referrer@) {
                    table_key_is_injective(v, referrer@);
                }
            }
            assert forall|v: SpecifierView| #[trigger]
                now.dom().contains(v) implies now[v] == wanted[v] by {
                if v == referrer@ {
                    let list = self.dependencies.value(table_key(v))@;
                    assert(specifiers_of(list) =~= before.push(found@));
                } else {
                    if table_key(v) == table_key(referrer@) {
                        table_key_is_injective(v, referrer@);
                    }
                }
            }
            assert(now =~= wanted);
        }
    }

    /// Resolves an import: what `specifier` names when `referrer`
    /// imports it. A built-in module is passed through. A memory module
    /// is never resolved. An alias leads to what the import map holds
    /// for it. A file is resolved against the directory of the
    /// referrer, which must be a file too, and must stay inside the
    /// sandbox; the edge from the referrer to it is then recorded.
    pub fn resolve_module_specifier(
        &mut self,
        specifier: &ModuleSpecifier,
        referrer: &ModuleSpecifier,
    ) -> (r: Result<ModuleSpecifier, ModuleLoadError>)
        requires
            old(self).wf(),
        ensures
            final(self).wf(),
            final(self)@ == after_resolve(old(self)@, specifier@, referrer@),
            final(self).spec_options() == old(self).spec_options(),
            r matches Ok(found) ==> resolution(old(self)@, specifier@, referrer@)
                == Resolution::Resolved(found@),
            r matches Err(e) ==> reports(
                e,
                resolution(old(self)@, specifier@, referrer@),
                specifier@,
                referrer@,
            ),
    {
        match specifier {
            ModuleSpecifier::Builtin(name) => Ok(ModuleSpecifier::Builtin(name.clone())),
            ModuleSpecifier::Memory(_) => Err(
                ModuleLoadError::NotSupported {
                    referer: referrer.clone(),
                    specifier: specifier.clone(),
                },
            ),
            ModuleSpecifier::ImportMap(alias) => match self.import_map.get(alias.as_str()) {
                Some(target) => Ok(target.clone()),
                None => Err(
                    ModuleLoadError::NotFound {
                        referer: referrer.clone(),
                        specifier: specifier.clone(),
                    },
                ),
            },
            ModuleSpecifier::File(target) => match referrer {
                ModuleSpecifier::File(from) => {
                    let wanted = match NeutralPath::new(target.as_str()) {
                        Ok(path) => path,
                        Err(e) => {
                            return Err(ModuleLoadError::PathError(e));
                        },
                    };
                    let file = match NeutralPath::new(from.as_str()) {
                        Ok(path) => path,
                        Err(e) => {
                            return Err(ModuleLoadError::PathError(e));
                        },
                    };
                    let directory = file.parent();
                    match self.sandbox.get_path_safe(&directory, &wanted) {
                        Err(e) => Err(ModuleLoadError::SandboxError(e)),
                        Ok(path) => {
                            let found = ModuleSpecifier::File(path.into_string());
                            self.record_import(referrer, found.clone());
                            Ok(found)
                        },
                    }
                },
                _ => Err(
                    ModuleLoadError::NotSupported {
                        referer: referrer.clone(),
                        specifier: specifier.clone(),
                    },
                ),
            },
        }
    }

    /// Plans the load of a module. A module in the cache is handed out
    /// as it is. A file is to be read and compiled; a built-in module is
    /// to be compiled from what the table holds for its name. Other
    /// specifiers are never compiled.
    pub fn resolve_module(&self, specifier: &ModuleSpecifier) -> (r: Result<
        ModulePlan,
        ModuleLoadError,
    >)
        requires
            self.wf(),
        ensures
            r matches Ok(plan) ==> load_plan(self@, specifier@) == Planned::Plan(plan@),
            r matches Err(e) ==> reports_plan(e, load_plan(self@, specifier@), specifier@),
    {
        let key = specifier.key();
        match self.module_cache.get(key.as_str()) {
            Some(handle) => {
                return Ok(ModulePlan::Cached(*handle));
            },
            None => {},
        }
        match specifier {
            ModuleSpecifier::File(path) => Ok(
                ModulePlan::ReadFile { path: path.clone(), origin: specifier.with_prefix() },
            ),
            ModuleSpecifier::Builtin(name) => match self.builtins.lookup(name.as_str()) {
                Some(BuiltinSource::Script(text)) => Ok(
                    ModulePlan::CompileScript {
                        source: text.clone(),
                        origin: specifier.with_prefix(),
                    },
                ),
                Some(BuiltinSource::Native(names)) => Ok(
                    ModulePlan::CompileNative {
                        exports: clone_strings(names),
                        origin: specifier.with_prefix(),
                    },
                ),
                None => Err(ModuleLoadError::UnknownBuiltinModuleSpecifier(name.clone())),
            },
            _ => Err(ModuleLoadError::UnknownModuleSpecifier(specifier.clone())),
        }
    }

    /// Records the module that the runtime compiled for a specifier: the
    /// cache leads from the specifier to the handle, and the reverse map
    /// from the handle to the specifier.
    pub fn module_compiled(&mut self, specifier: &ModuleSpecifier, handle: u64)
        requires
            old(self).wf(),
        ensures
            final(self).wf(),
            final(self)@ == after_compile(old(self)@, specifier@, handle),
            final(self).spec_options() == old(self).spec_options(),
    {
        let at = self.modules.len();
        self.modules.push(specifier.clone());
        id_map_insert(&mut self.module_map, handle, at as u64);
        self.module_cache.insert(specifier.key(), handle);
        proof {
            let cache = old(self)@.cache.insert(specifier@, handle);
            let now = self@.cache;
            assert forall|v: SpecifierView| #[trigger] now.dom().contains(v) == cache.dom().contains(
                v,
            ) by {
                if table_key(v) == table_key(specifier@) {
                    table_key_is_injective(v, specifier@);
                }
            }
            assert forall|v: SpecifierView| #[trigger]
                now.dom().contains(v) implies now[v] == cache[v] by {
                if table_key(v) == table_key(specifier@) {
                    table_key_is_injective(v, specifier@);
                }
            }
            assert(now =~= cache);
            assert(self@.owners =~= old(self)@.owners.insert(handle, specifier@));
        }
    }

    /// Takes note of how carrying out the plan for a specifier ended.
    /// A compiled module is recorded as `module_compiled` does, and its
    /// handle is the result. A failure is the result as an error, and
    /// leaves the loader as it was: nothing enters the cache before a
    /// compilation has succeeded.
    pub fn module_loaded(&mut self, specifier: &ModuleSpecifier, outcome: LoadOutcome) -> (r: Result<
        u64,
        ModuleLoadError,
    >)
        requires
            old(self).wf(),
        ensures
            final(self).wf(),
            final(self).spec_options() == old(self).spec_options(),
            match outcome {
                LoadOutcome::Compiled(handle) => r matches Ok(h) && h == handle && final(self)@
                    == after_compile(old(self)@, specifier@, handle),
                LoadOutcome::ReadFailed(why) => r matches Err(ModuleLoadError::IoError(message))
                    && message@ == why@ && final(self)@ == old(self)@,
                LoadOutcome::CompileFailed => r matches Err(
                    ModuleLoadError::V8CompileError(failed),
                ) && failed@ == specifier@ && final(self)@ == old(self)@,
            },
    {
        match outcome {
            LoadOutcome::Compiled(handle) => {
                self.module_compiled(specifier, handle);
                Ok(handle)
            },
            LoadOutcome::ReadFailed(why) => Err(ModuleLoadError::IoError(why)),
            LoadOutcome::CompileFailed => Err(ModuleLoadError::V8CompileError(specifier.clone())),
        }
    }

    /// The specifier that a handle was compiled for, if the loader
    /// knows the handle.
    pub fn specifier_of(&self, handle: u64) -> (r: Option<&ModuleSpecifier>)
        requires
            self.wf(),
        ensures
            r matches Some(owner) ==> self@.owners.dom().contains(handle) && self@.owners[handle]
                == owner@,
            r is None ==> !self@.owners.dom().contains(handle),
    {
        match id_map_get(&self.module_map, handle) {
            Some(at) => {
                assert(id_map_entries(self.module_map).dom().contains(handle));
                assert(at < self.modules.len());
                Some(&self.modules[at as usize])
            },
            None => None,
        }
    }

    /// The specifiers that a referrer has imported so far, in order.
    pub fn imports_of(&self, referrer: &ModuleSpecifier) -> (r: Vec<ModuleSpecifier>)
        requires
            self.wf(),
        ensures
            specifiers_of(r@) == imports_of(self@, referrer@),
    {
        let mut r: Vec<ModuleSpecifier> = Vec::new();
        let key = referrer.key();
        match self.dependencies.get(key.as_str()) {
            Some(list) => {
                let n = list.len();
                let mut i: usize = 0;
                while i < n
                    invariant
                        i <= n,
                        n == list.len(),
                        r@.len() == i,
                        forall|j: int| 0 <= j < i ==> r@[j]@ == list@[j]@,
                    decreases n - i,
                {
                    r.push(list[i].clone());
                    i += 1;
                }
                assert(specifiers_of(r@) =~= specifiers_of(list@));
            },
            None => {
                assert(specifiers_of(r@) =~= Seq::<SpecifierView>::empty());
            },
        }
        r
    }

    /// What an import gives: the specifier resolved, and the plan for
    /// the module it names.
    fn import(&mut self, specifier: &ModuleSpecifier, referrer: &ModuleSpecifier) -> (r: Option<
        (ModuleSpecifier, ModulePlan),
    >)
        requires
            old(self).wf(),
        ensures
            final(self).wf(),
            final(self)@ == after_resolve(old(self)@, specifier@, referrer@),
            r matches Some(pair) ==> import_outcome(old(self)@, specifier@, referrer@) == Some(
                (pair.0@, pair.1@),
            ),
            r is None ==> import_outcome(old(self)@, specifier@, referrer@) is None,
    {
        match self.resolve_module_specifier(specifier, referrer) {
            Err(_) => None,
            Ok(found) => match self.resolve_module(&found) {
                Err(_) => None,
                Ok(plan) => Some((found, plan)),
            },
        }
    }

    /// Answers the runtime when a module that it instantiates imports
    /// another: the module that the text names for the referrer, and the
    /// plan for it. Nothing is given where the loader does not know the
    /// referrer's handle, or where the resolution or the planning fails.
    pub fn resolve_module_hook(&mut self, referrer: u64, specifier: &str) -> (r: Option<
        (ModuleSpecifier, ModulePlan),
    >)
        requires
            old(self).wf(),
        ensures
            final(self).wf(),
            final(self).spec_options() == old(self).spec_options(),
            !old(self)@.owners.dom().contains(referrer) ==> r is None && final(self)@ == old(
                self,
            )@,
            old(self)@.owners.dom().contains(referrer) ==> final(self)@ == after_resolve(
                old(self)@,
                decode(specifier@),
                old(self)@.owners[referrer],
            ),
            old(self)@.owners.dom().contains(referrer) ==> (r matches Some(pair)
                ==> import_outcome(old(self)@, decode(specifier@), old(self)@.owners[referrer])
                == Some((pair.0@, pair.1@))),
            old(self)@.owners.dom().contains(referrer) ==> (r is None ==> import_outcome(
                old(self)@,
                decode(specifier@),
                old(self)@.owners[referrer],
            ) is None),
    {
        let owner = match self.specifier_of(referrer) {
            Some(owner) => owner.clone(),
            None => {
                return None;
            },
        };
        let wanted = ModuleSpecifier::from(specifier);
        self.import(&wanted, &owner)
    }

    /// Answers the runtime when running code imports a module: the
    /// module that the text names for the referrer, whose text form is
    /// the resource name, and the plan for it. Nothing is given where
    /// the resolution or the planning fails.
    pub fn load_module_async_hook(&mut self, resource_name: &str, specifier: &str) -> (r: Option<
        (ModuleSpecifier, ModulePlan),
    >)
        requires
            old(self).wf(),
        ensures
            final(self).wf(),
            final(self)@ == after_resolve(old(self)@, decode(specifier@), decode(resource_name@)),
            final(self).spec_options() == old(self).spec_options(),
            r matches Some(pair) ==> import_outcome(
                old(self)@,
                decode(specifier@),
                decode(resource_name@),
            ) == Some((pair.0@, pair.1@)),
            r is None ==> import_outcome(old(self)@, decode(specifier@), decode(resource_name@))
                is None,
    {
        let referrer = ModuleSpecifier::from(resource_name);
        let wanted = ModuleSpecifier::from(specifier);
        self.import(&wanted, &referrer)
    }

    /// The step that brings a module nearer to its value, given what
    /// the drive has seen so far and the status that the runtime
    /// reports.
    pub fn instantiate_and_evaluate_module(event: LifecycleEvent, status: ModuleStatus) -> (r:
        LifecycleStep)
        ensures
            r == step_after(event, status),
    {
        next_step(event, status)
    }

    /// The step that brings the module of a specifier nearer to its
    /// value, or the error that ends the drive.
    pub fn execute_module(
        specifier: &ModuleSpecifier,
        event: LifecycleEvent,
        status: ModuleStatus,
    ) -> (r: Result<LifecycleStep, ModuleLoadError>)
        ensures
            step_after(event, status) != LifecycleStep::Fail ==> r == Ok::<
                LifecycleStep,
                ModuleLoadError,
            >(step_after(event, status)),
            step_after(event, status) == LifecycleStep::Fail ==> (r matches Err(
                ModuleLoadError::V8InstaniateAndEvaluateError(failed),
            ) && failed@ == specifier@),
    {
        match next_step(event, status) {
            LifecycleStep::Fail => Err(
                ModuleLoadError::V8InstaniateAndEvaluateError(specifier.clone()),
            ),
            step => Ok(step),
        }
    }
}

} // verus!
