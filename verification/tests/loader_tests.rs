use zmake_lib::builtin::{rt, syscall, BuiltinRegistry, BuiltinSource};
use zmake_lib::lifecycle::{LifecycleEvent, LifecycleStep, ModuleStatus};
use zmake_lib::module_loader::{
    LoadOutcome, ModuleLoadError, ModuleLoader, ModulePlan, Options,
};
use zmake_lib::module_specifier::ModuleSpecifier;
use zmake_lib::path::model::PathError;
use zmake_lib::path::NeutralPath;
use zmake_lib::sandbox::{Sandbox, SandboxError};

fn builtins() -> BuiltinRegistry {
    let mut table = BuiltinRegistry::new();
    table.register("rt".to_string(), BuiltinSource::Script("export const x = 1;".to_string()));
    table.register(
        "syscall".to_string(),
        BuiltinSource::Native(vec!["log".to_string(), "version".to_string()]),
    );
    table
}

fn loader(root: &str) -> ModuleLoader {
    let sandbox = Sandbox::new(NeutralPath::new(root).unwrap());
    ModuleLoader::new(sandbox, Options { enable_imports: true }, builtins())
}

fn file(path: &str) -> ModuleSpecifier {
    ModuleSpecifier::File(path.to_string())
}

/// A script runtime that counts what it is asked to do.
struct Runtime {
    reads: Vec<String>,
    compiles: Vec<String>,
    next_handle: u64,
}

impl Runtime {
    fn new() -> Runtime {
        Runtime { reads: Vec::new(), compiles: Vec::new(), next_handle: 1 }
    }

    fn compile(&mut self, origin: &str) -> u64 {
        self.compiles.push(origin.to_string());
        let handle = self.next_handle;
        self.next_handle += 1;
        handle
    }

    /// Carries out a plan as the application does, and tells the loader.
    fn load(&mut self, loader: &mut ModuleLoader, specifier: &ModuleSpecifier) -> u64 {
        match loader.resolve_module(specifier).unwrap() {
            ModulePlan::Cached(handle) => handle,
            ModulePlan::ReadFile { path, origin } => {
                self.reads.push(path);
                let handle = self.compile(&origin);
                loader.module_compiled(specifier, handle);
                handle
            }
            ModulePlan::CompileScript { origin, .. } | ModulePlan::CompileNative { origin, .. } => {
                let handle = self.compile(&origin);
                loader.module_compiled(specifier, handle);
                handle
            }
        }
    }
}

#[test]
fn builtin_specifiers_pass_through() {
    let mut l = loader(".");
    let found = l.resolve_module_specifier(&rt(), &file("a.zm")).unwrap();
    assert_eq!(found, ModuleSpecifier::Builtin("rt".to_string()));
    let found = l.resolve_module_specifier(&syscall(), &ModuleSpecifier::Memory("m".into()));
    assert_eq!(found.unwrap(), ModuleSpecifier::Builtin("syscall".to_string()));
    assert!(l.imports_of(&file("a.zm")).is_empty());
}

#[test]
fn memory_modules_are_not_supported() {
    let mut l = loader(".");
    let wanted = ModuleSpecifier::Memory("m".to_string());
    match l.resolve_module_specifier(&wanted, &file("a.zm")) {
        Err(ModuleLoadError::NotSupported { referer, specifier }) => {
            assert_eq!(referer, file("a.zm"));
            assert_eq!(specifier, wanted);
        }
        other => panic!("{:?}", other),
    }
}

#[test]
fn file_import_needs_a_file_referrer() {
    let mut l = loader(".");
    for referrer in [
        rt(),
        ModuleSpecifier::ImportMap("x".to_string()),
        ModuleSpecifier::Memory("x".to_string()),
    ] {
        match l.resolve_module_specifier(&file("x.zm"), &referrer) {
            Err(ModuleLoadError::NotSupported { referer, specifier }) => {
                assert_eq!(referer, referrer);
                assert_eq!(specifier, file("x.zm"));
            }
            other => panic!("{:?}", other),
        }
    }
}

#[test]
fn unregistered_alias_is_not_found() {
    let mut l = loader(".");
    let wanted = ModuleSpecifier::ImportMap("nope".to_string());
    match l.resolve_module_specifier(&wanted, &file("a.zm")) {
        Err(ModuleLoadError::NotFound { referer, specifier }) => {
            assert_eq!(referer, file("a.zm"));
            assert_eq!(specifier, wanted);
        }
        other => panic!("{:?}", other),
    }
}

#[test]
fn registered_alias_leads_to_its_target() {
    let mut l = loader(".");
    l.register_import("lib".to_string(), file("vendor/lib.zm"));
    l.register_import("core".to_string(), rt());
    let wanted = ModuleSpecifier::ImportMap("lib".to_string());
    assert_eq!(l.resolve_module_specifier(&wanted, &rt()).unwrap(), file("vendor/lib.zm"));
    let wanted = ModuleSpecifier::ImportMap("core".to_string());
    assert_eq!(l.resolve_module_specifier(&wanted, &rt()).unwrap(), rt());
    l.register_import("lib".to_string(), file("other.zm"));
    let wanted = ModuleSpecifier::ImportMap("lib".to_string());
    assert_eq!(l.resolve_module_specifier(&wanted, &rt()).unwrap(), file("other.zm"));
}

#[test]
fn file_import_is_resolved_in_the_directory_of_the_referrer() {
    let mut l = loader(".");
    let found = l.resolve_module_specifier(&file("./util.zm"), &file("src/entry.zm")).unwrap();
    assert_eq!(found, file("src/util.zm"));
    let found = l.resolve_module_specifier(&file("../lib/a.zm"), &file("src/entry.zm")).unwrap();
    assert_eq!(found, file("lib/a.zm"));
    assert_eq!(
        l.imports_of(&file("src/entry.zm")),
        vec![file("src/util.zm"), file("lib/a.zm")]
    );
    assert!(l.imports_of(&file("src/util.zm")).is_empty());
}

#[test]
fn file_import_may_not_leave_the_root() {
    let mut l = loader("proj");
    match l.resolve_module_specifier(&file("../../etc/passwd"), &file("proj/src/a.zm")) {
        Err(ModuleLoadError::SandboxError(SandboxError::Escape(path))) => {
            assert_eq!(path.as_str(), "etc/passwd");
        }
        other => panic!("{:?}", other),
    }
    assert!(l.imports_of(&file("proj/src/a.zm")).is_empty());
    let found = l.resolve_module_specifier(&file("../b.zm"), &file("proj/src/a.zm")).unwrap();
    assert_eq!(found, file("proj/b.zm"));
}

#[test]
fn file_import_with_a_bad_path_is_a_path_error() {
    let mut l = loader(".");
    assert!(matches!(
        l.resolve_module_specifier(&file("/abs.zm"), &file("a.zm")),
        Err(ModuleLoadError::PathError(PathError::PathIsAbsolute()))
    ));
    assert!(matches!(
        l.resolve_module_specifier(&file("a?.zm"), &file("a.zm")),
        Err(ModuleLoadError::PathError(PathError::InvalidCharacter("?")))
    ));
    assert!(matches!(
        l.resolve_module_specifier(&file("b.zm"), &file("/abs/a.zm")),
        Err(ModuleLoadError::PathError(PathError::PathIsAbsolute()))
    ));
    assert!(matches!(
        l.resolve_module_specifier(&file(""), &file("a.zm")),
        Err(ModuleLoadError::PathError(PathError::EmptyPath))
    ));
}

#[test]
fn plans_say_where_the_code_comes_from() {
    let l = loader(".");
    match l.resolve_module(&file("a/b.zm")).unwrap() {
        ModulePlan::ReadFile { path, origin } => {
            assert_eq!(path, "a/b.zm");
            assert_eq!(origin, "a/b.zm");
        }
        other => panic!("{:?}", other),
    }
    match l.resolve_module(&rt()).unwrap() {
        ModulePlan::CompileScript { source, origin } => {
            assert_eq!(source, "export const x = 1;");
            assert_eq!(origin, "builtin:rt");
        }
        other => panic!("{:?}", other),
    }
    match l.resolve_module(&syscall()).unwrap() {
        ModulePlan::CompileNative { exports, origin } => {
            assert_eq!(exports, vec!["log".to_string(), "version".to_string()]);
            assert_eq!(origin, "builtin:syscall");
        }
        other => panic!("{:?}", other),
    }
}

#[test]
fn unknown_builtin_and_uncompilable_kinds_are_errors() {
    let l = loader(".");
    match l.resolve_module(&ModuleSpecifier::Builtin("nope".to_string())) {
        Err(ModuleLoadError::UnknownBuiltinModuleSpecifier(name)) => assert_eq!(name, "nope"),
        other => panic!("{:?}", other),
    }
    for specifier in [
        ModuleSpecifier::Memory("m".to_string()),
        ModuleSpecifier::ImportMap("a".to_string()),
    ] {
        match l.resolve_module(&specifier) {
            Err(ModuleLoadError::UnknownModuleSpecifier(s)) => assert_eq!(s, specifier),
            other => panic!("{:?}", other),
        }
    }
}

#[test]
fn memory_module_in_the_cache_is_handed_out() {
    let mut l = loader(".");
    let memory = ModuleSpecifier::Memory("seed".to_string());
    l.module_compiled(&memory, 42);
    assert!(matches!(l.resolve_module(&memory), Ok(ModulePlan::Cached(42))));
    assert_eq!(l.specifier_of(42), Some(&memory));
    assert_eq!(l.specifier_of(43), None);
}

#[test]
fn loading_twice_reads_and_compiles_once() {
    let mut l = loader(".");
    let mut runtime = Runtime::new();
    let entry = file("src/entry.zm");
    let wanted = file("./util.zm");
    let first = l.resolve_module_specifier(&wanted, &entry).unwrap();
    let one = runtime.load(&mut l, &first);
    let second = l.resolve_module_specifier(&wanted, &entry).unwrap();
    let two = runtime.load(&mut l, &second);
    assert_eq!(first, second);
    assert_eq!(one, two);
    assert_eq!(runtime.reads, vec!["src/util.zm".to_string()]);
    assert_eq!(runtime.compiles, vec!["src/util.zm".to_string()]);
}

#[test]
fn failed_load_leaves_the_cache_as_it_was() {
    let mut l = loader(".");
    let module = file("a.zm");
    match l.module_loaded(&module, LoadOutcome::ReadFailed("no such file".to_string())) {
        Err(ModuleLoadError::IoError(message)) => assert_eq!(message, "no such file"),
        other => panic!("{:?}", other),
    }
    match l.module_loaded(&module, LoadOutcome::CompileFailed) {
        Err(ModuleLoadError::V8CompileError(failed)) => assert_eq!(failed, module),
        other => panic!("{:?}", other),
    }
    assert!(matches!(l.resolve_module(&module), Ok(ModulePlan::ReadFile { .. })));
    assert!(matches!(l.module_loaded(&module, LoadOutcome::Compiled(3)), Ok(3)));
    assert!(matches!(l.resolve_module(&module), Ok(ModulePlan::Cached(3))));
    assert_eq!(l.specifier_of(3), Some(&module));
}

#[test]
fn cache_tells_a_file_from_an_alias_of_the_same_text() {
    let mut l = loader(".");
    l.module_compiled(&file("@x"), 1);
    assert!(matches!(l.resolve_module(&file("@x")), Ok(ModulePlan::Cached(1))));
    assert!(matches!(
        l.resolve_module(&ModuleSpecifier::ImportMap("x".to_string())),
        Err(ModuleLoadError::UnknownModuleSpecifier(_))
    ));
}

#[test]
fn entry_imports_util_end_to_end() {
    let mut l = loader(".");
    let mut runtime = Runtime::new();
    let entry = file("entry.zm");
    let entry_handle = runtime.load(&mut l, &entry);
    // The runtime instantiates the entry and asks for its static import,
    // twice over, as a second import statement of the same module would.
    let mut seen = Vec::new();
    for _ in 0..2 {
        let (found, plan) = l.resolve_module_hook(entry_handle, "./util.zm").unwrap();
        let handle = match plan {
            ModulePlan::Cached(handle) => handle,
            ModulePlan::ReadFile { path, origin } => {
                runtime.reads.push(path);
                let handle = runtime.compile(&origin);
                l.module_compiled(&found, handle);
                handle
            }
            other => panic!("{:?}", other),
        };
        seen.push((found, handle));
    }
    assert_eq!(seen[0], seen[1]);
    assert_eq!(seen[0].0, file("util.zm"));
    assert_eq!(runtime.compiles, vec!["entry.zm".to_string(), "util.zm".to_string()]);
    assert_eq!(runtime.reads, vec!["entry.zm".to_string(), "util.zm".to_string()]);
    assert_eq!(l.imports_of(&entry), vec![file("util.zm"), file("util.zm")]);
    assert_eq!(l.specifier_of(seen[0].1), Some(&file("util.zm")));
}

#[test]
fn static_import_cycle_sees_the_handle_in_the_cache() {
    let mut l = loader(".");
    let mut runtime = Runtime::new();
    let a = runtime.load(&mut l, &file("a.zm"));
    let (found_b, _) = l.resolve_module_hook(a, "./b.zm").unwrap();
    let b = runtime.load(&mut l, &found_b);
    let (found_a, plan) = l.resolve_module_hook(b, "./a.zm").unwrap();
    assert_eq!(found_a, file("a.zm"));
    assert!(matches!(plan, ModulePlan::Cached(handle) if handle == a));
    assert_eq!(runtime.compiles.len(), 2);
}

#[test]
fn hook_gives_nothing_for_an_unknown_referrer_or_a_failed_import() {
    let mut l = loader(".");
    assert!(l.resolve_module_hook(7, "./a.zm").is_none());
    l.module_compiled(&rt(), 7);
    assert!(l.resolve_module_hook(7, "./a.zm").is_none());
    assert!(l.resolve_module_hook(7, "builtin:nope").is_none());
    assert!(l.resolve_module_hook(7, "memory:m").is_none());
    let (found, plan) = l.resolve_module_hook(7, "builtin:syscall").unwrap();
    assert_eq!(found, syscall());
    assert!(matches!(plan, ModulePlan::CompileNative { .. }));
}

#[test]
fn dynamic_import_reads_the_referrer_from_the_resource_name() {
    let mut l = loader(".");
    let (found, plan) = l.load_module_async_hook("src/a.zm", "./b.zm").unwrap();
    assert_eq!(found, file("src/b.zm"));
    assert!(matches!(plan, ModulePlan::ReadFile { .. }));
    assert_eq!(l.imports_of(&file("src/a.zm")), vec![file("src/b.zm")]);
    assert!(l.load_module_async_hook("builtin:rt", "./b.zm").is_none());
    assert!(l.load_module_async_hook("src/a.zm", "../../b.zm").is_none());
    let (found, _) = l.load_module_async_hook("builtin:rt", "builtin:syscall").unwrap();
    assert_eq!(found, syscall());
}

#[test]
fn options_are_kept() {
    let sandbox = Sandbox::new(NeutralPath::current_dir());
    let l = ModuleLoader::new(sandbox, Options { enable_imports: false }, BuiltinRegistry::new());
    assert_eq!(*l.options(), Options { enable_imports: false });
}

#[test]
fn lifecycle_of_a_fresh_module() {
    let step = ModuleLoader::instantiate_and_evaluate_module;
    assert_eq!(step(LifecycleEvent::Begin, ModuleStatus::Uninstantiated), LifecycleStep::Instantiate);
    assert_eq!(
        ModuleStatus::Uninstantiated.during(LifecycleStep::Instantiate),
        ModuleStatus::Instantiating
    );
    assert_eq!(ModuleStatus::Instantiating.after(true), ModuleStatus::Instantiated);
    assert_eq!(
        step(LifecycleEvent::Instantiated(true), ModuleStatus::Instantiated),
        LifecycleStep::Evaluate
    );
    assert_eq!(
        ModuleStatus::Instantiated.during(LifecycleStep::Evaluate),
        ModuleStatus::Evaluating
    );
    assert_eq!(ModuleStatus::Evaluating.after(true), ModuleStatus::Evaluated);
    assert_eq!(
        step(LifecycleEvent::Evaluated(true), ModuleStatus::Evaluated),
        LifecycleStep::UseValue
    );
    assert_eq!(step(LifecycleEvent::Begin, ModuleStatus::Evaluated), LifecycleStep::UseNamespace);
    assert_eq!(step(LifecycleEvent::Begin, ModuleStatus::Instantiated), LifecycleStep::Evaluate);
}

#[test]
fn lifecycle_failures_are_final() {
    let step = ModuleLoader::instantiate_and_evaluate_module;
    assert_eq!(ModuleStatus::Instantiating.after(false), ModuleStatus::Errored);
    assert_eq!(ModuleStatus::Evaluating.after(false), ModuleStatus::Errored);
    assert_eq!(
        step(LifecycleEvent::Instantiated(false), ModuleStatus::Uninstantiated),
        LifecycleStep::Fail
    );
    assert_eq!(step(LifecycleEvent::Evaluated(false), ModuleStatus::Errored), LifecycleStep::Fail);
    assert_eq!(step(LifecycleEvent::Begin, ModuleStatus::Errored), LifecycleStep::Fail);
    assert_eq!(step(LifecycleEvent::Begin, ModuleStatus::Instantiating), LifecycleStep::Fail);
    assert_eq!(step(LifecycleEvent::Begin, ModuleStatus::Evaluating), LifecycleStep::Fail);
    for status in [ModuleStatus::Errored, ModuleStatus::Evaluated] {
        assert_eq!(status.during(LifecycleStep::Instantiate), status);
        assert_eq!(status.during(LifecycleStep::Evaluate), status);
        assert_eq!(status.after(true), status);
        assert_eq!(status.after(false), status);
    }
}

#[test]
fn execute_module_names_the_module_that_failed() {
    let module = file("a.zm");
    assert!(matches!(
        ModuleLoader::execute_module(&module, LifecycleEvent::Begin, ModuleStatus::Uninstantiated),
        Ok(LifecycleStep::Instantiate)
    ));
    assert!(matches!(
        ModuleLoader::execute_module(&module, LifecycleEvent::Begin, ModuleStatus::Evaluated),
        Ok(LifecycleStep::UseNamespace)
    ));
    match ModuleLoader::execute_module(&module, LifecycleEvent::Begin, ModuleStatus::Errored) {
        Err(ModuleLoadError::V8InstaniateAndEvaluateError(failed)) => assert_eq!(failed, module),
        other => panic!("{:?}", other),
    }
    match ModuleLoader::execute_module(
        &module,
        LifecycleEvent::Evaluated(false),
        ModuleStatus::Evaluating,
    ) {
        Err(ModuleLoadError::V8InstaniateAndEvaluateError(failed)) => assert_eq!(failed, module),
        other => panic!("{:?}", other),
    }
}

#[test]
fn builtin_registry_keeps_the_first_source_of_a_name() {
    let mut table = BuiltinRegistry::new();
    assert!(table.lookup("rt").is_none());
    table.register("rt".to_string(), BuiltinSource::Script("one".to_string()));
    table.register("rt".to_string(), BuiltinSource::Script("two".to_string()));
    match table.lookup("rt") {
        Some(BuiltinSource::Script(text)) => assert_eq!(text, "one"),
        other => panic!("{:?}", other),
    }
    assert!(table.lookup("r").is_none());
}

#[test]
fn sandbox_accepts_what_lies_in_the_root() {
    let sandbox = Sandbox::new(NeutralPath::new("proj").unwrap());
    assert_eq!(sandbox.root().as_str(), "proj");
    let dir = NeutralPath::new("proj/src").unwrap();
    let inside = sandbox.get_path_safe(&dir, &NeutralPath::new("../lib/a.zm").unwrap()).unwrap();
    assert_eq!(inside.as_str(), "proj/lib/a.zm");
    match sandbox.get_path_safe(&dir, &NeutralPath::new("../../other").unwrap()) {
        Err(SandboxError::Escape(path)) => assert_eq!(path.as_str(), "other"),
        other => panic!("{:?}", other),
    }
    assert!(sandbox.get_path_safe(&dir, &NeutralPath::new("../..").unwrap()).is_err());
}
