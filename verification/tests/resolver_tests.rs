use zmake_lib::module_specifier::ModuleSpecifier;
use zmake_lib::project_resolver::{ProjectResolveError, ProjectResolver, ProjectStep};

#[test]
fn missing_file_and_non_file_are_errors() {
    let mut r = ProjectResolver::new();
    match r.resolve_project("/p/a.zm", false, false) {
        Err(ProjectResolveError::FileNotExists(path)) => assert_eq!(path, "/p/a.zm"),
        other => panic!("{:?}", other),
    }
    match r.resolve_project("/p/dir", true, false) {
        Err(ProjectResolveError::NotAFile(path)) => assert_eq!(path, "/p/dir"),
        other => panic!("{:?}", other),
    }
    assert!(matches!(r.resolve_project("/p/a.zm", true, true), Ok(ProjectStep::Execute(_))));
}

#[test]
fn new_project_is_to_be_run() {
    let mut r = ProjectResolver::new();
    match r.resolve_project("/p/a.zm", true, true) {
        Ok(ProjectStep::Execute(module)) => {
            assert_eq!(module, ModuleSpecifier::File("/p/a.zm".to_string()))
        }
        other => panic!("{:?}", other),
    }
}

#[test]
fn circular_project_import_is_reported() {
    let mut r = ProjectResolver::new();
    assert!(matches!(r.resolve_project("/p/a.zm", true, true), Ok(ProjectStep::Execute(_))));
    assert!(matches!(r.resolve_project("/p/b.zm", true, true), Ok(ProjectStep::Execute(_))));
    match r.resolve_project("/p/a.zm", true, true) {
        Err(ProjectResolveError::CircularDependency(path)) => assert_eq!(path, "/p/a.zm"),
        other => panic!("{:?}", other),
    }
    match r.resolve_project("/p/a.zm", true, true) {
        Err(ProjectResolveError::CircularDependency(path)) => assert_eq!(path, "/p/a.zm"),
        other => panic!("{:?}", other),
    }
}

#[test]
fn resolved_project_is_not_run_again() {
    let mut r = ProjectResolver::new();
    assert!(matches!(r.resolve_project("/p/a.zm", true, true), Ok(ProjectStep::Execute(_))));
    assert_eq!(r.result_of("/p/a.zm"), None);
    assert!(r.project_executed("/p/a.zm", Ok(9)).is_ok());
    assert_eq!(r.result_of("/p/a.zm"), Some(9));
    assert!(matches!(r.resolve_project("/p/a.zm", true, true), Ok(ProjectStep::AlreadyResolved)));
    assert!(matches!(r.resolve_project("/p/a.zm", true, true), Ok(ProjectStep::AlreadyResolved)));
    assert_eq!(r.result_of("/p/a.zm"), Some(9));
}

#[test]
fn failed_project_is_run_again() {
    let mut r = ProjectResolver::new();
    assert!(matches!(r.resolve_project("/p/a.zm", true, true), Ok(ProjectStep::Execute(_))));
    let failure = ProjectResolveError::IOError("disk".to_string());
    match r.project_executed("/p/a.zm", Err(failure)) {
        Err(ProjectResolveError::IOError(message)) => assert_eq!(message, "disk"),
        other => panic!("{:?}", other),
    }
    assert_eq!(r.result_of("/p/a.zm"), None);
    assert!(matches!(r.resolve_project("/p/a.zm", true, true), Ok(ProjectStep::Execute(_))));
}

#[test]
fn diamond_import_runs_the_shared_project_once() {
    let mut r = ProjectResolver::new();
    let mut runs = 0;
    for importer in ["/p/left.zm", "/p/right.zm"] {
        assert!(matches!(r.resolve_project(importer, true, true), Ok(ProjectStep::Execute(_))));
        match r.resolve_project("/p/shared.zm", true, true).unwrap() {
            ProjectStep::Execute(_) => {
                runs += 1;
                r.project_executed("/p/shared.zm", Ok(1)).unwrap();
            }
            ProjectStep::AlreadyResolved => {}
        }
        r.project_executed(importer, Ok(2)).unwrap();
    }
    assert_eq!(runs, 1);
}

/// Resolves a project as the application does. The run of a project
/// resolves the projects that it imports, in order, and ends with the
/// first error among them.
fn resolve(
    r: &mut ProjectResolver,
    path: &str,
    imports: &[(&str, &[&str])],
    depth: usize,
    deepest: &mut usize,
) -> Result<(), ProjectResolveError> {
    *deepest = (*deepest).max(depth);
    match r.resolve_project(path, true, true)? {
        ProjectStep::AlreadyResolved => Ok(()),
        ProjectStep::Execute(_) => {
            let mut outcome = Ok(7);
            let none: &[&str] = &[];
            let imported = imports.iter().find(|(from, _)| *from == path).map_or(none, |e| e.1);
            for import in imported {
                if let Err(e) = resolve(r, import, imports, depth + 1, deepest) {
                    outcome = Err(e);
                    break;
                }
            }
            r.project_executed(path, outcome)
        }
    }
}

#[test]
fn circular_import_fails_the_outermost_call() {
    let imports: &[(&str, &[&str])] = &[("/p/a.zm", &["/p/b.zm"]), ("/p/b.zm", &["/p/a.zm"])];
    let mut r = ProjectResolver::new();
    let mut deepest = 0;
    match resolve(&mut r, "/p/a.zm", imports, 0, &mut deepest) {
        Err(ProjectResolveError::CircularDependency(path)) => assert_eq!(path, "/p/a.zm"),
        other => panic!("{:?}", other),
    }
    assert_eq!(deepest, 2);
    assert_eq!(r.result_of("/p/a.zm"), None);
    assert_eq!(r.result_of("/p/b.zm"), None);
    // Nothing is left marked: both can be tried again.
    assert!(matches!(r.resolve_project("/p/b.zm", true, true), Ok(ProjectStep::Execute(_))));
}

#[test]
fn project_without_a_circle_resolves_with_its_imports() {
    let imports: &[(&str, &[&str])] =
        &[("/p/a.zm", &["/p/b.zm", "/p/c.zm"]), ("/p/b.zm", &["/p/c.zm"])];
    let mut r = ProjectResolver::new();
    let mut deepest = 0;
    assert!(resolve(&mut r, "/p/a.zm", imports, 0, &mut deepest).is_ok());
    for path in ["/p/a.zm", "/p/b.zm", "/p/c.zm"] {
        assert_eq!(r.result_of(path), Some(7));
    }
}
