use zmake_lib::path::model::PathError;
use zmake_lib::path::NeutralPath;

fn path(text: &str) -> NeutralPath {
    NeutralPath::new(text).unwrap()
}

#[test]
fn new_rejects_absolute_and_empty() {
    assert!(matches!(NeutralPath::new("/a"), Err(PathError::PathIsAbsolute())));
    assert!(matches!(NeutralPath::new("\\a"), Err(PathError::PathIsAbsolute())));
    assert!(matches!(NeutralPath::new("C:\\a"), Err(PathError::PathIsAbsolute())));
    assert!(matches!(NeutralPath::new(""), Err(PathError::EmptyPath)));
}

#[test]
fn only_one_letter_and_a_colon_is_a_drive() {
    assert!(matches!(NeutralPath::new("a:b"), Err(PathError::PathIsAbsolute())));
    assert!(matches!(NeutralPath::new("Z:"), Err(PathError::PathIsAbsolute())));
    assert!(matches!(NeutralPath::new("c:/x"), Err(PathError::PathIsAbsolute())));
    assert!(matches!(NeutralPath::new("ab:c"), Err(PathError::InvalidCharacter(":"))));
    assert!(matches!(NeutralPath::new("abc:def"), Err(PathError::InvalidCharacter(":"))));
    assert!(matches!(NeutralPath::new(":"), Err(PathError::InvalidCharacter(":"))));
    assert!(matches!(NeutralPath::new(":a"), Err(PathError::InvalidCharacter(":"))));
    assert!(matches!(NeutralPath::new("a/b:c"), Err(PathError::InvalidCharacter(":"))));
    assert!(matches!(NeutralPath::new("1:"), Err(PathError::InvalidCharacter(":"))));
    assert!(matches!(NeutralPath::new("\u{e9}:x"), Err(PathError::InvalidCharacter(":"))));
}

#[test]
fn new_normalizes() {
    assert_eq!(path("a/b").as_str(), "a/b");
    assert_eq!(path("a//b/./c").as_str(), "a/b/c");
    assert_eq!(path("a\\b").as_str(), "a/b");
    assert_eq!(path("a/../b").as_str(), "b");
    assert_eq!(path("../a").as_str(), "../a");
    assert_eq!(path("a/../..").as_str(), "..");
    assert_eq!(path(".").as_str(), ".");
    assert_eq!(path("./").as_str(), ".");
    assert_eq!(path("a/..").as_str(), ".");
    assert_eq!(path("../../a/../b").as_str(), "../../b");
    assert_eq!(path("a/b/").as_str(), "a/b");
    assert_eq!(path("..foo/bar").as_str(), "..foo/bar");
}

#[test]
fn new_rejects_forbidden_characters() {
    assert!(matches!(NeutralPath::new("a\0b"), Err(PathError::InvalidCharacter("\\0"))));
    assert!(matches!(NeutralPath::new("a<b"), Err(PathError::InvalidCharacter("<"))));
    assert!(matches!(NeutralPath::new("a>b"), Err(PathError::InvalidCharacter(">"))));
    assert!(matches!(NeutralPath::new("x/a\"b"), Err(PathError::InvalidCharacter("\""))));
    assert!(matches!(NeutralPath::new("a|b"), Err(PathError::InvalidCharacter("|"))));
    assert!(matches!(NeutralPath::new("a?b"), Err(PathError::InvalidCharacter("?"))));
    assert!(matches!(NeutralPath::new("a*b"), Err(PathError::InvalidCharacter("*"))));
    assert!(matches!(NeutralPath::new("a'b"), Err(PathError::InvalidCharacter("'"))));
}

#[test]
fn new_rejects_trailing_space() {
    assert!(matches!(
        NeutralPath::new("a /b"),
        Err(PathError::InvalidFormat("space ` ` at the end"))
    ));
    assert_eq!(path("a b").as_str(), "a b");
}

#[test]
fn new_rejects_reserved_names() {
    for name in [
        "CON", "prn", "Aux", "NUL", "nul.txt", "NUL.tar.gz", "COM1", "com9", "LPT1", "lpt9",
        "COM\u{b9}", "lpt\u{b3}", "a/nul/b",
    ] {
        assert!(
            matches!(
                NeutralPath::new(name),
                Err(PathError::InvalidCharacter(
                    "reserved name from windows(e.g. NUL COM or LPT\u{b9}"
                ))
            ),
            "{}",
            name
        );
    }
    for name in ["COM0", "CONS", "NU", "LPT10", "xnul", "com", "a.nul"] {
        assert!(NeutralPath::new(name).is_ok(), "{}", name);
    }
}

#[test]
fn new_reports_the_first_violation() {
    assert!(matches!(NeutralPath::new("a/b?/c<"), Err(PathError::InvalidCharacter("?"))));
    assert!(matches!(NeutralPath::new("\0<"), Err(PathError::InvalidCharacter("\\0"))));
    assert!(matches!(NeutralPath::new("a'< "), Err(PathError::InvalidCharacter("<"))));
    assert!(matches!(NeutralPath::new("nul' "), Err(PathError::InvalidFormat(_))));
    assert!(matches!(
        NeutralPath::new("nul.'"),
        Err(PathError::InvalidCharacter("reserved name from windows(e.g. NUL COM or LPT\u{b9}"))
    ));
    assert!(matches!(NeutralPath::new("nul'"), Err(PathError::InvalidCharacter("'"))));
}

#[test]
fn new_checks_components_that_dot_dot_cancels() {
    assert!(matches!(NeutralPath::new("a?/.."), Err(PathError::InvalidCharacter("?"))));
}

#[test]
fn normalize_is_idempotent_on_examples() {
    for text in ["a/b", "../a", ".", "a/../../b", "x\\y/./z"] {
        let once = path(text).normalize();
        let twice = once.normalize();
        assert_eq!(once, twice);
        assert_eq!(once, path(text));
    }
}

#[test]
fn current_dir_and_default_are_dot() {
    assert_eq!(NeutralPath::current_dir().as_str(), ".");
    assert_eq!(NeutralPath::default().as_str(), ".");
    assert_eq!(NeutralPath::current_dir(), path("."));
}

#[test]
fn join_concatenates_and_renormalizes() {
    assert_eq!(path("a").join("b").unwrap().as_str(), "a/b");
    assert_eq!(path("a").join("../b").unwrap().as_str(), "b");
    assert_eq!(path("a/b").join("../../..").unwrap().as_str(), "..");
    assert_eq!(path(".").join("a").unwrap().as_str(), "a");
    assert_eq!(path("a").join("").unwrap().as_str(), "a");
    assert_eq!(path("a").join("b\\c").unwrap().as_str(), "a/b/c");
}

#[test]
fn join_rejects_absolute_and_invalid_parts() {
    assert!(matches!(path("a").join("/b"), Err(PathError::PathIsAbsolute())));
    assert!(matches!(path("a").join("C:b"), Err(PathError::PathIsAbsolute())));
    assert!(matches!(path("a").join("ab:c"), Err(PathError::InvalidCharacter(":"))));
    assert!(matches!(path("a").join(":"), Err(PathError::InvalidCharacter(":"))));
    assert!(matches!(
        path("a").join_all(&["b", "cd:e"]),
        Err(PathError::InvalidCharacter(":"))
    ));
    assert!(matches!(path("a").join("b/c:d"), Err(PathError::InvalidCharacter(":"))));
    assert!(matches!(path("a").join("b*"), Err(PathError::InvalidCharacter("*"))));
}

#[test]
fn join_all_joins_in_order() {
    assert_eq!(path("a").join_all(&["b", "c"]).unwrap().as_str(), "a/b/c");
    assert_eq!(path("a").join_all(&["b", "../c"]).unwrap().as_str(), "a/c");
    assert_eq!(path("a").join_all(&[]).unwrap().as_str(), "a");
    assert!(matches!(path("a").join_all(&["b", "/c"]), Err(PathError::PathIsAbsolute())));
    assert!(matches!(path("a").join_all(&["b?", "/c"]), Err(PathError::PathIsAbsolute())));
}

#[test]
fn parent_climbs_one_level() {
    assert_eq!(path("a/b").parent().as_str(), "a");
    assert_eq!(path("a").parent().as_str(), ".");
    assert_eq!(path(".").parent().as_str(), "..");
    assert_eq!(path("..").parent().as_str(), "../..");
}

#[test]
fn filename_is_the_last_component() {
    assert_eq!(path("a/b.txt").filename(), Some("b.txt"));
    assert_eq!(path("b").filename(), Some("b"));
    assert_eq!(path(".").filename(), None);
    assert_eq!(path("..").filename(), None);
    assert_eq!(path("../..").filename(), None);
    assert_eq!(path("../a").filename(), Some("a"));
}

#[test]
fn extname_follows_the_last_dot() {
    assert_eq!(path("a/b.tar.gz").extname(), Some("gz"));
    assert_eq!(path("a/b").extname(), None);
    assert_eq!(path(".bashrc").extname(), Some("bashrc"));
    assert_eq!(path("a.").extname(), Some(""));
    assert_eq!(path("a.b/c").extname(), None);
    assert_eq!(path("..").extname(), None);
}

#[test]
fn relative_path_climbs_then_descends() {
    let rel = |from: &str, to: &str| {
        path(from).get_relative_path_to(&path(to)).unwrap().to_string()
    };
    assert_eq!(rel("a/b", "a/c"), "../c");
    assert_eq!(rel("a", "a/b/c"), "b/c");
    assert_eq!(rel("a/b", "a/b"), ".");
    assert_eq!(rel("a/b/c", "a"), "../..");
    assert_eq!(rel("a", "b"), "../b");
    assert_eq!(rel(".", "a"), "a");
    assert_eq!(rel("a", "."), "..");
    assert_eq!(rel(".", "."), ".");
    assert_eq!(rel("..", "../a"), "a");
}

#[test]
fn is_in_dir_follows_the_relative_path() {
    assert!(path("a/b").is_in_dir(&path("a")));
    assert!(path("a").is_in_dir(&path("a")));
    assert!(!path("a").is_in_dir(&path("a/b")));
    assert!(!path("b").is_in_dir(&path("a")));
    assert!(path("a").is_in_dir(&path(".")));
    assert!(!path("../a").is_in_dir(&path(".")));
    assert!(!path("a/..b").is_in_dir(&path("a")));
}

#[test]
fn joined_path_without_dot_dot_stays_in_root() {
    for root in ["proj", ".", "..", "a/b", "../x"] {
        for part in ["src/main.zm", "a", "./a//b", ".", "a.b/c"] {
            let root = path(root);
            let joined = root.join(part).unwrap();
            assert!(joined.is_in_dir(&root), "{:?} {:?}", root, part);
        }
    }
}

#[test]
fn climbing_out_of_the_root_is_seen() {
    let root = path("proj");
    let first = root.join("../x").unwrap();
    assert_eq!(first.as_str(), "x");
    let second = first.join("../y").unwrap();
    assert_eq!(second.as_str(), "y");
    assert!(!second.is_in_dir(&root));
    assert!(!first.is_in_dir(&root));
    let back = first.join("../proj").unwrap();
    assert!(back.is_in_dir(&root));
    for text in ["a", ".", "..", "a/b"] {
        assert!(!path(text).parent().is_in_dir(&path(text)));
    }
}

#[test]
fn paths_compare_by_text() {
    assert_eq!(path("a/./b"), path("a/b"));
    assert_ne!(path("a"), path("b"));
    assert_eq!(path("a/b").clone(), path("a/b"));
    assert_eq!(path("a/b").into_string(), "a/b");
}
