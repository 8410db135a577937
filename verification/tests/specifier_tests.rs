use zmake_lib::module_specifier::{
    ModuleSpecifier, BUILTIN_MODULE_PREFIX, IMPORT_MAP_MODULE_PREFIX, MEMORY_MODULE_PREFIX,
};

#[test]
fn prefixes_are_as_documented() {
    assert_eq!(BUILTIN_MODULE_PREFIX, "builtin:");
    assert_eq!(MEMORY_MODULE_PREFIX, "memory:");
    assert_eq!(IMPORT_MAP_MODULE_PREFIX, "@");
}

#[test]
fn text_is_parsed_by_prefix() {
    assert_eq!(ModuleSpecifier::from("builtin:rt"), ModuleSpecifier::Builtin("rt".to_string()));
    assert_eq!(ModuleSpecifier::from("memory:m1"), ModuleSpecifier::Memory("m1".to_string()));
    assert_eq!(ModuleSpecifier::from("@foo"), ModuleSpecifier::ImportMap("foo".to_string()));
    assert_eq!(ModuleSpecifier::from("a/b.ts"), ModuleSpecifier::File("a/b.ts".to_string()));
    assert_eq!(ModuleSpecifier::from(""), ModuleSpecifier::File(String::new()));
    assert_eq!(ModuleSpecifier::from("builtin:"), ModuleSpecifier::Builtin(String::new()));
    assert_eq!(ModuleSpecifier::from("builtin"), ModuleSpecifier::File("builtin".to_string()));
    assert_eq!(
        ModuleSpecifier::from("builtin:memory:x"),
        ModuleSpecifier::Builtin("memory:x".to_string())
    );
}

#[test]
fn specifiers_are_encoded_with_their_prefix() {
    assert_eq!(ModuleSpecifier::Builtin("rt".to_string()).with_prefix(), "builtin:rt");
    assert_eq!(ModuleSpecifier::Memory("m".to_string()).with_prefix(), "memory:m");
    assert_eq!(ModuleSpecifier::ImportMap("foo".to_string()).with_prefix(), "@foo");
    assert_eq!(ModuleSpecifier::File("a/b.ts".to_string()).with_prefix(), "a/b.ts");
    assert_eq!(ModuleSpecifier::File("a/b.ts".to_string()).to_string(), "a/b.ts");
}

#[test]
fn parse_inverts_encode() {
    for specifier in [
        ModuleSpecifier::Builtin("rt".to_string()),
        ModuleSpecifier::ImportMap("foo".to_string()),
        ModuleSpecifier::File("a/b.ts".to_string()),
        ModuleSpecifier::Memory("scratch".to_string()),
        ModuleSpecifier::Builtin("@odd".to_string()),
    ] {
        assert_eq!(ModuleSpecifier::from(specifier.with_prefix().as_str()), specifier);
    }
}

#[test]
fn encode_inverts_parse() {
    for text in ["builtin:rt", "@foo", "a/b.ts", "memory:", "", "@", "x@y"] {
        assert_eq!(ModuleSpecifier::from(text).with_prefix(), text);
    }
}

#[test]
fn a_file_that_looks_like_an_alias_does_not_round_trip() {
    let file = ModuleSpecifier::File("@scope/pkg.ts".to_string());
    assert_eq!(
        ModuleSpecifier::from(file.with_prefix().as_str()),
        ModuleSpecifier::ImportMap("scope/pkg.ts".to_string())
    );
}

#[test]
fn table_keys_tell_kinds_apart() {
    let file = ModuleSpecifier::File("@x".to_string());
    let alias = ModuleSpecifier::ImportMap("x".to_string());
    assert_eq!(file.with_prefix(), alias.with_prefix());
    assert_ne!(file.key(), alias.key());
    assert_eq!(file.key(), "f@x");
    assert_eq!(alias.key(), "ix");
    assert_eq!(ModuleSpecifier::Builtin("rt".to_string()).key(), "brt");
    assert_eq!(ModuleSpecifier::Memory("rt".to_string()).key(), "mrt");
}

#[test]
fn clones_are_equal() {
    let s = ModuleSpecifier::File("a".to_string());
    assert_eq!(s.clone(), s);
    assert_ne!(s, ModuleSpecifier::Builtin("a".to_string()));
}
