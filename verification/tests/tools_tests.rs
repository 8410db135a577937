use zmake_lib::cas::{missing_blobs, speaks_protocol, CasError, LocalCas};
use zmake_lib::digest::Digest;
use zmake_lib::file_finder::{path_extensions, FileFinder};
use zmake_lib::pattern::Pattern;
use zmake_lib::version_extractor::{
    choose_version, extract_from_string, split_words, Reading, ToolVersion,
};

fn strings(list: &[&str]) -> Vec<String> {
    list.iter().map(|s| s.to_string()).collect()
}

#[test]
fn words_stand_between_white_space() {
    assert_eq!(split_words("  gcc (GCC)\t13.2.0\n"), strings(&["gcc", "(GCC)", "13.2.0"]));
    assert_eq!(split_words(""), Vec::<String>::new());
    assert_eq!(split_words(" \u{a0}\u{3000} "), Vec::<String>::new());
    assert_eq!(split_words("a\u{2003}b\u{85}c"), strings(&["a", "b", "c"]));
    assert_eq!(split_words("one"), strings(&["one"]));
    assert_eq!(split_words("a\u{200b}b"), strings(&["a\u{200b}b"]));
}

#[test]
fn version_is_that_of_the_first_word_that_holds_one() {
    let v = extract_from_string("clang version 17.0.6 (tag 1.2.3)").unwrap();
    assert_eq!((v.major, v.minor, v.patch), (17, 0, 6));
    assert_eq!(v.pre, "");
    assert_eq!(v.build, "");
    let v = extract_from_string("tool 1.2.3-rc.1+build5").unwrap();
    assert_eq!((v.major, v.minor, v.patch), (1, 2, 3));
    assert_eq!(v.pre, "rc.1");
    assert_eq!(v.build, "build5");
}

#[test]
fn lenient_reading_is_used_where_the_strict_one_fails() {
    let v = extract_from_string("cmake version v3.28").unwrap();
    assert_eq!((v.major, v.minor, v.patch), (3, 28, 0));
    let v = extract_from_string("release 7").unwrap();
    assert_eq!((v.major, v.minor, v.patch), (7, 0, 0));
}

#[test]
fn text_without_a_version_gives_nothing() {
    assert!(extract_from_string("no version here").is_none());
    assert!(extract_from_string("").is_none());
    assert!(extract_from_string("   ").is_none());
}

#[test]
fn first_protocol_decides() {
    assert!(speaks_protocol(&vec![], 1));
    assert!(speaks_protocol(&vec![1, 2], 1));
    assert!(!speaks_protocol(&vec![2, 1], 1));
}

#[test]
fn missing_blobs_are_those_not_present() {
    let a = Digest::new(1, 1);
    let b = Digest::new(2, 2);
    let c = Digest::new(3, 3);
    assert_eq!(missing_blobs(&vec![a, b, c], &vec![true, false, false]), vec![b, c]);
    assert_eq!(missing_blobs(&vec![a, b, c], &vec![true, true, true]), vec![]);
    assert_eq!(missing_blobs(&vec![], &vec![]), vec![]);
}

#[test]
fn local_store_keeps_its_root_and_places_blobs_by_hash() {
    let store = LocalCas::new("/var/cas".to_string());
    assert_eq!(store.get_root(), "/var/cas");
    let place = LocalCas::blob_path(&Digest::new(0xab12cd00_00000000_00000000_000000ef, 1));
    assert_eq!(place.first, "ab");
    assert_eq!(place.second, "12");
    assert_eq!(place.rest, "cd000000000000000000000000ef");
    assert!(matches!(CasError::NotFound("x".to_string()), CasError::NotFound(_)));
}

#[test]
fn candidates_come_in_search_order() {
    let finder = FileFinder {
        paths: strings(&["/bin", "/usr/bin"]),
        prefixes: strings(&["lib"]),
        suffixes: strings(&[".exe", ".cmd"]),
    };
    let found: Vec<(String, String)> =
        finder.candidates("cc").into_iter().map(|c| (c.directory, c.file_name)).collect();
    let names = ["cc", "cc.exe", "cc.cmd", "libcc", "libcc.exe", "libcc.cmd"];
    let mut expected = Vec::new();
    for dir in ["/bin", "/usr/bin"] {
        for name in names {
            expected.push((dir.to_string(), name.to_string()));
        }
    }
    assert_eq!(found, expected);
}

#[test]
fn empty_finder_has_no_candidates() {
    assert!(FileFinder::new().candidates("cc").is_empty());
    assert!(FileFinder::default().search("cc", &vec![]).is_empty());
    assert!(FileFinder::new().search_first("cc", &vec![]).is_none());
    let bare = FileFinder { paths: strings(&["/bin"]), prefixes: vec![], suffixes: vec![] };
    let list = bare.candidates("cc");
    assert_eq!(list.len(), 1);
    assert_eq!(list[0].directory, "/bin");
    assert_eq!(list[0].file_name, "cc");
}

#[test]
fn search_keeps_the_candidates_that_were_found() {
    let finder = FileFinder {
        paths: strings(&["/a", "/b"]),
        prefixes: vec![],
        suffixes: strings(&[".exe"]),
    };
    let found = vec![false, true, false, true];
    let hits: Vec<(String, String)> =
        finder.search("cc", &found).into_iter().map(|c| (c.directory, c.file_name)).collect();
    assert_eq!(
        hits,
        vec![("/a".to_string(), "cc.exe".to_string()), ("/b".to_string(), "cc.exe".to_string())]
    );
    let first = finder.search_first("cc", &found).unwrap();
    assert_eq!((first.directory.as_str(), first.file_name.as_str()), ("/a", "cc.exe"));
    assert!(finder.search_first("cc", &vec![false; 4]).is_none());
}

#[test]
fn pattern_clone_keeps_the_lists() {
    let p = Pattern::new(strings(&["a"]), strings(&["b", "c"]));
    match p.clone() {
        Pattern::IncludesAndExcludes { includes, excludes } => {
            assert_eq!(includes, Some(strings(&["a"])));
            assert_eq!(excludes, Some(strings(&["b", "c"])));
        }
        other => panic!("{:?}", other),
    }
    assert!(matches!(Pattern::Includes(strings(&["x"])).clone(), Pattern::Includes(l) if l == strings(&["x"])));
}

fn version(major: u64) -> ToolVersion {
    ToolVersion { major, minor: 0, patch: 0, pre: String::new(), build: String::new() }
}

#[test]
fn first_reading_wins_and_strict_goes_before_lenient() {
    let none = || Reading { strict: None, lenient: None };
    let chosen = choose_version(&vec![
        none(),
        Reading { strict: None, lenient: Some(version(2)) },
        Reading { strict: Some(version(3)), lenient: Some(version(4)) },
    ]);
    assert_eq!(chosen.unwrap().major, 2);
    let chosen = choose_version(&vec![
        Reading { strict: Some(version(3)), lenient: Some(version(4)) },
        Reading { strict: Some(version(5)), lenient: None },
    ]);
    assert_eq!(chosen.unwrap().major, 3);
    assert!(choose_version(&vec![none(), none()]).is_none());
    assert!(choose_version(&vec![]).is_none());
}

#[test]
fn extensions_come_in_both_cases() {
    assert_eq!(
        path_extensions(".COM;.EXE;.bat"),
        strings(&[".COM", ".com", ".EXE", ".exe", ".bat"])
    );
    assert_eq!(path_extensions(""), strings(&[""]));
    assert_eq!(path_extensions(".Cmd;"), strings(&[".Cmd", ".cmd", ""]));
    assert_eq!(path_extensions(";;"), strings(&["", "", ""]));
    assert_eq!(path_extensions(".\u{c9}X"), strings(&[".\u{c9}X", ".\u{c9}x"]));
}
