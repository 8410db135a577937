use zmake_lib::access_control::{TransitiveLevel, Visibility};
use zmake_lib::digest::{Digest, DigestError};
use zmake_lib::engine::EngineMode;
use zmake_lib::fs::{FsItem, FsItemParts, VirtualFileError, VirtualFsItem};
use zmake_lib::path::model::PathError;
use zmake_lib::path::NeutralPath;
use zmake_lib::pattern::Pattern;

const ABC_SHA256: [u8; 32] = [
    0xba, 0x78, 0x16, 0xbf, 0x8f, 0x01, 0xcf, 0xea, 0x41, 0x41, 0x40, 0xde, 0x5d, 0xae, 0x22,
    0x23, 0xb0, 0x03, 0x61, 0xa3, 0x96, 0x17, 0x7a, 0x9c, 0xb4, 0x10, 0xff, 0x61, 0xf2, 0x00,
    0x15, 0xad,
];

#[test]
fn constructors_set_the_fields() {
    let d = Digest::new(7, 3);
    assert_eq!(d.fast_xxhash3_128, 7);
    assert_eq!(d.size_bytes, 3);
    assert_eq!(d.secure_sha256, None);
    let d = Digest::new_with_secure(7, 3, [1; 32]);
    assert_eq!(d.secure_sha256, Some([1; 32]));
}

#[test]
fn ensure_secure_hashes_the_content_once() {
    let mut d = Digest::new(1, 3);
    d.ensure_secure(b"abc");
    assert_eq!(d.secure_sha256, Some(ABC_SHA256));
    assert_eq!(d.fast_xxhash3_128, 1);
    assert_eq!(d.size_bytes, 3);
    d.ensure_secure(b"something else");
    assert_eq!(d.secure_sha256, Some(ABC_SHA256));
    let mut d = Digest::new(1, 0);
    d.fill_secure([2; 32]);
    d.fill_secure([3; 32]);
    assert_eq!(d.secure_sha256, Some([2; 32]));
}

#[test]
fn hex_forms() {
    let d = Digest::new(0x0123456789abcdef_0011223344556677, 3);
    assert_eq!(d.hex_fast_xxhash3_128(), "0123456789abcdef0011223344556677");
    assert_eq!(Digest::new(10, 0).hex_fast_xxhash3_128(), "0000000000000000000000000000000a");
    assert_eq!(d.hex_secure_sha256(), None);
    let d = Digest::new_with_secure(1, 3, ABC_SHA256);
    assert_eq!(
        d.hex_secure_sha256().unwrap(),
        "ba7816bf8f01cfea414140de5dae2223b00361a396177a9cb410ff61f20015ad"
    );
}

#[test]
fn same_content_prefers_the_secure_hash() {
    let plain = Digest::new(1, 3);
    let other = Digest::new(2, 3);
    assert!(plain.refers_to_same_content(&plain));
    assert!(!plain.refers_to_same_content(&other));
    assert!(!plain.refers_to_same_content(&Digest::new(1, 4)));
    let a = Digest::new_with_secure(1, 3, [1; 32]);
    let b = Digest::new_with_secure(2, 3, [1; 32]);
    let c = Digest::new_with_secure(1, 3, [2; 32]);
    assert!(a.refers_to_same_content(&b));
    assert!(!a.refers_to_same_content(&c));
    assert!(a.refers_to_same_content(&plain));
    assert!(plain.refers_to_same_content(&c));
}

#[test]
fn superset_needs_the_secure_hash_of_the_other() {
    let plain = Digest::new(1, 3);
    let secure = Digest::new_with_secure(1, 3, [1; 32]);
    assert!(secure.is_superset_of(&plain));
    assert!(!plain.is_superset_of(&secure));
    assert!(plain.is_superset_of(&plain));
    assert!(secure.is_superset_of(&secure));
    assert!(!secure.is_superset_of(&Digest::new(2, 3)));
}

#[test]
fn parts_round_trip() {
    let d = Digest::new_with_secure(0x0102, 9, ABC_SHA256);
    let (fast, secure, size) = d.into_parts();
    assert_eq!(fast, vec![0, 0, 0, 0, 0, 0, 0, 0, 0, 0, 0, 0, 0, 0, 1, 2]);
    assert_eq!(secure, Some(ABC_SHA256.to_vec()));
    assert_eq!(size, 9);
    let back = Digest::from_parts(&fast, secure.as_ref(), size).unwrap();
    assert_eq!(back, d);
    let plain = Digest::from_parts(&fast, None, 1).unwrap();
    assert_eq!(plain, Digest::new(0x0102, 1));
}

#[test]
fn parts_of_wrong_length_are_rejected() {
    assert!(matches!(
        Digest::from_parts(&vec![0; 15], None, 1),
        Err(DigestError::WrongLengthFastHash)
    ));
    assert!(matches!(
        Digest::from_parts(&vec![0; 15], Some(&vec![0; 31]), 1),
        Err(DigestError::WrongLengthFastHash)
    ));
    assert!(matches!(
        Digest::from_parts(&vec![0; 16], Some(&vec![0; 31]), 1),
        Err(DigestError::WrongLengthSecureHash)
    ));
}

#[test]
fn pattern_new_holds_both_lists() {
    match Pattern::new(vec!["*.c".to_string()], vec!["x.c".to_string()]) {
        Pattern::IncludesAndExcludes { includes, excludes } => {
            assert_eq!(includes, Some(vec!["*.c".to_string()]));
            assert_eq!(excludes, Some(vec!["x.c".to_string()]));
        }
        other => panic!("{:?}", other),
    }
}

#[test]
fn plain_enums_exist() {
    assert_ne!(EngineMode::Project, EngineMode::Rule);
    assert_ne!(TransitiveLevel::Interface, TransitiveLevel::Private);
    assert!(matches!(Visibility::Restricted(vec![]), Visibility::Restricted(_)));
}

fn path(text: &str) -> NeutralPath {
    NeutralPath::new(text).unwrap()
}

#[test]
fn fs_item_keeps_what_it_is_given() {
    let item = VirtualFsItem::new(path("a/b"), FsItem::File(Digest::new(1, 2)), true, false).unwrap();
    assert_eq!(item.get_relative_path().as_str(), "a/b");
    assert!(matches!(item.get_digest(), FsItem::File(d) if *d == Digest::new(1, 2)));
    assert!(item.is_executable());
    assert!(!item.is_readonly());
    let item = VirtualFsItem::new(path("d"), FsItem::EmptyDirectory, false, true).unwrap();
    assert!(matches!(item.get_digest(), FsItem::EmptyDirectory));
    assert!(item.is_readonly());
}

#[test]
fn link_below_its_own_path_is_refused() {
    assert!(matches!(
        VirtualFsItem::new(path("a/link"), FsItem::Symlink(path("x")), false, false),
        Err(VirtualFileError::TryAccessParentPath())
    ));
    let item =
        VirtualFsItem::new(path("a/link"), FsItem::Symlink(path("../x")), false, false).unwrap();
    assert!(matches!(item.get_digest(), FsItem::Symlink(target) if target.as_str() == "../x"));
}

#[test]
fn fs_item_from_parts() {
    let digest = FsItemParts::Digest { fast: vec![0; 16], secure: None, size: 4 };
    let item = VirtualFsItem::from_parts("a/./b", Some(digest), true, true).unwrap();
    assert_eq!(item.get_relative_path().as_str(), "a/b");
    assert!(matches!(item.get_digest(), FsItem::File(d) if *d == Digest::new(0, 4)));
    assert!(matches!(
        VirtualFsItem::from_parts("a", None, false, false),
        Err(VirtualFileError::EmptyPath())
    ));
    let bad = FsItemParts::Digest { fast: vec![0; 3], secure: None, size: 4 };
    assert!(matches!(
        VirtualFsItem::from_parts("/a", Some(bad), false, false),
        Err(VirtualFileError::WrongDigest(DigestError::WrongLengthFastHash))
    ));
    let bad = FsItemParts::Digest { fast: vec![0; 16], secure: Some(vec![0; 8]), size: 4 };
    assert!(matches!(
        VirtualFsItem::from_parts("a", Some(bad), false, false),
        Err(VirtualFileError::WrongDigest(DigestError::WrongLengthSecureHash))
    ));
    let bad = FsItemParts::Digest { fast: vec![0; 17], secure: Some(vec![0; 8]), size: 4 };
    assert!(matches!(
        VirtualFsItem::from_parts("a", Some(bad), false, false),
        Err(VirtualFileError::WrongDigest(DigestError::WrongLengthFastHash))
    ));
    let link = FsItemParts::SymlinkTarget("/abs".to_string());
    assert!(matches!(
        VirtualFsItem::from_parts("a?", Some(link), false, false),
        Err(VirtualFileError::PathError(PathError::PathIsAbsolute()))
    ));
    let link = FsItemParts::SymlinkTarget("../x".to_string());
    assert!(matches!(
        VirtualFsItem::from_parts("a?", Some(link), false, false),
        Err(VirtualFileError::PathError(PathError::InvalidCharacter("?")))
    ));
    let link = FsItemParts::SymlinkTarget("x".to_string());
    assert!(matches!(
        VirtualFsItem::from_parts("a", Some(link), false, false),
        Err(VirtualFileError::TryAccessParentPath())
    ));
    let item =
        VirtualFsItem::from_parts("a", Some(FsItemParts::EmptyDirectory), false, false).unwrap();
    assert!(matches!(item.get_digest(), FsItem::EmptyDirectory));
}
