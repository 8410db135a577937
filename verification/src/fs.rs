//! The items of a virtual file tree.

use crate::digest::{be_bytes_of, Digest, DigestError};
use crate::path::lemmas::lemma_join_neutral;
use crate::path::model::{lies_in, normalized, parse, with_part, PathError};
use crate::path::NeutralPath;
use vstd::prelude::*;

verus! {

/// What stands at a path of a virtual file tree.
#[derive(Debug)]
pub enum FsItem {
    /// A file, by the digest of its content.
    File(Digest),
    /// A symbolic link, by its target.
    Symlink(NeutralPath),
    /// A directory that holds nothing.
    EmptyDirectory,
}

/// One item of a virtual file tree, with its path and its flags.
#[derive(Debug)]
pub struct VirtualFsItem {
    relative_path: NeutralPath,
    item: FsItem,
    is_executable: bool,
    is_readonly: bool,
}

/// Why an item of a virtual file tree is not accepted.
#[derive(Debug)]
pub enum VirtualFileError {
    /// The target of a link, read from the path of the link, stays
    /// below that path.
    TryAccessParentPath(),
    InvalidUtf8Path(),
    PathIsAbsolute(),
    /// The item says nothing of what it is.
    EmptyPath(),
    SymlinkTargetAbsolute,
    SymbolLinkEscape,
    /// The digest of a file is not accepted.
    WrongDigest(DigestError),
    SourceFilePathNotNormalized(),
    /// A path is no neutral path.
    PathError(PathError),
}

/// What an item is, as it travels: the parts of a digest, the text of a
/// link target, or nothing for an empty directory.
#[derive(Debug)]
pub enum FsItemParts {
    Digest { fast: Vec<u8>, secure: Option<Vec<u8>>, size: u64 },
    SymlinkTarget(String),
    EmptyDirectory,
}

/// The item is in order: the path of a link is a neutral path.
pub open spec fn item_wf(item: FsItem) -> bool {
    item matches FsItem::Symlink(target) ==> target.wf()
}

/// The target of a link, read from the path of the link.
pub open spec fn link_end(path: Seq<char>, target: Seq<char>) -> Seq<char> {
    normalized(with_part(path, target))
}

/// The item is refused: it is a link whose target, read from the path of
/// the link, stays below that path.
pub open spec fn is_refused(path: Seq<char>, item: FsItem) -> bool {
    item matches FsItem::Symlink(target) && lies_in(link_end(path, target@), path)
}

/// How making an item of its parts ends.
pub enum PartsVerdict {
    /// The item says nothing of what it is.
    Missing,
    /// The parts of the digest are not of the right lengths: the fast
    /// hash is looked at first.
    BadDigest(DigestError),
    /// The link target, or else the path, is no neutral path.
    BadPath(PathError),
    /// The link is refused.
    Refused,
    /// The item is accepted, at this path.
    Accepted(Seq<char>),
}

/// How it ends once the item itself is accepted: the path must be a
/// neutral path, and a link must not be refused.
pub open spec fn path_verdict(relative_path: Seq<char>, link: Option<Seq<char>>) -> PartsVerdict {
    match parse(relative_path) {
        Err(e) => PartsVerdict::BadPath(e),
        Ok(path) => if link matches Some(target) && lies_in(link_end(path, target), path) {
            PartsVerdict::Refused
        } else {
            PartsVerdict::Accepted(path)
        },
    }
}

/// How making an item of its parts ends.
pub open spec fn parts_verdict(relative_path: Seq<char>, item: Option<FsItemParts>) -> PartsVerdict {
    match item {
        None => PartsVerdict::Missing,
        Some(FsItemParts::Digest { fast, secure, size }) => if fast@.len() != 16 {
            PartsVerdict::BadDigest(DigestError::WrongLengthFastHash)
        } else if secure matches Some(hash) && hash@.len() != 32 {
            PartsVerdict::BadDigest(DigestError::WrongLengthSecureHash)
        } else {
            path_verdict(relative_path, None)
        },
        Some(FsItemParts::SymlinkTarget(target)) => match parse(target@) {
            Err(e) => PartsVerdict::BadPath(e),
            Ok(link) => path_verdict(relative_path, Some(link)),
        },
        Some(FsItemParts::EmptyDirectory) => path_verdict(relative_path, None),
    }
}

/// The item is what the parts say.
pub open spec fn holds_parts(content: FsItem, item: Option<FsItemParts>) -> bool {
    match item {
        Some(FsItemParts::Digest { fast, secure, size }) => content matches FsItem::File(d)
            && be_bytes_of(d.fast_xxhash3_128) == fast@ && d.size_bytes == size && (match secure {
            Some(hash) => d.secure_sha256 matches Some(kept) && kept@ == hash@,
            None => d.secure_sha256 is None,
        }),
        Some(FsItemParts::SymlinkTarget(target)) => content matches FsItem::Symlink(link) && (parse(
            target@,
        ) matches Ok(text) && text == link@),
        Some(FsItemParts::EmptyDirectory) => content is EmptyDirectory,
        None => false,
    }
}

impl VirtualFsItem {
    /// The path of the item.
    pub closed spec fn path(&self) -> NeutralPath {
        self.relative_path
    }

    /// What stands at the path.
    pub closed spec fn content(&self) -> FsItem {
        self.item
    }

    /// Whether the item may be run.
    pub closed spec fn executable(&self) -> bool {
        self.is_executable
    }

    /// Whether the item may not be written.
    pub closed spec fn readonly(&self) -> bool {
        self.is_readonly
    }

    /// The item is in order: its paths are neutral paths.
    pub open spec fn wf(&self) -> bool {
        self.path().wf() && item_wf(self.content())
    }

    /// An item of a virtual file tree. A link is refused with
    /// `TryAccessParentPath` where its target, read from the path of the
    /// link, stays below that path.
    pub fn new(relative_path: NeutralPath, item: FsItem, is_executable: bool, is_readonly: bool) -> (r:
        Result<VirtualFsItem, VirtualFileError>)
        requires
            relative_path.wf(),
            item_wf(item),
        ensures
            is_refused(relative_path@, item) ==> r matches Err(
                VirtualFileError::TryAccessParentPath(),
            ),
            !is_refused(relative_path@, item) ==> (r matches Ok(v) && v.path() == relative_path
                && v.content() == item && v.executable() == is_executable && v.readonly()
                == is_readonly && v.wf()),
    {
        match &item {
            FsItem::Symlink(target) => {
                proof {
                    lemma_join_neutral(relative_path@, target@);
                }
                match relative_path.join(target.as_str()) {
                    Ok(end) => {
                        if end.is_in_dir(&relative_path) {
                            return Err(VirtualFileError::TryAccessParentPath());
                        }
                    },
                    Err(e) => {
                        return Err(VirtualFileError::PathError(e));
                    },
                }
            },
            _ => {},
        }
        Ok(VirtualFsItem { relative_path, item, is_executable, is_readonly })
    }

    /// The path of the item.
    pub fn get_relative_path(&self) -> (r: &NeutralPath)
        ensures
            *r == self.path(),
    {
        &self.relative_path
    }

    /// What stands at the path.
    pub fn get_digest(&self) -> (r: &FsItem)
        ensures
            *r == self.content(),
    {
        &self.item
    }

    /// Whether the item may be run.
    pub fn is_executable(&self) -> (r: bool)
        ensures
            r == self.executable(),
    {
        self.is_executable
    }

    /// Whether the item may not be written.
    pub fn is_readonly(&self) -> (r: bool)
        ensures
            r == self.readonly(),
    {
        self.is_readonly
    }

    /// The item made of its parts as they travel. An item that says
    /// nothing of what it is gives `EmptyPath`; parts of a digest that
    /// are not accepted give `WrongDigest`; a link target or a path that
    /// is no neutral path gives `PathError`, the target being looked at
    /// first; what is left is made an item as `new` does.
    pub fn from_parts(
        relative_path: &str,
        item: Option<FsItemParts>,
        is_executable: bool,
        is_readonly: bool,
    ) -> (r: Result<VirtualFsItem, VirtualFileError>)
        ensures
            match parts_verdict(relative_path@, item) {
                PartsVerdict::Missing => r matches Err(VirtualFileError::EmptyPath()),
                PartsVerdict::BadDigest(e) => r matches Err(VirtualFileError::WrongDigest(x))
                    && x == e,
                PartsVerdict::BadPath(e) => r matches Err(VirtualFileError::PathError(x)) && x == e,
                PartsVerdict::Refused => r matches Err(VirtualFileError::TryAccessParentPath()),
                PartsVerdict::Accepted(path) => r matches Ok(v) && v.wf() && v.path()@ == path
                    && v.executable() == is_executable && v.readonly() == is_readonly
                    && holds_parts(v.content(), item),
            },
    {
        let content = match item {
            Some(FsItemParts::Digest { fast, secure, size }) => {
                let parts = match &secure {
                    Some(hash) => Digest::from_parts(&fast, Some(hash), size),
                    None => Digest::from_parts(&fast, None, size),
                };
                match parts {
                    Ok(d) => FsItem::File(d),
                    Err(e) => {
                        return Err(VirtualFileError::WrongDigest(e));
                    },
                }
            },
            Some(FsItemParts::SymlinkTarget(target)) => match NeutralPath::new(target.as_str()) {
                Ok(path) => FsItem::Symlink(path),
                Err(e) => {
                    return Err(VirtualFileError::PathError(e));
                },
            },
            Some(FsItemParts::EmptyDirectory) => FsItem::EmptyDirectory,
            None => {
                return Err(VirtualFileError::EmptyPath());
            },
        };
        let path = match NeutralPath::new(relative_path) {
            Ok(path) => path,
            Err(e) => {
                return Err(VirtualFileError::PathError(e));
            },
        };
        VirtualFsItem::new(path, content, is_executable, is_readonly)
    }
}

} // verus!
