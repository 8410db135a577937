//! Content-addressable storage: the errors of a store, where a local
//! store keeps a blob, and what its servers decide.

use crate::digest::{be_bytes_of, hex_text, Digest};
use crate::text::{chars_of, string_of};
use vstd::prelude::*;

verus! {

/// Why a store could not do what it was asked.
#[derive(Debug)]
pub enum CasError {
    /// The file system failed; the payload says how.
    Io(String),
    /// No blob with this digest, given in hexadecimal.
    NotFound(String),
    /// The store itself failed; the payload says how.
    Internal(String),
}

/// A store in a directory of the local file system.
#[derive(Debug)]
pub struct LocalCas {
    root: String,
}

/// Where a store keeps a blob, below its root: a directory named by the
/// first two digits of the hash, in it one named by the next two, in it
/// the blob under the digits that are left.
pub struct BlobPath {
    pub first: String,
    pub second: String,
    pub rest: String,
}

impl LocalCas {
    /// The root directory of the store.
    pub closed spec fn root_text(&self) -> Seq<char> {
        self.root@
    }

    /// A store with the given root directory.
    pub fn new(root: String) -> (r: LocalCas)
        ensures
            r.root_text() == root@,
    {
        LocalCas { root }
    }

    /// The root directory of the store.
    pub fn get_root(&self) -> (r: &String)
        ensures
            r@ == self.root_text(),
    {
        &self.root
    }

    /// Where the store keeps the blob of a digest, below its root.
    pub fn blob_path(digest: &Digest) -> (r: BlobPath)
        ensures
            r.first@ == hex_text(be_bytes_of(digest.fast_xxhash3_128)).subrange(0, 2),
            r.second@ == hex_text(be_bytes_of(digest.fast_xxhash3_128)).subrange(2, 4),
            r.rest@ == hex_text(be_bytes_of(digest.fast_xxhash3_128)).subrange(4, 32),
    {
        let hex = digest.hex_fast_xxhash3_128();
        let digits = chars_of(hex.as_str());
        BlobPath {
            first: string_of(&digits, 0, 2),
            second: string_of(&digits, 2, 4),
            rest: string_of(&digits, 4, 32),
        }
    }
}

/// Whether a client can be served: it names no protocol at all, or the
/// one it names first is the one that the server speaks.
pub fn speaks_protocol(supported: &Vec<i32>, spoken: i32) -> (r: bool)
    ensures
        r == (supported@.len() == 0 || supported@[0] == spoken),
{
    supported.len() == 0 || supported[0] == spoken
}

/// The digests whose blob is absent, in the order of the list.
pub open spec fn absent(digests: Seq<Digest>, present: Seq<bool>) -> Seq<Digest>
    decreases digests.len(),
{
    if digests.len() == 0 {
        Seq::empty()
    } else if present[digests.len() - 1] {
        absent(digests.drop_last(), present)
    } else {
        absent(digests.drop_last(), present).push(digests.last())
    }
}

/// The digests that the store lacks, given for each digest of the list
/// whether the store holds its blob.
pub fn missing_blobs(digests: &Vec<Digest>, present: &Vec<bool>) -> (r: Vec<Digest>)
    requires
        present@.len() == digests@.len(),
    ensures
        r@ == absent(digests@, present@),
{
    let n = digests.len();
    let mut out: Vec<Digest> = Vec::new();
    let mut i: usize = 0;
    while i < n
        invariant
            i <= n,
            n == digests@.len(),
            n == present@.len(),
            out@ == absent(digests@.take(i as int), present@),
        decreases n - i,
    {
        proof {
            assert(digests@.take(i + 1).drop_last() =~= digests@.take(i as int));
        }
        if !present[i] {
            out.push(digests[i]);
        }
        i += 1;
    }
    assert(digests@.take(n as int) =~= digests@);
    out
}

} // verus!
