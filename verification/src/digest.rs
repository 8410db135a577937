//! Digests: what identifies the content of a file.

use sha2::Digest as ShaDigest;
use sha2::Sha256;
use vstd::arithmetic::power2::pow2;
use vstd::prelude::*;

verus! {

/// The SHA-256 hash of a byte string, as the `sha2` crate computes it.
pub uninterp spec fn sha256_of(content: Seq<u8>) -> Seq<u8>;

/// `Sha256::digest` of the `sha2` crate: the 32 bytes of the SHA-256
/// hash of the content.
#[verifier::external_body]
fn sha256(content: &[u8]) -> (r: [u8; 32])
    ensures
        r@ == sha256_of(content@),
{
    Sha256::digest(content).into()
}

/// The sixteen hexadecimal digits, lower case.
pub open spec fn hex_digits() -> Seq<char> {
    seq!['0', '1', '2', '3', '4', '5', '6', '7', '8', '9', 'a', 'b', 'c', 'd', 'e', 'f']
}

/// The bytes in hexadecimal: two lower-case digits for each byte, the
/// high half first.
pub open spec fn hex_text(bytes: Seq<u8>) -> Seq<char> {
    Seq::new(
        2 * bytes.len(),
        |i: int|
            if i % 2 == 0 {
                hex_digits()[bytes[i / 2] as int / 16]
            } else {
                hex_digits()[bytes[i / 2] as int % 16]
            },
    )
}

/// `hex::encode`: the bytes in lower-case hexadecimal.
#[verifier::external_body]
fn hex_encode(bytes: &[u8]) -> (r: String)
    ensures
        r@ == hex_text(bytes@),
{
    hex::encode(bytes)
}

/// The sixteen bytes of a number, the most significant first.
pub open spec fn be_bytes_of(x: u128) -> Seq<u8> {
    Seq::new(16, |i: int| ((x as nat / pow2((8 * (15 - i)) as nat)) % 256) as u8)
}

/// `u128::to_be_bytes`: the bytes of the number in big-endian order.
#[verifier::external_body]
fn to_be_bytes(x: u128) -> (r: [u8; 16])
    ensures
        r@ == be_bytes_of(x),
{
    x.to_be_bytes()
}

/// `u128::from_be_bytes`: the number whose bytes in big-endian order are
/// the given ones.
#[verifier::external_body]
fn from_be_bytes(bytes: [u8; 16]) -> (r: u128)
    ensures
        be_bytes_of(r) == bytes@,
{
    u128::from_be_bytes(bytes)
}

/// What identifies the content of a file: a fast hash, the size, and a
/// secure hash where it has been computed.
#[derive(Debug, Clone, Copy, PartialEq, Eq, Hash)]
pub struct Digest {
    /// The fast hash of the content.
    pub fast_xxhash3_128: u128,
    /// The SHA-256 hash of the content, once it has been needed.
    pub secure_sha256: Option<[u8; 32]>,
    /// The size of the content in bytes.
    pub size_bytes: u64,
}

/// Why the parts of a digest are not accepted.
#[derive(Debug)]
pub enum DigestError {
    /// The fast hash does not have 16 bytes.
    WrongLengthFastHash,
    /// The secure hash does not have 32 bytes.
    WrongLengthSecureHash,
}

/// Two digests name the same content: the sizes agree, and so do the
/// secure hashes where both digests have one, the fast hashes otherwise.
pub open spec fn same_content(a: Digest, b: Digest) -> bool {
    a.size_bytes == b.size_bytes && (match (a.secure_sha256, b.secure_sha256) {
        (Some(x), Some(y)) => x@ == y@,
        _ => a.fast_xxhash3_128 == b.fast_xxhash3_128,
    })
}

/// The first digest names the same content as the second and knows all
/// that the second knows: it has a secure hash where the second has one.
pub open spec fn covers(a: Digest, b: Digest) -> bool {
    same_content(a, b) && (b.secure_sha256 is Some ==> a.secure_sha256 is Some)
}

/// Whether two hashes are the same bytes.
fn same_hash(a: &[u8; 32], b: &[u8; 32]) -> (r: bool)
    ensures
        r == (a@ == b@),
{
    let mut i: usize = 0;
    while i < 32
        invariant
            i <= 32,
            forall|j: int| 0 <= j < i ==> a@[j] == b@[j],
        decreases 32 - i,
    {
        if a[i] != b[i] {
            return false;
        }
        i += 1;
    }
    assert(a@ =~= b@);
    true
}

/// The first `N` bytes of a list as an array.
fn to_array<const N: usize>(bytes: &Vec<u8>) -> (r: [u8; N])
    requires
        bytes.len() == N,
    ensures
        r@ == bytes@,
{
    let mut out = [0u8;N];
    let mut i: usize = 0;
    while i < N
        invariant
            i <= N,
            bytes.len() == N,
            forall|j: int| 0 <= j < i ==> out@[j] == bytes@[j],
        decreases N - i,
    {
        out[i] = bytes[i];
        i += 1;
    }
    assert(out@ =~= bytes@);
    out
}

/// The bytes of an array as a list.
fn to_list<const N: usize>(bytes: &[u8; N]) -> (r: Vec<u8>)
    ensures
        r@ == bytes@,
{
    let mut out: Vec<u8> = Vec::new();
    let mut i: usize = 0;
    while i < N
        invariant
            i <= N,
            out@.len() == i,
            forall|j: int| 0 <= j < i ==> out@[j] == bytes@[j],
        decreases N - i,
    {
        out.push(bytes[i]);
        i += 1;
    }
    assert(out@ =~= bytes@);
    out
}

impl Digest {
    /// A digest without a secure hash.
    pub fn new(xxhash: u128, size: u64) -> (r: Digest)
        ensures
            r == (Digest { fast_xxhash3_128: xxhash, secure_sha256: None, size_bytes: size }),
    {
        Digest { fast_xxhash3_128: xxhash, secure_sha256: None, size_bytes: size }
    }

    /// A digest with a secure hash.
    pub fn new_with_secure(xxhash: u128, size: u64, sha256: [u8; 32]) -> (r: Digest)
        ensures
            r == (Digest {
                fast_xxhash3_128: xxhash,
                secure_sha256: Some(sha256),
                size_bytes: size,
            }),
    {
        Digest { fast_xxhash3_128: xxhash, secure_sha256: Some(sha256), size_bytes: size }
    }

    /// Gives the digest the secure hash, unless it has one already.
    pub fn fill_secure(&mut self, sha256: [u8; 32])
        ensures
            final(self).fast_xxhash3_128 == old(self).fast_xxhash3_128,
            final(self).size_bytes == old(self).size_bytes,
            old(self).secure_sha256 is Some ==> final(self).secure_sha256 == old(
                self,
            ).secure_sha256,
            old(self).secure_sha256 is None ==> final(self).secure_sha256 == Some(sha256),
    {
        if self.secure_sha256.is_none() {
            self.secure_sha256 = Some(sha256);
        }
    }

    /// Gives the digest the SHA-256 hash of the content, unless it has a
    /// secure hash already; the content is hashed only where it is
    /// needed.
    pub fn ensure_secure(&mut self, content: &[u8])
        ensures
            final(self).fast_xxhash3_128 == old(self).fast_xxhash3_128,
            final(self).size_bytes == old(self).size_bytes,
            old(self).secure_sha256 is Some ==> final(self).secure_sha256 == old(
                self,
            ).secure_sha256,
            old(self).secure_sha256 is None ==> (final(self).secure_sha256 matches Some(hash)
                && hash@ == sha256_of(content@)),
    {
        if self.secure_sha256.is_none() {
            self.fill_secure(sha256(content));
        }
    }

    /// Whether both digests name the same content.
    pub fn refers_to_same_content(&self, other: &Digest) -> (r: bool)
        ensures
            r == same_content(*self, *other),
    {
        if self.size_bytes != other.size_bytes {
            return false;
        }
        match (&self.secure_sha256, &other.secure_sha256) {
            (Some(a), Some(b)) => same_hash(a, b),
            _ => self.fast_xxhash3_128 == other.fast_xxhash3_128,
        }
    }

    /// The secure hash in hexadecimal, where the digest has one.
    pub fn hex_secure_sha256(&self) -> (r: Option<String>)
        ensures
            self.secure_sha256 matches Some(hash) ==> (r matches Some(text) && text@ == hex_text(
                hash@,
            )),
            self.secure_sha256 is None ==> r is None,
    {
        match &self.secure_sha256 {
            Some(hash) => Some(hex_encode(hash.as_slice())),
            None => None,
        }
    }

    /// The fast hash in hexadecimal: 32 digits, the most significant
    /// first.
    pub fn hex_fast_xxhash3_128(&self) -> (r: String)
        ensures
            r@ == hex_text(be_bytes_of(self.fast_xxhash3_128)),
            r@.len() == 32,
    {
        let bytes = to_be_bytes(self.fast_xxhash3_128);
        hex_encode(bytes.as_slice())
    }

    /// Whether this digest names the same content as the other and
    /// knows all that the other knows.
    pub fn is_superset_of(&self, other: &Digest) -> (r: bool)
        ensures
            r == covers(*self, *other),
    {
        if !self.refers_to_same_content(other) {
            return false;
        }
        if other.secure_sha256.is_some() && self.secure_sha256.is_none() {
            return false;
        }
        true
    }

    /// The digest made of its parts as they travel: the fast hash as 16
    /// bytes, the secure hash, if any, as 32 bytes, and the size.
    pub fn from_parts(fast: &Vec<u8>, secure: Option<&Vec<u8>>, size: u64) -> (r: Result<
        Digest,
        DigestError,
    >)
        ensures
            fast@.len() != 16 ==> r matches Err(DigestError::WrongLengthFastHash),
            fast@.len() == 16 && (secure matches Some(hash) && hash@.len() != 32) ==> r matches Err(
                DigestError::WrongLengthSecureHash,
            ),
            fast@.len() == 16 && !(secure matches Some(hash) && hash@.len() != 32) ==> (r matches Ok(
                d,
            ) && be_bytes_of(d.fast_xxhash3_128) == fast@ && d.size_bytes == size && (match secure {
                Some(hash) => d.secure_sha256 matches Some(kept) && kept@ == hash@,
                None => d.secure_sha256 is None,
            })),
    {
        if fast.len() != 16 {
            return Err(DigestError::WrongLengthFastHash);
        }
        let xxhash = from_be_bytes(to_array::<16>(fast));
        match secure {
            Some(hash) => {
                if hash.len() != 32 {
                    return Err(DigestError::WrongLengthSecureHash);
                }
                Ok(Digest::new_with_secure(xxhash, size, to_array::<32>(hash)))
            },
            None => Ok(Digest::new(xxhash, size)),
        }
    }

    /// The parts of the digest as they travel: the fast hash as 16
    /// bytes, the secure hash, if any, as 32 bytes, and the size.
    pub fn into_parts(self) -> (r: (Vec<u8>, Option<Vec<u8>>, u64))
        ensures
            r.0@ == be_bytes_of(self.fast_xxhash3_128),
            r.2 == self.size_bytes,
            match self.secure_sha256 {
                Some(hash) => r.1 matches Some(list) && list@ == hash@,
                None => r.1 is None,
            },
    {
        let fast = to_list(&to_be_bytes(self.fast_xxhash3_128));
        let secure = match &self.secure_sha256 {
            Some(hash) => Some(to_list(hash)),
            None => None,
        };
        (fast, secure, self.size_bytes)
    }
}

/// Naming the same content goes both ways, and every digest covers
/// itself.
pub proof fn same_content_is_symmetric(a: Digest, b: Digest)
    ensures
        same_content(a, b) == same_content(b, a),
        covers(a, a),
{
}

} // verus!
