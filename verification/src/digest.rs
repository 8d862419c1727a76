//! The hashes and the size of an archive, taken while it is read.
use sha2::Digest;
use vstd::prelude::*;

verus! {

/// A SHA-256 hasher.
#[verifier::external_type_specification]
#[verifier::external_body]
pub struct ExSha256(sha2::Sha256);

/// An MD5 hasher.
#[verifier::external_type_specification]
#[verifier::external_body]
pub struct ExMd5(md5::Md5);

/// The bytes that a SHA-256 hasher holds the hash of.
pub uninterp spec fn taken_by_sha256(hasher: sha2::Sha256) -> Seq<u8>;

/// The bytes that an MD5 hasher holds the hash of.
pub uninterp spec fn taken_by_md5(hasher: md5::Md5) -> Seq<u8>;

/// The SHA-256 digest of some bytes.
pub uninterp spec fn sha256_of(data: Seq<u8>) -> Seq<u8>;

/// The MD5 digest of some bytes.
pub uninterp spec fn md5_of(data: Seq<u8>) -> Seq<u8>;

/// `sha2::Sha256::new`: a hasher that has taken nothing.
#[verifier::external_body]
fn sha256_new() -> (hasher: sha2::Sha256)
    ensures
        taken_by_sha256(hasher) == Seq::<u8>::empty(),
{
    sha2::Sha256::new()
}

/// `sha2::Sha256::update`: the hasher takes the bytes behind those that it has
/// taken before.
#[verifier::external_body]
fn sha256_update(hasher: &mut sha2::Sha256, data: &[u8])
    ensures
        taken_by_sha256(*final(hasher)) == taken_by_sha256(*old(hasher)) + data@,
{
    hasher.update(data);
}

/// `sha2::Sha256::finalize`: the digest of all the bytes that the hasher has
/// taken. It counts their bits in 64 bits, so there have to be fewer than two
/// to the power of 61.
#[verifier::external_body]
fn sha256_finalize(hasher: sha2::Sha256) -> (digest: [u8; 32])
    requires
        taken_by_sha256(hasher).len() < 0x2000_0000_0000_0000,
    ensures
        digest@ == sha256_of(taken_by_sha256(hasher)),
{
    hasher.finalize().into()
}

/// `md5::Md5::new`: a hasher that has taken nothing.
#[verifier::external_body]
fn md5_new() -> (hasher: md5::Md5)
    ensures
        taken_by_md5(hasher) == Seq::<u8>::empty(),
{
    md5::Md5::new()
}

/// `md5::Md5::update`: the hasher takes the bytes behind those that it has
/// taken before.
#[verifier::external_body]
fn md5_update(hasher: &mut md5::Md5, data: &[u8])
    ensures
        taken_by_md5(*final(hasher)) == taken_by_md5(*old(hasher)) + data@,
{
    hasher.update(data);
}

/// `md5::Md5::finalize`: the digest of all the bytes that the hasher has taken.
#[verifier::external_body]
fn md5_finalize(hasher: md5::Md5) -> (digest: [u8; 16])
    ensures
        digest@ == md5_of(taken_by_md5(hasher)),
{
    hasher.finalize().into()
}

/// The hashes and the size of an archive.
#[derive(Debug, Clone, Copy, PartialEq, Eq)]
pub struct ExtractResult {
    /// The SHA-256 digest of the archive.
    pub sha256: [u8; 32],
    /// The MD5 digest of the archive.
    pub md5: [u8; 16],
    /// The size of the archive in bytes.
    pub total_size: u64,
}

/// Whether a result is that of an archive with the given bytes.
pub open spec fn is_result_of(result: ExtractResult, archive: Seq<u8>) -> bool {
    &&& result.sha256@ == sha256_of(archive)
    &&& result.md5@ == md5_of(archive)
    &&& result.total_size == archive.len()
}

/// The hashes and the size of what was read of an archive so far.
pub struct StreamDigest {
    sha256: sha2::Sha256,
    md5: md5::Md5,
    total_size: u64,
}

impl View for StreamDigest {
    type V = Seq<u8>;

    /// Everything that was read.
    closed spec fn view(&self) -> Seq<u8> {
        taken_by_sha256(self.sha256)
    }
}

impl StreamDigest {
    /// Whether both hashers and the size speak of the same bytes.
    #[verifier::type_invariant]
    closed spec fn agrees(&self) -> bool {
        &&& taken_by_md5(self.md5) == taken_by_sha256(self.sha256)
        &&& self.total_size == taken_by_sha256(self.sha256).len()
        &&& self.total_size < 0x2000_0000_0000_0000
    }

    /// Nothing was read yet.
    pub fn new() -> (digest: Self)
        ensures
            digest@ == Seq::<u8>::empty(),
    {
        StreamDigest { sha256: sha256_new(), md5: md5_new(), total_size: 0 }
    }

    /// How much was read, in bytes.
    pub fn total_size(&self) -> (size: u64)
        ensures
            size == self@.len(),
    {
        proof {
            use_type_invariant(self);
        }
        self.total_size
    }

    /// Some more was read.
    pub fn update(self, data: &[u8]) -> (digest: Self)
        requires
            self@.len() + data@.len() < 0x2000_0000_0000_0000,
        ensures
            digest@ == self@ + data@,
    {
        proof {
            use_type_invariant(&self);
        }
        let StreamDigest { mut sha256, mut md5, total_size } = self;
        sha256_update(&mut sha256, data);
        md5_update(&mut md5, data);
        StreamDigest { sha256, md5, total_size: total_size + data.len() as u64 }
    }

    /// Everything was read: gives the hashes and the size.
    pub fn finish(self) -> (result: ExtractResult)
        ensures
            is_result_of(result, self@),
    {
        proof {
            use_type_invariant(&self);
        }
        let StreamDigest { sha256, md5, total_size } = self;
        ExtractResult { sha256: sha256_finalize(sha256), md5: md5_finalize(md5), total_size }
    }
}

/// Computes the hashes and the size of an archive.
pub fn hash_and_size(archive: &[u8]) -> (result: ExtractResult)
    requires
        archive@.len() < 0x2000_0000_0000_0000,
    ensures
        is_result_of(result, archive@),
{
    let digest = StreamDigest::new().update(archive);
    assert(Seq::<u8>::empty() + archive@ == archive@);
    digest.finish()
}

} // verus!
