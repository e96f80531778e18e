//! SHA-256 hashing of firmware uploads, through the `sha2` crate.
use vstd::prelude::*;

use sha2::Digest;

verus! {

/// An incremental SHA-256 hasher of the `sha2` crate, kept opaque: its
/// contents are described only by the bytes it has absorbed.
#[verifier::external_body]
pub struct Sha256Hasher {
    inner: sha2::Sha256,
}

/// The bytes a hasher has absorbed since it was created or last reset.
pub uninterp spec fn sha256_absorbed(hasher: Sha256Hasher) -> Seq<u8>;

/// The SHA-256 digest of `data`, as `sha2` computes it.
pub uninterp spec fn sha256_digest(data: Seq<u8>) -> Seq<u8>;

/// Calls `<Sha256 as Digest>::new`: a hasher that has absorbed nothing.
#[verifier::external_body]
pub(crate) fn sha256_new() -> (hasher: Sha256Hasher)
    ensures
        sha256_absorbed(hasher) == Seq::<u8>::empty(),
{
    Sha256Hasher { inner: sha2::Sha256::new() }
}

/// Calls `Digest::update`: the hasher absorbs `data` after what it held.
#[verifier::external_body]
pub(crate) fn sha256_update(hasher: &mut Sha256Hasher, data: &[u8])
    ensures
        sha256_absorbed(*final(hasher)) == sha256_absorbed(*old(hasher)) + data@,
{
    hasher.inner.update(data)
}

/// Calls `Digest::finalize_reset`: the digest of everything absorbed, named
/// `sha256_digest`, after which the hasher is empty again. Nothing is claimed
/// of the digest beyond that name.
#[verifier::external_body]
pub(crate) fn sha256_finalize_reset(hasher: &mut Sha256Hasher) -> (digest: [u8; 32])
    ensures
        digest@ == sha256_digest(sha256_absorbed(*old(hasher))),
        sha256_absorbed(*final(hasher)) == Seq::<u8>::empty(),
{
    hasher.inner.finalize_reset().into()
}

} // verus!
