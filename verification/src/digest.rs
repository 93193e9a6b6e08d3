//! Incremental SHA-256 over the bytes of a file.
use vstd::prelude::*;
use sha2::Digest;

verus! {

/// A SHA-256 computation in progress: a `sha2::Sha256`, held out of sight
/// because its type is made of generic parts that cannot be declared one by
/// one. All that is known of it is what it has taken in.
#[verifier::external_body]
pub struct Hasher {
    inner: sha2::Sha256,
}

/// The bytes that a hasher has taken in so far, in order.
pub uninterp spec fn sha256_taken(h: &Hasher) -> Seq<u8>;

/// The SHA-256 digest of `data`, as 64 lower-case hexadecimal digits.
pub uninterp spec fn sha256_hex(data: Seq<u8>) -> Seq<char>;

/// `Sha256::new`: a hasher that has taken in nothing yet.
#[verifier::external_body]
pub(crate) fn sha256_new() -> (h: Hasher)
    ensures
        sha256_taken(&h) == Seq::<u8>::empty(),
{
    Hasher { inner: sha2::Sha256::new() }
}

/// `Digest::update`: the hasher takes in `data` after what it already has.
#[verifier::external_body]
pub(crate) fn sha256_update(h: &mut Hasher, data: &[u8])
    ensures
        sha256_taken(final(h)) == sha256_taken(old(h)) + data@,
{
    h.inner.update(data);
}

/// `Digest::finalize`, written out in lower-case hexadecimal: the digest of
/// everything the hasher has taken in.
#[verifier::external_body]
pub(crate) fn sha256_finalize(h: Hasher) -> (hex: String)
    ensures
        hex@ == sha256_hex(sha256_taken(&h)),
{
    format!("{:x}", h.inner.finalize())
}

/// The SHA-256 digest of `data` in lower-case hexadecimal.
pub fn sha256_string(data: &[u8]) -> (hex: String)
    ensures
        hex@ == sha256_hex(data@),
{
    let mut h = sha256_new();
    sha256_update(&mut h, data);
    assert(sha256_taken(&h) =~= data@);
    sha256_finalize(h)
}

} // verus!
