//! The digests of a file's contents, computed once per scanned file and
//! shared by every table that is consulted.

use vstd::prelude::*;
use sha::sha1::Sha1;
use sha::sha256::Sha256;
use sha::utils::{Digest, DigestExt};

verus! {

/// The MD5 digest of some bytes, as lowercase hex.
pub uninterp spec fn md5_hex(b: Seq<u8>) -> Seq<char>;

/// The SHA-1 digest of some bytes, as lowercase hex.
pub uninterp spec fn sha1_hex(b: Seq<u8>) -> Seq<char>;

/// The SHA-256 digest of some bytes, as lowercase hex.
pub uninterp spec fn sha256_hex(b: Seq<u8>) -> Seq<char>;

/// Relies on `md5::compute` and the `LowerHex` formatting of its digest:
/// the result depends on the bytes alone.
#[verifier::external_body]
fn md5_of(b: &[u8]) -> (r: String)
    ensures
        r@ == md5_hex(b@),
{
    format!("{:x}", md5::compute(b))
}

/// Relies on `sha::sha1::Sha1` through `Digest::digest` and
/// `DigestExt::to_hex`: the result depends on the bytes alone.
#[verifier::external_body]
fn sha1_of(b: &[u8]) -> (r: String)
    ensures
        r@ == sha1_hex(b@),
{
    Sha1::default().digest(b).to_hex()
}

/// Relies on `sha::sha256::Sha256` through `Digest::digest` and
/// `DigestExt::to_hex`: the result depends on the bytes alone.
#[verifier::external_body]
fn sha256_of(b: &[u8]) -> (r: String)
    ensures
        r@ == sha256_hex(b@),
{
    Sha256::default().digest(b).to_hex()
}

/// The digests that the tables are matched against: MD5 for the single-hash
/// format, SHA-1 and SHA-256 for the dual-hash format.
#[derive(Debug, PartialEq, Eq)]
pub struct Digests {
    pub md5: String,
    pub sha1: String,
    pub sha256: String,
}

impl Digests {
    /// Whether these are the digests of `b`.
    pub open spec fn of(self, b: Seq<u8>) -> bool {
        &&& self.md5@ == md5_hex(b)
        &&& self.sha1@ == sha1_hex(b)
        &&& self.sha256@ == sha256_hex(b)
    }

    /// Computes the digests of `b`.
    pub fn compute(b: &[u8]) -> (d: Digests)
        ensures
            d.of(b@),
    {
        Digests { md5: md5_of(b), sha1: sha1_of(b), sha256: sha256_of(b) }
    }
}

} // verus!
