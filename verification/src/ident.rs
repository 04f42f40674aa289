//! The identifier hasher: a `(name, optional version)` pair becomes a stable
//! 64-bit identifier.
//!
//! The name's UTF-8 bytes and the version's 24-byte encoding are each hashed
//! on their own, and the two hashes are folded together by a multiply-high/low
//! mix, so that swapping the two inputs does not collide with other pairs.

use vstd::prelude::*;
use vstd::utf8::encode_utf8;
use crate::version::{spec_version_bytes, FixedVersion};

verus! {

/// A strong type for a 64-bit type identifier.
#[derive(Debug, Copy, Clone, PartialEq, Eq, Structural, Hash, PartialOrd, Ord)]
pub struct FixedId(pub u64);

/// What `rapidhash` returns for a byte sequence.  The result depends on the
/// bytes alone, which is all the identity scheme relies on: the algorithm
/// itself belongs to the outside hasher.
pub uninterp spec fn rapid_hash(data: Seq<u8>) -> u64;

/// Relies on `rapidhash::rapidhash`: the result is a pure function of the
/// input bytes, identical across processes and builds.
#[verifier::external_body]
fn hash_bytes(data: &[u8]) -> (r: u64)
    ensures
        r == rapid_hash(data@),
{
    rapidhash::rapidhash(data)
}

/// The low 64 bits of the 128-bit product of `a` and `b`.
pub open spec fn spec_mul_lo(a: u64, b: u64) -> u64 {
    ((a as int * b as int) % 0x10000000000000000) as u64
}

/// The high 64 bits of the 128-bit product of `a` and `b`.
pub open spec fn spec_mul_hi(a: u64, b: u64) -> u64 {
    ((a as int * b as int) / 0x10000000000000000) as u64
}

/// The multiply fold: the two halves of the full product, XORed together.
pub open spec fn spec_rapid_mix(a: u64, b: u64) -> u64 {
    spec_mul_lo(a, b) ^ spec_mul_hi(a, b)
}

/// The full 128-bit product of `a` and `b`, split into its low and high
/// 64-bit halves.
fn rapid_mum(a: u64, b: u64) -> (r: (u64, u64))
    ensures
        r.0 == spec_mul_lo(a, b),
        r.1 == spec_mul_hi(a, b),
        r.0 as int + r.1 as int * 0x10000000000000000 == a as int * b as int,
{
    proof {
        assert(a as int * b as int <= 0xffffffffffffffff * 0xffffffffffffffff) by (nonlinear_arith)
            requires
                a <= 0xffffffffffffffff,
                b <= 0xffffffffffffffff,
        ;
    }
    let m = (a as u128) * (b as u128);
    let lo = (m % 0x10000000000000000u128) as u64;
    let hi = (m / 0x10000000000000000u128) as u64;
    (lo, hi)
}

/// Fold two 64-bit values into one by a multiply-high/low mix.
fn rapid_mix(a: u64, b: u64) -> (r: u64)
    ensures
        r == spec_rapid_mix(a, b),
{
    let (lo, hi) = rapid_mum(a, b);
    lo ^ hi
}

/// The hash of a name alone, used for types that carry no version.
pub open spec fn spec_hash_name_only(name: Seq<char>) -> u64 {
    rapid_hash(encode_utf8(name))
}

/// The hash of a name combined with a version: each is hashed on its own and
/// the two hashes are folded together.
pub open spec fn spec_hash_with_version(name: Seq<char>, version: FixedVersion) -> u64 {
    spec_rapid_mix(rapid_hash(encode_utf8(name)), rapid_hash(spec_version_bytes(version)))
}

/// The identifier a `(name, optional version)` declaration receives.
pub open spec fn spec_id_of(name: Seq<char>, version: Option<FixedVersion>) -> FixedId {
    match version {
        None => FixedId(spec_hash_name_only(name)),
        Some(v) => FixedId(spec_hash_with_version(name, v)),
    }
}

impl FixedId {
    /// The inner `u64` value.
    pub fn as_u64(&self) -> (r: u64)
        ensures
            r == self.0,
    {
        self.0
    }

    /// The identifier for a type name, mixed with a version when one is
    /// given.  Identical inputs give the identical identifier on every call,
    /// in every process: this is the determinism the identity scheme rests
    /// on.
    pub fn from_type_name(name: &str, version: Option<FixedVersion>) -> (r: FixedId)
        ensures
            r == spec_id_of(name@, version),
    {
        let name_hash = hash_bytes(name.as_bytes());
        match version {
            None => FixedId(name_hash),
            Some(v) => {
                let version_bytes = v.to_bytes();
                let version_hash = hash_bytes(version_bytes.as_slice());
                FixedId(rapid_mix(name_hash, version_hash))
            },
        }
    }
}

/// The hash for a name and version pair, following the same procedure as
/// [`FixedId::from_type_name`] with a version present.
pub fn name_version_to_hash(name: &str, version: &FixedVersion) -> (r: u64)
    ensures
        r == spec_hash_with_version(name@, *version),
{
    let name_hash = hash_bytes(name.as_bytes());
    let version_bytes = version.to_bytes();
    let version_hash = hash_bytes(version_bytes.as_slice());
    rapid_mix(name_hash, version_hash)
}

} // verus!
