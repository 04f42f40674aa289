//! The tagged envelope: every encoded value is preceded by its logical
//! identifier and its version, so a reader can inspect both without
//! touching the payload.
//!
//! On the wire the tag is a fixed 32-byte prefix — the 64-bit identifier
//! followed by the 24-byte version encoding — which is what makes the
//! tag-only peek possible: its offset cannot be perturbed by anything in
//! the payload behind it.

use vstd::prelude::*;
use vstd::bytes::{
    spec_u64_from_le_bytes, spec_u64_to_le_bytes, u64_from_le_bytes, u64_to_le_bytes,
};
use vstd::slice::slice_subrange;
use crate::ident::FixedId;
use crate::typeid::FixedTypeId;
use crate::version::{spec_version_bytes, FixedVersion};

verus! {

/// A value wrapped with the identifier of its type: what the envelope
/// carries as payload, before the version tag is added around it.
#[derive(Debug, Copy, Clone)]
pub struct FixedTypeIdTagged<T> {
    /// The logical identifier of the value's type.
    pub type_id: FixedId,
    /// The value itself.
    pub data: T,
}

impl<T: FixedTypeId> FixedTypeIdTagged<T> {
    /// Wrap a value with its type's declared identifier.
    pub fn from_data(data: T) -> (r: FixedTypeIdTagged<T>)
        ensures
            r.type_id == T::spec_id(),
            r.data == data,
    {
        FixedTypeIdTagged { type_id: crate::typeid::type_id::<T>(), data }
    }
}

/// Only the version part of a tag.
#[derive(Debug, Copy, Clone, PartialEq, Eq, Structural)]
pub struct FixedVersionTag {
    /// The version of the tagged data.
    pub version: FixedVersion,
}

/// The decoded form of an envelope's fixed prefix: the identifier and the
/// version of the data behind it, with the payload left untouched.
#[derive(Debug, Copy, Clone, PartialEq, Eq, Structural)]
pub struct FixedTypeIdTag {
    /// The identifier of the tagged data's type.
    pub type_id: FixedId,
    /// The version part of the tag.
    pub data: FixedVersionTag,
}

impl FixedTypeIdTag {
    /// The version carried by the tag.
    pub open spec fn spec_version(&self) -> FixedVersion {
        self.data.version
    }

    /// The identifier and version of the underlying data.
    pub fn get_identifier(&self) -> (r: (FixedId, FixedVersion))
        ensures
            r.0 == self.type_id,
            r.1 == self.spec_version(),
    {
        (self.type_id, self.data.version)
    }
}

/// The 32-byte wire form of a tag: the identifier's little-endian bytes,
/// then the version's 24-byte encoding.
pub open spec fn spec_tag_bytes(id: FixedId, v: FixedVersion) -> Seq<u8> {
    spec_u64_to_le_bytes(id.0) + spec_version_bytes(v)
}

/// The tag at the front of `b`, or `None` when fewer than 32 bytes are
/// there.  Nothing past the first 32 bytes is inspected.
pub open spec fn spec_decode_tag(b: Seq<u8>) -> Option<(FixedId, FixedVersion)> {
    if b.len() < 32 {
        None
    } else {
        Some(
            (
                FixedId(spec_u64_from_le_bytes(b.subrange(0, 8))),
                FixedVersion {
                    major: spec_u64_from_le_bytes(b.subrange(8, 16)),
                    minor: spec_u64_from_le_bytes(b.subrange(16, 24)),
                    patch: spec_u64_from_le_bytes(b.subrange(24, 32)),
                },
            ),
        )
    }
}

/// Decoding inverts encoding for the tag, whatever payload follows it.
pub proof fn lemma_tag_roundtrip(id: FixedId, v: FixedVersion, rest: Seq<u8>)
    ensures
        spec_tag_bytes(id, v).len() == 32,
        spec_decode_tag(spec_tag_bytes(id, v) + rest) == Some((id, v)),
{
    vstd::bytes::lemma_auto_spec_u64_to_from_le_bytes();
    let b = spec_tag_bytes(id, v) + rest;
    assert(b.subrange(0, 8) =~= spec_u64_to_le_bytes(id.0));
    assert(b.subrange(8, 16) =~= spec_u64_to_le_bytes(v.major));
    assert(b.subrange(16, 24) =~= spec_u64_to_le_bytes(v.minor));
    assert(b.subrange(24, 32) =~= spec_u64_to_le_bytes(v.patch));
}

/// What the tag decodes to is settled by the first 32 bytes alone: two
/// byte strings that agree there decode to the same tag, whatever their
/// payloads hold.
pub proof fn lemma_tag_depends_on_prefix(b1: Seq<u8>, b2: Seq<u8>)
    requires
        b1.len() >= 32,
        b2.len() >= 32,
        b1.subrange(0, 32) == b2.subrange(0, 32),
    ensures
        spec_decode_tag(b1) == spec_decode_tag(b2),
{
    assert(b1.subrange(0, 8) =~= b1.subrange(0, 32).subrange(0, 8));
    assert(b2.subrange(0, 8) =~= b2.subrange(0, 32).subrange(0, 8));
    assert(b1.subrange(8, 16) =~= b1.subrange(0, 32).subrange(8, 16));
    assert(b2.subrange(8, 16) =~= b2.subrange(0, 32).subrange(8, 16));
    assert(b1.subrange(16, 24) =~= b1.subrange(0, 32).subrange(16, 24));
    assert(b2.subrange(16, 24) =~= b2.subrange(0, 32).subrange(16, 24));
    assert(b1.subrange(24, 32) =~= b1.subrange(0, 32).subrange(24, 32));
    assert(b2.subrange(24, 32) =~= b2.subrange(0, 32).subrange(24, 32));
}

/// Append the 32-byte tag for `id` and `v` to `out`.
pub fn encode_tag(id: FixedId, v: FixedVersion, out: &mut Vec<u8>)
    ensures
        final(out)@ == old(out)@ + spec_tag_bytes(id, v),
{
    let mut id_bytes = u64_to_le_bytes(id.0);
    out.append(&mut id_bytes);
    let mut version_bytes = v.to_bytes();
    out.append(&mut version_bytes);
    proof {
        assert(out@ =~= old(out)@ + spec_tag_bytes(id, v));
    }
}

/// Decode the tag at the front of `b`, reading only its 32 bytes.
pub fn decode_tag(b: &Vec<u8>) -> (r: Option<FixedTypeIdTag>)
    ensures
        match r {
            Some(tag) => spec_decode_tag(b@) == Some((tag.type_id, tag.spec_version())),
            None => b@.len() < 32 && spec_decode_tag(b@) is None,
        },
{
    if b.len() < 32 {
        return None;
    }
    let id = u64_from_le_bytes(slice_subrange(b.as_slice(), 0, 8));
    let major = u64_from_le_bytes(slice_subrange(b.as_slice(), 8, 16));
    let minor = u64_from_le_bytes(slice_subrange(b.as_slice(), 16, 24));
    let patch = u64_from_le_bytes(slice_subrange(b.as_slice(), 24, 32));
    Some(
        FixedTypeIdTag {
            type_id: FixedId(id),
            data: FixedVersionTag { version: FixedVersion { major, minor, patch } },
        },
    )
}

} // verus!
