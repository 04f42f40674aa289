//! The tagged envelope protocol: serialization wraps a record in the
//! family's identifier and version tag; deserialization peeks the tag,
//! validates identifier and version, and only then decodes the payload and
//! converts it forward to the canonical shape.
//!
//! A payload from a newer revision than the reader knows is rejected
//! before a single payload byte is inspected; a payload from any older
//! revision is always accepted and converted forward.

use vstd::prelude::*;
use vstd::string::StringExecFns;
use vstd::bytes::{
    spec_u16_from_le_bytes, spec_u16_to_le_bytes, u16_from_le_bytes, u16_to_le_bytes,
};
use vstd::slice::slice_subrange;
use crate::codec::{
    decode_record, encode_record, spec_decode_record, spec_encode_record, spec_record_wf,
    lemma_record_roundtrip,
};
use crate::envelope::{
    decode_tag, encode_tag, spec_decode_tag, spec_tag_bytes, lemma_tag_roundtrip,
};
use crate::generate::TypeFamily;
use crate::ident::FixedId;
use crate::value::{spec_models, Value, ValueModel};
use crate::version::FixedVersion;

verus! {

broadcast use vstd::std_specs::vec::group_vec_axioms;

/// The tag named an identifier other than the expected type's.
#[derive(Debug, Copy, Clone, PartialEq, Eq, Structural)]
pub struct TypeIdMismatchError {
    /// The identifier found in the tag.
    pub deser_id: FixedId,
    /// The identifier the reader expected.
    pub expect_id: FixedId,
}

/// The tag declared a revision newer than the reader's current maximum.
#[derive(Debug, Copy, Clone, PartialEq, Eq, Structural)]
pub struct VersionTooNewError {
    /// The major version found in the tag.
    pub deser_ver: u64,
    /// The reader's current maximum revision.
    pub current_max_ver: u64,
}

/// Why a decode was refused.  The two tag validations are reported as
/// typed values carrying both sides of the comparison; anything wrong with
/// the bytes themselves is a malformed payload.
#[derive(Debug, Copy, Clone, PartialEq, Eq, Structural)]
pub enum ProtocolError {
    /// The tag's identifier was not the expected one.
    TypeIdMismatch(TypeIdMismatchError),
    /// The tag's version is newer than the reader understands.
    VersionTooNew(VersionTooNewError),
    /// The bytes are not a well-formed envelope of this family.
    Malformed,
}

impl TypeIdMismatchError {
    /// The error in words.
    pub fn describe(&self) -> (r: String)
        ensures
            r@ == "type id mismatch, deser_id:"@ + crate::typename::spec_dec_u64(
                self.deser_id.0 as int,
            ) + ", expect_id:"@ + crate::typename::spec_dec_u64(self.expect_id.0 as int),
    {
        let mut out = String::from_str("type id mismatch, deser_id:");
        let deser = crate::typename::u64_to_dec(self.deser_id.0);
        out.append(deser.as_str());
        out.append(", expect_id:");
        let expect = crate::typename::u64_to_dec(self.expect_id.0);
        out.append(expect.as_str());
        proof {
            assert(out@ =~= "type id mismatch, deser_id:"@ + crate::typename::spec_dec_u64(
                self.deser_id.0 as int,
            ) + ", expect_id:"@ + crate::typename::spec_dec_u64(self.expect_id.0 as int));
        }
        out
    }
}

impl VersionTooNewError {
    /// The error in words.
    pub fn describe(&self) -> (r: String)
        ensures
            r@ == "version too new, current_max:"@ + crate::typename::spec_dec_u64(
                self.current_max_ver as int,
            ) + ", deser_ver:"@ + crate::typename::spec_dec_u64(self.deser_ver as int),
    {
        let mut out = String::from_str("version too new, current_max:");
        let current = crate::typename::u64_to_dec(self.current_max_ver);
        out.append(current.as_str());
        out.append(", deser_ver:");
        let deser = crate::typename::u64_to_dec(self.deser_ver);
        out.append(deser.as_str());
        proof {
            assert(out@ =~= "version too new, current_max:"@ + crate::typename::spec_dec_u64(
                self.current_max_ver as int,
            ) + ", deser_ver:"@ + crate::typename::spec_dec_u64(self.deser_ver as int));
        }
        out
    }
}

/// Validate a peeked tag against the expected identity: first the
/// identifier, then the version, whose major part may not exceed the
/// reader's maximum revision.  Older or equal versions always pass.
pub open spec fn spec_validate_tag(
    deser_id: FixedId,
    deser_ver: FixedVersion,
    expect_id: FixedId,
    current_max: u16,
) -> Result<(), ProtocolError> {
    if deser_id != expect_id {
        Err(ProtocolError::TypeIdMismatch(TypeIdMismatchError { deser_id, expect_id }))
    } else if deser_ver.major > current_max {
        Err(
            ProtocolError::VersionTooNew(
                VersionTooNewError {
                    deser_ver: deser_ver.major,
                    current_max_ver: current_max as u64,
                },
            ),
        )
    } else {
        Ok(())
    }
}

/// The tag validation as executable code: exactly [`spec_validate_tag`].
pub fn validate_tag(
    deser_id: FixedId,
    deser_ver: FixedVersion,
    expect_id: FixedId,
    current_max: u16,
) -> (r: Result<(), ProtocolError>)
    ensures
        r == spec_validate_tag(deser_id, deser_ver, expect_id, current_max),
{
    if deser_id.0 != expect_id.0 {
        Err(ProtocolError::TypeIdMismatch(TypeIdMismatchError { deser_id, expect_id }))
    } else if deser_ver.major > current_max as u64 {
        Err(
            ProtocolError::VersionTooNew(
                VersionTooNewError {
                    deser_ver: deser_ver.major,
                    current_max_ver: current_max as u64,
                },
            ),
        )
    } else {
        Ok(())
    }
}

/// The full wire form of a revision-`r` record of a family: the 32-byte
/// tag with the family identifier and version `(r, 0, 0)`, the stable
/// 16-bit discriminant (which is the revision number itself), and the
/// record's encoding.
pub open spec fn spec_envelope_bytes(fam: TypeFamily, r: int, vs: Seq<ValueModel>) -> Seq<u8> {
    spec_tag_bytes(fam.id, FixedVersion { major: r as u64, minor: 0, patch: 0 })
        + spec_u16_to_le_bytes(r as u16) + spec_encode_record(vs)
}

/// What decoding an envelope of this family yields: the canonical record,
/// or the typed error that refused it.  The payload enters the picture
/// only after the tag has passed both validations.
pub open spec fn spec_decode_envelope(fam: TypeFamily, b: Seq<u8>) -> Result<
    Seq<ValueModel>,
    ProtocolError,
> {
    match spec_decode_tag(b) {
        None => Err(ProtocolError::Malformed),
        Some((id, ver)) => match spec_validate_tag(id, ver, fam.id, fam.max_revision) {
            Err(e) => Err(e),
            Ok(()) => if ver.major < 1 {
                Err(ProtocolError::Malformed)
            } else {
                let r = ver.major as int;
                let payload = b.subrange(32, b.len() as int);
                if payload.len() < 2 {
                    Err(ProtocolError::Malformed)
                } else if spec_u16_from_le_bytes(payload.subrange(0, 2)) as int != r {
                    Err(ProtocolError::Malformed)
                } else {
                    match spec_decode_record(
                        payload.subrange(2, payload.len() as int),
                        fam.spec_arity(r),
                    ) {
                        None => Err(ProtocolError::Malformed),
                        Some((vs, n)) => if 2 + n == payload.len() {
                            Ok(fam.spec_forward(r, vs))
                        } else {
                            Err(ProtocolError::Malformed)
                        },
                    }
                }
            },
        },
    }
}

impl TypeFamily {
    /// Serialize a record of revision `r`: wrap it in the envelope whose
    /// identifier is the family's and whose version is `(r, 0, 0)`.
    pub fn encode_at(&self, r: u16, vs: &Vec<Value>) -> (out: Vec<u8>)
        requires
            self.wf(),
            1 <= r <= self.max_revision,
            vs@.len() == self.spec_arity(r as int),
        ensures
            out@ == spec_envelope_bytes(*self, r as int, spec_models(vs@)),
            spec_record_wf(spec_models(vs@)),
    {
        let mut out: Vec<u8> = Vec::new();
        encode_tag(self.id, FixedVersion::new(r as u64, 0, 0), &mut out);
        let mut discriminant = u16_to_le_bytes(r);
        out.append(&mut discriminant);
        encode_record(vs, &mut out);
        proof {
            assert(out@ =~= spec_envelope_bytes(*self, r as int, spec_models(vs@)));
        }
        out
    }

    /// Serialize a canonical record: always written at the current maximum
    /// revision.
    pub fn encode_current(&self, vs: &Vec<Value>) -> (out: Vec<u8>)
        requires
            self.wf(),
            vs@.len() == self.spec_arity(self.max_revision as int),
        ensures
            out@ == spec_envelope_bytes(
                *self,
                self.max_revision as int,
                spec_models(vs@),
            ),
            spec_record_wf(spec_models(vs@)),
    {
        self.encode_at(self.max_revision, vs)
    }

    /// Deserialize an envelope into the canonical record.
    ///
    /// The identifier and version are decoded and validated first; a wrong
    /// identifier or a too-new version is reported without touching the
    /// payload.  Then the payload is decoded as the tagged revision's
    /// record and converted forward to the canonical shape.
    pub fn decode(&self, b: &Vec<u8>) -> (r: Result<Vec<Value>, ProtocolError>)
        requires
            self.wf(),
        ensures
            match r {
                Ok(vs) => spec_decode_envelope(*self, b@) == Ok::<_, ProtocolError>(
                    spec_models(vs@),
                ),
                Err(e) => spec_decode_envelope(*self, b@) == Err::<Seq<ValueModel>, _>(e),
            },
    {
        let tag = match decode_tag(b) {
            None => {
                return Err(ProtocolError::Malformed);
            },
            Some(tag) => tag,
        };
        let (deser_id, deser_ver) = tag.get_identifier();
        if let Err(e) = validate_tag(deser_id, deser_ver, self.id, self.max_revision) {
            return Err(e);
        }
        if deser_ver.major < 1 {
            return Err(ProtocolError::Malformed);
        }
        let r = deser_ver.major as u16;
        let ghost payload = b@.subrange(32, b@.len() as int);
        if b.len() - 32 < 2 {
            return Err(ProtocolError::Malformed);
        }
        let discriminant = u16_from_le_bytes(slice_subrange(b.as_slice(), 32, 34));
        proof {
            assert(b@.subrange(32, 34) =~= payload.subrange(0, 2));
        }
        if discriminant != r {
            return Err(ProtocolError::Malformed);
        }
        let count = self.arity(r);
        proof {
            assert(b@.subrange(34, b@.len() as int) =~= payload.subrange(
                2,
                payload.len() as int,
            ));
        }
        match decode_record(b, 34, count) {
            None => Err(ProtocolError::Malformed),
            Some((vs, newpos)) => {
                if newpos != b.len() {
                    return Err(ProtocolError::Malformed);
                }
                Ok(self.to_canonical(r, &vs))
            },
        }
    }
}

/// Backward compatibility: an envelope written at any revision
/// `1 <= r <= max` decodes successfully and yields exactly the forward
/// conversion of its record — older payloads are never refused.
pub proof fn lemma_backward_compatible(fam: TypeFamily, r: int, vs: Seq<ValueModel>)
    requires
        fam.wf(),
        1 <= r <= fam.max_revision,
        vs.len() == fam.spec_arity(r),
        spec_record_wf(vs),
    ensures
        spec_decode_envelope(fam, spec_envelope_bytes(fam, r, vs)) == Ok::<_, ProtocolError>(
            fam.spec_forward(r, vs),
        ),
{
    vstd::bytes::lemma_auto_spec_u16_to_from_le_bytes();
    let ver = FixedVersion { major: r as u64, minor: 0, patch: 0 };
    let rest = spec_u16_to_le_bytes(r as u16) + spec_encode_record(vs);
    let b = spec_envelope_bytes(fam, r, vs);
    assert(b =~= spec_tag_bytes(fam.id, ver) + rest);
    lemma_tag_roundtrip(fam.id, ver, rest);
    let payload = b.subrange(32, b.len() as int);
    assert(payload =~= rest);
    assert(payload.subrange(0, 2) =~= spec_u16_to_le_bytes(r as u16));
    assert(payload.subrange(2, payload.len() as int) =~= spec_encode_record(vs));
    lemma_record_roundtrip(vs, Seq::empty());
    assert(spec_encode_record(vs) + Seq::<u8>::empty() =~= spec_encode_record(vs));
}

/// Round trip: a canonical record encoded at the current revision decodes
/// back to exactly the same record, with no data loss.
pub proof fn lemma_roundtrip_current(fam: TypeFamily, vs: Seq<ValueModel>)
    requires
        fam.wf(),
        vs.len() == fam.spec_arity(fam.max_revision as int),
        spec_record_wf(vs),
    ensures
        spec_decode_envelope(fam, spec_envelope_bytes(fam, fam.max_revision as int, vs))
            == Ok::<_, ProtocolError>(vs),
{
    lemma_backward_compatible(fam, fam.max_revision as int, vs);
    fam.lemma_forward_at_max_identity(vs);
}

/// Forward rejection: when the tag carries the family's identifier but a
/// major version above the current maximum, decoding stops with
/// `VersionTooNew` carrying both versions — and nothing behind the 32-byte
/// tag matters, so the payload is demonstrably never decoded.
pub proof fn lemma_forward_rejection(fam: TypeFamily, b1: Seq<u8>, b2: Seq<u8>)
    requires
        fam.wf(),
        b1.len() >= 32,
        b2.len() >= 32,
        b1.subrange(0, 32) == b2.subrange(0, 32),
        ({
            let tag = spec_decode_tag(b1);
            &&& tag matches Some((id, ver))
            &&& id == fam.id
            &&& ver.major > fam.max_revision
        }),
    ensures
        ({
            let (id, ver) = spec_decode_tag(b1)->Some_0;
            &&& spec_decode_envelope(fam, b1) == Err::<Seq<ValueModel>, _>(
                ProtocolError::VersionTooNew(
                    VersionTooNewError {
                        deser_ver: ver.major,
                        current_max_ver: fam.max_revision as u64,
                    },
                ),
            )
            &&& spec_decode_envelope(fam, b2) == spec_decode_envelope(fam, b1)
        }),
{
    crate::envelope::lemma_tag_depends_on_prefix(b1, b2);
}

} // verus!
