//! Revision families for enums: per revision, the subset of variants alive
//! there, each variant carrying its own windowed fields.
//!
//! For an enum the user-facing value is the aggregate itself — a revision
//! number, a variant, and that variant's fields — so deserialization
//! validates the tag, checks that the named variant exists at the tagged
//! revision, and hands the value back without a conversion step.

use vstd::prelude::*;
use vstd::bytes::{
    spec_u16_from_le_bytes, spec_u16_to_le_bytes, spec_u64_from_le_bytes, spec_u64_to_le_bytes,
    u16_from_le_bytes, u16_to_le_bytes, u64_from_le_bytes, u64_to_le_bytes,
};
use vstd::slice::slice_subrange;
use vstd::string::StringExecFns;
use crate::codec::{
    decode_record, encode_record, spec_decode_record, spec_encode_record, spec_record_wf,
    lemma_record_roundtrip,
};
use crate::envelope::{
    decode_tag, encode_tag, spec_decode_tag, spec_tag_bytes, lemma_tag_roundtrip,
};
use crate::generate::RevisionType;
use crate::ident::{spec_id_of, FixedId};
use crate::protocol::{spec_validate_tag, validate_tag, ProtocolError};
use crate::schema::{
    resolve, spec_all_windows_valid, spec_members, FieldDef, RevisionWindow, SchemaError,
};
use crate::typename::{spec_dec_u64, u64_to_dec};
use crate::value::{spec_models, Value, ValueModel};
use crate::version::FixedVersion;

verus! {

broadcast use vstd::std_specs::vec::group_vec_axioms;

/// One declared enum variant: its name, the window of revisions in which
/// the variant exists, and its own windowed fields.
#[derive(Debug)]
pub struct VariantDef {
    /// The variant's declared name.
    pub name: String,
    /// The revisions in which the variant exists.
    pub window: RevisionWindow,
    /// The variant's fields, each with its own window.
    pub fields: Vec<FieldDef>,
}

/// An enum schema to compile: the declared name, the maximum revision, and
/// the windowed variants.
#[derive(Debug)]
pub struct EnumSchemaDef {
    /// The declared type name.
    pub name: String,
    /// The maximum revision, when declared on the item itself.
    pub revision: Option<usize>,
    /// The declared variants.
    pub variants: Vec<VariantDef>,
}

/// The variants seen only through their windows, for reusing the field
/// resolver on them.
pub open spec fn spec_variant_shadow(vs: Seq<VariantDef>) -> Seq<FieldDef> {
    vs.map_values(
        |v: VariantDef| FieldDef { name: v.name, window: v.window, default: None },
    )
}

/// A compiled enum schema: one concrete revision type per revision, each
/// listing the variants alive there, and per variant the fields alive at
/// every revision.
#[derive(Debug)]
pub struct EnumFamily {
    /// The family's declared name.
    pub name: String,
    /// The one logical identifier every member shares.
    pub id: FixedId,
    /// The current maximum revision.
    pub max_revision: u16,
    /// The declared variants.
    pub variants: Vec<VariantDef>,
    /// One concrete type per revision, whose field list holds the indices
    /// of the variants alive at that revision.
    pub revisions: Vec<RevisionType>,
    /// Per variant, per revision, the indices of the variant's fields
    /// alive at that revision.
    pub variant_members: Vec<Vec<Vec<usize>>>,
}

impl EnumFamily {
    /// Well-formedness: the alive sets are exactly what the resolver
    /// computes, for the variants and for each variant's fields, and every
    /// revision carries the family identifier with its own version.
    pub open spec fn wf(&self) -> bool {
        &&& 1 <= self.max_revision
        &&& spec_all_windows_valid(spec_variant_shadow(self.variants@), self.max_revision as int)
        &&& self.revisions@.len() == self.max_revision
        &&& forall|k: int|
            0 <= k < self.max_revision ==> (#[trigger] self.revisions@[k]).fields@ == spec_members(
                spec_variant_shadow(self.variants@),
                k + 1,
            )
        &&& forall|k: int|
            0 <= k < self.max_revision ==> (#[trigger] self.revisions@[k]).version == (FixedVersion {
                major: (k + 1) as u64,
                minor: 0,
                patch: 0,
            })
        &&& forall|k: int|
            0 <= k < self.max_revision ==> (#[trigger] self.revisions@[k]).id == self.id
        &&& self.variant_members@.len() == self.variants@.len()
        &&& forall|d: int|
            0 <= d < self.variants@.len() ==> spec_all_windows_valid(
                (#[trigger] self.variants@[d]).fields@,
                self.max_revision as int,
            )
        &&& forall|d: int|
            0 <= d < self.variants@.len() ==> (#[trigger] self.variant_members@[d])@.len()
                == self.max_revision
        &&& forall|d: int, k: int|
            #![trigger self.variant_members@[d]@[k]]
            0 <= d < self.variants@.len() && 0 <= k < self.max_revision
                ==> self.variant_members@[d]@[k]@ == spec_members(
                self.variants@[d].fields@,
                k + 1,
            )
    }

    /// The number of fields variant `d` holds at revision `r`.
    pub open spec fn spec_arity(&self, d: int, r: int) -> int {
        spec_members(self.variants@[d].fields@, r).len() as int
    }

    /// A variant is listed in a revision's concrete type exactly when its
    /// window includes that revision.
    pub proof fn lemma_variant_membership(&self, r: int, d: int)
        requires
            self.wf(),
            1 <= r <= self.max_revision,
            0 <= d < self.variants@.len(),
        ensures
            self.revisions@.len() == self.max_revision,
            self.revisions@[r - 1].fields@.contains(d as usize) <==> self.variants@[d].window
                .spec_includes(r),
    {
        assert(self.variants@.len() == self.variants.len());
        assert(spec_variant_shadow(self.variants@)[d].window == self.variants@[d].window);
        crate::schema::lemma_members_iff(spec_variant_shadow(self.variants@), r, d);
    }

    /// The number of fields variant `d` carries at revision `r`.
    pub fn arity(&self, d: usize, r: u16) -> (n: usize)
        requires
            self.wf(),
            1 <= r <= self.max_revision,
            d < self.variants@.len(),
        ensures
            n == self.spec_arity(d as int, r as int),
    {
        self.variant_members[d][(r - 1) as usize].len()
    }

    /// Serialize a value of variant `d` at revision `r`.
    pub fn encode_at(&self, r: u16, d: usize, fields: &Vec<Value>) -> (out: Vec<u8>)
        requires
            self.wf(),
            1 <= r <= self.max_revision,
            d < self.variants@.len(),
            self.variants@[d as int].window.spec_includes(r as int),
            fields@.len() == self.spec_arity(d as int, r as int),
        ensures
            out@ == spec_enum_envelope_bytes(*self, r as int, d as int, spec_models(fields@)),
            spec_record_wf(spec_models(fields@)),
    {
        let mut out: Vec<u8> = Vec::new();
        encode_tag(self.id, FixedVersion::new(r as u64, 0, 0), &mut out);
        let mut discriminant = u16_to_le_bytes(r);
        out.append(&mut discriminant);
        let mut variant_bytes = u64_to_le_bytes(d as u64);
        out.append(&mut variant_bytes);
        encode_record(fields, &mut out);
        proof {
            assert(out@ =~= spec_enum_envelope_bytes(
                *self,
                r as int,
                d as int,
                spec_models(fields@),
            ));
        }
        out
    }

    /// Deserialize an enum envelope into its revision, variant, and field
    /// record.
    ///
    /// The identifier and version are validated first, without touching
    /// the payload; then the payload must name a variant that exists at
    /// the tagged revision and carry exactly that variant's fields.
    pub fn decode(&self, b: &Vec<u8>) -> (r: Result<(u16, usize, Vec<Value>), ProtocolError>)
        requires
            self.wf(),
        ensures
            match r {
                Ok((rev, d, vs)) => spec_decode_enum_envelope(*self, b@) == Ok::<
                    _,
                    ProtocolError,
                >((rev, d, spec_models(vs@))),
                Err(e) => spec_decode_enum_envelope(*self, b@) == Err::<
                    (u16, usize, Seq<ValueModel>),
                    _,
                >(e),
            },
    {
        let tag = match decode_tag(b) {
            None => {
                return Err(ProtocolError::Malformed);
            },
            Some(tag) => tag,
        };
        let (deser_id, deser_ver) = tag.get_identifier();
        if let Err(e) = validate_tag(deser_id, deser_ver, self.id, self.max_revision) {
            return Err(e);
        }
        if deser_ver.major < 1 {
            return Err(ProtocolError::Malformed);
        }
        let r = deser_ver.major as u16;
        let ghost payload = b@.subrange(32, b@.len() as int);
        if b.len() - 32 < 10 {
            return Err(ProtocolError::Malformed);
        }
        let discriminant = u16_from_le_bytes(slice_subrange(b.as_slice(), 32, 34));
        proof {
            assert(b@.subrange(32, 34) =~= payload.subrange(0, 2));
        }
        if discriminant != r {
            return Err(ProtocolError::Malformed);
        }
        let variant = u64_from_le_bytes(slice_subrange(b.as_slice(), 34, 42));
        proof {
            assert(b@.subrange(34, 42) =~= payload.subrange(2, 10));
        }
        if variant >= self.variants.len() as u64 {
            return Err(ProtocolError::Malformed);
        }
        let d = variant as usize;
        if !self.variants[d].window.includes(r) {
            return Err(ProtocolError::Malformed);
        }
        let count = self.arity(d, r);
        proof {
            assert(b@.subrange(42, b@.len() as int) =~= payload.subrange(
                10,
                payload.len() as int,
            ));
        }
        match decode_record(b, 42, count) {
            None => Err(ProtocolError::Malformed),
            Some((vs, newpos)) => {
                if newpos != b.len() {
                    return Err(ProtocolError::Malformed);
                }
                Ok((r, d, vs))
            },
        }
    }
}

/// The full wire form of a variant-`d` value at revision `r`: the 32-byte
/// tag, the 16-bit revision discriminant, the 64-bit variant discriminant
/// (the variant's declaration index, stable across revisions), and the
/// field record.
pub open spec fn spec_enum_envelope_bytes(
    fam: EnumFamily,
    r: int,
    d: int,
    vs: Seq<ValueModel>,
) -> Seq<u8> {
    spec_tag_bytes(fam.id, FixedVersion { major: r as u64, minor: 0, patch: 0 })
        + spec_u16_to_le_bytes(r as u16) + spec_u64_to_le_bytes(d as u64) + spec_encode_record(vs)
}

/// What decoding an enum envelope yields: the revision, the variant, and
/// its field record, or the typed error that refused it.
pub open spec fn spec_decode_enum_envelope(fam: EnumFamily, b: Seq<u8>) -> Result<
    (u16, usize, Seq<ValueModel>),
    ProtocolError,
> {
    match spec_decode_tag(b) {
        None => Err(ProtocolError::Malformed),
        Some((id, ver)) => match spec_validate_tag(id, ver, fam.id, fam.max_revision) {
            Err(e) => Err(e),
            Ok(()) => if ver.major < 1 {
                Err(ProtocolError::Malformed)
            } else {
                let r = ver.major as int;
                let payload = b.subrange(32, b.len() as int);
                if payload.len() < 10 {
                    Err(ProtocolError::Malformed)
                } else if spec_u16_from_le_bytes(payload.subrange(0, 2)) as int != r {
                    Err(ProtocolError::Malformed)
                } else {
                    let d = spec_u64_from_le_bytes(payload.subrange(2, 10)) as int;
                    if d >= fam.variants@.len() {
                        Err(ProtocolError::Malformed)
                    } else if !fam.variants@[d].window.spec_includes(r) {
                        Err(ProtocolError::Malformed)
                    } else {
                        match spec_decode_record(
                            payload.subrange(10, payload.len() as int),
                            fam.spec_arity(d, r),
                        ) {
                            None => Err(ProtocolError::Malformed),
                            Some((vs, n)) => if 10 + n == payload.len() {
                                Ok((ver.major as u16, d as usize, vs))
                            } else {
                                Err(ProtocolError::Malformed)
                            },
                        }
                    }
                }
            },
        },
    }
}

/// Backward compatibility for enums: a value of any variant alive at any
/// revision `1 <= r <= max` decodes back to exactly the revision, variant
/// and fields it was written with.
pub proof fn lemma_enum_backward_compatible(
    fam: EnumFamily,
    r: int,
    d: int,
    vs: Seq<ValueModel>,
)
    requires
        fam.wf(),
        1 <= r <= fam.max_revision,
        0 <= d < fam.variants@.len(),
        fam.variants@[d].window.spec_includes(r),
        vs.len() == fam.spec_arity(d, r),
        spec_record_wf(vs),
    ensures
        spec_decode_enum_envelope(fam, spec_enum_envelope_bytes(fam, r, d, vs)) == Ok::<
            _,
            ProtocolError,
        >((r as u16, d as usize, vs)),
{
    vstd::bytes::lemma_auto_spec_u16_to_from_le_bytes();
    vstd::bytes::lemma_auto_spec_u64_to_from_le_bytes();
    assert(fam.variants@.len() == fam.variants.len());
    let ver = FixedVersion { major: r as u64, minor: 0, patch: 0 };
    let rest = spec_u16_to_le_bytes(r as u16) + spec_u64_to_le_bytes(d as u64)
        + spec_encode_record(vs);
    let b = spec_enum_envelope_bytes(fam, r, d, vs);
    assert(b =~= spec_tag_bytes(fam.id, ver) + rest);
    lemma_tag_roundtrip(fam.id, ver, rest);
    let payload = b.subrange(32, b.len() as int);
    assert(payload =~= rest);
    assert(payload.subrange(0, 2) =~= spec_u16_to_le_bytes(r as u16));
    assert(payload.subrange(2, 10) =~= spec_u64_to_le_bytes(d as u64));
    assert(payload.subrange(10, payload.len() as int) =~= spec_encode_record(vs));
    lemma_record_roundtrip(vs, Seq::empty());
    assert(spec_encode_record(vs) + Seq::<u8>::empty() =~= spec_encode_record(vs));
}

/// Forward rejection for enums: a tag carrying the family's identifier
/// and a major version above the current maximum is rejected with
/// `VersionTooNew`, and nothing behind the 32-byte tag matters.
pub proof fn lemma_enum_forward_rejection(fam: EnumFamily, b1: Seq<u8>, b2: Seq<u8>)
    requires
        fam.wf(),
        b1.len() >= 32,
        b2.len() >= 32,
        b1.subrange(0, 32) == b2.subrange(0, 32),
        ({
            let tag = spec_decode_tag(b1);
            &&& tag matches Some((id, ver))
            &&& id == fam.id
            &&& ver.major > fam.max_revision
        }),
    ensures
        ({
            let (id, ver) = spec_decode_tag(b1)->Some_0;
            &&& spec_decode_enum_envelope(fam, b1) == Err::<(u16, usize, Seq<ValueModel>), _>(
                ProtocolError::VersionTooNew(
                    crate::protocol::VersionTooNewError {
                        deser_ver: ver.major,
                        current_max_ver: fam.max_revision as u64,
                    },
                ),
            )
            &&& spec_decode_enum_envelope(fam, b2) == spec_decode_enum_envelope(fam, b1)
        }),
{
    crate::envelope::lemma_tag_depends_on_prefix(b1, b2);
}

/// Compile an enum schema into its revision family.
///
/// The maximum revision must be declared exactly once; every variant
/// window and every field window inside each variant is validated against
/// `[1, max]`, the first violation being reported with its name.  On
/// success the family lists, per revision, exactly the variants alive
/// there, and per variant the fields alive at each revision, all under one
/// identifier hashed from the family name.
#[verifier::loop_isolation(false)]
pub fn generate_enum(schema: EnumSchemaDef, attr_revision: Option<usize>) -> (r: Result<
    EnumFamily,
    SchemaError,
>)
    ensures
        match r {
            Ok(fam) => {
                &&& fam.wf()
                &&& ({
                    ||| (schema.revision matches Some(v) && attr_revision is None && v
                        == fam.max_revision)
                    ||| (attr_revision matches Some(v) && schema.revision is None && v
                        == fam.max_revision)
                })
                &&& fam.name == schema.name
                &&& fam.variants == schema.variants
                &&& fam.id == spec_id_of(schema.name@, None)
                &&& forall|k: int|
                    0 <= k < fam.max_revision ==> (#[trigger] fam.revisions@[k]).name@
                        == schema.name@ + "_"@ + spec_dec_u64(k + 1)
            },
            Err(SchemaError::MissingRevisionSpecified) => schema.revision is None
                && attr_revision is None,
            Err(SchemaError::DuplicateRevisionSpecified) => schema.revision is Some
                && attr_revision is Some,
            Err(SchemaError::InvalidRevision { value }) => {
                &&& ({
                    ||| (schema.revision matches Some(v) && attr_revision is None && v == value)
                    ||| (attr_revision matches Some(v) && schema.revision is None && v == value)
                })
                &&& (value == 0 || value > u16::MAX)
            },
            Err(SchemaError::RevisionOutOfRange { field, window }) => {
                &&& !window.spec_valid(enum_window_max(schema, attr_revision))
                &&& ({
                    ||| exists|i: int|
                        {
                            &&& 0 <= i < schema.variants@.len()
                            &&& (#[trigger] schema.variants@[i]).window == window
                            &&& schema.variants@[i].name@ == field@
                        }
                    ||| exists|i: int, j: int|
                        {
                            &&& 0 <= i < schema.variants@.len()
                            &&& 0 <= j < (#[trigger] schema.variants@[i]).fields@.len()
                            &&& (#[trigger] schema.variants@[i].fields@[j]).window == window
                            &&& schema.variants@[i].fields@[j].name@ == field@
                        }
                })
            },
            Err(_) => false,
        },
{
    let max_usize: usize = match (schema.revision, attr_revision) {
        (Some(v), None) => v,
        (None, Some(v)) => v,
        (None, None) => {
            return Err(SchemaError::MissingRevisionSpecified);
        },
        (Some(_), Some(_)) => {
            return Err(SchemaError::DuplicateRevisionSpecified);
        },
    };
    if max_usize == 0 || max_usize > u16::MAX as usize {
        return Err(SchemaError::InvalidRevision { value: max_usize as u64 });
    }
    let max: u16 = max_usize as u16;
    let n = schema.variants.len();
    let mut shadow: Vec<FieldDef> = Vec::new();
    let mut i: usize = 0;
    while i < n
        invariant
            n == schema.variants@.len(),
            i <= n,
            shadow@ =~= spec_variant_shadow(schema.variants@).take(i as int),
        decreases n - i,
    {
        shadow.push(
            FieldDef {
                name: schema.variants[i].name.clone(),
                window: schema.variants[i].window,
                default: None,
            },
        );
        proof {
            assert(shadow@ =~= spec_variant_shadow(schema.variants@).take(i + 1));
        }
        i = i + 1;
    }
    proof {
        assert(spec_variant_shadow(schema.variants@).take(n as int) =~= spec_variant_shadow(
            schema.variants@,
        ));
    }
    let mut sets = match resolve(max, &shadow) {
        Ok(sets) => sets,
        Err(e) => {
            proof {
                if let SchemaError::RevisionOutOfRange { field, window } = &e {
                    let i = choose|i: int|
                        {
                            &&& 0 <= i < shadow@.len()
                            &&& !(#[trigger] shadow@[i]).window.spec_valid(max as int)
                            &&& field@ == shadow@[i].name@
                            &&& window == shadow@[i].window
                            &&& forall|j: int|
                                0 <= j < i ==> (#[trigger] shadow@[j]).window.spec_valid(
                                    max as int,
                                )
                        };
                    assert(schema.variants@[i].window == window);
                    assert(schema.variants@[i].name@ == field@);
                }
            }
            return Err(e);
        },
    };
    let mut variant_members: Vec<Vec<Vec<usize>>> = Vec::new();
    let mut d: usize = 0;
    while d < n
        invariant
            n == schema.variants@.len(),
            d <= n,
            max >= 1,
            variant_members@.len() == d,
            forall|m: int|
                0 <= m < d ==> spec_all_windows_valid(
                    (#[trigger] schema.variants@[m]).fields@,
                    max as int,
                ),
            forall|m: int|
                0 <= m < d ==> (#[trigger] variant_members@[m])@.len() == max,
            forall|m: int, k: int|
                #![trigger variant_members@[m]@[k]]
                0 <= m < d && 0 <= k < max ==> variant_members@[m]@[k]@ == spec_members(
                    schema.variants@[m].fields@,
                    k + 1,
                ),
        decreases n - d,
    {
        match resolve(max, &schema.variants[d].fields) {
            Ok(member_sets) => {
                variant_members.push(member_sets);
            },
            Err(e) => {
                proof {
                    if let SchemaError::RevisionOutOfRange { field, window } = &e {
                        let fs = schema.variants@[d as int].fields@;
                        let j = choose|j: int|
                            {
                                &&& 0 <= j < fs.len()
                                &&& !(#[trigger] fs[j]).window.spec_valid(max as int)
                                &&& field@ == fs[j].name@
                                &&& window == fs[j].window
                                &&& forall|m: int|
                                    0 <= m < j ==> (#[trigger] fs[m]).window.spec_valid(
                                        max as int,
                                    )
                            };
                        assert((#[trigger] schema.variants@[d as int].fields@[j]).window
                            == window);
                        assert(schema.variants@[d as int].fields@[j].name@ == field@);
                    }
                }
                return Err(e);
            },
        }
        d = d + 1;
    }
    let id = FixedId::from_type_name(schema.name.as_str(), None);
    let ghost all_sets = sets@;
    let mut revisions: Vec<RevisionType> = Vec::new();
    let mut k: usize = 0;
    while k < max as usize
        invariant
            max >= 1,
            all_sets.len() == max,
            sets@ =~= all_sets.skip(k as int),
            k <= max,
            revisions@.len() == k,
            forall|m: int|
                0 <= m < k ==> (#[trigger] revisions@[m]).fields@ == (#[trigger] all_sets[m])@,
            forall|m: int|
                0 <= m < k ==> (#[trigger] revisions@[m]).version == (FixedVersion {
                    major: (m + 1) as u64,
                    minor: 0,
                    patch: 0,
                }),
            forall|m: int| 0 <= m < k ==> (#[trigger] revisions@[m]).id == id,
            forall|m: int|
                0 <= m < k ==> (#[trigger] revisions@[m]).name@ == schema.name@ + "_"@
                    + spec_dec_u64(m + 1),
        decreases max as int - k,
    {
        let members = sets.remove(0);
        let mut rev_name = schema.name.clone();
        rev_name.append("_");
        let suffix = u64_to_dec((k + 1) as u64);
        rev_name.append(suffix.as_str());
        let version = FixedVersion::new((k + 1) as u64, 0, 0);
        revisions.push(RevisionType { name: rev_name, version, id, fields: members });
        proof {
            assert(sets@ =~= all_sets.skip(k + 1));
        }
        k = k + 1;
    }
    proof {
        assert forall|m: int| 0 <= m < max implies (#[trigger] revisions@[m]).fields@
            == spec_members(spec_variant_shadow(schema.variants@), m + 1) by {
            assert(revisions@[m].fields@ == all_sets[m]@);
        }
    }
    Ok(
        EnumFamily {
            name: schema.name,
            id,
            max_revision: max,
            variants: schema.variants,
            revisions,
            variant_members,
        },
    )
}

/// The maximum revision an enum schema and attribute pair declares.
pub open spec fn enum_window_max(schema: EnumSchemaDef, attr_revision: Option<usize>) -> int {
    match (schema.revision, attr_revision) {
        (Some(v), None) => v as int,
        (None, Some(v)) => v as int,
        _ => 0,
    }
}

} // verus!
