//! The revision type family generator.
//!
//! From a schema — a name, a maximum revision, and windowed fields — the
//! generator produces one concrete type descriptor per revision, each
//! holding exactly the fields alive at that revision, each carrying the
//! family's one logical identifier together with its own version
//! `(r, 0, 0)`.  It also fixes the forward conversion that turns a value of
//! any revision into the canonical shape of the current revision.

use vstd::prelude::*;
use vstd::string::StringExecFns;
use crate::ident::{spec_id_of, FixedId};
use crate::schema::{
    resolve, spec_all_windows_valid, spec_members, FieldDef, SchemaError,
    lemma_members_bounds,
};
use crate::typename::{spec_dec_u64, u64_to_dec};
use crate::value::{spec_models, Value, ValueModel};
use crate::version::FixedVersion;

verus! {

broadcast use vstd::std_specs::vec::group_vec_axioms;

/// One concrete revision type: the fields of the schema that are alive at
/// its revision, under the family's identifier and the revision's own
/// version.
#[derive(Debug)]
pub struct RevisionType {
    /// The concrete type's name: the family name with `_r` appended.
    pub name: String,
    /// The revision's own version, `(r, 0, 0)`.
    pub version: FixedVersion,
    /// The family's logical identifier, shared by every member.
    pub id: FixedId,
    /// The indices of the schema fields alive at this revision, in
    /// declaration order.
    pub fields: Vec<usize>,
}

/// A schema to compile: the declared name, the maximum revision (which may
/// be declared on the item itself), and the windowed fields.
#[derive(Debug)]
pub struct SchemaDef {
    /// The declared type name.
    pub name: String,
    /// The maximum revision, when declared on the item itself.
    pub revision: Option<usize>,
    /// The declared fields with their windows and defaults.
    pub fields: Vec<FieldDef>,
}

/// A compiled schema: one concrete type per revision, the canonical shape
/// being that of the highest revision.
#[derive(Debug)]
pub struct TypeFamily {
    /// The family's declared name.
    pub name: String,
    /// The one logical identifier every member shares, hashed from the
    /// name alone so that it survives revision changes.
    pub id: FixedId,
    /// The current maximum revision.
    pub max_revision: u16,
    /// The declared fields.
    pub fields: Vec<FieldDef>,
    /// One concrete type per revision `1..=max_revision`, in order.
    pub revisions: Vec<RevisionType>,
}

/// The number of fields alive at field index `i`'s left: the position a
/// field occupies within the record of revision `r`.
pub open spec fn spec_pos(fields: Seq<FieldDef>, r: int, i: int) -> int {
    spec_members(fields.take(i), r).len() as int
}

/// The resolved member list of a shorter prefix is a prefix of the longer
/// one's.
pub proof fn lemma_members_monotone(fields: Seq<FieldDef>, r: int, i: int)
    requires
        0 <= i <= fields.len(),
    ensures
        spec_members(fields.take(i), r).len() <= spec_members(fields, r).len(),
        forall|p: int|
            0 <= p < spec_members(fields.take(i), r).len() ==> #[trigger] spec_members(
                fields.take(i),
                r,
            )[p] == spec_members(fields, r)[p],
    decreases fields.len() - i,
{
    if i == fields.len() {
        assert(fields.take(i) =~= fields);
    } else {
        lemma_members_monotone(fields, r, i + 1);
        assert(fields.take(i + 1).drop_last() =~= fields.take(i));
        let m1 = spec_members(fields.take(i), r);
        let m2 = spec_members(fields.take(i + 1), r);
        assert forall|p: int| 0 <= p < m1.len() implies #[trigger] m1[p] == spec_members(
            fields,
            r,
        )[p] by {
            assert(m1[p] == m2[p]);
            assert(m2[p] == spec_members(fields, r)[p]);
        }
    }
}

/// A field alive at revision `r` sits in that revision's member list at
/// position `spec_pos`: the count of alive fields declared before it.
pub proof fn lemma_member_position(fields: Seq<FieldDef>, r: int, i: int)
    requires
        fields.len() <= usize::MAX,
        0 <= i < fields.len(),
        fields[i].window.spec_includes(r),
    ensures
        0 <= spec_pos(fields, r, i) < spec_members(fields, r).len(),
        spec_members(fields, r)[spec_pos(fields, r, i)] == i as usize,
{
    let p = spec_pos(fields, r, i);
    assert(fields.take(i + 1).drop_last() =~= fields.take(i));
    assert(fields.take(i + 1).last() == fields[i]);
    assert(spec_members(fields.take(i + 1), r).len() == p + 1);
    assert(spec_members(fields.take(i + 1), r)[p] == i as usize);
    lemma_members_monotone(fields, r, i + 1);
}

impl TypeFamily {
    /// Well-formedness: the member lists are exactly what the resolver
    /// computes, every revision carries the family identifier and its own
    /// version, and every field alive at the current revision but added
    /// after revision 1 has a default.
    pub open spec fn wf(&self) -> bool {
        &&& 1 <= self.max_revision
        &&& spec_all_windows_valid(self.fields@, self.max_revision as int)
        &&& self.revisions@.len() == self.max_revision
        &&& forall|k: int|
            0 <= k < self.max_revision ==> (#[trigger] self.revisions@[k]).fields@ == spec_members(
                self.fields@,
                k + 1,
            )
        &&& forall|k: int|
            0 <= k < self.max_revision ==> (#[trigger] self.revisions@[k]).version == (FixedVersion {
                major: (k + 1) as u64,
                minor: 0,
                patch: 0,
            })
        &&& forall|k: int|
            0 <= k < self.max_revision ==> (#[trigger] self.revisions@[k]).id == self.id
        &&& forall|i: int|
            0 <= i < self.fields@.len() && (#[trigger] self.fields@[i]).window.spec_includes(
                self.max_revision as int,
            ) && self.fields@[i].window.start > 1 ==> self.fields@[i].default is Some
    }

    /// The number of fields a record of revision `r` holds.
    pub open spec fn spec_arity(&self, r: int) -> int {
        spec_members(self.fields@, r).len() as int
    }

    /// The canonical value a revision-`r` record converts forward to: each
    /// field of the current revision takes its value from the record when
    /// it was alive at `r`, and its declared default when it was not.
    pub open spec fn spec_forward(&self, r: int, vs: Seq<ValueModel>) -> Seq<ValueModel> {
        let members_max = spec_members(self.fields@, self.max_revision as int);
        Seq::new(
            members_max.len(),
            |p: int|
                {
                    let i = members_max[p] as int;
                    if self.fields@[i].window.spec_includes(r) {
                        vs[spec_pos(self.fields@, r, i)]
                    } else {
                        self.fields@[i].default->Some_0@
                    }
                },
        )
    }

    /// Converting a record of the current revision forward changes
    /// nothing: the canonical shape is the current revision's shape.
    pub proof fn lemma_forward_at_max_identity(&self, vs: Seq<ValueModel>)
        requires
            self.wf(),
            vs.len() == self.spec_arity(self.max_revision as int),
        ensures
            self.spec_forward(self.max_revision as int, vs) == vs,
    {
        let max = self.max_revision as int;
        let members = spec_members(self.fields@, max);
        assert(self.fields@.len() == self.fields.len());
        lemma_members_bounds(self.fields@, max);
        assert forall|p: int| 0 <= p < members.len() implies self.spec_forward(max, vs)[p]
            == vs[p] by {
            let i = members[p] as int;
            crate::schema::lemma_members_iff(self.fields@, max, i);
            assert(members.contains(members[p]));
            assert(self.fields@[i].window.spec_includes(max));
            lemma_member_position(self.fields@, max, i);
            let q = spec_pos(self.fields@, max, i);
            assert(members[q] == i as usize);
            if p < q {
                assert(members[p] < members[q]);
                assert(false);
            }
            if q < p {
                assert(members[q] < members[p]);
                assert(false);
            }
        }
        assert(self.spec_forward(max, vs) =~= vs);
    }

    /// The family holds exactly one concrete type per revision, and the
    /// fields of the type for revision `r` are exactly the schema fields
    /// whose window includes `r`, in declaration order.
    pub proof fn lemma_revision_membership(&self, r: int, i: int)
        requires
            self.wf(),
            1 <= r <= self.max_revision,
            0 <= i < self.fields@.len(),
        ensures
            self.revisions@.len() == self.max_revision,
            self.revisions@[r - 1].fields@.contains(i as usize) <==> self.fields@[i].window
                .spec_includes(r),
    {
        assert(self.fields@.len() == self.fields.len());
        crate::schema::lemma_members_iff(self.fields@, r, i);
    }

    /// The version of the current maximum revision: what every newly
    /// serialized value is tagged with.
    pub fn max_type_version(&self) -> (r: FixedVersion)
        ensures
            r == (FixedVersion { major: self.max_revision as u64, minor: 0, patch: 0 }),
    {
        FixedVersion::new(self.max_revision as u64, 0, 0)
    }

    /// The number of fields a record of revision `r` must hold.
    pub fn arity(&self, r: u16) -> (n: usize)
        requires
            self.wf(),
            1 <= r <= self.max_revision,
        ensures
            n == self.spec_arity(r as int),
    {
        self.revisions[(r - 1) as usize].fields.len()
    }

    /// Convert a record of revision `r` forward to the canonical shape of
    /// the current revision, supplying declared defaults for fields the
    /// older revision did not carry.
    pub fn to_canonical(&self, r: u16, vs: &Vec<Value>) -> (out: Vec<Value>)
        requires
            self.wf(),
            1 <= r <= self.max_revision,
            vs@.len() == self.spec_arity(r as int),
        ensures
            spec_models(out@) == self.spec_forward(r as int, spec_models(vs@)),
    {
        let max_members = &self.revisions[(self.max_revision - 1) as usize].fields;
        let mut out: Vec<Value> = Vec::new();
        let mut p: usize = 0;
        proof {
            assert(self.fields@.len() == self.fields.len());
            lemma_members_bounds(self.fields@, self.max_revision as int);
        }
        while p < max_members.len()
            invariant
                self.wf(),
                1 <= r <= self.max_revision,
                vs@.len() == self.spec_arity(r as int),
                max_members == self.revisions@[self.max_revision - 1].fields,
                p <= max_members@.len(),
                out@.len() == p,
                forall|q: int|
                    0 <= q < p ==> (#[trigger] out@[q])@ == self.spec_forward(
                        r as int,
                        spec_models(vs@),
                    )[q],
            decreases max_members@.len() - p,
        {
            proof {
                assert(self.fields@.len() == self.fields.len());
                lemma_members_bounds(self.fields@, self.max_revision as int);
                assert(spec_members(self.fields@, self.max_revision as int).contains(
                    max_members@[p as int],
                ));
            }
            let i = max_members[p];
            proof {
                crate::schema::lemma_members_iff(
                    self.fields@,
                    self.max_revision as int,
                    i as int,
                );
            }
            if self.fields[i].window.includes(r) {
                let mut cnt: usize = 0;
                let mut t: usize = 0;
                while t < i
                    invariant
                        self.wf(),
                        1 <= r <= self.max_revision,
                        vs@.len() == self.spec_arity(r as int),
                        i < self.fields@.len(),
                        t <= i,
                        cnt <= t,
                        cnt == spec_members(self.fields@.take(t as int), r as int).len(),
                    decreases i - t,
                {
                    proof {
                        assert(self.fields@.take(t + 1).drop_last() =~= self.fields@.take(
                            t as int,
                        ));
                        assert(self.fields@.take(t + 1).last() == self.fields@[t as int]);
                    }
                    if self.fields[t].window.includes(r) {
                        cnt = cnt + 1;
                    }
                    t = t + 1;
                }
                proof {
                    assert(self.fields@.len() == self.fields.len());
                    lemma_member_position(self.fields@, r as int, i as int);
                    assert(spec_pos(self.fields@, r as int, i as int) == cnt);
                }
                out.push(vs[cnt].duplicate());
            } else {
                proof {
                    assert(self.fields@[i as int].window.start > 1);
                }
                match &self.fields[i].default {
                    Some(d) => {
                        out.push(d.duplicate());
                    },
                    None => {
                        proof {
                            assert(false);
                        }
                        unreached()
                    },
                }
            }
            p = p + 1;
        }
        proof {
            assert(spec_models(out@) =~= self.spec_forward(r as int, spec_models(vs@)));
        }
        out
    }
}

/// Compile a schema into its revision type family.
///
/// The maximum revision must be declared exactly once — on the item or in
/// the attribute — and must fit the supported width.  Every window is
/// validated against `[1, max]`, and every field alive at the current
/// revision but absent from some earlier one must declare a default; the
/// first violation is reported.  On success the family holds exactly one
/// concrete type per revision, whose fields are exactly those alive at
/// that revision, all sharing the identifier hashed from the family name
/// alone while carrying their own versions.
#[verifier::loop_isolation(false)]
pub fn generate(schema: SchemaDef, attr_revision: Option<usize>) -> (r: Result<
    TypeFamily,
    SchemaError,
>)
    ensures
        match r {
            Ok(fam) => {
                &&& fam.wf()
                &&& ({
                    ||| (schema.revision matches Some(v) && attr_revision is None && v
                        == fam.max_revision)
                    ||| (attr_revision matches Some(v) && schema.revision is None && v
                        == fam.max_revision)
                })
                &&& fam.name == schema.name
                &&& fam.fields == schema.fields
                &&& fam.id == spec_id_of(schema.name@, None)
                &&& forall|k: int|
                    0 <= k < fam.max_revision ==> (#[trigger] fam.revisions@[k]).name@
                        == schema.name@ + "_"@ + spec_dec_u64(k + 1)
            },
            Err(SchemaError::MissingRevisionSpecified) => schema.revision is None
                && attr_revision is None,
            Err(SchemaError::DuplicateRevisionSpecified) => schema.revision is Some
                && attr_revision is Some,
            Err(SchemaError::InvalidRevision { value }) => {
                &&& ({
                    ||| (schema.revision matches Some(v) && attr_revision is None && v == value)
                    ||| (attr_revision matches Some(v) && schema.revision is None && v == value)
                })
                &&& (value == 0 || value > u16::MAX)
            },
            Err(SchemaError::RevisionOutOfRange { field, window }) => exists|i: int|
                {
                    &&& 0 <= i < schema.fields@.len()
                    &&& !(#[trigger] schema.fields@[i]).window.spec_valid(
                        window_max_of(schema, attr_revision),
                    )
                    &&& field@ == schema.fields@[i].name@
                    &&& window == schema.fields@[i].window
                },
            Err(SchemaError::MissingForwardConversion { field }) => exists|i: int|
                {
                    &&& 0 <= i < schema.fields@.len()
                    &&& field@ == (#[trigger] schema.fields@[i]).name@
                    &&& schema.fields@[i].window.spec_includes(
                        window_max_of(schema, attr_revision),
                    )
                    &&& schema.fields@[i].window.start > 1
                    &&& schema.fields@[i].default is None
                },
            Err(_) => false,
        },
{
    let max_usize: usize = match (schema.revision, attr_revision) {
        (Some(v), None) => v,
        (None, Some(v)) => v,
        (None, None) => {
            return Err(SchemaError::MissingRevisionSpecified);
        },
        (Some(_), Some(_)) => {
            return Err(SchemaError::DuplicateRevisionSpecified);
        },
    };
    if max_usize == 0 || max_usize > u16::MAX as usize {
        return Err(SchemaError::InvalidRevision { value: max_usize as u64 });
    }
    let max: u16 = max_usize as u16;
    let mut sets = match resolve(max, &schema.fields) {
        Ok(sets) => sets,
        Err(e) => {
            return Err(e);
        },
    };
    let n = schema.fields.len();
    let mut i: usize = 0;
    while i < n
        invariant
            n == schema.fields@.len(),
            i <= n,
            max >= 1,
            forall|j: int|
                0 <= j < i ==> !((#[trigger] schema.fields@[j]).window.spec_includes(max as int)
                    && schema.fields@[j].window.start > 1 && schema.fields@[j].default is None),
        decreases n - i,
    {
        if schema.fields[i].window.includes(max) && schema.fields[i].window.start > 1
            && schema.fields[i].default.is_none() {
            let field = schema.fields[i].name.clone();
            proof {
                assert(window_max_of(schema, attr_revision) == max as int);
                assert((#[trigger] schema.fields@[i as int]).window.spec_includes(
                    window_max_of(schema, attr_revision),
                ));
            }
            return Err(SchemaError::MissingForwardConversion { field });
        }
        i = i + 1;
    }
    let id = FixedId::from_type_name(schema.name.as_str(), None);
    let ghost all_sets = sets@;
    let mut revisions: Vec<RevisionType> = Vec::new();
    let mut k: usize = 0;
    while k < max as usize
        invariant
            max >= 1,
            all_sets.len() == max,
            sets@ =~= all_sets.skip(k as int),
            k <= max,
            revisions@.len() == k,
            forall|m: int|
                0 <= m < k ==> (#[trigger] revisions@[m]).fields@ == (#[trigger] all_sets[m])@,
            forall|m: int|
                0 <= m < k ==> (#[trigger] revisions@[m]).version == (FixedVersion {
                    major: (m + 1) as u64,
                    minor: 0,
                    patch: 0,
                }),
            forall|m: int| 0 <= m < k ==> (#[trigger] revisions@[m]).id == id,
            forall|m: int|
                0 <= m < k ==> (#[trigger] revisions@[m]).name@ == schema.name@ + "_"@
                    + spec_dec_u64(m + 1),
        decreases max as int - k,
    {
        let members = sets.remove(0);
        let mut rev_name = schema.name.clone();
        rev_name.append("_");
        let suffix = u64_to_dec((k + 1) as u64);
        rev_name.append(suffix.as_str());
        let version = FixedVersion::new((k + 1) as u64, 0, 0);
        revisions.push(RevisionType { name: rev_name, version, id, fields: members });
        proof {
            assert(sets@ =~= all_sets.skip(k + 1));
        }
        k = k + 1;
    }
    proof {
        assert forall|k: int| 0 <= k < max implies (#[trigger] revisions@[k]).fields@
            == spec_members(schema.fields@, k + 1) by {
            assert(revisions@[k].fields@ == all_sets[k]@);
        }
    }
    Ok(
        TypeFamily {
            name: schema.name,
            id,
            max_revision: max,
            fields: schema.fields,
            revisions,
        },
    )
}

/// The maximum revision a schema and attribute pair declares, for stating
/// which window was out of range.
pub open spec fn window_max_of(schema: SchemaDef, attr_revision: Option<usize>) -> int {
    match (schema.revision, attr_revision) {
        (Some(v), None) => v as int,
        (None, Some(v)) => v as int,
        _ => 0,
    }
}

} // verus!
