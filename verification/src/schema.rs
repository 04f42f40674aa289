//! The schema model and the revision window resolver.
//!
//! A schema declares a maximum revision `N` and, per field, the window of
//! revisions in which the field exists: an inclusive start (1 by default)
//! and an optional exclusive end.  The resolver validates every window
//! against `[1, N]` and computes, for each revision, exactly which fields
//! are present.  All of this runs once, at schema-definition time.

use vstd::prelude::*;
use crate::value::Value;

verus! {

/// The revision range in which a field exists: from `start` (inclusive, at
/// least 1) up to `end` (exclusive), or through the current maximum revision
/// when `end` is absent.
#[derive(Debug, Copy, Clone, PartialEq, Eq, Structural)]
pub struct RevisionWindow {
    /// The first revision (inclusive) in which the field exists.
    pub start: u16,
    /// One past the last revision in which the field exists, if bounded.
    pub end: Option<u16>,
}

impl RevisionWindow {
    /// Whether the window includes revision `r`.
    pub open spec fn spec_includes(self, r: int) -> bool {
        self.start <= r && match self.end {
            None => true,
            Some(e) => r < e,
        }
    }

    /// Whether the window lies within `[1, max]`: the start is in range, and
    /// a declared end exceeds the start without exceeding `max`.
    pub open spec fn spec_valid(self, max: int) -> bool {
        &&& 1 <= self.start <= max
        &&& match self.end {
            None => true,
            Some(e) => self.start < e <= max,
        }
    }

    /// The window of a field present in every revision.
    pub fn all() -> (r: RevisionWindow)
        ensures
            r == (RevisionWindow { start: 1u16, end: None::<u16> }),
    {
        RevisionWindow { start: 1, end: None }
    }

    /// The window of a field added in revision `start`.
    pub fn starting_at(start: u16) -> (r: RevisionWindow)
        ensures
            r == (RevisionWindow { start, end: None::<u16> }),
    {
        RevisionWindow { start, end: None }
    }

    /// The window of a field that exists from revision `start` up to, but
    /// not including, revision `end`.
    pub fn between(start: u16, end: u16) -> (r: RevisionWindow)
        ensures
            r == (RevisionWindow { start, end: Some(end) }),
    {
        RevisionWindow { start, end: Some(end) }
    }

    /// Whether the window includes revision `r`.
    pub fn includes(&self, r: u16) -> (b: bool)
        ensures
            b == self.spec_includes(r as int),
    {
        self.start <= r && match self.end {
            None => true,
            Some(e) => r < e,
        }
    }

    /// Whether the window lies within `[1, max]`.
    pub fn is_valid(&self, max: u16) -> (b: bool)
        ensures
            b == self.spec_valid(max as int),
    {
        1 <= self.start && self.start <= max && match self.end {
            None => true,
            Some(e) => self.start < e && e <= max,
        }
    }
}

/// One declared field (or enum variant) of a schema: its name, the window
/// of revisions in which it exists, and, when it was added after the first
/// revision, the default that reconstructs it from payloads of revisions
/// that lack it.
#[derive(Debug, Clone)]
pub struct FieldDef {
    /// The field's declared name.
    pub name: String,
    /// The revisions in which the field exists.
    pub window: RevisionWindow,
    /// The value the forward conversion supplies when a payload predates
    /// the field.
    pub default: Option<Value>,
}

/// An error in the schema declaration itself.  These surface when the
/// schema is compiled, never at decode time, and always stop the
/// definition step.
#[derive(Debug, Clone, PartialEq, Eq)]
pub enum SchemaError {
    /// The declared maximum revision is 0 or exceeds the supported width.
    InvalidRevision {
        /// The declared value.
        value: u64,
    },
    /// No maximum revision was declared.
    MissingRevisionSpecified,
    /// The maximum revision was declared in two places.
    DuplicateRevisionSpecified,
    /// A field's window does not lie within `[1, max_revision]`.
    RevisionOutOfRange {
        /// The offending field's name.
        field: String,
        /// Its declared window.
        window: RevisionWindow,
    },
    /// A field alive at the current revision was added after revision 1
    /// without a default, so payloads of older revisions could not be
    /// converted forward.
    MissingForwardConversion {
        /// The offending field's name.
        field: String,
    },
    /// An equality override names a declaration that is not known yet.
    UnknownOverrideTarget {
        /// The index the override referred to.
        target: usize,
    },
}

/// The indices of the fields whose window includes revision `r`, in
/// declaration order.
pub open spec fn spec_members(fields: Seq<FieldDef>, r: int) -> Seq<usize>
    decreases fields.len(),
{
    if fields.len() == 0 {
        Seq::empty()
    } else {
        let prefix = spec_members(fields.drop_last(), r);
        if fields.last().window.spec_includes(r) {
            prefix.push((fields.len() - 1) as usize)
        } else {
            prefix
        }
    }
}

/// Whether every field's window lies within `[1, max]`.
pub open spec fn spec_all_windows_valid(fields: Seq<FieldDef>, max: int) -> bool {
    forall|i: int| 0 <= i < fields.len() ==> (#[trigger] fields[i].window).spec_valid(max)
}

/// Membership in the resolved set is exactly window inclusion: field `i`
/// appears in `spec_members(fields, r)` if and only if its window includes
/// `r`, and it appears at most once.
pub proof fn lemma_members_iff(fields: Seq<FieldDef>, r: int, i: int)
    requires
        fields.len() <= usize::MAX,
        0 <= i < fields.len(),
    ensures
        spec_members(fields, r).contains(i as usize) <==> fields[i].window.spec_includes(r),
    decreases fields.len(),
{
    let m = spec_members(fields, r);
    let mp = spec_members(fields.drop_last(), r);
    assert(forall|k: int| 0 <= k < mp.len() ==> m[k] == mp[k]);
    if i == fields.len() - 1 {
        lemma_members_bounds(fields.drop_last(), r);
        if fields.last().window.spec_includes(r) {
            assert(m.last() == i as usize);
            assert(m.contains(i as usize));
        } else {
            if m.contains(i as usize) {
                let k = choose|k: int| 0 <= k < m.len() && m[k] == i as usize;
                assert(mp[k] < fields.len() - 1);
                assert(false);
            }
        }
    } else {
        lemma_members_iff(fields.drop_last(), r, i);
        assert(fields.drop_last()[i] == fields[i]);
        if fields[i].window.spec_includes(r) {
            let k = choose|k: int| 0 <= k < mp.len() && mp[k] == i as usize;
            assert(m[k] == i as usize);
            assert(m.contains(i as usize));
        } else {
            if m.contains(i as usize) {
                let k = choose|k: int| 0 <= k < m.len() && m[k] == i as usize;
                if k < mp.len() {
                    assert(mp.contains(i as usize));
                    assert(false);
                } else {
                    assert(m[k] == (fields.len() - 1) as usize);
                    assert(false);
                }
            }
        }
    }
}

/// Every index in the resolved set is a field index, and the set is
/// strictly increasing.
pub proof fn lemma_members_bounds(fields: Seq<FieldDef>, r: int)
    requires
        fields.len() <= usize::MAX,
    ensures
        forall|k: int|
            0 <= k < spec_members(fields, r).len() ==> (#[trigger] spec_members(fields, r)[k])
                < fields.len(),
        forall|k1: int, k2: int|
            0 <= k1 < k2 < spec_members(fields, r).len() ==> #[trigger] spec_members(fields, r)[k1]
                < #[trigger] spec_members(fields, r)[k2],
    decreases fields.len(),
{
    if fields.len() > 0 {
        lemma_members_bounds(fields.drop_last(), r);
        let m = spec_members(fields, r);
        let mp = spec_members(fields.drop_last(), r);
        assert(forall|k: int| 0 <= k < mp.len() ==> m[k] == mp[k]);
        if fields.last().window.spec_includes(r) {
            assert(m.last() == (fields.len() - 1) as usize);
        }
        assert forall|k1: int, k2: int| 0 <= k1 < k2 < m.len() implies m[k1] < m[k2] by {
            if k2 < mp.len() {
                assert(mp[k1] < mp[k2]);
            } else {
                assert(mp[k1] < fields.drop_last().len());
            }
        }
    }
}

/// Resolve the inclusion set of every revision `1..=max_revision`.
///
/// Validation runs first: the maximum revision must be at least 1 and every
/// window must lie within `[1, max_revision]`; the first violating field is
/// named in the error.  On success the result holds one entry per revision
/// `r`, listing the indices of exactly those fields whose window includes
/// `r`, in declaration order.
pub fn resolve(max_revision: u16, fields: &Vec<FieldDef>) -> (r: Result<
    Vec<Vec<usize>>,
    SchemaError,
>)
    ensures
        match r {
            Ok(sets) => {
                &&& max_revision >= 1
                &&& spec_all_windows_valid(fields@, max_revision as int)
                &&& sets@.len() == max_revision
                &&& forall|k: int|
                    0 <= k < max_revision ==> (#[trigger] sets@[k])@ == spec_members(
                        fields@,
                        k + 1,
                    )
            },
            Err(SchemaError::InvalidRevision { value }) => max_revision == 0 && value == 0,
            Err(SchemaError::RevisionOutOfRange { field, window }) => {
                &&& max_revision >= 1
                &&& exists|i: int|
                    {
                        &&& 0 <= i < fields@.len()
                        &&& !(#[trigger] fields@[i]).window.spec_valid(max_revision as int)
                        &&& field@ == fields@[i].name@
                        &&& window == fields@[i].window
                        &&& forall|j: int|
                            0 <= j < i ==> (#[trigger] fields@[j]).window.spec_valid(
                                max_revision as int,
                            )
                    }
            },
            Err(_) => false,
        },
{
    if max_revision == 0 {
        return Err(SchemaError::InvalidRevision { value: 0 });
    }
    let n = fields.len();
    let mut i: usize = 0;
    while i < n
        invariant
            n == fields@.len(),
            i <= n,
            forall|j: int| 0 <= j < i ==> (#[trigger] fields@[j]).window.spec_valid(
                max_revision as int,
            ),
            max_revision >= 1,
        decreases n - i,
    {
        if !fields[i].window.is_valid(max_revision) {
            return Err(SchemaError::RevisionOutOfRange {
                field: fields[i].name.clone(),
                window: fields[i].window,
            });
        }
        i = i + 1;
    }
    let mut sets: Vec<Vec<usize>> = Vec::new();
    let mut rev: u32 = 1;
    while rev <= max_revision as u32
        invariant
            n == fields@.len(),
            1 <= rev <= max_revision as int + 1,
            sets@.len() == rev - 1,
            forall|k: int| 0 <= k < rev - 1 ==> (#[trigger] sets@[k])@ == spec_members(
                fields@,
                k + 1,
            ),
        decreases max_revision as int + 1 - rev,
    {
        let mut members: Vec<usize> = Vec::new();
        let mut i: usize = 0;
        while i < n
            invariant
                n == fields@.len(),
                i <= n,
                1 <= rev <= max_revision,
                members@ == spec_members(fields@.take(i as int), rev as int),
            decreases n - i,
        {
            proof {
                assert(fields@.take(i + 1).drop_last() =~= fields@.take(i as int));
                assert(fields@.take(i + 1).last() == fields@[i as int]);
                assert(rev as u16 as int == rev as int);
            }
            if fields[i].window.includes(rev as u16) {
                members.push(i);
            }
            i = i + 1;
        }
        proof {
            assert(fields@.take(n as int) =~= fields@);
        }
        sets.push(members);
        rev = rev + 1;
    }
    Ok(sets)
}

} // verus!
