//! The version model: a `(major, minor, patch)` triple with a deterministic
//! little-endian byte encoding and a caret-style compatibility predicate.

use core::cmp::Ordering;
use vstd::prelude::*;
use vstd::bytes::{spec_u64_to_le_bytes, u64_to_le_bytes};

verus! {

/// A semantic version for a type, without pre-release or build metadata.
///
/// `(0, 0, 0)` is the "no-version" sentinel: it marks a type that does not
/// participate in schema evolution, and it is compatible only with itself.
#[derive(Debug, Copy, Clone, PartialEq, Eq, Structural, Hash)]
pub struct FixedVersion {
    /// The major version number.
    pub major: u64,
    /// The minor version number.
    pub minor: u64,
    /// The patch version number.
    pub patch: u64,
}

/// The 24-byte wire form of a version: the little-endian bytes of
/// `major`, then `minor`, then `patch`.
pub open spec fn spec_version_bytes(v: FixedVersion) -> Seq<u8> {
    spec_u64_to_le_bytes(v.major) + spec_u64_to_le_bytes(v.minor) + spec_u64_to_le_bytes(v.patch)
}

/// The concatenated little-endian bytes of the words of `xs` up to `i`.
pub open spec fn spec_u64s_to_bytes(xs: Seq<u64>, i: int) -> Seq<u8>
    decreases i,
{
    if i <= 0 {
        Seq::empty()
    } else {
        spec_u64s_to_bytes(xs, i - 1) + spec_u64_to_le_bytes(xs[i - 1])
    }
}

/// The little-endian bytes of a sequence of 64-bit words, concatenated in
/// order: eight bytes per word.
pub fn u64s_to_bytes(xs: &[u64]) -> (r: Vec<u8>)
    ensures
        r@ == spec_u64s_to_bytes(xs@, xs@.len() as int),
        r@.len() == 8 * xs@.len(),
{
    let mut r: Vec<u8> = Vec::new();
    let mut i: usize = 0;
    while i < xs.len()
        invariant
            i <= xs@.len(),
            r@ == spec_u64s_to_bytes(xs@, i as int),
            r@.len() == 8 * i,
        decreases xs@.len() - i,
    {
        let mut word = u64_to_le_bytes(xs[i]);
        r.append(&mut word);
        i = i + 1;
    }
    r
}

/// The order of two versions: lexicographic by major, then minor, then
/// patch.
pub open spec fn spec_compare(a: FixedVersion, b: FixedVersion) -> Ordering {
    if a.major != b.major {
        if a.major < b.major {
            Ordering::Less
        } else {
            Ordering::Greater
        }
    } else if a.minor != b.minor {
        if a.minor < b.minor {
            Ordering::Less
        } else {
            Ordering::Greater
        }
    } else if a.patch != b.patch {
        if a.patch < b.patch {
            Ordering::Less
        } else {
            Ordering::Greater
        }
    } else {
        Ordering::Equal
    }
}

/// The caret compatibility rule: `have` is compatible with `want` when both
/// share `want`'s major version, additionally share its minor version when
/// the major version is 0, and `have` is at least `want` in the remaining
/// positions.  In particular `(0, 0, 0)` accepts only itself.
pub open spec fn spec_caret_compatible(have: FixedVersion, want: FixedVersion) -> bool {
    &&& have.major == want.major
    &&& if want.major > 0 {
        have.minor > want.minor || (have.minor == want.minor && have.patch >= want.patch)
    } else if want.minor > 0 {
        have.minor == want.minor && have.patch >= want.patch
    } else {
        have.minor == 0 && have.patch == want.patch
    }
}

impl FixedVersion {
    /// Create a new `FixedVersion`.
    pub fn new(major: u64, minor: u64, patch: u64) -> (r: FixedVersion)
        ensures
            r == (FixedVersion { major, minor, patch }),
    {
        FixedVersion { major, minor, patch }
    }

    /// The 24-byte little-endian encoding of the version, used both as hash
    /// input and as wire metadata.
    pub fn to_bytes(&self) -> (r: Vec<u8>)
        ensures
            r@ == spec_version_bytes(*self),
            r@.len() == 24,
    {
        proof {
            vstd::bytes::lemma_auto_spec_u64_to_from_le_bytes();
        }
        let mut r = u64_to_le_bytes(self.major);
        let mut minor = u64_to_le_bytes(self.minor);
        let mut patch = u64_to_le_bytes(self.patch);
        r.append(&mut minor);
        r.append(&mut patch);
        r
    }

    /// The same 24-byte encoding as [`FixedVersion::to_bytes`], computed
    /// word by word; the separate name survives from an interface where one
    /// form was usable in constant position.
    pub fn const_to_bytes(&self) -> (r: Vec<u8>)
        ensures
            r@ == spec_version_bytes(*self),
            r@.len() == 24,
    {
        let mut words: Vec<u64> = Vec::new();
        words.push(self.major);
        words.push(self.minor);
        words.push(self.patch);
        let r = u64s_to_bytes(words.as_slice());
        proof {
            reveal_with_fuel(spec_u64s_to_bytes, 4);
            assert(spec_u64s_to_bytes(words@, 1) =~= spec_u64_to_le_bytes(self.major));
            assert(spec_u64s_to_bytes(words@, 2) =~= spec_u64_to_le_bytes(self.major)
                + spec_u64_to_le_bytes(self.minor));
            assert(r@ =~= spec_version_bytes(*self));
        }
        r
    }

    /// Whether this version is caret-compatible with `expected_version`.
    pub fn is_compatible(&self, expected_version: &FixedVersion) -> (r: bool)
        ensures
            r == spec_caret_compatible(*self, *expected_version),
    {
        let c = Comparator {
            op: ComparatorOp::Caret,
            major: expected_version.major,
            minor: Some(expected_version.minor),
            patch: Some(expected_version.patch),
        };
        semver_comparator_matches(&c, self)
    }

    /// The total order on versions: lexicographic by major, then minor,
    /// then patch.
    pub fn compare(&self, other: &FixedVersion) -> (r: Ordering)
        ensures
            r == spec_compare(*self, *other),
    {
        if self.major != other.major {
            if self.major < other.major {
                Ordering::Less
            } else {
                Ordering::Greater
            }
        } else if self.minor != other.minor {
            if self.minor < other.minor {
                Ordering::Less
            } else {
                Ordering::Greater
            }
        } else if self.patch != other.patch {
            if self.patch < other.patch {
                Ordering::Less
            } else {
                Ordering::Greater
            }
        } else {
            Ordering::Equal
        }
    }

    /// Whether this version satisfies `comparator`.
    pub fn matches(&self, comparator: &Comparator) -> (r: bool)
        ensures
            r == spec_comparator_matches(*comparator, *self),
    {
        semver_comparator_matches(comparator, self)
    }
}

/// The comparison operator of a [`Comparator`], mirroring the operator set of
/// a SemVer requirement.
#[derive(Debug, Copy, Clone, PartialEq, Eq, Structural)]
pub enum ComparatorOp {
    /// `=x.y.z`: equal in every given position.
    Exact,
    /// `>x.y.z`.
    Greater,
    /// `>=x.y.z`.
    GreaterEq,
    /// `<x.y.z`.
    Less,
    /// `<=x.y.z`.
    LessEq,
    /// `~x.y.z`: same major and minor, patch at least the given one.
    Tilde,
    /// `^x.y.z`: the caret rule of [`spec_caret_compatible`].
    Caret,
    /// `x.y.*`: equal in every given position.
    Wildcard,
}

/// One version requirement: an operator together with a major version and
/// optional minor and patch versions.  A missing minor or patch position
/// leaves the corresponding position unconstrained.
#[derive(Debug, Copy, Clone, PartialEq, Eq, Structural)]
pub struct Comparator {
    /// The comparison operator.
    pub op: ComparatorOp,
    /// The major version.
    pub major: u64,
    /// The minor version, if constrained.
    pub minor: Option<u64>,
    /// The patch version, if constrained.
    pub patch: Option<u64>,
}

/// `=`: the version agrees with every position the comparator gives.
pub open spec fn spec_matches_exact(c: Comparator, v: FixedVersion) -> bool {
    &&& v.major == c.major
    &&& (c.minor matches Some(m) ==> v.minor == m)
    &&& (c.patch matches Some(p) ==> v.patch == p)
}

/// `>`: the version is lexicographically above the comparator, where a
/// missing position rules the comparison out.
pub open spec fn spec_matches_greater(c: Comparator, v: FixedVersion) -> bool {
    if v.major != c.major {
        v.major > c.major
    } else {
        match c.minor {
            None => false,
            Some(m) => if v.minor != m {
                v.minor > m
            } else {
                match c.patch {
                    None => false,
                    Some(p) => v.patch > p,
                }
            },
        }
    }
}

/// `<`: the mirror image of [`spec_matches_greater`].
pub open spec fn spec_matches_less(c: Comparator, v: FixedVersion) -> bool {
    if v.major != c.major {
        v.major < c.major
    } else {
        match c.minor {
            None => false,
            Some(m) => if v.minor != m {
                v.minor < m
            } else {
                match c.patch {
                    None => false,
                    Some(p) => v.patch < p,
                }
            },
        }
    }
}

/// `~`: same in every given position except that the patch may be larger.
pub open spec fn spec_matches_tilde(c: Comparator, v: FixedVersion) -> bool {
    &&& v.major == c.major
    &&& (c.minor matches Some(m) ==> v.minor == m)
    &&& (c.patch matches Some(p) ==> v.patch >= p)
}

/// `^`: same major; when the major is 0 the minor must agree as well, and
/// when both are 0 the version must be exactly the comparator's.
pub open spec fn spec_matches_caret(c: Comparator, v: FixedVersion) -> bool {
    if v.major != c.major {
        false
    } else {
        match c.minor {
            None => true,
            Some(m) => match c.patch {
                None => if c.major > 0 {
                    v.minor >= m
                } else {
                    v.minor == m
                },
                Some(p) => if c.major > 0 {
                    v.minor > m || (v.minor == m && v.patch >= p)
                } else if m > 0 {
                    v.minor == m && v.patch >= p
                } else {
                    v.minor == m && v.patch == p
                },
            },
        }
    }
}

/// What it means for a version without pre-release to satisfy a comparator.
pub open spec fn spec_comparator_matches(c: Comparator, v: FixedVersion) -> bool {
    match c.op {
        ComparatorOp::Exact => spec_matches_exact(c, v),
        ComparatorOp::Wildcard => spec_matches_exact(c, v),
        ComparatorOp::Greater => spec_matches_greater(c, v),
        ComparatorOp::GreaterEq => spec_matches_exact(c, v) || spec_matches_greater(c, v),
        ComparatorOp::Less => spec_matches_less(c, v),
        ComparatorOp::LessEq => spec_matches_exact(c, v) || spec_matches_less(c, v),
        ComparatorOp::Tilde => spec_matches_tilde(c, v),
        ComparatorOp::Caret => spec_matches_caret(c, v),
    }
}

/// Relies on `semver::Comparator::matches`: with no pre-release on either
/// side it reduces to the per-operator position comparisons stated by
/// [`spec_comparator_matches`].
#[verifier::external_body]
fn semver_comparator_matches(c: &Comparator, v: &FixedVersion) -> (r: bool)
    ensures
        r == spec_comparator_matches(*c, *v),
{
    let op = match c.op {
        ComparatorOp::Exact => semver::Op::Exact,
        ComparatorOp::Greater => semver::Op::Greater,
        ComparatorOp::GreaterEq => semver::Op::GreaterEq,
        ComparatorOp::Less => semver::Op::Less,
        ComparatorOp::LessEq => semver::Op::LessEq,
        ComparatorOp::Tilde => semver::Op::Tilde,
        ComparatorOp::Caret => semver::Op::Caret,
        ComparatorOp::Wildcard => semver::Op::Wildcard,
    };
    let pre = semver::Prerelease::EMPTY;
    let cmp = semver::Comparator { op, major: c.major, minor: c.minor, patch: c.patch, pre };
    cmp.matches(&semver::Version::new(v.major, v.minor, v.patch))
}

/// The caret rule stated on triples: this is exactly what
/// [`FixedVersion::is_compatible`] decides.
pub proof fn lemma_caret_is_compatible(have: FixedVersion, want: FixedVersion)
    ensures
        spec_caret_compatible(have, want) == spec_matches_caret(
            Comparator {
                op: ComparatorOp::Caret,
                major: want.major,
                minor: Some(want.minor),
                patch: Some(want.patch),
            },
            have,
        ),
{
}

} // verus!
