//! The declaration registry: every type that participates in the identity
//! scheme is registered with a name, a version, and a rule for obtaining its
//! identifier — its own hash, or another declaration's identifier (the
//! equality override).
//!
//! The override is one-directional and may only name a declaration that is
//! already registered, so override chains can never form a cycle.  A lookup
//! that finds no registration falls back to an explicit sentinel identity
//! rather than failing.

use vstd::prelude::*;
use vstd::string::StringExecFns;
use crate::generate::TypeFamily;
use crate::ident::{spec_id_of, FixedId};
use crate::schema::SchemaError;
use crate::version::FixedVersion;

verus! {

/// How a declaration obtains its identifier.
#[derive(Debug, Copy, Clone, PartialEq, Eq, Structural)]
pub enum IdRule {
    /// Hash the name together with the version.
    HashNameVersion,
    /// Hash the name alone, leaving the version out of the identifier.
    HashNameOnly,
    /// Share the identifier of the registration at the given index: the
    /// equality override.
    EqualTo(usize),
    /// Draw a fresh identifier at random instead of hashing.
    Random,
}

/// One declaration: the name and version a type claims, and the rule for
/// its identifier.
#[derive(Debug)]
pub struct TypeDecl {
    /// The declared, stable name.
    pub name: String,
    /// The declared version; `(0, 0, 0)` for types outside evolution.
    pub version: FixedVersion,
    /// How the identifier is obtained.
    pub id_rule: IdRule,
}

/// A completed registration: what the registry records for one type.
#[derive(Debug)]
pub struct RegisteredType {
    /// The declared name.
    pub name: String,
    /// The declared version.
    pub version: FixedVersion,
    /// The identifier the declaration received.
    pub id: FixedId,
}

/// Whether a declaration can be registered against the given earlier
/// registrations: an equality override must name one of them.
pub open spec fn spec_decl_ok(entries: Seq<RegisteredType>, d: TypeDecl) -> bool {
    match d.id_rule {
        IdRule::EqualTo(j) => j < entries.len(),
        _ => true,
    }
}

/// The identifier a declaration receives, for every rule except `Random`.
pub open spec fn spec_decl_id(entries: Seq<RegisteredType>, d: TypeDecl) -> FixedId
    recommends
        spec_decl_ok(entries, d),
{
    match d.id_rule {
        IdRule::HashNameVersion => spec_id_of(d.name@, Some(d.version)),
        IdRule::HashNameOnly => spec_id_of(d.name@, None),
        IdRule::EqualTo(j) => entries[j as int].id,
        IdRule::Random => FixedId(0),
    }
}

/// Two declarations that override onto the same registration receive the
/// identical identifier, whatever their own names and versions are: this is
/// how a whole family of concrete types presents one logical identity while
/// each member keeps its own version.
pub proof fn lemma_override_shares_identifier(
    entries: Seq<RegisteredType>,
    a: TypeDecl,
    b: TypeDecl,
    j: usize,
)
    requires
        a.id_rule == IdRule::EqualTo(j),
        b.id_rule == IdRule::EqualTo(j),
        j < entries.len(),
    ensures
        spec_decl_id(entries, a) == spec_decl_id(entries, b),
{
}

/// Relies on `rand::random`: nothing is promised of the drawn value.
pub assume_specification<T>[ rand::random::<T> ]() -> (r: T)
    where
        rand::distributions::Standard: rand::distributions::Distribution<T>,
;

/// The registrations made so far, in order.
#[derive(Debug)]
pub struct Registry {
    /// The completed registrations, in registration order.
    pub entries: Vec<RegisteredType>,
}

impl Registry {
    /// An empty registry.
    pub fn new() -> (r: Registry)
        ensures
            r.entries@.len() == 0,
    {
        Registry { entries: Vec::new() }
    }

    /// Register one declaration.
    ///
    /// The new registration keeps the declared name and version, and its
    /// identifier follows the declaration's rule; an equality override that
    /// names an index not yet registered is a schema error and leaves the
    /// registry unchanged.
    pub fn register(&mut self, decl: TypeDecl) -> (r: Result<usize, SchemaError>)
        ensures
            match r {
                Ok(idx) => {
                    &&& spec_decl_ok(old(self).entries@, decl)
                    &&& idx == old(self).entries@.len()
                    &&& final(self).entries@.len() == old(self).entries@.len() + 1
                    &&& final(self).entries@.drop_last() == old(self).entries@
                    &&& final(self).entries@.last().name == decl.name
                    &&& final(self).entries@.last().version == decl.version
                    &&& !(decl.id_rule is Random) ==> final(self).entries@.last().id
                        == spec_decl_id(old(self).entries@, decl)
                },
                Err(SchemaError::UnknownOverrideTarget { target }) => {
                    &&& decl.id_rule == IdRule::EqualTo(target)
                    &&& target >= old(self).entries@.len()
                    &&& final(self).entries@ == old(self).entries@
                },
                Err(_) => false,
            },
    {
        let id = match decl.id_rule {
            IdRule::HashNameVersion => FixedId::from_type_name(
                decl.name.as_str(),
                Some(decl.version),
            ),
            IdRule::HashNameOnly => FixedId::from_type_name(decl.name.as_str(), None),
            IdRule::EqualTo(j) => {
                if j >= self.entries.len() {
                    return Err(SchemaError::UnknownOverrideTarget { target: j });
                }
                self.entries[j].id
            },
            IdRule::Random => FixedId(rand::random::<u64>()),
        };
        let idx = self.entries.len();
        self.entries.push(RegisteredType { name: decl.name, version: decl.version, id });
        proof {
            assert(self.entries@.drop_last() =~= old(self).entries@);
        }
        Ok(idx)
    }

    /// The index of the first registration with the given name, if any.
    pub fn lookup(&self, name: &str) -> (r: Option<usize>)
        ensures
            match r {
                Some(i) => {
                    &&& i < self.entries@.len()
                    &&& self.entries@[i as int].name@ == name@
                    &&& forall|k: int| 0 <= k < i ==> (#[trigger] self.entries@[k]).name@ != name@
                },
                None => forall|k: int|
                    0 <= k < self.entries@.len() ==> (#[trigger] self.entries@[k]).name@ != name@,
            },
    {
        let needle = name.to_owned();
        let mut i: usize = 0;
        while i < self.entries.len()
            invariant
                i <= self.entries@.len(),
                needle@ == name@,
                forall|k: int| 0 <= k < i ==> (#[trigger] self.entries@[k]).name@ != name@,
            decreases self.entries@.len() - i,
        {
            if self.entries[i].name == needle {
                return Some(i);
            }
            i = i + 1;
        }
        None
    }

    /// The registration at `i`, copied out.
    pub fn get(&self, i: usize) -> (r: RegisteredType)
        requires
            i < self.entries@.len(),
        ensures
            r.name@ == self.entries@[i as int].name@,
            r.version == self.entries@[i as int].version,
            r.id == self.entries@[i as int].id,
    {
        let e = &self.entries[i];
        RegisteredType { name: e.name.clone(), version: e.version, id: e.id }
    }

    /// The registration with the given name, or the sentinel identity for
    /// unregistered types: every type has an answer here, the sentinel
    /// marking "not implemented" explicitly rather than by accident.
    pub fn lookup_or_default(&self, name: &str) -> (r: RegisteredType)
        ensures
            match self.spec_find(name@) {
                Some(i) => {
                    &&& r.name@ == self.entries@[i].name@
                    &&& r.version == self.entries@[i].version
                    &&& r.id == self.entries@[i].id
                },
                None => {
                    &&& r.name@ == "NOT_IMPLEMENTED"@
                    &&& r.version == (FixedVersion { major: 0, minor: 0, patch: 0 })
                    &&& r.id == spec_id_of(
                        "NOT_IMPLEMENTED"@,
                        Some(FixedVersion { major: 0, minor: 0, patch: 0 }),
                    )
                },
            },
    {
        match self.lookup(name) {
            Some(i) => self.get(i),
            None => fallback_identity(),
        }
    }

    /// The index of the first registration with the given name.
    pub open spec fn spec_find(&self, name: Seq<char>) -> Option<int> {
        if exists|k: int| 0 <= k < self.entries@.len() && (#[trigger] self.entries@[k]).name@
            == name {
            Some(
                choose|k: int|
                    {
                        &&& 0 <= k < self.entries@.len()
                        &&& (#[trigger] self.entries@[k]).name@ == name
                        &&& forall|m: int|
                            0 <= m < k ==> (#[trigger] self.entries@[m]).name@ != name
                    },
            )
        } else {
            None
        }
    }
}

/// Register a whole revision type family: the family's own name first,
/// hashed without its version, then every concrete revision type as an
/// equality override onto it.  Afterwards all of them answer lookups with
/// the one logical identifier while each revision keeps its own version —
/// the shape the equality override exists for.
pub fn register_family(reg: &mut Registry, fam: &TypeFamily) -> (r: usize)
    requires
        fam.wf(),
    ensures
        final(reg).entries@.len() == old(reg).entries@.len() + fam.max_revision + 1,
        r == old(reg).entries@.len(),
        final(reg).entries@[r as int].name == fam.name,
        final(reg).entries@[r as int].id == spec_id_of(fam.name@, None),
        forall|k: int|
            0 <= k < fam.max_revision ==> (#[trigger] final(reg).entries@[r + 1 + k]).id
                == spec_id_of(fam.name@, None),
        forall|k: int|
            0 <= k < fam.max_revision ==> (#[trigger] final(reg).entries@[r + 1 + k]).name
                == fam.revisions@[k].name,
        forall|k: int|
            0 <= k < fam.max_revision ==> (#[trigger] final(reg).entries@[r + 1 + k]).version
                == fam.revisions@[k].version,
{
    let base = match reg.register(
        TypeDecl {
            name: fam.name.clone(),
            version: FixedVersion::new(0, 0, 0),
            id_rule: IdRule::HashNameOnly,
        },
    ) {
        Ok(idx) => idx,
        Err(_) => {
            proof {
                assert(false);
            }
            unreached()
        },
    };
    let mut k: usize = 0;
    while k < fam.revisions.len()
        invariant
            fam.wf(),
            base < reg.entries@.len(),
            reg.entries@[base as int].name == fam.name,
            reg.entries@[base as int].id == spec_id_of(fam.name@, None),
            k <= fam.revisions@.len(),
            reg.entries@.len() == base + 1 + k,
            forall|m: int|
                0 <= m < k ==> (#[trigger] reg.entries@[base + 1 + m]).id == spec_id_of(
                    fam.name@,
                    None,
                ),
            forall|m: int|
                0 <= m < k ==> (#[trigger] reg.entries@[base + 1 + m]).name
                    == fam.revisions@[m].name,
            forall|m: int|
                0 <= m < k ==> (#[trigger] reg.entries@[base + 1 + m]).version
                    == fam.revisions@[m].version,
        decreases fam.revisions@.len() - k,
    {
        let ghost before = reg.entries@;
        match reg.register(
            TypeDecl {
                name: fam.revisions[k].name.clone(),
                version: fam.revisions[k].version,
                id_rule: IdRule::EqualTo(base),
            },
        ) {
            Ok(_) => {},
            Err(_) => {
                proof {
                    assert(false);
                }
                unreached()
            },
        }
        proof {
            assert(forall|m: int|
                0 <= m < before.len() ==> #[trigger] reg.entries@[m] == before[m]);
        }
        k = k + 1;
    }
    base
}

/// The sentinel identity of an unregistered type: the name
/// `NOT_IMPLEMENTED` with version `(0, 0, 0)` and the identifier hashed
/// from them.
pub fn fallback_identity() -> (r: RegisteredType)
    ensures
        r.name@ == "NOT_IMPLEMENTED"@,
        r.version == (FixedVersion { major: 0, minor: 0, patch: 0 }),
        r.id == spec_id_of(
            "NOT_IMPLEMENTED"@,
            Some(FixedVersion { major: 0, minor: 0, patch: 0 }),
        ),
{
    let version = FixedVersion::new(0, 0, 0);
    RegisteredType {
        name: "NOT_IMPLEMENTED".to_owned(),
        version,
        id: FixedId::from_type_name("NOT_IMPLEMENTED", Some(version)),
    }
}

} // verus!
