//! The trait a type implements to carry a stable identity: a declared name,
//! a version, and the 64-bit identifier derived from them (or taken over
//! from another type by an equality override).

use vstd::prelude::*;
use crate::ident::FixedId;
use crate::version::FixedVersion;

verus! {

/// A stable, declared identity for a type: a name chosen by its author, a
/// version, and a 64-bit identifier.
///
/// Unlike the language's built-in runtime type identifiers, all three are
/// fixed by the declaration alone, so they are stable across builds and
/// processes.  An implementation either derives its identifier from its name
/// and version through [`FixedId::from_type_name`], or declares it equal to
/// another type's identifier (the equality override), in which case the two
/// types share one logical identity while keeping distinct versions.
pub trait FixedTypeId {
    /// The declared name.
    spec fn spec_name() -> Seq<char>;

    /// The declared identifier.
    spec fn spec_id() -> FixedId;

    /// The declared version.
    spec fn spec_version() -> FixedVersion;

    /// Returns the declared name.
    fn ty_name() -> (r: &'static str)
        ensures
            r@ == Self::spec_name(),
    ;

    /// Returns the declared identifier.
    fn ty_id() -> (r: FixedId)
        ensures
            r == Self::spec_id(),
    ;

    /// Returns the declared version.
    fn ty_version() -> (r: FixedVersion)
        ensures
            r == Self::spec_version(),
    ;
}

/// The declared name of `T`.
pub fn type_name_of<T: FixedTypeId + ?Sized>() -> (r: &'static str)
    ensures
        r@ == T::spec_name(),
{
    T::ty_name()
}

/// The declared identifier of `T`.
pub fn type_id<T: FixedTypeId + ?Sized>() -> (r: FixedId)
    ensures
        r == T::spec_id(),
{
    T::ty_id()
}

/// The declared version of `T`.
pub fn type_version<T: FixedTypeId + ?Sized>() -> (r: FixedVersion)
    ensures
        r == T::spec_version(),
{
    T::ty_version()
}

impl FixedId {
    /// The identifier of a type, read off its [`FixedTypeId`] declaration.
    pub fn from<Target: 'static + ?Sized + FixedTypeId>() -> (r: FixedId)
        ensures
            r == Target::spec_id(),
    {
        Target::ty_id()
    }
}

} // verus!
