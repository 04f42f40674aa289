//! Stable type identity and schema evolution for serialized data.
//!
//! The crate has two cooperating halves.  The identity half turns a
//! `(name, version)` pair into a fixed 64-bit identifier with an explicit
//! caret-style compatibility relation between versions.  The evolution half
//! compiles an annotated schema — a maximum revision number plus, per field
//! or enum variant, the window of revisions in which it exists — into a
//! family of concrete per-revision types together with a tagged envelope
//! protocol that can inspect a payload's identifier and version before
//! committing to decode it.

pub mod codec;
pub mod envelope;
pub mod generate;
pub mod ident;
pub mod protocol;
pub mod registry;
pub mod samples;
pub mod schema;
pub mod typeid;
pub mod typename;
pub mod value;
pub mod variants;
pub mod version;

pub use envelope::{FixedTypeIdTag, FixedTypeIdTagged};
pub use generate::{RevisionType, SchemaDef, TypeFamily};
pub use ident::FixedId;
pub use protocol::{ProtocolError, TypeIdMismatchError, VersionTooNewError};
pub use registry::{IdRule, RegisteredType, Registry, TypeDecl};
pub use samples::{Inner, TestEnum, UnitStruct};
pub use schema::{FieldDef, RevisionWindow, SchemaError};
pub use typeid::{type_id, type_name_of, type_version, FixedTypeId};
pub use typename::{type_to_string, usize_to_str, TypeExpr};
pub use value::Value;
pub use variants::{EnumFamily, EnumSchemaDef, VariantDef};
pub use version::{Comparator, ComparatorOp, FixedVersion};
