//! Small example types carrying declared identities, together with their
//! record shapes, so the identity scheme and the envelope protocol can be
//! exercised end to end on concrete data.

use vstd::prelude::*;
use crate::ident::{spec_id_of, FixedId};
use crate::typeid::FixedTypeId;
use crate::value::{spec_models, Value, ValueModel};
use crate::version::FixedVersion;

verus! {

/// An example enum with three cases.
#[derive(Debug, Clone, PartialEq, Eq, Structural)]
pub enum TestEnum {
    /// No payload.
    Zero,
    /// A 32-bit payload.
    One(u32),
    /// A 64-bit payload.
    Two(u64),
}

impl FixedTypeId for TestEnum {
    open spec fn spec_name() -> Seq<char> {
        "TestEnum"@
    }

    open spec fn spec_id() -> FixedId {
        spec_id_of("TestEnum"@, Some(FixedVersion { major: 0, minor: 1, patch: 0 }))
    }

    open spec fn spec_version() -> FixedVersion {
        FixedVersion { major: 0, minor: 1, patch: 0 }
    }

    fn ty_name() -> (r: &'static str) {
        "TestEnum"
    }

    fn ty_id() -> (r: FixedId) {
        FixedId::from_type_name("TestEnum", Some(FixedVersion::new(0, 1, 0)))
    }

    fn ty_version() -> (r: FixedVersion) {
        FixedVersion::new(0, 1, 0)
    }
}

/// The record shape of a [`TestEnum`] value: the case's number, then its
/// payload widened to 64 bits.
pub open spec fn spec_test_enum_record(e: TestEnum) -> Seq<ValueModel> {
    match e {
        TestEnum::Zero => seq![ValueModel::U64(0)],
        TestEnum::One(x) => seq![ValueModel::U64(1), ValueModel::U64(x as u64)],
        TestEnum::Two(x) => seq![ValueModel::U64(2), ValueModel::U64(x)],
    }
}

impl TestEnum {
    /// The value as a record.
    pub fn to_record(&self) -> (r: Vec<Value>)
        ensures
            spec_models(r@) == spec_test_enum_record(*self),
    {
        let mut r: Vec<Value> = Vec::new();
        match self {
            TestEnum::Zero => {
                r.push(Value::U64(0));
            },
            TestEnum::One(x) => {
                r.push(Value::U64(1));
                r.push(Value::U64(*x as u64));
            },
            TestEnum::Two(x) => {
                r.push(Value::U64(2));
                r.push(Value::U64(*x));
            },
        }
        proof {
            assert(spec_models(r@) =~= spec_test_enum_record(*self));
        }
        r
    }

    /// The value a record stands for, or `None` when the record has no
    /// [`TestEnum`] shape.
    pub fn from_record(vs: &Vec<Value>) -> (r: Option<TestEnum>)
        ensures
            match r {
                Some(e) => spec_models(vs@) == spec_test_enum_record(e),
                None => forall|e: TestEnum| spec_models(vs@) != spec_test_enum_record(e),
            },
    {
        proof {
            assert(forall|k: int|
                0 <= k < vs@.len() ==> spec_models(vs@)[k] == (#[trigger] vs@[k])@);
        }
        if vs.len() == 1 {
            let matched = match &vs[0] {
                Value::U64(t) => if *t == 0 {
                    Some(TestEnum::Zero)
                } else {
                    None
                },
                _ => None,
            };
            proof {
                match &matched {
                    Some(e) => {
                        assert(spec_models(vs@) =~= spec_test_enum_record(TestEnum::Zero));
                    },
                    None => {
                        assert(vs@[0]@ != ValueModel::U64(0));
                        assert(spec_models(vs@).len() == 1);
                        assert forall|e: TestEnum| spec_models(vs@) != spec_test_enum_record(
                            e,
                        ) by {
                            if spec_models(vs@) == spec_test_enum_record(e) {
                                assert(spec_test_enum_record(e).len() == 1);
                                assert(e is Zero);
                                assert(spec_models(vs@)[0] == spec_test_enum_record(e)[0]);
                            }
                        }
                    },
                }
            }
            matched
        } else if vs.len() == 2 {
            let matched = match (&vs[0], &vs[1]) {
                (Value::U64(t), Value::U64(x)) => if *t == 1 && *x <= u32::MAX as u64 {
                    Some(TestEnum::One(*x as u32))
                } else if *t == 2 {
                    Some(TestEnum::Two(*x))
                } else {
                    None
                },
                _ => None,
            };
            proof {
                match &matched {
                    Some(e) => {
                        assert(spec_models(vs@) =~= spec_test_enum_record(*e));
                    },
                    None => {
                        assert(spec_models(vs@).len() == 2);
                        assert forall|e: TestEnum| spec_models(vs@) != spec_test_enum_record(
                            e,
                        ) by {
                            if spec_models(vs@) == spec_test_enum_record(e) {
                                assert(spec_test_enum_record(e).len() == 2);
                                assert(spec_models(vs@)[0] == spec_test_enum_record(e)[0]);
                                assert(spec_models(vs@)[1] == spec_test_enum_record(e)[1]);
                            }
                        }
                    },
                }
            }
            matched
        } else {
            proof {
                assert(spec_models(vs@).len() == vs@.len());
                assert forall|e: TestEnum| spec_models(vs@) != spec_test_enum_record(e) by {
                    assert(spec_test_enum_record(e).len() == 1 || spec_test_enum_record(e).len()
                        == 2);
                }
            }
            None
        }
    }
}

/// An example struct with plain fields and a string.
#[derive(Debug, Clone, PartialEq, Eq)]
pub struct Inner {
    /// A 32-bit field.
    pub a: u32,
    /// A 64-bit field.
    pub b: u64,
    /// A text field.
    pub c: String,
}

impl FixedTypeId for Inner {
    open spec fn spec_name() -> Seq<char> {
        "Inner"@
    }

    open spec fn spec_id() -> FixedId {
        spec_id_of("Inner"@, Some(FixedVersion { major: 0, minor: 1, patch: 0 }))
    }

    open spec fn spec_version() -> FixedVersion {
        FixedVersion { major: 0, minor: 1, patch: 0 }
    }

    fn ty_name() -> (r: &'static str) {
        "Inner"
    }

    fn ty_id() -> (r: FixedId) {
        FixedId::from_type_name("Inner", Some(FixedVersion::new(0, 1, 0)))
    }

    fn ty_version() -> (r: FixedVersion) {
        FixedVersion::new(0, 1, 0)
    }
}

/// The record shape of an [`Inner`] value: its fields in declaration
/// order.
pub open spec fn spec_inner_record(a: u32, b: u64, c: Seq<char>) -> Seq<ValueModel> {
    seq![ValueModel::U64(a as u64), ValueModel::U64(b), ValueModel::Text(c)]
}

impl Inner {
    /// The value as a record.
    pub fn to_record(&self) -> (r: Vec<Value>)
        ensures
            spec_models(r@) == spec_inner_record(self.a, self.b, self.c@),
    {
        let mut r: Vec<Value> = Vec::new();
        r.push(Value::U64(self.a as u64));
        r.push(Value::U64(self.b));
        r.push(Value::Text(self.c.clone()));
        proof {
            assert(spec_models(r@) =~= spec_inner_record(self.a, self.b, self.c@));
        }
        r
    }

    /// The value a record stands for, or `None` when the record has no
    /// [`Inner`] shape.
    pub fn from_record(vs: &Vec<Value>) -> (r: Option<Inner>)
        ensures
            match r {
                Some(inner) => spec_models(vs@) == spec_inner_record(
                    inner.a,
                    inner.b,
                    inner.c@,
                ),
                None => !(vs@.len() == 3 && (vs@[0]@ matches ValueModel::U64(a) && a
                    <= u32::MAX) && vs@[1]@ is U64 && vs@[2]@ is Text),
            },
    {
        proof {
            assert(forall|k: int|
                0 <= k < vs@.len() ==> spec_models(vs@)[k] == (#[trigger] vs@[k])@);
        }
        if vs.len() != 3 {
            return None;
        }
        match (&vs[0], &vs[1], &vs[2]) {
            (Value::U64(a), Value::U64(b), Value::Text(c)) => {
                if *a <= u32::MAX as u64 {
                    let inner = Inner { a: *a as u32, b: *b, c: c.clone() };
                    proof {
                        assert(spec_models(vs@) =~= spec_inner_record(
                            inner.a,
                            inner.b,
                            inner.c@,
                        ));
                    }
                    Some(inner)
                } else {
                    None
                }
            },
            _ => None,
        }
    }
}

/// An example struct with no fields.
#[derive(Debug, Clone, PartialEq, Eq, Structural)]
pub struct UnitStruct;

impl FixedTypeId for UnitStruct {
    open spec fn spec_name() -> Seq<char> {
        "UnitStruct"@
    }

    open spec fn spec_id() -> FixedId {
        spec_id_of("UnitStruct"@, Some(FixedVersion { major: 0, minor: 1, patch: 0 }))
    }

    open spec fn spec_version() -> FixedVersion {
        FixedVersion { major: 0, minor: 1, patch: 0 }
    }

    fn ty_name() -> (r: &'static str) {
        "UnitStruct"
    }

    fn ty_id() -> (r: FixedId) {
        FixedId::from_type_name("UnitStruct", Some(FixedVersion::new(0, 1, 0)))
    }

    fn ty_version() -> (r: FixedVersion) {
        FixedVersion::new(0, 1, 0)
    }
}

impl UnitStruct {
    /// The value as a record: a single unit value.
    pub fn to_record(&self) -> (r: Vec<Value>)
        ensures
            spec_models(r@) == seq![ValueModel::Unit],
    {
        let mut r: Vec<Value> = Vec::new();
        r.push(Value::Unit);
        proof {
            assert(spec_models(r@) =~= seq![ValueModel::Unit]);
        }
        r
    }
}

} // verus!
