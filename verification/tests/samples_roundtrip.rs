use fixed_revision::envelope::FixedTypeIdTagged;
use fixed_revision::generate::{generate, SchemaDef};
use fixed_revision::typeid::{type_id, type_name_of, type_version};
use fixed_revision::{
    FieldDef, FixedId, FixedVersion, Inner, RevisionWindow, TestEnum, UnitStruct, Value,
};

fn all(name: &str) -> FieldDef {
    FieldDef {
        name: String::from(name),
        window: RevisionWindow { start: 1, end: None },
        default: None,
    }
}

#[test]
fn sample_identities() {
    assert_eq!(type_name_of::<TestEnum>(), "TestEnum");
    assert_eq!(type_name_of::<Inner>(), "Inner");
    assert_eq!(type_name_of::<UnitStruct>(), "UnitStruct");
    assert_eq!(type_version::<TestEnum>(), FixedVersion::new(0, 1, 0));
    assert_eq!(type_version::<Inner>(), FixedVersion::new(0, 1, 0));
    assert_eq!(type_version::<UnitStruct>(), FixedVersion::new(0, 1, 0));
    assert_eq!(
        type_id::<TestEnum>(),
        FixedId::from_type_name("TestEnum", Some(FixedVersion::new(0, 1, 0)))
    );
    assert_eq!(type_id::<Inner>(), FixedId::from::<Inner>());
    // Distinct names give distinct identifiers.
    assert_ne!(type_id::<TestEnum>(), type_id::<Inner>());
    assert_ne!(type_id::<Inner>(), type_id::<UnitStruct>());
}

#[test]
fn tagged_wrapper_carries_the_declared_identifier() {
    let tagged = FixedTypeIdTagged::from_data(TestEnum::One(1));
    assert_eq!(tagged.type_id, type_id::<TestEnum>());
    assert_eq!(tagged.data, TestEnum::One(1));
}

#[test]
fn test_enum_record_roundtrip() {
    for e in [TestEnum::Zero, TestEnum::One(1), TestEnum::Two(57918374)] {
        let record = e.to_record();
        assert_eq!(TestEnum::from_record(&record), Some(e));
    }
    // Records of no enum shape are refused.
    assert_eq!(TestEnum::from_record(&vec![]), None);
    assert_eq!(TestEnum::from_record(&vec![Value::U64(3)]), None);
    assert_eq!(
        TestEnum::from_record(&vec![Value::U64(1), Value::U64(1 << 40)]),
        None
    );
    assert_eq!(
        TestEnum::from_record(&vec![Value::Bool(true), Value::U64(0)]),
        None
    );
}

#[test]
fn inner_through_the_envelope() {
    // A single-revision schema shaped like `Inner`, used to ship its
    // record through the tagged envelope and back.
    let fam = generate(
        SchemaDef {
            name: String::from("Inner"),
            revision: Some(1),
            fields: vec![all("a"), all("b"), all("c")],
        },
        None,
    )
    .unwrap();
    let inner = Inner {
        a: 4,
        b: 5,
        c: String::from("6"),
    };
    let bytes = fam.encode_current(&inner.to_record());
    let decoded = fam.decode(&bytes).unwrap();
    let back = Inner::from_record(&decoded).unwrap();
    assert_eq!(back, inner);

    // A record that is not `Inner`-shaped converts to no value.
    assert_eq!(Inner::from_record(&vec![Value::U64(1)]), None);
    assert_eq!(
        Inner::from_record(&vec![
            Value::U64(1 << 40),
            Value::U64(0),
            Value::Text(String::new())
        ]),
        None
    );
}

#[test]
fn unit_struct_record() {
    assert_eq!(UnitStruct.to_record(), vec![Value::Unit]);
}
