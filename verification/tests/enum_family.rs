use fixed_revision::variants::{generate_enum, EnumSchemaDef, VariantDef};
use fixed_revision::{
    FieldDef, FixedId, FixedVersion, ProtocolError, RevisionWindow, SchemaError, Value,
    VersionTooNewError,
};

fn field(name: &str, start: u16, end: Option<u16>) -> FieldDef {
    FieldDef {
        name: String::from(name),
        window: RevisionWindow { start, end },
        default: None,
    }
}

fn variant(name: &str, start: u16, end: Option<u16>, fields: Vec<FieldDef>) -> VariantDef {
    VariantDef {
        name: String::from(name),
        window: RevisionWindow { start, end },
        fields,
    }
}

/// A three-revision enum whose variants come and go, with windowed fields
/// inside one of them, in the shape schema evolution is made for.
fn test_enum_schema() -> EnumSchemaDef {
    EnumSchemaDef {
        name: String::from("fixed_revision_macros::tests::TestEnum"),
        revision: Some(3),
        variants: vec![
            variant("Zero", 1, None, vec![]),
            variant("One", 1, Some(2), vec![field("0", 1, None)]),
            variant("Two", 2, None, vec![field("0", 1, None)]),
            variant(
                "Three",
                2,
                None,
                vec![
                    field("a", 1, None),
                    field("b", 1, Some(3)),
                    field("c", 3, None),
                    field("d", 3, None),
                ],
            ),
            variant("Four", 1, Some(2), vec![field("0", 1, None)]),
            variant("Four", 2, Some(3), vec![]),
            variant("Four", 3, None, vec![field("0", 1, None)]),
            variant(
                "Five",
                1,
                None,
                vec![field("0", 1, Some(3)), field("1", 3, None)],
            ),
        ],
    }
}

#[test]
fn enum_revision_types_share_one_identity() {
    let fam = generate_enum(test_enum_schema(), None).unwrap();
    let expect = FixedId::from_type_name("fixed_revision_macros::tests::TestEnum", None);
    assert_eq!(fam.id, expect);
    assert_eq!(fam.max_revision, 3);
    assert_eq!(fam.revisions.len(), 3);

    assert_eq!(fam.revisions[0].id, expect);
    assert_eq!(fam.revisions[0].version, FixedVersion::new(1, 0, 0));
    assert_eq!(
        fam.revisions[0].name,
        "fixed_revision_macros::tests::TestEnum_1"
    );
    assert_eq!(fam.revisions[1].id, expect);
    assert_eq!(fam.revisions[1].version, FixedVersion::new(2, 0, 0));
    assert_eq!(
        fam.revisions[1].name,
        "fixed_revision_macros::tests::TestEnum_2"
    );
    assert_eq!(fam.revisions[2].id, expect);
    assert_eq!(fam.revisions[2].version, FixedVersion::new(3, 0, 0));
    assert_eq!(
        fam.revisions[2].name,
        "fixed_revision_macros::tests::TestEnum_3"
    );
}

#[test]
fn variants_come_and_go_by_window() {
    let fam = generate_enum(test_enum_schema(), None).unwrap();
    // Which variants exist at each revision.
    assert_eq!(fam.revisions[0].fields, vec![0, 1, 4, 7]);
    assert_eq!(fam.revisions[1].fields, vec![0, 2, 3, 5, 7]);
    assert_eq!(fam.revisions[2].fields, vec![0, 2, 3, 6, 7]);
    // Which fields the `Three` variant carries at each of its revisions.
    assert_eq!(fam.arity(3, 2), 2);
    assert_eq!(fam.arity(3, 3), 3);
    // The `Five` variant swaps its payload field at revision 3.
    assert_eq!(fam.arity(7, 1), 1);
    assert_eq!(fam.arity(7, 3), 1);
}

#[test]
fn enum_values_roundtrip_at_every_alive_revision() {
    let fam = generate_enum(test_enum_schema(), None).unwrap();

    let bytes = fam.encode_at(3, 0, &vec![]);
    assert_eq!(fam.decode(&bytes).unwrap(), (3, 0, vec![]));

    // A revision-1 value of a variant that no longer exists at revision 3
    // still decodes: older payloads are always accepted.
    let bytes = fam.encode_at(1, 1, &vec![Value::U64(1)]);
    assert_eq!(fam.decode(&bytes).unwrap(), (1, 1, vec![Value::U64(1)]));

    let bytes = fam.encode_at(2, 3, &vec![Value::I64(57918374), Value::U64(14)]);
    assert_eq!(
        fam.decode(&bytes).unwrap(),
        (2, 3, vec![Value::I64(57918374), Value::U64(14)])
    );

    let bytes = fam.encode_at(
        3,
        3,
        &vec![
            Value::I64(-234234),
            Value::U64(234324),
            Value::Text(String::from("A test")),
        ],
    );
    assert_eq!(
        fam.decode(&bytes).unwrap(),
        (
            3,
            3,
            vec![
                Value::I64(-234234),
                Value::U64(234324),
                Value::Text(String::from("A test")),
            ]
        )
    );
}

#[test]
fn enum_rejects_newer_revisions_and_dead_variants() {
    let reader = generate_enum(test_enum_schema(), None).unwrap();
    let mut writer_schema = test_enum_schema();
    writer_schema.revision = Some(4);
    let writer = generate_enum(writer_schema, None).unwrap();

    // A revision-4 payload against a revision-3 reader: rejected on the
    // tag alone, however mangled the payload is.
    let mut bytes = writer.encode_at(4, 0, &vec![]);
    for b in bytes.iter_mut().skip(32) {
        *b = 0xff;
    }
    let err = reader.decode(&bytes).unwrap_err();
    assert_eq!(
        err,
        ProtocolError::VersionTooNew(VersionTooNewError {
            deser_ver: 4,
            current_max_ver: 3,
        })
    );
    match err {
        ProtocolError::VersionTooNew(e) => {
            assert_eq!(e.describe(), "version too new, current_max:3, deser_ver:4");
        }
        other => panic!("unexpected error {:?}", other),
    }

    // A payload naming a variant that does not exist at its revision.
    let good = reader.encode_at(3, 0, &vec![]);
    let mut dead_variant = good.clone();
    dead_variant[34] = 1;
    assert_eq!(
        reader.decode(&dead_variant).unwrap_err(),
        ProtocolError::Malformed
    );
    // A payload naming a variant index past the declaration list.
    let mut no_such_variant = good.clone();
    no_such_variant[34] = 99;
    assert_eq!(
        reader.decode(&no_such_variant).unwrap_err(),
        ProtocolError::Malformed
    );
    // The unmangled payload still decodes.
    assert_eq!(reader.decode(&good).unwrap(), (3, 0, vec![]));
}

#[test]
fn enum_schema_windows_are_validated() {
    // A variant window outside [1, max].
    let mut schema = test_enum_schema();
    schema.variants[2].window = RevisionWindow {
        start: 4,
        end: None,
    };
    match generate_enum(schema, None).unwrap_err() {
        SchemaError::RevisionOutOfRange { field, window } => {
            assert_eq!(field, "Two");
            assert_eq!(window, RevisionWindow { start: 4, end: None });
        }
        other => panic!("unexpected error {:?}", other),
    }

    // A field window inside a variant outside [1, max].
    let mut schema = test_enum_schema();
    schema.variants[3].fields[1].window = RevisionWindow {
        start: 1,
        end: Some(9),
    };
    match generate_enum(schema, None).unwrap_err() {
        SchemaError::RevisionOutOfRange { field, window } => {
            assert_eq!(field, "b");
            assert_eq!(window, RevisionWindow { start: 1, end: Some(9) });
        }
        other => panic!("unexpected error {:?}", other),
    }

    // The revision declaration rules hold here as well.
    let mut schema = test_enum_schema();
    schema.revision = None;
    assert_eq!(
        generate_enum(schema, None).unwrap_err(),
        SchemaError::MissingRevisionSpecified
    );
    let schema = test_enum_schema();
    assert_eq!(
        generate_enum(schema, Some(3)).unwrap_err(),
        SchemaError::DuplicateRevisionSpecified
    );
}
