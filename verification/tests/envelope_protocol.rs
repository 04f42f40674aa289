use fixed_revision::envelope::decode_tag;
use fixed_revision::generate::{generate, SchemaDef};
use fixed_revision::{
    FieldDef, FixedId, FixedVersion, ProtocolError, RevisionWindow, SchemaError,
    TypeIdMismatchError, Value, VersionTooNewError,
};

fn field(name: &str, start: u16, end: Option<u16>, default: Option<Value>) -> FieldDef {
    FieldDef {
        name: String::from(name),
        window: RevisionWindow { start, end },
        default,
    }
}

fn schema(name: &str, revision: usize, fields: Vec<FieldDef>) -> SchemaDef {
    SchemaDef {
        name: String::from(name),
        revision: Some(revision),
        fields,
    }
}

#[test]
fn family_has_one_type_per_revision() {
    let fam = generate(
        schema(
            "Record",
            3,
            vec![
                field("a", 1, None, None),
                field("b", 2, None, Some(Value::U64(0))),
            ],
        ),
        None,
    )
    .unwrap();
    assert_eq!(fam.max_revision, 3);
    assert_eq!(fam.revisions.len(), 3);
    assert_eq!(fam.revisions[0].name, "Record_1");
    assert_eq!(fam.revisions[1].name, "Record_2");
    assert_eq!(fam.revisions[2].name, "Record_3");
    assert_eq!(fam.revisions[0].version, FixedVersion::new(1, 0, 0));
    assert_eq!(fam.revisions[1].version, FixedVersion::new(2, 0, 0));
    assert_eq!(fam.revisions[2].version, FixedVersion::new(3, 0, 0));
    // Every member carries the one identifier, hashed from the name alone.
    let expect = FixedId::from_type_name("Record", None);
    assert_eq!(fam.id, expect);
    for rev in &fam.revisions {
        assert_eq!(rev.id, expect);
    }
    assert_eq!(fam.revisions[0].fields, vec![0]);
    assert_eq!(fam.revisions[1].fields, vec![0, 1]);
    assert_eq!(fam.revisions[2].fields, vec![0, 1]);
    assert_eq!(fam.max_type_version(), FixedVersion::new(3, 0, 0));
}

#[test]
fn revision_declaration_errors() {
    let fields = vec![field("a", 1, None, None)];
    let missing = SchemaDef {
        name: String::from("T"),
        revision: None,
        fields: vec![field("a", 1, None, None)],
    };
    assert_eq!(
        generate(missing, None).unwrap_err(),
        SchemaError::MissingRevisionSpecified
    );

    let duplicated = schema("T", 2, fields);
    assert_eq!(
        generate(duplicated, Some(2)).unwrap_err(),
        SchemaError::DuplicateRevisionSpecified
    );

    let zero = schema("T", 0, vec![field("a", 1, None, None)]);
    assert_eq!(
        generate(zero, None).unwrap_err(),
        SchemaError::InvalidRevision { value: 0 }
    );

    let too_wide = schema("T", 65536, vec![field("a", 1, None, None)]);
    assert_eq!(
        generate(too_wide, None).unwrap_err(),
        SchemaError::InvalidRevision { value: 65536 }
    );

    // The attribute is an equally good place for the revision.
    let from_attr = SchemaDef {
        name: String::from("T"),
        revision: None,
        fields: vec![field("a", 1, None, None)],
    };
    assert_eq!(generate(from_attr, Some(2)).unwrap().max_revision, 2);
}

#[test]
fn late_field_needs_default() {
    let bad = schema(
        "T",
        3,
        vec![field("a", 1, None, None), field("b", 2, None, None)],
    );
    assert_eq!(
        generate(bad, None).unwrap_err(),
        SchemaError::MissingForwardConversion {
            field: String::from("b")
        }
    );

    // A late field that dies before the current revision needs none.
    let ok = schema(
        "T",
        3,
        vec![field("a", 1, None, None), field("b", 2, Some(3), None)],
    );
    assert!(generate(ok, None).is_ok());
}

#[test]
fn roundtrip_at_current_revision() {
    let fam = generate(
        schema(
            "Wide",
            1,
            vec![
                field("u", 1, None, None),
                field("b", 1, None, None),
                field("i", 1, None, None),
                field("t", 1, None, None),
                field("y", 1, None, None),
                field("n", 1, None, None),
            ],
        ),
        None,
    )
    .unwrap();
    let record = vec![
        Value::U64(57918374),
        Value::Bool(true),
        Value::I64(-234234),
        Value::Text(String::from("A test")),
        Value::Bytes(vec![0xde, 0xad, 0xbe, 0xef]),
        Value::Unit,
    ];
    let bytes = fam.encode_current(&record);
    let decoded = fam.decode(&bytes).unwrap();
    assert_eq!(decoded, record);
}

#[test]
fn old_revision_decodes_and_converts_forward() {
    // The scenario: max revision 3, field `b` appears in revision 2.
    let fam = generate(
        schema(
            "Evolving",
            3,
            vec![
                field("a", 1, None, None),
                field("b", 2, None, Some(Value::U64(7))),
            ],
        ),
        None,
    )
    .unwrap();

    // A revision-1 payload knows only `a`; the decoder fills `b` with its
    // declared default.
    let old_payload = fam.encode_at(1, &vec![Value::U64(1)]);
    let canonical = fam.decode(&old_payload).unwrap();
    assert_eq!(canonical, vec![Value::U64(1), Value::U64(7)]);

    // A revision-2 payload carries both fields and decodes directly.
    let new_payload = fam.encode_at(3, &vec![Value::U64(1), Value::U64(2)]);
    let canonical = fam.decode(&new_payload).unwrap();
    assert_eq!(canonical, vec![Value::U64(1), Value::U64(2)]);

    // Every revision in between works as well.
    let mid_payload = fam.encode_at(2, &vec![Value::U64(5), Value::U64(6)]);
    assert_eq!(
        fam.decode(&mid_payload).unwrap(),
        vec![Value::U64(5), Value::U64(6)]
    );
}

#[test]
fn newer_revision_is_rejected_before_payload() {
    // A writer two revisions ahead of the reader.
    let writer = generate(
        schema(
            "Message",
            2,
            vec![
                field("a", 1, None, None),
                field("extra", 2, None, Some(Value::U64(0))),
            ],
        ),
        None,
    )
    .unwrap();
    let reader = generate(schema("Message", 1, vec![field("a", 1, None, None)]), None).unwrap();

    let mut bytes = writer.encode_at(2, &vec![Value::U64(9), Value::U64(10)]);
    // Corrupt everything behind the 32-byte tag: if the reader touched the
    // payload at all, decoding would fail with a malformed-payload error
    // instead of the version verdict.
    for b in bytes.iter_mut().skip(32) {
        *b = 0xff;
    }
    assert_eq!(
        reader.decode(&bytes).unwrap_err(),
        ProtocolError::VersionTooNew(VersionTooNewError {
            deser_ver: 2,
            current_max_ver: 1,
        })
    );
}

#[test]
fn wrong_identifier_is_rejected() {
    let fam_a = generate(schema("Alpha", 1, vec![field("a", 1, None, None)]), None).unwrap();
    let fam_b = generate(schema("Beta", 1, vec![field("a", 1, None, None)]), None).unwrap();
    let bytes = fam_a.encode_current(&vec![Value::U64(1)]);
    assert_eq!(
        fam_b.decode(&bytes).unwrap_err(),
        ProtocolError::TypeIdMismatch(TypeIdMismatchError {
            deser_id: fam_a.id,
            expect_id: fam_b.id,
        })
    );
}

#[test]
fn malformed_payloads_are_refused() {
    let fam = generate(schema("Strict", 1, vec![field("a", 1, None, None)]), None).unwrap();
    let good = fam.encode_current(&vec![Value::U64(1)]);

    // Too short for a tag.
    assert_eq!(
        fam.decode(&good[..31].to_vec()).unwrap_err(),
        ProtocolError::Malformed
    );
    // Tag only, payload missing.
    assert_eq!(
        fam.decode(&good[..32].to_vec()).unwrap_err(),
        ProtocolError::Malformed
    );
    // Truncated payload.
    assert_eq!(
        fam.decode(&good[..good.len() - 1].to_vec()).unwrap_err(),
        ProtocolError::Malformed
    );
    // Trailing garbage.
    let mut long = good.clone();
    long.push(0);
    assert_eq!(fam.decode(&long).unwrap_err(), ProtocolError::Malformed);
    // A discriminant that contradicts the tag's version.
    let mut twisted = good.clone();
    twisted[32] = 2;
    assert_eq!(fam.decode(&twisted).unwrap_err(), ProtocolError::Malformed);
    // A value tag the encoder never writes.
    let mut alien = good.clone();
    alien[34] = 9;
    assert_eq!(fam.decode(&alien).unwrap_err(), ProtocolError::Malformed);
    // The good bytes still decode.
    assert_eq!(fam.decode(&good).unwrap(), vec![Value::U64(1)]);
}

#[test]
fn tag_peek_reads_identifier_and_version() {
    let fam = generate(
        schema("Peeked", 2, vec![field("a", 1, None, Some(Value::Unit))]),
        None,
    )
    .unwrap();
    let bytes = fam.encode_at(2, &vec![Value::Bool(false)]);
    let tag = decode_tag(&bytes).unwrap();
    let (id, version) = tag.get_identifier();
    assert_eq!(id, fam.id);
    assert_eq!(version, FixedVersion::new(2, 0, 0));
    // A buffer shorter than the tag has no tag to peek.
    assert!(decode_tag(&bytes[..20].to_vec()).is_none());
}

#[test]
fn error_descriptions() {
    let too_new = VersionTooNewError {
        deser_ver: 4,
        current_max_ver: 3,
    };
    assert_eq!(
        too_new.describe(),
        "version too new, current_max:3, deser_ver:4"
    );
    let mismatch = TypeIdMismatchError {
        deser_id: FixedId(5),
        expect_id: FixedId(12),
    };
    assert_eq!(
        mismatch.describe(),
        "type id mismatch, deser_id:5, expect_id:12"
    );
}
