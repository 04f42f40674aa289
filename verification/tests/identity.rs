use fixed_revision::generate::{generate, SchemaDef};
use fixed_revision::ident::name_version_to_hash;
use fixed_revision::registry::{register_family, IdRule, Registry, TypeDecl};
use fixed_revision::typename::{type_to_string, u64_to_dec, usize_to_str, TypeExpr};
use fixed_revision::{FieldDef, FixedId, FixedVersion, RevisionWindow, Value};

fn path(s: &str) -> TypeExpr {
    TypeExpr::Path(String::from(s))
}

#[test]
fn generic_auto_equal_to() {
    let mut reg = Registry::new();
    let equal_name = type_to_string(&TypeExpr::Generic(
        String::from("tests::generic_auto::EqualType"),
        vec![path("u8")],
    ));
    let equal_idx = reg
        .register(TypeDecl {
            name: equal_name,
            version: FixedVersion::new(0, 0, 0),
            id_rule: IdRule::HashNameVersion,
        })
        .unwrap();
    let generic_name = type_to_string(&TypeExpr::Generic(
        String::from("tests::generic_auto::GenericType"),
        vec![path("u8")],
    ));
    let generic_idx = reg
        .register(TypeDecl {
            name: generic_name,
            version: FixedVersion::new(0, 1, 0),
            id_rule: IdRule::EqualTo(equal_idx),
        })
        .unwrap();
    assert_eq!(
        reg.get(generic_idx).name,
        "tests::generic_auto::GenericType<u8>"
    );
    assert_eq!(reg.get(generic_idx).version, FixedVersion::new(0, 1, 0));
    assert_eq!(reg.get(generic_idx).id, reg.get(equal_idx).id);
}

#[test]
fn tuple_type() {
    let t = TypeExpr::Tuple(vec![path("alloc::string::String"), path("u32")]);
    assert_eq!(type_to_string(&t), "(alloc::string::String,u32)");
}

#[test]
fn more_types() {
    let zero = FixedVersion::new(0, 0, 0);

    let vec_of_tuple = TypeExpr::Generic(
        String::from("alloc::vec::Vec"),
        vec![TypeExpr::Tuple(vec![
            path("alloc::string::String"),
            path("u32"),
        ])],
    );
    assert_eq!(
        type_to_string(&vec_of_tuple),
        "alloc::vec::Vec<(alloc::string::String,u32)>"
    );
    let phantom = TypeExpr::Generic(String::from("core::marker::PhantomData"), vec![path("i32")]);
    assert_eq!(type_to_string(&phantom), "core::marker::PhantomData<i32>");
    let unit_string = TypeExpr::Tuple(vec![path("()"), path("alloc::string::String")]);
    assert_eq!(type_to_string(&unit_string), "((),alloc::string::String)");
    let duration = path("core::time::Duration");
    assert_eq!(type_to_string(&duration), "core::time::Duration");

    // Types declared without an explicit version carry the sentinel (0,0,0).
    let mut reg = Registry::new();
    let vec_idx = reg
        .register(TypeDecl {
            name: type_to_string(&vec_of_tuple),
            version: zero,
            id_rule: IdRule::HashNameVersion,
        })
        .unwrap();
    assert_eq!(reg.get(vec_idx).version, zero);
    let phantom_idx = reg
        .register(TypeDecl {
            name: type_to_string(&phantom),
            version: zero,
            id_rule: IdRule::HashNameVersion,
        })
        .unwrap();
    assert_eq!(reg.get(phantom_idx).version, zero);

    let vec_u8 = TypeExpr::Generic(String::from("alloc::vec::Vec"), vec![path("u8")]);
    let vec_u16 = TypeExpr::Generic(String::from("alloc::vec::Vec"), vec![path("u16")]);
    assert_ne!(
        FixedId::from_type_name(&type_to_string(&vec_u8), Some(zero)),
        FixedId::from_type_name(&type_to_string(&vec_u16), Some(zero))
    );

    let arr10 = TypeExpr::Array(Box::new(path("u8")), 10);
    assert_eq!(type_to_string(&arr10), "[u8;10]");
    let arr20 = TypeExpr::Array(
        Box::new(TypeExpr::Tuple(vec![path("u8"), path("u32")])),
        20,
    );
    assert_eq!(type_to_string(&arr20), "[(u8,u32);20]");
    assert_ne!(
        FixedId::from_type_name(&type_to_string(&arr10), Some(zero)),
        FixedId::from_type_name(&type_to_string(&arr20), Some(zero))
    );

    let ref_str = TypeExpr::Ref(Box::new(path("str")));
    assert_eq!(type_to_string(&ref_str), "&str");
    let slice_u8 = TypeExpr::Slice(Box::new(path("u8")));
    assert_eq!(type_to_string(&slice_u8), "&[u8]");

    let hash_map = TypeExpr::Generic(
        String::from("std::collections::HashMap"),
        vec![
            path("alloc::string::String"),
            TypeExpr::Generic(String::from("alloc::vec::Vec"), vec![path("u32")]),
        ],
    );
    assert_eq!(
        type_to_string(&hash_map),
        "std::collections::HashMap<alloc::string::String,alloc::vec::Vec<u32>>"
    );
    let opt_box = TypeExpr::Generic(
        String::from("core::option::Option"),
        vec![TypeExpr::Generic(
            String::from("alloc::boxed::Box"),
            vec![TypeExpr::Generic(
                String::from("alloc::vec::Vec"),
                vec![path("alloc::string::String")],
            )],
        )],
    );
    assert_eq!(
        type_to_string(&opt_box),
        "core::option::Option<alloc::boxed::Box<alloc::vec::Vec<alloc::string::String>>>"
    );
    let pair = TypeExpr::Tuple(vec![
        TypeExpr::Generic(String::from("alloc::vec::Vec"), vec![path("u8")]),
        TypeExpr::Generic(
            String::from("std::collections::HashMap"),
            vec![path("alloc::string::String"), path("u32")],
        ),
    ]);
    assert_eq!(
        type_to_string(&pair),
        "(alloc::vec::Vec<u8>,std::collections::HashMap<alloc::string::String,u32>)"
    );

    let hm_name = type_to_string(&TypeExpr::Generic(
        String::from("std::collections::HashMap"),
        vec![path("alloc::string::String"), path("u32")],
    ));
    let btm_name = type_to_string(&TypeExpr::Generic(
        String::from("alloc::collections::BTreeMap"),
        vec![path("alloc::string::String"), path("u32")],
    ));
    assert_ne!(
        FixedId::from_type_name(&hm_name, Some(zero)),
        FixedId::from_type_name(&btm_name, Some(zero))
    );
    let opt_string = type_to_string(&TypeExpr::Generic(
        String::from("core::option::Option"),
        vec![path("alloc::string::String")],
    ));
    let opt_ref_str = type_to_string(&TypeExpr::Generic(
        String::from("core::option::Option"),
        vec![TypeExpr::Ref(Box::new(path("str")))],
    ));
    assert_ne!(
        FixedId::from_type_name(&opt_string, Some(zero)),
        FixedId::from_type_name(&opt_ref_str, Some(zero))
    );
}

#[test]
fn identifier_is_stable_across_calls() {
    let v = FixedVersion::new(1, 2, 3);
    let a = FixedId::from_type_name("some::path::Widget", Some(v));
    let b = FixedId::from_type_name("some::path::Widget", Some(v));
    assert_eq!(a, b);
    assert_eq!(a.as_u64(), b.as_u64());
    let c = FixedId::from_type_name("some::path::Widget", None);
    let d = FixedId::from_type_name("some::path::Widget", None);
    assert_eq!(c, d);
    // Hashing with a version mixes the version in: it changes the result.
    assert_ne!(a, c);
}

#[test]
fn name_version_hash_matches_from_type_name() {
    let v = FixedVersion::new(0, 1, 0);
    assert_eq!(
        name_version_to_hash("A", &v),
        FixedId::from_type_name("A", Some(v)).as_u64()
    );
    // Distinct versions of one name get distinct identifiers.
    assert_ne!(
        name_version_to_hash("A", &FixedVersion::new(0, 1, 0)),
        name_version_to_hash("A", &FixedVersion::new(0, 2, 0))
    );
}

#[test]
fn registry_override_and_fallback() {
    let mut reg = Registry::new();
    // An override must name an existing registration.
    let err = reg
        .register(TypeDecl {
            name: String::from("Orphan"),
            version: FixedVersion::new(0, 0, 0),
            id_rule: IdRule::EqualTo(7),
        })
        .unwrap_err();
    assert_eq!(
        err,
        fixed_revision::SchemaError::UnknownOverrideTarget { target: 7 }
    );

    let base = reg
        .register(TypeDecl {
            name: String::from("Base"),
            version: FixedVersion::new(0, 1, 0),
            id_rule: IdRule::HashNameOnly,
        })
        .unwrap();
    assert_eq!(
        reg.get(base).id.as_u64(),
        FixedId::from_type_name("Base", None).as_u64()
    );

    // Two declarations sharing an override get one identifier but keep
    // their own versions.
    let first = reg
        .register(TypeDecl {
            name: String::from("Base_1"),
            version: FixedVersion::new(1, 0, 0),
            id_rule: IdRule::EqualTo(base),
        })
        .unwrap();
    let second = reg
        .register(TypeDecl {
            name: String::from("Base_2"),
            version: FixedVersion::new(2, 0, 0),
            id_rule: IdRule::EqualTo(base),
        })
        .unwrap();
    assert_eq!(reg.get(first).id, reg.get(second).id);
    assert_ne!(reg.get(first).version, reg.get(second).version);

    // A random identifier still records name and version.
    let random = reg
        .register(TypeDecl {
            name: String::from("Chaotic"),
            version: FixedVersion::new(0, 0, 1),
            id_rule: IdRule::Random,
        })
        .unwrap();
    assert_eq!(reg.get(random).name, "Chaotic");
    assert_eq!(reg.get(random).version, FixedVersion::new(0, 0, 1));

    // Lookup finds registrations by name; anything else falls back to the
    // explicit sentinel identity.
    assert_eq!(reg.lookup("Base"), Some(base));
    assert_eq!(reg.lookup("Missing"), None);
    let fallback = reg.lookup_or_default("Missing");
    assert_eq!(fallback.name, "NOT_IMPLEMENTED");
    assert_eq!(fallback.version, FixedVersion::new(0, 0, 0));
    assert_eq!(
        fallback.id,
        FixedId::from_type_name("NOT_IMPLEMENTED", Some(FixedVersion::new(0, 0, 0)))
    );
}

#[test]
fn decimal_renderings() {
    assert_eq!(u64_to_dec(0), "0");
    assert_eq!(u64_to_dec(7), "7");
    assert_eq!(u64_to_dec(40), "40");
    assert_eq!(u64_to_dec(18446744073709551615), "18446744073709551615");
    assert_eq!(usize_to_str(0), "0");
    assert_eq!(usize_to_str(10), "10");
    assert_eq!(usize_to_str(32), "32");
    assert_eq!(usize_to_str(33), "N");
    assert_eq!(usize_to_str(64), "64");
    assert_eq!(usize_to_str(65536), "65536");
    assert_eq!(usize_to_str(100), "N");
}

#[test]
fn family_members_register_with_one_identity() {
    let fam = generate(
        SchemaDef {
            name: String::from("Doc"),
            revision: Some(3),
            fields: vec![
                FieldDef {
                    name: String::from("a"),
                    window: RevisionWindow { start: 1, end: None },
                    default: None,
                },
                FieldDef {
                    name: String::from("b"),
                    window: RevisionWindow { start: 2, end: None },
                    default: Some(Value::U64(0)),
                },
            ],
        },
        None,
    )
    .unwrap();
    let mut reg = Registry::new();
    let base = register_family(&mut reg, &fam);
    assert_eq!(reg.entries.len(), 4);
    assert_eq!(reg.get(base).name, "Doc");
    assert_eq!(reg.get(base).id, FixedId::from_type_name("Doc", None));
    for k in 0..3usize {
        let entry = reg.get(base + 1 + k);
        assert_eq!(entry.id, fam.id);
        assert_eq!(entry.name, format!("Doc_{}", k + 1));
        assert_eq!(entry.version, FixedVersion::new((k + 1) as u64, 0, 0));
    }
}
