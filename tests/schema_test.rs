use err_per_field::collapse::{collapse, slot_kind, wrapper_name, Slot, SlotKind};
use err_per_field::directive::{
    classify, field_mode, Attr, AttrItem, Diagnostic, DiagnosticKind, FieldMode, LitValue,
};
use err_per_field::schema::{build_schema, FieldDecl, RecordDecl, RecordShape, SchemaError};

fn ours(items: Vec<AttrItem>) -> Attr {
    Attr::List { name: Some("err_per_field".to_string()), items }
}

fn word(key: &str) -> AttrItem {
    AttrItem::Word(Some(key.to_string()))
}

fn error_type(text: &str) -> AttrItem {
    AttrItem::KeyValue(
        Some("maybe_error".to_string()),
        LitValue::Str(text.to_string()),
    )
}

fn field(name: &str, ty: &'static str, attrs: Vec<Attr>) -> FieldDecl<&'static str> {
    FieldDecl { name: name.to_string(), ty, attrs }
}

fn foo_fields() -> Vec<FieldDecl<&'static str>> {
    vec![
        field("bar1", "u8", vec![]),
        field("bar2", "u16", vec![ours(vec![word("maybe_none")])]),
        field("bar3", "u32", vec![ours(vec![error_type("AnError")])]),
        field("bar4", "u64", vec![]),
    ]
}

fn diag(field: usize, attr: usize, item: usize, kind: DiagnosticKind) -> Diagnostic {
    Diagnostic { field, attr, item: Some(item), kind }
}

#[test]
fn schema_keeps_fields_in_order_with_modes() {
    let decl = RecordDecl {
        name: "Foo".to_string(),
        header: "pub <>",
        shape: RecordShape::Named(foo_fields()),
    };
    let derivation = build_schema(decl).ok().unwrap();
    assert!(derivation.diagnostics.is_empty());
    let spec = derivation.spec;
    assert_eq!(spec.name, "Foo");
    assert_eq!(spec.header, "pub <>");
    let names: Vec<&str> = spec.fields.iter().map(|f| f.name.as_str()).collect();
    assert_eq!(names, vec!["bar1", "bar2", "bar3", "bar4"]);
    let types: Vec<&str> = spec.fields.iter().map(|f| f.ty).collect();
    assert_eq!(types, vec!["u8", "u16", "u32", "u64"]);
    assert!(matches!(spec.fields[0].mode, FieldMode::Raw));
    assert!(matches!(spec.fields[1].mode, FieldMode::Optional));
    match &spec.fields[2].mode {
        FieldMode::Fallible(e) => {
            assert_eq!(e.text, "AnError");
            assert!(e.path.is_ident("AnError"));
        }
        _ => panic!("bar3 should be fallible"),
    }
    assert!(matches!(spec.fields[3].mode, FieldMode::Raw));
}

#[test]
fn schema_keeps_generic_header() {
    let decl = RecordDecl {
        name: "Foo".to_string(),
        header: "<T: Clone>",
        shape: RecordShape::Named(vec![field("bar2", "T", vec![ours(vec![word("maybe_none")])])]),
    };
    let spec = build_schema(decl).ok().unwrap().spec;
    assert_eq!(spec.header, "<T: Clone>");
    assert_eq!(spec.fields[0].ty, "T");
}

#[test]
fn schema_rejects_unsupported_shape() {
    let decl: RecordDecl<(), ()> = RecordDecl {
        name: "Tuple".to_string(),
        header: (),
        shape: RecordShape::Unsupported,
    };
    assert_eq!(build_schema(decl).err(), Some(SchemaError::UnsupportedShape));
}

#[test]
fn schema_of_empty_record() {
    let decl: RecordDecl<(), ()> = RecordDecl {
        name: "Empty".to_string(),
        header: (),
        shape: RecordShape::Named(vec![]),
    };
    let derivation = build_schema(decl).ok().unwrap();
    assert!(derivation.spec.fields.is_empty());
    assert!(derivation.diagnostics.is_empty());
}

#[test]
fn schema_reports_malformed_directives_of_two_fields() {
    let fields = vec![
        field("a", "u8", vec![ours(vec![word("maybe_null")])]),
        field("b", "u8", vec![]),
        field("c", "u8", vec![ours(vec![error_type("not a path!")])]),
    ];
    let decl = RecordDecl { name: "R".to_string(), header: (), shape: RecordShape::Named(fields) };
    let derivation = build_schema(decl).ok().unwrap();
    assert_eq!(
        derivation.diagnostics,
        vec![
            diag(0, 0, 0, DiagnosticKind::UnknownKey),
            diag(2, 0, 0, DiagnosticKind::InvalidPath),
        ]
    );
    assert!(matches!(derivation.spec.fields[0].mode, FieldMode::Raw));
    assert!(matches!(derivation.spec.fields[2].mode, FieldMode::Raw));
}

#[test]
fn field_reports_every_malformed_directive() {
    let attrs = vec![
        ours(vec![word("maybe_null"), word("maybe_none")]),
        ours(vec![AttrItem::KeyValue(Some("maybe_error".to_string()), LitValue::Other)]),
    ];
    let (mode, diagnostics) = field_mode(3, &attrs);
    assert!(matches!(mode, FieldMode::Optional));
    assert_eq!(
        diagnostics,
        vec![
            diag(3, 0, 0, DiagnosticKind::UnknownKey),
            diag(3, 1, 0, DiagnosticKind::UnsupportedValue),
        ]
    );
}

#[test]
fn field_with_conflicting_directives() {
    let attrs = vec![ours(vec![word("maybe_none"), error_type("AnError"), word("maybe_none")])];
    let (mode, diagnostics) = field_mode(0, &attrs);
    assert!(matches!(mode, FieldMode::Optional));
    assert_eq!(diagnostics, vec![diag(0, 0, 1, DiagnosticKind::ConflictingDirectives)]);
}

#[test]
fn field_with_two_error_types_conflicts() {
    let attrs = vec![ours(vec![error_type("A")]), ours(vec![error_type("my::B")])];
    let (mode, diagnostics) = field_mode(1, &attrs);
    match mode {
        FieldMode::Fallible(e) => assert_eq!(e.text, "A"),
        _ => panic!("first error type should stay"),
    }
    assert_eq!(diagnostics, vec![diag(1, 1, 0, DiagnosticKind::ConflictingDirectives)]);
}

#[test]
fn field_ignores_other_attributes() {
    let attrs = vec![
        Attr::Other(None),
        Attr::Other(Some("doc".to_string())),
        Attr::List { name: Some("serde".to_string()), items: vec![word("maybe_null")] },
        Attr::List { name: None, items: vec![word("maybe_null")] },
        ours(vec![word("maybe_none")]),
    ];
    let (mode, diagnostics) = field_mode(0, &attrs);
    assert!(matches!(mode, FieldMode::Optional));
    assert!(diagnostics.is_empty());
}

#[test]
fn classify_each_item_form() {
    assert!(matches!(classify(&word("maybe_none")), Ok(FieldMode::Optional)));
    assert_eq!(classify(&AttrItem::Word(None)).err(), Some(DiagnosticKind::UnknownKey));
    assert_eq!(classify(&word("maybe_error")).err(), Some(DiagnosticKind::UnknownKey));
    assert_eq!(classify(&AttrItem::Literal).err(), Some(DiagnosticKind::UnknownKey));
    assert_eq!(
        classify(&AttrItem::List(Some("maybe_none".to_string()))).err(),
        Some(DiagnosticKind::UnknownKey)
    );
    assert_eq!(
        classify(&AttrItem::KeyValue(None, LitValue::Str("E".to_string()))).err(),
        Some(DiagnosticKind::UnknownKey)
    );
    assert_eq!(
        classify(&AttrItem::KeyValue(
            Some("maybe_none".to_string()),
            LitValue::Str("E".to_string())
        ))
        .err(),
        Some(DiagnosticKind::UnknownKey)
    );
    assert_eq!(classify(&error_type("")).err(), Some(DiagnosticKind::InvalidPath));
    assert_eq!(classify(&error_type("a b")).err(), Some(DiagnosticKind::InvalidPath));
    match classify(&error_type("std::io::Error")) {
        Ok(FieldMode::Fallible(e)) => {
            assert_eq!(e.text, "std::io::Error");
            assert_eq!(e.path.segments.len(), 3);
        }
        _ => panic!("a path should parse"),
    }
}

#[test]
fn wrapper_name_appends_suffix() {
    assert_eq!(wrapper_name("Foo"), "FooPerErrFieldWrapper");
    assert_eq!(wrapper_name(""), "PerErrFieldWrapper");
}

#[test]
fn empty_wrapper_collapses() {
    let empty: Vec<Slot<u8, ()>> = vec![];
    assert_eq!(collapse(empty), Ok(vec![]));
}

#[test]
fn wrapper_of_raw_fields_collapses() {
    let w: Vec<Slot<i32, ()>> = vec![Slot::Raw(-1), Slot::Raw(0)];
    assert_eq!(collapse(w), Ok(vec![-1, 0]));
}

#[test]
fn wrapper_with_absent_and_failed_fields_comes_back() {
    let w: Vec<Slot<u8, &str>> = vec![
        Slot::Fallible(Err("bad")),
        Slot::Raw(5),
        Slot::Optional(None),
        Slot::Fallible(Ok(6)),
    ];
    assert_eq!(
        collapse(w),
        Err(vec![
            Slot::Fallible(Err("bad")),
            Slot::Raw(5),
            Slot::Optional(None),
            Slot::Fallible(Ok(6)),
        ])
    );
}

#[test]
fn malformed_attribute_is_reported() {
    let attrs = vec![
        Attr::Other(Some("err_per_field".to_string())),
        ours(vec![AttrItem::Literal, word("maybe_none")]),
        Attr::Other(Some("err_per_field".to_string())),
    ];
    let (mode, diagnostics) = field_mode(4, &attrs);
    assert!(matches!(mode, FieldMode::Optional));
    assert_eq!(
        diagnostics,
        vec![
            Diagnostic { field: 4, attr: 0, item: None, kind: DiagnosticKind::MalformedAttribute },
            diag(4, 1, 0, DiagnosticKind::UnknownKey),
            Diagnostic { field: 4, attr: 2, item: None, kind: DiagnosticKind::MalformedAttribute },
        ]
    );
}

#[test]
fn slot_kind_follows_mode() {
    assert_eq!(slot_kind(&FieldMode::Raw), SlotKind::Raw);
    assert_eq!(slot_kind(&FieldMode::Optional), SlotKind::Optional);
    match classify(&error_type("AnError")) {
        Ok(mode) => assert_eq!(slot_kind(&mode), SlotKind::Fallible),
        Err(_) => panic!("a path should parse"),
    }
}
