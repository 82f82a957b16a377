use nif_struct::codec::{decode_value, transcoder_decorator, Codec, DecodeError, TypeMismatch};
use nif_struct::schema::{
    codec_flags, extract_schema, get_module, symbol_name, Attr, FieldDecl, FieldType, GenError,
    Shape, TypeDecl,
};
use nif_struct::symbols::SymbolTable;
use nif_struct::term::{MapTerm, Term};

fn s(x: &str) -> String {
    x.to_string()
}

fn field(name: &str, ty: FieldType) -> FieldDecl {
    FieldDecl { ident: s(name), rename: None, value_type: ty }
}

fn renamed(name: &str, key: &str, ty: FieldType) -> FieldDecl {
    FieldDecl { ident: s(name), rename: Some(s(key)), value_type: ty }
}

fn record_decl(module: &str, fields: Vec<FieldDecl>) -> TypeDecl {
    TypeDecl {
        name: s("Point"),
        has_lifetime: false,
        attrs: vec![Attr::Module(s(module))],
        shape: Shape::Record(fields),
    }
}

fn point() -> Codec {
    let decl = record_decl("Point", vec![field("x", FieldType::Int), field("y", FieldType::Int)]);
    transcoder_decorator(&decl).unwrap()
}

fn atom(x: &str) -> Term {
    Term::Atom(s(x))
}

fn map_of(entries: Vec<(&str, Term)>) -> MapTerm {
    let mut m = MapTerm::map_new();
    for (k, v) in entries {
        m.map_put(s(k), v);
    }
    m
}

#[test]
fn point_encodes_to_tagged_map() {
    let c = point();
    let m = c.encode(&vec![Term::Int(3), Term::Int(4)]);
    let expected = vec![
        (s("__struct__"), atom("Point")),
        (s("x"), Term::Int(3)),
        (s("y"), Term::Int(4)),
    ];
    assert_eq!(m.entries, expected);
    assert_eq!(c.decode(&m), Ok(vec![Term::Int(3), Term::Int(4)]));
}

#[test]
fn point_missing_y_is_missing_field() {
    let c = point();
    let m = map_of(vec![("__struct__", atom("Point")), ("x", Term::Int(3))]);
    assert_eq!(c.decode(&m), Err(DecodeError::MissingField(s("y"))));
}

#[test]
fn point_other_module_is_tag_mismatch() {
    let c = point();
    let m = map_of(vec![
        ("__struct__", atom("OtherType")),
        ("x", Term::Int(3)),
        ("y", Term::Int(4)),
    ]);
    assert_eq!(c.decode(&m), Err(DecodeError::TagMismatch));
}

#[test]
fn round_trip_mixed_types() {
    let decl = record_decl(
        "Elixir.User",
        vec![
            field("id", FieldType::Int),
            field("role", FieldType::Atom),
            field("name", FieldType::Binary),
        ],
    );
    let c = transcoder_decorator(&decl).unwrap();
    let r = vec![Term::Int(-7), atom("admin"), Term::Binary(s("Ada"))];
    assert_eq!(c.decode(&c.encode(&r)), Ok(r));
}

#[test]
fn round_trip_empty_record() {
    let c = transcoder_decorator(&record_decl("Empty", vec![])).unwrap();
    let m = c.encode(&vec![]);
    assert_eq!(m.entries, vec![(s("__struct__"), atom("Empty"))]);
    assert_eq!(c.decode(&m), Ok(vec![]));
}

#[test]
fn removing_each_field_names_that_key() {
    let c = point();
    for (i, key) in ["x", "y"].iter().enumerate() {
        let mut m = c.encode(&vec![Term::Int(3), Term::Int(4)]);
        m.entries.remove(i + 1);
        assert_eq!(c.decode(&m), Err(DecodeError::MissingField(s(key))));
    }
}

#[test]
fn no_tag_key_is_not_a_record() {
    let c = point();
    let m = map_of(vec![("x", Term::Int(3)), ("y", Term::Int(4))]);
    assert_eq!(c.decode(&m), Err(DecodeError::NotARecord));
}

#[test]
fn non_atom_tag_is_not_a_record() {
    let c = point();
    let m = map_of(vec![
        ("__struct__", Term::Binary(s("Point"))),
        ("x", Term::Int(3)),
        ("y", Term::Int(4)),
    ]);
    assert_eq!(c.decode(&m), Err(DecodeError::NotARecord));
}

#[test]
fn wrong_field_type_names_field_and_tag() {
    let c = point();
    let m = map_of(vec![
        ("__struct__", atom("Point")),
        ("x", Term::Int(3)),
        ("y", Term::Binary(s("four"))),
    ]);
    assert_eq!(
        c.decode(&m),
        Err(DecodeError::FieldDecodeError {
            key: s("y"),
            tag: s("Point"),
            cause: TypeMismatch { expected: FieldType::Int, found: Term::Binary(s("four")) },
        })
    );
}

#[test]
fn first_failing_field_in_order_is_reported() {
    let c = point();
    let m = map_of(vec![("__struct__", atom("Point")), ("y", atom("bad"))]);
    assert_eq!(c.decode(&m), Err(DecodeError::MissingField(s("x"))));
}

#[test]
fn extra_keys_are_ignored() {
    let c = point();
    let m = map_of(vec![
        ("z", Term::Int(9)),
        ("__struct__", atom("Point")),
        ("y", Term::Int(4)),
        ("x", Term::Int(3)),
    ]);
    assert_eq!(c.decode(&m), Ok(vec![Term::Int(3), Term::Int(4)]));
}

#[test]
fn renamed_field_uses_renamed_key() {
    let decl = record_decl(
        "Point",
        vec![renamed("x", "horizontal", FieldType::Int), field("y", FieldType::Int)],
    );
    let c = transcoder_decorator(&decl).unwrap();
    let m = c.encode(&vec![Term::Int(3), Term::Int(4)]);
    assert_eq!(m.entries[1], (s("horizontal"), Term::Int(3)));
    assert!(m.entries.iter().all(|(k, _)| k != "x"));
    assert_eq!(c.decode(&m), Ok(vec![Term::Int(3), Term::Int(4)]));
    let by_ident = map_of(vec![
        ("__struct__", atom("Point")),
        ("x", Term::Int(3)),
        ("y", Term::Int(4)),
    ]);
    assert_eq!(c.decode(&by_ident), Err(DecodeError::MissingField(s("horizontal"))));
}

#[test]
fn duplicate_rename_fails_generation() {
    let decl = record_decl(
        "Point",
        vec![field("x", FieldType::Int), renamed("y", "x", FieldType::Int)],
    );
    assert_eq!(transcoder_decorator(&decl), Err(GenError::DuplicateKey(s("x"))));
}

#[test]
fn field_named_like_reserved_key_fails_generation() {
    let decl = record_decl("Point", vec![renamed("kind", "__struct__", FieldType::Atom)]);
    assert_eq!(transcoder_decorator(&decl), Err(GenError::DuplicateKey(s("__struct__"))));
}

#[test]
fn missing_module_attribute_fails_generation() {
    let decl = TypeDecl {
        name: s("Point"),
        has_lifetime: false,
        attrs: vec![Attr::Encode],
        shape: Shape::Record(vec![field("x", FieldType::Int)]),
    };
    assert_eq!(transcoder_decorator(&decl), Err(GenError::MissingTagAttribute));
}

#[test]
fn tuple_shape_fails_generation() {
    let decl = TypeDecl {
        name: s("Pair"),
        has_lifetime: false,
        attrs: vec![Attr::Module(s("Pair"))],
        shape: Shape::Tuple,
    };
    assert_eq!(transcoder_decorator(&decl), Err(GenError::UnsupportedShape));
    let decl = TypeDecl {
        name: s("Pair"),
        has_lifetime: false,
        attrs: vec![],
        shape: Shape::Enum,
    };
    assert_eq!(transcoder_decorator(&decl), Err(GenError::MissingTagAttribute));
}

#[test]
fn first_module_attribute_wins() {
    let attrs = vec![Attr::Decode, Attr::Module(s("A")), Attr::Module(s("B"))];
    assert_eq!(get_module(&attrs), Some(s("A")));
    assert_eq!(get_module(&vec![Attr::Encode]), None);
}

#[test]
fn codec_flags_default_to_both() {
    assert_eq!(codec_flags(&vec![Attr::Module(s("M"))]), (true, true));
    assert_eq!(codec_flags(&vec![Attr::Encode]), (false, true));
    assert_eq!(codec_flags(&vec![Attr::Decode]), (true, false));
    assert_eq!(codec_flags(&vec![Attr::Decode, Attr::Encode]), (true, true));
}

#[test]
fn schema_carries_flags_and_keys() {
    let decl = TypeDecl {
        name: s("T"),
        has_lifetime: false,
        attrs: vec![Attr::Module(s("T")), Attr::Encode],
        shape: Shape::Record(vec![field("r#type", FieldType::Atom)]),
    };
    let schema = extract_schema(&decl).unwrap();
    assert_eq!(schema.tag, "T");
    assert!(!schema.decode_enabled);
    assert!(schema.encode_enabled);
    assert_eq!(schema.fields[0].ident, "r#type");
    assert_eq!(schema.fields[0].key_name, "type");
}

#[test]
fn raw_identifier_loses_prefix() {
    assert_eq!(symbol_name(&s("r#match")), "match");
    assert_eq!(symbol_name(&s("radius")), "radius");
    assert_eq!(symbol_name(&s("r")), "r");
}

#[test]
fn symbol_table_holds_each_key_once() {
    let schema = extract_schema(&record_decl(
        "Point",
        vec![field("x", FieldType::Int), field("y", FieldType::Int)],
    ))
    .unwrap();
    let t = SymbolTable::build(&schema).unwrap();
    assert_eq!(t.struct_key, "__struct__");
    assert_eq!(t.module, "Point");
    assert_eq!(t.field_keys, vec![s("x"), s("y")]);
}

#[test]
fn map_put_replaces_existing_key() {
    let mut m = map_of(vec![("a", Term::Int(1)), ("b", Term::Int(2))]);
    m.map_put(s("a"), Term::Int(5));
    assert_eq!(m.entries, vec![(s("a"), Term::Int(5)), (s("b"), Term::Int(2))]);
    assert_eq!(m.map_get(&s("a")), Some(&Term::Int(5)));
    assert_eq!(m.map_get(&s("c")), None);
}

#[test]
fn value_decoder_keeps_or_refuses() {
    assert_eq!(decode_value(FieldType::Int, &Term::Int(5)), Ok(Term::Int(5)));
    assert_eq!(decode_value(FieldType::Any, &atom("a")), Ok(atom("a")));
    assert_eq!(
        decode_value(FieldType::Atom, &Term::Int(5)),
        Err(TypeMismatch { expected: FieldType::Atom, found: Term::Int(5) })
    );
}

#[test]
fn schema_keeps_name_and_lifetime() {
    let mut decl = record_decl("Point", vec![field("x", FieldType::Int)]);
    decl.has_lifetime = true;
    let c = transcoder_decorator(&decl).unwrap();
    assert_eq!(c.schema.name, "Point");
    assert!(c.schema.has_lifetime);
}
