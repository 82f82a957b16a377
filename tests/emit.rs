use nif_struct::codec::{transcoder_decorator, Codec};
use nif_struct::emit::{atoms_module_name, binding_name, decimal};
use nif_struct::schema::{Attr, FieldDecl, FieldType, Shape, TypeDecl};

fn decl(attrs: Vec<Attr>, fields: Vec<(&str, Option<&str>)>) -> TypeDecl {
    TypeDecl {
        name: "Point".to_string(),
        has_lifetime: false,
        attrs,
        shape: Shape::Record(
            fields
                .into_iter()
                .map(|(ident, rename)| FieldDecl {
                    ident: ident.to_string(),
                    rename: rename.map(|r| r.to_string()),
                    value_type: FieldType::Int,
                })
                .collect(),
        ),
    }
}

fn point(attrs: Vec<Attr>) -> Codec {
    transcoder_decorator(&decl(attrs, vec![("x", None), ("y", Some("why"))])).unwrap()
}

#[test]
fn atoms_module_text() {
    let c = point(vec![Attr::Module("Elixir.Point".to_string())]);
    let expected = "mod rustler_atoms_Point {\n    ::rustler::atoms! {\n        atom_struct = \"__struct__\",\n        atom_module = \"Elixir.Point\",\n        atom_field_0 = \"x\",\n        atom_field_1 = \"why\",\n    }\n}\n";
    assert_eq!(c.emit_atoms(), expected);
}

#[test]
fn tag_with_quote_is_escaped() {
    let c = point(vec![Attr::Module("A\"B".to_string())]);
    assert!(c.emit_atoms().contains("atom_module = \"A\\\"B\","));
}

#[test]
fn decoder_binds_each_field_once() {
    let c = point(vec![Attr::Module("Point".to_string())]);
    let text = c.emit_decoder();
    assert!(text.starts_with("impl<'a> ::rustler::Decoder<'a> for Point {\n"));
    assert!(text.contains("        let __struct_0_x = try_decode_field(env, term, atom_field_0())?;\n"));
    assert!(text.contains("        let __struct_1_y = try_decode_field(env, term, atom_field_1())?;\n"));
    assert!(text.contains("        Ok(Point {\n            x: __struct_0_x,\n            y: __struct_1_y,\n        })\n"));
    assert!(text.contains("if module != atom_module()"));
    assert!(text.contains("\"Missing field :{:?} on %{}{{}}\",\n                    field, \"Point\""));
    assert!(text.contains("\"Not a struct: expected %{}{{}}\",\n                    \"Point\""));
    assert!(text.contains("message: format!(\n                            \"Could not decode field :{:?} on %{}{{}}\",\n                            field, \"Point\""));
    assert!(text.contains("cause,\n"));
}

#[test]
fn lifetime_goes_on_both_impls() {
    let mut d = decl(vec![Attr::Module("Point".to_string())], vec![("x", None)]);
    d.has_lifetime = true;
    let c = transcoder_decorator(&d).unwrap();
    assert!(c.emit_decoder().starts_with("impl<'a> ::rustler::Decoder<'a> for Point<'a> {\n"));
    assert!(c.emit_encoder().starts_with("impl<'b> ::rustler::Encoder for Point<'b> {\n"));
    assert!(c.emit_decoder().contains("        Ok(Point {\n"));
}

#[test]
fn encoder_puts_each_field() {
    let c = point(vec![Attr::Module("Point".to_string())]);
    let text = c.emit_encoder();
    assert!(text.starts_with("impl<'b> ::rustler::Encoder for Point {\n"));
    assert!(text.contains(".map_put(atom_struct().encode(env), atom_module().encode(env))"));
    assert!(text.contains("        map = map.map_put(atom_field_0().encode(env), self.x.encode(env)).unwrap();\n"));
    assert!(text.contains("        map = map.map_put(atom_field_1().encode(env), self.y.encode(env)).unwrap();\n"));
    assert!(text.ends_with("        map\n    }\n}\n"));
}

#[test]
fn source_follows_flags() {
    let both = point(vec![Attr::Module("Point".to_string())]);
    let source = both.emit_source();
    assert!(source.starts_with(&both.emit_atoms()));
    assert!(source.contains("::rustler::Decoder<'a> for Point"));
    assert!(source.contains("::rustler::Encoder for Point {"));

    let enc = point(vec![Attr::Module("Point".to_string()), Attr::Encode]);
    let source = enc.emit_source();
    assert!(!source.contains("::rustler::Decoder<'a> for Point"));
    assert_eq!(source, format!("{}{}", enc.emit_atoms(), enc.emit_encoder()));

    let dec = point(vec![Attr::Module("Point".to_string()), Attr::Decode]);
    assert_eq!(dec.emit_source(), format!("{}{}", dec.emit_atoms(), dec.emit_decoder()));
}

#[test]
fn binding_names_carry_position() {
    assert_eq!(binding_name(0, &"x".to_string()), "__struct_0_x");
    assert_eq!(binding_name(12, &"r#type".to_string()), "__struct_12_type");
    assert_ne!(binding_name(1, &"x".to_string()), binding_name(2, &"x".to_string()));
}

#[test]
fn atoms_module_named_after_type() {
    assert_eq!(atoms_module_name(&"User".to_string()), "rustler_atoms_User");
}

#[test]
fn decimal_digits() {
    assert_eq!(decimal(0), "0");
    assert_eq!(decimal(7), "7");
    assert_eq!(decimal(10), "10");
    assert_eq!(decimal(4096), "4096");
    assert_eq!(decimal(usize::MAX), usize::MAX.to_string());
}
