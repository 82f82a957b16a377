use vstd::prelude::*;
use vstd::string::*;

use crate::term::TermView;

verus! {

/// The kind of value a field holds, which decides how its term is read.
#[derive(Clone, Copy, Debug, PartialEq, Eq, Structural)]
pub enum FieldType {
    Int,
    Atom,
    Binary,
    /// Any term: the field holds the term itself.
    Any,
}

/// Whether a term is a value of the given field type.
pub open spec fn fits(t: FieldType, v: TermView) -> bool {
    match t {
        FieldType::Int => v is Int,
        FieldType::Atom => v is Atom,
        FieldType::Binary => v is Binary,
        FieldType::Any => true,
    }
}

/// A type-level attribute of a record declaration.
#[derive(Clone, Debug, PartialEq, Eq)]
pub enum Attr {
    /// The module name that tags every encoded value of the type.
    Module(String),
    /// Ask for an encoder.
    Encode,
    /// Ask for a decoder.
    Decode,
}

/// One declared field: its name, an optional renamed key, and its type.
#[derive(Clone, Debug, PartialEq, Eq)]
pub struct FieldDecl {
    pub ident: String,
    pub rename: Option<String>,
    pub value_type: FieldType,
}

/// The shape of a type declaration.
#[derive(Clone, Debug, PartialEq, Eq)]
pub enum Shape {
    /// A record with named fields, in declaration order.
    Record(Vec<FieldDecl>),
    Tuple,
    Unit,
    Enum,
}

/// A type declaration with its attributes.
#[derive(Clone, Debug, PartialEq, Eq)]
pub struct TypeDecl {
    pub name: String,
    /// The type takes one lifetime argument.
    pub has_lifetime: bool,
    pub attrs: Vec<Attr>,
    pub shape: Shape,
}

/// A field of the normalized schema.
#[derive(Clone, Debug, PartialEq, Eq)]
pub struct FieldSpec {
    pub ident: String,
    pub key_name: String,
    pub value_type: FieldType,
}

/// The normalized description of a record type.
#[derive(Clone, Debug, PartialEq, Eq)]
pub struct Schema {
    pub name: String,
    pub has_lifetime: bool,
    pub tag: String,
    pub fields: Vec<FieldSpec>,
    pub decode_enabled: bool,
    pub encode_enabled: bool,
}

/// Why no code can be generated for a declaration.
#[derive(Clone, Debug, PartialEq, Eq)]
pub enum GenError {
    MissingTagAttribute,
    UnsupportedShape,
    DuplicateKey(String),
}

/// The declared fields of a record; none for another shape.
pub open spec fn decl_fields(decl: TypeDecl) -> Seq<FieldDecl> {
    match decl.shape {
        Shape::Record(fs) => fs@,
        _ => Seq::empty(),
    }
}

/// The first `Module` attribute at or after position `i`.
pub open spec fn module_from(attrs: Seq<Attr>, i: int) -> Option<Seq<char>>
    decreases attrs.len() - i,
{
    if i < 0 || i >= attrs.len() {
        None
    } else {
        match attrs[i] {
            Attr::Module(m) => Some(m@),
            _ => module_from(attrs, i + 1),
        }
    }
}

/// The module name given by the first `Module` attribute.
pub open spec fn module_of(attrs: Seq<Attr>) -> Option<Seq<char>> {
    module_from(attrs, 0)
}

pub open spec fn has_encode(attrs: Seq<Attr>) -> bool {
    exists|i: int| 0 <= i < attrs.len() && #[trigger] attrs[i] is Encode
}

pub open spec fn has_decode(attrs: Seq<Attr>) -> bool {
    exists|i: int| 0 <= i < attrs.len() && #[trigger] attrs[i] is Decode
}

/// Without `Encode` or `Decode` both directions are generated; otherwise
/// just those named.
pub open spec fn decode_wanted(attrs: Seq<Attr>) -> bool {
    has_decode(attrs) || !has_encode(attrs)
}

pub open spec fn encode_wanted(attrs: Seq<Attr>) -> bool {
    has_encode(attrs) || !has_decode(attrs)
}

/// The symbol that names an identifier: a raw identifier loses its `r#`.
pub open spec fn symbol_of(id: Seq<char>) -> Seq<char> {
    if id.len() >= 2 && id[0] == 'r' && id[1] == '#' {
        id.skip(2)
    } else {
        id
    }
}

/// The key under which a field is stored: its rename, else its symbol.
pub open spec fn key_of(f: FieldDecl) -> Seq<char> {
    match f.rename {
        Some(r) => r@,
        None => symbol_of(f.ident@),
    }
}

/// The schema field for a declared field.
pub open spec fn spec_matches_decl(s: FieldSpec, f: FieldDecl) -> bool {
    &&& s.ident@ == f.ident@
    &&& s.key_name@ == key_of(f)
    &&& s.value_type == f.value_type
}

/// The module name given by the attributes, if any.
pub fn get_module(attrs: &Vec<Attr>) -> (r: Option<String>)
    ensures
        match r {
            Some(m) => module_of(attrs@) == Some(m@),
            None => module_of(attrs@) is None,
        },
{
    let mut i: usize = 0;
    while i < attrs.len()
        invariant
            0 <= i <= attrs@.len(),
            module_of(attrs@) == module_from(attrs@, i as int),
        decreases attrs@.len() - i,
    {
        match &attrs[i] {
            Attr::Module(m) => {
                return Some(m.clone());
            },
            _ => {},
        }
        i = i + 1;
    }
    None
}

/// Which of decoding and encoding the attributes ask for.
pub fn codec_flags(attrs: &Vec<Attr>) -> (r: (bool, bool))
    ensures
        r.0 == decode_wanted(attrs@),
        r.1 == encode_wanted(attrs@),
{
    let mut dec = false;
    let mut enc = false;
    let mut i: usize = 0;
    while i < attrs.len()
        invariant
            0 <= i <= attrs@.len(),
            dec == exists|t: int| 0 <= t < i && #[trigger] attrs@[t] is Decode,
            enc == exists|t: int| 0 <= t < i && #[trigger] attrs@[t] is Encode,
        decreases attrs@.len() - i,
    {
        match &attrs[i] {
            Attr::Decode => {
                dec = true;
            },
            Attr::Encode => {
                enc = true;
            },
            _ => {},
        }
        i = i + 1;
    }
    (dec || !enc, enc || !dec)
}

/// The symbol for an identifier.
pub fn symbol_name(ident: &String) -> (r: String)
    ensures
        r@ == symbol_of(ident@),
{
    let s = ident.as_str();
    let n = s.unicode_len();
    if n >= 2 && s.get_char(0) == 'r' && s.get_char(1) == '#' {
        String::from_str(s.substring_char(2, n))
    } else {
        ident.clone()
    }
}

/// The schema field of a declared field.
pub fn field_spec(f: &FieldDecl) -> (r: FieldSpec)
    ensures
        spec_matches_decl(r, *f),
{
    let key_name = match &f.rename {
        Some(k) => k.clone(),
        None => symbol_name(&f.ident),
    };
    FieldSpec { ident: f.ident.clone(), key_name, value_type: f.value_type }
}

/// Normalizes a declaration: its tag, its fields in order with their keys,
/// and which directions are wanted.
pub fn extract_schema(decl: &TypeDecl) -> (r: Result<Schema, GenError>)
    ensures
        module_of(decl.attrs@) is None ==> r == Err::<Schema, GenError>(
            GenError::MissingTagAttribute,
        ),
        module_of(decl.attrs@) is Some && !(decl.shape is Record) ==> r == Err::<
            Schema,
            GenError,
        >(GenError::UnsupportedShape),
        module_of(decl.attrs@) is Some && decl.shape is Record ==> r is Ok,
        r matches Ok(s) ==> {
            &&& module_of(decl.attrs@) == Some(s.tag@)
            &&& s.name@ == decl.name@
            &&& s.has_lifetime == decl.has_lifetime
            &&& decl.shape matches Shape::Record(fs) && s.fields@.len() == fs@.len() && forall|
                i: int,
            | 0 <= i < fs@.len() ==> spec_matches_decl(#[trigger] s.fields@[i], fs@[i])
            &&& s.decode_enabled == decode_wanted(decl.attrs@)
            &&& s.encode_enabled == encode_wanted(decl.attrs@)
        },
{
    let tag = match get_module(&decl.attrs) {
        Some(m) => m,
        None => {
            return Err(GenError::MissingTagAttribute);
        },
    };
    let decls = match &decl.shape {
        Shape::Record(fs) => fs,
        _ => {
            return Err(GenError::UnsupportedShape);
        },
    };
    let mut fields: Vec<FieldSpec> = Vec::new();
    let mut i: usize = 0;
    while i < decls.len()
        invariant
            0 <= i <= decls@.len(),
            fields@.len() == i,
            forall|t: int| 0 <= t < i ==> spec_matches_decl(#[trigger] fields@[t], decls@[t]),
        decreases decls@.len() - i,
    {
        fields.push(field_spec(&decls[i]));
        i = i + 1;
    }
    let (decode_enabled, encode_enabled) = codec_flags(&decl.attrs);
    Ok(Schema { name: decl.name.clone(), has_lifetime: decl.has_lifetime, tag, fields, decode_enabled, encode_enabled })
}

} // verus!
