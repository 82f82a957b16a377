use vstd::prelude::*;

use crate::schema::{
    decl_fields, decode_wanted, encode_wanted, extract_schema, fits, key_of, module_of, spec_matches_decl,
    FieldDecl, FieldType, GenError, Schema, Shape, TypeDecl,
};
use crate::symbols::{key_clashes, keys_distinct, schema_key, struct_key, SymbolTable};
use crate::term::{lookup, Entries, MapTerm, Term, TermView};

verus! {

/// The error of a field's own decoder: the term is not of the field's type.
#[derive(Clone, Debug, PartialEq, Eq)]
pub struct TypeMismatch {
    pub expected: FieldType,
    pub found: Term,
}

pub struct TypeMismatchView {
    pub expected: FieldType,
    pub found: TermView,
}

impl View for TypeMismatch {
    type V = TypeMismatchView;

    open spec fn view(&self) -> TypeMismatchView {
        TypeMismatchView { expected: self.expected, found: self.found@ }
    }
}

/// The decoder of a field type: the term itself where it is of that type.
pub fn decode_value(expected: FieldType, t: &Term) -> (r: Result<Term, TypeMismatch>)
    ensures
        fits(expected, t@) ==> (r matches Ok(v) && v@ == t@),
        !fits(expected, t@) ==> (r matches Err(e) && e@ == (TypeMismatchView {
            expected,
            found: t@,
        })),
{
    let ok = match (expected, t) {
        (FieldType::Int, Term::Int(_)) => true,
        (FieldType::Atom, Term::Atom(_)) => true,
        (FieldType::Binary, Term::Binary(_)) => true,
        (FieldType::Any, _) => true,
        _ => false,
    };
    if ok {
        Ok(t.duplicate())
    } else {
        Err(TypeMismatch { expected, found: t.duplicate() })
    }
}

/// Why a map term could not be read back as a record.
#[derive(Clone, Debug, PartialEq, Eq)]
pub enum DecodeError {
    /// The map has no reserved key, or its value is not an atom.
    NotARecord,
    /// The map is tagged with another module.
    TagMismatch,
    /// The map lacks the key of a field.
    MissingField(String),
    /// The field's own decoder refused the value under its key; `cause` is
    /// that decoder's error.
    FieldDecodeError { key: String, tag: String, cause: TypeMismatch },
}

pub enum DecodeErrorView {
    NotARecord,
    TagMismatch,
    MissingField(Seq<char>),
    FieldDecodeError { key: Seq<char>, tag: Seq<char>, cause: TypeMismatchView },
}

impl View for DecodeError {
    type V = DecodeErrorView;

    open spec fn view(&self) -> DecodeErrorView {
        match self {
            DecodeError::NotARecord => DecodeErrorView::NotARecord,
            DecodeError::TagMismatch => DecodeErrorView::TagMismatch,
            DecodeError::MissingField(k) => DecodeErrorView::MissingField(k@),
            DecodeError::FieldDecodeError { key, tag, cause } =>
                DecodeErrorView::FieldDecodeError { key: key@, tag: tag@, cause: cause@ },
        }
    }
}

/// The values of a record, one per field in declaration order.
pub open spec fn record_view(r: Seq<Term>) -> Seq<TermView> {
    r.map_values(|t: Term| t@)
}

/// The mathematical outcome of a decode.
pub open spec fn result_view(r: Result<Vec<Term>, DecodeError>) -> Result<
    Seq<TermView>,
    DecodeErrorView,
> {
    match r {
        Ok(v) => Ok(record_view(v@)),
        Err(e) => Err(e@),
    }
}

/// The generated encoder and decoder of one record type: its schema and the
/// symbols they share.
#[derive(Clone, Debug, PartialEq, Eq)]
pub struct Codec {
    pub schema: Schema,
    pub symbols: SymbolTable,
}

impl Codec {
    pub open spec fn wf(&self) -> bool {
        self.symbols.wf_for(self.schema)
    }

    pub open spec fn tag(&self) -> Seq<char> {
        self.schema.tag@
    }

    pub open spec fn len(&self) -> int {
        self.schema.fields@.len() as int
    }

    pub open spec fn key(&self, i: int) -> Seq<char> {
        schema_key(self.schema, i)
    }

    pub open spec fn ty(&self, i: int) -> FieldType {
        self.schema.fields@[i].value_type
    }

    /// A record that this codec can carry: one value of the right type per field.
    pub open spec fn valid_record(&self, r: Seq<TermView>) -> bool {
        &&& r.len() == self.len()
        &&& forall|i: int| 0 <= i < r.len() ==> fits(self.ty(i), #[trigger] r[i])
    }

    /// The value of field `i` read from `m`.
    pub open spec fn field_spec(&self, m: Entries, i: int) -> Result<TermView, DecodeErrorView> {
        match lookup(m, self.key(i)) {
            None => Err(DecodeErrorView::MissingField(self.key(i))),
            Some(v) => if fits(self.ty(i), v) {
                Ok(v)
            } else {
                Err(
                    DecodeErrorView::FieldDecodeError {
                        key: self.key(i),
                        tag: self.tag(),
                        cause: TypeMismatchView { expected: self.ty(i), found: v },
                    },
                )
            },
        }
    }

    /// The first `n` fields read from `m` in order, or the first failure.
    pub open spec fn fields_spec(&self, m: Entries, n: int) -> Result<
        Seq<TermView>,
        DecodeErrorView,
    >
        decreases n,
    {
        if n <= 0 {
            Ok(Seq::empty())
        } else {
            match self.fields_spec(m, n - 1) {
                Err(e) => Err(e),
                Ok(s) => match self.field_spec(m, n - 1) {
                    Err(e) => Err(e),
                    Ok(v) => Ok(s.push(v)),
                },
            }
        }
    }

    /// What decoding `m` yields: the tag is checked, then each field in order.
    pub open spec fn decode_spec(&self, m: Entries) -> Result<Seq<TermView>, DecodeErrorView> {
        match lookup(m, struct_key()) {
            Some(TermView::Atom(a)) => if a == self.tag() {
                self.fields_spec(m, self.len())
            } else {
                Err(DecodeErrorView::TagMismatch)
            },
            _ => Err(DecodeErrorView::NotARecord),
        }
    }

    /// The entries of the first `n` fields of `r`, each under its key.
    pub open spec fn field_entries(&self, r: Seq<TermView>, n: int) -> Entries {
        Seq::new(n as nat, |i: int| (self.key(i), r[i]))
    }

    /// What encoding `r` yields: the reserved key with the tag, then each
    /// field under its key.
    pub open spec fn encode_spec(&self, r: Seq<TermView>) -> Entries {
        seq![(struct_key(), TermView::Atom(self.tag()))] + self.field_entries(r, self.len())
    }

    /// Reads a record back from a map term, as the generated decoder does:
    /// the tag first, then each field in declaration order; a failure
    /// yields no record at all.
    pub fn decode(&self, input: &MapTerm) -> (r: Result<Vec<Term>, DecodeError>)
        requires
            self.wf(),
        ensures
            result_view(r) == self.decode_spec(input@),
    {
        match input.map_get(&self.symbols.struct_key) {
            Some(Term::Atom(a)) => {
                if *a != self.symbols.module {
                    return Err(DecodeError::TagMismatch);
                }
            },
            _ => {
                return Err(DecodeError::NotARecord);
            },
        }
        let mut out: Vec<Term> = Vec::new();
        assert(record_view(out@) =~= Seq::<TermView>::empty());
        let mut i: usize = 0;
        while i < self.symbols.field_keys.len()
            invariant
                self.wf(),
                0 <= i <= self.len(),
                self.decode_spec(input@) == self.fields_spec(input@, self.len()),
                self.fields_spec(input@, i as int) == Ok::<Seq<TermView>, DecodeErrorView>(
                    record_view(out@),
                ),
            decreases self.len() - i,
        {
            let key = &self.symbols.field_keys[i];
            let expected = self.schema.fields[i].value_type;
            match input.map_get(key) {
                None => {
                    proof {
                        self.lemma_fields_fail_stays(input@, i as int + 1, self.len());
                    }
                    return Err(DecodeError::MissingField(key.clone()));
                },
                Some(t) => {
                    let v = match decode_value(expected, t) {
                        Ok(v) => v,
                        Err(cause) => {
                            proof {
                                self.lemma_fields_fail_stays(input@, i as int + 1, self.len());
                            }
                            return Err(
                                DecodeError::FieldDecodeError {
                                    key: key.clone(),
                                    tag: self.symbols.module.clone(),
                                    cause,
                                },
                            );
                        },
                    };
                    let ghost before = out@;
                    out.push(v);
                    assert(record_view(out@) =~= record_view(before).push(t@));
                },
            }
            i = i + 1;
        }
        Ok(out)
    }

    /// Once a field fails, reading more fields gives the same failure.
    pub proof fn lemma_fields_fail_stays(&self, m: Entries, k: int, n: int)
        requires
            0 <= k <= n,
            self.fields_spec(m, k) is Err,
        ensures
            self.fields_spec(m, n) == self.fields_spec(m, k),
        decreases n - k,
    {
        if k < n {
            self.lemma_fields_fail_stays(m, k, n - 1);
        }
    }

    /// Writes a record as a map term tagged with the module, as the
    /// generated encoder does.
    pub fn encode(&self, record: &Vec<Term>) -> (r: MapTerm)
        requires
            self.wf(),
            record@.len() == self.len(),
        ensures
            r@ == self.encode_spec(record_view(record@)),
    {
        let ghost rv = record_view(record@);
        let ghost head = seq![(struct_key(), TermView::Atom(self.tag()))];
        let mut map = MapTerm::map_new();
        map.map_put(self.symbols.struct_key.clone(), Term::Atom(self.symbols.module.clone()));
        assert(map@ =~= head + self.field_entries(rv, 0));
        let mut i: usize = 0;
        while i < self.symbols.field_keys.len()
            invariant
                self.wf(),
                record@.len() == self.len(),
                rv == record_view(record@),
                head == seq![(struct_key(), TermView::Atom(self.tag()))],
                0 <= i <= self.len(),
                map@ == head + self.field_entries(rv, i as int),
            decreases self.len() - i,
        {
            let key = self.symbols.field_keys[i].clone();
            let value = record[i].duplicate();
            assert forall|t: int| 0 <= t < map@.len() implies map@[t].0 != key@ by {
                if t > 0 {
                    assert(self.key(t - 1) != self.key(i as int));
                } else {
                    assert(schema_key(self.schema, i as int) != struct_key());
                }
            }
            map.map_put(key, value);
            assert(map@ =~= head + self.field_entries(rv, i as int + 1));
            i = i + 1;
        }
        map
    }
}

/// Field `i`'s key collides with the reserved key or with an earlier field's.
pub open spec fn decl_key_clashes(fs: Seq<FieldDecl>, i: int) -> bool {
    key_of(fs[i]) == struct_key() || exists|j: int|
        0 <= j < i && #[trigger] key_of(fs[j]) == key_of(fs[i])
}

/// No declared field key is the reserved key or another field's key.
pub open spec fn decl_keys_distinct(fs: Seq<FieldDecl>) -> bool {
    &&& forall|i: int| 0 <= i < fs.len() ==> #[trigger] key_of(fs[i]) != struct_key()
    &&& forall|i: int, j: int|
        0 <= i < fs.len() && 0 <= j < fs.len() && i != j ==> key_of(fs[i]) != key_of(fs[j])
}

/// Derives the codec of a record declaration: the schema, then the symbol
/// table; it fails when the tag is missing, the declaration is no record
/// with named fields, or two keys coincide.
pub fn transcoder_decorator(decl: &TypeDecl) -> (r: Result<Codec, GenError>)
    ensures
        module_of(decl.attrs@) is None ==> r == Err::<Codec, GenError>(
            GenError::MissingTagAttribute,
        ),
        module_of(decl.attrs@) is Some && !(decl.shape is Record) ==> r == Err::<Codec, GenError>(
            GenError::UnsupportedShape,
        ),
        module_of(decl.attrs@) is Some ==> (decl.shape matches Shape::Record(fs) ==> {
            &&& r is Ok <==> decl_keys_distinct(fs@)
            &&& r matches Err(e) ==> exists|i: int|
                0 <= i < fs@.len() && #[trigger] decl_key_clashes(fs@, i) && (forall|j: int|
                    0 <= j < i ==> !decl_key_clashes(fs@, j)) && (e matches GenError::DuplicateKey(k)
                    && k@ == key_of(fs@[i]))
        }),
        r matches Ok(c) ==> {
            &&& c.wf()
            &&& module_of(decl.attrs@) == Some(c.tag())
            &&& c.schema.name@ == decl.name@
            &&& c.schema.has_lifetime == decl.has_lifetime
            &&& decl.shape matches Shape::Record(fs) && c.len() == fs@.len() && forall|i: int|
                0 <= i < fs@.len() ==> spec_matches_decl(#[trigger] c.schema.fields@[i], fs@[i])
            &&& c.schema.decode_enabled == decode_wanted(decl.attrs@)
            &&& c.schema.encode_enabled == encode_wanted(decl.attrs@)
        },
{
    let schema = match extract_schema(decl) {
        Ok(s) => s,
        Err(e) => {
            return Err(e);
        },
    };
    let ghost fs = decl_fields(*decl);
    assert forall|i: int| 0 <= i < fs.len() implies schema_key(schema, i) == key_of(fs[i]) by {
        assert(spec_matches_decl(schema.fields@[i], fs[i]));
    }
    assert forall|i: int| 0 <= i < fs.len() implies key_clashes(schema, i) == decl_key_clashes(
        fs,
        i,
    ) by {
        if decl_key_clashes(fs, i) && key_of(fs[i]) != struct_key() {
            let j = choose|j: int| 0 <= j < i && #[trigger] key_of(fs[j]) == key_of(fs[i]);
            assert(schema_key(schema, j) == schema_key(schema, i));
        }
        if key_clashes(schema, i) && schema_key(schema, i) != struct_key() {
            let j = choose|j: int| 0 <= j < i && #[trigger] schema_key(schema, j) == schema_key(schema, i);
            assert(key_of(fs[j]) == key_of(fs[i]));
        }
    }
    assert(schema.fields@.len() == fs.len());
    proof {
        if keys_distinct(schema) {
            assert forall|i: int| 0 <= i < fs.len() implies #[trigger] key_of(fs[i]) != struct_key() by {
                assert(schema_key(schema, i) != struct_key());
            }
            assert forall|i: int, j: int|
                0 <= i < fs.len() && 0 <= j < fs.len() && i != j implies key_of(fs[i]) != key_of(
                    fs[j],
                ) by {
                assert(schema_key(schema, i) != schema_key(schema, j));
            }
        }
        if decl_keys_distinct(fs) {
            assert forall|i: int| 0 <= i < fs.len() implies #[trigger] schema_key(schema, i)
                != struct_key() by {
                assert(key_of(fs[i]) != struct_key());
            }
            assert forall|i: int, j: int|
                0 <= i < fs.len() && 0 <= j < fs.len() && i != j implies schema_key(schema, i)
                    != schema_key(schema, j) by {
                assert(key_of(fs[i]) != key_of(fs[j]));
            }
        }
    }
    match SymbolTable::build(&schema) {
        Ok(symbols) => Ok(Codec { schema, symbols }),
        Err(e) => Err(e),
    }
}

} // verus!
