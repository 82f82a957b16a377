use vstd::prelude::*;
use vstd::string::*;

use crate::codec::Codec;
use crate::schema::{symbol_name, symbol_of};

verus! {

/// The character of a decimal digit.
pub open spec fn digit_char(d: nat) -> char {
    if d == 0 { '0' }
    else if d == 1 { '1' }
    else if d == 2 { '2' }
    else if d == 3 { '3' }
    else if d == 4 { '4' }
    else if d == 5 { '5' }
    else if d == 6 { '6' }
    else if d == 7 { '7' }
    else if d == 8 { '8' }
    else { '9' }
}

/// The decimal digits of a number, without leading zeros.
pub open spec fn decimal_of(n: nat) -> Seq<char>
    decreases n,
{
    if n < 10 {
        seq![digit_char(n)]
    } else {
        decimal_of(n / 10).push(digit_char(n % 10))
    }
}

/// A string as a Rust string literal, quoted and escaped.
pub uninterp spec fn quoted_of(s: Seq<char>) -> Seq<char>;

/// The one-character string of a decimal digit.
fn digit_text(d: usize) -> (r: &'static str)
    requires
        d < 10,
    ensures
        r@ == seq![digit_char(d as nat)],
{
    proof {
        reveal_strlit("0");
        reveal_strlit("1");
        reveal_strlit("2");
        reveal_strlit("3");
        reveal_strlit("4");
        reveal_strlit("5");
        reveal_strlit("6");
        reveal_strlit("7");
        reveal_strlit("8");
        reveal_strlit("9");
    }
    if d == 0 { "0" }
    else if d == 1 { "1" }
    else if d == 2 { "2" }
    else if d == 3 { "3" }
    else if d == 4 { "4" }
    else if d == 5 { "5" }
    else if d == 6 { "6" }
    else if d == 7 { "7" }
    else if d == 8 { "8" }
    else { "9" }
}

/// The decimal digits of a number.
pub fn decimal(n: usize) -> (r: String)
    ensures
        r@ == decimal_of(n as nat),
    decreases n,
{
    if n < 10 {
        let r = String::from_str(digit_text(n));
        proof {
            assert(r@ =~= decimal_of(n as nat));
        }
        r
    } else {
        let mut r = decimal(n / 10);
        r.append(digit_text(n % 10));
        proof {
            assert(r@ =~= decimal_of(n as nat));
        }
        r
    }
}

/// Relies on `Debug` for `str`: the string as a quoted, escaped literal.
#[verifier::external_body]
fn quoted(s: &str) -> (r: String)
    ensures
        r@ == quoted_of(s@),
{
    format!("{:?}", s)
}

/// The concatenation of `line(0)`, ..., `line(n - 1)`.
pub open spec fn joined(n: int, line: spec_fn(int) -> Seq<char>) -> Seq<char>
    decreases n,
{
    if n <= 0 {
        Seq::empty()
    } else {
        joined(n - 1, line) + line(n - 1)
    }
}

/// The lifetime argument `l` of a type that has one; nothing otherwise.
pub open spec fn lifetime_text(has_lifetime: bool, l: Seq<char>) -> Seq<char> {
    if has_lifetime {
        l
    } else {
        Seq::empty()
    }
}

fn lifetime<'a>(has_lifetime: bool, l: &'a str) -> (r: &'a str)
    ensures
        r@ == lifetime_text(has_lifetime, l@),
{
    if has_lifetime {
        l
    } else {
        proof {
            reveal_strlit("");
        }
        ""
    }
}

/// The name of the module that holds a record type's atoms.
pub open spec fn atoms_module_of(name: Seq<char>) -> Seq<char> {
    "rustler_atoms_"@ + name
}

/// The accessor of field `i`'s atom.
pub open spec fn field_atom_of(i: int) -> Seq<char> {
    "atom_field_"@ + decimal_of(i as nat)
}

/// The local binding that holds field `i` while decoding: a fixed prefix,
/// the position, then the field's symbol.
pub open spec fn binding_of(i: int, ident: Seq<char>) -> Seq<char> {
    "__struct_"@ + decimal_of(i as nat) + "_"@ + symbol_of(ident)
}

impl Codec {
    pub open spec fn atom_line(&self, i: int) -> Seq<char> {
        "        "@ + field_atom_of(i) + " = "@ + quoted_of(self.key(i)) + ",\n"@
    }

    pub open spec fn atom_lines(&self, n: int) -> Seq<char> {
        joined(n, |i: int| self.atom_line(i))
    }

    /// The module of atoms: the reserved key, the module tag, and one atom
    /// per field key.
    pub open spec fn atoms_text(&self) -> Seq<char> {
        "mod "@ + atoms_module_of(self.schema.name@) + " {\n    ::rustler::atoms! {\n        atom_struct = \"__struct__\",\n        atom_module = "@
            + quoted_of(self.tag()) + ",\n"@ + self.atom_lines(self.len())
            + "    }\n}\n"@
    }

    pub fn emit_atoms(&self) -> (r: String)
        requires
            self.wf(),
        ensures
            r@ == self.atoms_text(),
    {
        let mut out = String::from_str("mod ");
        out.append(&atoms_module_name(&self.schema.name));
        out.append(" {\n    ::rustler::atoms! {\n        atom_struct = \"__struct__\",\n        atom_module = ");
        out.append(&quoted(&self.schema.tag));
        out.append(",\n");
        let ghost head = out@;
        let mut i: usize = 0;
        while i < self.schema.fields.len()
            invariant
                self.wf(),
                0 <= i <= self.len(),
                out@ == head + self.atom_lines(i as int),
            decreases self.len() - i,
        {
            let ghost before = out@;
            out.append("        ");
            out.append("atom_field_");
            out.append(&decimal(i));
            out.append(" = ");
            out.append(&quoted(&self.schema.fields[i].key_name));
            out.append(",\n");
            assert(out@ =~= before + self.atom_line(i as int));
            i = i + 1;
        }
        out.append("    }\n}\n");
        out
    }

    pub open spec fn decode_line(&self, i: int) -> Seq<char> {
        "        let "@ + binding_of(i, self.schema.fields@[i].ident@) + " = try_decode_field(env, term, "@
            + field_atom_of(i) + "())?;\n"@
    }

    pub open spec fn decode_lines(&self, n: int) -> Seq<char> {
        joined(n, |i: int| self.decode_line(i))
    }

    pub open spec fn init_line(&self, i: int) -> Seq<char> {
        "            "@ + self.schema.fields@[i].ident@ + ": "@ + binding_of(i, self.schema.fields@[i].ident@)
            + ",\n"@
    }

    pub open spec fn init_lines(&self, n: int) -> Seq<char> {
        joined(n, |i: int| self.init_line(i))
    }

    /// The `Decoder` impl: it checks the tag, reads each field under its
    /// atom into its own binding, then builds the record.
    pub open spec fn decoder_text(&self) -> Seq<char> {
        "impl<'a> ::rustler::Decoder<'a> for "@
            + self.schema.name@
            + lifetime_text(self.schema.has_lifetime, "<'a>"@)
            + " {\n    fn decode(term: ::rustler::Term<'a>) -> ::rustler::NifResult<Self> {\n        use "@
            + atoms_module_of(self.schema.name@)
            + "::*;\n        use ::rustler::Encoder;\n        let env = term.get_env();\n\n        struct FieldError {\n            message: String,\n            cause: Box<dyn ::rustler::Encoder>,\n        }\n\n        impl ::rustler::Encoder for FieldError {\n            fn encode<'b>(&self, env: ::rustler::Env<'b>) -> ::rustler::Term<'b> {\n                (self.message.encode(env), self.cause.encode(env)).encode(env)\n            }\n        }\n\n        fn try_decode_field<'a, T>(\n            env: ::rustler::Env<'a>,\n            term: ::rustler::Term<'a>,\n            field: ::rustler::Atom,\n        ) -> ::rustler::NifResult<T>\n        where\n            T: ::rustler::Decoder<'a>,\n        {\n            use ::rustler::Encoder;\n            let value = term.map_get(field.encode(env)).map_err(|_| {\n                ::rustler::Error::RaiseTerm(Box::new(format!(\n                    \"Missing field :{:?} on %{}{{}}\",\n                    field, "@
            + quoted_of(self.tag())
            + "\n                )))\n            })?;\n            match ::rustler::Decoder::decode(value) {\n                Ok(value) => Ok(value),\n                Err(err) => {\n                    let cause: Box<dyn ::rustler::Encoder> = match err {\n                        ::rustler::Error::RaiseTerm(inner) | ::rustler::Error::Term(inner) => inner,\n                        ::rustler::Error::Atom(name) | ::rustler::Error::RaiseAtom(name) => Box::new(name),\n                        _ => Box::new(\"badarg\"),\n                    };\n                    Err(::rustler::Error::RaiseTerm(Box::new(FieldError {\n                        message: format!(\n                            \"Could not decode field :{:?} on %{}{{}}\",\n                            field, "@
            + quoted_of(self.tag())
            + "\n                        ),\n                        cause,\n                    })))\n                }\n            }\n        }\n\n        let module: ::rustler::Atom = match term\n            .map_get(atom_struct().to_term(env))\n            .and_then(|value| value.decode::<::rustler::Atom>())\n        {\n            Ok(module) => module,\n            Err(_) => {\n                return Err(::rustler::Error::RaiseTerm(Box::new(format!(\n                    \"Not a struct: expected %{}{{}}\",\n                    "@
            + quoted_of(self.tag())
            + "\n                ))));\n            }\n        };\n        if module != atom_module() {\n            return Err(::rustler::Error::Atom(\"invalid_struct\"));\n        }\n\n"@
            + self.decode_lines(self.len()) + "\n        Ok("@ + self.schema.name@ + " {\n"@
            + self.init_lines(self.len()) + "        })\n    }\n}\n"@
    }

    pub open spec fn encode_line(&self, i: int) -> Seq<char> {
        "        map = map.map_put("@ + field_atom_of(i) + "().encode(env), self."@
            + self.schema.fields@[i].ident@ + ".encode(env)).unwrap();\n"@
    }

    pub open spec fn encode_lines(&self, n: int) -> Seq<char> {
        joined(n, |i: int| self.encode_line(i))
    }

    /// The `Encoder` impl: a new map, the reserved key with the module tag,
    /// then each field under its atom.
    pub open spec fn encoder_text(&self) -> Seq<char> {
        "impl<'b> ::rustler::Encoder for "@
            + self.schema.name@
            + lifetime_text(self.schema.has_lifetime, "<'b>"@)
            + " {\n    fn encode<'a>(&self, env: ::rustler::Env<'a>) -> ::rustler::Term<'a> {\n        use "@
            + atoms_module_of(self.schema.name@)
            + "::*;\n        use ::rustler::Encoder;\n        let mut map = ::rustler::types::map::map_new(env);\n        map = map\n            .map_put(atom_struct().encode(env), atom_module().encode(env))\n            .unwrap();\n"@
            + self.encode_lines(self.len())
            + "        map\n    }\n}\n"@
    }

    /// All generated source: the atoms module, then the decoder and the
    /// encoder where the schema asks for them.
    pub open spec fn source_text(&self) -> Seq<char> {
        self.atoms_text() + (if self.schema.decode_enabled {
            self.decoder_text()
        } else {
            Seq::empty()
        }) + (if self.schema.encode_enabled {
            self.encoder_text()
        } else {
            Seq::empty()
        })
    }

    pub fn emit_decoder(&self) -> (r: String)
        requires
            self.wf(),
        ensures
            r@ == self.decoder_text(),
    {
        let module = atoms_module_name(&self.schema.name);
        let tag = quoted(&self.schema.tag);
        let mut out = String::new();
        out.append("impl<'a> ::rustler::Decoder<'a> for ");
        out.append(self.schema.name.as_str());
        out.append(lifetime(self.schema.has_lifetime, "<'a>"));
        out.append(" {\n    fn decode(term: ::rustler::Term<'a>) -> ::rustler::NifResult<Self> {\n        use ");
        out.append(module.as_str());
        out.append("::*;\n        use ::rustler::Encoder;\n        let env = term.get_env();\n\n        struct FieldError {\n            message: String,\n            cause: Box<dyn ::rustler::Encoder>,\n        }\n\n        impl ::rustler::Encoder for FieldError {\n            fn encode<'b>(&self, env: ::rustler::Env<'b>) -> ::rustler::Term<'b> {\n                (self.message.encode(env), self.cause.encode(env)).encode(env)\n            }\n        }\n\n        fn try_decode_field<'a, T>(\n            env: ::rustler::Env<'a>,\n            term: ::rustler::Term<'a>,\n            field: ::rustler::Atom,\n        ) -> ::rustler::NifResult<T>\n        where\n            T: ::rustler::Decoder<'a>,\n        {\n            use ::rustler::Encoder;\n            let value = term.map_get(field.encode(env)).map_err(|_| {\n                ::rustler::Error::RaiseTerm(Box::new(format!(\n                    \"Missing field :{:?} on %{}{{}}\",\n                    field, ");
        out.append(tag.as_str());
        out.append("\n                )))\n            })?;\n            match ::rustler::Decoder::decode(value) {\n                Ok(value) => Ok(value),\n                Err(err) => {\n                    let cause: Box<dyn ::rustler::Encoder> = match err {\n                        ::rustler::Error::RaiseTerm(inner) | ::rustler::Error::Term(inner) => inner,\n                        ::rustler::Error::Atom(name) | ::rustler::Error::RaiseAtom(name) => Box::new(name),\n                        _ => Box::new(\"badarg\"),\n                    };\n                    Err(::rustler::Error::RaiseTerm(Box::new(FieldError {\n                        message: format!(\n                            \"Could not decode field :{:?} on %{}{{}}\",\n                            field, ");
        out.append(tag.as_str());
        out.append("\n                        ),\n                        cause,\n                    })))\n                }\n            }\n        }\n\n        let module: ::rustler::Atom = match term\n            .map_get(atom_struct().to_term(env))\n            .and_then(|value| value.decode::<::rustler::Atom>())\n        {\n            Ok(module) => module,\n            Err(_) => {\n                return Err(::rustler::Error::RaiseTerm(Box::new(format!(\n                    \"Not a struct: expected %{}{{}}\",\n                    ");
        out.append(tag.as_str());
        out.append("\n                ))));\n            }\n        };\n        if module != atom_module() {\n            return Err(::rustler::Error::Atom(\"invalid_struct\"));\n        }\n\n");
        let ghost head = out@;
        let mut i: usize = 0;
        while i < self.schema.fields.len()
            invariant
                self.wf(),
                0 <= i <= self.len(),
                out@ == head + self.decode_lines(i as int),
            decreases self.len() - i,
        {
            let ghost before = out@;
            out.append("        let ");
            out.append(&binding_name(i, &self.schema.fields[i].ident));
            out.append(" = try_decode_field(env, term, ");
            out.append("atom_field_");
            out.append(&decimal(i));
            out.append("())?;\n");
            assert(out@ =~= before + self.decode_line(i as int));
            i = i + 1;
        }
        out.append("\n        Ok(");
        out.append(self.schema.name.as_str());
        out.append(" {\n");
        let ghost mid = out@;
        let mut i: usize = 0;
        while i < self.schema.fields.len()
            invariant
                self.wf(),
                0 <= i <= self.len(),
                out@ == mid + self.init_lines(i as int),
            decreases self.len() - i,
        {
            let ghost before = out@;
            out.append("            ");
            out.append(self.schema.fields[i].ident.as_str());
            out.append(": ");
            out.append(&binding_name(i, &self.schema.fields[i].ident));
            out.append(",\n");
            assert(out@ =~= before + self.init_line(i as int));
            i = i + 1;
        }
        out.append("        })\n    }\n}\n");
        out
    }

    pub fn emit_encoder(&self) -> (r: String)
        requires
            self.wf(),
        ensures
            r@ == self.encoder_text(),
    {
        let module = atoms_module_name(&self.schema.name);
        let mut out = String::new();
        out.append("impl<'b> ::rustler::Encoder for ");
        out.append(self.schema.name.as_str());
        out.append(lifetime(self.schema.has_lifetime, "<'b>"));
        out.append(" {\n    fn encode<'a>(&self, env: ::rustler::Env<'a>) -> ::rustler::Term<'a> {\n        use ");
        out.append(module.as_str());
        out.append("::*;\n        use ::rustler::Encoder;\n        let mut map = ::rustler::types::map::map_new(env);\n        map = map\n            .map_put(atom_struct().encode(env), atom_module().encode(env))\n            .unwrap();\n");
        let ghost head = out@;
        let mut i: usize = 0;
        while i < self.schema.fields.len()
            invariant
                self.wf(),
                0 <= i <= self.len(),
                out@ == head + self.encode_lines(i as int),
            decreases self.len() - i,
        {
            let ghost before = out@;
            out.append("        map = map.map_put(");
            out.append("atom_field_");
            out.append(&decimal(i));
            out.append("().encode(env), self.");
            out.append(self.schema.fields[i].ident.as_str());
            out.append(".encode(env)).unwrap();\n");
            assert(out@ =~= before + self.encode_line(i as int));
            i = i + 1;
        }
        out.append("        map\n    }\n}\n");
        out
    }

    /// The source of the atoms module, decoder and encoder of this codec.
    pub fn emit_source(&self) -> (r: String)
        requires
            self.wf(),
        ensures
            r@ == self.source_text(),
    {
        let mut out = self.emit_atoms();
        if self.schema.decode_enabled {
            out.append(self.emit_decoder().as_str());
        }
        if self.schema.encode_enabled {
            out.append(self.emit_encoder().as_str());
        }
        assert(out@ =~= self.source_text());
        out
    }
}

/// A decimal numeral has at least one digit and no underscore.
proof fn lemma_decimal_shape(n: nat)
    ensures
        decimal_of(n).len() >= 1,
        forall|k: int| 0 <= k < decimal_of(n).len() ==> #[trigger] decimal_of(n)[k] != '_',
    decreases n,
{
    if n >= 10 {
        lemma_decimal_shape(n / 10);
    }
}

proof fn lemma_digit_injective(a: nat, b: nat)
    requires
        a < 10,
        b < 10,
        digit_char(a) == digit_char(b),
    ensures
        a == b,
{
}

/// Distinct numbers have distinct numerals.
proof fn lemma_decimal_injective(a: nat, b: nat)
    requires
        decimal_of(a) == decimal_of(b),
    ensures
        a == b,
    decreases a,
{
    lemma_decimal_shape(a);
    lemma_decimal_shape(b);
    if a >= 10 && b >= 10 {
        let da = decimal_of(a);
        assert(decimal_of(a / 10) =~= da.drop_last());
        assert(decimal_of(b / 10) =~= decimal_of(b).drop_last());
        lemma_decimal_injective(a / 10, b / 10);
        assert(da.last() == digit_char(a % 10));
        assert(decimal_of(b).last() == digit_char(b % 10));
        lemma_digit_injective(a % 10, b % 10);
    } else if a >= 10 {
        lemma_decimal_shape(a / 10);
        assert(decimal_of(a).len() == decimal_of(a / 10).len() + 1);
    } else if b >= 10 {
        lemma_decimal_shape(b / 10);
        assert(decimal_of(b).len() == decimal_of(b / 10).len() + 1);
    } else {
        assert(decimal_of(a) == seq![digit_char(a)]);
        assert(decimal_of(b) == seq![digit_char(b)]);
        assert(seq![digit_char(a)][0] == digit_char(a));
        assert(seq![digit_char(b)][0] == digit_char(b));
        lemma_digit_injective(a, b);
    }
}

/// The bindings that the decoder makes for fields at different positions
/// never coincide, whatever the fields are called.
pub proof fn lemma_bindings_distinct(i: int, j: int, a: Seq<char>, b: Seq<char>)
    requires
        0 <= i,
        0 <= j,
        i != j,
    ensures
        binding_of(i, a) != binding_of(j, b),
{
    let p = "__struct_"@;
    let di = decimal_of(i as nat);
    let dj = decimal_of(j as nat);
    lemma_decimal_shape(i as nat);
    lemma_decimal_shape(j as nat);
    let x = binding_of(i, a);
    let y = binding_of(j, b);
    reveal_strlit("_");
    if x == y {
        let lp = p.len() as int;
        assert(x =~= p + di + "_"@ + symbol_of(a));
        assert(y =~= p + dj + "_"@ + symbol_of(b));
        if di.len() < dj.len() {
            assert(x[lp + di.len()] == '_');
            assert(y[lp + di.len()] == dj[di.len() as int]);
        } else if dj.len() < di.len() {
            assert(y[lp + dj.len()] == '_');
            assert(x[lp + dj.len()] == di[dj.len() as int]);
        } else {
            assert forall|k: int| 0 <= k < di.len() implies di[k] == dj[k] by {
                assert(x[lp + k] == di[k]);
                assert(y[lp + k] == dj[k]);
            }
            assert(di =~= dj);
            lemma_decimal_injective(i as nat, j as nat);
        }
    }
}

/// The local binding that holds field `index` while decoding.
pub fn binding_name(index: usize, ident: &String) -> (r: String)
    ensures
        r@ == binding_of(index as int, ident@),
{
    let mut out = String::from_str("__struct_");
    out.append(&decimal(index));
    out.append("_");
    out.append(symbol_name(ident).as_str());
    out
}

/// The name of the module that holds a record type's atoms.
pub fn atoms_module_name(name: &String) -> (r: String)
    ensures
        r@ == atoms_module_of(name@),
{
    let mut out = String::from_str("rustler_atoms_");
    out.append(name.as_str());
    out
}

} // verus!
