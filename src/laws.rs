use vstd::prelude::*;

use crate::codec::{Codec, DecodeErrorView};
use crate::schema::{decl_fields, fits, spec_matches_decl, symbol_of, TypeDecl};
use crate::symbols::{schema_key, struct_key};
use crate::term::{
    has_key, keys_unique, lemma_lookup_absent, lemma_lookup_unique, lookup, Entries, TermView,
};

verus! {

/// The keys of an encoded record are unique.
proof fn lemma_encoded_keys_unique(c: Codec, r: Seq<TermView>)
    requires
        c.wf(),
        r.len() == c.len(),
    ensures
        keys_unique(c.encode_spec(r)),
        c.encode_spec(r).len() == c.len() + 1,
        c.encode_spec(r)[0] == (struct_key(), TermView::Atom(c.tag())),
        forall|i: int| 0 <= i < c.len() ==> #[trigger] c.encode_spec(r)[i + 1] == (c.key(i), r[i]),
{
    let m = c.encode_spec(r);
    assert forall|i: int| 0 <= i < c.len() implies #[trigger] m[i + 1] == (c.key(i), r[i]) by {}
    assert forall|a: int, b: int| 0 <= a < m.len() && 0 <= b < m.len() && a != b implies m[a].0
        != m[b].0 by {
        if a == 0 {
            assert(m[b] == (c.key(b - 1), r[b - 1]));
            assert(schema_key(c.schema, b - 1) != struct_key());
        } else if b == 0 {
            assert(m[a] == (c.key(a - 1), r[a - 1]));
            assert(schema_key(c.schema, a - 1) != struct_key());
        } else {
            assert(m[a] == (c.key(a - 1), r[a - 1]));
            assert(m[b] == (c.key(b - 1), r[b - 1]));
            assert(schema_key(c.schema, a - 1) != schema_key(c.schema, b - 1));
        }
    }
}

/// Where every one of the first `n` keys finds a value of its field's type,
/// the first `n` fields decode to those values.
proof fn lemma_fields_found(c: Codec, m: Entries, r: Seq<TermView>, n: int)
    requires
        0 <= n <= r.len(),
        r.len() == c.len(),
        forall|i: int| 0 <= i < n ==> lookup(m, c.key(i)) == Some(#[trigger] r[i]),
        forall|i: int| 0 <= i < n ==> fits(c.ty(i), #[trigger] r[i]),
    ensures
        c.fields_spec(m, n) == Ok::<Seq<TermView>, DecodeErrorView>(r.take(n)),
    decreases n,
{
    if n > 0 {
        lemma_fields_found(c, m, r, n - 1);
        assert(r.take(n) =~= r.take(n - 1).push(r[n - 1]));
    } else {
        assert(r.take(0) =~= Seq::<TermView>::empty());
    }
}

/// Decoding what was encoded gives back the record.
pub proof fn lemma_round_trip(c: Codec, r: Seq<TermView>)
    requires
        c.wf(),
        c.valid_record(r),
    ensures
        c.decode_spec(c.encode_spec(r)) == Ok::<Seq<TermView>, DecodeErrorView>(r),
{
    let m = c.encode_spec(r);
    lemma_encoded_keys_unique(c, r);
    lemma_lookup_unique(m, 0);
    assert forall|i: int| 0 <= i < c.len() implies lookup(m, c.key(i)) == Some(#[trigger] r[i]) by {
        assert(m[i + 1] == (c.key(i), r[i]));
        lemma_lookup_unique(m, i + 1);
    }
    lemma_fields_found(c, m, r, c.len());
    assert(r.take(c.len()) =~= r);
}

/// A map tagged with another module is refused as a tag mismatch, and no
/// record comes out.
pub proof fn lemma_tag_rejection(c: Codec, m: Entries, other: Seq<char>)
    requires
        lookup(m, struct_key()) == Some(TermView::Atom(other)),
        other != c.tag(),
    ensures
        c.decode_spec(m) == Err::<Seq<TermView>, DecodeErrorView>(DecodeErrorView::TagMismatch),
{
}

/// Removing the entry of one field from an encoded record makes decoding
/// fail on exactly that field's key.
pub proof fn lemma_missing_field(c: Codec, r: Seq<TermView>, j: int)
    requires
        c.wf(),
        c.valid_record(r),
        0 <= j < c.len(),
    ensures
        c.decode_spec(c.encode_spec(r).remove(j + 1)) == Err::<Seq<TermView>, DecodeErrorView>(
            DecodeErrorView::MissingField(c.key(j)),
        ),
{
    let m = c.encode_spec(r);
    let d = m.remove(j + 1);
    lemma_encoded_keys_unique(c, r);
    assert forall|a: int| 0 <= a < d.len() implies #[trigger] d[a] == if a <= j {
        m[a]
    } else {
        m[a + 1]
    } by {}
    assert(keys_unique(d)) by {
        assert forall|a: int, b: int| 0 <= a < d.len() && 0 <= b < d.len() && a != b implies d[a].0
            != d[b].0 by {
            let a2 = if a <= j { a } else { a + 1 };
            let b2 = if b <= j { b } else { b + 1 };
            assert(d[a] == m[a2]);
            assert(d[b] == m[b2]);
        }
    }
    assert(d[0] == m[0]);
    lemma_lookup_unique(d, 0);
    assert forall|i: int| 0 <= i < j implies lookup(d, c.key(i)) == Some(#[trigger] r[i]) by {
        assert(d[i + 1] == m[i + 1]);
        assert(m[i + 1] == (c.key(i), r[i]));
        lemma_lookup_unique(d, i + 1);
    }
    assert(!has_key(d, c.key(j))) by {
        assert forall|a: int| 0 <= a < d.len() implies #[trigger] d[a].0 != c.key(j) by {
            let a2 = if a <= j { a } else { a + 1 };
            assert(d[a] == m[a2]);
            assert(m[j + 1].0 == c.key(j));
        }
    }
    lemma_lookup_absent(d, c.key(j));
    lemma_fields_found(c, d, r, j);
    c.lemma_fields_fail_stays(d, j + 1, c.len());
}

/// Encoding stores each field under its key, and a name that is no key of
/// the codec (such as the identifier of a renamed field) is never a key of
/// an encoded map.
pub proof fn lemma_encode_uses_keys(c: Codec, r: Seq<TermView>, j: int, name: Seq<char>)
    requires
        c.wf(),
        r.len() == c.len(),
        0 <= j < c.len(),
    ensures
        lookup(c.encode_spec(r), c.key(j)) == Some(r[j]),
        name != struct_key() && (forall|i: int| 0 <= i < c.len() ==> c.key(i) != name) ==> !has_key(
            c.encode_spec(r),
            name,
        ),
{
    let m = c.encode_spec(r);
    lemma_encoded_keys_unique(c, r);
    assert(m[j + 1] == (c.key(j), r[j]));
    lemma_lookup_unique(m, j + 1);
    if name != struct_key() && (forall|i: int| 0 <= i < c.len() ==> c.key(i) != name) {
        assert forall|a: int| 0 <= a < m.len() implies #[trigger] m[a].0 != name by {
            if a > 0 {
                assert(m[a] == (c.key(a - 1), r[a - 1]));
            }
        }
    }
}

/// A renamed field is encoded under its rename and decoded from it: the
/// field's key is the rename, the encoded map holds the field's value under
/// it, and no entry is keyed by the field's identifier where that is no key
/// of the codec.
pub proof fn lemma_rename_stable(decl: TypeDecl, c: Codec, r: Seq<TermView>, j: int)
    requires
        c.wf(),
        r.len() == c.len(),
        0 <= j < c.len(),
        decl_fields(decl).len() == c.len(),
        forall|i: int|
            0 <= i < c.len() ==> spec_matches_decl(#[trigger] c.schema.fields@[i], decl_fields(decl)[i]),
        decl_fields(decl)[j].rename is Some,
    ensures
        c.key(j) == decl_fields(decl)[j].rename->Some_0@,
        lookup(c.encode_spec(r), decl_fields(decl)[j].rename->Some_0@) == Some(r[j]),
        symbol_of(decl_fields(decl)[j].ident@) != struct_key() && (forall|i: int|
            0 <= i < c.len() ==> c.key(i) != symbol_of(decl_fields(decl)[j].ident@)) ==> !has_key(
            c.encode_spec(r),
            symbol_of(decl_fields(decl)[j].ident@),
        ),
{
    assert(spec_matches_decl(c.schema.fields@[j], decl_fields(decl)[j]));
    lemma_encode_uses_keys(c, r, j, symbol_of(decl_fields(decl)[j].ident@));
}

/// Decoding reads a map only through the reserved key and the codec's field
/// keys: two maps that agree there decode alike.
pub proof fn lemma_decode_reads_only_keys(c: Codec, m1: Entries, m2: Entries)
    requires
        lookup(m1, struct_key()) == lookup(m2, struct_key()),
        forall|i: int| 0 <= i < c.len() ==> lookup(m1, #[trigger] c.key(i)) == lookup(m2, c.key(i)),
    ensures
        c.decode_spec(m1) == c.decode_spec(m2),
{
    lemma_fields_agree(c, m1, m2, c.len());
}

proof fn lemma_fields_agree(c: Codec, m1: Entries, m2: Entries, n: int)
    requires
        n <= c.len(),
        forall|i: int| 0 <= i < c.len() ==> lookup(m1, #[trigger] c.key(i)) == lookup(m2, c.key(i)),
    ensures
        c.fields_spec(m1, n) == c.fields_spec(m2, n),
    decreases n,
{
    if n > 0 {
        lemma_fields_agree(c, m1, m2, n - 1);
        assert(lookup(m1, c.key(n - 1)) == lookup(m2, c.key(n - 1)));
    }
}

} // verus!
