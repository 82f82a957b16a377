use vstd::prelude::*;
use vstd::string::*;

use crate::schema::{GenError, Schema};

verus! {

/// The reserved key that marks a map as a tagged record.
pub open spec fn struct_key() -> Seq<char> {
    seq!['_', '_', 's', 't', 'r', 'u', 'c', 't', '_', '_']
}

/// The key of field `i` of a schema.
pub open spec fn schema_key(s: Schema, i: int) -> Seq<char> {
    s.fields@[i].key_name@
}

/// Field `i`'s key collides with the reserved key or with an earlier field's.
pub open spec fn key_clashes(s: Schema, i: int) -> bool {
    schema_key(s, i) == struct_key() || exists|j: int|
        0 <= j < i && #[trigger] schema_key(s, j) == schema_key(s, i)
}

/// Every field key differs from the reserved key and from every other field key.
pub open spec fn keys_distinct(s: Schema) -> bool {
    &&& forall|i: int| 0 <= i < s.fields@.len() ==> #[trigger] schema_key(s, i) != struct_key()
    &&& forall|i: int, j: int|
        0 <= i < s.fields@.len() && 0 <= j < s.fields@.len() && i != j ==> schema_key(s, i)
            != schema_key(s, j)
}

/// The symbols that the generated code needs: the reserved key, the module
/// tag and one key per field, each held once.
#[derive(Clone, Debug, PartialEq, Eq)]
pub struct SymbolTable {
    pub struct_key: String,
    pub module: String,
    pub field_keys: Vec<String>,
}

impl SymbolTable {
    /// The table holds exactly the symbols of `s`, and they are distinct.
    pub open spec fn wf_for(&self, s: Schema) -> bool {
        &&& self.struct_key@ == struct_key()
        &&& self.module@ == s.tag@
        &&& self.field_keys@.len() == s.fields@.len()
        &&& forall|i: int|
            0 <= i < s.fields@.len() ==> (#[trigger] self.field_keys@[i])@ == schema_key(s, i)
        &&& keys_distinct(s)
    }

    /// Builds the table of a schema, or names the first field key that is
    /// already taken.
    pub fn build(s: &Schema) -> (r: Result<SymbolTable, GenError>)
        ensures
            r is Ok <==> keys_distinct(*s),
            r matches Ok(t) ==> t.wf_for(*s),
            r matches Err(e) ==> exists|i: int|
                0 <= i < s.fields@.len() && #[trigger] key_clashes(*s, i) && (forall|j: int|
                    0 <= j < i ==> !key_clashes(*s, j)) && e == GenError::DuplicateKey(
                    s.fields@[i].key_name,
                ),
    {
        let reserved = String::from_str("__struct__");
        proof {
            reveal_strlit("__struct__");
            assert(reserved@ =~= struct_key());
        }
        let mut keys: Vec<String> = Vec::new();
        let mut i: usize = 0;
        while i < s.fields.len()
            invariant
                0 <= i <= s.fields@.len(),
                reserved@ == struct_key(),
                keys@.len() == i,
                forall|t: int| 0 <= t < i ==> (#[trigger] keys@[t])@ == schema_key(*s, t),
                forall|t: int| 0 <= t < i ==> !#[trigger] key_clashes(*s, t),
            decreases s.fields@.len() - i,
        {
            let key = &s.fields[i].key_name;
            let mut clash = *key == reserved;
            let mut j: usize = 0;
            while j < i && !clash
                invariant
                    0 <= j <= i < s.fields@.len(),
                    keys@.len() == i,
                    forall|t: int| 0 <= t < i ==> (#[trigger] keys@[t])@ == schema_key(*s, t),
                    key@ == schema_key(*s, i as int),
                    clash ==> key_clashes(*s, i as int),
                    !clash ==> schema_key(*s, i as int) != struct_key() && forall|t: int|
                        0 <= t < j ==> schema_key(*s, t) != schema_key(*s, i as int),
                decreases i - j,
            {
                if keys[j] == *key {
                    assert(schema_key(*s, j as int) == schema_key(*s, i as int));
                    clash = true;
                }
                j = j + 1;
            }
            if clash {
                assert(key_clashes(*s, i as int));
                return Err(GenError::DuplicateKey(key.clone()));
            }
            keys.push(key.clone());
            i = i + 1;
        }
        let module = s.tag.clone();
        let t = SymbolTable { struct_key: reserved, module, field_keys: keys };
        assert forall|a: int, b: int|
            0 <= a < s.fields@.len() && 0 <= b < s.fields@.len() && a != b implies schema_key(
                *s,
                a,
            ) != schema_key(*s, b) by {
            if a < b {
                assert(!key_clashes(*s, b));
            } else {
                assert(!key_clashes(*s, a));
            }
        }
        assert forall|a: int| 0 <= a < s.fields@.len() implies #[trigger] schema_key(*s, a)
            != struct_key() by {
            assert(!key_clashes(*s, a));
        }
        Ok(t)
    }
}

} // verus!
