use vstd::prelude::*;

verus! {

/// A value of the host runtime as this library sees it.
#[derive(Clone, Debug, PartialEq, Eq)]
pub enum Term {
    Int(i64),
    Atom(String),
    Binary(String),
}

/// The mathematical value of a `Term`.
pub enum TermView {
    Int(i64),
    Atom(Seq<char>),
    Binary(Seq<char>),
}

impl View for Term {
    type V = TermView;

    open spec fn view(&self) -> TermView {
        match self {
            Term::Int(n) => TermView::Int(*n),
            Term::Atom(s) => TermView::Atom(s@),
            Term::Binary(s) => TermView::Binary(s@),
        }
    }
}

impl Term {
    /// A copy of the term with the same value.
    pub fn duplicate(&self) -> (r: Term)
        ensures
            r@ == self@,
    {
        match self {
            Term::Int(n) => Term::Int(*n),
            Term::Atom(s) => Term::Atom(s.clone()),
            Term::Binary(s) => Term::Binary(s.clone()),
        }
    }
}

/// The entries of a map term, as key/value pairs.
pub type Entries = Seq<(Seq<char>, TermView)>;

/// The value stored under `k` at or after position `i`, found by the first
/// entry that carries that key.
pub open spec fn lookup_from(m: Entries, k: Seq<char>, i: int) -> Option<TermView>
    decreases m.len() - i,
{
    if i < 0 || i >= m.len() {
        None
    } else if m[i].0 == k {
        Some(m[i].1)
    } else {
        lookup_from(m, k, i + 1)
    }
}

/// The value stored under `k` in the map.
pub open spec fn lookup(m: Entries, k: Seq<char>) -> Option<TermView> {
    lookup_from(m, k, 0)
}

/// Whether some entry carries key `k`.
pub open spec fn has_key(m: Entries, k: Seq<char>) -> bool {
    exists|i: int| 0 <= i < m.len() && #[trigger] m[i].0 == k
}

/// No two entries carry the same key.
pub open spec fn keys_unique(m: Entries) -> bool {
    forall|i: int, j: int| 0 <= i < m.len() && 0 <= j < m.len() && i != j ==> m[i].0 != m[j].0
}

/// The entry at `j` is the first with key `k`, so a lookup of `k` finds it.
pub proof fn lemma_lookup_first(m: Entries, k: Seq<char>, j: int)
    requires
        0 <= j < m.len(),
        m[j].0 == k,
        forall|i: int| 0 <= i < j ==> m[i].0 != k,
    ensures
        lookup(m, k) == Some(m[j].1),
{
    lemma_lookup_first_from(m, k, j, j);
}

proof fn lemma_lookup_first_from(m: Entries, k: Seq<char>, j: int, i: int)
    requires
        0 <= i <= j < m.len(),
        m[j].0 == k,
        forall|t: int| 0 <= t < j ==> m[t].0 != k,
    ensures
        lookup_from(m, k, 0) == Some(m[j].1),
    decreases i,
{
    if i > 0 {
        lemma_lookup_first_from(m, k, j, i - 1);
    } else {
        lemma_lookup_skip(m, k, 0, j);
    }
}

proof fn lemma_lookup_skip(m: Entries, k: Seq<char>, i: int, j: int)
    requires
        0 <= i <= j < m.len(),
        m[j].0 == k,
        forall|t: int| 0 <= t < j ==> m[t].0 != k,
    ensures
        lookup_from(m, k, i) == Some(m[j].1),
    decreases j - i,
{
    if i < j {
        lemma_lookup_skip(m, k, i + 1, j);
    }
}

/// Without an entry for `k`, a lookup of `k` finds nothing.
pub proof fn lemma_lookup_absent(m: Entries, k: Seq<char>)
    requires
        !has_key(m, k),
    ensures
        lookup(m, k) is None,
{
    lemma_lookup_absent_from(m, k, 0);
}

proof fn lemma_lookup_absent_from(m: Entries, k: Seq<char>, i: int)
    requires
        0 <= i,
        !has_key(m, k),
    ensures
        lookup_from(m, k, i) is None,
    decreases m.len() - i,
{
    if i < m.len() {
        assert(m[i].0 != k);
        lemma_lookup_absent_from(m, k, i + 1);
    }
}

/// With unique keys, the entry at `j` is what a lookup of its key finds.
pub proof fn lemma_lookup_unique(m: Entries, j: int)
    requires
        keys_unique(m),
        0 <= j < m.len(),
    ensures
        lookup(m, m[j].0) == Some(m[j].1),
{
    lemma_lookup_first(m, m[j].0, j);
}

/// A map term: the generic keyed container that carries a record.
#[derive(Clone, Debug, PartialEq, Eq)]
pub struct MapTerm {
    pub entries: Vec<(String, Term)>,
}

impl View for MapTerm {
    type V = Entries;

    open spec fn view(&self) -> Entries {
        self.entries@.map_values(|e: (String, Term)| (e.0@, e.1@))
    }
}

impl MapTerm {
    /// An empty map.
    pub fn map_new() -> (r: MapTerm)
        ensures
            r@ == Seq::<(Seq<char>, TermView)>::empty(),
    {
        MapTerm { entries: Vec::new() }
    }

    /// The value stored under `key`, if any.
    pub fn map_get(&self, key: &String) -> (r: Option<&Term>)
        ensures
            match r {
                Some(t) => lookup(self@, key@) == Some(t@),
                None => lookup(self@, key@) is None,
            },
    {
        let mut i: usize = 0;
        while i < self.entries.len()
            invariant
                0 <= i <= self.entries@.len(),
                lookup(self@, key@) == lookup_from(self@, key@, i as int),
            decreases self.entries@.len() - i,
        {
            if self.entries[i].0 == *key {
                return Some(&self.entries[i].1);
            }
            i = i + 1;
        }
        None
    }

    /// Stores `value` under `key`: an entry with that key takes the new
    /// value in place, otherwise the entry goes at the end.
    pub fn map_put(&mut self, key: String, value: Term)
        ensures
            has_key(old(self)@, key@) ==> exists|j: int|
                0 <= j < old(self)@.len() && #[trigger] old(self)@[j].0 == key@ && final(self)@
                    == old(self)@.update(j, (key@, value@)),
            !has_key(old(self)@, key@) ==> final(self)@ == old(self)@.push((key@, value@)),
    {
        let ghost k = key@;
        let ghost v = value@;
        let mut i: usize = 0;
        while i < self.entries.len()
            invariant
                0 <= i <= self.entries@.len(),
                self.entries@ == old(self).entries@,
                self@ == old(self)@,
                k == key@,
                v == value@,
                forall|t: int| 0 <= t < i ==> self@[t].0 != k,
            decreases self.entries@.len() - i,
        {
            if self.entries[i].0 == key {
                self.entries.set(i, (key, value));
                assert(self@ =~= old(self)@.update(i as int, (k, v)));
                assert(old(self)@[i as int].0 == k);
                return;
            }
            i = i + 1;
        }
        assert(!has_key(old(self)@, k));
        self.entries.push((key, value));
        assert(self@ =~= old(self)@.push((k, v)));
    }
}

} // verus!
