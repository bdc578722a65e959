//! A table of values keyed by string identifiers.
//!
//! Resource files name their entries by string ids. The table keeps its entries
//! in insertion order, with no id occurring twice, so that walking it is
//! deterministic and inserting an id that is already present replaces its value.
use vstd::prelude::*;

verus! {

/// The map that an ordered list of `(id, value)` pairs stands for: a later
/// pair overrides an earlier pair with the same id.
pub open spec fn pairs_map<A>(s: Seq<(Seq<char>, A)>) -> Map<Seq<char>, A>
    decreases s.len(),
{
    if s.len() == 0 {
        Map::empty()
    } else {
        pairs_map(s.drop_last()).insert(s.last().0, s.last().1)
    }
}

/// No id occurs twice in the list.
pub open spec fn distinct_ids<A>(s: Seq<(Seq<char>, A)>) -> bool {
    forall|i: int, j: int| 0 <= i < j < s.len() ==> s[i].0 != s[j].0
}

/// An id is a key of the map exactly when some pair carries it.
pub proof fn lemma_pairs_map_dom<A>(s: Seq<(Seq<char>, A)>, k: Seq<char>)
    ensures
        pairs_map(s).dom().contains(k) <==> exists|i: int| 0 <= i < s.len() && s[i].0 == k,
    decreases s.len(),
{
    if s.len() > 0 {
        lemma_pairs_map_dom(s.drop_last(), k);
        if pairs_map(s).dom().contains(k) && k != s.last().0 {
            let i = choose|i: int| 0 <= i < s.len() - 1 && s.drop_last()[i].0 == k;
            assert(s[i].0 == k);
        }
        if exists|i: int| 0 <= i < s.len() && s[i].0 == k {
            let i = choose|i: int| 0 <= i < s.len() && s[i].0 == k;
            if i < s.len() - 1 {
                assert(s.drop_last()[i].0 == k);
            }
        }
    }
}

/// With distinct ids, the map sends each pair's id to that pair's value.
pub proof fn lemma_pairs_map_index<A>(s: Seq<(Seq<char>, A)>, i: int)
    requires
        distinct_ids(s),
        0 <= i < s.len(),
    ensures
        pairs_map(s).dom().contains(s[i].0),
        pairs_map(s)[s[i].0] == s[i].1,
    decreases s.len(),
{
    if i < s.len() - 1 {
        assert(s.drop_last()[i] == s[i]);
        lemma_pairs_map_index(s.drop_last(), i);
    }
}

/// With distinct ids, replacing the value of one pair updates the map at that id.
pub proof fn lemma_pairs_map_update<A>(s: Seq<(Seq<char>, A)>, i: int, v: A)
    requires
        distinct_ids(s),
        0 <= i < s.len(),
    ensures
        pairs_map(s.update(i, (s[i].0, v))) =~= pairs_map(s).insert(s[i].0, v),
    decreases s.len(),
{
    let t = s.update(i, (s[i].0, v));
    if i == s.len() - 1 {
        assert(t.drop_last() =~= s.drop_last());
    } else {
        assert(t.drop_last() =~= s.drop_last().update(i, (s[i].0, v)));
        lemma_pairs_map_update(s.drop_last(), i, v);
        assert(s.last().0 != s[i].0);
    }
}

/// A table of values keyed by string ids, kept in insertion order.
#[derive(Debug)]
pub struct IdMap<V: View> {
    entries: Vec<(String, V)>,
}

impl<V: View> IdMap<V> {
    /// The entries in order, each id and value taken by its view.
    pub closed spec fn pairs(&self) -> Seq<(Seq<char>, V::V)> {
        self.entries@.map_values(|e: (String, V)| (e.0@, e.1@))
    }

    /// Ids are unique.
    #[verifier::type_invariant]
    closed spec fn unique_ids(&self) -> bool {
        distinct_ids(self.pairs())
    }

    /// The entries, viewed as a map from id to value.
    pub open spec fn map(&self) -> Map<Seq<char>, V::V> {
        pairs_map(self.pairs())
    }

    /// An empty table.
    pub fn new() -> (m: Self)
        ensures
            m.pairs() == Seq::<(Seq<char>, V::V)>::empty(),
            m.map() == Map::<Seq<char>, V::V>::empty(),
    {
        let m = IdMap { entries: Vec::new() };
        assert(m.pairs() =~= Seq::<(Seq<char>, V::V)>::empty());
        m
    }

    /// The entries, in order.
    pub fn into_pairs(self) -> (v: Vec<(String, V)>)
        ensures
            v@.map_values(|e: (String, V)| (e.0@, e.1@)) == self.pairs(),
    {
        self.entries
    }

    /// The number of entries.
    pub fn len(&self) -> (n: usize)
        ensures
            n == self.pairs().len(),
    {
        self.entries.len()
    }

    /// The id of the entry at position `i`.
    pub fn id_at(&self, i: usize) -> (k: &String)
        requires
            i < self.pairs().len(),
        ensures
            k@ == self.pairs()[i as int].0,
    {
        &self.entries[i].0
    }

    /// The value of the entry at position `i`.
    pub fn value_at(&self, i: usize) -> (v: &V)
        requires
            i < self.pairs().len(),
        ensures
            v@ == self.pairs()[i as int].1,
    {
        &self.entries[i].1
    }

    /// The position of the entry with id `k`, if there is one.
    pub fn position(&self, k: &String) -> (r: Option<usize>)
        ensures
            match r {
                Some(i) => i < self.pairs().len() && self.pairs()[i as int].0 == k@,
                None => forall|i: int| 0 <= i < self.pairs().len() ==> self.pairs()[i].0 != k@,
            },
    {
        let n = self.entries.len();
        let mut i: usize = 0;
        while i < n
            invariant
                n == self.entries@.len(),
                i <= n,
                forall|j: int| 0 <= j < i ==> self.pairs()[j].0 != k@,
            decreases n - i,
        {
            if self.entries[i].0 == *k {
                return Some(i);
            }
            i = i + 1;
        }
        None
    }

    /// Looks up the value stored under `k`.
    pub fn get(&self, k: &String) -> (r: Option<&V>)
        ensures
            match r {
                Some(v) => self.map().dom().contains(k@) && v@ == self.map()[k@],
                None => !self.map().dom().contains(k@),
            },
    {
        proof {
            use_type_invariant(self);
            lemma_pairs_map_dom(self.pairs(), k@);
        }
        match self.position(k) {
            Some(i) => {
                proof {
                    lemma_pairs_map_index(self.pairs(), i as int);
                }
                Some(&self.entries[i].1)
            },
            None => None,
        }
    }

    /// Stores `v` under `k`, replacing the value already stored there. A new id
    /// goes after all others; an id already present keeps its position.
    pub fn insert(&mut self, k: String, v: V)
        ensures
            final(self).map() == old(self).map().insert(k@, v@),
            forall|i: int|
                0 <= i < old(self).pairs().len() && #[trigger] old(self).pairs()[i].0 == k@
                    ==> final(self).pairs() == old(self).pairs().update(i, (k@, v@)),
            !old(self).map().dom().contains(k@) ==> final(self).pairs() == old(self).pairs().push((k@, v@)),
    {
        proof {
            use_type_invariant(&*self);
            lemma_pairs_map_dom(self.pairs(), k@);
        }
        let ghost old_pairs = self.pairs();
        assert(distinct_ids(old_pairs));
        match self.position(&k) {
            Some(i) => {
                proof {
                    lemma_pairs_map_update(old_pairs, i as int, v@);
                }
                let mut entries = Vec::new();
                std::mem::swap(&mut entries, &mut self.entries);
                entries.set(i, (k, v));
                assert(IdMap { entries }.pairs() =~= old_pairs.update(i as int, (old_pairs[i as int].0, v@)));
                self.entries = entries;
            },
            None => {
                let mut entries = Vec::new();
                std::mem::swap(&mut entries, &mut self.entries);
                entries.push((k, v));
                assert(IdMap { entries }.pairs() =~= old_pairs.push((k@, v@)));
                assert(old_pairs.push((k@, v@)).drop_last() =~= old_pairs);
                self.entries = entries;
            },
        }
    }
}

} // verus!
