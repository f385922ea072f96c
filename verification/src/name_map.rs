//! A map keyed by names, kept as two vectors of the same length: the names,
//! none twice, and the value of each.
use vstd::prelude::*;

verus! {

/// The map that pairs each name with the value at the same place.
pub open spec fn pairs_to_map<V>(names: Seq<Seq<char>>, values: Seq<V>) -> Map<Seq<char>, V>
    decreases names.len(),
{
    if names.len() == 0 || values.len() == 0 {
        Map::empty()
    } else {
        pairs_to_map(names.drop_last(), values.drop_last()).insert(names.last(), values.last())
    }
}

/// A name is a key of the pairs' map exactly when it is among the names.
pub proof fn lemma_pairs_dom<V>(names: Seq<Seq<char>>, values: Seq<V>, k: Seq<char>)
    requires
        names.len() == values.len(),
    ensures
        pairs_to_map(names, values).contains_key(k) <==> names.contains(k),
    decreases names.len(),
{
    if names.len() > 0 {
        lemma_pairs_dom(names.drop_last(), values.drop_last(), k);
        if names.drop_last().contains(k) {
            let j = choose|j: int| 0 <= j < names.drop_last().len() && names.drop_last()[j] == k;
            assert(names[j] == k);
        }
        if names.contains(k) && k != names.last() {
            let j = choose|j: int| 0 <= j < names.len() && names[j] == k;
            assert(names.drop_last()[j] == k);
        }
    }
}

/// With no name twice, each name maps to the value at its place.
pub proof fn lemma_pairs_value<V>(names: Seq<Seq<char>>, values: Seq<V>, i: int)
    requires
        names.len() == values.len(),
        names.no_duplicates(),
        0 <= i < names.len(),
    ensures
        pairs_to_map(names, values).contains_key(names[i]),
        pairs_to_map(names, values)[names[i]] == values[i],
    decreases names.len(),
{
    if i < names.len() - 1 {
        assert(names[i] != names.last());
        assert(names.drop_last()[i] == names[i]);
        lemma_pairs_value(names.drop_last(), values.drop_last(), i);
    }
}

/// A map from names, none twice, to values.
#[verifier::reject_recursive_types(V)]
pub struct NameMap<V> {
    names: Vec<String>,
    values: Vec<V>,
}

impl<V> NameMap<V> {
    /// The names held, in the order they are stored.
    pub closed spec fn name_seq(&self) -> Seq<Seq<char>> {
        self.names@.map_values(|s: String| s@)
    }

    #[verifier::type_invariant]
    closed spec fn well_formed(&self) -> bool {
        &&& self.names@.len() == self.values@.len()
        &&& self.name_seq().no_duplicates()
    }

    proof fn lemma_facts(&self)
        requires
            self.well_formed(),
        ensures
            forall|k: Seq<char>| #[trigger] self@.contains_key(k) <==> self.name_seq().contains(k),
            forall|i: int| 0 <= i < self.names@.len() ==> self@.contains_key(#[trigger] self.name_seq()[i])
                && self@[self.name_seq()[i]] == self.values@[i],
    {
        assert forall|k: Seq<char>| #[trigger] self@.contains_key(k) <==> self.name_seq().contains(k) by {
            lemma_pairs_dom(self.name_seq(), self.values@, k);
        }
        assert forall|i: int| 0 <= i < self.names@.len() implies self@.contains_key(#[trigger] self.name_seq()[i])
            && self@[self.name_seq()[i]] == self.values@[i] by {
            lemma_pairs_value(self.name_seq(), self.values@, i);
        }
    }
}

impl<V> View for NameMap<V> {
    type V = Map<Seq<char>, V>;

    closed spec fn view(&self) -> Map<Seq<char>, V> {
        pairs_to_map(self.name_seq(), self.values@)
    }
}

impl<V> NameMap<V> {
    /// An empty map.
    pub fn new() -> (m: Self)
        ensures
            m@ == Map::<Seq<char>, V>::empty(),
    {
        let m = NameMap { names: Vec::new(), values: Vec::new() };
        proof {
            assert(m.name_seq() =~= Seq::<Seq<char>>::empty());
        }
        m
    }

    /// The place of `name`, if it is in the map.
    fn find(&self, name: &str) -> (r: Option<usize>)
        ensures
            match r {
                Some(i) => i < self.names@.len() && self.name_seq()[i as int] == name@,
                None => !self.name_seq().contains(name@),
            },
    {
        proof { use_type_invariant(self); }
        let target = name.to_string();
        let mut i: usize = 0;
        while i < self.names.len()
            invariant
                0 <= i <= self.names@.len(),
                target@ == name@,
                forall|j: int| 0 <= j < i ==> #[trigger] self.name_seq()[j] != name@,
            decreases self.names@.len() - i,
        {
            if self.names[i] == target {
                return Some(i);
            }
            i = i + 1;
        }
        None
    }

    /// The value of `name`, if it has one.
    pub fn get(&self, name: &str) -> (r: Option<&V>)
        ensures
            match r {
                Some(v) => self@.contains_key(name@) && *v == self@[name@],
                None => !self@.contains_key(name@),
            },
    {
        proof {
            use_type_invariant(self);
            self.lemma_facts();
        }
        match self.find(name) {
            Some(i) => Some(&self.values[i]),
            None => None,
        }
    }

    /// Whether `name` has a value.
    pub fn contains_key(&self, name: &str) -> (r: bool)
        ensures
            r == self@.contains_key(name@),
    {
        proof {
            use_type_invariant(self);
            self.lemma_facts();
        }
        self.find(name).is_some()
    }

    /// The number of names with a value.
    pub fn len(&self) -> (n: usize)
        ensures
            n == self@.len(),
    {
        proof {
            use_type_invariant(self);
            self.lemma_facts();
            assert(self@.dom() =~= self.name_seq().to_set());
            self.name_seq().unique_seq_to_set();
        }
        self.names.len()
    }

    /// Takes out the value of `name`, if it has one; `name` leaves the map.
    pub fn remove(&mut self, name: &str) -> (r: Option<V>)
        ensures
            final(self)@ == old(self)@.remove(name@),
            match r {
                Some(v) => old(self)@.contains_key(name@) && v == old(self)@[name@],
                None => !old(self)@.contains_key(name@),
            },
    {
        proof {
            use_type_invariant(&*self);
            self.lemma_facts();
        }
        match self.find(name) {
            Some(i) => {
                let ghost old_names = self.name_seq();
                let ghost old_values = self.values@;
                let ghost old_map = self@;
                let mut taken = NameMap::new();
                std::mem::swap(&mut taken, self);
                proof { use_type_invariant(&taken); }
                let NameMap { mut names, mut values } = taken;
                names.remove(i);
                let v = values.remove(i);
                proof {
                    let ns = names@.map_values(|s: String| s@);
                    assert(ns =~= old_names.remove(i as int));
                    assert(ns.no_duplicates()) by {
                        assert forall|a: int, b: int| 0 <= a < b < ns.len() implies ns[a] != ns[b] by {
                            let oa = if a < i { a } else { a + 1 };
                            let ob = if b < i { b } else { b + 1 };
                            assert(ns[a] == old_names[oa]);
                            assert(ns[b] == old_names[ob]);
                        }
                    }
                }
                let rebuilt = NameMap { names, values };
                *self = rebuilt;
                proof {
                    self.lemma_facts();
                    assert forall|k: Seq<char>| #[trigger] self@.contains_key(k) <==> old_map.remove(name@).contains_key(k) by {
                        if self.name_seq().contains(k) {
                            let j = choose|j: int| 0 <= j < self.name_seq().len() && self.name_seq()[j] == k;
                            let oj = if j < i { j } else { j + 1 };
                            assert(old_names[oj] == k);
                            assert(oj != i);
                        }
                        if old_map.remove(name@).contains_key(k) {
                            let j = choose|j: int| 0 <= j < old_names.len() && old_names[j] == k;
                            assert(j != i);
                            let nj = if j < i { j } else { j - 1 };
                            assert(self.name_seq()[nj] == k);
                        }
                    }
                    assert forall|k: Seq<char>| #[trigger] self@.contains_key(k) implies self@[k] == old_map.remove(name@)[k] by {
                        let j = choose|j: int| 0 <= j < self.name_seq().len() && self.name_seq()[j] == k;
                        let oj = if j < i { j } else { j + 1 };
                        assert(old_names[oj] == k);
                        assert(self@[self.name_seq()[j]] == self.values@[j]);
                        assert(old_map[old_names[oj]] == old_values[oj]);
                    }
                    assert(self@ =~= old_map.remove(name@));
                }
                Some(v)
            },
            None => {
                proof {
                    assert(self@ =~= old(self)@.remove(name@));
                }
                None
            },
        }
    }

    /// Gives `name` the value `value`, in place of any value it had.
    pub fn insert(&mut self, name: String, value: V)
        ensures
            final(self)@ == old(self)@.insert(name@, value),
    {
        let ghost old_map = self@;
        let _ = self.remove(name.as_str());
        proof {
            use_type_invariant(&*self);
            self.lemma_facts();
        }
        let ghost mid_names = self.name_seq();
        let ghost mid_values = self.values@;
        let ghost mid_map = self@;
        let mut taken = NameMap::new();
        std::mem::swap(&mut taken, self);
        proof { use_type_invariant(&taken); }
        let NameMap { mut names, mut values } = taken;
        let ghost n = name@;
        names.push(name);
        values.push(value);
        proof {
            let ns = names@.map_values(|s: String| s@);
            assert(ns =~= mid_names.push(n));
            assert(!mid_names.contains(n));
            assert(ns.no_duplicates()) by {
                assert forall|a: int, b: int| 0 <= a < b < ns.len() implies ns[a] != ns[b] by {
                    if b == mid_names.len() {
                        assert(mid_names[a] == ns[a]);
                    }
                }
            }
        }
        let rebuilt = NameMap { names, values };
        proof {
            assert(rebuilt.name_seq().drop_last() =~= mid_names);
            assert(rebuilt.values@.drop_last() =~= mid_values);
            assert(rebuilt@ == mid_map.insert(n, value));
            assert(mid_map == old_map.remove(n));
        }
        *self = rebuilt;
        proof {
            assert(self@ =~= old_map.insert(n, value));
        }
    }

    /// The names in the map and their values, at the same places.
    pub fn entries(&self) -> (r: (&Vec<String>, &Vec<V>))
        ensures
            r.0@.len() == r.1@.len(),
            r.0@.len() == self@.len(),
            forall|i: int| 0 <= i < r.0@.len() ==> self@.contains_key(#[trigger] r.0@[i]@) && self@[r.0@[i]@] == r.1@[i],
            forall|k: Seq<char>| #[trigger] self@.contains_key(k) ==> exists|i: int| 0 <= i < r.0@.len() && r.0@[i]@ == k,
    {
        proof {
            use_type_invariant(self);
            self.lemma_facts();
            assert(self@.dom() =~= self.name_seq().to_set());
            self.name_seq().unique_seq_to_set();
            assert forall|k: Seq<char>| #[trigger] self@.contains_key(k) implies exists|i: int| 0 <= i < self.names@.len() && self.names@[i]@ == k by {
                let j = choose|j: int| 0 <= j < self.name_seq().len() && self.name_seq()[j] == k;
                assert(self.names@[j]@ == k);
            }
            assert forall|i: int| 0 <= i < self.names@.len() implies self@.contains_key(#[trigger] self.names@[i]@) && self@[self.names@[i]@] == self.values@[i] by {
                assert(self.name_seq()[i] == self.names@[i]@);
            }
        }
        (&self.names, &self.values)
    }
}

} // verus!
