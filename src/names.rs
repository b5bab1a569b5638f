//! Maps keyed by a column or variable name, kept in a vector of distinct keys.
use vstd::prelude::*;

verus! {

/// A map from names to values; a later `insert` of a name replaces its value.
#[derive(Debug)]
pub struct NameMap<V> {
    entries: Vec<(String, V)>,
}

/// Input column index by column name, as read from a header.
pub type InputColumnIndexByName = NameMap<usize>;

/// Named text values that `var` expressions read.
pub type Variables = NameMap<String>;

/// The map that scanning a header left to right builds: each name maps to the
/// position of its last occurrence.
pub open spec fn header_index_map(names: Seq<Seq<char>>) -> Map<Seq<char>, usize>
    decreases names.len(),
{
    if names.len() == 0 {
        Map::empty()
    } else {
        header_index_map(names.drop_last()).insert(names.last(), (names.len() - 1) as usize)
    }
}

impl<V> NameMap<V> {
    /// The names are pairwise distinct.
    #[verifier::type_invariant]
    spec fn wf(&self) -> bool {
        forall|i: int, j: int|
            0 <= i < j < self.entries@.len() ==> #[trigger] self.entries@[i].0@
                != #[trigger] self.entries@[j].0@
    }

    pub closed spec fn view(&self) -> Map<Seq<char>, V> {
        Map::new(
            |k: Seq<char>| exists|i: int| 0 <= i < self.entries@.len() && #[trigger] self.entries@[i].0@ == k,
            |k: Seq<char>|
                self.entries@[choose|i: int| 0 <= i < self.entries@.len() && #[trigger] self.entries@[i].0@ == k].1,
        )
    }

    pub fn new() -> (r: Self)
        ensures
            r@ == Map::<Seq<char>, V>::empty(),
    {
        let r = NameMap { entries: Vec::new() };
        assert(r@ =~= Map::<Seq<char>, V>::empty());
        r
    }

    /// The position of `name` among the entries, if it is there.
    fn position(&self, name: &String) -> (r: Option<usize>)
        ensures
            r matches Some(i) ==> i < self.entries@.len() && self.entries@[i as int].0@ == name@,
            r is None ==> forall|i: int| 0 <= i < self.entries@.len() ==> self.entries@[i].0@ != name@,
    {
        let mut i: usize = 0;
        while i < self.entries.len()
            invariant
                i <= self.entries@.len(),
                forall|j: int| 0 <= j < i ==> self.entries@[j].0@ != name@,
            decreases self.entries@.len() - i,
        {
            if self.entries[i].0 == *name {
                return Some(i);
            }
            i += 1;
        }
        None
    }

    /// The value of `name`, if the map holds it.
    pub fn get(&self, name: &String) -> (r: Option<&V>)
        ensures
            r is Some <==> self@.contains_key(name@),
            r matches Some(v) ==> *v == self@[name@],
    {
        proof {
            use_type_invariant(self);
        }
        match self.position(name) {
            Some(i) => {
                proof {
                    self.lemma_value_at(i as int);
                }
                Some(&self.entries[i].1)
            },
            None => None,
        }
    }

    proof fn lemma_value_at(&self, i: int)
        requires
            self.wf(),
            0 <= i < self.entries@.len(),
        ensures
            self@.contains_key(self.entries@[i].0@),
            self@[self.entries@[i].0@] == self.entries@[i].1,
    {
        let k = self.entries@[i].0@;
        assert(self@.contains_key(k));
        let j = choose|j: int| 0 <= j < self.entries@.len() && #[trigger] self.entries@[j].0@ == k;
        assert(j == i);
    }

    /// Binds `name` to `value`, replacing any earlier value of that name.
    pub fn insert(&mut self, name: String, value: V)
        ensures
            final(self)@ == old(self)@.insert(name@, value),
    {
        proof {
            use_type_invariant(&*self);
        }
        let ghost key = name@;
        let ghost before = self.entries@;
        let found = self.position(&name);
        let mut taken = NameMap { entries: Vec::new() };
        core::mem::swap(self, &mut taken);
        let NameMap { entries: mut entries } = taken;
        let ghost slot: int;
        match found {
            Some(i) => {
                entries.set(i, (name, value));
                proof {
                    slot = i as int;
                }
            },
            None => {
                entries.push((name, value));
                proof {
                    slot = before.len() as int;
                }
            },
        }
        assert forall|i: int, j: int| 0 <= i < j < entries@.len() implies #[trigger] entries@[i].0@
            != #[trigger] entries@[j].0@ by {
            if i != slot && j != slot {
                assert(entries@[i] == before[i] && entries@[j] == before[j]);
            } else if i == slot {
                assert(entries@[j] == before[j]);
            } else {
                assert(entries@[i] == before[i]);
            }
        }
        *self = NameMap { entries };
    proof {
            use_type_invariant(&*self);
            let after = self.entries@;
            assert(after[slot].0@ == key && after[slot].1 == value);
            assert(forall|j: int| 0 <= j < after.len() && j != slot ==> after[j] == before[j]);
            assert forall|k: Seq<char>| old(self)@.insert(key, value).contains_key(k) implies
                #[trigger] self@.contains_key(k) by {
                if k != key {
                    let j = choose|j: int| 0 <= j < before.len() && #[trigger] before[j].0@ == k;
                    assert(after[j].0@ == k);
                } else {
                    assert(after[slot].0@ == k);
                }
            }
            assert forall|k: Seq<char>| #[trigger] self@.contains_key(k) implies
                old(self)@.insert(key, value).contains_key(k) by {
                if k != key {
                    let j = choose|j: int| 0 <= j < after.len() && #[trigger] after[j].0@ == k;
                    assert(before[j].0@ == k);
                }
            }
            assert forall|k: Seq<char>| #[trigger] self@.contains_key(k) implies self@[k]
                == old(self)@.insert(key, value)[k] by {
                let j = choose|j: int| 0 <= j < after.len() && #[trigger] after[j].0@ == k;
                self.lemma_value_at(j);
                if k != key {
                    old(self).lemma_value_at(j);
                }
            }
            assert(self@ =~= old(self)@.insert(key, value));
        }
    }
}

/// Builds the index of input columns from the names of a header, left to right,
/// so that a later duplicate name takes the place of an earlier one.
pub fn index_by_name(names: &Vec<String>) -> (r: InputColumnIndexByName)
    ensures
        r@ == header_index_map(names@.map_values(|s: String| s@)),
{
    let mut r = NameMap::new();
    let mut i: usize = 0;
    while i < names.len()
        invariant
            i <= names@.len(),
            r@ == header_index_map(names@.subrange(0, i as int).map_values(|s: String| s@)),
        decreases names@.len() - i,
    {
        let ghost seen = names@.subrange(0, i as int).map_values(|s: String| s@);
        let ghost next = names@.subrange(0, i + 1).map_values(|s: String| s@);
        assert(next.drop_last() =~= seen);
        r.insert(names[i].clone(), i);
        i += 1;
    }
    assert(names@.subrange(0, names@.len() as int) =~= names@);
    r
}

} // verus!
