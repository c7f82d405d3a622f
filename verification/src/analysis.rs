//! One morphological reading of a word: attribute names with their values.
use vstd::prelude::*;
use vstd::string::*;
use vstd::std_specs::cmp::PartialEqSpecImpl;
use crate::text::text_eq;

verus! {

/// The name and value of each stored pair, as character sequences.
pub open spec fn pairs_of(entries: Seq<(String, String)>) -> Seq<(Seq<char>, Seq<char>)> {
    entries.map_values(|e: (String, String)| (e.0@, e.1@))
}

/// The mapping that results from inserting the pairs in order.
pub open spec fn map_of(pairs: Seq<(Seq<char>, Seq<char>)>) -> Map<Seq<char>, Seq<char>>
    decreases pairs.len(),
{
    if pairs.len() == 0 {
        Map::empty()
    } else {
        map_of(pairs.drop_last()).insert(pairs.last().0, pairs.last().1)
    }
}

/// The pair at `i` is the last one that carries its name.
pub open spec fn is_last_with_name(pairs: Seq<(Seq<char>, Seq<char>)>, i: int) -> bool {
    &&& 0 <= i < pairs.len()
    &&& forall|j: int| i < j < pairs.len() ==> pairs[j].0 != pairs[i].0
}

/// A name is mapped exactly when some pair carries it.
pub proof fn lemma_map_of_domain(pairs: Seq<(Seq<char>, Seq<char>)>, name: Seq<char>)
    ensures
        map_of(pairs).contains_key(name) <==> exists|i: int|
            0 <= i < pairs.len() && pairs[i].0 == name,
        map_of(pairs).dom().finite(),
    decreases pairs.len(),
{
    if pairs.len() > 0 {
        let front = pairs.drop_last();
        lemma_map_of_domain(front, name);
        if map_of(pairs).contains_key(name) {
            if pairs.last().0 == name {
                assert(pairs[pairs.len() - 1].0 == name);
            } else {
                let i = choose|i: int| 0 <= i < front.len() && front[i].0 == name;
                assert(pairs[i].0 == name);
            }
        }
        if exists|i: int| 0 <= i < pairs.len() && pairs[i].0 == name {
            let i = choose|i: int| 0 <= i < pairs.len() && pairs[i].0 == name;
            if i < pairs.len() - 1 {
                assert(front[i].0 == name);
            }
        }
    }
}

/// A name is mapped to the value of the last pair that carries it.
pub proof fn lemma_map_of_value(pairs: Seq<(Seq<char>, Seq<char>)>, i: int)
    requires
        is_last_with_name(pairs, i),
    ensures
        map_of(pairs).contains_key(pairs[i].0),
        map_of(pairs)[pairs[i].0] == pairs[i].1,
    decreases pairs.len(),
{
    let front = pairs.drop_last();
    if i < pairs.len() - 1 {
        assert(is_last_with_name(front, i)) by {
            assert forall|j: int| i < j < front.len() implies front[j].0 != front[i].0 by {
                assert(pairs[j].0 != pairs[i].0);
            }
        }
        lemma_map_of_value(front, i);
        assert(front[i] == pairs[i]);
        assert(pairs[pairs.len() - 1].0 != pairs[i].0);
    }
}

/// Replacing the value of the last pair with some name is inserting under
/// that name.
pub proof fn lemma_map_of_update(pairs: Seq<(Seq<char>, Seq<char>)>, i: int, value: Seq<char>)
    requires
        is_last_with_name(pairs, i),
    ensures
        map_of(pairs.update(i, (pairs[i].0, value))) == map_of(pairs).insert(pairs[i].0, value),
    decreases pairs.len(),
{
    let changed = pairs.update(i, (pairs[i].0, value));
    let front = pairs.drop_last();
    if i == pairs.len() - 1 {
        assert(changed.drop_last() =~= front);
        assert(map_of(changed) =~= map_of(pairs).insert(pairs[i].0, value));
    } else {
        assert(is_last_with_name(front, i)) by {
            assert forall|j: int| i < j < front.len() implies front[j].0 != front[i].0 by {
                assert(pairs[j].0 != pairs[i].0);
            }
        }
        lemma_map_of_update(front, i, value);
        assert(changed.drop_last() =~= front.update(i, (front[i].0, value)));
        assert(changed.last() == pairs.last());
        assert(pairs[pairs.len() - 1].0 != pairs[i].0);
        assert(map_of(changed) =~= map_of(pairs).insert(pairs[i].0, value));
    }
}

/// A morphological analysis item: a mapping from attribute names to values.
#[derive(Debug)]
pub struct Analysis {
    entries: Vec<(String, String)>,
}

impl Analysis {
    /// The mapping from names to values.
    pub closed spec fn view(&self) -> Map<Seq<char>, Seq<char>> {
        map_of(pairs_of(self.entries@))
    }

    /// The empty mapping.
    pub fn new() -> (r: Analysis)
        ensures
            r@ == Map::<Seq<char>, Seq<char>>::empty(),
    {
        Analysis { entries: Vec::new() }
    }

    /// The index of the last pair that carries `name`.
    fn position(&self, name: &str) -> (r: Option<usize>)
        ensures
            match r {
                Some(i) => is_last_with_name(pairs_of(self.entries@), i as int) && pairs_of(
                    self.entries@,
                )[i as int].0 == name@,
                None => forall|i: int|
                    0 <= i < self.entries@.len() ==> pairs_of(self.entries@)[i].0 != name@,
            },
    {
        let mut i: usize = self.entries.len();
        while i > 0
            invariant
                0 <= i <= self.entries@.len(),
                forall|j: int|
                    i <= j < self.entries@.len() ==> pairs_of(self.entries@)[j].0 != name@,
            decreases i,
        {
            i -= 1;
            if text_eq(self.entries[i].0.as_str(), name) {
                return Some(i);
            }
        }
        None
    }

    /// The value stored under `name`, if there is one.
    pub fn get(&self, name: &str) -> (r: Option<&String>)
        ensures
            match r {
                Some(v) => self@.contains_key(name@) && self@[name@] == v@,
                None => !self@.contains_key(name@),
            },
    {
        proof {
            lemma_map_of_domain(pairs_of(self.entries@), name@);
        }
        match self.position(name) {
            Some(i) => {
                proof {
                    lemma_map_of_value(pairs_of(self.entries@), i as int);
                }
                Some(&self.entries[i].1)
            },
            None => None,
        }
    }

    /// The stored pairs; inserted in order they give the mapping.
    pub fn entries(&self) -> (r: &Vec<(String, String)>)
        ensures
            map_of(pairs_of(r@)) == self@,
    {
        &self.entries
    }

    /// Whether no name has a value.
    pub fn is_empty(&self) -> (r: bool)
        ensures
            r == (self@ == Map::<Seq<char>, Seq<char>>::empty()),
    {
        proof {
            if self.entries@.len() > 0 {
                let pairs = pairs_of(self.entries@);
                assert(map_of(pairs).contains_key(pairs.last().0));
            }
        }
        self.entries.len() == 0
    }

    /// Stores `value` under `name`, replacing what was stored there, and
    /// returns what was replaced.
    pub fn insert(&mut self, name: String, value: String) -> (r: Option<String>)
        ensures
            final(self)@ == old(self)@.insert(name@, value@),
            match r {
                Some(v) => old(self)@.contains_key(name@) && old(self)@[name@] == v@,
                None => !old(self)@.contains_key(name@),
            },
    {
        proof {
            lemma_map_of_domain(pairs_of(self.entries@), name@);
        }
        let ghost before = pairs_of(self.entries@);
        match self.position(name.as_str()) {
            Some(i) => {
                proof {
                    lemma_map_of_value(before, i as int);
                    lemma_map_of_update(before, i as int, value@);
                }
                self.entries.push((name, value));
                let previous = self.entries.swap_remove(i);
                assert(pairs_of(self.entries@) =~= before.update(
                    i as int,
                    (before[i as int].0, value@),
                ));
                Some(previous.1)
            },
            None => {
                self.entries.push((name, value));
                assert(pairs_of(self.entries@).drop_last() =~= before);
                None
            },
        }
    }

    /// Whether every pair of `self` is a pair of `other`.
    fn included_in(&self, other: &Analysis) -> (r: bool)
        ensures
            r == forall|k: Seq<char>| #[trigger]
                self@.contains_key(k) ==> other@.contains_key(k) && other@[k] == self@[k],
    {
        let mut i: usize = 0;
        while i < self.entries.len()
            invariant
                0 <= i <= self.entries@.len(),
                forall|j: int|
                    0 <= j < i ==> {
                        let k = #[trigger] pairs_of(self.entries@)[j].0;
                        other@.contains_key(k) && other@[k] == self@[k]
                    },
            decreases self.entries.len() - i,
        {
            let mine = self.get(self.entries[i].0.as_str());
            let theirs = other.get(self.entries[i].0.as_str());
            proof {
                lemma_map_of_domain(pairs_of(self.entries@), pairs_of(self.entries@)[i as int].0);
            }
            let found = match (mine, theirs) {
                (Some(v), Some(w)) => text_eq(v.as_str(), w.as_str()),
                _ => false,
            };
            if !found {
                return false;
            }
            i += 1;
        }
        proof {
            assert forall|k: Seq<char>| #[trigger] self@.contains_key(k) implies other@.contains_key(
                k,
            ) && other@[k] == self@[k] by {
                lemma_map_of_domain(pairs_of(self.entries@), k);
                let j = choose|j: int|
                    0 <= j < pairs_of(self.entries@).len() && pairs_of(self.entries@)[j].0 == k;
                assert(pairs_of(self.entries@)[j].0 == k);
            }
        }
        true
    }
}

impl PartialEq for Analysis {
    /// Two analyses are equal when they map the same names to the same values.
    fn eq(&self, other: &Analysis) -> (r: bool) {
        let r = self.included_in(other) && other.included_in(self);
        proof {
            if r {
                assert(self@ =~= other@);
            }
        }
        r
    }
}

impl PartialEqSpecImpl for Analysis {
    open spec fn obeys_eq_spec() -> bool {
        true
    }

    open spec fn eq_spec(&self, other: &Analysis) -> bool {
        self@ == other@
    }
}

} // verus!
