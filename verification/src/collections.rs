//! Tables and sets keyed by text.

use crate::text::{same, texts};
use vstd::prelude::*;

verus! {

/// The keys of a list of entries, in order.
pub open spec fn keys_of<V>(entries: Seq<(String, V)>) -> Seq<Seq<char>> {
    entries.map_values(|e: (String, V)| e.0@)
}

/// A table from texts to values, each key once.
#[derive(Debug)]
pub struct Table<V> {
    entries: Vec<(String, V)>,
}

impl<V> Table<V> {
    #[verifier::type_invariant]
    closed spec fn unique(self) -> bool {
        keys_of(self.entries@).no_duplicates()
    }

    /// The keys, in the order in which the table is walked.
    pub closed spec fn keys(&self) -> Seq<Seq<char>> {
        keys_of(self.entries@)
    }

    pub closed spec fn view(&self) -> Map<Seq<char>, V> {
        Map::new(
            |k: Seq<char>| self.keys().contains(k),
            |k: Seq<char>| self.entries@[self.keys().index_of(k)].1,
        )
    }

    /// A table without entries.
    pub fn new() -> (r: Self)
        ensures
            r@ == Map::<Seq<char>, V>::empty(),
    {
        let r = Table { entries: Vec::new() };
        assert(r@ =~= Map::<Seq<char>, V>::empty());
        r
    }

    /// The place of `key`.
    fn place(&self, key: &str) -> (r: Option<usize>)
        ensures
            r is Some <==> self@.contains_key(key@),
            r matches Some(i) ==> i < self.entries@.len() && self.entries@[i as int].0@ == key@
                && self@[key@] == self.entries@[i as int].1,
    {
        proof {
            use_type_invariant(self);
        }
        let mut i: usize = 0;
        while i < self.entries.len()
            invariant
                self.unique(),
                i <= self.entries@.len(),
                forall|j: int| 0 <= j < i ==> self.entries@[j].0@ != key@,
            decreases self.entries@.len() - i,
        {
            if same(self.entries[i].0.as_str(), key) {
                assert(self.keys()[i as int] == key@);
                assert(self.keys().contains(key@));
                return Some(i);
            }
            i = i + 1;
        }
        assert(!self.keys().contains(key@));
        None
    }

    /// The value under `key`.
    pub fn get(&self, key: &str) -> (r: Option<&V>)
        ensures
            match r {
                Some(v) => self@.contains_key(key@) && self@[key@] == *v,
                None => !self@.contains_key(key@),
            },
    {
        match self.place(key) {
            Some(i) => Some(&self.entries[i].1),
            None => None,
        }
    }

    /// Takes the entry of `key` out of the table.
    pub fn remove(&mut self, key: &str) -> (r: Option<V>)
        ensures
            final(self)@ == old(self)@.remove(key@),
            match r {
                Some(v) => old(self)@.contains_key(key@) && old(self)@[key@] == v,
                None => !old(self)@.contains_key(key@),
            },
    {
        proof {
            use_type_invariant(&*self);
        }
        let ghost before = *self;
        match self.place(key) {
            Some(i) => {
                let mut entries: Vec<(String, V)> = Vec::new();
                std::mem::swap(&mut self.entries, &mut entries);
                let entry = entries.remove(i);
                proof {
                    let old_keys = keys_of(before.entries@);
                    let new_keys = keys_of(entries@);
                    assert(new_keys =~= old_keys.remove(i as int));
                    assert(old_keys[i as int] == key@);
                    assert forall|k: Seq<char>| #[trigger] new_keys.contains(k) <==> (
                    old_keys.contains(k) && k != key@) by {
                        if old_keys.contains(k) && k != key@ {
                            let j = old_keys.index_of(k);
                            if j < i {
                                assert(new_keys[j] == k);
                            } else {
                                assert(new_keys[j - 1] == k);
                            }
                        }
                        if new_keys.contains(k) {
                            let j = new_keys.index_of(k);
                            if j < i {
                                assert(old_keys[j] == k);
                            } else {
                                assert(old_keys[j + 1] == k);
                            }
                        }
                    }
                }
                self.entries = entries;
                proof {
                    let old_keys = before.keys();
                    let new_keys = self.keys();
                    assert forall|k: Seq<char>| #[trigger] self@.contains_key(k) implies self@[k]
                        == before@[k] by {
                        let j = new_keys.index_of(k);
                        let m = old_keys.index_of(k);
                        if j < i {
                            assert(old_keys[j] == k);
                            assert(m == j);
                        } else {
                            assert(old_keys[j + 1] == k);
                            assert(m == j + 1);
                        }
                    }
                    assert(self@ =~= before@.remove(key@));
                }
                Some(entry.1)
            },
            None => {
                assert(self@ =~= before@.remove(key@));
                None
            },
        }
    }

    /// Sets the value under `key`.
    pub fn insert(&mut self, key: String, value: V)
        ensures
            final(self)@ == old(self)@.insert(key@, value),
    {
        let ghost start = self@;
        self.remove(key.as_str());
        proof {
            use_type_invariant(&*self);
        }
        let ghost before = *self;
        let mut entries: Vec<(String, V)> = Vec::new();
        std::mem::swap(&mut self.entries, &mut entries);
        entries.push((key, value));
        proof {
            let old_keys = before.keys();
            let new_keys = keys_of(entries@);
            assert(!before@.contains_key(key@));
            assert(new_keys =~= old_keys.push(key@));
        }
        self.entries = entries;
        proof {
            let old_keys = before.keys();
            let new_keys = self.keys();
            assert(new_keys[old_keys.len() as int] == key@);
            assert forall|k: Seq<char>| #[trigger] new_keys.contains(k) <==> (old_keys.contains(k)
                || k == key@) by {
                if old_keys.contains(k) {
                    assert(new_keys[old_keys.index_of(k)] == k);
                }
            }
            assert forall|k: Seq<char>| #[trigger] old_keys.contains(k) implies self@[k]
                == before@[k] by {
                let j = new_keys.index_of(k);
                let m = old_keys.index_of(k);
                assert(new_keys[m] == k);
                assert(j == m);
            }
            assert(new_keys.index_of(key@) == old_keys.len());
            let after = start.insert(key@, value);
            assert forall|k: Seq<char>| #[trigger] self@.contains_key(k) <==> after.contains_key(
                k,
            ) by {
                assert(before@.contains_key(k) <==> old_keys.contains(k));
                assert(self@.contains_key(k) <==> new_keys.contains(k));
            }
            assert forall|k: Seq<char>| #[trigger] self@.contains_key(k) implies self@[k]
                == after[k] by {
                assert(k != key@ ==> old_keys.contains(k));
            }
            assert(self@ =~= after);
        }
    }

    /// The keys are those of the table.
    pub(crate) proof fn lemma_keys(&self)
        ensures
            self.keys().to_set() == self@.dom(),
    {
        assert(self.keys().to_set() =~= self@.dom());
    }

    /// How many entries the table has.
    pub fn len(&self) -> (r: usize)
        ensures
            r == self.keys().len(),
            r == self@.dom().len(),
            self@.dom().finite(),
            self.keys().no_duplicates(),
            self.keys().to_set() == self@.dom(),
    {
        proof {
            use_type_invariant(self);
            self.keys().unique_seq_to_set();
            assert(self.keys().to_set() =~= self@.dom());
        }
        self.entries.len()
    }

    /// The entry at place `i`.
    pub fn at(&self, i: usize) -> (r: (&str, &V))
        requires
            i < self.keys().len(),
        ensures
            r.0@ == self.keys()[i as int],
            self@.contains_key(r.0@),
            self@[r.0@] == *r.1,
    {
        proof {
            use_type_invariant(self);
            let k = self.keys()[i as int];
            assert(self.keys().contains(k));
            assert(self.keys().index_of(k) == i);
        }
        (self.entries[i].0.as_str(), &self.entries[i].1)
    }
}

/// The texts of a table of strings.
pub open spec fn text_map(m: Map<Seq<char>, String>) -> Map<Seq<char>, Seq<char>> {
    m.map_values(|s: String| s@)
}

/// A copy of a table of strings.
pub fn copy_texts(t: &Table<String>) -> (r: Table<String>)
    ensures
        r@ == t@,
{
    let mut r: Table<String> = Table::new();
    let n: usize = t.len();
    let mut i: usize = 0;
    while i < n
        invariant
            n == t.keys().len(),
            i <= n,
            t.keys().to_set() == t@.dom(),
            r@ == t@.restrict(t.keys().take(i as int).to_set()),
        decreases n - i,
    {
        let (key, value) = t.at(i);
        r.insert(key.to_owned(), value.clone());
        proof {
            let before = t.keys().take(i as int);
            let after = t.keys().take(i + 1);
            assert(after == before.push(key@));
            before.lemma_push_to_set_commute(key@);
            assert(r@ =~= t@.restrict(after.to_set()));
        }
        i = i + 1;
    }
    assert(t.keys().take(n as int) == t.keys());
    assert(r@ =~= t@);
    r
}

impl Clone for Table<String> {
    fn clone(&self) -> (r: Self)
        ensures
            r@ == self@,
    {
        copy_texts(self)
    }
}

/// `base` with the entries of `pairs` put in, one after the other.
pub open spec fn overlaid(
    base: Map<Seq<char>, Seq<char>>,
    pairs: Seq<(String, String)>,
) -> Map<Seq<char>, Seq<char>>
    decreases pairs.len(),
{
    if pairs.len() == 0 {
        base
    } else {
        overlaid(base, pairs.drop_last()).insert(pairs.last().0@, pairs.last().1@)
    }
}

/// Puts the entries of `pairs` into a table, one after the other.
pub fn overlay(base: Table<String>, pairs: &Vec<(String, String)>) -> (r: Table<String>)
    ensures
        text_map(r@) == overlaid(text_map(base@), pairs@),
{
    let mut r = base;
    let mut i: usize = 0;
    while i < pairs.len()
        invariant
            i <= pairs@.len(),
            text_map(r@) == overlaid(text_map(base@), pairs@.take(i as int)),
        decreases pairs@.len() - i,
    {
        let ghost before = text_map(r@);
        r.insert(pairs[i].0.clone(), pairs[i].1.clone());
        assert(text_map(r@) =~= before.insert(pairs@[i as int].0@, pairs@[i as int].1@));
        assert(pairs@.take(i + 1).drop_last() == pairs@.take(i as int));
        i = i + 1;
    }
    assert(pairs@.take(i as int) == pairs@);
    r
}

/// A copy of a list of strings.
pub fn copy_list(list: &Vec<String>) -> (r: Vec<String>)
    ensures
        texts(r@) == texts(list@),
{
    let mut r: Vec<String> = Vec::new();
    let mut i: usize = 0;
    while i < list.len()
        invariant
            i <= list@.len(),
            texts(r@) == texts(list@).take(i as int),
        decreases list@.len() - i,
    {
        let ghost before = texts(r@);
        r.push(list[i].clone());
        assert(texts(r@) =~= before.push(list@[i as int]@));
        i = i + 1;
    }
    r
}

/// A set of texts.
#[derive(Debug)]
pub struct TextSet {
    members: Table<()>,
}

impl TextSet {
    pub closed spec fn view(&self) -> Set<Seq<char>> {
        self.members@.dom()
    }

    /// The empty set.
    pub fn new() -> (r: Self)
        ensures
            r@ == Set::<Seq<char>>::empty(),
    {
        TextSet { members: Table::new() }
    }

    /// Whether `t` is in the set.
    pub fn contains(&self, t: &str) -> (r: bool)
        ensures
            r == self@.contains(t@),
    {
        self.members.get(t).is_some()
    }

    /// Puts `t` into the set.
    pub fn insert(&mut self, t: &str)
        ensures
            final(self)@ == old(self)@.insert(t@),
    {
        self.members.insert(t.to_owned(), ());
    }

    /// Takes `t` out of the set.
    pub fn remove(&mut self, t: &str)
        ensures
            final(self)@ == old(self)@.remove(t@),
    {
        self.members.remove(t);
    }

    /// How many members the set has.
    pub fn len(&self) -> (r: usize)
        ensures
            r == self@.len(),
            self@.finite(),
    {
        self.members.len()
    }

    /// Whether the set has no members.
    pub fn is_empty(&self) -> (r: bool)
        ensures
            r == (self@ == Set::<Seq<char>>::empty()),
    {
        let n: usize = self.len();
        proof {
            if n == 0 {
                self@.lemma_len0_is_empty();
            }
        }
        n == 0
    }

    /// The members, each once.
    pub fn to_list(&self) -> (r: Vec<String>)
        ensures
            texts(r@).no_duplicates(),
            texts(r@).to_set() == self@,
    {
        let mut r: Vec<String> = Vec::new();
        let n: usize = self.members.len();
        let mut i: usize = 0;
        while i < n
            invariant
                n == self.members.keys().len(),
                i <= n,
                texts(r@) == self.members.keys().take(i as int),
            decreases n - i,
        {
            let ghost before = texts(r@);
            let (key, _) = self.members.at(i);
            r.push(key.to_owned());
            assert(texts(r@) =~= before.push(key@));
            assert(self.members.keys().take(i + 1) =~= before.push(key@));
            i = i + 1;
        }
        assert(self.members.keys().take(n as int) == self.members.keys());
        r
    }
}

/// The texts of a table stand under the keys of their strings.
pub proof fn law_text_map(m: Map<Seq<char>, String>, key: Seq<char>)
    ensures
        text_map(m).dom() == m.dom(),
        m.contains_key(key) ==> text_map(m)[key] == m[key]@,
{
    assert(text_map(m).dom() =~= m.dom());
}

} // verus!
