//! Tables keyed by text.

use vstd::prelude::*;

use crate::text::{same, texts};

verus! {

/// Values under distinct keys.
#[derive(Debug)]
pub struct Table<V> {
    entries: Vec<(String, V)>,
}

spec fn holds<V>(e: Seq<(String, V)>, key: Seq<char>) -> bool {
    exists|i: int| 0 <= i < e.len() && (#[trigger] e[i]).0@ == key
}

spec fn place<V>(e: Seq<(String, V)>, key: Seq<char>) -> int {
    choose|i: int| 0 <= i < e.len() && (#[trigger] e[i]).0@ == key
}

spec fn distinct<V>(e: Seq<(String, V)>) -> bool {
    forall|i: int, j: int| 0 <= i < j < e.len() ==> (#[trigger] e[i]).0@ != (#[trigger] e[j]).0@
}

spec fn contents<V>(e: Seq<(String, V)>) -> Map<Seq<char>, V> {
    Map::new(|k: Seq<char>| holds(e, k), |k: Seq<char>| e[place(e, k)].1)
}

proof fn lemma_place<V>(e: Seq<(String, V)>, i: int)
    requires
        distinct(e),
        0 <= i < e.len(),
    ensures
        contents(e).contains_key(e[i].0@),
        contents(e)[e[i].0@] == e[i].1,
        place(e, e[i].0@) == i,
{
    assert(e[i].0@ == e[i].0@);
    let p = place(e, e[i].0@);
    assert(0 <= p < e.len() && e[p].0@ == e[i].0@);
    if p < i {
        assert(e[p].0@ != e[i].0@);
    } else if i < p {
        assert(e[i].0@ != e[p].0@);
    }
}

impl<V> View for Table<V> {
    type V = Map<Seq<char>, V>;

    closed spec fn view(&self) -> Map<Seq<char>, V> {
        contents(self.entries@)
    }
}

impl<V> Table<V> {
    #[verifier::type_invariant]
    spec fn keys_distinct(self) -> bool {
        distinct(self.entries@)
    }

    pub fn new() -> (r: Table<V>)
        ensures
            r@ == Map::<Seq<char>, V>::empty(),
    {
        let r = Table { entries: Vec::new() };
        assert(r@ =~= Map::<Seq<char>, V>::empty());
        r
    }

    fn find(&self, key: &str) -> (r: Option<usize>)
        ensures
            match r {
                Some(i) => i < self.entries@.len() && self.entries@[i as int].0@ == key@
                    && self@.contains_key(key@) && self@[key@] == self.entries@[i as int].1,
                None => !self@.contains_key(key@),
            },
    {
        proof {
            use_type_invariant(self);
        }
        let mut i: usize = 0;
        while i < self.entries.len()
            invariant
                i <= self.entries.len(),
                distinct(self.entries@),
                forall|j: int| 0 <= j < i ==> (#[trigger] self.entries@[j]).0@ != key@,
            decreases self.entries.len() - i,
        {
            if same(self.entries[i].0.as_str(), key) {
                proof {
                    lemma_place(self.entries@, i as int);
                }
                return Some(i);
            }
            i += 1;
        }
        None
    }

    pub fn contains(&self, key: &str) -> (r: bool)
        ensures
            r == self@.contains_key(key@),
    {
        self.find(key).is_some()
    }

    pub fn get(&self, key: &str) -> (r: Option<&V>)
        ensures
            match r {
                Some(v) => self@.contains_key(key@) && *v == self@[key@],
                None => !self@.contains_key(key@),
            },
    {
        match self.find(key) {
            Some(i) => Some(&self.entries[i].1),
            None => None,
        }
    }

    /// The keys of the table.
    pub fn keys(&self) -> (r: Vec<String>)
        ensures
            forall|k: Seq<char>| #[trigger] texts(r@).contains(k) == self@.contains_key(k),
    {
        let mut out: Vec<String> = Vec::new();
        let mut i: usize = 0;
        while i < self.entries.len()
            invariant
                i <= self.entries.len(),
                out@.len() == i,
                forall|j: int| 0 <= j < i ==> (#[trigger] out@[j])@ == self.entries@[j].0@,
            decreases self.entries.len() - i,
        {
            out.push(self.entries[i].0.clone());
            i += 1;
        }
        assert forall|k: Seq<char>| #[trigger] texts(out@).contains(k) == self@.contains_key(k) by {
            if texts(out@).contains(k) {
                let j = choose|j: int| 0 <= j < out@.len() && texts(out@)[j] == k;
                assert(self.entries@[j].0@ == out@[j]@);
            }
            if self@.contains_key(k) {
                let j = place(self.entries@, k);
                assert(texts(out@)[j] == out@[j]@);
            }
        }
        out
    }

    /// Take the value under `key` out of the table.
    pub fn remove(&mut self, key: &str) -> (r: Option<V>)
        ensures
            final(self)@ == old(self)@.remove(key@),
            match r {
                Some(v) => old(self)@.contains_key(key@) && v == old(self)@[key@],
                None => !old(self)@.contains_key(key@),
            },
    {
        proof {
            use_type_invariant(&*self);
        }
        let found = self.find(key);
        match found {
            Some(i) => {
                let ghost before = self.entries@;
                let mut entries: Vec<(String, V)> = Vec::new();
                std::mem::swap(&mut entries, &mut self.entries);
                let pair = entries.remove(i);
                proof {
                    let after = entries@;
                    assert(after =~= before.remove(i as int));
                    assert(distinct(after)) by {
                        assert forall|a: int, b: int| 0 <= a < b < after.len() implies (
                        #[trigger] after[a]).0@ != (#[trigger] after[b]).0@ by {
                            let x = if a < i {
                                a
                            } else {
                                a + 1
                            };
                            let y = if b < i {
                                b
                            } else {
                                b + 1
                            };
                            assert(before[x].0@ != before[y].0@);
                        }
                    }
                    assert(contents(after) =~= contents(before).remove(key@)) by {
                        assert forall|k: Seq<char>|
                            contents(after).contains_key(k) == contents(before).remove(
                                key@,
                            ).contains_key(k) by {
                            if holds(after, k) {
                                let a = place(after, k);
                                let x = if a < i {
                                    a
                                } else {
                                    a + 1
                                };
                                assert(before[x].0@ == k);
                                if x < i {
                                    assert(before[x].0@ != before[i as int].0@);
                                } else {
                                    assert(before[i as int].0@ != before[x].0@);
                                }
                            }
                            if holds(before, k) && k != key@ {
                                let x = place(before, k);
                                let a = if x < i {
                                    x
                                } else {
                                    x - 1
                                };
                                assert(after[a].0@ == k);
                            }
                        }
                        assert forall|k: Seq<char>| contents(after).contains_key(k) implies contents(
                            after,
                        )[k] == contents(before)[k] by {
                            let a = place(after, k);
                            let x = if a < i {
                                a
                            } else {
                                a + 1
                            };
                            lemma_place(after, a);
                            lemma_place(before, x);
                        }
                    }
                }
                self.entries = entries;
                Some(pair.1)
            },
            None => {
                assert(self@ =~= old(self)@.remove(key@));
                None
            },
        }
    }

    /// Set the value under `key`.
    pub fn insert(&mut self, key: &str, v: V)
        ensures
            final(self)@ == old(self)@.insert(key@, v),
    {
        let ghost start = self@;
        let _ = self.remove(key);
        proof {
            use_type_invariant(&*self);
        }
        let ghost before = self.entries@;
        let mut entries: Vec<(String, V)> = Vec::new();
        std::mem::swap(&mut entries, &mut self.entries);
        entries.push((key.to_owned(), v));
        proof {
            let after = entries@;
            let n = before.len() as int;
            assert(after =~= before.push(after[n]));
            assert(!contents(before).contains_key(key@));
            assert(distinct(after)) by {
                assert forall|a: int, b: int| 0 <= a < b < after.len() implies (
                #[trigger] after[a]).0@ != (#[trigger] after[b]).0@ by {
                    if b < n {
                        assert(before[a].0@ != before[b].0@);
                    } else {
                        assert(before[a] == after[a]);
                        if before[a].0@ == key@ {
                            assert(holds(before, key@));
                        }
                    }
                }
            }
            assert(contents(after) =~= start.insert(key@, v)) by {
                lemma_place(after, n);
                assert forall|k: Seq<char>|
                    contents(after).contains_key(k) == start.insert(key@, v).contains_key(k) by {
                    if holds(after, k) {
                        let a = place(after, k);
                        if a < n {
                            assert(before[a].0@ == k);
                            assert(contents(before).contains_key(k));
                        }
                    }
                    if k != key@ && start.contains_key(k) {
                        assert(contents(before).contains_key(k));
                        let a = place(before, k);
                        assert(after[a].0@ == k);
                    }
                }
                assert forall|k: Seq<char>| contents(after).contains_key(k) implies contents(
                    after,
                )[k] == start.insert(key@, v)[k] by {
                    let a = place(after, k);
                    lemma_place(after, a);
                    if a < n {
                        lemma_place(before, a);
                    }
                }
            }
        }
        self.entries = entries;
    }
}

} // verus!
