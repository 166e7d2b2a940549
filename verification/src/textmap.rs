//! A map whose keys are strings.
use crate::text;
use vstd::prelude::*;
use vstd::string::*;

verus! {

/// One entry of a map.
pub struct TextEntry<V> {
    pub key: String,
    pub value: V,
}

/// A map from strings to values. No key occurs twice.
pub struct TextMap<V> {
    entries: Vec<TextEntry<V>>,
}

/// Whether no key occurs twice.
pub open spec fn distinct_keys<V>(entries: Seq<TextEntry<V>>) -> bool {
    forall|i: int, j: int|
        0 <= i < j < entries.len() ==> (#[trigger] entries[i]).key@ != (#[trigger] entries[j]).key@
}

/// Whether a key occurs.
pub open spec fn has_key<V>(entries: Seq<TextEntry<V>>, key: Seq<char>) -> bool {
    exists|i: int| 0 <= i < entries.len() && (#[trigger] entries[i]).key@ == key
}

/// The position of a key that occurs.
pub open spec fn position<V>(entries: Seq<TextEntry<V>>, key: Seq<char>) -> int {
    choose|i: int| 0 <= i < entries.len() && (#[trigger] entries[i]).key@ == key
}

/// The map that entries stand for.
pub open spec fn as_map<V>(entries: Seq<TextEntry<V>>) -> Map<Seq<char>, V> {
    Map::new(
        |key: Seq<char>| has_key(entries, key),
        |key: Seq<char>| entries[position(entries, key)].value,
    )
}

/// The keys of entries, in their order.
pub open spec fn keys_of<V>(entries: Seq<TextEntry<V>>) -> Seq<Seq<char>> {
    Seq::new(entries.len(), |i: int| entries[i].key@)
}

proof fn lemma_entry<V>(entries: Seq<TextEntry<V>>, i: int)
    requires
        distinct_keys(entries),
        0 <= i < entries.len(),
    ensures
        as_map(entries).contains_key(entries[i].key@),
        as_map(entries)[entries[i].key@] == entries[i].value,
        position(entries, entries[i].key@) == i,
{
    let key = entries[i].key@;
    assert(has_key(entries, key));
    let at = position(entries, key);
    assert(0 <= at < entries.len() && entries[at].key@ == key);
    if at < i {
        assert(entries[at].key@ != entries[i].key@);
    }
    if i < at {
        assert(entries[i].key@ != entries[at].key@);
    }
}

impl<V> View for TextMap<V> {
    type V = Map<Seq<char>, V>;

    closed spec fn view(&self) -> Map<Seq<char>, V> {
        as_map(self.entries@)
    }
}

impl<V> TextMap<V> {
    #[verifier::type_invariant]
    spec fn distinct(&self) -> bool {
        distinct_keys(self.entries@)
    }

    /// The empty map.
    pub fn new() -> (r: Self)
        ensures
            r@ == Map::<Seq<char>, V>::empty(),
    {
        let map = TextMap { entries: Vec::new() };
        assert(map@ =~= Map::<Seq<char>, V>::empty());
        map
    }

    fn index_of(&self, key: &str) -> (r: Option<usize>)
        ensures
            match r {
                Some(i) => i < self.entries@.len() && self.entries@[i as int].key@ == key@
                    && self@.contains_key(key@) && self@[key@] == self.entries@[i as int].value,
                None => !self@.contains_key(key@),
            },
    {
        proof {
            use_type_invariant(self);
        }
        let mut i: usize = 0;
        while i < self.entries.len()
            invariant
                i <= self.entries@.len(),
                distinct_keys(self.entries@),
                forall|j: int| 0 <= j < i ==> (#[trigger] self.entries@[j]).key@ != key@,
            decreases self.entries@.len() - i,
        {
            if text::same(self.entries[i].key.as_str(), key) {
                proof {
                    lemma_entry(self.entries@, i as int);
                }
                return Some(i);
            }
            i += 1;
        }
        None
    }

    /// Whether a key occurs.
    pub fn contains_key(&self, key: &str) -> (r: bool)
        ensures
            r == self@.contains_key(key@),
    {
        match self.index_of(key) {
            Some(_) => true,
            None => false,
        }
    }

    /// The value of a key.
    pub fn get(&self, key: &str) -> (r: Option<&V>)
        ensures
            match r {
                Some(value) => self@.contains_key(key@) && *value == self@[key@],
                None => !self@.contains_key(key@),
            },
    {
        match self.index_of(key) {
            Some(i) => Some(&self.entries[i].value),
            None => None,
        }
    }

    /// How many keys there are.
    pub fn len(&self) -> (r: usize)
        ensures
            r == self@.len(),
            self@.dom().finite(),
    {
        proof {
            use_type_invariant(self);
            lemma_size(self.entries@);
        }
        self.entries.len()
    }

    /// Takes a key out of the map.
    pub fn remove(&mut self, key: &str) -> (r: Option<V>)
        ensures
            final(self)@ == old(self)@.remove(key@),
            match r {
                Some(value) => old(self)@.contains_key(key@) && value == old(self)@[key@],
                None => !old(self)@.contains_key(key@),
            },
    {
        proof {
            use_type_invariant(&*self);
        }
        match self.index_of(key) {
            None => {
                assert(old(self)@.remove(key@) =~= old(self)@);
                None
            },
            Some(i) => {
                let mut entries: Vec<TextEntry<V>> = Vec::new();
                std::mem::swap(&mut entries, &mut self.entries);
                let ghost before = entries@;
                let removed = entries.remove(i);
                proof {
                    let after = entries@;
                    assert(after =~= before.remove(i as int));
                    assert(distinct_keys(after)) by {
                        assert forall|a: int, b: int| 0 <= a < b < after.len() implies (
                        #[trigger] after[a]).key@ != (#[trigger] after[b]).key@ by {
                            let x = if a < i {
                                a
                            } else {
                                a + 1
                            };
                            let y = if b < i {
                                b
                            } else {
                                b + 1
                            };
                            assert(before[x].key@ != before[y].key@);
                        }
                    }
                    lemma_removed(before, i as int);
                }
                self.entries = entries;
                Some(removed.value)
            },
        }
    }

    /// Puts a value under a key, in place of the one that was there.
    pub fn insert(&mut self, key: String, value: V)
        ensures
            final(self)@ == old(self)@.insert(key@, value),
    {
        self.remove(key.as_str());
        proof {
            use_type_invariant(&*self);
        }
        let mut entries: Vec<TextEntry<V>> = Vec::new();
        std::mem::swap(&mut entries, &mut self.entries);
        let ghost before = entries@;
        let ghost text = key@;
        let ghost added = value;
        proof {
            assert(!as_map(before).contains_key(text));
            assert(!has_key(before, text));
        }
        entries.push(TextEntry { key, value });
        proof {
            let after = entries@;
            let last = before.len() as int;
            assert(distinct_keys(after)) by {
                assert forall|a: int, b: int| 0 <= a < b < after.len() implies (
                #[trigger] after[a]).key@ != (#[trigger] after[b]).key@ by {
                    assert(after[a] == before[a]);
                    if b < last {
                        assert(after[b] == before[b]);
                    } else if before[a].key@ == text {
                        assert(has_key(before, text));
                    }
                }
            }
            assert forall|k: Seq<char>| #[trigger] as_map(after).contains_key(k) == (as_map(
                before,
            ).contains_key(k) || k == text) by {
                if has_key(before, k) {
                    let at = position(before, k);
                    assert(after[at].key@ == k);
                }
                if k == text {
                    assert(after[last].key@ == text);
                }
                if has_key(after, k) {
                    let at = position(after, k);
                    if at < last {
                        assert(before[at].key@ == k);
                    }
                }
            }
            assert forall|k: Seq<char>| as_map(after).contains_key(k) implies #[trigger] as_map(
                after,
            )[k] == as_map(before).insert(text, added)[k] by {
                if k == text {
                    lemma_entry(after, last);
                } else {
                    let at = position(before, k);
                    assert(has_key(before, k));
                    assert(after[at] == before[at]);
                    lemma_entry(after, at);
                }
            }
            assert(as_map(after) =~= as_map(before).insert(text, added));
            assert(old(self)@.remove(text).insert(text, added) =~= old(self)@.insert(text, added));
        }
        self.entries = entries;
    }

    /// The entries of the map, in an order that is not fixed; each key occurs once.
    pub fn into_entries(self) -> (r: Vec<TextEntry<V>>)
        ensures
            distinct_keys(r@),
            as_map(r@) == self@,
    {
        proof {
            use_type_invariant(&self);
        }
        self.entries
    }
}

proof fn lemma_removed<V>(before: Seq<TextEntry<V>>, i: int)
    requires
        distinct_keys(before),
        0 <= i < before.len(),
    ensures
        as_map(before.remove(i)) == as_map(before).remove(before[i].key@),
{
    let after = before.remove(i);
    let gone = before[i].key@;
    assert(distinct_keys(after)) by {
        assert forall|a: int, b: int| 0 <= a < b < after.len() implies (#[trigger] after[a]).key@
            != (#[trigger] after[b]).key@ by {
            let x = if a < i {
                a
            } else {
                a + 1
            };
            let y = if b < i {
                b
            } else {
                b + 1
            };
            assert(before[x].key@ != before[y].key@);
        }
    }
    assert forall|k: Seq<char>| #[trigger] as_map(after).contains_key(k) == (as_map(
        before,
    ).contains_key(k) && k != gone) by {
        if has_key(after, k) {
            let at = position(after, k);
            let x = if at < i {
                at
            } else {
                at + 1
            };
            assert(before[x].key@ == k);
            if x < i {
                assert(before[x].key@ != before[i].key@);
            } else {
                assert(before[i].key@ != before[x].key@);
            }
        }
        if has_key(before, k) && k != gone {
            let at = position(before, k);
            let x = if at < i {
                at
            } else {
                at - 1
            };
            assert(after[x].key@ == k);
        }
    }
    assert forall|k: Seq<char>| as_map(after).contains_key(k) implies #[trigger] as_map(after)[k]
        == as_map(before)[k] by {
        let at = position(after, k);
        assert(has_key(after, k));
        let x = if at < i {
            at
        } else {
            at + 1
        };
        assert(before[x] == after[at]);
        lemma_entry(before, x);
    }
    assert(as_map(after) =~= as_map(before).remove(gone));
}

proof fn lemma_size<V>(entries: Seq<TextEntry<V>>)
    requires
        distinct_keys(entries),
    ensures
        as_map(entries).dom().finite(),
        as_map(entries).dom().len() == entries.len(),
    decreases entries.len(),
{
    if entries.len() == 0 {
        assert(as_map(entries).dom() =~= Set::empty());
    } else {
        let last = entries.len() - 1;
        let fewer = entries.remove(last);
        lemma_removed(entries, last);
        assert forall|a: int, b: int| 0 <= a < b < fewer.len() implies (#[trigger] fewer[a]).key@
            != (#[trigger] fewer[b]).key@ by {
            assert(entries[a].key@ != entries[b].key@);
        }
        lemma_size(fewer);
        lemma_entry(entries, last);
        assert(as_map(entries).dom() =~= as_map(fewer).dom().insert(entries[last].key@));
    }
}

} // verus!
