//! What is waited for, by name.

use vstd::prelude::*;
use crate::text::same;

verus! {

/// Something that is waited for, with its name.
#[derive(Debug)]
pub struct Entry<T> {
    pub key: String,
    pub value: T,
}

/// The things that are waited for. No name stands twice.
#[derive(Debug)]
pub struct Pending<T> {
    pub entries: Vec<Entry<T>>,
}

/// Where a name stands.
pub open spec fn index_of<T>(entries: Seq<Entry<T>>, key: Seq<char>) -> Option<int>
    decreases entries.len(),
{
    if entries.len() == 0 {
        None
    } else if entries.last().key@ == key {
        Some(entries.len() - 1)
    } else {
        index_of(entries.drop_last(), key)
    }
}

/// The things by name.
pub open spec fn by_key<T>(entries: Seq<Entry<T>>) -> Map<Seq<char>, T> {
    Map::new(
        |key: Seq<char>| index_of(entries, key) is Some,
        |key: Seq<char>| entries[index_of(entries, key)->0].value,
    )
}

/// Whether no name stands twice.
pub open spec fn keys_differ<T>(entries: Seq<Entry<T>>) -> bool {
    forall|i: int, j: int|
        0 <= i < j < entries.len() ==> (#[trigger] entries[i]).key@ != (#[trigger] entries[j]).key@
}

proof fn lemma_index_of<T>(entries: Seq<Entry<T>>, key: Seq<char>)
    ensures
        match index_of(entries, key) {
            Some(i) => 0 <= i < entries.len() && entries[i].key@ == key,
            None => forall|i: int| 0 <= i < entries.len() ==> (#[trigger] entries[i]).key@ != key,
        },
    decreases entries.len(),
{
    if entries.len() > 0 && entries.last().key@ != key {
        lemma_index_of(entries.drop_last(), key);
        if index_of(entries.drop_last(), key) is None {
            assert forall|i: int| 0 <= i < entries.len() implies (#[trigger] entries[i]).key@ != key by {
                if i < entries.len() - 1 {
                    assert(entries.drop_last()[i] == entries[i]);
                }
            }
        }
    }
}

proof fn lemma_index_is<T>(entries: Seq<Entry<T>>, i: int)
    requires
        keys_differ(entries),
        0 <= i < entries.len(),
    ensures
        index_of(entries, entries[i].key@) == Some(i),
{
    lemma_index_of(entries, entries[i].key@);
    let found = index_of(entries, entries[i].key@);
    match found {
        Some(k) => {
            if k < i {
                assert(entries[k].key@ != entries[i].key@);
            }
            if i < k {
                assert(entries[i].key@ != entries[k].key@);
            }
        },
        None => {
            assert(entries[i].key@ != entries[i].key@);
        },
    }
}

proof fn lemma_set<T>(before: Seq<Entry<T>>, i: int, entry: Entry<T>)
    requires
        keys_differ(before),
        0 <= i < before.len(),
        before[i].key@ == entry.key@,
    ensures
        keys_differ(before.update(i, entry)),
        by_key(before.update(i, entry)) == by_key(before).insert(entry.key@, entry.value),
{
    let after = before.update(i, entry);
    assert forall|a: int, b: int| 0 <= a < b < after.len() implies (#[trigger] after[a]).key@ != (
    #[trigger] after[b]).key@ by {
        assert(after[a].key@ == before[a].key@);
        assert(after[b].key@ == before[b].key@);
    }
    assert forall|key: Seq<char>| #[trigger] index_of(after, key) == index_of(before, key) by {
        lemma_index_of(before, key);
        lemma_index_of(after, key);
        match index_of(before, key) {
            Some(k) => {
                assert(after[k].key@ == key);
                lemma_index_is(after, k);
            },
            None => {
                if index_of(after, key) is Some {
                    let k = index_of(after, key)->0;
                    assert(before[k].key@ == after[k].key@);
                }
            },
        }
    }
    lemma_index_is(before, i);
    assert(by_key(after) =~= by_key(before).insert(entry.key@, entry.value)) by {
        assert forall|key: Seq<char>| by_key(before).contains_key(key) && key != entry.key@ implies
            #[trigger] by_key(after)[key] == by_key(before)[key] by {
            lemma_index_of(before, key);
            assert(index_of(after, key) == index_of(before, key));
        }
        assert(index_of(after, entry.key@) == Some(i));
        assert forall|key: Seq<char>| #[trigger] by_key(after).contains_key(key) == (by_key(
            before,
        ).contains_key(key) || key == entry.key@) by {
            assert(index_of(after, key) == index_of(before, key));
        }
    }
}

proof fn lemma_add<T>(before: Seq<Entry<T>>, entry: Entry<T>)
    requires
        keys_differ(before),
        forall|i: int| 0 <= i < before.len() ==> (#[trigger] before[i]).key@ != entry.key@,
    ensures
        keys_differ(before.push(entry)),
        by_key(before.push(entry)) == by_key(before).insert(entry.key@, entry.value),
{
    let after = before.push(entry);
    assert forall|a: int, b: int| 0 <= a < b < after.len() implies (#[trigger] after[a]).key@ != (
    #[trigger] after[b]).key@ by {
        assert(after[a] == before[a]);
        if b < before.len() {
            assert(after[b] == before[b]);
        }
    }
    assert(after.drop_last() =~= before);
    assert forall|key: Seq<char>| #[trigger] index_of(after, key) == (if key == entry.key@ {
        Some(before.len() as int)
    } else {
        index_of(before, key)
    }) by {}
    assert(by_key(after) =~= by_key(before).insert(entry.key@, entry.value)) by {
        assert forall|key: Seq<char>| #[trigger] by_key(after).contains_key(key) == (by_key(
            before,
        ).contains_key(key) || key == entry.key@) by {
            assert(index_of(after, key) is Some == (key == entry.key@ || index_of(before, key) is Some));
        }
        assert forall|key: Seq<char>| by_key(before).contains_key(key) && key != entry.key@ implies
            #[trigger] by_key(after)[key] == by_key(before)[key] by {
            lemma_index_of(before, key);
            assert(index_of(after, key) == index_of(before, key));
        }
    }
}

proof fn lemma_remove<T>(before: Seq<Entry<T>>, i: int)
    requires
        keys_differ(before),
        0 <= i < before.len(),
    ensures
        keys_differ(before.remove(i)),
        by_key(before.remove(i)) == by_key(before).remove(before[i].key@),
{
    let after = before.remove(i);
    let gone = before[i].key@;
    assert forall|a: int, b: int| 0 <= a < b < after.len() implies (#[trigger] after[a]).key@ != (
    #[trigger] after[b]).key@ by {
        assert(after[a] == before[if a < i { a } else { a + 1 }]);
        assert(after[b] == before[if b < i { b } else { b + 1 }]);
    }
    assert forall|key: Seq<char>| #[trigger] by_key(after).contains_key(key) == (by_key(
        before,
    ).contains_key(key) && key != gone) by {
        lemma_index_of(before, key);
        lemma_index_of(after, key);
        lemma_index_is(before, i);
        if index_of(after, key) is Some {
            let k = index_of(after, key)->0;
            let p = if k < i { k } else { k + 1 };
            assert(after[k] == before[p]);
            lemma_index_is(before, p);
        }
        if index_of(before, key) is Some && key != gone {
            let p = index_of(before, key)->0;
            let k = if p < i { p } else { p - 1 };
            assert(after[k] == before[p]);
            lemma_index_is(after, k);
        }
    }
    assert forall|key: Seq<char>| by_key(before).contains_key(key) && key != gone implies #[trigger] by_key(
        after,
    )[key] == by_key(before)[key] by {
        lemma_index_of(before, key);
        let p = index_of(before, key)->0;
        let k = if p < i { p } else { p - 1 };
        assert(p != i);
        assert(after[k] == before[p]);
        lemma_index_is(after, k);
    }
    assert(by_key(after) =~= by_key(before).remove(gone));
}

impl<T> Pending<T> {
    /// The things by name.
    pub open spec fn content(self) -> Map<Seq<char>, T> {
        by_key(self.entries@)
    }

    /// Whether no name stands twice.
    pub open spec fn well_formed(self) -> bool {
        keys_differ(self.entries@)
    }

    /// Nothing is waited for.
    pub fn new() -> (r: Self)
        ensures
            r.well_formed(),
            r.content() == Map::<Seq<char>, T>::empty(),
    {
        let r = Pending { entries: Vec::new() };
        assert(r.content() =~= Map::<Seq<char>, T>::empty());
        r
    }

    fn find(&self, key: &str) -> (r: Option<usize>)
        requires
            self.well_formed(),
        ensures
            match r {
                Some(i) => i < self.entries@.len() && self.entries@[i as int].key@ == key@ && index_of(
                    self.entries@,
                    key@,
                ) == Some(i as int),
                None => index_of(self.entries@, key@) is None && forall|i: int|
                    0 <= i < self.entries@.len() ==> (#[trigger] self.entries@[i]).key@ != key@,
            },
    {
        let mut i: usize = 0;
        while i < self.entries.len()
            invariant
                self.well_formed(),
                i <= self.entries@.len(),
                forall|k: int| 0 <= k < i ==> (#[trigger] self.entries@[k]).key@ != key@,
            decreases self.entries.len() - i,
        {
            if same(self.entries[i].key.as_str(), key) {
                proof {
                    lemma_index_is(self.entries@, i as int);
                }
                return Some(i);
            }
            i = i + 1;
        }
        proof {
            lemma_index_of(self.entries@, key@);
        }
        None
    }

    /// Waits for one more thing, in place of one with the same name.
    pub fn insert(&mut self, key: String, value: T)
        requires
            old(self).well_formed(),
        ensures
            final(self).well_formed(),
            final(self).content() == old(self).content().insert(key@, value),
    {
        let ghost before = self.entries@;
        match self.find(key.as_str()) {
            Some(i) => {
                let entry = Entry { key, value };
                proof {
                    lemma_set(before, i as int, entry);
                }
                self.entries.set(i, entry);
            },
            None => {
                let entry = Entry { key, value };
                proof {
                    lemma_add(before, entry);
                }
                self.entries.push(entry);
            },
        }
    }

    /// Takes out what is waited for under a name.
    pub fn remove(&mut self, key: &str) -> (r: Option<T>)
        requires
            old(self).well_formed(),
        ensures
            final(self).well_formed(),
            final(self).content() == old(self).content().remove(key@),
            r == (if old(self).content().contains_key(key@) {
                Some(old(self).content()[key@])
            } else {
                None
            }),
    {
        let ghost before = self.entries@;
        match self.find(key) {
            Some(i) => {
                proof {
                    lemma_remove(before, i as int);
                }
                let entry = self.entries.remove(i);
                Some(entry.value)
            },
            None => {
                assert(self.content() =~= self.content().remove(key@));
                None
            },
        }
    }
}

} // verus!
