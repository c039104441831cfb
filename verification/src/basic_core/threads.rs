//! Threads that are numbered, and kept for a time.

use std::collections::HashMap;
use vstd::prelude::*;
use vstd::std_specs::hash::spec_keys_iter;
use vstd::std_specs::iter::IteratorSpec;
use crate::basic_core::error::CoreError;
use crate::text::{concat, decimal, decimal_of, law_decimal_is_read_back};

verus! {

broadcast use vstd::std_specs::hash::group_hash_axioms;

/// The file that holds the numbers of the threads.
pub const META_JSON_FILENAME: &'static str = "meta.json";

/// The numbers of the threads.
#[derive(Debug)]
pub struct GenerationThreadMeta {
    pub last_id: u64,
    /// When each thread was started.
    pub thread_ids_to_timestamps: HashMap<u64, u64>,
}

/// Keeps account of the threads.
#[derive(Debug)]
pub struct GenerationThreadManager {
    pub meta: Option<GenerationThreadMeta>,
}

/// The name of the file of a thread.
pub fn thread_file_name(id: u64) -> (r: String)
    ensures
        r@ == "thread_"@ + decimal(id as nat) + ".json"@,
{
    let mut r = concat("thread_", decimal_of(id).as_str());
    r.append(".json");
    r
}

/// Whether a thread that was started at that time is kept: it is older than now, and not older than
/// its time to live.
pub open spec fn is_kept(started: u64, now: u64, ttl_secs: u64) -> bool {
    now > started && now - started <= ttl_secs
}

/// The numbers and times of no thread.
pub open spec fn no_threads() -> Map<u64, u64> {
    Map::empty()
}

impl GenerationThreadManager {
    /// The threads, with the time at which each was started.
    pub open spec fn threads(self) -> Map<u64, u64> {
        match self.meta {
            Some(meta) => meta.thread_ids_to_timestamps@,
            None => no_threads(),
        }
    }

    /// The last number that was given away.
    pub open spec fn last_id(self) -> u64 {
        match self.meta {
            Some(meta) => meta.last_id,
            None => 0,
        }
    }

    /// Every thread has a number that was given away.
    pub open spec fn well_formed(self) -> bool {
        forall|id: u64| #[trigger] self.threads().contains_key(id) ==> id <= self.last_id()
    }

    /// The account as it is stored, or an empty one.
    pub fn new(stored: Option<GenerationThreadMeta>) -> (r: Self)
        ensures
            r.meta == stored,
    {
        GenerationThreadManager { meta: stored }
    }

    /// Refuses the number of a thread that there is not.
    pub fn check_thread_exists(&self, thread_id: &u64) -> (r: Result<(), CoreError>)
        ensures
            if self.threads().contains_key(*thread_id) {
                r is Ok
            } else {
                r == Err::<(), _>(CoreError::ThreadNotFound)
            },
    {
        match &self.meta {
            Some(meta) => if meta.thread_ids_to_timestamps.contains_key(thread_id) {
                Ok(())
            } else {
                Err(CoreError::ThreadNotFound)
            },
            None => Err(CoreError::ThreadNotFound),
        }
    }

    /// The numbers of the threads, in no order, if there is an account.
    pub fn get_thread_ids(&self) -> (r: Option<Vec<u64>>)
        ensures
            match r {
                Some(ids) => self.meta is Some && ids@.no_duplicates() && ids@.to_set()
                    == self.threads().dom(),
                None => self.meta is None,
            },
    {
        match &self.meta {
            Some(meta) => {
                let mut ids: Vec<u64> = Vec::new();
                let ghost keys = spec_keys_iter(&meta.thread_ids_to_timestamps).remaining();
                for id in it: meta.thread_ids_to_timestamps.keys()
                    invariant
                        it.seq() == keys,
                        ids@ == keys.unref().take(it.index() as int),
                {
                    ids.push(*id);
                    assert(keys.unref().take(it.index() + 1) =~= keys.unref().take(
                        it.index() as int,
                    ).push(*id));
                }
                assert(keys.unref().take(keys.len() as int) =~= keys.unref());
                assert(ids@.no_duplicates()) by {
                    assert forall|i: int, j: int| 0 <= i < j < ids@.len() implies ids@[i] != ids@[j] by {
                        assert(*keys[i] == ids@[i] && *keys[j] == ids@[j]);
                    }
                }
                Some(ids)
            },
            None => None,
        }
    }

    /// The numbers of the threads that are not kept, in no order.
    pub fn old_thread_ids(&self, now: u64, ttl_secs: u64) -> (r: Vec<u64>)
        ensures
            forall|id: u64|
                #![trigger r@.contains(id)]
                r@.contains(id) <==> self.threads().contains_key(id) && !is_kept(
                    self.threads()[id],
                    now,
                    ttl_secs,
                ),
    {
        let mut old_ids: Vec<u64> = Vec::new();
        let ids = match self.get_thread_ids() {
            Some(ids) => ids,
            None => Vec::new(),
        };
        let ghost threads = self.threads();
        assert(forall|id: u64| #[trigger] ids@.contains(id) <==> threads.contains_key(id)) by {
            if self.meta is Some {
                assert forall|id: u64| #[trigger] ids@.contains(id) <==> threads.contains_key(id) by {
                    assert(ids@.to_set().contains(id) <==> threads.dom().contains(id));
                }
            }
        }
        let mut i: usize = 0;
        while i < ids.len()
            invariant
                i <= ids@.len(),
                threads == self.threads(),
                forall|id: u64| #[trigger] ids@.contains(id) <==> threads.contains_key(id),
                forall|id: u64|
                    #![trigger old_ids@.contains(id)]
                    old_ids@.contains(id) <==> (exists|k: int| 0 <= k < i && #[trigger] ids@[k] == id)
                        && !is_kept(threads[id], now, ttl_secs),
            decreases ids.len() - i,
        {
            let id = ids[i];
            assert(ids@.contains(id));
            let ghost before = old_ids@;
            let mut kept = false;
            if let Some(meta) = &self.meta {
                if let Some(started) = meta.thread_ids_to_timestamps.get(&id) {
                    kept = now > *started && now - *started <= ttl_secs;
                }
            }
            assert(kept == is_kept(threads[id], now, ttl_secs));
            if !kept {
                old_ids.push(id);
            }
            assert forall|x: u64|
                #![trigger old_ids@.contains(x)]
                old_ids@.contains(x) <==> (exists|k: int| 0 <= k < i + 1 && #[trigger] ids@[k] == x)
                    && !is_kept(threads[x], now, ttl_secs) by {
                assert(before.contains(x) <==> (exists|k: int| 0 <= k < i && #[trigger] ids@[k] == x)
                    && !is_kept(threads[x], now, ttl_secs));
                if !kept {
                    assert(old_ids@ =~= before.push(id));
                    assert(old_ids@.contains(x) <==> before.contains(x) || x == id) by {
                        if before.contains(x) {
                            let k = choose|k: int| 0 <= k < before.len() && before[k] == x;
                            assert(old_ids@[k] == x);
                        }
                        assert(old_ids@[before.len() as int] == id);
                    }
                }
                assert(ids@[i as int] == id);
            }
            i = i + 1;
        }
        assert forall|id: u64|
            #![trigger old_ids@.contains(id)]
            old_ids@.contains(id) <==> threads.contains_key(id) && !is_kept(threads[id], now, ttl_secs) by {
            assert(ids@.contains(id) <==> threads.contains_key(id));
        }
        old_ids
    }

    /// Strikes threads off the account.
    pub fn purge(&mut self, ids: &Vec<u64>)
        ensures
            final(self).threads() == old(self).threads().remove_keys(ids@.to_set()),
            final(self).last_id() == old(self).last_id(),
            final(self).meta is Some == old(self).meta is Some,
    {
        let ghost before = self.threads();
        if let Some(meta) = self.meta.take() {
            let mut meta = meta;
            let ghost last_id = meta.last_id;
            let mut i: usize = 0;
            assert(ids@.take(0).to_set() =~= Set::<u64>::empty());
            assert(before.remove_keys(Set::empty()) =~= before);
            while i < ids.len()
                invariant
                    i <= ids@.len(),
                    meta.last_id == last_id,
                    meta.thread_ids_to_timestamps@ == before.remove_keys(ids@.take(i as int).to_set()),
                decreases ids.len() - i,
            {
                let ghost earlier = ids@.take(i as int);
                let _ = meta.thread_ids_to_timestamps.remove(&ids[i]);
                assert(ids@.take(i + 1) =~= earlier.push(ids@[i as int]));
                assert(ids@.take(i + 1).to_set() =~= earlier.to_set().insert(ids@[i as int])) by {
                    assert forall|x: u64| ids@.take(i + 1).to_set().contains(x) <==> earlier.to_set().insert(
                        ids@[i as int],
                    ).contains(x) by {
                        if earlier.contains(x) {
                            let k = choose|k: int| 0 <= k < earlier.len() && earlier[k] == x;
                            assert(ids@.take(i + 1)[k] == x);
                        }
                        assert(ids@.take(i + 1)[i as int] == ids@[i as int]);
                    }
                }
                assert(meta.thread_ids_to_timestamps@ =~= before.remove_keys(
                    ids@.take(i + 1).to_set(),
                ));
                i = i + 1;
            }
            assert(ids@.take(ids@.len() as int) =~= ids@);
            self.meta = Some(meta);
        } else {
            assert(before.remove_keys(ids@.to_set()) =~= before);
            self.meta = None;
        }
    }

    /// Gives the next number away, for a thread that is started at that time.
    pub fn new_thread_id(&mut self, now: u64) -> (r: u64)
        requires
            old(self).last_id() < u64::MAX,
        ensures
            r == old(self).last_id() + 1,
            final(self).last_id() == r,
            final(self).threads() == old(self).threads().insert(r, now),
            final(self).threads().contains_key(r) && final(self).threads()[r] == now,
    {
        let mut meta = match self.meta.take() {
            Some(meta) => meta,
            None => GenerationThreadMeta { last_id: 0, thread_ids_to_timestamps: HashMap::new() },
        };
        let new_id: u64 = meta.last_id + 1;
        meta.last_id = new_id;
        let _ = meta.thread_ids_to_timestamps.insert(new_id, now);
        self.meta = Some(meta);
        new_id
    }
}

// ---------------------------------------------------------------------------------------------
// Laws.

/// A number is given away once: the number of a new thread was not that of any thread before, and
/// every thread that there was is still there.
pub proof fn law_new_number_is_new(before: GenerationThreadManager, after: GenerationThreadManager, now: u64)
    requires
        before.well_formed(),
        before.last_id() < u64::MAX,
        after.last_id() == before.last_id() + 1,
        after.threads() == before.threads().insert(after.last_id(), now),
    ensures
        after.well_formed(),
        !before.threads().contains_key(after.last_id()),
        after.threads().contains_key(after.last_id()),
        forall|id: u64| #[trigger]
            before.threads().contains_key(id) ==> after.threads().contains_key(id)
                && after.threads()[id] == before.threads()[id],
{
    if before.threads().contains_key(after.last_id()) {
        assert(after.last_id() <= before.last_id());
    }
    assert forall|id: u64| #[trigger] after.threads().contains_key(id) implies id <= after.last_id() by {
        if id != after.last_id() {
            assert(before.threads().contains_key(id));
        }
    }
}

/// After the old threads are struck off, exactly those are left that are kept, and no number comes
/// free.
pub proof fn law_only_old_threads_go(
    before: GenerationThreadManager,
    after: GenerationThreadManager,
    old_ids: Seq<u64>,
    now: u64,
    ttl_secs: u64,
)
    requires
        before.well_formed(),
        forall|id: u64|
            #![trigger old_ids.contains(id)]
            old_ids.contains(id) <==> before.threads().contains_key(id) && !is_kept(
                before.threads()[id],
                now,
                ttl_secs,
            ),
        after.threads() == before.threads().remove_keys(old_ids.to_set()),
        after.last_id() == before.last_id(),
    ensures
        after.well_formed(),
        forall|id: u64| #[trigger]
            after.threads().contains_key(id) <==> before.threads().contains_key(id) && is_kept(
                before.threads()[id],
                now,
                ttl_secs,
            ),
{
    assert forall|id: u64| #[trigger] after.threads().contains_key(id) <==> before.threads().contains_key(id)
        && is_kept(before.threads()[id], now, ttl_secs) by {
        assert(old_ids.to_set().contains(id) <==> old_ids.contains(id));
    }
    assert forall|id: u64| #[trigger] after.threads().contains_key(id) implies id <= after.last_id() by {
        assert(before.threads().contains_key(id));
    }
}

/// A thread is kept from the second after its start until its time to live is over, and not before or
/// after.
pub proof fn law_thread_is_kept_for_its_time(started: u64, now: u64, ttl_secs: u64, age: int)
    requires
        now == started + age,
    ensures
        0 < age <= ttl_secs ==> is_kept(started, now, ttl_secs),
        age <= 0 || age > ttl_secs ==> !is_kept(started, now, ttl_secs),
{
}

/// Threads have files of their own, named by their ids.
pub proof fn law_threads_have_their_own_files(id: u64, other: u64, r: String, s: String)
    requires
        call_ensures(thread_file_name, (id,), r),
        call_ensures(thread_file_name, (other,), s),
    ensures
        r@ == s@ <==> id == other,
        r@.take(7) == seq!['t', 'h', 'r', 'e', 'a', 'd', '_'],
        r@.subrange(7, r@.len() - 5) == decimal(id as nat),
        r@.skip(r@.len() - 5) == seq!['.', 'j', 's', 'o', 'n'],
{
    reveal_strlit("thread_");
    reveal_strlit(".json");
    assert(r@.take(7) =~= seq!['t', 'h', 'r', 'e', 'a', 'd', '_']);
    assert(r@.subrange(7, r@.len() - 5) =~= decimal(id as nat));
    assert(s@.subrange(7, s@.len() - 5) =~= decimal(other as nat));
    assert(r@.skip(r@.len() - 5) =~= seq!['.', 'j', 's', 'o', 'n']);
    law_decimal_is_read_back(id as nat);
    law_decimal_is_read_back(other as nat);
}

} // verus!
