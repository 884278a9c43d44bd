//! A bounded key-value store with least-recently-used eviction.

use crate::assoc::{
    keys_of, lemma_after_insert, lemma_after_remove, lemma_remove_value_absent, lemma_remove_value_at,
    lemma_slots_of, slots_of,
};
use std::collections::VecDeque;
use vstd::prelude::*;

verus! {

/// The number of entries the cache holds at most.
pub const LRU_MAX_SIZE: usize = 100;

/// What a cache holds, as mathematics: the keys in order of use and the value
/// stored under each key.
pub struct CacheModel {
    /// The keys from the most recently used to the least recently used.
    pub recency: Seq<Seq<char>>,
    /// The value stored under each key.
    pub entries: Map<Seq<char>, Seq<char>>,
}

impl CacheModel {
    /// The cache with nothing in it.
    pub open spec fn empty() -> CacheModel {
        CacheModel { recency: Seq::empty(), entries: Map::empty() }
    }

    /// Every key is tracked once, the tracked keys are exactly the stored
    /// ones, and the capacity is respected.
    pub open spec fn wf(self) -> bool {
        &&& self.recency.no_duplicates()
        &&& self.recency.len() <= LRU_MAX_SIZE
        &&& self.entries.dom() =~= self.recency.to_set()
    }

    /// The number of entries.
    pub open spec fn len(self) -> nat {
        self.recency.len()
    }

    /// The value stored under `key`, if there is one.
    pub open spec fn lookup(self, key: Seq<char>) -> Option<Seq<char>> {
        if self.entries.contains_key(key) {
            Some(self.entries[key])
        } else {
            None
        }
    }

    /// The order of use after `key` was used: `key` in front, the other keys
    /// behind it in the order they had.
    pub open spec fn promoted(self, key: Seq<char>) -> Seq<Seq<char>> {
        seq![key] + self.recency.remove_value(key)
    }

    /// The cache after a read of `key`: a key that is present moves to the
    /// front, and a read of an absent key changes nothing.
    pub open spec fn touch(self, key: Seq<char>) -> CacheModel {
        if self.entries.contains_key(key) {
            CacheModel { recency: self.promoted(key), entries: self.entries }
        } else {
            self
        }
    }

    /// The key that leaves when `key` is written: the least recently used
    /// one, and only when the write would exceed the capacity.
    pub open spec fn evicted(self, key: Seq<char>) -> Option<Seq<char>> {
        if self.promoted(key).len() > LRU_MAX_SIZE {
            Some(self.promoted(key).last())
        } else {
            None
        }
    }

    /// The cache after `value` was written under `key`: the key moves to the
    /// front with its new value, and the least recently used entry leaves if
    /// the capacity would be exceeded otherwise.
    pub open spec fn insert(self, key: Seq<char>, value: Seq<char>) -> CacheModel {
        match self.evicted(key) {
            Some(victim) => CacheModel {
                recency: self.promoted(key).drop_last(),
                entries: self.entries.insert(key, value).remove(victim),
            },
            None => CacheModel {
                recency: self.promoted(key),
                entries: self.entries.insert(key, value),
            },
        }
    }
}

/// A fixed-capacity cache of text values under text keys. The entry that was
/// read or written longest ago leaves when a new key would exceed the capacity.
pub struct LRU {
    /// The entries, most recently used first.
    queue: VecDeque<(String, String)>,
}

impl View for LRU {
    type V = CacheModel;

    closed spec fn view(&self) -> CacheModel {
        CacheModel {
            recency: keys_of(self.queue@),
            entries: slots_of(self.queue@).map_values(|value: String| value@),
        }
    }
}

impl LRU {
    #[verifier::type_invariant]
    spec fn inv(&self) -> bool {
        &&& keys_of(self.queue@).no_duplicates()
        &&& self.queue@.len() <= LRU_MAX_SIZE
    }

    /// An empty cache.
    pub fn new() -> (cache: Self)
        ensures
            cache@ == CacheModel::empty(),
            cache@.wf(),
    {
        let cache = LRU { queue: VecDeque::with_capacity(LRU_MAX_SIZE) };
        proof {
            lemma_slots_of(cache.queue@);
            assert(cache@.recency =~= Seq::empty());
            assert(cache@.entries =~= Map::empty());
        }
        cache
    }

    /// Where `key` stands in the queue, if it is there.
    fn position(&self, key: &String) -> (found: Option<usize>)
        ensures
            match found {
                Some(i) => i < self.queue@.len() && self.queue@[i as int].0@ == key@,
                None => !keys_of(self.queue@).contains(key@),
            },
    {
        let mut i: usize = 0;
        while i < self.queue.len()
            invariant
                i <= self.queue@.len(),
                forall|j: int| 0 <= j < i ==> self.queue@[j].0@ != key@,
            decreases self.queue@.len() - i,
        {
            if self.queue[i].0 == *key {
                return Some(i);
            }
            i += 1;
        }
        proof {
            let keys = keys_of(self.queue@);
            assert forall|j: int| 0 <= j < keys.len() implies keys[j] != key@ by {
                assert(self.queue@[j].0@ != key@);
            }
        }
        None
    }

    /// Reads the value stored under `key`. A key that is present becomes the
    /// most recently used one; a read of an absent key changes nothing.
    pub fn get(&mut self, key: String) -> (value: Option<String>)
        ensures
            old(self)@.wf(),
            final(self)@.wf(),
            final(self)@ == old(self)@.touch(key@),
            match value {
                Some(text) => old(self)@.lookup(key@) == Some(text@),
                None => old(self)@.lookup(key@).is_none(),
            },
    {
        proof {
            use_type_invariant(&*self);
            lemma_slots_of(self.queue@);
        }
        let ghost before = self.queue@;
        match self.position(&key) {
            None => None,
            Some(i) => {
                proof {
                    lemma_remove_value_at(keys_of(before), key@, i as int);
                    lemma_after_remove(before, i as int);
                    lemma_after_insert(before.remove(i as int), 0, before[i as int]);
                    assert(before.remove(i as int).insert(0, before[i as int]) =~= seq![before[i as int]]
                        + before.remove(i as int));
                }
                let mut queue: VecDeque<(String, String)> = VecDeque::new();
                std::mem::swap(&mut queue, &mut self.queue);
                let value = match queue.remove(i) {
                    None => None,
                    Some(entry) => {
                        let value = entry.1.clone();
                        queue.push_front(entry);
                        Some(value)
                    },
                };
                self.queue = queue;
                proof {
                    lemma_slots_of(self.queue@);
                    assert(self@.recency =~= old(self)@.promoted(key@));
                    assert(self@.entries =~= old(self)@.entries);
                }
                value
            },
        }
    }

    /// Stores `value` under `key` and makes `key` the most recently used one.
    /// When the key is new and the cache is full, the least recently used
    /// entry leaves first.
    pub fn insert(&mut self, key: String, value: String)
        ensures
            old(self)@.wf(),
            final(self)@.wf(),
            final(self)@ == old(self)@.insert(key@, value@),
    {
        proof {
            use_type_invariant(&*self);
            lemma_slots_of(self.queue@);
        }
        let ghost before = self.queue@;
        let ghost entry = (key, value);
        let found = self.position(&key);
        let mut queue: VecDeque<(String, String)> = VecDeque::new();
        std::mem::swap(&mut queue, &mut self.queue);
        match found {
            Some(i) => {
                proof {
                    lemma_remove_value_at(keys_of(before), key@, i as int);
                    lemma_after_remove(before, i as int);
                }
                let _ = queue.remove(i);
            },
            None => {
                proof {
                    lemma_remove_value_absent(keys_of(before), key@);
                }
                if queue.len() >= LRU_MAX_SIZE {
                    proof {
                        let last = before.len() - 1;
                        lemma_after_remove(before, last);
                        assert(before.remove(last) =~= before.subrange(0, last));
                        assert(keys_of(before).remove(last) =~= keys_of(before).drop_last());
                        assert(keys_of(before).contains(keys_of(before)[last]));
                        assert(!keys_of(before.remove(last)).contains(key@)) by {
                            let rest = keys_of(before.remove(last));
                            assert forall|a: int| 0 <= a < rest.len() implies rest[a] != key@ by {
                                assert(rest[a] == keys_of(before)[a]);
                                assert(keys_of(before).contains(rest[a]));
                            }
                        }
                    }
                    let _ = queue.pop_back();
                }
            },
        }
        proof {
            lemma_after_insert(queue@, 0, entry);
            assert(queue@.insert(0, entry) =~= seq![entry] + queue@);
        }
        queue.push_front((key, value));
        self.queue = queue;
        proof {
            let expected = old(self)@.insert(key@, value@);
            assert(self@.recency =~= expected.recency);
            assert(self@.entries =~= expected.entries);
            lemma_slots_of(self.queue@);
        }
    }

    /// The number of entries.
    pub fn len(&self) -> (count: usize)
        ensures
            count == self@.len(),
            self@.wf(),
    {
        proof {
            use_type_invariant(self);
            lemma_slots_of(self.queue@);
        }
        self.queue.len()
    }

    /// The keys from the most recently used to the least recently used.
    pub fn keys(&self) -> (keys: Vec<String>)
        ensures
            keys@.len() == self@.recency.len(),
            forall|i: int| 0 <= i < keys@.len() ==> #[trigger] keys@[i]@ == self@.recency[i],
    {
        let mut keys: Vec<String> = Vec::new();
        let mut i: usize = 0;
        while i < self.queue.len()
            invariant
                i <= self.queue@.len(),
                keys@.len() == i,
                forall|j: int| 0 <= j < i ==> #[trigger] keys@[j]@ == self.queue@[j].0@,
            decreases self.queue@.len() - i,
        {
            keys.push(self.queue[i].0.clone());
            i += 1;
        }
        keys
    }
}

/// What a cache holds after a run of writes, the first of `writes` first.
pub open spec fn written(cache: CacheModel, writes: Seq<(Seq<char>, Seq<char>)>) -> CacheModel
    decreases writes.len(),
{
    if writes.len() == 0 {
        cache
    } else {
        written(cache, writes.drop_last()).insert(writes.last().0, writes.last().1)
    }
}

/// The shape of the order of use after `key` was used.
proof fn lemma_promoted(cache: CacheModel, key: Seq<char>)
    requires
        cache.wf(),
    ensures
        cache.promoted(key).no_duplicates(),
        cache.promoted(key)[0] == key,
        cache.promoted(key).to_set() =~= cache.recency.to_set().insert(key),
        cache.entries.contains_key(key) ==> cache.promoted(key).len() == cache.recency.len(),
        !cache.entries.contains_key(key) ==> cache.promoted(key) == seq![key] + cache.recency,
        cache.recency.len() > 0 && cache.recency.last() != key ==> cache.promoted(key).last()
            == cache.recency.last(),
{
    let order = cache.recency;
    let bumped = cache.promoted(key);
    assert(cache.entries.dom().contains(key) == order.to_set().contains(key));
    if order.contains(key) {
        let i = order.index_of(key);
        lemma_remove_value_at(order, key, i);
        let rest = order.remove(i);
        assert(bumped =~= seq![key] + rest);
        assert forall|a: int| 0 <= a < rest.len() implies rest[a] != key && order.contains(rest[a]) by {
            let a2 = if a < i { a } else { a + 1 };
            assert(rest[a] == order[a2]);
        }
        assert forall|a: int, b: int| 0 <= a < bumped.len() && 0 <= b < bumped.len() && a != b implies bumped[a]
            != bumped[b] by {
            if a > 0 && b > 0 {
                let a2 = if a - 1 < i { a - 1 } else { a };
                let b2 = if b - 1 < i { b - 1 } else { b };
                assert(bumped[a] == order[a2] && bumped[b] == order[b2]);
            } else if a > 0 {
                assert(bumped[a] == rest[a - 1]);
            } else {
                assert(bumped[b] == rest[b - 1]);
            }
        }
        assert forall|k: Seq<char>| #[trigger]
            bumped.to_set().contains(k) == order.to_set().insert(key).contains(k) by {
            if bumped.contains(k) {
                let j = bumped.index_of(k);
                if j > 0 {
                    assert(bumped[j] == rest[j - 1]);
                }
            }
            if order.contains(k) && k != key {
                let j = order.index_of(k);
                let j2 = if j < i { j + 1 } else { j };
                assert(bumped[j2] == order[j]);
            }
            if k == key {
                assert(bumped[0] == key);
            }
        }
        if order.last() != key {
            assert(i != order.len() - 1);
            assert(bumped[bumped.len() - 1] == order[order.len() - 1]);
        }
    } else {
        lemma_remove_value_absent(order, key);
        assert(bumped =~= seq![key] + order);
        assert forall|a: int, b: int| 0 <= a < bumped.len() && 0 <= b < bumped.len() && a != b implies bumped[a]
            != bumped[b] by {
            if a > 0 {
                assert(bumped[a] == order[a - 1]);
                assert(order.contains(bumped[a]));
            }
            if b > 0 {
                assert(bumped[b] == order[b - 1]);
                assert(order.contains(bumped[b]));
            }
        }
        assert forall|k: Seq<char>| #[trigger]
            bumped.to_set().contains(k) == order.to_set().insert(key).contains(k) by {
            if bumped.contains(k) {
                let j = bumped.index_of(k);
                if j > 0 {
                    assert(bumped[j] == order[j - 1]);
                }
            }
            if order.contains(k) {
                let j = order.index_of(k);
                assert(bumped[j + 1] == order[j]);
            }
            if k == key {
                assert(bumped[0] == key);
            }
        }
        if order.len() > 0 {
            assert(bumped[bumped.len() - 1] == order[order.len() - 1]);
        }
    }
}

/// A read keeps a cache well formed.
pub proof fn touch_keeps_wf(cache: CacheModel, key: Seq<char>)
    requires
        cache.wf(),
    ensures
        cache.touch(key).wf(),
        cache.touch(key).entries == cache.entries,
        cache.touch(key).len() == cache.len(),
{
    lemma_promoted(cache, key);
    if cache.entries.contains_key(key) {
        assert(cache.recency.to_set().insert(key) =~= cache.recency.to_set());
    }
}

/// A write keeps a cache well formed: the capacity holds, and the keys in
/// the order of use are exactly the keys that have a value.
pub proof fn insert_keeps_wf(cache: CacheModel, key: Seq<char>, value: Seq<char>)
    requires
        cache.wf(),
    ensures
        cache.insert(key, value).wf(),
        cache.insert(key, value).len() <= LRU_MAX_SIZE,
        cache.insert(key, value).entries.dom() =~= cache.insert(key, value).recency.to_set(),
{
    lemma_promoted(cache, key);
    let bumped = cache.promoted(key);
    let after = cache.insert(key, value);
    if bumped.len() > LRU_MAX_SIZE {
        let victim = bumped.last();
        let kept = bumped.drop_last();
        assert forall|k: Seq<char>| #[trigger]
            kept.to_set().contains(k) == bumped.to_set().remove(victim).contains(k) by {
            if kept.contains(k) {
                let j = kept.index_of(k);
                assert(kept[j] == bumped[j]);
                assert(bumped.contains(k));
            }
            if bumped.contains(k) && k != victim {
                let j = bumped.index_of(k);
                assert(kept[j] == bumped[j]);
            }
        }
        assert(after.entries.dom() =~= after.recency.to_set());
        assert forall|a: int, b: int| 0 <= a < kept.len() && 0 <= b < kept.len() && a != b implies kept[a]
            != kept[b] by {
            assert(kept[a] == bumped[a] && kept[b] == bumped[b]);
        }
    } else {
        assert(after.entries.dom() =~= after.recency.to_set());
    }
}

/// However many writes were made, and whatever they wrote, the cache holds at
/// most `LRU_MAX_SIZE` entries, and the keys in its order of use are exactly
/// the keys that have a value.
pub proof fn capacity_holds_after_writes(writes: Seq<(Seq<char>, Seq<char>)>)
    ensures
        written(CacheModel::empty(), writes).wf(),
        written(CacheModel::empty(), writes).len() <= LRU_MAX_SIZE,
        written(CacheModel::empty(), writes).entries.dom() =~= written(
            CacheModel::empty(),
            writes,
        ).recency.to_set(),
    decreases writes.len(),
{
    if writes.len() == 0 {
        assert(CacheModel::empty().entries.dom() =~= CacheModel::empty().recency.to_set());
    } else {
        capacity_holds_after_writes(writes.drop_last());
        insert_keeps_wf(
            written(CacheModel::empty(), writes.drop_last()),
            writes.last().0,
            writes.last().1,
        );
    }
}

/// Writing a new key into a full cache evicts the least recently used key and
/// nothing else: that key is gone, every other entry is still there with its
/// value, the new entry is there, and the cache is still full.
pub proof fn full_cache_evicts_least_recent(cache: CacheModel, key: Seq<char>, value: Seq<char>)
    requires
        cache.wf(),
        cache.len() == LRU_MAX_SIZE,
        !cache.entries.contains_key(key),
    ensures
        cache.evicted(key) == Some(cache.recency.last()),
        !cache.insert(key, value).entries.contains_key(cache.recency.last()),
        cache.insert(key, value).lookup(key) == Some(value),
        cache.insert(key, value).len() == LRU_MAX_SIZE,
        forall|other: Seq<char>|
            cache.entries.contains_key(other) && other != cache.recency.last() ==> #[trigger] cache.insert(
                key,
                value,
            ).lookup(other) == cache.lookup(other),
{
    lemma_promoted(cache, key);
    let victim = cache.recency.last();
    assert(cache.recency.contains(victim));
    assert(cache.entries.dom().contains(victim));
}

/// A write that does not fill the cache beyond its capacity evicts nothing:
/// every entry that was there is still there with its value.
pub proof fn write_without_pressure_evicts_nothing(
    cache: CacheModel,
    key: Seq<char>,
    value: Seq<char>,
)
    requires
        cache.wf(),
        cache.entries.contains_key(key) || cache.len() < LRU_MAX_SIZE,
    ensures
        cache.evicted(key).is_none(),
        cache.insert(key, value).entries == cache.entries.insert(key, value),
{
    lemma_promoted(cache, key);
}

/// A written key is the most recently used one, and a read finds the value
/// written.
pub proof fn written_key_is_in_front(cache: CacheModel, key: Seq<char>, value: Seq<char>)
    requires
        cache.wf(),
    ensures
        cache.insert(key, value).recency[0] == key,
        cache.insert(key, value).lookup(key) == Some(value),
{
    lemma_promoted(cache, key);
    let bumped = cache.promoted(key);
    if bumped.len() > LRU_MAX_SIZE {
        assert(bumped[0] == key);
        assert(bumped.last() == bumped[bumped.len() - 1]);
    }
}

/// A read of a present key makes it the most recently used one, so that it is
/// not the next to be evicted while the cache holds another key, and the key
/// that was the least recently used stays so unless it is the one read.
pub proof fn read_promotes(cache: CacheModel, key: Seq<char>)
    requires
        cache.wf(),
        cache.entries.contains_key(key),
    ensures
        cache.touch(key).recency[0] == key,
        cache.len() >= 2 ==> cache.touch(key).recency.last() != key,
        cache.recency.last() != key ==> cache.touch(key).recency.last() == cache.recency.last(),
{
    lemma_promoted(cache, key);
    let bumped = cache.promoted(key);
    if cache.len() >= 2 {
        assert(bumped[0] == key);
        assert(bumped[bumped.len() - 1] == bumped.last());
    }
    if cache.recency.last() != key {
        assert(cache.recency.contains(key));
    }
}

/// Writing a key again changes its value and not the number of entries, and
/// a read then finds the value written last.
pub proof fn rewrite_keeps_size(
    cache: CacheModel,
    key: Seq<char>,
    first: Seq<char>,
    second: Seq<char>,
)
    requires
        cache.wf(),
    ensures
        cache.insert(key, first).insert(key, second).len() == cache.insert(key, first).len(),
        cache.insert(key, first).insert(key, second).lookup(key) == Some(second),
        cache.insert(key, first).insert(key, second).entries.dom() =~= cache.insert(
            key,
            first,
        ).entries.dom(),
        cache.entries.contains_key(key) ==> cache.insert(key, first).len() == cache.len(),
{
    lemma_promoted(cache, key);
    insert_keeps_wf(cache, key, first);
    let once = cache.insert(key, first);
    assert(once.recency[0] == key);
    assert(once.recency.contains(key));
    assert(once.entries.dom().contains(key));
    lemma_promoted(once, key);
    assert(once.entries.insert(key, second).dom() =~= once.entries.dom());
}

} // verus!
