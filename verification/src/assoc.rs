//! Lists of entries under text keys, read as maps.

use vstd::prelude::*;

verus! {

/// The keys of a list of entries, in the list's order.
pub open spec fn keys_of<V>(list: Seq<(String, V)>) -> Seq<Seq<char>> {
    Seq::new(list.len(), |i: int| list[i].0@)
}

/// The map from each key of a list of entries to what stands beside it.
pub open spec fn slots_of<V>(list: Seq<(String, V)>) -> Map<Seq<char>, V> {
    Map::new(
        |key: Seq<char>| keys_of(list).contains(key),
        |key: Seq<char>| list[keys_of(list).index_of(key)].1,
    )
}

/// In a list without repeated keys, each entry's key maps to what stands
/// beside it, and nothing else is mapped.
pub proof fn lemma_slots_of<V>(list: Seq<(String, V)>)
    requires
        keys_of(list).no_duplicates(),
    ensures
        slots_of(list).dom() =~= keys_of(list).to_set(),
        forall|i: int|
            0 <= i < list.len() ==> slots_of(list).contains_key(#[trigger] list[i].0@) && slots_of(
                list,
            )[list[i].0@] == list[i].1,
        forall|key: Seq<char>|
            slots_of(list).contains_key(key) ==> 0 <= keys_of(list).index_of(key) < list.len()
                && list[keys_of(list).index_of(key)].0@ == key,
{
    let keys = keys_of(list);
    assert forall|i: int| 0 <= i < list.len() implies slots_of(list).contains_key(
        #[trigger] list[i].0@,
    ) && slots_of(list)[list[i].0@] == list[i].1 by {
        assert(keys[i] == list[i].0@);
        assert(keys.contains(list[i].0@));
        let j = keys.index_of(list[i].0@);
        assert(0 <= j < keys.len() && keys[j] == list[i].0@);
    }
    assert forall|key: Seq<char>| slots_of(list).contains_key(key) implies 0 <= keys.index_of(key)
        < list.len() && list[keys.index_of(key)].0@ == key by {
        assert(keys.contains(key));
        let j = keys.index_of(key);
        assert(0 <= j < keys.len() && keys[j] == key);
    }
}

/// Taking one entry out of a list takes its key out of the keys and out of
/// the map, and keeps the keys free of repetition.
pub proof fn lemma_after_remove<V>(list: Seq<(String, V)>, i: int)
    requires
        keys_of(list).no_duplicates(),
        0 <= i < list.len(),
    ensures
        keys_of(list.remove(i)) == keys_of(list).remove(i),
        keys_of(list.remove(i)).no_duplicates(),
        !keys_of(list.remove(i)).contains(list[i].0@),
        slots_of(list.remove(i)) == slots_of(list).remove(list[i].0@),
{
    let keys = keys_of(list);
    let shorter = list.remove(i);
    let rest = keys_of(shorter);
    assert(rest =~= keys.remove(i));
    assert forall|a: int, b: int| 0 <= a < rest.len() && 0 <= b < rest.len() && a != b implies rest[a]
        != rest[b] by {
        let a2 = if a < i { a } else { a + 1 };
        let b2 = if b < i { b } else { b + 1 };
        assert(rest[a] == keys[a2] && rest[b] == keys[b2]);
    }
    assert forall|a: int| 0 <= a < rest.len() implies rest[a] != list[i].0@ by {
        let a2 = if a < i { a } else { a + 1 };
        assert(rest[a] == keys[a2] && keys[i] == list[i].0@);
    }
    lemma_slots_of(list);
    lemma_slots_of(shorter);
    let smaller = slots_of(list).remove(list[i].0@);
    assert forall|key: Seq<char>| #[trigger]
        slots_of(shorter).dom().contains(key) == smaller.dom().contains(key) by {
        if smaller.dom().contains(key) {
            let j = keys.index_of(key);
            let j2 = if j < i { j } else { j - 1 };
            assert(shorter[j2] == list[j]);
        }
        if slots_of(shorter).dom().contains(key) {
            let j = rest.index_of(key);
            let j2 = if j < i { j } else { j + 1 };
            assert(shorter[j] == list[j2]);
        }
    }
    assert forall|key: Seq<char>| smaller.dom().contains(key) implies #[trigger] slots_of(shorter)[key]
        == smaller[key] by {
        let j = keys.index_of(key);
        let j2 = if j < i { j } else { j - 1 };
        assert(shorter[j2] == list[j]);
    }
    assert(slots_of(shorter) =~= smaller);
}

/// Putting an entry with a fresh key into a list, at `at`, puts its key into
/// the keys and into the map, and keeps the keys free of repetition.
pub proof fn lemma_after_insert<V>(list: Seq<(String, V)>, at: int, entry: (String, V))
    requires
        keys_of(list).no_duplicates(),
        !keys_of(list).contains(entry.0@),
        0 <= at <= list.len(),
    ensures
        keys_of(list.insert(at, entry)) == keys_of(list).insert(at, entry.0@),
        keys_of(list.insert(at, entry)).no_duplicates(),
        slots_of(list.insert(at, entry)) == slots_of(list).insert(entry.0@, entry.1),
{
    let keys = keys_of(list);
    let longer = list.insert(at, entry);
    let all = keys_of(longer);
    assert(all =~= keys.insert(at, entry.0@));
    assert forall|a: int, b: int| 0 <= a < all.len() && 0 <= b < all.len() && a != b implies all[a]
        != all[b] by {
        if a != at {
            let a2 = if a < at { a } else { a - 1 };
            assert(all[a] == keys[a2]);
            assert(keys.contains(all[a]));
        }
        if b != at {
            let b2 = if b < at { b } else { b - 1 };
            assert(all[b] == keys[b2]);
            assert(keys.contains(all[b]));
        }
    }
    lemma_slots_of(list);
    lemma_slots_of(longer);
    let larger = slots_of(list).insert(entry.0@, entry.1);
    assert forall|key: Seq<char>| #[trigger]
        slots_of(longer).dom().contains(key) == larger.dom().contains(key) by {
        if larger.dom().contains(key) {
            if key == entry.0@ {
                assert(longer[at] == entry);
            } else {
                let j = keys.index_of(key);
                let j2 = if j < at { j } else { j + 1 };
                assert(longer[j2] == list[j]);
            }
        }
        if slots_of(longer).dom().contains(key) {
            let j = all.index_of(key);
            if j != at {
                let j2 = if j < at { j } else { j - 1 };
                assert(longer[j] == list[j2]);
            }
        }
    }
    assert forall|key: Seq<char>| larger.dom().contains(key) implies #[trigger] slots_of(longer)[key]
        == larger[key] by {
        if key == entry.0@ {
            assert(longer[at] == entry);
        } else {
            let j = keys.index_of(key);
            let j2 = if j < at { j } else { j + 1 };
            assert(longer[j2] == list[j]);
        }
    }
    assert(slots_of(longer) =~= larger);
}

/// Removing the one occurrence of a key is removing it at its index.
pub proof fn lemma_remove_value_at(order: Seq<Seq<char>>, key: Seq<char>, i: int)
    requires
        order.no_duplicates(),
        0 <= i < order.len(),
        order[i] == key,
    ensures
        order.remove_value(key) == order.remove(i),
{
    order.index_of_first_ensures(key);
}

/// Removing a key that does not occur changes nothing.
pub proof fn lemma_remove_value_absent(order: Seq<Seq<char>>, key: Seq<char>)
    requires
        !order.contains(key),
    ensures
        order.remove_value(key) == order,
{
    order.index_of_first_ensures(key);
}

} // verus!
