use vstd::prelude::*;

use crate::sync_insertion::InsertSync;
use crate::sync_insertion::SandClockInsertion;
use crate::timer_status::StatusModel;
use crate::timer_status::TimerStatus;

verus! {

/// One slot of the timer table: the encoded key and its timer state.
pub type TableEntry<K> = (InsertSync<K>, TimerStatus);

/// No two slots name the same key.
pub open spec fn distinct_keys<K: SandClockInsertion>(s: Seq<TableEntry<K>>) -> bool {
    forall|i: int, j: int| 0 <= i < j < s.len() ==> s[i].0@ != s[j].0@
}

/// The mapping a sequence of slots stands for: each key's abstract
/// value bound to its entry's state. On duplicate keys the later slot
/// wins, so on a sequence with distinct keys every slot is visible.
pub open spec fn entries_map<K: SandClockInsertion>(s: Seq<TableEntry<K>>) -> Map<
    K::V,
    StatusModel,
>
    decreases s.len(),
{
    if s.len() == 0 {
        Map::empty()
    } else {
        entries_map(s.drop_last()).insert(s.last().0@, s.last().1@)
    }
}

/// A key is in the mapping exactly when some slot names it.
pub proof fn lemma_entries_map_contains<K: SandClockInsertion>(s: Seq<TableEntry<K>>, kv: K::V)
    ensures
        entries_map(s).dom().contains(kv) <==> exists|i: int|
            0 <= i < s.len() && s[i].0@ == kv,
    decreases s.len(),
{
    if s.len() > 0 {
        lemma_entries_map_contains(s.drop_last(), kv);
        if s.last().0@ == kv {
            assert(s[s.len() - 1].0@ == kv);
        } else {
            if entries_map(s).dom().contains(kv) {
                let i = choose|i: int| 0 <= i < s.drop_last().len() && s.drop_last()[i].0@ == kv;
                assert(s[i].0@ == kv);
            }
            if exists|i: int| 0 <= i < s.len() && s[i].0@ == kv {
                let i = choose|i: int| 0 <= i < s.len() && s[i].0@ == kv;
                assert(i < s.len() - 1);
                assert(s.drop_last()[i].0@ == kv);
            }
        }
    }
}

/// Dropping the last slot keeps the keys distinct.
pub proof fn lemma_distinct_drop_last<K: SandClockInsertion>(s: Seq<TableEntry<K>>)
    requires
        distinct_keys(s),
        s.len() > 0,
    ensures
        distinct_keys(s.drop_last()),
{
    assert forall|i: int, j: int|
        0 <= i < j < s.drop_last().len() implies s.drop_last()[i].0@ != s.drop_last()[j].0@ by {
        assert(s[i].0@ != s[j].0@);
    }
}

/// With distinct keys, the slot at index `i` is what the mapping binds
/// its key to.
pub proof fn lemma_entries_map_index<K: SandClockInsertion>(s: Seq<TableEntry<K>>, i: int)
    requires
        distinct_keys(s),
        0 <= i < s.len(),
    ensures
        entries_map(s).dom().contains(s[i].0@),
        entries_map(s)[s[i].0@] == s[i].1@,
    decreases s.len(),
{
    if i < s.len() - 1 {
        lemma_distinct_drop_last(s);
        lemma_entries_map_index(s.drop_last(), i);
        assert(s.drop_last()[i] == s[i]);
        assert(s[i].0@ != s.last().0@);
    }
}

/// Appending a slot adds its binding to the mapping.
pub proof fn lemma_entries_map_push<K: SandClockInsertion>(s: Seq<TableEntry<K>>, p: TableEntry<K>)
    ensures
        entries_map(s.push(p)) == entries_map(s).insert(p.0@, p.1@),
{
    assert(s.push(p).drop_last() =~= s);
    assert(s.push(p).last() == p);
}

/// Replacing the slot at index `i` by one with the same key rebinds
/// only that key.
pub proof fn lemma_entries_map_update<K: SandClockInsertion>(
    s: Seq<TableEntry<K>>,
    i: int,
    p: TableEntry<K>,
)
    requires
        distinct_keys(s),
        0 <= i < s.len(),
        p.0@ == s[i].0@,
    ensures
        entries_map(s.update(i, p)) =~= entries_map(s).insert(p.0@, p.1@),
    decreases s.len(),
{
    let s2 = s.update(i, p);
    if i == s.len() - 1 {
        assert(s2.drop_last() =~= s.drop_last());
        assert(s2.last() == p);
        assert(entries_map(s2) =~= entries_map(s).insert(p.0@, p.1@));
    } else {
        lemma_distinct_drop_last(s);
        lemma_entries_map_update(s.drop_last(), i, p);
        assert(s2.drop_last() =~= s.drop_last().update(i, p));
        assert(s2.last() == s.last());
        assert(s[i].0@ != s.last().0@);
        assert(entries_map(s2) =~= entries_map(s).insert(p.0@, p.1@));
    }
}

/// Removing the slot at index `i` removes exactly its key's binding.
pub proof fn lemma_entries_map_remove<K: SandClockInsertion>(s: Seq<TableEntry<K>>, i: int)
    requires
        distinct_keys(s),
        0 <= i < s.len(),
    ensures
        entries_map(s.remove(i)) =~= entries_map(s).remove(s[i].0@),
    decreases s.len(),
{
    if i == s.len() - 1 {
        assert(s.remove(i) =~= s.drop_last());
        lemma_entries_map_contains(s.drop_last(), s[i].0@);
        assert forall|j: int|
            0 <= j < s.drop_last().len() implies s.drop_last()[j].0@ != s[i].0@ by {
            assert(s[j].0@ != s[i].0@);
        }
        assert(!entries_map(s.drop_last()).dom().contains(s[i].0@));
        assert(entries_map(s.remove(i)) =~= entries_map(s).remove(s[i].0@));
    } else {
        lemma_distinct_drop_last(s);
        lemma_entries_map_remove(s.drop_last(), i);
        assert(s.remove(i).drop_last() =~= s.drop_last().remove(i));
        assert(s.remove(i).last() == s.last());
        assert(s[i].0@ != s.last().0@);
        assert(entries_map(s.remove(i)) =~= entries_map(s).remove(s[i].0@));
    }
}

/// With distinct keys the mapping is finite and exactly as large as
/// the sequence.
pub proof fn lemma_entries_map_len<K: SandClockInsertion>(s: Seq<TableEntry<K>>)
    requires
        distinct_keys(s),
    ensures
        entries_map(s).dom().finite(),
        entries_map(s).dom().len() == s.len(),
    decreases s.len(),
{
    if s.len() == 0 {
        assert(entries_map(s).dom() =~= Set::<K::V>::empty());
    } else {
        lemma_distinct_drop_last(s);
        lemma_entries_map_len(s.drop_last());
        lemma_entries_map_contains(s.drop_last(), s.last().0@);
        assert forall|j: int|
            0 <= j < s.drop_last().len() implies s.drop_last()[j].0@ != s.last().0@ by {
            assert(s[j].0@ != s[s.len() - 1].0@);
        }
        assert(!entries_map(s.drop_last()).dom().contains(s.last().0@));
        assert(entries_map(s).dom() =~= entries_map(s.drop_last()).dom().insert(s.last().0@));
    }
}

/// Rewriting every slot's state in place, keeping the keys, rewrites
/// the mapping pointwise.
pub proof fn lemma_entries_map_pointwise<K: SandClockInsertion>(
    s1: Seq<TableEntry<K>>,
    s2: Seq<TableEntry<K>>,
    f: spec_fn(StatusModel) -> StatusModel,
)
    requires
        s2.len() == s1.len(),
        forall|j: int| 0 <= j < s1.len() ==> s2[j].0@ == s1[j].0@,
        forall|j: int| 0 <= j < s1.len() ==> s2[j].1@ == f(s1[j].1@),
    ensures
        entries_map(s2).dom() =~= entries_map(s1).dom(),
        forall|kv: K::V|
            entries_map(s1).dom().contains(kv) ==> entries_map(s2)[kv] == f(
                entries_map(s1)[kv],
            ),
    decreases s1.len(),
{
    if s1.len() > 0 {
        lemma_entries_map_pointwise(s1.drop_last(), s2.drop_last(), f);
        assert(s2.last().0@ == s1.last().0@);
        assert(s2.last().1@ == f(s1.last().1@));
        assert forall|kv: K::V|
            entries_map(s1).dom().contains(kv) implies entries_map(s2)[kv] == f(
            entries_map(s1)[kv],
        ) by {
            if kv == s1.last().0@ {
            } else {
                assert(entries_map(s1.drop_last()).dom().contains(kv));
            }
        }
    }
}

/// Removing a slot keeps the keys distinct.
pub proof fn lemma_distinct_remove<K: SandClockInsertion>(s: Seq<TableEntry<K>>, i: int)
    requires
        distinct_keys(s),
        0 <= i < s.len(),
    ensures
        distinct_keys(s.remove(i)),
{
    s.remove_ensures(i);
    assert forall|a: int, b: int|
        0 <= a < b < s.remove(i).len() implies s.remove(i)[a].0@ != s.remove(i)[b].0@ by {
        let a0 = if a < i {
            a
        } else {
            a + 1
        };
        let b0 = if b < i {
            b
        } else {
            b + 1
        };
        assert(s[a0].0@ != s[b0].0@);
    }
}

/// The index of the slot that names `key`, if one does.
pub fn find_index<K: SandClockInsertion>(entries: &Vec<TableEntry<K>>, key: &K) -> (r: Option<
    usize,
>)
    ensures
        match r {
            Some(i) => i < entries@.len() && entries@[i as int].0@ == key@,
            None => forall|j: int| 0 <= j < entries@.len() ==> entries@[j].0@ != key@,
        },
{
    let mut i: usize = 0;
    while i < entries.len()
        invariant
            i <= entries@.len(),
            forall|j: int| 0 <= j < i ==> entries@[j].0@ != key@,
        decreases entries@.len() - i,
    {
        if entries[i].0.inner_ref().key_eq(key) {
            return Some(i);
        }
        i = i + 1;
    }
    None
}

} // verus!
