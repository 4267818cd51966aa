//! The dispute index: an O(1)-style secondary index answering "is this
//! transaction currently disputed?", maintained via post-persistence
//! callbacks.

use vstd::prelude::*;

verus! {

/// The mapping a sequence of `(tx_id, amount)` entries denotes; a later
/// entry for the same transaction overrides an earlier one.
pub open spec fn entries_map(s: Seq<(u32, i64)>) -> Map<u32, i64>
    decreases s.len(),
{
    if s.len() == 0 {
        Map::empty()
    } else {
        entries_map(s.drop_last()).insert(s.last().0, s.last().1)
    }
}

/// The denoted mapping contains exactly the keys of the entries, and with
/// distinct keys each entry's amount is the mapped one.
pub proof fn lemma_entries_map(s: Seq<(u32, i64)>)
    ensures
        forall|k: u32|
            entries_map(s).contains_key(k) <==> exists|i: int|
                0 <= i < s.len() && (#[trigger] s[i]).0 == k,
        (forall|i: int, j: int|
            0 <= i < s.len() && 0 <= j < s.len() && i != j ==> (#[trigger] s[i]).0 != (
            #[trigger] s[j]).0) ==> forall|i: int|
            0 <= i < s.len() ==> entries_map(s)[(#[trigger] s[i]).0] == s[i].1,
    decreases s.len(),
{
    if s.len() > 0 {
        lemma_entries_map(s.drop_last());
        assert forall|k: u32| entries_map(s).contains_key(k) implies exists|i: int|
            0 <= i < s.len() && (#[trigger] s[i]).0 == k by {
            if s.last().0 == k {
                assert(s[s.len() - 1].0 == k);
            } else {
                assert(entries_map(s.drop_last()).contains_key(k));
                assert(exists|i: int|
                    0 <= i < s.drop_last().len() && (#[trigger] s.drop_last()[i]).0 == k);
                let i = choose|i: int|
                    0 <= i < s.drop_last().len() && (#[trigger] s.drop_last()[i]).0 == k;
                assert(s.drop_last()[i] == s[i]);
                assert(s[i].0 == k);
            }
        }
        assert forall|k: u32|
            (exists|i: int| 0 <= i < s.len() && (#[trigger] s[i]).0 == k) implies entries_map(
            s,
        ).contains_key(k) by {
            let i = choose|i: int| 0 <= i < s.len() && (#[trigger] s[i]).0 == k;
            if i < s.len() - 1 {
                assert(s.drop_last()[i] == s[i]);
                assert(exists|p: int|
                    0 <= p < s.drop_last().len() && (#[trigger] s.drop_last()[p]).0 == k);
                assert(entries_map(s.drop_last()).contains_key(k));
            } else {
                assert(s.last().0 == k);
            }
        }
        if forall|i: int, j: int|
            0 <= i < s.len() && 0 <= j < s.len() && i != j ==> (#[trigger] s[i]).0 != (
            #[trigger] s[j]).0 {
            assert(forall|p: int, q: int|
                0 <= p < s.drop_last().len() && 0 <= q < s.drop_last().len() && p != q
                    ==> (#[trigger] s.drop_last()[p]).0 != (#[trigger] s.drop_last()[q]).0) by {
                assert(forall|p: int|
                    0 <= p < s.drop_last().len() ==> #[trigger] s.drop_last()[p] == s[p]);
            }
            assert forall|i: int| 0 <= i < s.len() implies entries_map(s)[(#[trigger] s[i]).0]
                == s[i].1 by {
                if i < s.len() - 1 {
                    assert(s.drop_last()[i] == s[i]);
                    assert(entries_map(s.drop_last())[s.drop_last()[i].0] == s.drop_last()[i].1);
                    assert(s[i].0 != s.last().0);
                } else {
                    assert(s[i] == s.last());
                }
            }
        }
    }
}

/// In-memory dispute index: a map from disputed transaction id to the
/// amount held at dispute time.
#[derive(Debug)]
pub struct InMemoryDisputeIndex {
    entries: Vec<(u32, i64)>,
}

impl InMemoryDisputeIndex {
    /// The index as a mathematical map.
    pub closed spec fn disputed(self) -> Map<u32, i64> {
        entries_map(self.entries@)
    }

    /// Well-formedness: one entry per transaction id.
    pub closed spec fn wf(self) -> bool {
        forall|i: int, j: int|
            0 <= i < self.entries@.len() && 0 <= j < self.entries@.len() && i != j
                ==> (#[trigger] self.entries@[i]).0 != (#[trigger] self.entries@[j]).0
    }

    /// An empty index.
    pub fn new() -> (r: Self)
        ensures
            r.wf(),
            r.disputed() == Map::<u32, i64>::empty(),
    {
        Self { entries: Vec::new() }
    }

    /// Whether `tx_id` is currently under dispute.
    pub fn is_disputed(&self, tx_id: u32) -> (r: bool)
        requires
            self.wf(),
        ensures
            r == self.disputed().contains_key(tx_id),
    {
        proof {
            lemma_entries_map(self.entries@);
        }
        let n = self.entries.len();
        let mut i: usize = 0;
        while i < n
            invariant
                n == self.entries@.len(),
                0 <= i <= n,
                forall|j: int| 0 <= j < i ==> (#[trigger] self.entries@[j]).0 != tx_id,
                self.disputed().contains_key(tx_id) <==> exists|j: int|
                    0 <= j < n && (#[trigger] self.entries@[j]).0 == tx_id,
            decreases n - i,
        {
            if self.entries[i].0 == tx_id {
                return true;
            }
            i += 1;
        }
        false
    }

    /// The amount recorded for `tx_id` at dispute time, when disputed.
    pub fn disputed_amount(&self, tx_id: u32) -> (r: Option<i64>)
        requires
            self.wf(),
        ensures
            r == if self.disputed().contains_key(tx_id) {
                Some(self.disputed()[tx_id])
            } else {
                None::<i64>
            },
    {
        proof {
            lemma_entries_map(self.entries@);
        }
        let n = self.entries.len();
        let mut i: usize = 0;
        while i < n
            invariant
                self.wf(),
                n == self.entries@.len(),
                0 <= i <= n,
                forall|j: int| 0 <= j < i ==> (#[trigger] self.entries@[j]).0 != tx_id,
                self.disputed().contains_key(tx_id) <==> exists|j: int|
                    0 <= j < n && (#[trigger] self.entries@[j]).0 == tx_id,
                forall|j: int|
                    0 <= j < n ==> entries_map(self.entries@)[(#[trigger] self.entries@[j]).0]
                        == self.entries@[j].1,
            decreases n - i,
        {
            if self.entries[i].0 == tx_id {
                return Some(self.entries[i].1);
            }
            i += 1;
        }
        None
    }

    /// Record `tx_id` as disputed for `amount`. Idempotent: an existing
    /// entry is overwritten.
    pub fn mark_disputed(&mut self, tx_id: u32, amount: i64)
        requires
            old(self).wf(),
        ensures
            final(self).wf(),
            final(self).disputed() == old(self).disputed().insert(tx_id, amount),
    {
        proof {
            lemma_entries_map(self.entries@);
        }
        let n = self.entries.len();
        let mut i: usize = 0;
        while i < n
            invariant
                *self == *old(self),
                old(self).wf(),
                n == self.entries@.len(),
                0 <= i <= n,
                forall|j: int| 0 <= j < i ==> (#[trigger] self.entries@[j]).0 != tx_id,
            decreases n - i,
        {
            if self.entries[i].0 == tx_id {
                self.entries[i] = (tx_id, amount);
                proof {
                    lemma_overwrite_entry(old(self).entries@, self.entries@, i as int, tx_id, amount);
                }
                return;
            }
            i += 1;
        }
        self.entries.push((tx_id, amount));
        proof {
            assert(self.entries@.drop_last() =~= old(self).entries@);
        }
    }

    /// Remove `tx_id` from the index. Idempotent: absence is a no-op.
    pub fn unmark_disputed(&mut self, tx_id: u32)
        requires
            old(self).wf(),
        ensures
            final(self).wf(),
            final(self).disputed() == old(self).disputed().remove(tx_id),
    {
        proof {
            lemma_entries_map(self.entries@);
        }
        let n = self.entries.len();
        let mut i: usize = 0;
        while i < n
            invariant
                *self == *old(self),
                old(self).wf(),
                n == self.entries@.len(),
                0 <= i <= n,
                forall|j: int| 0 <= j < i ==> (#[trigger] self.entries@[j]).0 != tx_id,
            decreases n - i,
        {
            if self.entries[i].0 == tx_id {
                self.entries.remove(i);
                proof {
                    lemma_remove_entry(old(self).entries@, self.entries@, i as int, tx_id);
                }
                return;
            }
            i += 1;
        }
        proof {
            lemma_entries_map(self.entries@);
            assert(!self.disputed().contains_key(tx_id));
            assert(self.disputed() =~= self.disputed().remove(tx_id));
        }
    }
}

/// Overwriting the unique entry for `tx_id` denotes `insert` on the map.
proof fn lemma_overwrite_entry(
    before: Seq<(u32, i64)>,
    after: Seq<(u32, i64)>,
    i: int,
    tx_id: u32,
    amount: i64,
)
    requires
        0 <= i < before.len(),
        after == before.update(i, (tx_id, amount)),
        before[i].0 == tx_id,
        forall|p: int, q: int|
            0 <= p < before.len() && 0 <= q < before.len() && p != q ==> (#[trigger] before[p]).0
                != (#[trigger] before[q]).0,
    ensures
        forall|p: int, q: int|
            0 <= p < after.len() && 0 <= q < after.len() && p != q ==> (#[trigger] after[p]).0 != (
            #[trigger] after[q]).0,
        entries_map(after) == entries_map(before).insert(tx_id, amount),
    decreases before.len(),
{
    if i == before.len() - 1 {
        assert(after.drop_last() =~= before.drop_last());
        assert(entries_map(after) =~= entries_map(before).insert(tx_id, amount));
    } else {
        assert(after.drop_last() =~= before.drop_last().update(i, (tx_id, amount)));
        lemma_overwrite_entry(before.drop_last(), after.drop_last(), i, tx_id, amount);
        assert(after.last() == before.last());
        lemma_entries_map(before.drop_last());
        assert(entries_map(after) =~= entries_map(before).insert(tx_id, amount));
    }
}

/// Removing the unique entry for `tx_id` denotes `remove` on the map.
proof fn lemma_remove_entry(before: Seq<(u32, i64)>, after: Seq<(u32, i64)>, i: int, tx_id: u32)
    requires
        0 <= i < before.len(),
        after == before.remove(i),
        before[i].0 == tx_id,
        forall|p: int, q: int|
            0 <= p < before.len() && 0 <= q < before.len() && p != q ==> (#[trigger] before[p]).0
                != (#[trigger] before[q]).0,
    ensures
        forall|p: int, q: int|
            0 <= p < after.len() && 0 <= q < after.len() && p != q ==> (#[trigger] after[p]).0 != (
            #[trigger] after[q]).0,
        entries_map(after) == entries_map(before).remove(tx_id),
    decreases before.len(),
{
    if i == before.len() - 1 {
        assert(after =~= before.drop_last());
        lemma_entries_map(after);
        assert(!entries_map(after).contains_key(tx_id));
        assert(entries_map(after) =~= entries_map(before).remove(tx_id));
    } else {
        assert(after.drop_last() =~= before.drop_last().remove(i));
        lemma_remove_entry(before.drop_last(), after.drop_last(), i, tx_id);
        assert(after.last() == before.last());
        lemma_entries_map(before.drop_last());
        assert(entries_map(after) =~= entries_map(before).remove(tx_id));
    }
}

} // verus!
