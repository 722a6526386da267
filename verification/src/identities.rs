//! The process-unique identities of pooled connections that cache keys name.
//!
//! A connection is recognized by the address of its allocation while it is on
//! record; the caller keeps that address reserved while the entry lives and
//! says which recorded connections are still alive. Identities are handed out
//! in increasing order and never reused, so a connection that lands at a freed
//! address never inherits the identity, and the cached rows, of the one that
//! was there.

use vstd::prelude::*;

verus! {

/// The identity assigned to each connection on record.
pub struct ConnectionIdentities {
    /// The last identity handed out.
    pub last_id: u64,
    /// The address of each connection on record, with its identity.
    pub assigned: Vec<(usize, u64)>,
}

/// The identity recorded for `address`, if any.
pub open spec fn recorded(assigned: Seq<(usize, u64)>, address: usize) -> Option<u64> {
    if exists|k: int| 0 <= k < assigned.len() && (#[trigger] assigned[k]).0 == address {
        Some(assigned[choose|k: int| 0 <= k < assigned.len() && (#[trigger] assigned[k]).0 == address].1)
    } else {
        None
    }
}

/// The entries whose address is among `live`, in order.
pub open spec fn live_entries(assigned: Seq<(usize, u64)>, live: Seq<usize>) -> Seq<(usize, u64)>
    decreases assigned.len(),
{
    if assigned.len() == 0 {
        Seq::empty()
    } else {
        let kept = live_entries(assigned.drop_last(), live);
        if live.contains(assigned.last().0) {
            kept.push(assigned.last())
        } else {
            kept
        }
    }
}

/// Every identity on record was handed out (is at most `last_id`), and each
/// address is on record at most once.
pub open spec fn identities_wf(last_id: u64, assigned: Seq<(usize, u64)>) -> bool {
    &&& forall|k: int| 0 <= k < assigned.len() ==> 1 <= (#[trigger] assigned[k]).1 <= last_id
    &&& forall|i: int, j: int| 0 <= i < j < assigned.len() ==> (#[trigger] assigned[i]).0 != (#[trigger] assigned[j]).0
}

/// What `identify` does to a table with last identity `last_id` and entries
/// `assigned`: the identity it gives `address`, then the table's last identity
/// and entries afterwards.
pub open spec fn identify_spec(last_id: u64, assigned: Seq<(usize, u64)>, address: usize, live: Seq<usize>) -> (
    u64,
    u64,
    Seq<(usize, u64)>,
) {
    match recorded(assigned, address) {
        Some(known) => (known, last_id, assigned),
        None => (
            (last_id + 1) as u64,
            (last_id + 1) as u64,
            live_entries(assigned, live).push((address, (last_id + 1) as u64)),
        ),
    }
}

impl ConnectionIdentities {
    /// Every identity on record was handed out, and each address is on
    /// record at most once.
    pub open spec fn wf(&self) -> bool {
        identities_wf(self.last_id, self.assigned@)
    }

    /// No identity handed out yet.
    pub fn new() -> (r: Self)
        ensures
            r.wf(),
            r.last_id == 0,
            r.assigned@.len() == 0,
    {
        ConnectionIdentities { last_id: 0, assigned: Vec::new() }
    }

    /// The identity of the connection at `address`: the recorded one when the
    /// address is on record; otherwise the entries of connections no longer
    /// alive (those whose address is not in `live`) are dropped and the next
    /// identity is assigned, greater than every identity handed out before.
    pub fn identify(&mut self, address: usize, live: &Vec<usize>) -> (id: u64)
        requires
            old(self).wf(),
            old(self).last_id < u64::MAX,
        ensures
            final(self).wf(),
            (id, final(self).last_id, final(self).assigned@) == identify_spec(
                old(self).last_id,
                old(self).assigned@,
                address,
                live@,
            ),
            match recorded(old(self).assigned@, address) {
                Some(known) => id == known && *final(self) == *old(self),
                None => {
                    &&& id == old(self).last_id + 1
                    &&& final(self).last_id == id
                    &&& final(self).assigned@ == live_entries(old(self).assigned@, live@).push((address, id))
                },
            },
    {
        let mut k: usize = 0;
        while k < self.assigned.len()
            invariant
                k <= self.assigned@.len(),
                old(self).wf(),
                *self == *old(self),
                forall|j: int| 0 <= j < k ==> (#[trigger] self.assigned@[j]).0 != address,
            decreases self.assigned@.len() - k,
        {
            if self.assigned[k].0 == address {
                let id = self.assigned[k].1;
                proof {
                    let w = choose|j: int| 0 <= j < self.assigned@.len() && (#[trigger] self.assigned@[j]).0 == address;
                    if w != k as int {
                        if w < k {
                        } else {
                            assert(self.assigned@[k as int].0 != self.assigned@[w].0);
                        }
                    }
                }
                return id;
            }
            k = k + 1;
        }
        assert(recorded(self.assigned@, address) is None);
        let ghost before = self.assigned@;
        let ghost last = self.last_id;
        let mut kept: Vec<(usize, u64)> = Vec::new();
        let mut i: usize = 0;
        while i < self.assigned.len()
            invariant
                i <= self.assigned@.len(),
                before == self.assigned@,
                last == self.last_id,
                old(self).wf(),
                *old(self) == *self,
                kept@ == live_entries(before.take(i as int), live@),
                forall|k: int| 0 <= k < kept@.len() ==> exists|j: int| 0 <= j < i && #[trigger] kept@[k] == before[j],
                forall|a: int, b: int| 0 <= a < b < kept@.len() ==> (#[trigger] kept@[a]).0 != (#[trigger] kept@[b]).0,
            decreases self.assigned@.len() - i,
        {
            proof {
                assert(before.take(i + 1).drop_last() =~= before.take(i as int));
                assert(before.take(i + 1).last() == before[i as int]);
            }
            let entry = self.assigned[i];
            if contains_address(live, entry.0) {
                let ghost prev = kept@;
                kept.push(entry);
                proof {
                    assert forall|k: int| 0 <= k < kept@.len() implies exists|j: int| 0 <= j < i + 1 && #[trigger] kept@[k]
                        == before[j] by {
                        if k < prev.len() {
                            assert(kept@[k] == prev[k]);
                        } else {
                            assert(kept@[k] == before[i as int]);
                        }
                    }
                    assert forall|a: int, b: int| 0 <= a < b < kept@.len() implies (#[trigger] kept@[a]).0 != (
                    #[trigger] kept@[b]).0 by {
                        if b == kept@.len() - 1 {
                            assert(kept@[a] == prev[a]);
                            let j = choose|j: int| 0 <= j < i && #[trigger] prev[a] == before[j];
                            assert(before[j].0 != before[i as int].0);
                        } else {
                            assert(kept@[a] == prev[a] && kept@[b] == prev[b]);
                        }
                    }
                }
            }
            i = i + 1;
        }
        assert(before.take(before.len() as int) =~= before);
        let id = self.last_id + 1;
        let ghost filtered = kept@;
        kept.push((address, id));
        self.assigned = kept;
        self.last_id = id;
        proof {
            assert forall|k: int| 0 <= k < self.assigned@.len() implies 1 <= (#[trigger] self.assigned@[k]).1
                <= self.last_id by {
                if k < filtered.len() {
                    assert(self.assigned@[k] == filtered[k]);
                    let j = choose|j: int| 0 <= j < before.len() && #[trigger] filtered[k] == before[j];
                    assert(1 <= before[j].1 <= last);
                }
            }
            assert forall|a: int, b: int| 0 <= a < b < self.assigned@.len() implies (
            #[trigger] self.assigned@[a]).0 != (#[trigger] self.assigned@[b]).0 by {
                if b == filtered.len() {
                    assert(self.assigned@[a] == filtered[a]);
                    let j = choose|j: int| 0 <= j < before.len() && #[trigger] filtered[a] == before[j];
                    assert(before[j].0 != address);
                } else {
                    assert(self.assigned@[a] == filtered[a] && self.assigned@[b] == filtered[b]);
                }
            }
        }
        id
    }
}

fn contains_address(live: &Vec<usize>, address: usize) -> (b: bool)
    ensures
        b == live@.contains(address),
{
    let mut i: usize = 0;
    while i < live.len()
        invariant
            i <= live@.len(),
            forall|j: int| 0 <= j < i ==> live@[j] != address,
        decreases live.len() - i,
    {
        if live[i] == address {
            return true;
        }
        i = i + 1;
    }
    false
}

/// An identity handed out for an address not on record differs from every
/// identity still on record: a connection never inherits another's identity.
pub proof fn lemma_new_identity_is_fresh(ids: ConnectionIdentities)
    requires
        ids.wf(),
    ensures
        forall|k: int| 0 <= k < ids.assigned@.len() ==> (#[trigger] ids.assigned@[k]).1 != ids.last_id + 1,
{
}

proof fn lemma_live_entries_from(assigned: Seq<(usize, u64)>, live: Seq<usize>)
    ensures
        forall|k: int| 0 <= k < live_entries(assigned, live).len() ==> assigned.contains(
            #[trigger] live_entries(assigned, live)[k],
        ),
    decreases assigned.len(),
{
    if assigned.len() > 0 {
        lemma_live_entries_from(assigned.drop_last(), live);
        let kept = live_entries(assigned.drop_last(), live);
        assert forall|k: int| 0 <= k < live_entries(assigned, live).len() implies assigned.contains(
            #[trigger] live_entries(assigned, live)[k],
        ) by {
            if k < kept.len() {
                let e = kept[k];
                assert(assigned.drop_last().contains(e));
                let j = choose|j: int| 0 <= j < assigned.drop_last().len() && assigned.drop_last()[j] == e;
                assert(assigned[j] == e);
            } else {
                assert(assigned[assigned.len() - 1] == assigned.last());
            }
        }
    }
}

/// One connection keeps one identity: once an address was given an
/// identity, asking again for that address answers the same identity.
pub proof fn lemma_identity_is_stable(
    assigned: Seq<(usize, u64)>,
    live: Seq<usize>,
    address: usize,
    id: u64,
)
    requires
        recorded(assigned, address) is None,
    ensures
        recorded(live_entries(assigned, live).push((address, id)), address) == Some(id),
{
    let kept = live_entries(assigned, live);
    let after = kept.push((address, id));
    lemma_live_entries_from(assigned, live);
    assert forall|k: int| 0 <= k < kept.len() implies (#[trigger] kept[k]).0 != address by {
        assert(assigned.contains(kept[k]));
        let j = choose|j: int| 0 <= j < assigned.len() && assigned[j] == kept[k];
        assert(assigned[j].0 != address);
    }
    assert(after[kept.len() as int].0 == address);
    let c = choose|k: int| 0 <= k < after.len() && (#[trigger] after[k]).0 == address;
    if c < kept.len() {
        assert(after[c] == kept[c]);
    }
}

/// One connection keeps one identity: asking twice for the identity of the
/// same address, whichever connections are alive at either call, gives the
/// same identity both times; and an address not on record gets an identity
/// above every identity on record, so it never inherits one of them.
pub proof fn lemma_connection_keeps_its_identity(
    last_id: u64,
    assigned: Seq<(usize, u64)>,
    address: usize,
    live_first: Seq<usize>,
    live_second: Seq<usize>,
)
    requires
        identities_wf(last_id, assigned),
        last_id < u64::MAX,
    ensures
        ({
            let (id, last, entries) = identify_spec(last_id, assigned, address, live_first);
            identify_spec(last, entries, address, live_second).0 == id
        }),
        recorded(assigned, address) is None ==> forall|k: int|
            0 <= k < assigned.len() ==> (#[trigger] assigned[k]).1 < identify_spec(last_id, assigned, address, live_first).0,
{
    if recorded(assigned, address) is None {
        lemma_identity_is_stable(assigned, live_first, address, (last_id + 1) as u64);
    }
}

} // verus!
