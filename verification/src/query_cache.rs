//! A store of cached query results, each tagged with the tables it read, so
//! that a write to any of those tables evicts it.

use vstd::prelude::*;
use crate::error::Error;
use crate::text::{chars_eq, chars_of, views};

verus! {

/// One cached result: its key, the serialized rows, the time to live it was
/// stored with (seconds) and the tables it read.
#[derive(Clone, Debug)]
pub struct CacheEntry {
    /// The cache key.
    pub key: String,
    /// The serialized result.
    pub value: String,
    /// The time to live, in seconds, when one was given.
    pub ttl: Option<u64>,
    /// The tables the result was read from.
    pub tables: Vec<String>,
}

/// Cached results, looked up by key and evicted by table.
#[derive(Debug)]
pub struct QueryCache {
    /// Whether results are stored at all.
    pub enabled: bool,
    /// The entries, at most one per key, oldest first.
    pub entries: Vec<CacheEntry>,
}

/// `es` holds an entry with key `k`.
pub open spec fn holds_key(es: Seq<CacheEntry>, k: Seq<char>) -> bool {
    exists|i: int| 0 <= i < es.len() && (#[trigger] es[i]).key@ == k
}

/// The entry read `table`.
pub open spec fn tagged(e: CacheEntry, t: Seq<char>) -> bool {
    views(e.tables@).contains(t)
}

/// The entries that did not read `t`, in order.
pub open spec fn untagged(es: Seq<CacheEntry>, t: Seq<char>) -> Seq<CacheEntry>
    decreases es.len(),
{
    if es.len() == 0 {
        Seq::empty()
    } else if tagged(es.last(), t) {
        untagged(es.drop_last(), t)
    } else {
        untagged(es.drop_last(), t).push(es.last())
    }
}

/// The entries other than the one keyed `k`, in order.
pub open spec fn without_key(es: Seq<CacheEntry>, k: Seq<char>) -> Seq<CacheEntry>
    decreases es.len(),
{
    if es.len() == 0 {
        Seq::empty()
    } else if es.last().key@ == k {
        without_key(es.drop_last(), k)
    } else {
        without_key(es.drop_last(), k).push(es.last())
    }
}

fn has_tag(tables: &Vec<String>, t: &Vec<char>) -> (b: bool)
    ensures
        b == views(tables@).contains(t@),
{
    let mut i: usize = 0;
    while i < tables.len()
        invariant
            i <= tables@.len(),
            forall|j: int| 0 <= j < i ==> tables@[j]@ != t@,
        decreases tables.len() - i,
    {
        let c = chars_of(tables[i].as_str());
        if chars_eq(&c, t) {
            assert(views(tables@)[i as int] == t@);
            return true;
        }
        i = i + 1;
    }
    proof {
        if views(tables@).contains(t@) {
            let j = choose|j: int| 0 <= j < views(tables@).len() && views(tables@)[j] == t@;
            assert(tables@[j]@ == t@);
        }
    }
    false
}

impl QueryCache {
    /// An empty cache that stores nothing until enabled.
    pub fn new() -> (c: Self)
        ensures
            !c.enabled,
            c.entries@.len() == 0,
    {
        QueryCache { enabled: false, entries: Vec::new() }
    }

    /// Starts storing results.
    pub fn enable(&mut self)
        ensures
            final(self).enabled,
            final(self).entries@ == old(self).entries@,
    {
        self.enabled = true;
    }

    /// Stops storing results and drops every entry.
    pub fn disable(&mut self)
        ensures
            !final(self).enabled,
            final(self).entries@.len() == 0,
    {
        self.enabled = false;
        self.entries = Vec::new();
    }

    /// Whether a result is held under `key`.
    pub fn contains(&self, key: &str) -> (b: bool)
        ensures
            b == holds_key(self.entries@, key@),
    {
        let k = chars_of(key);
        let mut i: usize = 0;
        while i < self.entries.len()
            invariant
                i <= self.entries@.len(),
                k@ == key@,
                forall|j: int| 0 <= j < i ==> self.entries@[j].key@ != key@,
            decreases self.entries.len() - i,
        {
            let c = chars_of(self.entries[i].key.as_str());
            if chars_eq(&c, &k) {
                return true;
            }
            i = i + 1;
        }
        false
    }

    /// Stores `value` under `key`, tagged with the tables it read, replacing
    /// any entry with that key; a disabled cache stores nothing.
    pub fn set_tagged(&mut self, key: &str, value: String, ttl: Option<u64>, tables: Vec<String>) -> (r: Result<
        (),
        Error,
    >)
        ensures
            r is Ok,
            final(self).enabled == old(self).enabled,
            !old(self).enabled ==> final(self).entries@ == old(self).entries@,
            old(self).enabled ==> final(self).entries@ == without_key(old(self).entries@, key@).push(
                CacheEntry { key: final(self).entries@.last().key, value, ttl, tables },
            ) && final(self).entries@.last().key@ == key@,
    {
        if !self.enabled {
            return Ok(());
        }
        let k = chars_of(key);
        let ghost orig = self.entries@;
        let mut i: usize = 0;
        let ghost mut consumed: int = 0;
        assert(orig.skip(0) =~= orig);
        assert(orig.take(0) =~= Seq::<CacheEntry>::empty());
        while i < self.entries.len()
            invariant
                0 <= consumed <= orig.len(),
                k@ == key@,
                self.entries@ == without_key(orig.take(consumed), key@) + orig.skip(consumed),
                i == without_key(orig.take(consumed), key@).len(),
                self.enabled,
            decreases orig.len() - consumed,
        {
            let ghost pre = without_key(orig.take(consumed), key@);
            assert(self.entries@[i as int] == orig[consumed]);
            assert(orig.take(consumed + 1).drop_last() == orig.take(consumed));
            assert(orig.take(consumed + 1).last() == orig[consumed]);
            assert(orig.skip(consumed).skip(1) =~= orig.skip(consumed + 1));
            let c = chars_of(self.entries[i].key.as_str());
            if chars_eq(&c, &k) {
                self.entries.remove(i);
                proof {
                    consumed = consumed + 1;
                }
                assert(self.entries@ =~= without_key(orig.take(consumed), key@) + orig.skip(consumed));
            } else {
                proof {
                    consumed = consumed + 1;
                }
                assert(self.entries@ =~= without_key(orig.take(consumed), key@) + orig.skip(consumed));
                i = i + 1;
            }
        }
        assert(orig.skip(consumed).len() == 0);
        assert(orig.take(consumed) =~= orig);
        assert(self.entries@ =~= without_key(orig, key@));
        self.entries.push(CacheEntry { key: key.to_owned(), value, ttl, tables });
        Ok(())
    }

    /// Evicts every result that read `table`, keeping the others in order.
    pub fn invalidate_model(&mut self, table: &str)
        ensures
            final(self).enabled == old(self).enabled,
            final(self).entries@ == untagged(old(self).entries@, table@),
    {
        let t = chars_of(table);
        let ghost orig = self.entries@;
        let mut i: usize = 0;
        let ghost mut consumed: int = 0;
        assert(orig.skip(0) =~= orig);
        assert(orig.take(0) =~= Seq::<CacheEntry>::empty());
        while i < self.entries.len()
            invariant
                0 <= consumed <= orig.len(),
                t@ == table@,
                self.entries@ == untagged(orig.take(consumed), table@) + orig.skip(consumed),
                i == untagged(orig.take(consumed), table@).len(),
                self.enabled == old(self).enabled,
            decreases orig.len() - consumed,
        {
            assert(self.entries@[i as int] == orig[consumed]);
            assert(orig.take(consumed + 1).drop_last() == orig.take(consumed));
            assert(orig.take(consumed + 1).last() == orig[consumed]);
            assert(orig.skip(consumed).skip(1) =~= orig.skip(consumed + 1));
            if has_tag(&self.entries[i].tables, &t) {
                self.entries.remove(i);
                proof {
                    consumed = consumed + 1;
                }
                assert(self.entries@ =~= untagged(orig.take(consumed), table@) + orig.skip(consumed));
            } else {
                proof {
                    consumed = consumed + 1;
                }
                assert(self.entries@ =~= untagged(orig.take(consumed), table@) + orig.skip(consumed));
                i = i + 1;
            }
        }
        assert(orig.skip(consumed).len() == 0);
        assert(orig.take(consumed) =~= orig);
        assert(self.entries@ =~= untagged(orig, table@));
    }
}

/// Eviction by table is exact: afterwards an entry is held exactly when it
/// was held before and did not read the table.
pub proof fn lemma_invalidation_is_targeted(es: Seq<CacheEntry>, t: Seq<char>, e: CacheEntry)
    ensures
        untagged(es, t).contains(e) <==> es.contains(e) && !tagged(e, t),
    decreases es.len(),
{
    if es.len() > 0 {
        let p = es.drop_last();
        let u = untagged(p, t);
        lemma_invalidation_is_targeted(p, t, e);
        let r = untagged(es, t);
        if tagged(es.last(), t) {
            assert(r == u);
        } else {
            assert(r == u.push(es.last()));
        }
        if es.contains(e) && !tagged(e, t) {
            let j = choose|j: int| 0 <= j < es.len() && es[j] == e;
            if j < p.len() {
                assert(p[j] == e);
                assert(p.contains(e));
                let m = choose|m: int| 0 <= m < u.len() && u[m] == e;
                assert(r[m] == e);
            } else {
                assert(r[u.len() as int] == e);
            }
            assert(r.contains(e));
        }
        if r.contains(e) {
            let j = choose|j: int| 0 <= j < r.len() && r[j] == e;
            if j < u.len() {
                assert(u[j] == e);
                assert(u.contains(e));
                let m = choose|m: int| 0 <= m < p.len() && p[m] == e;
                assert(es[m] == e);
            } else {
                assert(es[es.len() - 1] == e);
            }
            assert(es.contains(e));
        }
    }
}

} // verus!
