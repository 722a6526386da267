//! Walking a query's matches in batches, with the model's single primary key
//! as the cursor.
//!
//! The walk is a state machine: `QueryBuilder::chunk` checks the query and
//! sets the walk up, `ChunkState::next_batch` prepares the query of the next
//! batch (or says the walk is over), and `ChunkState::record_batch` takes in
//! what that batch returned. Running each batch is left to the caller.

use vstd::prelude::*;
use crate::builder::{QueryBuilder, same_env, same_projection, same_shape};
use crate::classify::{first_rejected, query_flat, rejection_message};
use crate::condition::{ConditionValue, Operator, WhereCondition};
use crate::dialect::Order;
use crate::error::Error;
use crate::json::{JsonValue, json_text, push_json_text};
use crate::text::{chars_eq, chars_of, decimal, push_str, push_u64, string_of};

verus! {

/// The message for a model whose primary key is not a single column.
pub open spec fn single_key_message(table: Seq<char>, keys: nat) -> Seq<char> {
    "chunk() only supports models with a single-column primary key; model '"@ + table + "' uses "@ + decimal(keys)
        + " key columns"@
}

/// The message for an ORDER BY that is not the primary key alone.
pub open spec fn key_order_message(table: Seq<char>, key: Seq<char>) -> Seq<char> {
    "chunk() only supports explicit ordering by the single primary key '"@ + key + "' for model '"@ + table + "'"@
}

/// The message for a zero batch size.
pub open spec fn zero_size_message() -> Seq<char> {
    "chunk() requires chunk_size to be greater than 0"@
}

/// The message for a query with an offset.
pub open spec fn offset_message() -> Seq<char> {
    "chunk() does not support offset(); use page()/get() for fixed windows or chunk over primary-key order"@
}

/// `table.column`.
pub open spec fn qualified(table: Seq<char>, column: Seq<char>) -> Seq<char> {
    table + "."@ + column
}

/// Whether an ORDER BY column names the primary key, bare or qualified by the
/// model's table.
pub open spec fn is_key_column(table: Seq<char>, column: Seq<char>, key: Seq<char>) -> bool {
    column == key || column == qualified(table, key)
}

/// The direction of the walk: ascending without an ORDER BY, the direction of
/// the one ORDER BY term when it names the primary key, and none otherwise.
pub open spec fn walk_order(q: QueryBuilder, key: Seq<char>) -> Option<Order> {
    if q.order_by@.len() == 0 {
        Some(Order::Asc)
    } else if q.order_by@.len() == 1 && is_key_column(q.meta.table_name@, q.order_by@[0].0@, key) {
        Some(q.order_by@[0].1)
    } else {
        None
    }
}

/// Why `q` cannot be walked in batches of `size`, checked in this order: a
/// reason recorded while building, a condition that cannot be rendered, a zero
/// size, an offset, a primary key of other than one column, an ORDER BY other
/// than the key's.
pub open spec fn chunk_rejection(q: QueryBuilder, size: u64) -> Option<Seq<char>> {
    if q.invalid_query_reason is Some {
        Some(q.invalid_query_reason.unwrap()@)
    } else if first_rejected(query_flat(q)) is Some {
        Some(rejection_message(q.meta.table_name@, first_rejected(query_flat(q)).unwrap()))
    } else if size == 0 {
        Some(zero_size_message())
    } else if q.offset_value is Some && q.offset_value.unwrap() > 0 {
        Some(offset_message())
    } else if q.meta.primary_keys@.len() != 1 {
        Some(single_key_message(q.meta.table_name@, q.meta.primary_keys@.len()))
    } else if walk_order(q, q.meta.primary_keys@[0]@) is None {
        Some(key_order_message(q.meta.table_name@, q.meta.primary_keys@[0]@))
    } else {
        None
    }
}

/// The query every batch starts from: `q` without LIMIT and OFFSET, ordered by
/// the qualified primary key when it had no ORDER BY.
pub open spec fn walk_base(q: QueryBuilder, base: QueryBuilder, key: Seq<char>, order: Order) -> bool {
    &&& base.conditions == q.conditions
    &&& base.or_groups == q.or_groups
    &&& same_projection(base, q)
    &&& same_shape(base, q)
    &&& same_env(base, q)
    &&& base.cache_options == q.cache_options
    &&& base.cache_key == q.cache_key
    &&& base.limit_value is None
    &&& base.offset_value is None
    &&& if q.order_by@.len() == 0 {
        &&& base.order_by@.len() == 1
        &&& base.order_by@[0].0@ == qualified(q.meta.table_name@, key)
        &&& base.order_by@[0].1 == order
    } else {
        base.order_by == q.order_by
    }
}

/// The size of the next batch: the batch size, or what is left of the limit
/// when that is smaller.
pub open spec fn next_limit(remaining: Option<u64>, size: u64) -> u64 {
    match remaining {
        Some(l) => if l < size { l } else { size },
        None => size,
    }
}

/// The cache key of a batch: the explicit key, the cursor's JSON text (or
/// `null` before the first batch) and the batch size.
pub open spec fn batch_cache_key(key: Seq<char>, cursor: Option<JsonValue>, limit: u64) -> Seq<char> {
    key + "::chunk(cursor="@ + match cursor {
        Some(c) => json_text(c),
        None => "null"@,
    } + ",limit="@ + decimal(limit as nat) + ")"@
}

/// The filter that resumes the walk after `cursor`: past it in the walk's
/// direction.
pub open spec fn resumes_after(c: WhereCondition, column: Seq<char>, order: Order, cursor: JsonValue) -> bool {
    &&& c.column@ == column
    &&& c.operator == match order {
        Order::Asc => Operator::Gt,
        Order::Desc => Operator::Lt,
    }
    &&& c.value == ConditionValue::Single(cursor)
}

/// The query of a batch: the base query limited to `limit` rows, resuming
/// after the cursor, under its own cache key when the base query has an
/// explicit one.
pub open spec fn is_batch_query(
    q: QueryBuilder,
    base: QueryBuilder,
    limit: u64,
    cursor: Option<JsonValue>,
    column: Seq<char>,
    order: Order,
) -> bool {
    &&& q.or_groups == base.or_groups
    &&& same_projection(q, base)
    &&& same_shape(q, base)
    &&& same_env(q, base)
    &&& q.cache_options == base.cache_options
    &&& q.order_by == base.order_by
    &&& q.limit_value == Some(limit)
    &&& q.offset_value is None
    &&& match cursor {
        None => q.conditions@ == base.conditions@,
        Some(c) => {
            &&& q.conditions@.len() == base.conditions@.len() + 1
            &&& q.conditions@.drop_last() == base.conditions@
            &&& resumes_after(q.conditions@.last(), column, order, c)
        },
    }
    &&& match base.cache_key {
        None => q.cache_key is None,
        Some(k) => q.cache_key is Some && q.cache_key.unwrap()@ == batch_cache_key(k@, cursor, limit),
    }
}

/// A walk in progress.
pub struct ChunkState {
    /// The query of the batch `next_batch` prepared last.
    pub query: QueryBuilder,
    /// The query every batch starts from.
    pub base: Ghost<QueryBuilder>,
    /// Rows per batch.
    pub chunk_size: u64,
    /// Rows the query's own LIMIT still allows, when it had one.
    pub remaining: Option<u64>,
    /// The direction of the walk.
    pub order: Order,
    /// The qualified primary key the cursor compares against.
    pub cursor_column: String,
    /// The number of the base query's own conditions.
    pub base_conditions: usize,
    /// The base query's explicit cache key.
    pub explicit_cache_key: Option<String>,
    /// The primary key of the last row seen.
    pub cursor: Option<JsonValue>,
    /// The size of the batch prepared last.
    pub batch_limit: u64,
    /// Whether the walk is over.
    pub finished: bool,
}

impl ChunkState {
    /// The walk's own invariant: the batch size is positive, and the current
    /// query is the base query with at most the cursor filter added.
    pub open spec fn wf(&self) -> bool {
        &&& self.chunk_size > 0
        &&& self.base@.limit_value is None
        &&& self.base@.offset_value is None
        &&& self.query.or_groups == self.base@.or_groups
        &&& same_projection(self.query, self.base@)
        &&& same_shape(self.query, self.base@)
        &&& same_env(self.query, self.base@)
        &&& self.query.cache_options == self.base@.cache_options
        &&& self.query.order_by == self.base@.order_by
        &&& self.query.offset_value is None
        &&& self.query.conditions@.len() >= self.base@.conditions@.len()
        &&& self.query.conditions@.len() <= self.base@.conditions@.len() + 1
        &&& self.query.conditions@.take(self.base@.conditions@.len() as int) == self.base@.conditions@
        &&& (self.base@.cache_key is None <==> self.query.cache_key is None)
        &&& self.base_conditions == self.base@.conditions@.len()
        &&& self.explicit_cache_key == self.base@.cache_key
    }

    /// Whether the walk is over.
    pub fn is_finished(&self) -> (b: bool)
        ensures
            b == self.finished,
    {
        self.finished
    }

    /// Prepares the query of the next batch in `query` and returns `true`, or
    /// returns `false` and ends the walk when it is over or the query's limit
    /// is used up.
    pub fn next_batch(&mut self) -> (more: bool)
        requires
            old(self).wf(),
        ensures
            final(self).wf(),
            final(self).base == old(self).base,
            final(self).chunk_size == old(self).chunk_size,
            final(self).remaining == old(self).remaining,
            final(self).order == old(self).order,
            final(self).cursor_column == old(self).cursor_column,
            final(self).cursor == old(self).cursor,
            final(self).base_conditions == old(self).base_conditions,
            final(self).explicit_cache_key == old(self).explicit_cache_key,
            more == (!old(self).finished && next_limit(old(self).remaining, old(self).chunk_size) > 0),
            more ==> {
                &&& final(self).batch_limit == next_limit(old(self).remaining, old(self).chunk_size)
                &&& !final(self).finished
                &&& is_batch_query(
                    final(self).query,
                    old(self).base@,
                    final(self).batch_limit,
                    old(self).cursor,
                    old(self).cursor_column@,
                    old(self).order,
                )
            },
            !more ==> final(self).finished && final(self).query == old(self).query && final(self).batch_limit
                == old(self).batch_limit,
    {
        let limit = match self.remaining {
            Some(l) => if l < self.chunk_size { l } else { self.chunk_size },
            None => self.chunk_size,
        };
        if self.finished || limit == 0 {
            self.finished = true;
            return false;
        }
        let ghost base = self.base@;
        let ghost n = base.conditions@.len();
        if self.query.conditions.len() > self.base_conditions {
            self.query.conditions.pop();
        }
        assert(self.query.conditions@ =~= base.conditions@);
        match &self.cursor {
            Some(c) => {
                let cond = WhereCondition {
                    column: self.cursor_column.clone(),
                    operator: match self.order {
                        Order::Asc => Operator::Gt,
                        Order::Desc => Operator::Lt,
                    },
                    value: ConditionValue::Single(c.duplicate()),
                };
                self.query.conditions.push(cond);
                assert(self.query.conditions@.drop_last() =~= base.conditions@);
                assert(self.query.conditions@.take(n as int) =~= base.conditions@);
            },
            None => {
                assert(self.query.conditions@.take(n as int) =~= base.conditions@);
            },
        }
        self.query.limit_value = Some(limit);
        if let Some(key) = &self.explicit_cache_key {
            let mut out: Vec<char> = Vec::new();
            push_str(&mut out, key.as_str());
            push_str(&mut out, "::chunk(cursor=");
            match &self.cursor {
                Some(c) => push_json_text(&mut out, c),
                None => push_str(&mut out, "null"),
            }
            push_str(&mut out, ",limit=");
            push_u64(&mut out, limit);
            push_str(&mut out, ")");
            assert(out@ =~= batch_cache_key(base.cache_key.unwrap()@, self.cursor, limit));
            self.query.cache_key = Some(string_of(&out));
        }
        self.batch_limit = limit;
        true
    }
    /// Takes in what the batch prepared last returned: its row count and the
    /// primary key of its last row (`None` for an empty batch). The walk ends
    /// on an empty batch, when the query's limit is used up, or when the batch
    /// came back short; otherwise the next batch resumes after that key.
    pub fn record_batch(&mut self, batch_len: u64, last_primary_key: Option<JsonValue>)
        requires
            old(self).wf(),
        ensures
            final(self).wf(),
            final(self).query == old(self).query,
            final(self).base == old(self).base,
            final(self).chunk_size == old(self).chunk_size,
            final(self).order == old(self).order,
            final(self).cursor_column == old(self).cursor_column,
            final(self).batch_limit == old(self).batch_limit,
            final(self).base_conditions == old(self).base_conditions,
            final(self).explicit_cache_key == old(self).explicit_cache_key,
            match last_primary_key {
                None => final(self).finished && final(self).cursor == old(self).cursor && final(self).remaining
                    == old(self).remaining,
                Some(k) => {
                    &&& final(self).cursor == Some(k)
                    &&& final(self).remaining == match old(self).remaining {
                        Some(l) => Some(if l > batch_len { (l - batch_len) as u64 } else { 0u64 }),
                        None => None,
                    }
                    &&& final(self).finished == (old(self).finished || final(self).remaining == Some(0u64)
                        || batch_len < old(self).batch_limit)
                },
            },
    {
        match last_primary_key {
            None => {
                self.finished = true;
            },
            Some(k) => {
                self.cursor = Some(k);
                let mut done = self.finished;
                match self.remaining {
                    Some(l) => {
                        let left = l.saturating_sub(batch_len);
                        self.remaining = Some(left);
                        if left == 0 {
                            done = true;
                        }
                    },
                    None => {},
                }
                if batch_len < self.batch_limit {
                    done = true;
                }
                self.finished = done;
            },
        }
    }
}

/// Whether `column` names `key`, bare or qualified by `table`.
pub fn is_chunk_primary_key_order(table: &str, column: &str, key: &str) -> (b: bool)
    ensures
        b == is_key_column(table@, column@, key@),
{
    let c = chars_of(column);
    let k = chars_of(key);
    if chars_eq(&c, &k) {
        return true;
    }
    let mut q: Vec<char> = Vec::new();
    push_str(&mut q, table);
    push_str(&mut q, ".");
    push_str(&mut q, key);
    chars_eq(&c, &q)
}

impl QueryBuilder {
    /// The model's primary key when it is a single column.
    pub fn chunk_primary_key_column(&self) -> (r: Result<String, Error>)
        ensures
            self.meta.primary_keys@.len() == 1 ==> (r matches Ok(k) && k == self.meta.primary_keys@[0]),
            self.meta.primary_keys@.len() != 1 ==> (r matches Err(Error::InvalidQuery(m)) && m@
                == single_key_message(self.meta.table_name@, self.meta.primary_keys@.len())),
    {
        if self.meta.primary_keys.len() == 1 {
            Ok(self.meta.primary_keys[0].clone())
        } else {
            let mut m: Vec<char> = Vec::new();
            push_str(&mut m, "chunk() only supports models with a single-column primary key; model '");
            push_str(&mut m, self.meta.table_name.as_str());
            push_str(&mut m, "' uses ");
            push_u64(&mut m, self.meta.primary_keys.len() as u64);
            push_str(&mut m, " key columns");
            Err(Error::InvalidQuery(string_of(&m)))
        }
    }

    /// The direction of the walk over `primary_key` (see `walk_order`).
    pub fn chunk_order(&self, primary_key: &str) -> (r: Result<Order, Error>)
        ensures
            match walk_order(*self, primary_key@) {
                Some(o) => r == Ok::<Order, Error>(o),
                None => r matches Err(Error::InvalidQuery(m)) && m@ == key_order_message(
                    self.meta.table_name@,
                    primary_key@,
                ),
            },
    {
        if self.order_by.len() == 0 {
            return Ok(Order::Asc);
        }
        if self.order_by.len() == 1 && is_chunk_primary_key_order(
            self.meta.table_name.as_str(),
            self.order_by[0].0.as_str(),
            primary_key,
        ) {
            return Ok(self.order_by[0].1);
        }
        let mut m: Vec<char> = Vec::new();
        push_str(&mut m, "chunk() only supports explicit ordering by the single primary key '");
        push_str(&mut m, primary_key);
        push_str(&mut m, "' for model '");
        push_str(&mut m, self.meta.table_name.as_str());
        push_str(&mut m, "'");
        Err(Error::InvalidQuery(string_of(&m)))
    }

    /// Rejects a query that recorded a reason it cannot run, then one with a
    /// condition that cannot be rendered.
    pub fn ensure_query_is_executable(&self) -> (r: Result<(), Error>)
        ensures
            self.invalid_query_reason is Some ==> (r matches Err(Error::InvalidQuery(m)) && m
                == self.invalid_query_reason.unwrap()),
            self.invalid_query_reason is None ==> match first_rejected(query_flat(*self)) {
                None => r is Ok,
                Some(c) => r matches Err(Error::InvalidQuery(m)) && m@ == rejection_message(
                    self.meta.table_name@,
                    c,
                ),
            },
    {
        match &self.invalid_query_reason {
            Some(reason) => Err(Error::InvalidQuery(reason.clone())),
            None => self.ensure_conditions_are_representable(),
        }
    }

    /// Starts walking the query's matches in batches of `chunk_size`, the
    /// model's single primary key serving as the cursor, so that rows already
    /// handed out may be changed or deleted without later batches skipping any.
    /// The query's filters, caching and LIMIT stay in effect; ordering
    /// explicitly by the primary key descending walks backwards. Fails as
    /// `chunk_rejection` says.
    pub fn chunk(self, chunk_size: u64) -> (r: Result<ChunkState, Error>)
        ensures
            match chunk_rejection(self, chunk_size) {
                Some(msg) => r matches Err(Error::InvalidQuery(m)) && m@ == msg,
                None => r matches Ok(s) && {
                    let key = self.meta.primary_keys@[0]@;
                    &&& s.wf()
                    &&& walk_base(self, s.base@, key, s.order)
                    &&& Some(s.order) == walk_order(self, key)
                    &&& s.chunk_size == chunk_size
                    &&& s.remaining == self.limit_value
                    &&& s.cursor_column@ == qualified(self.meta.table_name@, key)
                    &&& s.cursor is None
                    &&& !s.finished
                    &&& s.query == s.base@
                },
            },
    {
        match self.ensure_query_is_executable() {
            Err(e) => return Err(e),
            Ok(()) => {},
        }
        if chunk_size == 0 {
            let mut m: Vec<char> = Vec::new();
            push_str(&mut m, "chunk() requires chunk_size to be greater than 0");
            return Err(Error::InvalidQuery(string_of(&m)));
        }
        let offset = match self.offset_value {
            Some(o) => o,
            None => 0,
        };
        if offset > 0 {
            let mut m: Vec<char> = Vec::new();
            push_str(
                &mut m,
                "chunk() does not support offset(); use page()/get() for fixed windows or chunk over primary-key order",
            );
            return Err(Error::InvalidQuery(string_of(&m)));
        }
        let primary_key = match self.chunk_primary_key_column() {
            Err(e) => return Err(e),
            Ok(k) => k,
        };
        let order = match self.chunk_order(primary_key.as_str()) {
            Err(e) => return Err(e),
            Ok(o) => o,
        };
        let remaining = self.limit_value;
        let explicit_cache_key = match &self.cache_key {
            Some(k) => Some(k.clone()),
            None => None,
        };
        let mut column: Vec<char> = Vec::new();
        push_str(&mut column, self.meta.table_name.as_str());
        push_str(&mut column, ".");
        push_str(&mut column, primary_key.as_str());
        let cursor_column = string_of(&column);
        let mut base = self;
        base.limit_value = None;
        base.offset_value = None;
        if base.order_by.len() == 0 {
            base.order_by.push((cursor_column.clone(), order));
        }
        let n = base.conditions.len();
        proof {
            assert(base.conditions@.take(n as int) =~= base.conditions@);
        }
        Ok(
            ChunkState {
                query: base,
                base: Ghost(base),
                chunk_size,
                remaining,
                order,
                cursor_column,
                base_conditions: n,
                explicit_cache_key,
                cursor: None,
                batch_limit: 0,
                finished: false,
            },
        )
    }
}

} // verus!

verus! {

impl QueryBuilder {
    /// The cache key a read of this query is looked up and stored under, or
    /// `None` when the read bypasses the cache: when caching is off, or the
    /// read runs inside a transaction (whose rows must neither outlive a
    /// rollback nor hide its own writes). Fails as
    /// `ensure_query_is_executable` does.
    pub fn read_cache_key(&self, in_transaction: bool) -> (r: Result<Option<String>, Error>)
        ensures
            self.invalid_query_reason is Some ==> (r matches Err(Error::InvalidQuery(m)) && m
                == self.invalid_query_reason.unwrap()),
            self.invalid_query_reason is None && first_rejected(query_flat(*self)) is Some ==> (r matches Err(
                Error::InvalidQuery(m),
            ) && m@ == rejection_message(self.meta.table_name@, first_rejected(query_flat(*self)).unwrap())),
            self.invalid_query_reason is None && first_rejected(query_flat(*self)) is None ==> match r {
                Ok(Some(k)) => self.cache_options is Some && !in_transaction && k@ == crate::cache_key::cache_key_of(
                    *self,
                ),
                Ok(None) => self.cache_options is None || in_transaction,
                Err(_) => false,
            },
    {
        match self.ensure_query_is_executable() {
            Err(e) => return Err(e),
            Ok(()) => {},
        }
        if self.cache_options.is_some() && !in_transaction {
            Ok(Some(self.generate_cache_key()))
        } else {
            Ok(None)
        }
    }
}

/// The keys of `rows` past `cursor`, in order.
pub open spec fn keys_after(rows: Seq<int>, cursor: int) -> Seq<int>
    decreases rows.len(),
{
    if rows.len() == 0 {
        Seq::empty()
    } else {
        keys_after(rows.drop_last(), cursor) + if rows.last() > cursor {
            seq![rows.last()]
        } else {
            Seq::<int>::empty()
        }
    }
}

/// The rows a batch query matches, as keys in walk order: those past the
/// cursor (all of them before the first batch), at most `size` of them.
pub open spec fn batch_rows(rows: Seq<int>, cursor: Option<int>, size: nat) -> Seq<int> {
    let past = match cursor {
        None => rows,
        Some(c) => keys_after(rows, c),
    };
    if past.len() <= size {
        past
    } else {
        past.take(size as int)
    }
}

/// The rows a walk without a LIMIT of its own hands out from `cursor` on,
/// with `steps` batches at most: each batch is what its batch query matches;
/// an empty batch ends the walk, and so does a short one after it is handed
/// out; otherwise the next batch resumes after the batch's last key.
pub open spec fn walk_rows(rows: Seq<int>, cursor: Option<int>, size: nat, steps: nat) -> Seq<int>
    decreases steps,
{
    if steps == 0 {
        Seq::empty()
    } else {
        let batch = batch_rows(rows, cursor, size);
        if batch.len() == 0 {
            Seq::empty()
        } else if batch.len() < size {
            batch
        } else {
            batch + walk_rows(rows, Some(batch.last()), size, (steps - 1) as nat)
        }
    }
}

/// The keys strictly increase.
pub open spec fn increasing(rows: Seq<int>) -> bool {
    forall|i: int, j: int| 0 <= i < j < rows.len() ==> rows[i] < rows[j]
}

proof fn lemma_none_after(rows: Seq<int>, cursor: int)
    requires
        forall|i: int| 0 <= i < rows.len() ==> rows[i] <= cursor,
    ensures
        keys_after(rows, cursor) == Seq::<int>::empty(),
    decreases rows.len(),
{
    if rows.len() > 0 {
        lemma_none_after(rows.drop_last(), cursor);
        assert(rows.last() <= cursor);
    }
}

proof fn lemma_keys_after_key(rows: Seq<int>, m: int)
    requires
        increasing(rows),
        0 <= m < rows.len(),
    ensures
        keys_after(rows, rows[m]) == rows.skip(m + 1),
    decreases rows.len(),
{
    let p = rows.drop_last();
    if m == rows.len() - 1 {
        lemma_none_after(p, rows[m]);
        assert(rows.skip(m + 1) =~= Seq::<int>::empty());
    } else {
        assert(p[m] == rows[m]);
        lemma_keys_after_key(p, m);
        assert(rows.last() > rows[m]);
        assert(p.skip(m + 1) + seq![rows.last()] =~= rows.skip(m + 1));
    }
}

proof fn lemma_walk_from(rows: Seq<int>, m: int, size: nat, steps: nat)
    requires
        increasing(rows),
        0 <= m <= rows.len(),
        size > 0,
        steps > rows.len() - m,
    ensures
        walk_rows(rows, if m == 0 { None } else { Some(rows[m - 1]) }, size, steps) == rows.skip(m),
    decreases steps,
{
    let cursor = if m == 0 { None } else { Some(rows[m - 1]) };
    if m == 0 {
        assert(rows.skip(0) =~= rows);
    } else {
        lemma_keys_after_key(rows, m - 1);
    }
    let batch = batch_rows(rows, cursor, size);
    if batch.len() == size && size > 0 && rows.len() - m > size {
        let next = m + size;
        assert(batch =~= rows.skip(m).take(size as int));
        assert(batch.last() == rows[next - 1]);
        lemma_walk_from(rows, next, size, (steps - 1) as nat);
        assert(batch + rows.skip(next) =~= rows.skip(m));
    } else if batch.len() == size && rows.len() - m == size {
        let next = m + size;
        lemma_walk_from(rows, next, size, (steps - 1) as nat);
        assert(batch + rows.skip(next) =~= rows.skip(m));
    }
}

/// A walk with no LIMIT of its own hands out every row the query matches,
/// each once and in key order, whatever the batch size: when each batch
/// query returns the rows past its cursor in key order, at most the batch
/// size of them (what `next_batch` asks for), and `record_batch` moves the
/// cursor to the last key of each batch and ends the walk on an empty or
/// short batch, the batches put end to end are the matching rows. `rows` are
/// the matching rows' keys in walk order, increasing (a descending walk is
/// the same walk over the negated keys); `steps` bounds the number of batches
/// and only needs to exceed the number of rows.
pub proof fn lemma_batches_cover_the_rows(rows: Seq<int>, size: nat, steps: nat)
    requires
        increasing(rows),
        size > 0,
        steps > rows.len(),
    ensures
        walk_rows(rows, None, size, steps) == rows,
{
    lemma_walk_from(rows, 0, size, steps);
    assert(rows.skip(0) =~= rows);
}

} // verus!
