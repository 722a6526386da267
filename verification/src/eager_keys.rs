//! The key handling of eager loading: filtering a query by a primary-key
//! value, and the one `IN` query that loads the related rows of many parents
//! at once.

use vstd::prelude::*;
use crate::builder::QueryBuilder;
use crate::condition::{ConditionValue, Operator};
use crate::direct::{json_same, otherwise_fresh, same_json};
use crate::error::Error;
use crate::json::JsonValue;
use crate::model::ModelMeta;
use crate::relations::{EagerQueryBuilder, RelationTree};
use crate::text::{push_str, string_of};

verus! {

/// The message of a key value whose parts do not match the key columns.
pub open spec fn key_mismatch_message(table: Seq<char>) -> Seq<char> {
    "Primary key value for "@ + table + " did not match declared key columns"@
}

/// Filters `query` by a primary-key value given as one value per key column,
/// in column order: `column = value` for each. Fails when the number of
/// values is not the number of key columns.
pub fn apply_primary_key_filter(query: QueryBuilder, values: Vec<JsonValue>) -> (r: Result<QueryBuilder, Error>)
    ensures
        values@.len() != query.meta.primary_keys@.len() ==> (r matches Err(Error::InvalidQuery(m)) && m@
            == key_mismatch_message(query.meta.table_name@)),
        values@.len() == query.meta.primary_keys@.len() ==> (r matches Ok(q) && {
            &&& q.conditions@.len() == query.conditions@.len() + values@.len()
            &&& q.conditions@.take(query.conditions@.len() as int) == query.conditions@
            &&& forall|k: int|
                0 <= k < values@.len() ==> {
                    let c = #[trigger] q.conditions@[query.conditions@.len() + k];
                    &&& c.column@ == query.meta.primary_keys@[k]@
                    &&& c.operator == Operator::Eq
                    &&& c.value == ConditionValue::Single(values@[k])
                }
            &&& q.or_groups == query.or_groups
            &&& crate::builder::same_but_filters(q, query)
        }),
{
    if values.len() != query.meta.primary_keys.len() {
        let mut m: Vec<char> = Vec::new();
        push_str(&mut m, "Primary key value for ");
        push_str(&mut m, query.meta.table_name.as_str());
        push_str(&mut m, " did not match declared key columns");
        return Err(Error::InvalidQuery(string_of(&m)));
    }
    let n = query.conditions.len();
    let ghost base = query;
    let mut q = query;
    let mut i: usize = 0;
    assert(q.conditions@.take(n as int) =~= base.conditions@);
    while i < values.len()
        invariant
            i <= values@.len(),
            values@.len() == base.meta.primary_keys@.len(),
            n == base.conditions@.len(),
            q.meta == base.meta,
            q.conditions@.len() == n + i,
            q.conditions@.take(n as int) == base.conditions@,
            forall|k: int|
                0 <= k < i ==> {
                    let c = #[trigger] q.conditions@[n + k];
                    &&& c.column@ == base.meta.primary_keys@[k]@
                    &&& c.operator == Operator::Eq
                    &&& c.value == ConditionValue::Single(values@[k])
                },
            q.or_groups == base.or_groups,
            crate::builder::same_but_filters(q, base),
        decreases values@.len() - i,
    {
        let column = q.meta.primary_keys[i].clone();
        let ghost before = q;
        q = q.where_eq(column.as_str(), values[i].duplicate());
        proof {
            assert(q.conditions@.take(n as int) =~= before.conditions@.take(n as int));
            assert forall|k: int| 0 <= k < i + 1 implies {
                let c = #[trigger] q.conditions@[n + k];
                &&& c.column@ == base.meta.primary_keys@[k]@
                &&& c.operator == Operator::Eq
                &&& c.value == ConditionValue::Single(values@[k])
            } by {
                if k < i {
                    assert(q.conditions@[n + k] == before.conditions@[n + k]);
                }
            }
        }
        i = i + 1;
    }
    Ok(q)
}

/// The keys an eager load looks up: each non-null key once (the first of
/// equal keys), in order.
pub open spec fn lookup_keys(keys: Seq<JsonValue>) -> Seq<JsonValue>
    decreases keys.len(),
{
    if keys.len() == 0 {
        Seq::empty()
    } else {
        let kept = lookup_keys(keys.drop_last());
        if keys.last() is Null || exists|j: int| 0 <= j < kept.len() && same_json(#[trigger] kept[j], keys.last()) {
            kept
        } else {
            kept.push(keys.last())
        }
    }
}

fn contains_same(kept: &Vec<JsonValue>, key: &JsonValue) -> (b: bool)
    ensures
        b == exists|j: int| 0 <= j < kept@.len() && same_json(#[trigger] kept@[j], *key),
{
    let mut i: usize = 0;
    while i < kept.len()
        invariant
            i <= kept@.len(),
            forall|j: int| 0 <= j < i ==> !same_json(#[trigger] kept@[j], *key),
        decreases kept.len() - i,
    {
        if json_same(&kept[i], key) {
            return true;
        }
        i = i + 1;
    }
    false
}

/// The non-null keys, each once, in order (see `lookup_keys`).
pub fn grouped_lookup_keys(keys: &Vec<JsonValue>) -> (r: Vec<JsonValue>)
    ensures
        r@ == lookup_keys(keys@),
{
    let mut kept: Vec<JsonValue> = Vec::new();
    let mut i: usize = 0;
    while i < keys.len()
        invariant
            i <= keys@.len(),
            kept@ == lookup_keys(keys@.take(i as int)),
        decreases keys.len() - i,
    {
        proof {
            assert(keys@.take(i + 1).drop_last() =~= keys@.take(i as int));
            assert(keys@.take(i + 1).last() == keys@[i as int]);
        }
        if !keys[i].is_null() && !contains_same(&kept, &keys[i]) {
            kept.push(keys[i].duplicate());
        }
        i = i + 1;
    }
    assert(keys@.take(keys@.len() as int) =~= keys@);
    kept
}

/// The one query loading the related rows of many parents: `meta`'s rows
/// whose `foreign_key` is one of the lookup keys, and, for a polymorphic
/// relation, whose type column holds the type value; `None` when no key is
/// left to look up.
pub fn grouped_key_query(
    meta: ModelMeta,
    keys: &Vec<JsonValue>,
    foreign_key: &str,
    morph_type: Option<(&str, &str)>,
) -> (r: Option<QueryBuilder>)
    ensures
        lookup_keys(keys@).len() == 0 ==> r is None,
        lookup_keys(keys@).len() > 0 ==> (r matches Some(q) && {
            &&& q.meta == meta
            &&& q.conditions@[0].column@ == foreign_key@
            &&& q.conditions@[0].operator == Operator::In
            &&& (q.conditions@[0].value matches ConditionValue::List(vs) && vs@ == lookup_keys(keys@))
            &&& match morph_type {
                None => q.conditions@.len() == 1,
                Some((column, value)) => {
                    &&& q.conditions@.len() == 2
                    &&& q.conditions@[1].column@ == column@
                    &&& q.conditions@[1].operator == Operator::Eq
                    &&& (q.conditions@[1].value matches ConditionValue::Single(JsonValue::Str(s)) && s@ == value@)
                },
            }
            &&& otherwise_fresh(q)
        }),
{
    let lookup = grouped_lookup_keys(keys);
    if lookup.len() == 0 {
        return None;
    }
    let q = QueryBuilder::new(meta).where_in(foreign_key, lookup);
    match morph_type {
        None => Some(q),
        Some((column, value)) => {
            let q2 = q.where_eq(column, JsonValue::Str(value.to_string()));
            assert(q2.conditions@[0] == q2.conditions@.drop_last()[0]);
            Some(q2)
        },
    }
}

impl EagerQueryBuilder {
    /// An eager query over `query`, with no relations requested yet.
    pub fn from_query(query: QueryBuilder) -> (r: Self)
        ensures
            r.query == query,
            r.relation_tree.children@.len() == 0,
    {
        EagerQueryBuilder { query, relation_tree: RelationTree::new() }
    }
}

} // verus!
