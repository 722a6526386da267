//! The pieces relation loaders share: the configuration check, carrying a
//! cached relation value over, model column resolution, placeholder
//! allocation, scoped columns, the soft-delete filter, and the recursive
//! query that loads a self-referencing tree.

use vstd::prelude::*;
use crate::dialect::{DatabaseType, push_quoted, quoted};
use crate::error::Error;
use crate::json::JsonValue;
use crate::model::{ModelMeta, lookup_column};
use crate::text::{chars_of, decimal, push_str, push_u64, string_of};

verus! {

/// The message of an unconfigured relation.
pub open spec fn unconfigured_message(name: Seq<char>) -> Seq<char> {
    name + " relation is not configured; use "@ + name + "::new(...) or a macro-generated relation field"@
}

/// Rejects a relation some of whose required settings are empty.
pub fn ensure_relation_configured(relation_name: &str, required_values: &[&str]) -> (r: Result<(), Error>)
    ensures
        r is Ok <==> forall|i: int| 0 <= i < required_values@.len() ==> (#[trigger] required_values@[i])@.len() > 0,
        r is Err ==> (r matches Err(Error::Query(m)) && m@ == unconfigured_message(relation_name@)),
{
    let mut i: usize = 0;
    while i < required_values.len()
        invariant
            i <= required_values@.len(),
            forall|k: int| 0 <= k < i ==> (#[trigger] required_values@[k])@.len() > 0,
        decreases required_values@.len() - i,
    {
        if chars_of(required_values[i]).len() == 0 {
            let mut m: Vec<char> = Vec::new();
            push_str(&mut m, relation_name);
            push_str(&mut m, " relation is not configured; use ");
            push_str(&mut m, relation_name);
            push_str(&mut m, "::new(...) or a macro-generated relation field");
            return Err(Error::Query(string_of(&m)));
        }
        i = i + 1;
    }
    Ok(())
}

/// Carries a cached relation value over from the previous state of a model:
/// when caching is allowed without context and there was a value, or when
/// both states belong to the same runtime context.
pub fn preserve_cached_value<C: Clone>(
    cached: &mut Option<C>,
    previous_cached: &Option<C>,
    allow_cached_without_context: bool,
    same_runtime_context: bool,
)
    ensures
        ((allow_cached_without_context && previous_cached.is_some()) || same_runtime_context) ==> {
            &&& final(cached).is_some() == previous_cached.is_some()
            &&& previous_cached.is_some() ==> cloned::<C>(previous_cached.unwrap(), final(cached).unwrap())
        },
        !((allow_cached_without_context && previous_cached.is_some()) || same_runtime_context) ==> *final(cached)
            == *old(cached),
{
    if (allow_cached_without_context && previous_cached.is_some()) || same_runtime_context {
        *cached = previous_cached.clone();
    }
}

/// The message of a column the model does not have.
pub open spec fn unknown_column_message(name: Seq<char>, table: Seq<char>) -> Seq<char> {
    "Unknown self-reference column '"@ + name + "' for table '"@ + table + "'"@
}

/// Resolves a field or column name of the model to its column.
pub fn resolve_model_column_name(meta: &ModelMeta, name: &str) -> (r: Result<String, Error>)
    ensures
        match lookup_column(meta.fields@, name@) {
            Some(c) => r matches Ok(s) && s@ == c,
            None => r matches Err(Error::Query(m)) && m@ == unknown_column_message(name@, meta.table_name@),
        },
{
    let cs = chars_of(name);
    let mut i: usize = 0;
    let fs = &meta.fields;
    while i < fs.len()
        invariant
            i <= fs@.len(),
            fs@ == meta.fields@,
            cs@ == name@,
            lookup_column(fs@.take(i as int), name@) is None,
        decreases fs.len() - i,
    {
        proof {
            assert(fs@.take(i + 1).drop_last() =~= fs@.take(i as int));
            assert(fs@.take(i + 1).last() == fs@[i as int]);
        }
        let f0 = chars_of(fs[i].0.as_str());
        let f1 = chars_of(fs[i].1.as_str());
        if crate::text::chars_eq(&f0, &cs) || crate::text::chars_eq(&f1, &cs) {
            proof {
                assert(fs@.take(i + 1).last().0@ == name@ || fs@.take(i + 1).last().1@ == name@);
                assert(lookup_column(fs@.take(i + 1), name@) == Some(fs@[i as int].1@));
                crate::model::lemma_lookup_prefix(fs@, name@, i as int + 1);
            }
            return Ok(fs[i].1.clone());
        }
        i = i + 1;
    }
    assert(fs@.take(fs@.len() as int) =~= fs@);
    let mut m: Vec<char> = Vec::new();
    push_str(&mut m, "Unknown self-reference column '");
    push_str(&mut m, name);
    push_str(&mut m, "' for table '");
    push_str(&mut m, meta.table_name.as_str());
    push_str(&mut m, "'");
    Err(Error::Query(string_of(&m)))
}

/// The placeholder of the next bound value on `db`: `$n` (1-based) on
/// Postgres, `?` elsewhere.
pub open spec fn placeholder(db: DatabaseType, n: nat) -> Seq<char> {
    match db {
        DatabaseType::Postgres => "$"@ + decimal(n),
        _ => "?"@,
    }
}

/// Binds `value` and returns its placeholder.
pub fn push_param(db_type: DatabaseType, params: &mut Vec<JsonValue>, value: JsonValue) -> (s: String)
    requires
        old(params)@.len() < u64::MAX,
    ensures
        final(params)@ == old(params)@.push(value),
        s@ == placeholder(db_type, (old(params)@.len() + 1) as nat),
{
    let mut out: Vec<char> = Vec::new();
    match db_type {
        DatabaseType::Postgres => {
            push_str(&mut out, "$");
            push_u64(&mut out, params.len() as u64 + 1);
        },
        _ => push_str(&mut out, "?"),
    }
    params.push(value);
    string_of(&out)
}

/// `scope.column`, each part quoted.
pub open spec fn scoped(db: DatabaseType, scope: Seq<char>, column: Seq<char>) -> Seq<char> {
    quoted(db, scope) + "."@ + quoted(db, column)
}

fn push_scoped(out: &mut Vec<char>, db: DatabaseType, scope: &str, column: &str)
    ensures
        final(out)@ == old(out)@ + scoped(db, scope@, column@),
{
    let s = chars_of(scope);
    push_quoted(out, db, &s);
    push_str(out, ".");
    let c = chars_of(column);
    push_quoted(out, db, &c);
}

/// `scope.column`, each part quoted.
pub fn scoped_column(db_type: DatabaseType, scope: &str, column: &str) -> (s: String)
    ensures
        s@ == scoped(db_type, scope@, column@),
{
    let mut out: Vec<char> = Vec::new();
    push_scoped(&mut out, db_type, scope, column);
    string_of(&out)
}

/// The soft-delete filter on rows seen through `scope`, for a model with soft
/// deletes.
pub open spec fn soft_delete_filter(meta: ModelMeta, db: DatabaseType, scope: Seq<char>) -> Option<Seq<char>> {
    if meta.soft_delete {
        Some(scoped(db, scope, meta.deleted_at_column@) + " IS NULL"@)
    } else {
        None
    }
}

/// The soft-delete filter on rows seen through `scope` (see
/// `soft_delete_filter`).
pub fn soft_delete_clause(meta: &ModelMeta, db_type: DatabaseType, scope: &str) -> (r: Option<String>)
    ensures
        match r {
            Some(s) => soft_delete_filter(*meta, db_type, scope@) == Some(s@),
            None => soft_delete_filter(*meta, db_type, scope@) is None,
        },
{
    if meta.soft_delete {
        let mut out: Vec<char> = Vec::new();
        push_scoped(&mut out, db_type, scope, meta.deleted_at_column.as_str());
        push_str(&mut out, " IS NULL");
        Some(string_of(&out))
    } else {
        None
    }
}

/// `first` followed by ` AND <clause>` when there is a clause.
pub open spec fn with_clause(first: Seq<char>, clause: Option<Seq<char>>) -> Seq<char> {
    match clause {
        Some(c) => first + " AND "@ + c,
        None => first,
    }
}

/// The head of the tree query: the CTE's name and columns.
pub open spec fn tree_head(db: DatabaseType) -> Seq<char> {
    "WITH RECURSIVE "@ + quoted(db, "tide_tree"@) + " ("@ + quoted(db, "pk"@) + ", "@ + quoted(db, "tree_key"@) + ", "@
        + quoted(db, "depth"@) + ") AS ( "@
}

/// The anchor member: the children of the parent row, at depth 1.
pub open spec fn tree_base(meta: ModelMeta, db: DatabaseType, fk: Seq<char>, lk: Seq<char>, pk: Seq<char>) -> Seq<char> {
    "SELECT "@ + scoped(db, "node"@, pk) + " AS "@ + quoted(db, "pk"@) + ", "@ + scoped(db, "node"@, lk) + " AS "@
        + quoted(db, "tree_key"@) + ", 1 AS "@ + quoted(db, "depth"@) + " "@ + "FROM "@ + quoted(db, meta.table_name@) + " "@
        + quoted(db, "node"@) + " "@ + "WHERE "@ + with_clause(
        scoped(db, "node"@, fk) + " = "@ + placeholder(db, 1),
        soft_delete_filter(meta, db, "node"@),
    ) + " "@ + "UNION ALL "@
}

/// The recursive member: the children of the rows found so far, one level
/// deeper, while the depth bound allows.
pub open spec fn tree_rec(meta: ModelMeta, db: DatabaseType, fk: Seq<char>, lk: Seq<char>, pk: Seq<char>) -> Seq<char> {
    "SELECT "@ + scoped(db, "child"@, pk) + " AS "@ + quoted(db, "pk"@) + ", "@ + scoped(db, "child"@, lk) + " AS "@
        + quoted(db, "tree_key"@) + ", "@ + quoted(db, "tree"@) + "."@ + quoted(db, "depth"@) + " + 1 AS "@ + quoted(
        db,
        "depth"@,
    ) + " "@ + "FROM "@ + quoted(db, meta.table_name@) + " "@ + quoted(db, "child"@) + " "@ + "INNER JOIN "@ + quoted(
        db,
        "tide_tree"@,
    ) + " "@ + quoted(db, "tree"@) + " ON "@ + scoped(db, "child"@, fk) + " = "@ + quoted(db, "tree"@) + "."@
        + quoted(db, "tree_key"@) + " "@ + "WHERE "@ + with_clause(
        quoted(db, "tree"@) + "."@ + quoted(db, "depth"@) + " < "@ + placeholder(db, 2),
        soft_delete_filter(meta, db, "child"@),
    ) + " "@ + ") "@
}

/// The outer select: the model's rows found in the tree, by depth.
pub open spec fn tree_tail(meta: ModelMeta, db: DatabaseType, pk: Seq<char>) -> Seq<char> {
    "SELECT "@ + quoted(db, "result_node"@) + ".* "@ + "FROM "@ + quoted(db, meta.table_name@) + " "@ + quoted(
        db,
        "result_node"@,
    ) + " "@ + "INNER JOIN "@ + quoted(db, "tide_tree"@) + " "@ + quoted(db, "result_tree"@) + " ON "@ + scoped(
        db,
        "result_node"@,
        pk,
    ) + " = "@ + quoted(db, "result_tree"@) + "."@ + quoted(db, "pk"@) + " "@ + "ORDER BY "@ + quoted(db, "result_tree"@)
        + "."@ + quoted(db, "depth"@)
}

/// The recursive query loading every descendant of a parent row, down to a
/// depth, each row tagged with its depth and returned ordered by it.
pub open spec fn tree_sql(meta: ModelMeta, db: DatabaseType, fk: Seq<char>, lk: Seq<char>, pk: Seq<char>) -> Seq<char> {
    tree_head(db) + tree_base(meta, db, fk, lk, pk) + tree_rec(meta, db, fk, lk, pk) + tree_tail(meta, db, pk)
}

/// The model's primary-key name as the tree query resolves it: the first key
/// column, or empty when the model declares none.
pub open spec fn primary_key_name(meta: ModelMeta) -> Seq<char> {
    if meta.primary_keys@.len() > 0 {
        meta.primary_keys@[0]@
    } else {
        Seq::empty()
    }
}

fn push_q(out: &mut Vec<char>, db: DatabaseType, s: &str)
    ensures
        final(out)@ == old(out)@ + quoted(db, s@),
{
    let c = chars_of(s);
    push_quoted(out, db, &c);
}

fn push_with_clause(out: &mut Vec<char>, clause: Option<String>)
    ensures
        final(out)@ == with_clause(old(out)@, match clause {
            Some(c) => Some(c@),
            None => None,
        }),
{
    match clause {
        Some(c) => {
            push_str(out, " AND ");
            push_str(out, c.as_str());
        },
        None => {},
    }
}

fn tree_head_chars(db: DatabaseType) -> (out: Vec<char>)
    ensures
        out@ == tree_head(db),
{
    let mut out: Vec<char> = Vec::new();
    push_str(&mut out, "WITH RECURSIVE ");
    push_q(&mut out, db, "tide_tree");
    push_str(&mut out, " (");
    push_q(&mut out, db, "pk");
    push_str(&mut out, ", ");
    push_q(&mut out, db, "tree_key");
    push_str(&mut out, ", ");
    push_q(&mut out, db, "depth");
    push_str(&mut out, ") AS ( ");
    assert(out@ =~= tree_head(db));
    out
}

fn tree_base_chars(meta: &ModelMeta, db: DatabaseType, fk: &str, lk: &str, pk: &str, p1: &str) -> (out: Vec<char>)
    requires
        p1@ == placeholder(db, 1),
    ensures
        out@ == tree_base(*meta, db, fk@, lk@, pk@),
{
    let mut base: Vec<char> = Vec::new();
    push_str(&mut base, "SELECT ");
    push_scoped(&mut base, db, "node", pk);
    push_str(&mut base, " AS ");
    push_q(&mut base, db, "pk");
    push_str(&mut base, ", ");
    push_scoped(&mut base, db, "node", lk);
    push_str(&mut base, " AS ");
    push_q(&mut base, db, "tree_key");
    push_str(&mut base, ", 1 AS ");
    push_q(&mut base, db, "depth");
    push_str(&mut base, " ");
    push_str(&mut base, "FROM ");
    push_q(&mut base, db, meta.table_name.as_str());
    push_str(&mut base, " ");
    push_q(&mut base, db, "node");
    push_str(&mut base, " ");
    push_str(&mut base, "WHERE ");
    let mut bw: Vec<char> = Vec::new();
    push_scoped(&mut bw, db, "node", fk);
    push_str(&mut bw, " = ");
    push_str(&mut bw, p1);
    push_with_clause(&mut bw, soft_delete_clause(meta, db, "node"));
    crate::dialect::push_chars(&mut base, &bw);
    push_str(&mut base, " ");
    push_str(&mut base, "UNION ALL ");
    assert(base@ =~= tree_base(*meta, db, fk@, lk@, pk@));
    base
}

fn tree_rec_chars(meta: &ModelMeta, db: DatabaseType, fk: &str, lk: &str, pk: &str, p2: &str) -> (out: Vec<char>)
    requires
        p2@ == placeholder(db, 2),
    ensures
        out@ == tree_rec(*meta, db, fk@, lk@, pk@),
{
    let mut rec: Vec<char> = Vec::new();
    push_str(&mut rec, "SELECT ");
    push_scoped(&mut rec, db, "child", pk);
    push_str(&mut rec, " AS ");
    push_q(&mut rec, db, "pk");
    push_str(&mut rec, ", ");
    push_scoped(&mut rec, db, "child", lk);
    push_str(&mut rec, " AS ");
    push_q(&mut rec, db, "tree_key");
    push_str(&mut rec, ", ");
    push_q(&mut rec, db, "tree");
    push_str(&mut rec, ".");
    push_q(&mut rec, db, "depth");
    push_str(&mut rec, " + 1 AS ");
    push_q(&mut rec, db, "depth");
    push_str(&mut rec, " ");
    push_str(&mut rec, "FROM ");
    push_q(&mut rec, db, meta.table_name.as_str());
    push_str(&mut rec, " ");
    push_q(&mut rec, db, "child");
    push_str(&mut rec, " ");
    push_str(&mut rec, "INNER JOIN ");
    push_q(&mut rec, db, "tide_tree");
    push_str(&mut rec, " ");
    push_q(&mut rec, db, "tree");
    push_str(&mut rec, " ON ");
    push_scoped(&mut rec, db, "child", fk);
    push_str(&mut rec, " = ");
    push_q(&mut rec, db, "tree");
    push_str(&mut rec, ".");
    push_q(&mut rec, db, "tree_key");
    push_str(&mut rec, " ");
    push_str(&mut rec, "WHERE ");
    let mut rw: Vec<char> = Vec::new();
    push_q(&mut rw, db, "tree");
    push_str(&mut rw, ".");
    push_q(&mut rw, db, "depth");
    push_str(&mut rw, " < ");
    push_str(&mut rw, p2);
    push_with_clause(&mut rw, soft_delete_clause(meta, db, "child"));
    crate::dialect::push_chars(&mut rec, &rw);
    push_str(&mut rec, " ");
    push_str(&mut rec, ") ");
    assert(rec@ =~= tree_rec(*meta, db, fk@, lk@, pk@));
    rec
}

fn tree_tail_chars(meta: &ModelMeta, db: DatabaseType, pk: &str) -> (out: Vec<char>)
    ensures
        out@ == tree_tail(*meta, db, pk@),
{
    let mut tail: Vec<char> = Vec::new();
    push_str(&mut tail, "SELECT ");
    push_q(&mut tail, db, "result_node");
    push_str(&mut tail, ".* ");
    push_str(&mut tail, "FROM ");
    push_q(&mut tail, db, meta.table_name.as_str());
    push_str(&mut tail, " ");
    push_q(&mut tail, db, "result_node");
    push_str(&mut tail, " ");
    push_str(&mut tail, "INNER JOIN ");
    push_q(&mut tail, db, "tide_tree");
    push_str(&mut tail, " ");
    push_q(&mut tail, db, "result_tree");
    push_str(&mut tail, " ON ");
    push_scoped(&mut tail, db, "result_node", pk);
    push_str(&mut tail, " = ");
    push_q(&mut tail, db, "result_tree");
    push_str(&mut tail, ".");
    push_q(&mut tail, db, "pk");
    push_str(&mut tail, " ");
    push_str(&mut tail, "ORDER BY ");
    push_q(&mut tail, db, "result_tree");
    push_str(&mut tail, ".");
    push_q(&mut tail, db, "depth");
    assert(tail@ =~= tree_tail(*meta, db, pk@));
    tail
}

/// What building the tree query answers (see `build_self_ref_tree_sql`).
pub open spec fn tree_query_outcome(
    meta: ModelMeta,
    foreign_key: Seq<char>,
    local_key: Seq<char>,
    parent_pk: JsonValue,
    max_depth: usize,
    db_type: DatabaseType,
    r: Result<(String, Vec<JsonValue>), Error>,
) -> bool {
    match (
            lookup_column(meta.fields@, foreign_key),
            lookup_column(meta.fields@, local_key),
            lookup_column(meta.fields@, primary_key_name(meta)),
        ) {
            (Some(fk), Some(lk), Some(pk)) => if max_depth <= i64::MAX {
                r matches Ok((sql, params)) && sql@ == tree_sql(meta, db_type, fk, lk, pk) && params@ == seq![
                    parent_pk,
                    JsonValue::Int(max_depth as i64),
                ]
            } else {
                r matches Err(Error::Query(m)) && m@ == "Self-reference tree depth exceeds i64 range"@
            },
            (None, _, _) => r matches Err(Error::Query(m)) && m@ == unknown_column_message(
                foreign_key,
                meta.table_name@,
            ),
            (Some(_), None, _) => r matches Err(Error::Query(m)) && m@ == unknown_column_message(
                local_key,
                meta.table_name@,
            ),
            (Some(_), Some(_), None) => r matches Err(Error::Query(m)) && m@ == unknown_column_message(
                primary_key_name(meta),
                meta.table_name@,
            ),
        }
}

/// The query loading the tree below the row whose `foreign_key` children
/// point at `parent_pk`, to `max_depth` levels, with its two bound values:
/// the parent key and the depth (see `tree_sql`). Fails when a column does not
/// resolve, or the depth does not fit in `i64`.
#[verifier::spinoff_prover]
#[verifier::rlimit(60)]
pub fn build_self_ref_tree_sql(
    meta: &ModelMeta,
    foreign_key: &str,
    local_key: &str,
    parent_pk: JsonValue,
    max_depth: usize,
    db_type: DatabaseType,
) -> (r: Result<(String, Vec<JsonValue>), Error>)
    ensures
        tree_query_outcome(*meta, foreign_key@, local_key@, parent_pk, max_depth, db_type, r),
{
    let fk = match resolve_model_column_name(meta, foreign_key) {
        Ok(c) => c,
        Err(e) => return Err(e),
    };
    let lk = match resolve_model_column_name(meta, local_key) {
        Ok(c) => c,
        Err(e) => return Err(e),
    };
    let pk_name = if meta.primary_keys.len() > 0 {
        meta.primary_keys[0].clone()
    } else {
        String::new()
    };
    let pk = match resolve_model_column_name(meta, pk_name.as_str()) {
        Ok(c) => c,
        Err(e) => return Err(e),
    };
    if max_depth as u64 > 0x7fff_ffff_ffff_ffffu64 {
        let mut m: Vec<char> = Vec::new();
        push_str(&mut m, "Self-reference tree depth exceeds i64 range");
        return Err(Error::Query(string_of(&m)));
    }
    let db = db_type;
    let mut params: Vec<JsonValue> = Vec::new();
    let p1 = push_param(db, &mut params, parent_pk);
    let p2 = push_param(db, &mut params, JsonValue::Int(max_depth as i64));
    assert(params@ =~= seq![parent_pk, JsonValue::Int(max_depth as i64)]);
    let mut out = tree_head_chars(db);
    let base = tree_base_chars(meta, db, fk.as_str(), lk.as_str(), pk.as_str(), p1.as_str());
    let rec = tree_rec_chars(meta, db, fk.as_str(), lk.as_str(), pk.as_str(), p2.as_str());
    let tail = tree_tail_chars(meta, db, pk.as_str());
    crate::dialect::push_chars(&mut out, &base);
    crate::dialect::push_chars(&mut out, &rec);
    crate::dialect::push_chars(&mut out, &tail);
    assert(out@ =~= tree_sql(*meta, db, fk@, lk@, pk@));
    Ok((string_of(&out), params))
}

} // verus!
