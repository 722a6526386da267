//! Rendering with bound values: every value a condition or HAVING clause
//! carries becomes a placeholder (`$n` on PostgreSQL, `?` elsewhere) and
//! travels beside the SQL, in placeholder order.

use vstd::prelude::*;
use crate::array_filter::{array_kind, array_operator, array_sql, bound_slot, push_array_sql};
use crate::builder::QueryBuilder;
use crate::render_select::{
    any_cte_recursive, any_recursive, bindings_at, from_sql, group_by_sql, order_sql, paging_sql,
    select_clause_sql,
};
use crate::structure::{CTE, UnionClause, cte_sql, union_keyword};
use crate::condition::{ConditionValue, Operator, OrGroup, WhereCondition, logical_keyword};
use crate::dialect::{DatabaseType, push_chars, quote_ident, quoted};
use crate::json::JsonValue;
use crate::model::ModelMeta;
use crate::relation_sql::{placeholder, push_param};
use crate::render_where::{
    column_sql, escape_clause, group_separator, is_representable, operator_label, operator_label_str,
    paren, push_column_sql, push_paren, representable, soft_delete_clauses,
};
use crate::text::{chars_of, push_joined_chars, push_str, seq_join, string_of, trim, trim_ws, vviews};

verus! {

/// The values a representable condition binds, in placeholder order;
/// equality with JSON null binds nothing (it renders as a null check).
pub open spec fn cond_params(c: WhereCondition, db: DatabaseType) -> Seq<JsonValue> {
    if !representable(c) {
        Seq::empty()
    } else {
        match c.value {
            ConditionValue::Single(v) => if (c.operator == Operator::Eq || c.operator == Operator::NotEq)
                && v is Null {
                Seq::empty()
            } else {
                seq![v]
            },
            ConditionValue::List(vs) => vs@,
            ConditionValue::Range(a, b) => seq![a, b],
            _ => Seq::empty(),
        }
    }
}

/// The placeholders `k + 1` to `k + n`, joined by `, `.
pub open spec fn placeholder_list(db: DatabaseType, k: nat, n: nat) -> Seq<char>
    decreases n,
{
    if n == 0 {
        Seq::empty()
    } else if n == 1 {
        placeholder(db, k + 1)
    } else {
        placeholder_list(db, k, (n - 1) as nat) + ", "@ + placeholder(db, k + n)
    }
}

/// A representable condition with its values bound from placeholder `k + 1`
/// on: the preview's shape with each value replaced by its placeholder.
pub open spec fn cond_bound(meta: ModelMeta, db: DatabaseType, c: WhereCondition, k: nat) -> Seq<char> {
    let col = column_sql(meta, db, c.column@);
    match c.value {
        ConditionValue::RawExpr(r) => if c.column@.len() == 0 {
            r@
        } else {
            col + " "@ + r@
        },
        ConditionValue::Single(v) => if c.operator == Operator::Eq && v is Null {
            col + " IS NULL"@
        } else if c.operator == Operator::NotEq && v is Null {
            col + " IS NOT NULL"@
        } else {
            match c.operator {
                Operator::Like => col + " LIKE "@ + placeholder(db, k + 1),
                Operator::NotLike => col + " NOT LIKE "@ + placeholder(db, k + 1),
                Operator::LikeEscaped => col + " LIKE "@ + placeholder(db, k + 1) + escape_clause(db),
                _ => col + " "@ + operator_label(c.operator) + " "@ + placeholder(db, k + 1),
            }
        },
        ConditionValue::List(vs) => {
            let ps = placeholder_list(db, k, vs@.len());
            match c.operator {
                Operator::In => col + " IN ("@ + ps + ")"@,
                Operator::NotIn => col + " NOT IN ("@ + ps + ")"@,
                Operator::EqAny => if db == DatabaseType::Postgres {
                    col + " = ANY(ARRAY["@ + ps + "])"@
                } else {
                    col + " IN ("@ + ps + ")"@
                },
                Operator::NeAll => if db == DatabaseType::Postgres {
                    col + " <> ALL(ARRAY["@ + ps + "])"@
                } else {
                    col + " NOT IN ("@ + ps + ")"@
                },
                _ => array_sql(db, col, array_kind(c.operator), vs@.len(), bound_slot(db, k)),
            }
        },
        ConditionValue::NoValue => if c.operator == Operator::IsNull {
            col + " IS NULL"@
        } else {
            col + " IS NOT NULL"@
        },
        ConditionValue::Range(_, _) => col + " BETWEEN "@ + placeholder(db, k + 1) + " AND "@
            + placeholder(db, k + 2),
        ConditionValue::Subquery(q) => if c.operator == Operator::SubqueryIn {
            col + " IN ("@ + q@ + ")"@
        } else {
            col + " NOT IN ("@ + q@ + ")"@
        },
    }
}

fn push_param_list(out: &mut Vec<char>, params: &mut Vec<JsonValue>, db: DatabaseType, vs: &Vec<JsonValue>)
    requires
        old(params)@.len() + vs@.len() < u64::MAX,
    ensures
        final(params)@ == old(params)@ + vs@,
        final(out)@ == old(out)@ + placeholder_list(db, old(params)@.len() as nat, vs@.len()),
{
    let ghost k = params@.len() as nat;
    let ghost base = out@;
    let mut i: usize = 0;
    while i < vs.len()
        invariant
            i <= vs@.len(),
            k + vs@.len() < u64::MAX,
            params@ == old(params)@ + vs@.take(i as int),
            k == old(params)@.len(),
            out@ == base + placeholder_list(db, k, i as nat),
        decreases vs.len() - i,
    {
        if i > 0 {
            push_str(out, ", ");
        }
        let p = push_param(db, params, vs[i].duplicate());
        push_str(out, p.as_str());
        assert(params@ =~= old(params)@ + vs@.take(i + 1));
        i = i + 1;
    }
    assert(vs@.take(vs@.len() as int) =~= vs@);
}

/// Appends a representable condition with its values bound.
#[verifier::spinoff_prover]
#[verifier::rlimit(80)]
pub fn push_condition_bound(
    out: &mut Vec<char>,
    params: &mut Vec<JsonValue>,
    meta: &ModelMeta,
    db: DatabaseType,
    c: &WhereCondition,
)
    requires
        representable(*c),
        old(params)@.len() + cond_params(*c, db).len() < u64::MAX,
    ensures
        final(out)@ == old(out)@ + cond_bound(*meta, db, *c, old(params)@.len() as nat),
        final(params)@ == old(params)@ + cond_params(*c, db),
{
    let ghost k = params@.len() as nat;
    let ghost base = out@;
    let cc = chars_of(c.column.as_str());
    match &c.value {
        ConditionValue::RawExpr(r) => {
            if cc.len() == 0 {
                push_str(out, r.as_str());
            } else {
                push_column_sql(out, meta, db, &cc);
                push_str(out, " ");
                push_str(out, r.as_str());
            }
        },
        ConditionValue::Single(v) => {
            push_column_sql(out, meta, db, &cc);
            let is_null = match v {
                JsonValue::Null => true,
                _ => false,
            };
            if is_null && matches!(c.operator, Operator::Eq) {
                push_str(out, " IS NULL");
            } else if is_null && matches!(c.operator, Operator::NotEq) {
                push_str(out, " IS NOT NULL");
            } else {
                match c.operator {
                    Operator::Like => push_str(out, " LIKE "),
                    Operator::NotLike => push_str(out, " NOT LIKE "),
                    Operator::LikeEscaped => push_str(out, " LIKE "),
                    _ => {
                        push_str(out, " ");
                        push_str(out, operator_label_str(c.operator));
                        push_str(out, " ");
                    },
                }
                let p = push_param(db, params, v.duplicate());
                push_str(out, p.as_str());
                if matches!(c.operator, Operator::LikeEscaped) {
                    match db {
                        DatabaseType::Postgres => push_str(out, " ESCAPE '\\'"),
                        _ => push_str(out, " ESCAPE '\\\\'"),
                    }
                }
            }
        },
        ConditionValue::List(vs) => {
            let mut col: Vec<char> = Vec::new();
            push_column_sql(&mut col, meta, db, &cc);
            let pg = matches!(db, DatabaseType::Postgres);
            if matches!(c.operator, Operator::In | Operator::NotIn | Operator::EqAny | Operator::NeAll) {
                push_chars(out, &col);
                match c.operator {
                    Operator::In => push_str(out, " IN ("),
                    Operator::NotIn => push_str(out, " NOT IN ("),
                    Operator::EqAny => if pg {
                        push_str(out, " = ANY(ARRAY[")
                    } else {
                        push_str(out, " IN (")
                    },
                    _ => if pg {
                        push_str(out, " <> ALL(ARRAY[")
                    } else {
                        push_str(out, " NOT IN (")
                    },
                }
                push_param_list(out, params, db, vs);
                if pg && matches!(c.operator, Operator::EqAny | Operator::NeAll) {
                    push_str(out, "])");
                } else {
                    push_str(out, ")");
                }
            } else {
                push_array_sql(out, params, true, db, &col, array_operator(c.operator), vs);
            }
        },
        ConditionValue::NoValue => {
            push_column_sql(out, meta, db, &cc);
            if matches!(c.operator, Operator::IsNull) {
                push_str(out, " IS NULL");
            } else {
                push_str(out, " IS NOT NULL");
            }
        },
        ConditionValue::Range(a, b) => {
            push_column_sql(out, meta, db, &cc);
            push_str(out, " BETWEEN ");
            let p = push_param(db, params, a.duplicate());
            push_str(out, p.as_str());
            push_str(out, " AND ");
            let p2 = push_param(db, params, b.duplicate());
            push_str(out, p2.as_str());
        },
        ConditionValue::Subquery(q) => {
            push_column_sql(out, meta, db, &cc);
            if matches!(c.operator, Operator::SubqueryIn) {
                push_str(out, " IN (");
            } else {
                push_str(out, " NOT IN (");
            }
            push_str(out, q.as_str());
            push_str(out, ")");
        },
    }
    assert(out@ =~= base + cond_bound(*meta, db, *c, k));
    assert(params@ =~= old(params)@ + cond_params(*c, db));
}

/// The values the conditions of `cs` bind, in order.
pub open spec fn conds_params(cs: Seq<WhereCondition>, db: DatabaseType) -> Seq<JsonValue>
    decreases cs.len(),
{
    if cs.len() == 0 {
        Seq::empty()
    } else {
        conds_params(cs.drop_last(), db) + cond_params(cs.last(), db)
    }
}

/// The parenthesized bound renderings of the representable conditions of
/// `cs`, numbered from placeholder `k + 1` on.
pub open spec fn cond_parts_bound(meta: ModelMeta, db: DatabaseType, cs: Seq<WhereCondition>, k: nat) -> Seq<
    Seq<char>,
>
    decreases cs.len(),
{
    if cs.len() == 0 {
        Seq::empty()
    } else {
        cond_parts_bound(meta, db, cs.drop_last(), k) + if representable(cs.last()) {
            seq![paren(cond_bound(meta, db, cs.last(), k + conds_params(cs.drop_last(), db).len()))]
        } else {
            Seq::<Seq<char>>::empty()
        }
    }
}

/// The values a group binds: its conditions', then its nested groups'.
pub open spec fn group_params(g: OrGroup, db: DatabaseType) -> Seq<JsonValue>
    decreases g,
{
    conds_params(g.conditions@, db) + groups_params(g.nested_groups@, db)
}

/// The values the groups of `gs` bind, in order.
pub open spec fn groups_params(gs: Seq<OrGroup>, db: DatabaseType) -> Seq<JsonValue>
    decreases gs,
{
    if gs.len() == 0 {
        Seq::empty()
    } else {
        groups_params(gs.drop_last(), db) + group_params(gs.last(), db)
    }
}

/// A group rendered with bound values from placeholder `k + 1` on: the
/// preview's shape with every value a placeholder.
pub open spec fn group_bound(meta: ModelMeta, db: DatabaseType, g: OrGroup, k: nat) -> Seq<char>
    decreases g,
{
    seq_join(
        cond_parts_bound(meta, db, g.conditions@, k) + group_parts_bound(
            meta,
            db,
            g.nested_groups@,
            k + conds_params(g.conditions@, db).len(),
        ),
        " "@ + logical_keyword(g.combine_with) + " "@,
    )
}

/// The parenthesized bound renderings of the groups of `gs` that render to
/// something, numbered from placeholder `k + 1` on.
pub open spec fn group_parts_bound(meta: ModelMeta, db: DatabaseType, gs: Seq<OrGroup>, k: nat) -> Seq<Seq<char>>
    decreases gs,
{
    if gs.len() == 0 {
        Seq::empty()
    } else {
        let t = group_bound(meta, db, gs.last(), k + groups_params(gs.drop_last(), db).len());
        group_parts_bound(meta, db, gs.drop_last(), k) + if t.len() == 0 {
            Seq::<Seq<char>>::empty()
        } else {
            seq![paren(t)]
        }
    }
}

proof fn lemma_conds_params_prefix(cs: Seq<WhereCondition>, i: int, db: DatabaseType)
    requires
        0 <= i <= cs.len(),
    ensures
        conds_params(cs.take(i), db).len() <= conds_params(cs, db).len(),
    decreases cs.len(),
{
    if i < cs.len() {
        assert(cs.take(i) =~= cs.drop_last().take(i));
        lemma_conds_params_prefix(cs.drop_last(), i, db);
    } else {
        assert(cs.take(i) =~= cs);
    }
}

proof fn lemma_groups_params_prefix(gs: Seq<OrGroup>, i: int, db: DatabaseType)
    requires
        0 <= i <= gs.len(),
    ensures
        groups_params(gs.take(i), db).len() <= groups_params(gs, db).len(),
    decreases gs.len(),
{
    if i < gs.len() {
        assert(gs.take(i) =~= gs.drop_last().take(i));
        lemma_groups_params_prefix(gs.drop_last(), i, db);
    } else {
        assert(gs.take(i) =~= gs);
    }
}

fn push_cond_parts_bound(
    parts: &mut Vec<Vec<char>>,
    params: &mut Vec<JsonValue>,
    meta: &ModelMeta,
    db: DatabaseType,
    cs: &Vec<WhereCondition>,
)
    requires
        old(params)@.len() + conds_params(cs@, db).len() < u64::MAX,
    ensures
        vviews(final(parts)@) == vviews(old(parts)@) + cond_parts_bound(*meta, db, cs@, old(params)@.len() as nat),
        final(params)@ == old(params)@ + conds_params(cs@, db),
{
    let ghost k = params@.len() as nat;
    let ghost base = vviews(parts@);
    let mut i: usize = 0;
    while i < cs.len()
        invariant
            i <= cs@.len(),
            k == old(params)@.len(),
            k + conds_params(cs@, db).len() < u64::MAX,
            base == vviews(old(parts)@),
            vviews(parts@) == base + cond_parts_bound(*meta, db, cs@.take(i as int), k),
            params@ == old(params)@ + conds_params(cs@.take(i as int), db),
        decreases cs.len() - i,
    {
        proof {
            assert(cs@.take(i + 1).drop_last() == cs@.take(i as int));
            assert(cs@.take(i + 1).last() == cs@[i as int]);
            lemma_conds_params_prefix(cs@, i + 1, db);
        }
        if is_representable(&cs[i]) {
            let mut v: Vec<char> = Vec::new();
            push_condition_bound(&mut v, params, meta, db, &cs[i]);
            assert(v@ =~= cond_bound(*meta, db, cs@[i as int], k + conds_params(cs@.take(i as int), db).len()));
            push_paren(parts, &v);
        }
        assert(vviews(parts@) =~= base + cond_parts_bound(*meta, db, cs@.take(i + 1), k));
        assert(params@ =~= old(params)@ + conds_params(cs@.take(i + 1), db));
        i = i + 1;
    }
    proof {
        crate::text::lemma_take_all(cs@);
    }
}

/// Renders a group with its values bound (see `group_bound`).
pub fn render_group_bound(params: &mut Vec<JsonValue>, meta: &ModelMeta, db: DatabaseType, g: &OrGroup) -> (r: Vec<
    char,
>)
    requires
        old(params)@.len() + group_params(*g, db).len() < u64::MAX,
    ensures
        r@ == group_bound(*meta, db, *g, old(params)@.len() as nat),
        final(params)@ == old(params)@ + group_params(*g, db),
    decreases *g,
{
    let ghost k = params@.len() as nat;
    let mut parts: Vec<Vec<char>> = Vec::new();
    assert(vviews(parts@) =~= Seq::<Seq<char>>::empty());
    push_cond_parts_bound(&mut parts, params, meta, db, &g.conditions);
    let ghost base = vviews(parts@);
    let ghost k2 = params@.len() as nat;
    assert(base =~= cond_parts_bound(*meta, db, g.conditions@, k));
    let gs = &g.nested_groups;
    let mut i: usize = 0;
    while i < gs.len()
        invariant
            i <= gs@.len(),
            gs@ == g.nested_groups@,
            k2 == k + conds_params(g.conditions@, db).len(),
            k2 + groups_params(gs@, db).len() < u64::MAX,
            params@.len() == k2 + groups_params(gs@.take(i as int), db).len(),
            params@ == old(params)@ + conds_params(g.conditions@, db) + groups_params(gs@.take(i as int), db),
            vviews(parts@) == base + group_parts_bound(*meta, db, gs@.take(i as int), k2),
        decreases gs.len() - i,
    {
        proof {
            assert(gs@.take(i + 1).drop_last() == gs@.take(i as int));
            assert(gs@.take(i + 1).last() == gs@[i as int]);
            assert(decreases_to!(*g => g.nested_groups@[i as int]));
            lemma_groups_params_prefix(gs@, i + 1, db);
        }
        let nested = render_group_bound(params, meta, db, &gs[i]);
        if nested.len() > 0 {
            push_paren(&mut parts, &nested);
        }
        assert(vviews(parts@) =~= base + group_parts_bound(*meta, db, gs@.take(i + 1), k2));
        assert(params@ =~= old(params)@ + conds_params(g.conditions@, db) + groups_params(gs@.take(i + 1), db));
        i = i + 1;
    }
    proof {
        crate::text::lemma_take_all(gs@);
    }
    let mut out: Vec<char> = Vec::new();
    push_joined_chars(&mut out, &parts, group_separator(g.combine_with));
    assert(out@ =~= group_bound(*meta, db, *g, k));
    assert(params@ =~= old(params)@ + group_params(*g, db));
    out
}

fn push_group_parts_bound(
    parts: &mut Vec<Vec<char>>,
    params: &mut Vec<JsonValue>,
    meta: &ModelMeta,
    db: DatabaseType,
    gs: &Vec<OrGroup>,
)
    requires
        old(params)@.len() + groups_params(gs@, db).len() < u64::MAX,
    ensures
        vviews(final(parts)@) == vviews(old(parts)@) + group_parts_bound(*meta, db, gs@, old(params)@.len() as nat),
        final(params)@ == old(params)@ + groups_params(gs@, db),
{
    let ghost k = params@.len() as nat;
    let ghost base = vviews(parts@);
    let mut i: usize = 0;
    while i < gs.len()
        invariant
            i <= gs@.len(),
            k == old(params)@.len(),
            k + groups_params(gs@, db).len() < u64::MAX,
            base == vviews(old(parts)@),
            params@ == old(params)@ + groups_params(gs@.take(i as int), db),
            vviews(parts@) == base + group_parts_bound(*meta, db, gs@.take(i as int), k),
        decreases gs.len() - i,
    {
        proof {
            assert(gs@.take(i + 1).drop_last() == gs@.take(i as int));
            assert(gs@.take(i + 1).last() == gs@[i as int]);
            lemma_groups_params_prefix(gs@, i + 1, db);
        }
        let nested = render_group_bound(params, meta, db, &gs[i]);
        if nested.len() > 0 {
            push_paren(parts, &nested);
        }
        assert(vviews(parts@) =~= base + group_parts_bound(*meta, db, gs@.take(i + 1), k));
        assert(params@ =~= old(params)@ + groups_params(gs@.take(i + 1), db));
        i = i + 1;
    }
    proof {
        crate::text::lemma_take_all(gs@);
    }
}

/// The values a WHERE clause binds: its conditions', then its groups'.
pub open spec fn where_params(q: QueryBuilder, db: DatabaseType) -> Seq<JsonValue> {
    conds_params(q.conditions@, db) + groups_params(q.or_groups@, db)
}

/// The WHERE body with bound values (without the keyword): the conditions,
/// the non-empty groups and the soft-delete filter, joined by ` AND `.
pub open spec fn where_bound(q: QueryBuilder, db: DatabaseType) -> Seq<char> {
    seq_join(
        cond_parts_bound(q.meta, db, q.conditions@, 0) + group_parts_bound(
            q.meta,
            db,
            q.or_groups@,
            conds_params(q.conditions@, db).len(),
        ) + soft_delete_clauses(q, db),
        " AND "@,
    )
}

/// A HAVING template with each `?` that has a value left replaced by the
/// next placeholder, numbered from `k + 1` on.
pub open spec fn having_bound(db: DatabaseType, t: Seq<char>, ps: Seq<JsonValue>, k: nat) -> Seq<char>
    decreases t.len(),
{
    if t.len() == 0 {
        Seq::empty()
    } else if t[0] == '?' && ps.len() > 0 {
        placeholder(db, k + 1) + having_bound(db, t.skip(1), ps.skip(1), k + 1)
    } else {
        seq![t[0]] + having_bound(db, t.skip(1), ps, k)
    }
}

/// The values a HAVING template binds: one per `?`, while values last.
pub open spec fn having_used(t: Seq<char>, ps: Seq<JsonValue>) -> Seq<JsonValue>
    decreases t.len(),
{
    if t.len() == 0 {
        Seq::empty()
    } else if t[0] == '?' && ps.len() > 0 {
        seq![ps[0]] + having_used(t.skip(1), ps.skip(1))
    } else {
        having_used(t.skip(1), ps)
    }
}

/// The values the first `n` HAVING templates bind.
pub open spec fn having_params_upto(q: QueryBuilder, n: nat) -> Seq<JsonValue>
    decreases n,
{
    if n == 0 {
        Seq::empty()
    } else {
        having_params_upto(q, (n - 1) as nat) + having_used(
            q.having_conditions@[n - 1]@,
            bindings_at(q, n - 1),
        )
    }
}

/// The values the HAVING clause binds.
pub open spec fn having_params(q: QueryBuilder) -> Seq<JsonValue> {
    having_params_upto(q, q.having_conditions@.len())
}

/// The first `n` HAVING templates with bound values, numbered from `k + 1`.
pub open spec fn having_parts_bound(q: QueryBuilder, db: DatabaseType, n: nat, k: nat) -> Seq<Seq<char>>
    decreases n,
{
    if n == 0 {
        Seq::empty()
    } else {
        having_parts_bound(q, db, (n - 1) as nat, k).push(
            having_bound(
                db,
                q.having_conditions@[n - 1]@,
                bindings_at(q, n - 1),
                k + having_params_upto(q, (n - 1) as nat).len(),
            ),
        )
    }
}

/// `HAVING <templates joined by AND> ` with bound values, or nothing.
pub open spec fn having_sql_bound(q: QueryBuilder, db: DatabaseType, k: nat) -> Seq<char> {
    if q.having_conditions@.len() == 0 {
        Seq::empty()
    } else {
        "HAVING "@ + seq_join(having_parts_bound(q, db, q.having_conditions@.len(), k), " AND "@) + " "@
    }
}

fn push_having_bound(out: &mut Vec<char>, params: &mut Vec<JsonValue>, db: DatabaseType, t: &Vec<char>, ps: &Vec<JsonValue>)
    requires
        old(params)@.len() + having_used(t@, ps@).len() < u64::MAX,
    ensures
        final(out)@ == old(out)@ + having_bound(db, t@, ps@, old(params)@.len() as nat),
        final(params)@ == old(params)@ + having_used(t@, ps@),
{
    let ghost base = out@;
    let ghost k0 = params@.len() as nat;
    let mut i: usize = 0;
    let mut j: usize = 0;
    assert(t@.skip(0) =~= t@);
    assert(ps@.skip(0) =~= ps@);
    assert(ps@.take(0) =~= Seq::<JsonValue>::empty());
    while i < t.len()
        invariant
            i <= t@.len(),
            j <= ps@.len(),
            k0 == old(params)@.len(),
            params@ == old(params)@ + ps@.take(j as int),
            having_used(t@, ps@) == ps@.take(j as int) + having_used(t@.skip(i as int), ps@.skip(j as int)),
            k0 + having_used(t@, ps@).len() < u64::MAX,
            base + having_bound(db, t@, ps@, k0) == out@ + having_bound(
                db,
                t@.skip(i as int),
                ps@.skip(j as int),
                (k0 + j) as nat,
            ),
        decreases t.len() - i,
    {
        let ghost rest = t@.skip(i as int);
        let ghost prest = ps@.skip(j as int);
        assert(rest.skip(1) =~= t@.skip(i + 1));
        assert(rest[0] == t@[i as int]);
        if t[i] == '?' && j < ps.len() {
            assert(prest.skip(1) =~= ps@.skip(j + 1));
            assert(prest[0] == ps@[j as int]);
            let p = push_param(db, params, ps[j].duplicate());
            push_str(out, p.as_str());
            assert(ps@.take(j + 1) =~= ps@.take(j as int).push(ps@[j as int]));
            assert(ps@.take(j as int) + (seq![ps@[j as int]] + having_used(t@.skip(i + 1), ps@.skip(j + 1)))
                =~= ps@.take(j + 1) + having_used(t@.skip(i + 1), ps@.skip(j + 1)));
            j = j + 1;
        } else {
            out.push(t[i]);
        }
        i = i + 1;
    }
    assert(t@.skip(t@.len() as int) =~= Seq::<char>::empty());
    assert(params@ =~= old(params)@ + having_used(t@, ps@));
}

proof fn lemma_having_params_prefix(q: QueryBuilder, i: nat, n: nat)
    requires
        i <= n,
    ensures
        having_params_upto(q, i).len() <= having_params_upto(q, n).len(),
    decreases n,
{
    if i < n {
        lemma_having_params_prefix(q, i, (n - 1) as nat);
    }
}

impl QueryBuilder {
    /// One condition rendered with its values bound from placeholder 1 on,
    /// and the values it binds; `None` when its operator and operand do not
    /// pair up.
    pub fn build_condition_bound(&self, c: &WhereCondition, db_type: DatabaseType) -> (r: Option<(String, Vec<JsonValue>)>)
        requires
            cond_params(*c, db_type).len() < u64::MAX,
        ensures
            match r {
                Some((sql, ps)) => representable(*c) && sql@ == cond_bound(self.meta, db_type, *c, 0) && ps@
                    == cond_params(*c, db_type),
                None => !representable(*c),
            },
    {
        if !is_representable(c) {
            return None;
        }
        let mut out: Vec<char> = Vec::new();
        let mut params: Vec<JsonValue> = Vec::new();
        push_condition_bound(&mut out, &mut params, &self.meta, db_type, c);
        assert(params@ =~= cond_params(*c, db_type));
        Some((string_of(&out), params))
    }

    /// The WHERE body with bound values and the values it binds (see
    /// `where_bound` and `where_params`).
    pub fn build_where_clause_with_condition_for_db(&self, db_type: DatabaseType) -> (r: (String, Vec<JsonValue>))
        requires
            where_params(*self, db_type).len() < u64::MAX,
        ensures
            r.0@ == where_bound(*self, db_type),
            r.1@ == where_params(*self, db_type),
    {
        let mut params: Vec<JsonValue> = Vec::new();
        let mut parts: Vec<Vec<char>> = Vec::new();
        assert(vviews(parts@) =~= Seq::<Seq<char>>::empty());
        push_cond_parts_bound(&mut parts, &mut params, &self.meta, db_type, &self.conditions);
        push_group_parts_bound(&mut parts, &mut params, &self.meta, db_type, &self.or_groups);
        let ghost before = vviews(parts@);
        if self.meta.soft_delete {
            let col = chars_of(self.meta.deleted_at_column.as_str());
            let mut w: Vec<char> = Vec::new();
            crate::dialect::push_quoted(&mut w, db_type, &col);
            if self.only_trashed {
                push_str(&mut w, " IS NOT NULL");
                parts.push(w);
            } else if !self.include_trashed {
                push_str(&mut w, " IS NULL");
                parts.push(w);
            }
        }
        assert(vviews(parts@) =~= cond_parts_bound(self.meta, db_type, self.conditions@, 0) + group_parts_bound(
            self.meta,
            db_type,
            self.or_groups@,
            conds_params(self.conditions@, db_type).len(),
        ) + soft_delete_clauses(*self, db_type));
        let mut out: Vec<char> = Vec::new();
        push_joined_chars(&mut out, &parts, " AND ");
        assert(params@ =~= where_params(*self, db_type));
        (crate::text::string_of(&out), params)
    }

    /// Appends the HAVING clause with bound values, numbered after the
    /// values already in `params`.
    pub fn push_having_sql_bound(&self, out: &mut Vec<char>, params: &mut Vec<JsonValue>, db: DatabaseType)
        requires
            old(params)@.len() + having_params(*self).len() < u64::MAX,
        ensures
            final(out)@ == old(out)@ + having_sql_bound(*self, db, old(params)@.len() as nat),
            final(params)@ == old(params)@ + having_params(*self),
    {
        let ghost k = params@.len() as nat;
        if self.having_conditions.len() == 0 {
            assert(params@ =~= old(params)@ + having_params(*self));
            return;
        }
        let hs = &self.having_conditions;
        let n = hs.len();
        let mut parts: Vec<Vec<char>> = Vec::new();
        let empty: Vec<JsonValue> = Vec::new();
        let mut i: usize = 0;
        while i < n
            invariant
                i <= n == hs@.len(),
                hs@ == self.having_conditions@,
                empty@.len() == 0,
                k == old(params)@.len(),
                k + having_params(*self).len() < u64::MAX,
                vviews(parts@) == having_parts_bound(*self, db, i as nat, k),
                params@ == old(params)@ + having_params_upto(*self, i as nat),
            decreases n - i,
        {
            proof {
                lemma_having_params_prefix(*self, (i + 1) as nat, n as nat);
            }
            let t = chars_of(hs[i].as_str());
            let mut v: Vec<char> = Vec::new();
            if i < self.having_bindings.len() {
                push_having_bound(&mut v, params, db, &t, &self.having_bindings[i]);
            } else {
                assert(empty@ =~= bindings_at(*self, i as int));
                push_having_bound(&mut v, params, db, &t, &empty);
            }
            parts.push(v);
            assert(vviews(parts@) =~= having_parts_bound(*self, db, (i + 1) as nat, k));
            assert(params@ =~= old(params)@ + having_params_upto(*self, (i + 1) as nat));
            i = i + 1;
        }
        push_str(out, "HAVING ");
        push_joined_chars(out, &parts, " AND ");
        push_str(out, " ");
    }
}

/// `10^n`.
pub open spec fn pow10(n: nat) -> nat
    decreases n,
{
    if n == 0 {
        1
    } else {
        10 * pow10((n - 1) as nat)
    }
}

/// A decimal digit.
pub open spec fn is_digit(c: char) -> bool {
    '0' <= c && c <= '9'
}

/// The number of leading digits of `s`, counting no further than `cap`.
pub open spec fn lead_digits(s: Seq<char>, cap: nat) -> nat
    decreases cap,
{
    if cap == 0 || s.len() == 0 || !is_digit(s[0]) {
        0
    } else {
        1 + lead_digits(s.skip(1), (cap - 1) as nat)
    }
}

/// The value of a run of decimal digits.
pub open spec fn digits_value(s: Seq<char>) -> nat
    decreases s.len(),
{
    if s.len() == 0 {
        0
    } else {
        10 * digits_value(s.drop_last()) + (s.last() as nat - '0' as nat) as nat
    }
}

/// PostgreSQL placeholders `$n` shifted by `offset` to `$(n + offset)`; a
/// `$` followed by no digit, or by more than 18 digits, is left as written.
pub open spec fn shift_placeholders(s: Seq<char>, offset: nat) -> Seq<char>
    decreases s.len(),
{
    if s.len() == 0 {
        Seq::empty()
    } else if s[0] == '$' && 1 <= lead_digits(s.skip(1), 19) <= 18 {
        proof {
            lemma_lead_digits(s.skip(1), 19);
        }
        let n = lead_digits(s.skip(1), 19) as int;
        seq!['$'] + crate::text::decimal(digits_value(s.subrange(1, 1 + n)) + offset)
            + shift_placeholders(s.skip(1 + n), offset)
    } else {
        seq![s[0]] + shift_placeholders(s.skip(1), offset)
    }
}

/// A separately rendered statement's placeholders renumbered for a place
/// after `offset` bound values: shifted on PostgreSQL, whose placeholders
/// are numbered; unchanged elsewhere, where `?` binds by order alone.
pub open spec fn rebase_for(db: DatabaseType, s: Seq<char>, offset: nat) -> Seq<char> {
    if db == DatabaseType::Postgres {
        shift_placeholders(s, offset)
    } else {
        s
    }
}

/// How many leading digits `lead_digits` counts, and that they are digits.
pub proof fn lemma_lead_digits(s: Seq<char>, cap: nat)
    ensures
        lead_digits(s, cap) <= cap,
        lead_digits(s, cap) <= s.len(),
        forall|j: int| 0 <= j < lead_digits(s, cap) ==> is_digit(#[trigger] s[j]),
        lead_digits(s, cap) < cap && lead_digits(s, cap) < s.len() ==> !is_digit(s[lead_digits(s, cap) as int]),
    decreases cap,
{
    if !(cap == 0 || s.len() == 0 || !is_digit(s[0])) {
        lemma_lead_digits(s.skip(1), (cap - 1) as nat);
        assert forall|j: int| 0 <= j < lead_digits(s, cap) implies is_digit(#[trigger] s[j]) by {
            if j > 0 {
                assert(s[j] == s.skip(1)[j - 1]);
            }
        }
        let n = lead_digits(s, cap);
        if n < cap && n < s.len() {
            assert(s[n as int] == s.skip(1)[n - 1]);
        }
    }
}

/// Counts the digits after position `i` as `lead_digits` does, up to 19.
fn count_lead_digits(s: &Vec<char>, i: usize) -> (n: usize)
    requires
        i <= s@.len(),
    ensures
        n == lead_digits(s@.skip(i as int), 19),
{
    let mut n: usize = 0;
    proof {
        lemma_lead_digits(s@.skip(i as int), 19);
    }
    while n < 19 && n < s.len() - i && '0' <= s[i + n] && s[i + n] <= '9'
        invariant
            i <= s@.len(),
            n <= 19,
            i + n <= s@.len(),
            lead_digits(s@.skip(i as int), 19) == n + lead_digits(s@.skip(i + n), (19 - n) as nat),
        decreases 19 - n,
    {
        assert(s@.skip(i + n)[0] == s@[i + n]);
        assert(s@.skip(i + n).skip(1) =~= s@.skip(i + n + 1));
        n = n + 1;
    }
    if n < 19 && n < s.len() - i {
        assert(s@.skip(i + n)[0] == s@[i + n]);
    }
    n
}

fn digits_at(s: &Vec<char>, start: usize, n: usize) -> (value: u64)
    requires
        n <= 18,
        start + n <= s@.len(),
        forall|j: int| 0 <= j < n ==> is_digit(#[trigger] s@.skip(start as int)[j]),
    ensures
        value == digits_value(s@.subrange(start as int, start + n)),
        value < 1_000_000_000_000_000_000u64,
{
    proof {
        lemma_pow10_18();
    }
    let ghost run = s@.subrange(start as int, start + n);
    let mut value: u64 = 0;
    let mut m: usize = 0;
    assert(run.take(0) =~= Seq::<char>::empty());
    while m < n
        invariant
            n <= 18,
            start + n <= s@.len(),
            m <= n,
            run == s@.subrange(start as int, start + n),
            forall|j: int| 0 <= j < n ==> is_digit(#[trigger] s@.skip(start as int)[j]),
            value == digits_value(run.take(m as int)),
            value < pow10(m as nat),
            pow10(18) == 1_000_000_000_000_000_000nat,
        decreases n - m,
    {
        assert(s.len() == s@.len());
        let idx = start + m;
        let c = s[idx];
        assert(s@.skip(start as int)[m as int] == c);
        assert(run.take(m + 1).drop_last() =~= run.take(m as int));
        assert(run.take(m + 1).last() == c);
        proof {
            lemma_pow10_mono(m as nat, 17);
        }
        let d = (c as u32 - '0' as u32) as u64;
        value = value * 10 + d;
        m = m + 1;
    }
    assert(run.take(n as int) =~= run);
    proof {
        lemma_pow10_mono(n as nat, 18);
    }
    value
}

#[verifier::rlimit(40)]
fn shift_chars(s: &Vec<char>, offset: u64) -> (r: Vec<char>)
    requires
        offset <= 1_000_000_000_000_000_000u64,
    ensures
        r@ == shift_placeholders(s@, offset as nat),
{
    proof {
        lemma_pow10_18();
    }
    let mut out: Vec<char> = Vec::new();
    let mut i: usize = 0;
    assert(s@.skip(0) =~= s@);
    while i < s.len()
        invariant
            i <= s@.len(),
            offset <= 1_000_000_000_000_000_000u64,
            pow10(18) == 1_000_000_000_000_000_000nat,
            shift_placeholders(s@, offset as nat) == out@ + shift_placeholders(s@.skip(i as int), offset as nat),
        decreases s.len() - i,
    {
        let ghost rest = s@.skip(i as int);
        assert(rest[0] == s@[i as int]);
        let n = if s[i] == '$' {
            count_lead_digits(s, i + 1)
        } else {
            0
        };
        proof {
            assert(rest.skip(1) =~= s@.skip(i + 1));
        }
        if s[i] == '$' && 1 <= n && n <= 18 {
            proof {
                lemma_lead_digits(s@.skip(i + 1), 19);
            }
            let ghost run = s@.subrange(i + 1, i + 1 + n);
            let value = digits_at(s, i + 1, n);

            out.push('$');
            crate::text::push_u64(&mut out, value + offset);
            assert(rest.skip(1 + n as int) =~= s@.skip(i + 1 + n));
            assert(rest.subrange(1, 1 + n as int) =~= run);
            i = i + 1 + n;
        } else {
            out.push(s[i]);
            i = i + 1;
        }
    }
    assert(s@.skip(s@.len() as int) =~= Seq::<char>::empty());
    out
}

proof fn lemma_pow10_18()
    ensures
        pow10(18) == 1_000_000_000_000_000_000nat,
{
    reveal_with_fuel(pow10, 19);
}

proof fn lemma_pow10_mono(a: nat, b: nat)
    requires
        a <= b,
    ensures
        pow10(a) <= pow10(b),
    decreases b,
{
    if a < b {
        lemma_pow10_mono(a, (b - 1) as nat);
    }
}

fn extend_params(params: &mut Vec<JsonValue>, vs: &Vec<JsonValue>)
    ensures
        final(params)@ == old(params)@ + vs@,
{
    let mut j: usize = 0;
    while j < vs.len()
        invariant
            j <= vs@.len(),
            params@ == old(params)@ + vs@.take(j as int),
        decreases vs@.len() - j,
    {
        params.push(vs[j].duplicate());
        assert(params@ =~= old(params)@ + vs@.take(j + 1));
        j = j + 1;
    }
    assert(vs@.take(vs@.len() as int) =~= vs@);
}

/// A statement's placeholders renumbered for a place after `offset` bound
/// values (see `rebase_for`).
pub fn rebase_operand_placeholders(db_type: DatabaseType, sql: &str, offset: u64) -> (r: String)
    requires
        offset <= 1_000_000_000_000_000_000u64,
    ensures
        r@ == rebase_for(db_type, sql@, offset as nat),
{
    match db_type {
        DatabaseType::Postgres => {
            let cs = chars_of(sql);
            let shifted = shift_chars(&cs, offset);
            string_of(&shifted)
        },
        _ => sql.to_string(),
    }
}

/// The values the CTE bodies bind, in declaration order.
pub open spec fn cte_params(cs: Seq<CTE>) -> Seq<JsonValue>
    decreases cs.len(),
{
    if cs.len() == 0 {
        Seq::empty()
    } else {
        cte_params(cs.drop_last()) + cs.last().params@
    }
}

/// The CTE entries with each body renumbered after the values bound before
/// it, from `k` on.
pub open spec fn cte_parts_bound(cs: Seq<CTE>, db: DatabaseType, k: nat) -> Seq<Seq<char>>
    decreases cs.len(),
{
    if cs.len() == 0 {
        Seq::empty()
    } else {
        cte_parts_bound(cs.drop_last(), db, k).push(
            cte_sql(cs.last(), db, rebase_for(db, cs.last().query_sql@, k + cte_params(cs.drop_last()).len())),
        )
    }
}

/// `WITH [RECURSIVE] <ctes> ` with renumbered bodies, or nothing.
pub open spec fn cte_prefix_bound(q: QueryBuilder, db: DatabaseType) -> Seq<char> {
    if q.ctes@.len() == 0 {
        Seq::empty()
    } else {
        (if any_recursive(q.ctes@) {
            "WITH RECURSIVE "@
        } else {
            "WITH "@
        }) + seq_join(cte_parts_bound(q.ctes@, db, 0), ", "@) + " "@
    }
}

/// The values the compound operands bind, in order.
pub open spec fn union_params(us: Seq<UnionClause>) -> Seq<JsonValue>
    decreases us.len(),
{
    if us.len() == 0 {
        Seq::empty()
    } else {
        union_params(us.drop_last()) + us.last().params@
    }
}

/// A compound operand as spliced in: parenthesized, except on SQLite, whose
/// grammar refuses a parenthesized operand.
pub open spec fn union_operand(db: DatabaseType, body: Seq<char>) -> Seq<char> {
    if db == DatabaseType::SQLite {
        body
    } else {
        seq!['('] + body + seq![')']
    }
}

/// ` <keyword> <operand>` for every compound operand, each renumbered after
/// the values bound before it, from `k` on.
pub open spec fn unions_bound(us: Seq<UnionClause>, db: DatabaseType, k: nat) -> Seq<char>
    decreases us.len(),
{
    if us.len() == 0 {
        Seq::empty()
    } else {
        unions_bound(us.drop_last(), db, k) + " "@ + union_keyword(us.last().union_type) + " "@
            + union_operand(db, rebase_for(db, us.last().query_sql@, k + union_params(us.drop_last()).len()))
    }
}

/// The statement spliced around a base select that binds `base_len` values:
/// the WITH prefix, the base select renumbered after the CTE values, the
/// compound operands renumbered after those and the base's, then ordering
/// and paging; trimmed.
pub open spec fn assembled_sql(q: QueryBuilder, db: DatabaseType, base: Seq<char>, base_len: nat) -> Seq<char> {
    let k = cte_params(q.ctes@).len();
    trim_ws(
        cte_prefix_bound(q, db) + rebase_for(db, base, k) + unions_bound(q.unions@, db, k + base_len)
            + order_sql(q, db) + paging_sql(q, db),
    )
}

/// The values the base select binds: the WHERE clause's, then HAVING's.
pub open spec fn base_params(q: QueryBuilder, db: DatabaseType) -> Seq<JsonValue> {
    where_params(q, db) + having_params(q)
}

/// `WHERE <bound body> `, or nothing when nothing filters.
pub open spec fn where_part_bound(q: QueryBuilder, db: DatabaseType) -> Seq<char> {
    let w = where_bound(q, db);
    if w.len() == 0 {
        Seq::empty()
    } else {
        "WHERE "@ + w + " "@
    }
}

/// The base select with bound values, its placeholders numbered from 1.
pub open spec fn base_select_bound(q: QueryBuilder, db: DatabaseType) -> Seq<char> {
    trim_ws(
        select_clause_sql(q, db) + from_sql(q, db) + where_part_bound(q, db) + group_by_sql(q, db)
            + having_sql_bound(q, db, where_params(q, db).len()),
    )
}

/// The values a whole select binds, in placeholder order: CTE bodies', then
/// the base select's, then the compound operands'.
pub open spec fn select_params(q: QueryBuilder, db: DatabaseType) -> Seq<JsonValue> {
    cte_params(q.ctes@) + base_params(q, db) + union_params(q.unions@)
}

/// The select with bound values.
pub open spec fn select_with_params_sql(q: QueryBuilder, db: DatabaseType) -> Seq<char> {
    assembled_sql(q, db, base_select_bound(q, db), base_params(q, db).len())
}

/// The bound values of a select stay far below any counter's range.
pub open spec fn params_fit(q: QueryBuilder, db: DatabaseType) -> bool {
    select_params(q, db).len() <= 1_000_000_000_000_000_000
}

proof fn lemma_cte_params_prefix(cs: Seq<CTE>, i: int)
    requires
        0 <= i <= cs.len(),
    ensures
        cte_params(cs.take(i)).len() <= cte_params(cs).len(),
    decreases cs.len(),
{
    if i < cs.len() {
        assert(cs.take(i) =~= cs.drop_last().take(i));
        lemma_cte_params_prefix(cs.drop_last(), i);
    } else {
        assert(cs.take(i) =~= cs);
    }
}

proof fn lemma_union_params_prefix(us: Seq<UnionClause>, i: int)
    requires
        0 <= i <= us.len(),
    ensures
        union_params(us.take(i)).len() <= union_params(us).len(),
    decreases us.len(),
{
    if i < us.len() {
        assert(us.take(i) =~= us.drop_last().take(i));
        lemma_union_params_prefix(us.drop_last(), i);
    } else {
        assert(us.take(i) =~= us);
    }
}

impl QueryBuilder {
    /// The base select with bound values and the values it binds (see
    /// `base_select_bound` and `base_params`).
    pub fn build_base_select_sql_with_params_for_db(&self, db_type: DatabaseType) -> (r: (String, Vec<JsonValue>))
        requires
            base_params(*self, db_type).len() < u64::MAX,
        ensures
            r.0@ == base_select_bound(*self, db_type),
            r.1@ == base_params(*self, db_type),
    {
        let (w, mut params) = self.build_where_clause_with_condition_for_db(db_type);
        let mut out: Vec<char> = Vec::new();
        self.push_select_clause(&mut out, db_type);
        self.append_from_and_join_sql(&mut out, db_type);
        let wc = chars_of(w.as_str());
        if wc.len() > 0 {
            push_str(&mut out, "WHERE ");
            push_chars(&mut out, &wc);
            push_str(&mut out, " ");
        }
        self.push_group_by_sql(&mut out, db_type);
        self.push_having_sql_bound(&mut out, &mut params, db_type);
        assert(out@ =~= select_clause_sql(*self, db_type) + from_sql(*self, db_type) + where_part_bound(
            *self,
            db_type,
        ) + group_by_sql(*self, db_type) + having_sql_bound(*self, db_type, where_params(*self, db_type).len()));
        let t = trim(&out);
        (string_of(&t), params)
    }

    /// Splices the WITH prefix and the compound operands around a base
    /// select, keeping bound values in placeholder order: CTE values, then
    /// the base select's, then the operands', each piece renumbered for its
    /// place (see `assembled_sql`).
    pub fn assemble_select_sql_with_params(&self, db_type: DatabaseType, base_sql: &str, base_params: Vec<JsonValue>) -> (r: (
        String,
        Vec<JsonValue>,
    ))
        requires
            cte_params(self.ctes@).len() + base_params@.len() + union_params(self.unions@).len()
                <= 1_000_000_000_000_000_000,
        ensures
            r.0@ == assembled_sql(*self, db_type, base_sql@, base_params@.len() as nat),
            r.1@ == cte_params(self.ctes@) + base_params@ + union_params(self.unions@),
    {
        let mut out: Vec<char> = Vec::new();
        let mut params: Vec<JsonValue> = Vec::new();
        if self.ctes.len() > 0 {
            if any_cte_recursive(&self.ctes) {
                push_str(&mut out, "WITH RECURSIVE ");
            } else {
                push_str(&mut out, "WITH ");
            }
            let cs = &self.ctes;
            let mut parts: Vec<Vec<char>> = Vec::new();
            let mut i: usize = 0;
            while i < cs.len()
                invariant
                    i <= cs@.len(),
                    cs@ == self.ctes@,
                    cte_params(self.ctes@).len() <= 1_000_000_000_000_000_000,
                    vviews(parts@) == cte_parts_bound(cs@.take(i as int), db_type, 0),
                    params@ == cte_params(cs@.take(i as int)),
                decreases cs.len() - i,
            {
                proof {
                    assert(cs@.take(i + 1).drop_last() =~= cs@.take(i as int));
                    assert(cs@.take(i + 1).last() == cs@[i as int]);
                    lemma_cte_params_prefix(cs@, i as int);
                    lemma_cte_params_prefix(cs@, i + 1);
                }
                let body = rebase_operand_placeholders(db_type, cs[i].query_sql.as_str(), params.len() as u64);
                let e = cs[i].to_sql_with_body_for_db(db_type, body.as_str());
                let ec = chars_of(e.as_str());
                parts.push(ec);
                extend_params(&mut params, &cs[i].params);
                assert(vviews(parts@) =~= cte_parts_bound(cs@.take(i + 1), db_type, 0));
                assert(params@ =~= cte_params(cs@.take(i + 1)));
                i = i + 1;
            }
            proof {
                crate::text::lemma_take_all(cs@);
            }
            push_joined_chars(&mut out, &parts, ", ");
            push_str(&mut out, " ");
        } else {
            assert(params@ =~= cte_params(self.ctes@));
        }
        let ghost k = params@.len();
        let base = rebase_operand_placeholders(db_type, base_sql, params.len() as u64);
        push_str(&mut out, base.as_str());
        extend_params(&mut params, &base_params);
        let ghost k2 = params@.len();
        let ghost before = out@;
        let us = &self.unions;
        let mut i: usize = 0;
        while i < us.len()
            invariant
                i <= us@.len(),
                us@ == self.unions@,
                k2 == cte_params(self.ctes@).len() + base_params@.len(),
                k2 + union_params(self.unions@).len() <= 1_000_000_000_000_000_000,
                out@ == before + unions_bound(us@.take(i as int), db_type, k2 as nat),
                params@ == cte_params(self.ctes@) + base_params@ + union_params(us@.take(i as int)),
            decreases us.len() - i,
        {
            proof {
                assert(us@.take(i + 1).drop_last() =~= us@.take(i as int));
                assert(us@.take(i + 1).last() == us@[i as int]);
                lemma_union_params_prefix(us@, i as int);
                lemma_union_params_prefix(us@, i + 1);
            }
            assert(params@.len() == k2 + union_params(us@.take(i as int)).len());
            let body = rebase_operand_placeholders(db_type, us[i].query_sql.as_str(), params.len() as u64);
            let ghost o0 = out@;
            push_str(&mut out, " ");
            push_str(&mut out, us[i].union_type.as_sql());
            push_str(&mut out, " ");
            if matches!(db_type, DatabaseType::SQLite) {
                push_str(&mut out, body.as_str());
            } else {
                out.push('(');
                push_str(&mut out, body.as_str());
                out.push(')');
            }
            extend_params(&mut params, &us[i].params);
            assert(out@ =~= o0 + " "@ + union_keyword(us@[i as int].union_type) + " "@ + union_operand(db_type, body@));
            assert(out@ =~= before + unions_bound(us@.take(i + 1), db_type, k2 as nat));
            assert(params@ =~= cte_params(self.ctes@) + base_params@ + union_params(us@.take(i + 1)));
            i = i + 1;
        }
        proof {
            crate::text::lemma_take_all(us@);
        }
        self.push_order_by(&mut out, db_type);
        self.push_paging(&mut out, db_type);
        assert(out@ =~= cte_prefix_bound(*self, db_type) + rebase_for(db_type, base_sql@, cte_params(self.ctes@).len())
            + unions_bound(self.unions@, db_type, cte_params(self.ctes@).len() + base_params@.len())
            + order_sql(*self, db_type) + paging_sql(*self, db_type));
        let t = trim(&out);
        (string_of(&t), params)
    }

    /// The select with bound values and the values it binds, in placeholder
    /// order (see `select_with_params_sql` and `select_params`).
    pub fn build_select_sql_with_params_for_db(&self, db_type: DatabaseType) -> (r: (String, Vec<JsonValue>))
        requires
            params_fit(*self, db_type),
        ensures
            r.0@ == select_with_params_sql(*self, db_type),
            r.1@ == select_params(*self, db_type),
    {
        let (base_sql, base_params) = self.build_base_select_sql_with_params_for_db(db_type);
        self.assemble_select_sql_with_params(db_type, base_sql.as_str(), base_params)
    }
}

/// The statement spliced around a base select, without ordering or paging.
pub open spec fn unpaged_sql(q: QueryBuilder, db: DatabaseType, base: Seq<char>, base_len: nat) -> Seq<char> {
    let k = cte_params(q.ctes@).len();
    trim_ws(cte_prefix_bound(q, db) + rebase_for(db, base, k) + unions_bound(q.unions@, db, k + base_len))
}

/// A count can be taken straight off the table: no compound operands, CTEs,
/// grouping, HAVING or raw projection.
pub open spec fn plain_count(q: QueryBuilder) -> bool {
    q.unions@.len() == 0 && q.ctes@.len() == 0 && q.group_by@.len() == 0 && q.having_conditions@.len() == 0
        && q.raw_select_expressions@.len() == 0
}

/// The COUNT statement of a query: `SELECT COUNT(*) AS count FROM ... WHERE
/// ...` for a plain query, else a count over the query (unordered, unpaged)
/// as a subquery.
pub open spec fn count_sql(q: QueryBuilder, db: DatabaseType) -> Seq<char> {
    if plain_count(q) {
        let w = where_bound(q, db);
        if w.len() == 0 {
            trim_ws("SELECT COUNT(*) AS count "@ + crate::render_select::from_sql(q, db))
        } else {
            "SELECT COUNT(*) AS count "@ + crate::render_select::from_sql(q, db) + "WHERE "@ + w
        }
    } else {
        "SELECT COUNT(*) AS count FROM ("@ + unpaged_sql(q, db, base_select_bound(q, db), base_params(q, db).len())
            + ") AS "@ + quoted(db, "tideorm_count_subquery"@)
    }
}

/// The values the COUNT statement binds.
pub open spec fn count_params(q: QueryBuilder, db: DatabaseType) -> Seq<JsonValue> {
    if plain_count(q) {
        where_params(q, db)
    } else {
        select_params(q, db)
    }
}

/// The base select projecting only `1`, as an existence probe does.
pub open spec fn probe_base(q: QueryBuilder, db: DatabaseType) -> Seq<char> {
    trim_ws(
        "SELECT 1 "@ + crate::render_select::from_sql(q, db) + where_part_bound(q, db) + group_by_sql(q, db)
            + having_sql_bound(q, db, where_params(q, db).len()),
    )
}

/// The EXISTS statement of a query: without compound operands it projects
/// `1`; without CTEs either it is `SELECT EXISTS(<probe> LIMIT 1)`, else the
/// (unordered, unpaged) query is wrapped as a subquery limited to one row.
pub open spec fn exists_sql(q: QueryBuilder, db: DatabaseType) -> Seq<char> {
    if q.unions@.len() == 0 && q.ctes@.len() == 0 {
        "SELECT EXISTS("@ + probe_base(q, db) + " LIMIT 1) AS "@ + quoted(db, "exists_result"@)
    } else {
        let base = if q.unions@.len() == 0 {
            probe_base(q, db)
        } else {
            base_select_bound(q, db)
        };
        "SELECT 1 FROM ("@ + unpaged_sql(q, db, base, base_params(q, db).len()) + ") AS "@ + quoted(
            db,
            "tideorm_exists_subquery"@,
        ) + " LIMIT 1"@
    }
}

/// The values the EXISTS statement binds.
pub open spec fn exists_params(q: QueryBuilder, db: DatabaseType) -> Seq<JsonValue> {
    if q.unions@.len() == 0 && q.ctes@.len() == 0 {
        base_params(q, db)
    } else {
        select_params(q, db)
    }
}

proof fn lemma_having_frame(q1: QueryBuilder, q2: QueryBuilder, db: DatabaseType, n: nat, k: nat)
    requires
        q1.having_conditions == q2.having_conditions,
        q1.having_bindings == q2.having_bindings,
    ensures
        having_params_upto(q1, n) == having_params_upto(q2, n),
        having_parts_bound(q1, db, n, k) == having_parts_bound(q2, db, n, k),
    decreases n,
{
    if n > 0 {
        lemma_having_frame(q1, q2, db, (n - 1) as nat, k);
        assert(bindings_at(q1, n - 1) == bindings_at(q2, n - 1));
    }
}

impl QueryBuilder {
    /// The COUNT statement and its bound values (see `count_sql`).
    #[verifier::spinoff_prover]
    #[verifier::rlimit(60)]
    pub fn build_count_sql_with_params_for_db(self, db_type: DatabaseType) -> (r: (String, Vec<JsonValue>))
        requires
            params_fit(self, db_type),
        ensures
            r.0@ == count_sql(self, db_type),
            r.1@ == count_params(self, db_type),
    {
        let ghost q0 = self;
        let mut cq = self;
        cq.order_by = Vec::new();
        cq.limit_value = None;
        cq.offset_value = None;
        proof {
            lemma_having_frame(cq, q0, db_type, cq.having_conditions@.len(), where_params(q0, db_type).len());
        }
        assert(select_params(cq, db_type) == select_params(q0, db_type));
        if cq.unions.len() == 0 && cq.ctes.len() == 0 && cq.group_by.len() == 0 && cq.having_conditions.len() == 0
            && cq.raw_select_expressions.len() == 0 {
            let (w, params) = cq.build_where_clause_with_condition_for_db(db_type);
            let mut out: Vec<char> = Vec::new();
            push_str(&mut out, "SELECT COUNT(*) AS count ");
            cq.append_from_and_join_sql(&mut out, db_type);
            let wc = chars_of(w.as_str());
            if wc.len() > 0 {
                push_str(&mut out, "WHERE ");
                push_chars(&mut out, &wc);
                assert(out@ =~= count_sql(q0, db_type));
                return (string_of(&out), params);
            }
            let t = trim(&out);
            return (string_of(&t), params);
        }
        let (inner, params) = cq.build_select_sql_with_params_for_db(db_type);
        assert(inner@ == unpaged_sql(q0, db_type, base_select_bound(q0, db_type), base_params(q0, db_type).len()));
        let name = quote_ident(db_type, "tideorm_count_subquery");
        let mut out: Vec<char> = Vec::new();
        push_str(&mut out, "SELECT COUNT(*) AS count FROM (");
        push_str(&mut out, inner.as_str());
        push_str(&mut out, ") AS ");
        push_str(&mut out, name.as_str());
        proof {
            reveal_strlit("tideorm_count_subquery");
        }
        (string_of(&out), params)
    }

    /// The EXISTS statement and its bound values (see `exists_sql`).
    #[verifier::spinoff_prover]
    #[verifier::rlimit(60)]
    pub fn build_exists_sql_with_params_for_db(self, db_type: DatabaseType) -> (r: (String, Vec<JsonValue>))
        requires
            params_fit(self, db_type),
        ensures
            r.0@ == exists_sql(self, db_type),
            r.1@ == exists_params(self, db_type),
    {
        let ghost q0 = self;
        let mut eq = self;
        eq.order_by = Vec::new();
        eq.limit_value = None;
        eq.offset_value = None;
        if eq.unions.len() == 0 {
            eq.select_columns = None;
            let one = "1".to_owned();
            let mut raws: Vec<String> = Vec::new();
            raws.push(one);
            eq.raw_select_expressions = raws;
            eq.subquery_select_expressions = Vec::new();
            eq.window_functions = Vec::new();
            proof {
                lemma_having_frame(eq, q0, db_type, eq.having_conditions@.len(), where_params(q0, db_type).len());
                reveal_strlit("1");
                reveal_strlit("\u{1}tideorm::distinct");
                assert(eq.raw_select_expressions@[0]@ == "1"@);
                assert("1"@[0] == '1');
                assert(crate::builder::distinct_marker()[0] == '\u{1}');
                assert(eq.raw_select_expressions@[0]@ != crate::builder::distinct_marker());
                assert(!crate::render_select::is_distinct(eq));
                assert(crate::render_select::raw_parts(eq.raw_select_expressions@) =~= seq!["1"@]) by {
                    assert(eq.raw_select_expressions@.len() == 1);
                    assert(eq.raw_select_expressions@.drop_last() =~= Seq::<String>::empty());
                    assert(crate::render_select::raw_parts(Seq::<String>::empty()) == Seq::<Seq<char>>::empty());
                    assert(eq.raw_select_expressions@.last() == eq.raw_select_expressions@[0]);
                }
                assert(crate::render_select::projection(eq, db_type) =~= seq!["1"@]);
                reveal_strlit("SELECT");
                reveal_strlit(" ");
                reveal_strlit("SELECT 1 ");
                assert(seq_join(seq!["1"@], ", "@) == "1"@);
                assert(select_clause_sql(eq, db_type) =~= "SELECT 1 "@);
            }
            assert(base_params(eq, db_type) == base_params(q0, db_type));
            assert(select_params(eq, db_type) == select_params(q0, db_type));
            if eq.ctes.len() == 0 {
                let (inner, params) = eq.build_base_select_sql_with_params_for_db(db_type);
                assert(inner@ == probe_base(q0, db_type));
                let name = quote_ident(db_type, "exists_result");
                let mut out: Vec<char> = Vec::new();
                push_str(&mut out, "SELECT EXISTS(");
                push_str(&mut out, inner.as_str());
                push_str(&mut out, " LIMIT 1) AS ");
                push_str(&mut out, name.as_str());
                proof {
                    reveal_strlit("exists_result");
                }
                return (string_of(&out), params);
            }
            let (inner, params) = eq.build_select_sql_with_params_for_db(db_type);
            assert(inner@ == unpaged_sql(q0, db_type, probe_base(q0, db_type), base_params(q0, db_type).len()));
            let name = quote_ident(db_type, "tideorm_exists_subquery");
            let mut out: Vec<char> = Vec::new();
            push_str(&mut out, "SELECT 1 FROM (");
            push_str(&mut out, inner.as_str());
            push_str(&mut out, ") AS ");
            push_str(&mut out, name.as_str());
            push_str(&mut out, " LIMIT 1");
            proof {
                reveal_strlit("tideorm_exists_subquery");
            }
            return (string_of(&out), params);
        }
        proof {
            lemma_having_frame(eq, q0, db_type, eq.having_conditions@.len(), where_params(q0, db_type).len());
        }
        assert(select_params(eq, db_type) == select_params(q0, db_type));
        let (inner, params) = eq.build_select_sql_with_params_for_db(db_type);
        assert(inner@ == unpaged_sql(q0, db_type, base_select_bound(q0, db_type), base_params(q0, db_type).len()));
        let name = quote_ident(db_type, "tideorm_exists_subquery");
        let mut out: Vec<char> = Vec::new();
        push_str(&mut out, "SELECT 1 FROM (");
        push_str(&mut out, inner.as_str());
        push_str(&mut out, ") AS ");
        push_str(&mut out, name.as_str());
        push_str(&mut out, " LIMIT 1");
        proof {
            reveal_strlit("tideorm_exists_subquery");
        }
        (string_of(&out), params)
    }
}

} // verus!
