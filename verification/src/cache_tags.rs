//! The tables a query reads, used to tag its cache entry so that a write to
//! any of them evicts it.

use vstd::prelude::*;
use crate::builder::QueryBuilder;
use crate::condition::{OrGroup, WhereCondition};
use crate::structure::{CTE, JoinClause, UnionClause};
use crate::tables::{
    collect_condition_tables, collect_tables_from_sql, condition_tables, normalized_table,
    push_table_tag, pushed_tag, scan_tables, tables_from_sql,
};
use crate::text::{SepKind, eq_ignore_case, split_pieces, views};

verus! {

/// Tags after every joined table.
pub open spec fn tags_joins(js: Seq<JoinClause>, t: Seq<Seq<char>>) -> Seq<Seq<char>>
    decreases js.len(),
{
    if js.len() == 0 {
        t
    } else {
        pushed_tag(tags_joins(js.drop_last(), t), js.last().table@)
    }
}

/// Tags after the tables read by every compound-select operand.
pub open spec fn tags_unions(us: Seq<UnionClause>, t: Seq<Seq<char>>) -> Seq<Seq<char>>
    decreases us.len(),
{
    if us.len() == 0 {
        t
    } else {
        tables_from_sql(us.last().query_sql@, tags_unions(us.drop_last(), t))
    }
}

/// Tags after the tables read by every CTE body.
pub open spec fn tags_ctes(cs: Seq<CTE>, t: Seq<Seq<char>>) -> Seq<Seq<char>>
    decreases cs.len(),
{
    if cs.len() == 0 {
        t
    } else {
        tables_from_sql(cs.last().query_sql@, tags_ctes(cs.drop_last(), t))
    }
}

/// Tags after the tables read by every subquery projection.
pub open spec fn tags_subqueries(ps: Seq<(String, String)>, t: Seq<Seq<char>>) -> Seq<Seq<char>>
    decreases ps.len(),
{
    if ps.len() == 0 {
        t
    } else {
        tables_from_sql(ps.last().0@, tags_subqueries(ps.drop_last(), t))
    }
}

/// Tags after the SQL carried by every condition.
pub open spec fn tags_conditions(cs: Seq<WhereCondition>, t: Seq<Seq<char>>) -> Seq<Seq<char>>
    decreases cs.len(),
{
    if cs.len() == 0 {
        t
    } else {
        condition_tables(cs.last(), tags_conditions(cs.drop_last(), t))
    }
}

/// Tags after the SQL carried by a group and everything nested in it.
pub open spec fn tags_group(g: OrGroup, t: Seq<Seq<char>>) -> Seq<Seq<char>>
    decreases g,
{
    tags_groups(g.nested_groups@, tags_conditions(g.conditions@, t))
}

/// Tags after the SQL carried by a list of groups.
pub open spec fn tags_groups(gs: Seq<OrGroup>, t: Seq<Seq<char>>) -> Seq<Seq<char>>
    decreases gs,
{
    if gs.len() == 0 {
        t
    } else {
        tags_group(gs.last(), tags_groups(gs.drop_last(), t))
    }
}

/// Every cache tag of a query: the model's table verbatim first, then the
/// normalized names of every table it reads, without duplicates added.
pub open spec fn cache_tags(q: QueryBuilder) -> Seq<Seq<char>> {
    let t0 = pushed_tag(seq![q.meta.table_name@], q.meta.table_name@);
    let t1 = tags_joins(q.joins@, t0);
    let t2 = tags_unions(q.unions@, t1);
    let t3 = tags_ctes(q.ctes@, t2);
    let t4 = tags_subqueries(q.subquery_select_expressions@, t3);
    let t5 = tags_conditions(q.conditions@, t4);
    tags_groups(q.or_groups@, t5)
}

fn collect_or_group_tables(g: &OrGroup, tables: &mut Vec<String>)
    ensures
        views(final(tables)@) == tags_group(*g, views(old(tables)@)),
    decreases *g,
{
    let mut i: usize = 0;
    let ghost t0 = views(tables@);
    while i < g.conditions.len()
        invariant
            i <= g.conditions@.len(),
            views(tables@) == tags_conditions(g.conditions@.take(i as int), t0),
        decreases g.conditions.len() - i,
    {
        proof {
            assert(g.conditions@.take(i + 1).drop_last() == g.conditions@.take(i as int));
            assert(g.conditions@.take(i + 1).last() == g.conditions@[i as int]);
        }
        collect_condition_tables(&g.conditions[i], tables);
        i = i + 1;
    }
    proof {
        crate::text::lemma_take_all(g.conditions@);
    }
    let ghost t1 = views(tables@);
    let gs = &g.nested_groups;
    let mut j: usize = 0;
    while j < gs.len()
        invariant
            j <= gs@.len(),
            gs@ == g.nested_groups@,
            views(tables@) == tags_groups(gs@.take(j as int), t1),
        decreases gs.len() - j,
    {
        proof {
            assert(gs@.take(j + 1).drop_last() == gs@.take(j as int));
            assert(gs@.take(j + 1).last() == gs@[j as int]);
            assert(decreases_to!(*g => g.nested_groups@[j as int]));
        }
        collect_or_group_tables(&gs[j], tables);
        j = j + 1;
    }
    proof {
        crate::text::lemma_take_all(gs@);
    }
}

impl QueryBuilder {
    /// Every table this query reads: the model's table verbatim, then each
    /// joined table, and the tables named in union, CTE and subquery SQL and
    /// in SQL-carrying conditions, normalized and without duplicates.
    pub fn cache_tables(&self) -> (r: Vec<String>)
        ensures
            views(r@) == cache_tags(*self),
    {
        let mut tables: Vec<String> = Vec::new();
        tables.push(self.meta.table_name.clone());
        assert(views(tables@) =~= seq![self.meta.table_name@]);
        push_table_tag(&mut tables, self.meta.table_name.as_str());
        let ghost t0 = views(tables@);
        let mut i: usize = 0;
        while i < self.joins.len()
            invariant
                i <= self.joins@.len(),
                views(tables@) == tags_joins(self.joins@.take(i as int), t0),
            decreases self.joins.len() - i,
        {
            proof {
                assert(self.joins@.take(i + 1).drop_last() == self.joins@.take(i as int));
                assert(self.joins@.take(i + 1).last() == self.joins@[i as int]);
            }
            push_table_tag(&mut tables, self.joins[i].table.as_str());
            i = i + 1;
        }
        proof {
            crate::text::lemma_take_all(self.joins@);
        }
        let ghost t1 = views(tables@);
        let mut i: usize = 0;
        while i < self.unions.len()
            invariant
                i <= self.unions@.len(),
                views(tables@) == tags_unions(self.unions@.take(i as int), t1),
            decreases self.unions.len() - i,
        {
            proof {
                assert(self.unions@.take(i + 1).drop_last() == self.unions@.take(i as int));
                assert(self.unions@.take(i + 1).last() == self.unions@[i as int]);
            }
            collect_tables_from_sql(self.unions[i].query_sql.as_str(), &mut tables);
            i = i + 1;
        }
        proof {
            crate::text::lemma_take_all(self.unions@);
        }
        let ghost t2 = views(tables@);
        let mut i: usize = 0;
        while i < self.ctes.len()
            invariant
                i <= self.ctes@.len(),
                views(tables@) == tags_ctes(self.ctes@.take(i as int), t2),
            decreases self.ctes.len() - i,
        {
            proof {
                assert(self.ctes@.take(i + 1).drop_last() == self.ctes@.take(i as int));
                assert(self.ctes@.take(i + 1).last() == self.ctes@[i as int]);
            }
            collect_tables_from_sql(self.ctes[i].query_sql.as_str(), &mut tables);
            i = i + 1;
        }
        proof {
            crate::text::lemma_take_all(self.ctes@);
        }
        let ghost t3 = views(tables@);
        let ps = &self.subquery_select_expressions;
        let mut i: usize = 0;
        while i < ps.len()
            invariant
                i <= ps@.len(),
                views(tables@) == tags_subqueries(ps@.take(i as int), t3),
            decreases ps.len() - i,
        {
            proof {
                assert(ps@.take(i + 1).drop_last() == ps@.take(i as int));
                assert(ps@.take(i + 1).last() == ps@[i as int]);
            }
            collect_tables_from_sql(ps[i].0.as_str(), &mut tables);
            i = i + 1;
        }
        proof {
            crate::text::lemma_take_all(ps@);
        }
        let ghost t4 = views(tables@);
        let mut i: usize = 0;
        while i < self.conditions.len()
            invariant
                i <= self.conditions@.len(),
                views(tables@) == tags_conditions(self.conditions@.take(i as int), t4),
            decreases self.conditions.len() - i,
        {
            proof {
                assert(self.conditions@.take(i + 1).drop_last() == self.conditions@.take(i as int));
                assert(self.conditions@.take(i + 1).last() == self.conditions@[i as int]);
            }
            collect_condition_tables(&self.conditions[i], &mut tables);
            i = i + 1;
        }
        proof {
            crate::text::lemma_take_all(self.conditions@);
        }
        let ghost t5 = views(tables@);
        let mut i: usize = 0;
        while i < self.or_groups.len()
            invariant
                i <= self.or_groups@.len(),
                views(tables@) == tags_groups(self.or_groups@.take(i as int), t5),
            decreases self.or_groups.len() - i,
        {
            proof {
                assert(self.or_groups@.take(i + 1).drop_last() == self.or_groups@.take(i as int));
                assert(self.or_groups@.take(i + 1).last() == self.or_groups@[i as int]);
            }
            collect_or_group_tables(&self.or_groups[i], &mut tables);
            i = i + 1;
        }
        proof {
            crate::text::lemma_take_all(self.or_groups@);
        }
        tables
    }
}

} // verus!

verus! {

/// `a` is a prefix of `b`.
pub open spec fn prefix_of(a: Seq<Seq<char>>, b: Seq<Seq<char>>) -> bool {
    a.len() <= b.len() && b.take(a.len() as int) == a
}

proof fn lemma_prefix_trans(a: Seq<Seq<char>>, b: Seq<Seq<char>>, c: Seq<Seq<char>>)
    requires
        prefix_of(a, b),
        prefix_of(b, c),
    ensures
        prefix_of(a, c),
{
    assert(c.take(a.len() as int) =~= b.take(a.len() as int));
}

proof fn lemma_pushed_prefix(t: Seq<Seq<char>>, x: Seq<char>)
    ensures
        prefix_of(t, pushed_tag(t, x)),
{
    assert(t.push(x).take(t.len() as int) =~= t);
    assert(t.take(t.len() as int) =~= t);
    match normalized_table(x) {
        Some(n) => {
            assert(t.push(n).take(t.len() as int) =~= t);
        },
        None => {},
    }
}

proof fn lemma_scan_prefix(tokens: Seq<Seq<char>>, t: Seq<Seq<char>>)
    ensures
        prefix_of(t, scan_tables(tokens, t).1),
    decreases tokens.len(),
{
    if tokens.len() == 0 {
        assert(t.take(t.len() as int) =~= t);
    } else {
        lemma_scan_prefix(tokens.drop_last(), t);
        let prev = scan_tables(tokens.drop_last(), t);
        lemma_pushed_prefix(prev.1, tokens.last());
        lemma_prefix_trans(t, prev.1, pushed_tag(prev.1, tokens.last()));
    }
}

/// Reading tables out of SQL only ever adds tags.
pub proof fn lemma_sql_prefix(sql: Seq<char>, t: Seq<Seq<char>>)
    ensures
        prefix_of(t, tables_from_sql(sql, t)),
{
    lemma_scan_prefix(split_pieces(sql, SepKind::WhitespaceOrListPunct), t);
}

proof fn lemma_joins_prefix(js: Seq<JoinClause>, t: Seq<Seq<char>>)
    ensures
        prefix_of(t, tags_joins(js, t)),
    decreases js.len(),
{
    if js.len() == 0 {
        assert(t.take(t.len() as int) =~= t);
    } else {
        lemma_joins_prefix(js.drop_last(), t);
        let p = tags_joins(js.drop_last(), t);
        lemma_pushed_prefix(p, js.last().table@);
        lemma_prefix_trans(t, p, tags_joins(js, t));
    }
}

proof fn lemma_unions_prefix(us: Seq<UnionClause>, t: Seq<Seq<char>>)
    ensures
        prefix_of(t, tags_unions(us, t)),
    decreases us.len(),
{
    if us.len() == 0 {
        assert(t.take(t.len() as int) =~= t);
    } else {
        lemma_unions_prefix(us.drop_last(), t);
        let p = tags_unions(us.drop_last(), t);
        lemma_sql_prefix(us.last().query_sql@, p);
        lemma_prefix_trans(t, p, tags_unions(us, t));
    }
}

proof fn lemma_ctes_prefix(cs: Seq<CTE>, t: Seq<Seq<char>>)
    ensures
        prefix_of(t, tags_ctes(cs, t)),
    decreases cs.len(),
{
    if cs.len() == 0 {
        assert(t.take(t.len() as int) =~= t);
    } else {
        lemma_ctes_prefix(cs.drop_last(), t);
        let p = tags_ctes(cs.drop_last(), t);
        lemma_sql_prefix(cs.last().query_sql@, p);
        lemma_prefix_trans(t, p, tags_ctes(cs, t));
    }
}

proof fn lemma_subqueries_prefix(ps: Seq<(String, String)>, t: Seq<Seq<char>>)
    ensures
        prefix_of(t, tags_subqueries(ps, t)),
    decreases ps.len(),
{
    if ps.len() == 0 {
        assert(t.take(t.len() as int) =~= t);
    } else {
        lemma_subqueries_prefix(ps.drop_last(), t);
        let p = tags_subqueries(ps.drop_last(), t);
        lemma_sql_prefix(ps.last().0@, p);
        lemma_prefix_trans(t, p, tags_subqueries(ps, t));
    }
}

proof fn lemma_conditions_prefix(cs: Seq<WhereCondition>, t: Seq<Seq<char>>)
    ensures
        prefix_of(t, tags_conditions(cs, t)),
    decreases cs.len(),
{
    if cs.len() == 0 {
        assert(t.take(t.len() as int) =~= t);
    } else {
        lemma_conditions_prefix(cs.drop_last(), t);
        let p = tags_conditions(cs.drop_last(), t);
        let c = cs.last();
        match c.value {
            crate::condition::ConditionValue::Subquery(q) => lemma_sql_prefix(q@, p),
            crate::condition::ConditionValue::RawExpr(q) => lemma_sql_prefix(q@, p),
            _ => {
                assert(p.take(p.len() as int) =~= p);
            },
        }
        lemma_prefix_trans(t, p, tags_conditions(cs, t));
    }
}

proof fn lemma_group_prefix(g: OrGroup, t: Seq<Seq<char>>)
    ensures
        prefix_of(t, tags_group(g, t)),
    decreases g,
{
    lemma_conditions_prefix(g.conditions@, t);
    lemma_groups_prefix(g.nested_groups@, tags_conditions(g.conditions@, t));
    lemma_prefix_trans(t, tags_conditions(g.conditions@, t), tags_group(g, t));
}

proof fn lemma_groups_prefix(gs: Seq<OrGroup>, t: Seq<Seq<char>>)
    ensures
        prefix_of(t, tags_groups(gs, t)),
    decreases gs,
{
    if gs.len() == 0 {
        assert(t.take(t.len() as int) =~= t);
    } else {
        lemma_groups_prefix(gs.drop_last(), t);
        let p = tags_groups(gs.drop_last(), t);
        lemma_group_prefix(gs.last(), p);
        lemma_prefix_trans(t, p, tags_groups(gs, t));
    }
}

proof fn lemma_joins_cover(js: Seq<JoinClause>, t: Seq<Seq<char>>, i: int)
    requires
        0 <= i < js.len(),
        normalized_table(js[i].table@).is_some(),
    ensures
        tags_joins(js, t).contains(normalized_table(js[i].table@).unwrap()),
    decreases js.len(),
{
    let n = normalized_table(js[i].table@).unwrap();
    let p = tags_joins(js.drop_last(), t);
    if i < js.len() - 1 {
        lemma_joins_cover(js.drop_last(), t, i);
        lemma_pushed_prefix(p, js.last().table@);
        let k = choose|k: int| 0 <= k < p.len() && p[k] == n;
        assert(tags_joins(js, t)[k] == p[k]);
    } else {
        if p.contains(n) {
        } else {
            assert(tags_joins(js, t) == p.push(n));
            assert(p.push(n)[p.len() as int] == n);
        }
    }
}

/// The cache tags of a query start with the model's own table, spelled exactly
/// as writes invalidate it, and include the tag of every joined table (every
/// joined table whose name reduces to a usable tag), so a write to a joined
/// table evicts the cached join result.
pub proof fn lemma_cache_tags_cover_model_and_joins(q: QueryBuilder)
    ensures
        cache_tags(q).len() >= 1,
        cache_tags(q)[0] == q.meta.table_name@,
        forall|i: int| 0 <= i < q.joins@.len() && (#[trigger] normalized_table(q.joins@[i].table@)).is_some()
            ==> cache_tags(q).contains(normalized_table(q.joins@[i].table@).unwrap()),
{
    let s = seq![q.meta.table_name@];
    let t0 = pushed_tag(s, q.meta.table_name@);
    let t1 = tags_joins(q.joins@, t0);
    let t2 = tags_unions(q.unions@, t1);
    let t3 = tags_ctes(q.ctes@, t2);
    let t4 = tags_subqueries(q.subquery_select_expressions@, t3);
    let t5 = tags_conditions(q.conditions@, t4);
    let t6 = tags_groups(q.or_groups@, t5);
    lemma_pushed_prefix(s, q.meta.table_name@);
    lemma_joins_prefix(q.joins@, t0);
    lemma_unions_prefix(q.unions@, t1);
    lemma_ctes_prefix(q.ctes@, t2);
    lemma_subqueries_prefix(q.subquery_select_expressions@, t3);
    lemma_conditions_prefix(q.conditions@, t4);
    lemma_groups_prefix(q.or_groups@, t5);
    lemma_prefix_trans(t1, t2, t3);
    lemma_prefix_trans(t1, t3, t4);
    lemma_prefix_trans(t1, t4, t5);
    lemma_prefix_trans(t1, t5, t6);
    lemma_prefix_trans(s, t0, t1);
    lemma_prefix_trans(s, t1, t6);
    assert(t6.take(1)[0] == t6[0]);
    assert forall|i: int| 0 <= i < q.joins@.len() && (#[trigger] normalized_table(q.joins@[i].table@)).is_some()
        implies t6.contains(normalized_table(q.joins@[i].table@).unwrap()) by {
        lemma_joins_cover(q.joins@, t0, i);
        let n = normalized_table(q.joins@[i].table@).unwrap();
        let k = choose|k: int| 0 <= k < t1.len() && t1[k] == n;
        assert(t6.take(t1.len() as int)[k] == t6[k]);
    }
}

} // verus!
