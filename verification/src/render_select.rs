//! Rendering of the SELECT statement preview: projection, FROM and JOINs,
//! GROUP BY and HAVING, the WITH prefix, compound operands, ORDER BY and
//! paging.

use vstd::prelude::*;
use crate::builder::{QueryBuilder, distinct_marker};
use crate::dialect::{
    DatabaseType, Order, formatted_reference, format_reference_chars, order_keyword, push_chars,
    push_quoted, push_strict_column, quoted, strict_column,
};
use crate::json::JsonValue;
use crate::model::{ModelMeta, canonical_identifier};
use crate::render_where::{column_sql, push_column_sql, preview_value, push_preview_value, where_sql};
use crate::render_bound::{params_fit, select_params, select_with_params_sql};
use crate::structure::{CTE, JoinClause, UnionClause, WindowFunction, cte_sql, join_keyword, union_keyword, window_sql};
use crate::text::{
    chars_eq, chars_eq_ignore_case, chars_of, decimal, eq_ignore_case, has_char, is_whitespace, is_ws,
    push_joined_chars, push_str, push_u64, push_upper, seq_join, slice_chars, split_words, string_of,
    trim, trim_ws, upper_seq, vviews, words,
};

verus! {

/// A single projected word that is a plain column reference: no call, no
/// wildcard, and quotable as `identifier` or `qualifier.identifier`.
pub open spec fn plain_reference(db: DatabaseType, id: Seq<char>) -> bool {
    !id.contains('(') && !id.contains('*') && formatted_reference(db, id) is Some
}

/// A plain reference in the projection: a qualified one is rendered as any
/// column reference, an unqualified one is pinned to the model's table.
pub open spec fn projected_reference(meta: ModelMeta, db: DatabaseType, id: Seq<char>) -> Seq<char> {
    if id.contains('.') {
        column_sql(meta, db, id)
    } else {
        quoted(db, meta.table_name@) + seq!['.'] + quoted(db, canonical_identifier(meta, id))
    }
}

/// One typed projection entry: `reference` or `reference AS alias` of plain
/// references is quoted; anything else is emitted trimmed and verbatim.
pub open spec fn select_column_sql(meta: ModelMeta, db: DatabaseType, column: Seq<char>) -> Seq<char> {
    let t = trim_ws(column);
    let ws = words(t);
    if ws.len() == 1 && plain_reference(db, ws[0]) {
        projected_reference(meta, db, ws[0])
    } else if ws.len() == 3 && eq_ignore_case(ws[1], "as"@) && plain_reference(db, ws[0])
        && formatted_reference(db, ws[2]) is Some {
        projected_reference(meta, db, ws[0]) + " AS "@ + quoted(db, ws[2])
    } else {
        t
    }
}

fn is_plain_reference(db: DatabaseType, id: &Vec<char>) -> (b: bool)
    ensures
        b == plain_reference(db, id@),
{
    !has_char(id, '(') && !has_char(id, '*') && format_reference_chars(db, id).is_some()
}

fn push_projected_reference(out: &mut Vec<char>, meta: &ModelMeta, db: DatabaseType, id: &Vec<char>)
    ensures
        final(out)@ == old(out)@ + projected_reference(*meta, db, id@),
{
    if has_char(id, '.') {
        push_column_sql(out, meta, db, id);
    } else {
        let table = chars_of(meta.table_name.as_str());
        push_quoted(out, db, &table);
        out.push('.');
        let c = meta.canonical_identifier_chars(id);
        push_quoted(out, db, &c);
        assert(out@ =~= old(out)@ + projected_reference(*meta, db, id@));
    }
}

/// Appends one typed projection entry (see `select_column_sql`).
pub fn push_select_column(out: &mut Vec<char>, meta: &ModelMeta, db: DatabaseType, column: &Vec<char>)
    ensures
        final(out)@ == old(out)@ + select_column_sql(*meta, db, column@),
{
    let t = trim(column);
    let ws = split_words(&t);
    let ghost wv = vviews(ws@);
    assert(wv == words(t@));
    if ws.len() == 1 {
        assert(ws@[0]@ == wv[0]);
        if is_plain_reference(db, &ws[0]) {
            push_projected_reference(out, meta, db, &ws[0]);
            return;
        }
    }
    if ws.len() == 3 {
        assert(ws@[0]@ == wv[0] && ws@[1]@ == wv[1] && ws@[2]@ == wv[2]);
        let as_kw = chars_of("as");
        if chars_eq_ignore_case(&ws[1], &as_kw) && is_plain_reference(db, &ws[0])
            && format_reference_chars(db, &ws[2]).is_some() {
            push_projected_reference(out, meta, db, &ws[0]);
            push_str(out, " AS ");
            push_quoted(out, db, &ws[2]);
            return;
        }
    }
    push_chars(out, &t);
}

/// The typed projection entries.
pub open spec fn typed_parts(meta: ModelMeta, db: DatabaseType, cols: Seq<String>) -> Seq<Seq<char>> {
    cols.map_values(|c: String| select_column_sql(meta, db, c@))
}

/// The typed projection entries of a query, none when no projection was chosen.
pub open spec fn typed_projection(q: QueryBuilder, db: DatabaseType) -> Seq<Seq<char>> {
    match q.select_columns {
        Some(cols) => typed_parts(q.meta, db, cols@),
        None => Seq::empty(),
    }
}

/// The raw projection expressions, without the DISTINCT marker.
pub open spec fn raw_parts(exprs: Seq<String>) -> Seq<Seq<char>>
    decreases exprs.len(),
{
    if exprs.len() == 0 {
        Seq::empty()
    } else {
        raw_parts(exprs.drop_last()) + if exprs.last()@ == distinct_marker() {
            Seq::<Seq<char>>::empty()
        } else {
            seq![exprs.last()@]
        }
    }
}

/// `(subquery) AS alias`.
pub open spec fn subquery_part(db: DatabaseType, s: (String, String)) -> Seq<char> {
    seq!['('] + s.0@ + ") AS "@ + quoted(db, s.1@)
}

/// What the caller asked to project, in the fixed order typed columns, raw
/// expressions, scalar subqueries.
pub open spec fn explicit_projection(q: QueryBuilder, db: DatabaseType) -> Seq<Seq<char>> {
    typed_projection(q, db) + raw_parts(q.raw_select_expressions@) + q.subquery_select_expressions@.map_values(
        |s: (String, String)| subquery_part(db, s),
    )
}

/// The projection: the explicit entries, or `table.*` when there are none,
/// followed by the window functions.
pub open spec fn projection(q: QueryBuilder, db: DatabaseType) -> Seq<Seq<char>> {
    let e = explicit_projection(q, db);
    (if e.len() == 0 {
        seq![quoted(db, q.meta.table_name@) + ".*"@]
    } else {
        e
    }) + q.window_functions@.map_values(|w: WindowFunction| window_sql(w, db))
}

/// Whether `distinct()` was called on the query.
pub open spec fn is_distinct(q: QueryBuilder) -> bool {
    exists|i: int|
        0 <= i < q.raw_select_expressions@.len() && #[trigger] q.raw_select_expressions@[i]@
            == distinct_marker()
}

/// `SELECT [DISTINCT] <projection> `.
pub open spec fn select_clause_sql(q: QueryBuilder, db: DatabaseType) -> Seq<char> {
    (if is_distinct(q) {
        "SELECT DISTINCT"@
    } else {
        "SELECT"@
    }) + " "@ + seq_join(projection(q, db), ", "@) + " "@
}

fn push_part(parts: &mut Vec<Vec<char>>, v: Vec<char>)
    ensures
        vviews(final(parts)@) == vviews(old(parts)@).push(v@),
{
    let ghost w = v@;
    parts.push(v);
    assert(vviews(parts@) =~= vviews(old(parts)@).push(w));
}

fn is_marker(s: &String) -> (b: bool)
    ensures
        b == (s@ == distinct_marker()),
{
    let a = chars_of(s.as_str());
    let m = chars_of("\u{1}tideorm::distinct");
    chars_eq(&a, &m)
}

impl QueryBuilder {
    /// Whether `distinct()` was called on the query.
    pub fn is_distinct(&self) -> (b: bool)
        ensures
            b == is_distinct(*self),
    {
        let xs = &self.raw_select_expressions;
        let mut i: usize = 0;
        while i < xs.len()
            invariant
                i <= xs@.len(),
                xs@ == self.raw_select_expressions@,
                forall|j: int| 0 <= j < i ==> #[trigger] xs@[j]@ != distinct_marker(),
            decreases xs.len() - i,
        {
            if is_marker(&xs[i]) {
                return true;
            }
            i = i + 1;
        }
        false
    }

    fn push_explicit_projection(&self, parts: &mut Vec<Vec<char>>, db: DatabaseType)
        ensures
            vviews(final(parts)@) == vviews(old(parts)@) + explicit_projection(*self, db),
    {
        let ghost base = vviews(parts@);
        let ghost typed = typed_projection(*self, db);
        match &self.select_columns {
            Some(cols) => {
                let mut i: usize = 0;
                while i < cols.len()
                    invariant
                        i <= cols@.len(),
                        self.select_columns == Some(*cols),
                        typed == typed_parts(self.meta, db, cols@),
                        vviews(parts@) == base + typed.take(i as int),
                    decreases cols.len() - i,
                {
                    let cs = chars_of(cols[i].as_str());
                    let mut v: Vec<char> = Vec::new();
                    push_select_column(&mut v, &self.meta, db, &cs);
                    push_part(parts, v);
                    assert(vviews(parts@) =~= base + typed.take(i + 1));
                    i = i + 1;
                }
                assert(typed.take(cols@.len() as int) =~= typed);
            },
            None => {
                assert(vviews(parts@) =~= base + typed);
            },
        }
        let ghost base2 = vviews(parts@);
        let xs = &self.raw_select_expressions;
        let mut i: usize = 0;
        while i < xs.len()
            invariant
                i <= xs@.len(),
                xs@ == self.raw_select_expressions@,
                vviews(parts@) == base2 + raw_parts(xs@.take(i as int)),
            decreases xs.len() - i,
        {
            proof {
                assert(xs@.take(i + 1).drop_last() == xs@.take(i as int));
                assert(xs@.take(i + 1).last() == xs@[i as int]);
            }
            if !is_marker(&xs[i]) {
                push_part(parts, chars_of(xs[i].as_str()));
            }
            assert(vviews(parts@) =~= base2 + raw_parts(xs@.take(i + 1)));
            i = i + 1;
        }
        proof {
            crate::text::lemma_take_all(xs@);
        }
        let ghost base3 = vviews(parts@);
        let ss = &self.subquery_select_expressions;
        let ghost subs = ss@.map_values(|s: (String, String)| subquery_part(db, s));
        let mut i: usize = 0;
        while i < ss.len()
            invariant
                i <= ss@.len(),
                ss@ == self.subquery_select_expressions@,
                subs == ss@.map_values(|s: (String, String)| subquery_part(db, s)),
                vviews(parts@) == base3 + subs.take(i as int),
            decreases ss.len() - i,
        {
            let mut v: Vec<char> = Vec::new();
            v.push('(');
            push_str(&mut v, ss[i].0.as_str());
            push_str(&mut v, ") AS ");
            let alias = chars_of(ss[i].1.as_str());
            push_quoted(&mut v, db, &alias);
            assert(v@ =~= subquery_part(db, ss@[i as int]));
            push_part(parts, v);
            assert(vviews(parts@) =~= base3 + subs.take(i + 1));
            i = i + 1;
        }
        assert(subs.take(ss@.len() as int) =~= subs);
        assert(vviews(parts@) =~= vviews(old(parts)@) + explicit_projection(*self, db));
    }

    /// Appends `SELECT [DISTINCT] <projection> ` (see `select_clause_sql`).
    pub fn push_select_clause(&self, out: &mut Vec<char>, db: DatabaseType)
        ensures
            final(out)@ == old(out)@ + select_clause_sql(*self, db),
    {
        let mut parts: Vec<Vec<char>> = Vec::new();
        assert(vviews(parts@) =~= Seq::<Seq<char>>::empty());
        self.push_explicit_projection(&mut parts, db);
        if parts.len() == 0 {
            let table = chars_of(self.meta.table_name.as_str());
            let mut v: Vec<char> = Vec::new();
            push_quoted(&mut v, db, &table);
            push_str(&mut v, ".*");
            push_part(&mut parts, v);
        }
        let ghost base = vviews(parts@);
        let ws = &self.window_functions;
        let ghost wparts = ws@.map_values(|w: WindowFunction| window_sql(w, db));
        let mut i: usize = 0;
        while i < ws.len()
            invariant
                i <= ws@.len(),
                ws@ == self.window_functions@,
                wparts == ws@.map_values(|w: WindowFunction| window_sql(w, db)),
                vviews(parts@) == base + wparts.take(i as int),
            decreases ws.len() - i,
        {
            let s = ws[i].to_sql_for_db(db);
            push_part(&mut parts, chars_of(s.as_str()));
            assert(vviews(parts@) =~= base + wparts.take(i + 1));
            i = i + 1;
        }
        assert(wparts.take(ws@.len() as int) =~= wparts);
        assert(vviews(parts@) =~= projection(*self, db));
        if self.is_distinct() {
            push_str(out, "SELECT DISTINCT");
        } else {
            push_str(out, "SELECT");
        }
        push_str(out, " ");
        push_joined_chars(out, &parts, ", ");
        push_str(out, " ");
    }
}

/// The joined table, aliased when the join carries an alias.
pub open spec fn join_target(db: DatabaseType, j: JoinClause) -> Seq<char> {
    match j.alias {
        Some(a) => quoted(db, j.table@) + " AS "@ + quoted(db, a@),
        None => quoted(db, j.table@),
    }
}

/// `<JOIN keyword> <target> ON <left> = <right> `.
pub open spec fn join_sql(meta: ModelMeta, db: DatabaseType, j: JoinClause) -> Seq<char> {
    join_keyword(j.join_type) + " "@ + join_target(db, j) + " ON "@ + column_sql(meta, db, j.left_column@)
        + " = "@ + column_sql(meta, db, j.right_column@) + " "@
}

/// Every join, in order.
pub open spec fn joins_sql(meta: ModelMeta, db: DatabaseType, js: Seq<JoinClause>) -> Seq<char>
    decreases js.len(),
{
    if js.len() == 0 {
        Seq::empty()
    } else {
        joins_sql(meta, db, js.drop_last()) + join_sql(meta, db, js.last())
    }
}

/// `FROM <table> ` followed by the joins.
pub open spec fn from_sql(q: QueryBuilder, db: DatabaseType) -> Seq<char> {
    "FROM "@ + quoted(db, q.meta.table_name@) + " "@ + joins_sql(q.meta, db, q.joins@)
}

#[verifier::spinoff_prover]
#[verifier::rlimit(40)]
fn push_join_sql(out: &mut Vec<char>, meta: &ModelMeta, db: DatabaseType, j: &JoinClause)
    ensures
        final(out)@ == old(out)@ + join_sql(*meta, db, *j),
{
    let ghost base = out@;
    push_str(out, j.join_type.as_sql());
    push_str(out, " ");
    let t = chars_of(j.table.as_str());
    let mut target: Vec<char> = Vec::new();
    push_quoted(&mut target, db, &t);
    match &j.alias {
        Some(a) => {
            push_str(&mut target, " AS ");
            let ac = chars_of(a.as_str());
            push_quoted(&mut target, db, &ac);
        },
        None => {},
    }
    assert(target@ =~= join_target(db, *j));
    push_chars(out, &target);
    push_str(out, " ON ");
    let l = chars_of(j.left_column.as_str());
    push_column_sql(out, meta, db, &l);
    push_str(out, " = ");
    let r = chars_of(j.right_column.as_str());
    push_column_sql(out, meta, db, &r);
    push_str(out, " ");
    assert(out@ =~= base + join_sql(*meta, db, *j));
}

impl QueryBuilder {
    /// Appends the FROM clause and the joins (see `from_sql`).
    pub fn append_from_and_join_sql(&self, out: &mut Vec<char>, db: DatabaseType)
        ensures
            final(out)@ == old(out)@ + from_sql(*self, db),
    {
        push_str(out, "FROM ");
        let table = chars_of(self.meta.table_name.as_str());
        push_quoted(out, db, &table);
        push_str(out, " ");
        let ghost base = out@;
        let js = &self.joins;
        let mut i: usize = 0;
        while i < js.len()
            invariant
                i <= js@.len(),
                js@ == self.joins@,
                out@ == base + joins_sql(self.meta, db, js@.take(i as int)),
            decreases js.len() - i,
        {
            proof {
                assert(js@.take(i + 1).drop_last() == js@.take(i as int));
                assert(js@.take(i + 1).last() == js@[i as int]);
            }
            push_join_sql(out, &self.meta, db, &js[i]);
            assert(out@ =~= base + joins_sql(self.meta, db, js@.take(i + 1)));
            i = i + 1;
        }
        proof {
            crate::text::lemma_take_all(js@);
        }
    }
}

/// `GROUP BY <columns> `, or nothing without grouping.
pub open spec fn group_by_sql(q: QueryBuilder, db: DatabaseType) -> Seq<char> {
    if q.group_by@.len() == 0 {
        Seq::empty()
    } else {
        "GROUP BY "@ + seq_join(q.group_by@.map_values(|c: String| column_sql(q.meta, db, c@)), ", "@)
            + " "@
    }
}

/// A HAVING template with each `?` replaced, left to right, by the preview
/// literal of the next value; a `?` with no value left stays as it is.
pub open spec fn having_preview(t: Seq<char>, ps: Seq<JsonValue>) -> Seq<char>
    decreases t.len(),
{
    if t.len() == 0 {
        Seq::empty()
    } else if t[0] == '?' && ps.len() > 0 {
        preview_value(ps[0]) + having_preview(t.skip(1), ps.skip(1))
    } else {
        seq![t[0]] + having_preview(t.skip(1), ps)
    }
}

/// The values bound to the `i`-th HAVING template; none when it has no entry.
pub open spec fn bindings_at(q: QueryBuilder, i: int) -> Seq<JsonValue> {
    if 0 <= i < q.having_bindings@.len() {
        q.having_bindings@[i]@
    } else {
        Seq::empty()
    }
}

/// The HAVING templates with their values inlined.
pub open spec fn having_parts(q: QueryBuilder) -> Seq<Seq<char>> {
    Seq::new(
        q.having_conditions@.len(),
        |i: int| having_preview(q.having_conditions@[i]@, bindings_at(q, i)),
    )
}

/// `HAVING <templates joined by AND> `, or nothing.
pub open spec fn having_sql(q: QueryBuilder) -> Seq<char> {
    if q.having_conditions@.len() == 0 {
        Seq::empty()
    } else {
        "HAVING "@ + seq_join(having_parts(q), " AND "@) + " "@
    }
}

/// `WHERE <body> `, or nothing when nothing filters.
pub open spec fn where_part(q: QueryBuilder, db: DatabaseType) -> Seq<char> {
    let w = where_sql(q, db);
    if w.len() == 0 {
        Seq::empty()
    } else {
        "WHERE "@ + w + " "@
    }
}

/// The select without its WITH prefix, compound operands, ordering or paging.
pub open spec fn base_select_sql(q: QueryBuilder, db: DatabaseType) -> Seq<char> {
    trim_ws(
        select_clause_sql(q, db) + from_sql(q, db) + where_part(q, db) + group_by_sql(q, db)
            + having_sql(q),
    )
}

/// Some common table expression is recursive.
pub open spec fn any_recursive(cs: Seq<CTE>) -> bool {
    exists|i: int| 0 <= i < cs.len() && #[trigger] cs[i].recursive
}

/// `WITH [RECURSIVE] <ctes> `, or nothing without common table expressions.
pub open spec fn cte_prefix(q: QueryBuilder, db: DatabaseType) -> Seq<char> {
    if q.ctes@.len() == 0 {
        Seq::empty()
    } else {
        (if any_recursive(q.ctes@) {
            "WITH RECURSIVE "@
        } else {
            "WITH "@
        }) + seq_join(q.ctes@.map_values(|c: CTE| cte_sql(c, db, c.query_sql@)), ", "@) + " "@
    }
}

/// ` <UNION keyword> <operand>` for every compound operand, in order.
pub open spec fn unions_sql(us: Seq<UnionClause>) -> Seq<char>
    decreases us.len(),
{
    if us.len() == 0 {
        Seq::empty()
    } else {
        unions_sql(us.drop_last()) + " "@ + union_keyword(us.last().union_type) + " "@
            + us.last().query_sql@
    }
}

/// `p` is the position of the first whitespace character of `t`.
pub open spec fn is_first_ws(t: Seq<char>, p: int) -> bool {
    0 <= p < t.len() && is_ws(t[p]) && forall|j: int| 0 <= j < p ==> !is_ws(#[trigger] t[j])
}

/// `t` split around its first whitespace character.
pub open spec fn split_once_ws(t: Seq<char>) -> Option<(Seq<char>, Seq<char>)> {
    if exists|p: int| is_first_ws(t, p) {
        let p = choose|p: int| is_first_ws(t, p);
        Some((t.take(p), t.skip(p + 1)))
    } else {
        None
    }
}

/// The direction a term already carries after its first whitespace.
pub open spec fn carried_direction(t: Seq<char>) -> bool {
    split_once_ws(t) is Some && (eq_ignore_case(trim_ws(split_once_ws(t).unwrap().1), "asc"@)
        || eq_ignore_case(trim_ws(split_once_ws(t).unwrap().1), "desc"@))
}

/// One ORDER BY term: a term that carries its own `ASC`/`DESC` keeps it (in
/// upper case) after its strictly quoted reference; any other term is
/// rendered as a column reference followed by the requested direction.
pub open spec fn order_term_sql(meta: ModelMeta, db: DatabaseType, column: Seq<char>, dir: Order) -> Seq<char> {
    let t = trim_ws(column);
    if carried_direction(t) {
        strict_column(db, canonical_identifier(meta, split_once_ws(t).unwrap().0)) + " "@ + upper_seq(
            trim_ws(split_once_ws(t).unwrap().1),
        )
    } else {
        column_sql(meta, db, t) + " "@ + order_keyword(dir)
    }
}

/// ` ORDER BY <terms>`, or nothing.
pub open spec fn order_sql(q: QueryBuilder, db: DatabaseType) -> Seq<char> {
    if q.order_by@.len() == 0 {
        Seq::empty()
    } else {
        " ORDER BY "@ + seq_join(
            q.order_by@.map_values(|t: (String, Order)| order_term_sql(q.meta, db, t.0@, t.1)),
            ", "@,
        )
    }
}

/// LIMIT and OFFSET. An OFFSET without a LIMIT gets the dialect's open-ended
/// limit where the dialect has no bare OFFSET.
pub open spec fn paging_sql(q: QueryBuilder, db: DatabaseType) -> Seq<char> {
    match (q.limit_value, q.offset_value) {
        (Some(l), Some(o)) => " LIMIT "@ + decimal(l as nat) + " OFFSET "@ + decimal(o as nat),
        (Some(l), None) => " LIMIT "@ + decimal(l as nat),
        (None, Some(o)) => match db {
            DatabaseType::Postgres => " OFFSET "@ + decimal(o as nat),
            DatabaseType::SQLite => " LIMIT -1 OFFSET "@ + decimal(o as nat),
            _ => " LIMIT "@ + decimal(u64::MAX as nat) + " OFFSET "@ + decimal(o as nat),
        },
        (None, None) => Seq::empty(),
    }
}

/// The SELECT statement preview: WITH prefix, base select, compound operands,
/// ordering and paging, trimmed.
pub open spec fn select_sql(q: QueryBuilder, db: DatabaseType) -> Seq<char> {
    trim_ws(
        cte_prefix(q, db) + base_select_sql(q, db) + unions_sql(q.unions@) + order_sql(q, db)
            + paging_sql(q, db),
    )
}

pub fn push_having_preview(out: &mut Vec<char>, t: &Vec<char>, ps: &Vec<JsonValue>)
    ensures
        final(out)@ == old(out)@ + having_preview(t@, ps@),
{
    let ghost base = out@;
    let mut i: usize = 0;
    let mut k: usize = 0;
    assert(t@.skip(0) =~= t@);
    assert(ps@.skip(0) =~= ps@);
    while i < t.len()
        invariant
            i <= t@.len(),
            k <= ps@.len(),
            base + having_preview(t@, ps@) == out@ + having_preview(t@.skip(i as int), ps@.skip(k as int)),
        decreases t.len() - i,
    {
        let ghost rest = t@.skip(i as int);
        let ghost prest = ps@.skip(k as int);
        assert(rest.skip(1) =~= t@.skip(i + 1));
        assert(rest[0] == t@[i as int]);
        if t[i] == '?' && k < ps.len() {
            assert(prest.skip(1) =~= ps@.skip(k + 1));
            assert(prest[0] == ps@[k as int]);
            push_preview_value(out, &ps[k]);
            k = k + 1;
        } else {
            out.push(t[i]);
        }
        i = i + 1;
    }
    assert(t@.skip(t@.len() as int) =~= Seq::<char>::empty());
}

/// Every compound operand is recursive-free: a helper fact for the WITH
/// keyword choice.
pub(crate) fn any_cte_recursive(cs: &Vec<CTE>) -> (b: bool)
    ensures
        b == any_recursive(cs@),
{
    let mut i: usize = 0;
    while i < cs.len()
        invariant
            i <= cs@.len(),
            forall|j: int| 0 <= j < i ==> !(#[trigger] cs@[j]).recursive,
        decreases cs.len() - i,
    {
        if cs[i].recursive {
            return true;
        }
        i = i + 1;
    }
    false
}

fn find_first_ws(t: &Vec<char>) -> (r: Option<usize>)
    ensures
        match r {
            Some(p) => is_first_ws(t@, p as int),
            None => !exists|p: int| is_first_ws(t@, p),
        },
{
    let mut i: usize = 0;
    while i < t.len()
        invariant
            i <= t@.len(),
            forall|j: int| 0 <= j < i ==> !is_ws(#[trigger] t@[j]),
        decreases t.len() - i,
    {
        if is_whitespace(t[i]) {
            return Some(i);
        }
        i = i + 1;
    }
    assert forall|p: int| !is_first_ws(t@, p) by {
        if 0 <= p < t@.len() {
            assert(!is_ws(t@[p]));
        }
    }
    None
}

proof fn lemma_first_ws_unique(t: Seq<char>, p: int)
    requires
        is_first_ws(t, p),
    ensures
        split_once_ws(t) == Some((t.take(p), t.skip(p + 1))),
{
    let q = choose|q: int| is_first_ws(t, q);
    assert(is_first_ws(t, q));
    if q < p {
        assert(!is_ws(t[q]));
    }
    if p < q {
        assert(!is_ws(t[p]));
    }
    assert(q == p);
}

pub fn push_order_term(out: &mut Vec<char>, meta: &ModelMeta, db: DatabaseType, column: &Vec<char>, dir: Order)
    ensures
        final(out)@ == old(out)@ + order_term_sql(*meta, db, column@, dir),
{
    let t = trim(column);
    match find_first_ws(&t) {
        Some(p) => {
            proof {
                lemma_first_ws_unique(t@, p as int);
            }
            let n = t.len();
            let reference = slice_chars(&t, 0, p);
            let suffix_raw = slice_chars(&t, p + 1, n);
            assert(reference@ == t@.take(p as int));
            assert(suffix_raw@ == t@.skip(p + 1));
            let suffix = trim(&suffix_raw);
            let asc = chars_of("asc");
            let desc = chars_of("desc");
            if chars_eq_ignore_case(&suffix, &asc) || chars_eq_ignore_case(&suffix, &desc) {
                let c = meta.canonical_identifier_chars(&reference);
                push_strict_column(out, db, &c);
                push_str(out, " ");
                push_upper(out, &suffix);
                return;
            }
        },
        None => {},
    }
    push_column_sql(out, meta, db, &t);
    push_str(out, " ");
    push_str(out, dir.as_str());
}

impl QueryBuilder {
    pub(crate) fn push_group_by_sql(&self, out: &mut Vec<char>, db: DatabaseType)
        ensures
            final(out)@ == old(out)@ + group_by_sql(*self, db),
    {
        if self.group_by.len() == 0 {
            return;
        }
        let gs = &self.group_by;
        let ghost spec_parts = gs@.map_values(|c: String| column_sql(self.meta, db, c@));
        let mut parts: Vec<Vec<char>> = Vec::new();
        let mut i: usize = 0;
        while i < gs.len()
            invariant
                i <= gs@.len(),
                gs@ == self.group_by@,
                spec_parts == gs@.map_values(|c: String| column_sql(self.meta, db, c@)),
                vviews(parts@) == spec_parts.take(i as int),
            decreases gs.len() - i,
        {
            let cs = chars_of(gs[i].as_str());
            let mut v: Vec<char> = Vec::new();
            push_column_sql(&mut v, &self.meta, db, &cs);
            push_part(&mut parts, v);
            assert(vviews(parts@) =~= spec_parts.take(i + 1));
            i = i + 1;
        }
        assert(spec_parts.take(gs@.len() as int) =~= spec_parts);
        push_str(out, "GROUP BY ");
        push_joined_chars(out, &parts, ", ");
        push_str(out, " ");
    }

    fn push_having_sql(&self, out: &mut Vec<char>)
        ensures
            final(out)@ == old(out)@ + having_sql(*self),
    {
        if self.having_conditions.len() == 0 {
            return;
        }
        let hs = &self.having_conditions;
        let ghost spec_parts = having_parts(*self);
        let mut parts: Vec<Vec<char>> = Vec::new();
        let empty: Vec<JsonValue> = Vec::new();
        let mut i: usize = 0;
        while i < hs.len()
            invariant
                i <= hs@.len(),
                hs@ == self.having_conditions@,
                spec_parts == having_parts(*self),
                empty@.len() == 0,
                vviews(parts@) == spec_parts.take(i as int),
            decreases hs.len() - i,
        {
            let t = chars_of(hs[i].as_str());
            let mut v: Vec<char> = Vec::new();
            if i < self.having_bindings.len() {
                push_having_preview(&mut v, &t, &self.having_bindings[i]);
            } else {
                assert(empty@ =~= bindings_at(*self, i as int));
                push_having_preview(&mut v, &t, &empty);
            }
            push_part(&mut parts, v);
            assert(vviews(parts@) =~= spec_parts.take(i + 1));
            i = i + 1;
        }
        assert(spec_parts.take(hs@.len() as int) =~= spec_parts);
        push_str(out, "HAVING ");
        push_joined_chars(out, &parts, " AND ");
        push_str(out, " ");
    }

    /// The select without its WITH prefix, compound operands, ordering or
    /// paging (see `base_select_sql`).
    pub fn build_base_select_sql_for_db(&self, db_type: DatabaseType) -> (s: Vec<char>)
        ensures
            s@ == base_select_sql(*self, db_type),
    {
        let mut out: Vec<char> = Vec::new();
        self.push_select_clause(&mut out, db_type);
        self.append_from_and_join_sql(&mut out, db_type);
        let w = self.build_where_sql_for_db(db_type);
        let wc = chars_of(w.as_str());
        if wc.len() > 0 {
            push_str(&mut out, "WHERE ");
            push_chars(&mut out, &wc);
            push_str(&mut out, " ");
        }
        self.push_group_by_sql(&mut out, db_type);
        self.push_having_sql(&mut out);
        assert(out@ =~= select_clause_sql(*self, db_type) + from_sql(*self, db_type) + where_part(*self, db_type)
            + group_by_sql(*self, db_type) + having_sql(*self));
        trim(&out)
    }

    fn push_cte_prefix(&self, out: &mut Vec<char>, db: DatabaseType)
        ensures
            final(out)@ == old(out)@ + cte_prefix(*self, db),
    {
        if self.ctes.len() == 0 {
            return;
        }
        if any_cte_recursive(&self.ctes) {
            push_str(out, "WITH RECURSIVE ");
        } else {
            push_str(out, "WITH ");
        }
        let cs = &self.ctes;
        let ghost spec_parts = cs@.map_values(|c: CTE| cte_sql(c, db, c.query_sql@));
        let mut parts: Vec<Vec<char>> = Vec::new();
        let mut i: usize = 0;
        while i < cs.len()
            invariant
                i <= cs@.len(),
                cs@ == self.ctes@,
                spec_parts == cs@.map_values(|c: CTE| cte_sql(c, db, c.query_sql@)),
                vviews(parts@) == spec_parts.take(i as int),
            decreases cs.len() - i,
        {
            let s = cs[i].to_sql_for_db(db);
            push_part(&mut parts, chars_of(s.as_str()));
            assert(vviews(parts@) =~= spec_parts.take(i + 1));
            i = i + 1;
        }
        assert(spec_parts.take(cs@.len() as int) =~= spec_parts);
        push_joined_chars(out, &parts, ", ");
        push_str(out, " ");
    }

    fn push_unions(&self, out: &mut Vec<char>)
        ensures
            final(out)@ == old(out)@ + unions_sql(self.unions@),
    {
        let ghost base = out@;
        let us = &self.unions;
        let mut i: usize = 0;
        while i < us.len()
            invariant
                i <= us@.len(),
                us@ == self.unions@,
                out@ == base + unions_sql(us@.take(i as int)),
            decreases us.len() - i,
        {
            proof {
                assert(us@.take(i + 1).drop_last() == us@.take(i as int));
                assert(us@.take(i + 1).last() == us@[i as int]);
            }
            push_str(out, " ");
            push_str(out, us[i].union_type.as_sql());
            push_str(out, " ");
            push_str(out, us[i].query_sql.as_str());
            assert(out@ =~= base + unions_sql(us@.take(i + 1)));
            i = i + 1;
        }
        proof {
            crate::text::lemma_take_all(us@);
        }
    }

    pub(crate) fn push_order_by(&self, out: &mut Vec<char>, db: DatabaseType)
        ensures
            final(out)@ == old(out)@ + order_sql(*self, db),
    {
        if self.order_by.len() == 0 {
            return;
        }
        let os = &self.order_by;
        let ghost spec_parts = os@.map_values(
            |t: (String, Order)| order_term_sql(self.meta, db, t.0@, t.1),
        );
        let mut parts: Vec<Vec<char>> = Vec::new();
        let mut i: usize = 0;
        while i < os.len()
            invariant
                i <= os@.len(),
                os@ == self.order_by@,
                spec_parts == os@.map_values(
                    |t: (String, Order)| order_term_sql(self.meta, db, t.0@, t.1),
                ),
                vviews(parts@) == spec_parts.take(i as int),
            decreases os.len() - i,
        {
            let cs = chars_of(os[i].0.as_str());
            let mut v: Vec<char> = Vec::new();
            push_order_term(&mut v, &self.meta, db, &cs, os[i].1);
            push_part(&mut parts, v);
            assert(vviews(parts@) =~= spec_parts.take(i + 1));
            i = i + 1;
        }
        assert(spec_parts.take(os@.len() as int) =~= spec_parts);
        push_str(out, " ORDER BY ");
        push_joined_chars(out, &parts, ", ");
    }

    pub(crate) fn push_paging(&self, out: &mut Vec<char>, db: DatabaseType)
        ensures
            final(out)@ == old(out)@ + paging_sql(*self, db),
    {
        match (self.limit_value, self.offset_value) {
            (Some(l), Some(o)) => {
                push_str(out, " LIMIT ");
                push_u64(out, l);
                push_str(out, " OFFSET ");
                push_u64(out, o);
            },
            (Some(l), None) => {
                push_str(out, " LIMIT ");
                push_u64(out, l);
            },
            (None, Some(o)) => {
                match db {
                    DatabaseType::Postgres => {
                        push_str(out, " OFFSET ");
                        push_u64(out, o);
                    },
                    DatabaseType::SQLite => {
                        push_str(out, " LIMIT -1 OFFSET ");
                        push_u64(out, o);
                    },
                    _ => {
                        push_str(out, " LIMIT ");
                        push_u64(out, u64::MAX);
                        push_str(out, " OFFSET ");
                        push_u64(out, o);
                    },
                }
            },
            (None, None) => {},
        }
    }

    /// The SELECT statement preview for `db_type` (see `select_sql`).
    pub fn build_select_sql_for_db(&self, db_type: DatabaseType) -> (s: String)
        ensures
            s@ == select_sql(*self, db_type),
    {
        let mut out: Vec<char> = Vec::new();
        self.push_cte_prefix(&mut out, db_type);
        let base = self.build_base_select_sql_for_db(db_type);
        push_chars(&mut out, &base);
        self.push_unions(&mut out);
        self.push_order_by(&mut out, db_type);
        self.push_paging(&mut out, db_type);
        let t = trim(&out);
        string_of(&t)
    }
}

/// The backend a query renders for: its own connection's, else the globally
/// configured one's, else Postgres.
pub open spec fn sql_backend(q: QueryBuilder) -> DatabaseType {
    match q.database {
        Some(c) => c.backend,
        None => match q.ambient_backend {
            Some(b) => b,
            None => DatabaseType::Postgres,
        },
    }
}

/// The first line of a debug preview.
pub open spec fn preview_header() -> Seq<char> {
    "-- DEBUG PREVIEW (not executable, values are approximate)\n"@
}

impl QueryBuilder {
    /// The backend this query renders for (see `sql_backend`).
    pub fn db_type_for_sql(&self) -> (d: DatabaseType)
        ensures
            d == sql_backend(*self),
    {
        match &self.database {
            Some(c) => c.backend,
            None => match self.ambient_backend {
                Some(b) => b,
                None => DatabaseType::Postgres,
            },
        }
    }

    /// The SELECT statement preview for the query's own backend.
    pub fn build_select_sql(&self) -> (s: String)
        ensures
            s@ == select_sql(*self, sql_backend(*self)),
    {
        self.build_select_sql_for_db(self.db_type_for_sql())
    }

    /// The human-readable preview of the query for `db_type`: a header line,
    /// then the SELECT statement with approximate inline values.
    pub fn build_sql_preview_for_db(&self, db_type: DatabaseType) -> (s: String)
        ensures
            s@ == preview_header() + select_sql(*self, db_type),
    {
        let mut out: Vec<char> = Vec::new();
        push_str(&mut out, "-- DEBUG PREVIEW (not executable, values are approximate)\n");
        let body = self.build_select_sql_for_db(db_type);
        push_str(&mut out, body.as_str());
        string_of(&out)
    }

    /// The human-readable preview of the query for its own backend.
    pub fn build_sql_preview(&self) -> (s: String)
        ensures
            s@ == preview_header() + select_sql(*self, sql_backend(*self)),
    {
        self.build_sql_preview_for_db(self.db_type_for_sql())
    }
}

impl QueryBuilder {
    /// Adds `other` as a `UNION` operand, rendered for this query's backend
    /// with its values kept as bound parameters beside the SQL.
    pub fn union(self, other: QueryBuilder) -> (q: Self)
        requires
            params_fit(other, sql_backend(self)),
        ensures
            q.unions@.len() == self.unions@.len() + 1,
            q.unions@.drop_last() == self.unions@,
            q.unions@.last().union_type == crate::structure::UnionType::Union,
            q.unions@.last().query_sql@ == select_with_params_sql(other, sql_backend(self)),
            q.unions@.last().params@ == select_params(other, sql_backend(self)),
            q.joins == self.joins,
            q.ctes == self.ctes,
            crate::builder::same_but_shape(q, self),
    {
        let (sql, params) = other.build_select_sql_with_params_for_db(self.db_type_for_sql());
        let q = self.union_clause(UnionClause::with_params(crate::structure::UnionType::Union, sql, params));
        assert(q.unions@.drop_last() =~= self.unions@);
        q
    }

    /// Adds `other` as a `UNION ALL` operand, rendered for this query's
    /// backend with its values kept as bound parameters beside the SQL.
    pub fn union_all(self, other: QueryBuilder) -> (q: Self)
        requires
            params_fit(other, sql_backend(self)),
        ensures
            q.unions@.len() == self.unions@.len() + 1,
            q.unions@.drop_last() == self.unions@,
            q.unions@.last().union_type == crate::structure::UnionType::UnionAll,
            q.unions@.last().query_sql@ == select_with_params_sql(other, sql_backend(self)),
            q.unions@.last().params@ == select_params(other, sql_backend(self)),
            q.joins == self.joins,
            q.ctes == self.ctes,
            crate::builder::same_but_shape(q, self),
    {
        let (sql, params) = other.build_select_sql_with_params_for_db(self.db_type_for_sql());
        let q = self.union_clause(UnionClause::with_params(crate::structure::UnionType::UnionAll, sql, params));
        assert(q.unions@.drop_last() =~= self.unions@);
        q
    }

    /// Adds `query` as the common table expression `name`, rendered for this
    /// query's backend with its values kept as bound parameters.
    pub fn with_query(self, name: &str, query: QueryBuilder) -> (q: Self)
        requires
            params_fit(query, sql_backend(self)),
        ensures
            q.ctes@.len() == self.ctes@.len() + 1,
            q.ctes@.drop_last() == self.ctes@,
            q.ctes@.last().name@ == name@,
            q.ctes@.last().columns is None,
            !q.ctes@.last().recursive,
            q.ctes@.last().query_sql@ == select_with_params_sql(query, sql_backend(self)),
            q.ctes@.last().params@ == select_params(query, sql_backend(self)),
            q.joins == self.joins,
            q.unions == self.unions,
            crate::builder::same_but_shape(q, self),
    {
        let (sql, params) = query.build_select_sql_with_params_for_db(self.db_type_for_sql());
        let q = self.with_cte(CTE::with_params(name, sql, params));
        assert(q.ctes@.drop_last() =~= self.ctes@);
        q
    }
}

} // verus!
