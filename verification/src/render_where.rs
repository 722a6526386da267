//! Rendering of column references and of the WHERE clause for the
//! human-readable SQL preview.

use vstd::prelude::*;
use crate::builder::QueryBuilder;
use crate::condition::{ConditionValue, LogicalOp, Operator, OrGroup, WhereCondition, logical_keyword};
use crate::dialect::{
    DatabaseType, column_or_expression, formatted_reference, format_reference_chars, push_chars,
    push_column_or_expression, push_quoted, quoted,
};
use crate::array_filter::{array_kind, array_operator, array_sql, preview_slot, push_array_sql};
use crate::json::{JsonValue, json_text, push_json_text};
use crate::model::{ModelMeta, canonical_identifier};
use crate::text::{
    push_joined_chars,
    chars_eq_ignore_case, chars_of, eq_ignore_case, push_str, push_u64, push_i64, push_upper,
    seq_join, signed_decimal, decimal, split_words, string_of, trim, trim_ws, upper_seq, vviews,
    words,
};

verus! {

/// A column reference rendered for `db`: a bare reference is resolved through
/// the field map and quoted (anything else passes through as a trusted
/// expression); `reference ASC|DESC` and `reference AS alias` keep their
/// keyword; every other shape is emitted trimmed and verbatim.
pub open spec fn column_sql(meta: ModelMeta, db: DatabaseType, column: Seq<char>) -> Seq<char> {
    let t = trim_ws(column);
    let ws = words(t);
    if ws.len() == 1 {
        column_or_expression(db, canonical_identifier(meta, ws[0]))
    } else if ws.len() == 2 && (eq_ignore_case(ws[1], "asc"@) || eq_ignore_case(ws[1], "desc"@)) {
        match formatted_reference(db, canonical_identifier(meta, ws[0])) {
            Some(r) => r + " "@ + upper_seq(ws[1]),
            None => t,
        }
    } else if ws.len() == 3 && eq_ignore_case(ws[1], "as"@) {
        match (formatted_reference(db, canonical_identifier(meta, ws[0])), formatted_reference(db, ws[2])) {
            (Some(r), Some(a)) => r + " AS "@ + a,
            _ => t,
        }
    } else {
        t
    }
}

/// Appends the rendering of a column reference.
pub fn push_column_sql(out: &mut Vec<char>, meta: &ModelMeta, db: DatabaseType, column: &Vec<char>)
    ensures
        final(out)@ == old(out)@ + column_sql(*meta, db, column@),
{
    let t = trim(column);
    let ws = split_words(&t);
    let ghost wv = vviews(ws@);
    assert(wv == words(t@));
    if ws.len() == 1 {
        assert(ws@[0]@ == wv[0]);
        let c = meta.canonical_identifier_chars(&ws[0]);
        push_column_or_expression(out, db, &c);
        return;
    }
    if ws.len() == 2 {
        let asc = chars_of("asc");
        let desc = chars_of("desc");
        assert(ws@[0]@ == wv[0] && ws@[1]@ == wv[1]);
        if chars_eq_ignore_case(&ws[1], &asc) || chars_eq_ignore_case(&ws[1], &desc) {
            let c = meta.canonical_identifier_chars(&ws[0]);
            match format_reference_chars(db, &c) {
                Some(r) => {
                    push_chars(out, &r);
                    push_str(out, " ");
                    push_upper(out, &ws[1]);
                },
                None => push_chars(out, &t),
            }
            return;
        }
    }
    if ws.len() == 3 {
        let as_kw = chars_of("as");
        assert(ws@[0]@ == wv[0] && ws@[1]@ == wv[1] && ws@[2]@ == wv[2]);
        if chars_eq_ignore_case(&ws[1], &as_kw) {
            let c = meta.canonical_identifier_chars(&ws[0]);
            let r = format_reference_chars(db, &c);
            let a = format_reference_chars(db, &ws[2]);
            match (r, a) {
                (Some(r), Some(a)) => {
                    push_chars(out, &r);
                    push_str(out, " AS ");
                    push_chars(out, &a);
                },
                _ => push_chars(out, &t),
            }
            return;
        }
    }
    push_chars(out, &t);
}

impl QueryBuilder {
    /// Renders a column reference for `db_type` (see `column_sql`).
    pub fn format_column_for_db(&self, db_type: DatabaseType, column: &str) -> (s: String)
        ensures
            s@ == column_sql(self.meta, db_type, column@),
    {
        let cs = chars_of(column);
        let mut out: Vec<char> = Vec::new();
        push_column_sql(&mut out, &self.meta, db_type, &cs);
        string_of(&out)
    }
}

/// `s` with every `'` doubled.
pub open spec fn escape_quotes(s: Seq<char>) -> Seq<char>
    decreases s.len(),
{
    if s.len() == 0 {
        Seq::empty()
    } else if s.last() == '\'' {
        escape_quotes(s.drop_last()) + seq!['\'', '\'']
    } else {
        escape_quotes(s.drop_last()).push(s.last())
    }
}

/// `s` as a single-quoted SQL literal.
pub open spec fn sql_literal(s: Seq<char>) -> Seq<char> {
    seq!['\''] + escape_quotes(s) + seq!['\'']
}

fn push_sql_literal(out: &mut Vec<char>, s: &str)
    ensures
        final(out)@ == old(out)@ + sql_literal(s@),
{
    let cs = chars_of(s);
    let ghost base = out@;
    out.push('\'');
    let mut i: usize = 0;
    while i < cs.len()
        invariant
            i <= cs@.len(),
            out@ == base + seq!['\''] + escape_quotes(cs@.take(i as int)),
        decreases cs.len() - i,
    {
        proof {
            assert(cs@.take(i + 1).drop_last() == cs@.take(i as int));
            assert(cs@.take(i + 1).last() == cs@[i as int]);
        }
        if cs[i] == '\'' {
            out.push('\'');
            out.push('\'');
        } else {
            out.push(cs[i]);
        }
        i = i + 1;
    }
    out.push('\'');
    proof {
        crate::text::lemma_take_all(cs@);
    }
}

/// The approximate inline literal the preview shows for a value.
pub open spec fn preview_value(v: JsonValue) -> Seq<char> {
    match v {
        JsonValue::Null => "NULL"@,
        JsonValue::Bool(b) => if b { "true"@ } else { "false"@ },
        JsonValue::Int(i) => signed_decimal(i as int),
        JsonValue::UInt(u) => decimal(u as nat),
        JsonValue::Str(s) => sql_literal(s@),
        JsonValue::Composite(t) => sql_literal(t@),
    }
}

/// Appends the preview literal of a value.
pub fn push_preview_value(out: &mut Vec<char>, v: &JsonValue)
    ensures
        final(out)@ == old(out)@ + preview_value(*v),
{
    match v {
        JsonValue::Null => push_str(out, "NULL"),
        JsonValue::Bool(b) => {
            if *b {
                push_str(out, "true")
            } else {
                push_str(out, "false")
            }
        },
        JsonValue::Int(i) => push_i64(out, *i),
        JsonValue::UInt(u) => push_u64(out, *u),
        JsonValue::Str(s) => push_sql_literal(out, s.as_str()),
        JsonValue::Composite(t) => push_sql_literal(out, t.as_str()),
    }
}

/// The preview literals of a list of values, joined by `, `.
pub open spec fn preview_list(vs: Seq<JsonValue>) -> Seq<char> {
    seq_join(vs.map_values(|v: JsonValue| preview_value(v)), ", "@)
}

/// Appends the preview literals of `vs` joined by `, `.
pub fn push_preview_list(out: &mut Vec<char>, vs: &Vec<JsonValue>)
    ensures
        final(out)@ == old(out)@ + preview_list(vs@),
{
    let ghost base = out@;
    let ghost parts = vs@.map_values(|v: JsonValue| preview_value(v));
    let mut i: usize = 0;
    while i < vs.len()
        invariant
            i <= vs@.len(),
            parts == vs@.map_values(|v: JsonValue| preview_value(v)),
            out@ == base + seq_join(parts.take(i as int), ", "@),
        decreases vs.len() - i,
    {
        proof {
            crate::text::lemma_join_step(parts, ", "@, i as int);
        }
        if i > 0 {
            push_str(out, ", ");
        }
        push_preview_value(out, &vs[i]);
        i = i + 1;
    }
    proof {
        crate::text::lemma_take_all(parts);
    }
}

/// The label an operator is shown with in previews and error context.
pub open spec fn operator_label(op: Operator) -> Seq<char> {
    match op {
        Operator::Eq => "="@,
        Operator::NotEq => "!="@,
        Operator::Gt => ">"@,
        Operator::Gte => ">="@,
        Operator::Lt => "<"@,
        Operator::Lte => "<="@,
        Operator::Like => "LIKE"@,
        Operator::LikeEscaped => "LIKE"@,
        Operator::NotLike => "NOT LIKE"@,
        Operator::In => "IN"@,
        Operator::NotIn => "NOT IN"@,
        Operator::IsNull => "IS NULL"@,
        Operator::IsNotNull => "IS NOT NULL"@,
        Operator::Between => "BETWEEN"@,
        Operator::JsonContains => "JSON_CONTAINS"@,
        Operator::JsonContainedBy => "JSON_CONTAINED_BY"@,
        Operator::JsonKeyExists => "JSON_KEY_EXISTS"@,
        Operator::JsonKeyNotExists => "JSON_KEY_NOT_EXISTS"@,
        Operator::JsonPathExists => "JSON_PATH_EXISTS"@,
        Operator::JsonPathNotExists => "JSON_PATH_NOT_EXISTS"@,
        Operator::ArrayContains => "ARRAY_CONTAINS"@,
        Operator::ArrayContainedBy => "ARRAY_CONTAINED_BY"@,
        Operator::ArrayOverlaps => "ARRAY_OVERLAPS"@,
        Operator::ArrayContainsAny => "ARRAY_CONTAINS_ANY"@,
        Operator::ArrayContainsAll => "ARRAY_CONTAINS_ALL"@,
        Operator::SubqueryIn => "IN SUBQUERY"@,
        Operator::SubqueryNotIn => "NOT IN SUBQUERY"@,
        Operator::Raw => "RAW"@,
        Operator::EqAny => "= ANY"@,
        Operator::NeAll => "<> ALL"@,
    }
}

/// The label an operator is shown with.
pub fn operator_label_str(op: Operator) -> (s: &'static str)
    ensures
        s@ == operator_label(op),
{
    match op {
        Operator::Eq => "=",
        Operator::NotEq => "!=",
        Operator::Gt => ">",
        Operator::Gte => ">=",
        Operator::Lt => "<",
        Operator::Lte => "<=",
        Operator::Like => "LIKE",
        Operator::LikeEscaped => "LIKE",
        Operator::NotLike => "NOT LIKE",
        Operator::In => "IN",
        Operator::NotIn => "NOT IN",
        Operator::IsNull => "IS NULL",
        Operator::IsNotNull => "IS NOT NULL",
        Operator::Between => "BETWEEN",
        Operator::JsonContains => "JSON_CONTAINS",
        Operator::JsonContainedBy => "JSON_CONTAINED_BY",
        Operator::JsonKeyExists => "JSON_KEY_EXISTS",
        Operator::JsonKeyNotExists => "JSON_KEY_NOT_EXISTS",
        Operator::JsonPathExists => "JSON_PATH_EXISTS",
        Operator::JsonPathNotExists => "JSON_PATH_NOT_EXISTS",
        Operator::ArrayContains => "ARRAY_CONTAINS",
        Operator::ArrayContainedBy => "ARRAY_CONTAINED_BY",
        Operator::ArrayOverlaps => "ARRAY_OVERLAPS",
        Operator::ArrayContainsAny => "ARRAY_CONTAINS_ANY",
        Operator::ArrayContainsAll => "ARRAY_CONTAINS_ALL",
        Operator::SubqueryIn => "IN SUBQUERY",
        Operator::SubqueryNotIn => "NOT IN SUBQUERY",
        Operator::Raw => "RAW",
        Operator::EqAny => "= ANY",
        Operator::NeAll => "<> ALL",
    }
}

/// Whether an operator pairs with a single value.
pub open spec fn takes_single(op: Operator) -> bool {
    match op {
        Operator::Eq | Operator::NotEq | Operator::Gt | Operator::Gte | Operator::Lt | Operator::Lte
        | Operator::Like | Operator::LikeEscaped | Operator::NotLike => true,
        _ => false,
    }
}

/// Whether an operator pairs with a list of values.
pub open spec fn takes_list(op: Operator) -> bool {
    match op {
        Operator::In | Operator::NotIn | Operator::EqAny | Operator::NeAll | Operator::ArrayContains
        | Operator::ArrayContainsAll | Operator::ArrayContainedBy | Operator::ArrayOverlaps
        | Operator::ArrayContainsAny => true,
        _ => false,
    }
}

/// Whether an operator and its operand pair up into something renderable.
/// The JSON document operators are never renderable: their SQL depends on
/// the database layer's JSON support, which this builder does not write.
pub open spec fn representable(c: WhereCondition) -> bool {
    match c.value {
        ConditionValue::RawExpr(_) => c.operator == Operator::Raw,
        ConditionValue::Single(_) => takes_single(c.operator),
        ConditionValue::List(_) => takes_list(c.operator),
        ConditionValue::NoValue => c.operator == Operator::IsNull || c.operator == Operator::IsNotNull,
        ConditionValue::Range(_, _) => c.operator == Operator::Between,
        ConditionValue::Subquery(_) => c.operator == Operator::SubqueryIn || c.operator
            == Operator::SubqueryNotIn,
    }
}

pub(crate) fn is_representable(c: &WhereCondition) -> (b: bool)
    ensures
        b == representable(*c),
{
    let single = matches!(c.operator, Operator::Eq | Operator::NotEq | Operator::Gt | Operator::Gte
        | Operator::Lt | Operator::Lte | Operator::Like | Operator::LikeEscaped | Operator::NotLike);
    let list = matches!(c.operator, Operator::In | Operator::NotIn | Operator::EqAny | Operator::NeAll
        | Operator::ArrayContains | Operator::ArrayContainsAll | Operator::ArrayContainedBy
        | Operator::ArrayOverlaps | Operator::ArrayContainsAny);
    match &c.value {
        ConditionValue::RawExpr(_) => matches!(c.operator, Operator::Raw),
        ConditionValue::Single(_) => single,
        ConditionValue::List(_) => list,
        ConditionValue::NoValue => matches!(c.operator, Operator::IsNull | Operator::IsNotNull),
        ConditionValue::Range(_, _) => matches!(c.operator, Operator::Between),
        ConditionValue::Subquery(_) => matches!(c.operator, Operator::SubqueryIn | Operator::SubqueryNotIn),
    }
}

/// The escape clause of an escaped LIKE for `db`.
pub open spec fn escape_clause(db: DatabaseType) -> Seq<char> {
    match db {
        DatabaseType::Postgres => " ESCAPE '\\'"@,
        _ => " ESCAPE '\\\\'"@,
    }
}

/// The preview of one representable condition; `None` when the operator and
/// operand do not pair up.
pub open spec fn condition_sql(meta: ModelMeta, db: DatabaseType, c: WhereCondition) -> Option<Seq<char>> {
    if !representable(c) {
        None
    } else {
        let col = column_sql(meta, db, c.column@);
        Some(
            match c.value {
                ConditionValue::RawExpr(r) => if c.column@.len() == 0 {
                    r@
                } else {
                    col + " "@ + r@
                },
                ConditionValue::Single(v) => if c.operator == Operator::Eq && v is Null {
                    col + " IS NULL"@
                } else if c.operator == Operator::NotEq && v is Null {
                    col + " IS NOT NULL"@
                } else {
                    match c.operator {
                    Operator::Like => col + " LIKE "@ + preview_value(v),
                    Operator::NotLike => col + " NOT LIKE "@ + preview_value(v),
                    Operator::LikeEscaped => col + " LIKE "@ + preview_value(v) + escape_clause(db),
                    _ => col + " "@ + operator_label(c.operator) + " "@ + preview_value(v),
                    }
                },
                ConditionValue::List(vs) => match c.operator {
                    Operator::In => col + " IN ("@ + preview_list(vs@) + ")"@,
                    Operator::NotIn => col + " NOT IN ("@ + preview_list(vs@) + ")"@,
                    Operator::EqAny => if db == DatabaseType::Postgres {
                        col + " = ANY(ARRAY["@ + preview_list(vs@) + "])"@
                    } else {
                        col + " IN ("@ + preview_list(vs@) + ")"@
                    },
                    Operator::NeAll => if db == DatabaseType::Postgres {
                        col + " <> ALL(ARRAY["@ + preview_list(vs@) + "])"@
                    } else {
                        col + " NOT IN ("@ + preview_list(vs@) + ")"@
                    },
                    _ => array_sql(db, col, array_kind(c.operator), vs@.len(), preview_slot(vs@)),
                },
                ConditionValue::NoValue => if c.operator == Operator::IsNull {
                    col + " IS NULL"@
                } else {
                    col + " IS NOT NULL"@
                },
                ConditionValue::Range(a, b) => col + " BETWEEN "@ + preview_value(a) + " AND "@
                    + preview_value(b),
                ConditionValue::Subquery(q) => if c.operator == Operator::SubqueryIn {
                    col + " IN ("@ + q@ + ")"@
                } else {
                    col + " NOT IN ("@ + q@ + ")"@
                },
            },
        )
    }
}

/// Appends the preview of a representable condition.
pub fn push_condition_sql(out: &mut Vec<char>, meta: &ModelMeta, db: DatabaseType, c: &WhereCondition)
    requires
        representable(*c),
    ensures
        condition_sql(*meta, db, *c) == Some(final(out)@.skip(old(out)@.len() as int)),
        final(out)@.take(old(out)@.len() as int) == old(out)@,
{
    let ghost base = out@;
    let cc = chars_of(c.column.as_str());
    let mut s: Vec<char> = Vec::new();
    match &c.value {
        ConditionValue::RawExpr(r) => {
            if cc.len() == 0 {
                push_str(&mut s, r.as_str());
            } else {
                push_column_sql(&mut s, meta, db, &cc);
                push_str(&mut s, " ");
                push_str(&mut s, r.as_str());
            }
        },
        ConditionValue::Single(v) => {
            push_column_sql(&mut s, meta, db, &cc);
            let is_null = match v {
                JsonValue::Null => true,
                _ => false,
            };
            if is_null && matches!(c.operator, Operator::Eq) {
                push_str(&mut s, " IS NULL");
            } else if is_null && matches!(c.operator, Operator::NotEq) {
                push_str(&mut s, " IS NOT NULL");
            } else {
            match c.operator {
                Operator::Like => {
                    push_str(&mut s, " LIKE ");
                    push_preview_value(&mut s, v);
                },
                Operator::NotLike => {
                    push_str(&mut s, " NOT LIKE ");
                    push_preview_value(&mut s, v);
                },
                Operator::LikeEscaped => {
                    push_str(&mut s, " LIKE ");
                    push_preview_value(&mut s, v);
                    match db {
                        DatabaseType::Postgres => push_str(&mut s, " ESCAPE '\\'"),
                        _ => push_str(&mut s, " ESCAPE '\\\\'"),
                    }
                },
                _ => {
                    push_str(&mut s, " ");
                    push_str(&mut s, operator_label_str(c.operator));
                    push_str(&mut s, " ");
                    push_preview_value(&mut s, v);
                },
            }
            }
        },
        ConditionValue::List(vs) => {
            let mut col: Vec<char> = Vec::new();
            push_column_sql(&mut col, meta, db, &cc);
            let is_array = !matches!(c.operator, Operator::In | Operator::NotIn | Operator::EqAny
                | Operator::NeAll);
            if !is_array {
                push_chars(&mut s, &col);
            }
            match c.operator {
                Operator::In => {
                    push_str(&mut s, " IN (");
                    push_preview_list(&mut s, vs);
                    push_str(&mut s, ")");
                },
                Operator::NotIn => {
                    push_str(&mut s, " NOT IN (");
                    push_preview_list(&mut s, vs);
                    push_str(&mut s, ")");
                },
                Operator::EqAny => {
                    if matches!(db, DatabaseType::Postgres) {
                        push_str(&mut s, " = ANY(ARRAY[");
                        push_preview_list(&mut s, vs);
                        push_str(&mut s, "])");
                    } else {
                        push_str(&mut s, " IN (");
                        push_preview_list(&mut s, vs);
                        push_str(&mut s, ")");
                    }
                },
                Operator::NeAll => {
                    if matches!(db, DatabaseType::Postgres) {
                        push_str(&mut s, " <> ALL(ARRAY[");
                        push_preview_list(&mut s, vs);
                        push_str(&mut s, "])");
                    } else {
                        push_str(&mut s, " NOT IN (");
                        push_preview_list(&mut s, vs);
                        push_str(&mut s, ")");
                    }
                },
                _ => {
                    let mut unbound: Vec<JsonValue> = Vec::new();
                    push_array_sql(&mut s, &mut unbound, false, db, &col, array_operator(c.operator), vs);
                },
            }
        },
        ConditionValue::NoValue => {
            push_column_sql(&mut s, meta, db, &cc);
            if matches!(c.operator, Operator::IsNull) {
                push_str(&mut s, " IS NULL");
            } else {
                push_str(&mut s, " IS NOT NULL");
            }
        },
        ConditionValue::Range(a, b) => {
            push_column_sql(&mut s, meta, db, &cc);
            push_str(&mut s, " BETWEEN ");
            push_preview_value(&mut s, a);
            push_str(&mut s, " AND ");
            push_preview_value(&mut s, b);
        },
        ConditionValue::Subquery(q) => {
            push_column_sql(&mut s, meta, db, &cc);
            if matches!(c.operator, Operator::SubqueryIn) {
                push_str(&mut s, " IN (");
            } else {
                push_str(&mut s, " NOT IN (");
            }
            push_str(&mut s, q.as_str());
            push_str(&mut s, ")");
        },
    }
    assert(condition_sql(*meta, db, *c) == Some(s@));
    push_chars(out, &s);
    assert(out@.skip(base.len() as int) =~= s@);
    assert(out@.take(base.len() as int) =~= base);
}

/// `s` wrapped in parentheses.
pub open spec fn paren(s: Seq<char>) -> Seq<char> {
    seq!['('] + s + seq![')']
}

/// The parenthesized previews of the representable conditions of `cs`, in
/// order; a condition that cannot be rendered contributes nothing.
pub open spec fn condition_parts(meta: ModelMeta, db: DatabaseType, cs: Seq<WhereCondition>) -> Seq<Seq<char>>
    decreases cs.len(),
{
    if cs.len() == 0 {
        Seq::empty()
    } else {
        condition_parts(meta, db, cs.drop_last()) + match condition_sql(meta, db, cs.last()) {
            Some(sql) => seq![paren(sql)],
            None => Seq::empty(),
        }
    }
}

/// The preview of a group: its condition parts, then its non-empty nested
/// groups in parentheses, joined by the group's connective.
pub open spec fn group_sql(meta: ModelMeta, db: DatabaseType, g: OrGroup) -> Seq<char>
    decreases g,
{
    seq_join(
        condition_parts(meta, db, g.conditions@) + group_parts(meta, db, g.nested_groups@),
        " "@ + logical_keyword(g.combine_with) + " "@,
    )
}

/// The parenthesized previews of the groups of `gs` that render to something.
pub open spec fn group_parts(meta: ModelMeta, db: DatabaseType, gs: Seq<OrGroup>) -> Seq<Seq<char>>
    decreases gs,
{
    if gs.len() == 0 {
        Seq::empty()
    } else {
        let sql = group_sql(meta, db, gs.last());
        group_parts(meta, db, gs.drop_last()) + if sql.len() == 0 {
            Seq::<Seq<char>>::empty()
        } else {
            seq![paren(sql)]
        }
    }
}

/// The preview of one condition, when it is representable.
pub fn render_condition(meta: &ModelMeta, db: DatabaseType, c: &WhereCondition) -> (r: Option<Vec<char>>)
    ensures
        match r {
            Some(v) => condition_sql(*meta, db, *c) == Some(v@),
            None => condition_sql(*meta, db, *c) is None,
        },
{
    if is_representable(c) {
        let mut out: Vec<char> = Vec::new();
        push_condition_sql(&mut out, meta, db, c);
        assert(out@.skip(0) == out@);
        Some(out)
    } else {
        None
    }
}

pub(crate) fn push_paren(parts: &mut Vec<Vec<char>>, v: &Vec<char>)
    ensures
        vviews(final(parts)@) == vviews(old(parts)@).push(paren(v@)),
{
    let mut w: Vec<char> = Vec::new();
    w.push('(');
    push_chars(&mut w, v);
    w.push(')');
    assert(w@ == paren(v@));
    parts.push(w);
    assert(vviews(parts@) =~= vviews(old(parts)@).push(paren(v@)));
}

fn push_condition_parts(parts: &mut Vec<Vec<char>>, meta: &ModelMeta, db: DatabaseType, cs: &Vec<WhereCondition>)
    ensures
        vviews(final(parts)@) == vviews(old(parts)@) + condition_parts(*meta, db, cs@),
{
    let ghost base = vviews(parts@);
    let mut i: usize = 0;
    while i < cs.len()
        invariant
            i <= cs@.len(),
            base == vviews(old(parts)@),
            vviews(parts@) == base + condition_parts(*meta, db, cs@.take(i as int)),
        decreases cs.len() - i,
    {
        proof {
            assert(cs@.take(i + 1).drop_last() == cs@.take(i as int));
            assert(cs@.take(i + 1).last() == cs@[i as int]);
        }
        match render_condition(meta, db, &cs[i]) {
            Some(v) => {
                push_paren(parts, &v);
                assert(vviews(parts@) =~= base + condition_parts(*meta, db, cs@.take(i + 1)));
            },
            None => {
                assert(vviews(parts@) =~= base + condition_parts(*meta, db, cs@.take(i + 1)));
            },
        }
        i = i + 1;
    }
    proof {
        crate::text::lemma_take_all(cs@);
    }
}

pub(crate) fn group_separator(op: LogicalOp) -> (s: &'static str)
    ensures
        s@ == " "@ + logical_keyword(op) + " "@,
{
    match op {
        LogicalOp::And => {
            proof {
                reveal_strlit(" AND ");
                reveal_strlit("AND");
                reveal_strlit(" ");
            }
            assert(" AND "@ =~= " "@ + "AND"@ + " "@);
            " AND "
        },
        LogicalOp::Or => {
            proof {
                reveal_strlit(" OR ");
                reveal_strlit("OR");
                reveal_strlit(" ");
            }
            assert(" OR "@ =~= " "@ + "OR"@ + " "@);
            " OR "
        },
    }
}

/// Renders a group: its representable conditions, each in parentheses, then
/// its non-empty nested groups in parentheses, joined by its connective.
pub fn render_group(meta: &ModelMeta, db: DatabaseType, g: &OrGroup) -> (r: Vec<char>)
    ensures
        r@ == group_sql(*meta, db, *g),
    decreases *g,
{
    let mut parts: Vec<Vec<char>> = Vec::new();
    assert(vviews(parts@) =~= Seq::<Seq<char>>::empty());
    push_condition_parts(&mut parts, meta, db, &g.conditions);
    let ghost base = vviews(parts@);
    assert(base =~= condition_parts(*meta, db, g.conditions@));
    let gs = &g.nested_groups;
    let mut i: usize = 0;
    while i < gs.len()
        invariant
            i <= gs@.len(),
            gs@ == g.nested_groups@,
            vviews(parts@) == base + group_parts(*meta, db, gs@.take(i as int)),
        decreases gs.len() - i,
    {
        proof {
            assert(gs@.take(i + 1).drop_last() == gs@.take(i as int));
            assert(gs@.take(i + 1).last() == gs@[i as int]);
            assert(decreases_to!(*g => g.nested_groups@[i as int]));
        }
        let nested = render_group(meta, db, &gs[i]);
        if nested.len() > 0 {
            push_paren(&mut parts, &nested);
        }
        assert(vviews(parts@) =~= base + group_parts(*meta, db, gs@.take(i + 1)));
        i = i + 1;
    }
    proof {
        crate::text::lemma_take_all(gs@);
    }
    let mut out: Vec<char> = Vec::new();
    push_joined_chars(&mut out, &parts, group_separator(g.combine_with));
    assert(out@ =~= group_sql(*meta, db, *g));
    out
}

fn push_group_parts(parts: &mut Vec<Vec<char>>, meta: &ModelMeta, db: DatabaseType, gs: &Vec<OrGroup>)
    ensures
        vviews(final(parts)@) == vviews(old(parts)@) + group_parts(*meta, db, gs@),
{
    let ghost base = vviews(parts@);
    let mut i: usize = 0;
    while i < gs.len()
        invariant
            i <= gs@.len(),
            base == vviews(old(parts)@),
            vviews(parts@) == base + group_parts(*meta, db, gs@.take(i as int)),
        decreases gs.len() - i,
    {
        proof {
            assert(gs@.take(i + 1).drop_last() == gs@.take(i as int));
            assert(gs@.take(i + 1).last() == gs@[i as int]);
        }
        let nested = render_group(meta, db, &gs[i]);
        if nested.len() > 0 {
            push_paren(parts, &nested);
        }
        assert(vviews(parts@) =~= base + group_parts(*meta, db, gs@.take(i + 1)));
        i = i + 1;
    }
    proof {
        crate::text::lemma_take_all(gs@);
    }
}

/// The soft-delete filter a query adds: `deleted_at IS NOT NULL` when only
/// trashed rows are asked for, `deleted_at IS NULL` unless trashed rows are
/// included, nothing for a model without soft deletes.
pub open spec fn soft_delete_clauses(q: QueryBuilder, db: DatabaseType) -> Seq<Seq<char>> {
    if !q.meta.soft_delete {
        Seq::empty()
    } else if q.only_trashed {
        seq![quoted(db, q.meta.deleted_at_column@) + " IS NOT NULL"@]
    } else if !q.include_trashed {
        seq![quoted(db, q.meta.deleted_at_column@) + " IS NULL"@]
    } else {
        Seq::empty()
    }
}

/// The clauses of the WHERE preview: the representable conditions, the
/// non-empty groups, then the soft-delete filter.
pub open spec fn where_clauses(q: QueryBuilder, db: DatabaseType) -> Seq<Seq<char>> {
    condition_parts(q.meta, db, q.conditions@) + group_parts(q.meta, db, q.or_groups@)
        + soft_delete_clauses(q, db)
}

/// The WHERE preview body (without the keyword), `""` when nothing filters.
pub open spec fn where_sql(q: QueryBuilder, db: DatabaseType) -> Seq<char> {
    seq_join(where_clauses(q, db), " AND "@)
}

impl QueryBuilder {
    /// Renders the WHERE body for `db_type` (see `where_sql`).
    pub fn build_where_sql_for_db(&self, db_type: DatabaseType) -> (s: String)
        ensures
            s@ == where_sql(*self, db_type),
    {
        let mut parts: Vec<Vec<char>> = Vec::new();
        assert(vviews(parts@) =~= Seq::<Seq<char>>::empty());
        push_condition_parts(&mut parts, &self.meta, db_type, &self.conditions);
        push_group_parts(&mut parts, &self.meta, db_type, &self.or_groups);
        let ghost before = vviews(parts@);
        if self.meta.soft_delete {
            let col = chars_of(self.meta.deleted_at_column.as_str());
            let mut w: Vec<char> = Vec::new();
            push_quoted(&mut w, db_type, &col);
            if self.only_trashed {
                push_str(&mut w, " IS NOT NULL");
                parts.push(w);
            } else if !self.include_trashed {
                push_str(&mut w, " IS NULL");
                parts.push(w);
            }
        }
        assert(vviews(parts@) =~= where_clauses(*self, db_type));
        let mut out: Vec<char> = Vec::new();
        push_joined_chars(&mut out, &parts, " AND ");
        string_of(&out)
    }
}

} // verus!
