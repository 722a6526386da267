//! Clause descriptions shared by the query builder and the SQL renderers.

use vstd::prelude::*;
use crate::dialect::{
    DatabaseType, Order, order_keyword, quoted, strict_column, push_quoted, push_strict_column,
};
use crate::json::JsonValue;
use crate::text::{
    chars_of, decimal, push_i64, push_str, push_u64, seq_join, signed_decimal, string_of,
};

verus! {

/// The kind of JOIN.
#[derive(Clone, Copy, PartialEq, Eq, Debug)]
pub enum JoinType {
    /// `INNER JOIN`.
    Inner,
    /// `LEFT JOIN`.
    Left,
    /// `RIGHT JOIN`.
    Right,
}

/// The keyword sequence of a JOIN kind.
pub open spec fn join_keyword(j: JoinType) -> Seq<char> {
    match j {
        JoinType::Inner => "INNER JOIN"@,
        JoinType::Left => "LEFT JOIN"@,
        JoinType::Right => "RIGHT JOIN"@,
    }
}

impl JoinType {
    /// The keyword sequence emitted in front of the joined table.
    pub fn as_sql(&self) -> (s: &'static str)
        ensures
            s@ == join_keyword(*self),
    {
        match self {
            JoinType::Inner => "INNER JOIN",
            JoinType::Left => "LEFT JOIN",
            JoinType::Right => "RIGHT JOIN",
        }
    }
}

/// A JOIN kind's keyword says which unmatched rows the join keeps, and no two
/// kinds share a keyword: every keyword ends in ` JOIN`; it starts with
/// `LEFT ` exactly for a left join (unmatched rows of the left table kept),
/// with `RIGHT ` exactly for a right join (those of the right table kept), and
/// with `INNER ` exactly for an inner join (none kept).
pub proof fn lemma_join_keyword_names_the_kind(a: JoinType, b: JoinType)
    ensures
        join_keyword(a) == join_keyword(b) <==> a == b,
        join_keyword(a).len() >= 5 && join_keyword(a).skip(join_keyword(a).len() - 5) == " JOIN"@,
        (join_keyword(a).len() >= 5 && join_keyword(a).take(5) == "LEFT "@) <==> a == JoinType::Left,
        (join_keyword(a).len() >= 6 && join_keyword(a).take(6) == "RIGHT "@) <==> a == JoinType::Right,
        (join_keyword(a).len() >= 6 && join_keyword(a).take(6) == "INNER "@) <==> a == JoinType::Inner,
{
    reveal_strlit("INNER JOIN");
    reveal_strlit("LEFT JOIN");
    reveal_strlit("RIGHT JOIN");
    reveal_strlit(" JOIN");
    reveal_strlit("LEFT ");
    reveal_strlit("RIGHT ");
    reveal_strlit("INNER ");
    let ka = join_keyword(a);
    assert(ka.skip(ka.len() - 5) =~= " JOIN"@);
    if a == JoinType::Left {
        assert(ka.take(5) =~= "LEFT "@);
        assert(ka.take(6) != "RIGHT "@ && ka.take(6) != "INNER "@) by {
            assert(ka.take(6)[0] == 'L');
        }
    } else if a == JoinType::Right {
        assert(ka.take(6) =~= "RIGHT "@);
        assert(ka.take(5) != "LEFT "@) by {
            assert(ka.take(5)[0] == 'R');
        }
        assert(ka.take(6) != "INNER "@) by {
            assert(ka.take(6)[0] == 'R');
        }
    } else {
        assert(ka.take(6) =~= "INNER "@);
        assert(ka.take(5) != "LEFT "@) by {
            assert(ka.take(5)[0] == 'I');
        }
        assert(ka.take(6) != "RIGHT "@) by {
            assert(ka.take(6)[0] == 'I');
        }
    }
    if a != b {
        let kb = join_keyword(b);
        assert(ka != kb) by {
            if ka.len() == kb.len() {
                assert(ka[0] != kb[0]);
            }
        }
    }
}

/// One JOIN registered on a query. The ON condition is one equality between
/// two columns.
#[derive(Clone, Debug)]
pub struct JoinClause {
    /// Which JOIN keyword to emit.
    pub join_type: JoinType,
    /// Name of the joined table.
    pub table: String,
    /// Optional `AS` alias.
    pub alias: Option<String>,
    /// Left-hand side of the ON equality.
    pub left_column: String,
    /// Right-hand side of the ON equality.
    pub right_column: String,
}

/// A named aggregate over a column.
#[derive(Clone, Debug)]
pub enum AggregateFunction {
    /// `COUNT(*)`.
    Count,
    /// `COUNT(DISTINCT column)`.
    CountDistinct(String),
    /// `SUM(column)`.
    Sum(String),
    /// `AVG(column)`.
    Avg(String),
    /// `MIN(column)`.
    Min(String),
    /// `MAX(column)`.
    Max(String),
}

/// Which compound-select operator joins two result sets.
#[derive(Clone, Copy, PartialEq, Eq, Debug)]
pub enum UnionType {
    /// `UNION`.
    Union,
    /// `UNION ALL`.
    UnionAll,
}

/// The keyword of a compound-select operator.
pub open spec fn union_keyword(u: UnionType) -> Seq<char> {
    match u {
        UnionType::Union => "UNION"@,
        UnionType::UnionAll => "UNION ALL"@,
    }
}

/// A compound operator's keyword says whether duplicates are kept, and the
/// two operators' keywords differ: both start with `UNION`; the keyword goes
/// on with ` ALL` (every row of both operands kept, duplicates included)
/// exactly for `UnionAll`, and is `UNION` alone (duplicate rows removed)
/// exactly for `Union`.
pub proof fn lemma_union_keyword_names_the_kind(a: UnionType, b: UnionType)
    ensures
        union_keyword(a) == union_keyword(b) <==> a == b,
        union_keyword(a).len() >= 5 && union_keyword(a).take(5) == "UNION"@,
        (union_keyword(a).len() > 5 && union_keyword(a).skip(5) == " ALL"@) <==> a == UnionType::UnionAll,
        union_keyword(a) == "UNION"@ <==> a == UnionType::Union,
{
    reveal_strlit("UNION");
    reveal_strlit("UNION ALL");
    reveal_strlit(" ALL");
    let ka = union_keyword(a);
    assert(ka.take(5) =~= "UNION"@);
    if a == UnionType::UnionAll {
        assert(ka.skip(5) =~= " ALL"@);
        assert(ka != "UNION"@) by {
            assert(ka.len() != 5);
        }
    }
    if a != b {
        assert(union_keyword(a).len() != union_keyword(b).len());
    }
}

impl UnionType {
    /// The keyword sequence emitted between two compound-select operands.
    pub fn as_sql(&self) -> (s: &'static str)
        ensures
            s@ == union_keyword(*self),
    {
        match self {
            UnionType::Union => "UNION",
            UnionType::UnionAll => "UNION ALL",
        }
    }
}

/// One operand of a compound select, with the values bound to its placeholders.
#[derive(Clone, Debug)]
pub struct UnionClause {
    /// Which compound operator precedes this operand.
    pub union_type: UnionType,
    /// The operand's own select statement.
    pub query_sql: String,
    /// Values bound to the operand's placeholders, in placeholder order.
    pub params: Vec<JsonValue>,
}

impl UnionClause {
    /// An operand from trusted SQL that binds no values.
    pub fn new(union_type: UnionType, query_sql: String) -> (r: Self)
        ensures
            r.union_type == union_type,
            r.query_sql == query_sql,
            r.params@.len() == 0,
    {
        UnionClause { union_type, query_sql, params: Vec::new() }
    }

    /// An operand from parameterized SQL and the values bound to it.
    pub fn with_params(union_type: UnionType, query_sql: String, params: Vec<JsonValue>) -> (r:
        Self)
        ensures
            r.union_type == union_type,
            r.query_sql == query_sql,
            r.params == params,
    {
        UnionClause { union_type, query_sql, params }
    }
}

/// One end of a window frame.
#[derive(Clone, Debug, PartialEq, Eq)]
pub enum FrameBound {
    /// First row of the partition.
    UnboundedPreceding,
    /// Last row of the partition.
    UnboundedFollowing,
    /// The current row.
    CurrentRow,
    /// `n` units before the current row.
    Preceding(u64),
    /// `n` units after the current row.
    Following(u64),
}

/// The SQL of a frame bound.
pub open spec fn frame_bound_sql(b: FrameBound) -> Seq<char> {
    match b {
        FrameBound::UnboundedPreceding => "UNBOUNDED PRECEDING"@,
        FrameBound::UnboundedFollowing => "UNBOUNDED FOLLOWING"@,
        FrameBound::CurrentRow => "CURRENT ROW"@,
        FrameBound::Preceding(n) => decimal(n as nat) + " PRECEDING"@,
        FrameBound::Following(n) => decimal(n as nat) + " FOLLOWING"@,
    }
}

fn push_frame_bound(out: &mut Vec<char>, b: &FrameBound)
    ensures
        final(out)@ == old(out)@ + frame_bound_sql(*b),
{
    match b {
        FrameBound::UnboundedPreceding => push_str(out, "UNBOUNDED PRECEDING"),
        FrameBound::UnboundedFollowing => push_str(out, "UNBOUNDED FOLLOWING"),
        FrameBound::CurrentRow => push_str(out, "CURRENT ROW"),
        FrameBound::Preceding(n) => {
            push_u64(out, *n);
            push_str(out, " PRECEDING");
        },
        FrameBound::Following(n) => {
            push_u64(out, *n);
            push_str(out, " FOLLOWING");
        },
    }
}

impl FrameBound {
    /// Renders this bound.
    pub fn as_sql(&self) -> (s: String)
        ensures
            s@ == frame_bound_sql(*self),
    {
        let mut out: Vec<char> = Vec::new();
        push_frame_bound(&mut out, self);
        string_of(&out)
    }
}

/// The unit a window frame is measured in.
#[derive(Clone, Copy, PartialEq, Eq, Debug)]
pub enum FrameType {
    /// Physical rows.
    Rows,
    /// ORDER BY values.
    Range,
    /// Peer groups.
    Groups,
}

/// The frame keyword of a frame unit.
pub open spec fn frame_type_sql(t: FrameType) -> Seq<char> {
    match t {
        FrameType::Rows => "ROWS"@,
        FrameType::Range => "RANGE"@,
        FrameType::Groups => "GROUPS"@,
    }
}

impl FrameType {
    /// The frame keyword emitted in front of the bounds.
    pub fn as_sql(&self) -> (s: &'static str)
        ensures
            s@ == frame_type_sql(*self),
    {
        match self {
            FrameType::Rows => "ROWS",
            FrameType::Range => "RANGE",
            FrameType::Groups => "GROUPS",
        }
    }
}

/// Which window function a `WindowFunction` computes.
#[derive(Clone, Debug, PartialEq, Eq)]
pub enum WindowFunctionType {
    /// `ROW_NUMBER()`.
    RowNumber,
    /// `RANK()`.
    Rank,
    /// `DENSE_RANK()`.
    DenseRank,
    /// `NTILE(n)`.
    Ntile(u32),
    /// `LAG(column, offset, default)`; offset and default are rendered only
    /// when the offset is present.
    Lag(String, Option<i32>, Option<String>),
    /// `LEAD(column, offset, default)`, with the same argument rule as `Lag`.
    Lead(String, Option<i32>, Option<String>),
    /// `FIRST_VALUE(column)`.
    FirstValue(String),
    /// `LAST_VALUE(column)`.
    LastValue(String),
    /// `NTH_VALUE(column, n)`.
    NthValue(String, u32),
    /// `SUM(column)`.
    Sum(String),
    /// `AVG(column)`.
    Avg(String),
    /// `COUNT(column)`, or `COUNT(*)` without a column.
    Count(Option<String>),
    /// `MIN(column)`.
    Min(String),
    /// `MAX(column)`.
    Max(String),
    /// A trusted function expression, emitted verbatim.
    Custom(String),
}

/// The optional offset and default arguments of `LAG`/`LEAD`.
pub open spec fn offset_args(offset: Option<i32>, default: Option<String>) -> Seq<char> {
    match offset {
        Some(o) => ", "@ + signed_decimal(o as int) + match default {
            Some(d) => ", "@ + d@,
            None => Seq::empty(),
        },
        None => Seq::empty(),
    }
}

/// `name(column)` with the column strictly quoted for `db`.
pub open spec fn call1(db: DatabaseType, name: Seq<char>, col: Seq<char>) -> Seq<char> {
    name + "("@ + strict_column(db, col) + ")"@
}

/// The SQL of a window function call, without its OVER clause.
pub open spec fn window_type_sql(t: WindowFunctionType, db: DatabaseType) -> Seq<char> {
    match t {
        WindowFunctionType::RowNumber => "ROW_NUMBER()"@,
        WindowFunctionType::Rank => "RANK()"@,
        WindowFunctionType::DenseRank => "DENSE_RANK()"@,
        WindowFunctionType::Ntile(n) => "NTILE("@ + decimal(n as nat) + ")"@,
        WindowFunctionType::Lag(c, o, d) => "LAG("@ + strict_column(db, c@) + offset_args(o, d)
            + ")"@,
        WindowFunctionType::Lead(c, o, d) => "LEAD("@ + strict_column(db, c@) + offset_args(o, d)
            + ")"@,
        WindowFunctionType::FirstValue(c) => call1(db, "FIRST_VALUE"@, c@),
        WindowFunctionType::LastValue(c) => call1(db, "LAST_VALUE"@, c@),
        WindowFunctionType::NthValue(c, n) => "NTH_VALUE("@ + strict_column(db, c@) + ", "@
            + decimal(n as nat) + ")"@,
        WindowFunctionType::Sum(c) => call1(db, "SUM"@, c@),
        WindowFunctionType::Avg(c) => call1(db, "AVG"@, c@),
        WindowFunctionType::Count(c) => match c {
            Some(col) => call1(db, "COUNT"@, col@),
            None => "COUNT(*)"@,
        },
        WindowFunctionType::Min(c) => call1(db, "MIN"@, c@),
        WindowFunctionType::Max(c) => call1(db, "MAX"@, c@),
        WindowFunctionType::Custom(e) => e@,
    }
}

fn push_offset_args(out: &mut Vec<char>, offset: &Option<i32>, default: &Option<String>)
    ensures
        final(out)@ == old(out)@ + offset_args(*offset, *default),
{
    match offset {
        Some(o) => {
            push_str(out, ", ");
            push_i64(out, *o as i64);
            match default {
                Some(d) => {
                    push_str(out, ", ");
                    push_str(out, d.as_str());
                },
                None => {},
            }
        },
        None => {},
    }
}

fn push_call1(out: &mut Vec<char>, db: DatabaseType, name: &str, col: &String)
    ensures
        final(out)@ == old(out)@ + call1(db, name@, col@),
{
    push_str(out, name);
    push_str(out, "(");
    let cs = chars_of(col.as_str());
    push_strict_column(out, db, &cs);
    push_str(out, ")");
}

/// Appends the SQL of a window function call for `db`.
pub fn push_window_type(out: &mut Vec<char>, t: &WindowFunctionType, db: DatabaseType)
    ensures
        final(out)@ == old(out)@ + window_type_sql(*t, db),
{
    match t {
        WindowFunctionType::RowNumber => push_str(out, "ROW_NUMBER()"),
        WindowFunctionType::Rank => push_str(out, "RANK()"),
        WindowFunctionType::DenseRank => push_str(out, "DENSE_RANK()"),
        WindowFunctionType::Ntile(n) => {
            push_str(out, "NTILE(");
            push_u64(out, *n as u64);
            push_str(out, ")");
        },
        WindowFunctionType::Lag(c, o, d) => {
            push_str(out, "LAG(");
            let cs = chars_of(c.as_str());
            push_strict_column(out, db, &cs);
            push_offset_args(out, o, d);
            push_str(out, ")");
        },
        WindowFunctionType::Lead(c, o, d) => {
            push_str(out, "LEAD(");
            let cs = chars_of(c.as_str());
            push_strict_column(out, db, &cs);
            push_offset_args(out, o, d);
            push_str(out, ")");
        },
        WindowFunctionType::FirstValue(c) => push_call1(out, db, "FIRST_VALUE", c),
        WindowFunctionType::LastValue(c) => push_call1(out, db, "LAST_VALUE", c),
        WindowFunctionType::NthValue(c, n) => {
            push_str(out, "NTH_VALUE(");
            let cs = chars_of(c.as_str());
            push_strict_column(out, db, &cs);
            push_str(out, ", ");
            push_u64(out, *n as u64);
            push_str(out, ")");
        },
        WindowFunctionType::Sum(c) => push_call1(out, db, "SUM", c),
        WindowFunctionType::Avg(c) => push_call1(out, db, "AVG", c),
        WindowFunctionType::Count(c) => match c {
            Some(col) => push_call1(out, db, "COUNT", col),
            None => push_str(out, "COUNT(*)"),
        },
        WindowFunctionType::Min(c) => push_call1(out, db, "MIN", c),
        WindowFunctionType::Max(c) => push_call1(out, db, "MAX", c),
        WindowFunctionType::Custom(e) => push_str(out, e.as_str()),
    }
}

impl WindowFunctionType {
    /// The function call for `db`, without the OVER clause. Column arguments
    /// are quoted strictly; `Custom` and the `LAG`/`LEAD` default are verbatim.
    pub fn as_sql_for_db(&self, db_type: DatabaseType) -> (s: String)
        ensures
            s@ == window_type_sql(*self, db_type),
    {
        let mut out: Vec<char> = Vec::new();
        push_window_type(&mut out, self, db_type);
        string_of(&out)
    }

    /// The function call with PostgreSQL quoting.
    pub fn as_sql(&self) -> (s: String)
        ensures
            s@ == window_type_sql(*self, DatabaseType::Postgres),
    {
        self.as_sql_for_db(DatabaseType::Postgres)
    }
}

} // verus!

verus! {

/// A window function and the OVER clause it is evaluated in.
#[derive(Clone, Debug)]
pub struct WindowFunction {
    /// The function being computed.
    pub function: WindowFunctionType,
    /// PARTITION BY columns.
    pub partition_by: Vec<String>,
    /// The window's own ORDER BY terms.
    pub order_by: Vec<(String, Order)>,
    /// Frame unit; rendered only together with `frame_start`.
    pub frame_type: Option<FrameType>,
    /// Frame start bound.
    pub frame_start: Option<FrameBound>,
    /// Frame end bound; with it the frame renders as `BETWEEN start AND end`.
    pub frame_end: Option<FrameBound>,
    /// Output column name.
    pub alias: String,
}

/// The PARTITION BY columns quoted for `db`.
pub open spec fn partition_parts(db: DatabaseType, cols: Seq<String>) -> Seq<Seq<char>> {
    cols.map_values(|c: String| strict_column(db, c@))
}

/// One ORDER BY term of a window.
pub open spec fn order_term_sql(db: DatabaseType, t: (String, Order)) -> Seq<char> {
    strict_column(db, t.0@) + " "@ + order_keyword(t.1)
}

/// The ORDER BY terms of a window rendered for `db`.
pub open spec fn order_parts(db: DatabaseType, terms: Seq<(String, Order)>) -> Seq<Seq<char>> {
    terms.map_values(|t: (String, Order)| order_term_sql(db, t))
}

/// The frame clause of a window, when both a unit and a start bound are set.
pub open spec fn frame_clause(w: WindowFunction) -> Option<Seq<char>> {
    match (w.frame_type, w.frame_start) {
        (Some(t), Some(start)) => Some(
            match w.frame_end {
                Some(end) => frame_type_sql(t) + " BETWEEN "@ + frame_bound_sql(start) + " AND "@
                    + frame_bound_sql(end),
                None => frame_type_sql(t) + " "@ + frame_bound_sql(start),
            },
        ),
        _ => None,
    }
}

/// The non-empty clauses inside a window's OVER (..), in order.
pub open spec fn window_clauses(w: WindowFunction, db: DatabaseType) -> Seq<Seq<char>> {
    let p: Seq<Seq<char>> = if w.partition_by@.len() > 0 {
        seq!["PARTITION BY "@ + seq_join(partition_parts(db, w.partition_by@), ", "@)]
    } else {
        Seq::empty()
    };
    let o: Seq<Seq<char>> = if w.order_by@.len() > 0 {
        seq!["ORDER BY "@ + seq_join(order_parts(db, w.order_by@), ", "@)]
    } else {
        Seq::empty()
    };
    let f: Seq<Seq<char>> = match frame_clause(w) {
        Some(c) => seq![c],
        None => Seq::empty(),
    };
    p + o + f
}

/// `<function> OVER (<clauses>) AS <alias>` for `db`.
pub open spec fn window_sql(w: WindowFunction, db: DatabaseType) -> Seq<char> {
    window_type_sql(w.function, db) + " OVER ("@ + seq_join(window_clauses(w, db), " "@) + ") AS "@
        + quoted(db, w.alias@)
}

fn partition_sql(db: DatabaseType, cols: &Vec<String>) -> (s: String)
    ensures
        s@ == "PARTITION BY "@ + seq_join(partition_parts(db, cols@), ", "@),
{
    let mut out: Vec<char> = Vec::new();
    push_str(&mut out, "PARTITION BY ");
    let ghost base = out@;
    let ghost parts = partition_parts(db, cols@);
    let mut i: usize = 0;
    while i < cols.len()
        invariant
            i <= cols@.len(),
            parts == partition_parts(db, cols@),
            out@ == base + seq_join(parts.take(i as int), ", "@),
        decreases cols.len() - i,
    {
        proof {
            crate::text::lemma_join_step(parts, ", "@, i as int);
        }
        if i > 0 {
            push_str(&mut out, ", ");
        }
        let cs = chars_of(cols[i].as_str());
        push_strict_column(&mut out, db, &cs);
        i = i + 1;
    }
    proof {
        crate::text::lemma_take_all(parts);
    }
    string_of(&out)
}

fn order_sql(db: DatabaseType, terms: &Vec<(String, Order)>) -> (s: String)
    ensures
        s@ == "ORDER BY "@ + seq_join(order_parts(db, terms@), ", "@),
{
    let mut out: Vec<char> = Vec::new();
    push_str(&mut out, "ORDER BY ");
    let ghost base = out@;
    let ghost parts = order_parts(db, terms@);
    let mut i: usize = 0;
    while i < terms.len()
        invariant
            i <= terms@.len(),
            parts == order_parts(db, terms@),
            out@ == base + seq_join(parts.take(i as int), ", "@),
        decreases terms.len() - i,
    {
        proof {
            crate::text::lemma_join_step(parts, ", "@, i as int);
        }
        if i > 0 {
            push_str(&mut out, ", ");
        }
        let cs = chars_of(terms[i].0.as_str());
        push_strict_column(&mut out, db, &cs);
        push_str(&mut out, " ");
        push_str(&mut out, terms[i].1.as_str());
        i = i + 1;
    }
    proof {
        crate::text::lemma_take_all(parts);
    }
    string_of(&out)
}

impl WindowFunction {
    /// An unpartitioned, unordered, unframed window under `alias`.
    pub fn new(function: WindowFunctionType, alias: &str) -> (r: Self)
        ensures
            r.function == function,
            r.partition_by@.len() == 0,
            r.order_by@.len() == 0,
            r.frame_type.is_none(),
            r.frame_start.is_none(),
            r.frame_end.is_none(),
            r.alias@ == alias@,
    {
        WindowFunction {
            function,
            partition_by: Vec::new(),
            order_by: Vec::new(),
            frame_type: None,
            frame_start: None,
            frame_end: None,
            alias: alias.to_owned(),
        }
    }

    /// Appends a PARTITION BY column.
    pub fn partition_by(self, column: &str) -> (r: Self)
        ensures
            r.partition_by@.len() == self.partition_by@.len() + 1,
            r.partition_by@.drop_last() == self.partition_by@,
            r.partition_by@.last()@ == column@,
            r.function == self.function,
            r.order_by == self.order_by,
            r.frame_type == self.frame_type,
            r.frame_start == self.frame_start,
            r.frame_end == self.frame_end,
            r.alias == self.alias,
    {
        let mut w = self;
        w.partition_by.push(column.to_owned());
        w
    }

    /// Appends an ORDER BY term to the window.
    pub fn order_by(self, column: &str, direction: Order) -> (r: Self)
        ensures
            r.order_by@.len() == self.order_by@.len() + 1,
            r.order_by@.drop_last() == self.order_by@,
            r.order_by@.last().0@ == column@,
            r.order_by@.last().1 == direction,
            r.function == self.function,
            r.partition_by == self.partition_by,
            r.frame_type == self.frame_type,
            r.frame_start == self.frame_start,
            r.frame_end == self.frame_end,
            r.alias == self.alias,
    {
        let mut w = self;
        w.order_by.push((column.to_owned(), direction));
        w
    }

    /// Sets the whole frame, as `BETWEEN start AND end`.
    pub fn frame(self, frame_type: FrameType, start: FrameBound, end: FrameBound) -> (r: Self)
        ensures
            r.frame_type == Some(frame_type),
            r.frame_start == Some(start),
            r.frame_end == Some(end),
            r.function == self.function,
            r.partition_by == self.partition_by,
            r.order_by == self.order_by,
            r.alias == self.alias,
    {
        let mut w = self;
        w.frame_type = Some(frame_type);
        w.frame_start = Some(start);
        w.frame_end = Some(end);
        w
    }

    /// `<function> OVER (..) AS <alias>` for `db_type`; empty clauses are
    /// omitted, so a bare window renders `OVER ()`.
    pub fn to_sql_for_db(&self, db_type: DatabaseType) -> (s: String)
        ensures
            s@ == window_sql(*self, db_type),
    {
        let mut clauses: Vec<String> = Vec::new();
        let ghost p: Seq<Seq<char>> = if self.partition_by@.len() > 0 {
            seq!["PARTITION BY "@ + seq_join(partition_parts(db_type, self.partition_by@), ", "@)]
        } else {
            Seq::empty()
        };
        let ghost o: Seq<Seq<char>> = if self.order_by@.len() > 0 {
            seq!["ORDER BY "@ + seq_join(order_parts(db_type, self.order_by@), ", "@)]
        } else {
            Seq::empty()
        };
        if self.partition_by.len() > 0 {
            clauses.push(partition_sql(db_type, &self.partition_by));
        }
        assert(crate::text::views(clauses@) =~= p);
        if self.order_by.len() > 0 {
            clauses.push(order_sql(db_type, &self.order_by));
        }
        assert(crate::text::views(clauses@) =~= p + o);
        match (&self.frame_type, &self.frame_start) {
            (Some(t), Some(start)) => {
                let mut f: Vec<char> = Vec::new();
                push_str(&mut f, t.as_sql());
                match &self.frame_end {
                    Some(end) => {
                        push_str(&mut f, " BETWEEN ");
                        push_frame_bound(&mut f, start);
                        push_str(&mut f, " AND ");
                        push_frame_bound(&mut f, end);
                    },
                    None => {
                        push_str(&mut f, " ");
                        push_frame_bound(&mut f, start);
                    },
                }
                clauses.push(string_of(&f));
            },
            _ => {},
        }
        assert(crate::text::views(clauses@) =~= window_clauses(*self, db_type));
        let mut out: Vec<char> = Vec::new();
        push_window_type(&mut out, &self.function, db_type);
        push_str(&mut out, " OVER (");
        crate::text::push_joined(&mut out, &clauses, " ");
        push_str(&mut out, ") AS ");
        let a = chars_of(self.alias.as_str());
        push_quoted(&mut out, db_type, &a);
        string_of(&out)
    }

    /// The window with PostgreSQL quoting.
    pub fn to_sql(&self) -> (s: String)
        ensures
            s@ == window_sql(*self, DatabaseType::Postgres),
    {
        self.to_sql_for_db(DatabaseType::Postgres)
    }
}

} // verus!

verus! {

/// A named WITH clause body.
#[derive(Clone, Debug)]
pub struct CTE {
    /// The name the outer query references the CTE by.
    pub name: String,
    /// Optional explicit output column list.
    pub columns: Option<Vec<String>>,
    /// The CTE body: a complete select statement.
    pub query_sql: String,
    /// Whether the body refers to the CTE's own name.
    pub recursive: bool,
    /// Values bound to the body's placeholders, in placeholder order.
    pub params: Vec<JsonValue>,
}

/// The CTE output columns quoted for `db`.
pub open spec fn quoted_parts(db: DatabaseType, cols: Seq<String>) -> Seq<Seq<char>> {
    cols.map_values(|c: String| quoted(db, c@))
}

/// `name (columns) AS (body)` for `db`.
pub open spec fn cte_sql(c: CTE, db: DatabaseType, body: Seq<char>) -> Seq<char> {
    quoted(db, c.name@) + match c.columns {
        Some(cols) => " ("@ + seq_join(quoted_parts(db, cols@), ", "@) + ")"@,
        None => Seq::empty(),
    } + " AS ("@ + body + ")"@
}

/// Appends `cols` quoted for `db` and joined by `, `.
pub fn push_quoted_list(out: &mut Vec<char>, db: DatabaseType, cols: &Vec<String>)
    ensures
        final(out)@ == old(out)@ + seq_join(quoted_parts(db, cols@), ", "@),
{
    let ghost base = out@;
    let ghost parts = quoted_parts(db, cols@);
    let mut i: usize = 0;
    while i < cols.len()
        invariant
            i <= cols@.len(),
            base == old(out)@,
            parts == quoted_parts(db, cols@),
            out@ == base + seq_join(parts.take(i as int), ", "@),
        decreases cols.len() - i,
    {
        proof {
            crate::text::lemma_join_step(parts, ", "@, i as int);
        }
        if i > 0 {
            push_str(out, ", ");
        }
        let cs = chars_of(cols[i].as_str());
        push_quoted(out, db, &cs);
        i = i + 1;
    }
    proof {
        crate::text::lemma_take_all(parts);
    }
}

impl CTE {
    /// A non-recursive CTE from trusted SQL with no bound values.
    pub fn new(name: &str, query_sql: String) -> (r: Self)
        ensures
            r.name@ == name@,
            r.columns.is_none(),
            r.query_sql == query_sql,
            !r.recursive,
            r.params@.len() == 0,
    {
        CTE { name: name.to_owned(), columns: None, query_sql, recursive: false, params: Vec::new() }
    }

    /// A non-recursive CTE that renames its output columns.
    pub fn with_columns(name: &str, columns: Vec<&str>, query_sql: String) -> (r: Self)
        ensures
            r.name@ == name@,
            r.columns.is_some(),
            r.columns.unwrap()@.len() == columns@.len(),
            forall|i: int| 0 <= i < columns@.len() ==> #[trigger] r.columns.unwrap()@[i]@ == columns@[i]@,
            r.query_sql == query_sql,
            !r.recursive,
            r.params@.len() == 0,
    {
        let mut cols: Vec<String> = Vec::new();
        let mut i: usize = 0;
        while i < columns.len()
            invariant
                i <= columns@.len(),
                cols@.len() == i,
                forall|j: int| 0 <= j < i ==> #[trigger] cols@[j]@ == columns@[j]@,
            decreases columns.len() - i,
        {
            cols.push(columns[i].to_owned());
            i = i + 1;
        }
        CTE { name: name.to_owned(), columns: Some(cols), query_sql, recursive: false, params: Vec::new() }
    }

    /// A CTE from parameterized SQL and the values bound to it.
    pub fn with_params(name: &str, query_sql: String, params: Vec<JsonValue>) -> (r: Self)
        ensures
            r.name@ == name@,
            r.columns.is_none(),
            r.query_sql == query_sql,
            !r.recursive,
            r.params == params,
    {
        CTE { name: name.to_owned(), columns: None, query_sql, recursive: false, params }
    }

    /// Marks the CTE recursive.
    pub fn recursive(self) -> (r: Self)
        ensures
            r.recursive,
            r.name == self.name,
            r.columns == self.columns,
            r.query_sql == self.query_sql,
            r.params == self.params,
    {
        let mut c = self;
        c.recursive = true;
        c
    }

    /// `name (columns) AS (body)` for `db_type` around an already-rendered body.
    pub fn to_sql_with_body_for_db(&self, db_type: DatabaseType, body_sql: &str) -> (s: String)
        ensures
            s@ == cte_sql(*self, db_type, body_sql@),
    {
        let mut out: Vec<char> = Vec::new();
        let n = chars_of(self.name.as_str());
        push_quoted(&mut out, db_type, &n);
        match &self.columns {
            Some(cols) => {
                push_str(&mut out, " (");
                push_quoted_list(&mut out, db_type, cols);
                push_str(&mut out, ")");
            },
            None => {},
        }
        push_str(&mut out, " AS (");
        push_str(&mut out, body_sql);
        push_str(&mut out, ")");
        string_of(&out)
    }

    /// The CTE entry for `db_type` with its own body.
    pub fn to_sql_for_db(&self, db_type: DatabaseType) -> (s: String)
        ensures
            s@ == cte_sql(*self, db_type, self.query_sql@),
    {
        self.to_sql_with_body_for_db(db_type, self.query_sql.as_str())
    }

    /// The CTE entry with PostgreSQL quoting.
    pub fn to_sql(&self) -> (s: String)
        ensures
            s@ == cte_sql(*self, DatabaseType::Postgres, self.query_sql@),
    {
        self.to_sql_for_db(DatabaseType::Postgres)
    }
}

} // verus!
