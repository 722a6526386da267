//! The structural cache key of a query: every clause that can change the
//! result is fed to a hasher, in a fixed order, one write per field.

use vstd::prelude::*;
use std::collections::hash_map::DefaultHasher;
use std::hash::Hasher;
use vstd::std_specs::hash::DefaultHasherAdditionalSpecFns;
use crate::builder::QueryBuilder;
use crate::condition::{ConditionValue, LogicalOp, Operator, OrGroup, WhereCondition};
use crate::dialect::{Order, order_keyword};
use crate::json::JsonValue;
use crate::structure::{
    CTE, FrameBound, FrameType, JoinClause, UnionClause, WindowFunction, WindowFunctionType,
    join_keyword, union_keyword,
};
use crate::text::{decimal, push_u64};

verus! {

/// The write sequence a hasher has received.
pub type Writes = Seq<Seq<u8>>;

/// One single-byte write.
pub open spec fn w_tag(t: u8) -> Writes {
    seq![seq![t]]
}

/// One write of the UTF-8 bytes of `s`, followed by a `0xff` terminator write.
pub open spec fn w_str(s: Seq<char>) -> Writes {
    seq![vstd::utf8::encode_utf8(s), seq![0xffu8]]
}

/// The ASCII bytes of a decimal spelling.
pub open spec fn ascii_bytes(s: Seq<char>) -> Seq<u8> {
    s.map_values(|c: char| c as u8)
}

/// One write of the decimal digits of `n`.
pub open spec fn w_num(n: nat) -> Writes {
    seq![ascii_bytes(decimal(n))]
}

/// A boolean.
pub open spec fn w_bool(b: bool) -> Writes {
    if b { w_tag(1) } else { w_tag(0) }
}

/// An optional number: a presence tag, then the number.
pub open spec fn w_opt_num(o: Option<u64>) -> Writes {
    match o {
        Some(n) => w_tag(1) + w_num(n as nat),
        None => w_tag(0),
    }
}

/// An optional string.
pub open spec fn w_opt_str(o: Option<String>) -> Writes {
    match o {
        Some(s) => w_tag(1) + w_str(s@),
        None => w_tag(0),
    }
}

/// A list of strings: its length, then each entry.
pub open spec fn w_strs(v: Seq<String>) -> Writes {
    w_num(v.len()) + w_strs_items(v)
}

/// The entries of a list of strings without the length prefix.
pub open spec fn w_strs_items(v: Seq<String>) -> Writes
    decreases v.len(),
{
    if v.len() == 0 {
        Seq::empty()
    } else {
        w_strs_items(v.drop_last()) + w_str(v.last()@)
    }
}


/// A JSON value: a kind tag, then its payload.
pub open spec fn w_json(v: JsonValue) -> Writes {
    match v {
        JsonValue::Null => w_tag(0),
        JsonValue::Bool(b) => w_tag(1) + w_bool(b),
        JsonValue::Int(i) => w_tag(2) + w_tag(if i < 0 { 1 } else { 0 }) + w_num(
            if i < 0 { (-(i as int)) as nat } else { i as nat },
        ),
        JsonValue::UInt(u) => w_tag(3) + w_num(u as nat),
        JsonValue::Str(s) => w_tag(4) + w_str(s@),
        JsonValue::Composite(t) => w_tag(5) + w_str(t@),
    }
}

/// The entries of a list of JSON values.
pub open spec fn w_json_items(v: Seq<JsonValue>) -> Writes
    decreases v.len(),
{
    if v.len() == 0 {
        Seq::empty()
    } else {
        w_json_items(v.drop_last()) + w_json(v.last())
    }
}

/// A list of JSON values: its length, then each entry.
pub open spec fn w_json_list(v: Seq<JsonValue>) -> Writes {
    w_num(v.len()) + w_json_items(v)
}

/// The tag of each operator; distinct operators get distinct tags.
pub open spec fn operator_tag(op: Operator) -> u8 {
    match op {
        Operator::Eq => 0,
        Operator::NotEq => 1,
        Operator::Gt => 2,
        Operator::Gte => 3,
        Operator::Lt => 4,
        Operator::Lte => 5,
        Operator::Like => 6,
        Operator::LikeEscaped => 7,
        Operator::NotLike => 8,
        Operator::In => 9,
        Operator::NotIn => 10,
        Operator::IsNull => 11,
        Operator::IsNotNull => 12,
        Operator::Between => 13,
        Operator::JsonContains => 14,
        Operator::JsonContainedBy => 15,
        Operator::JsonKeyExists => 16,
        Operator::JsonKeyNotExists => 17,
        Operator::JsonPathExists => 18,
        Operator::JsonPathNotExists => 19,
        Operator::ArrayContains => 20,
        Operator::ArrayContainedBy => 21,
        Operator::ArrayOverlaps => 22,
        Operator::ArrayContainsAny => 23,
        Operator::ArrayContainsAll => 24,
        Operator::SubqueryIn => 25,
        Operator::SubqueryNotIn => 26,
        Operator::Raw => 27,
        Operator::EqAny => 28,
        Operator::NeAll => 29,
    }
}

/// A condition operand.
pub open spec fn w_condition_value(v: ConditionValue) -> Writes {
    match v {
        ConditionValue::Single(s) => w_tag(0) + w_json(s),
        ConditionValue::List(vs) => w_tag(1) + w_json_list(vs@),
        ConditionValue::Range(a, b) => w_tag(2) + w_json(a) + w_json(b),
        ConditionValue::NoValue => w_tag(3),
        ConditionValue::Subquery(q) => w_tag(4) + w_str(q@),
        ConditionValue::RawExpr(e) => w_tag(5) + w_str(e@),
    }
}

/// A WHERE condition: column, operator tag, operand.
pub open spec fn w_condition(c: WhereCondition) -> Writes {
    w_str(c.column@) + w_tag(operator_tag(c.operator)) + w_condition_value(c.value)
}

/// The entries of a list of conditions.
pub open spec fn w_conditions(cs: Seq<WhereCondition>) -> Writes
    decreases cs.len(),
{
    if cs.len() == 0 {
        Seq::empty()
    } else {
        w_conditions(cs.drop_last()) + w_condition(cs.last())
    }
}

/// An OR group: connective, its conditions and its nested groups, each list
/// prefixed by its length.
pub open spec fn w_group(g: OrGroup) -> Writes
    decreases g,
{
    w_tag(if g.combine_with == LogicalOp::And { 0 } else { 1 }) + w_num(g.conditions@.len())
        + w_conditions(g.conditions@) + w_num(g.nested_groups@.len()) + w_groups(g.nested_groups@)
}

/// The entries of a list of groups.
pub open spec fn w_groups(gs: Seq<OrGroup>) -> Writes
    decreases gs,
{
    if gs.len() == 0 {
        Seq::empty()
    } else {
        w_groups(gs.drop_last()) + w_group(gs.last())
    }
}

/// The ORDER BY terms: column and direction keyword of each.
pub open spec fn w_orders(os: Seq<(String, Order)>) -> Writes
    decreases os.len(),
{
    if os.len() == 0 {
        Seq::empty()
    } else {
        w_orders(os.drop_last()) + w_str(os.last().0@) + w_str(order_keyword(os.last().1))
    }
}

/// An optional list of strings.
pub open spec fn w_opt_strs(o: Option<Vec<String>>) -> Writes {
    match o {
        Some(v) => w_tag(1) + w_strs(v@),
        None => w_tag(0),
    }
}

/// The subquery projections: SQL and alias of each.
pub open spec fn w_pairs(ps: Seq<(String, String)>) -> Writes
    decreases ps.len(),
{
    if ps.len() == 0 {
        Seq::empty()
    } else {
        w_pairs(ps.drop_last()) + w_str(ps.last().0@) + w_str(ps.last().1@)
    }
}

/// A JOIN: keyword, table, alias, and both sides of the ON equality.
pub open spec fn w_join(j: JoinClause) -> Writes {
    w_str(join_keyword(j.join_type)) + w_str(j.table@) + w_opt_str(j.alias) + w_str(j.left_column@)
        + w_str(j.right_column@)
}

/// The entries of a list of joins.
pub open spec fn w_joins(js: Seq<JoinClause>) -> Writes
    decreases js.len(),
{
    if js.len() == 0 {
        Seq::empty()
    } else {
        w_joins(js.drop_last()) + w_join(js.last())
    }
}

/// The HAVING templates, each with the values bound to it (none when the
/// binding slot is missing).
pub open spec fn w_havings(hs: Seq<String>, bs: Seq<Vec<JsonValue>>) -> Writes
    decreases hs.len(),
{
    if hs.len() == 0 {
        Seq::empty()
    } else {
        let i = hs.len() - 1;
        let bound: Seq<JsonValue> = if i < bs.len() { bs[i]@ } else { Seq::empty() };
        w_havings(hs.drop_last(), bs) + w_str(hs.last()@) + w_json_list(bound)
    }
}

/// A compound-select operand: SQL, keyword and bound values.
pub open spec fn w_union(u: UnionClause) -> Writes {
    w_str(u.query_sql@) + w_str(union_keyword(u.union_type)) + w_json_list(u.params@)
}

/// The entries of a list of compound-select operands.
pub open spec fn w_unions(us: Seq<UnionClause>) -> Writes
    decreases us.len(),
{
    if us.len() == 0 {
        Seq::empty()
    } else {
        w_unions(us.drop_last()) + w_union(us.last())
    }
}

/// A CTE: name, body, recursion flag, column list and bound values.
pub open spec fn w_cte(c: CTE) -> Writes {
    w_str(c.name@) + w_str(c.query_sql@) + w_bool(c.recursive) + w_opt_strs(c.columns)
        + w_json_list(c.params@)
}

/// The entries of a list of CTEs.
pub open spec fn w_ctes(cs: Seq<CTE>) -> Writes
    decreases cs.len(),
{
    if cs.len() == 0 {
        Seq::empty()
    } else {
        w_ctes(cs.drop_last()) + w_cte(cs.last())
    }
}

/// An optional `i32` argument.
pub open spec fn w_opt_i32(o: Option<i32>) -> Writes {
    match o {
        Some(n) => w_tag(1) + w_tag(if n < 0 { 1 } else { 0 }) + w_num(
            if n < 0 { (-(n as int)) as nat } else { n as nat },
        ),
        None => w_tag(0),
    }
}

/// A window function kind: a tag per kind, then its arguments.
pub open spec fn w_window_type(t: WindowFunctionType) -> Writes {
    match t {
        WindowFunctionType::RowNumber => w_tag(0),
        WindowFunctionType::Rank => w_tag(1),
        WindowFunctionType::DenseRank => w_tag(2),
        WindowFunctionType::Ntile(n) => w_tag(3) + w_num(n as nat),
        WindowFunctionType::Lag(c, o, d) => w_tag(4) + w_str(c@) + w_opt_i32(o) + w_opt_str(d),
        WindowFunctionType::Lead(c, o, d) => w_tag(5) + w_str(c@) + w_opt_i32(o) + w_opt_str(d),
        WindowFunctionType::FirstValue(c) => w_tag(6) + w_str(c@),
        WindowFunctionType::LastValue(c) => w_tag(7) + w_str(c@),
        WindowFunctionType::NthValue(c, n) => w_tag(8) + w_str(c@) + w_num(n as nat),
        WindowFunctionType::Sum(c) => w_tag(9) + w_str(c@),
        WindowFunctionType::Avg(c) => w_tag(10) + w_str(c@),
        WindowFunctionType::Count(c) => w_tag(11) + w_opt_str(c),
        WindowFunctionType::Min(c) => w_tag(12) + w_str(c@),
        WindowFunctionType::Max(c) => w_tag(13) + w_str(c@),
        WindowFunctionType::Custom(e) => w_tag(14) + w_str(e@),
    }
}

/// A frame bound.
pub open spec fn w_frame_bound(b: FrameBound) -> Writes {
    match b {
        FrameBound::UnboundedPreceding => w_tag(0),
        FrameBound::UnboundedFollowing => w_tag(1),
        FrameBound::CurrentRow => w_tag(2),
        FrameBound::Preceding(n) => w_tag(3) + w_num(n as nat),
        FrameBound::Following(n) => w_tag(4) + w_num(n as nat),
    }
}

/// A frame unit.
pub open spec fn w_frame_type(t: FrameType) -> Writes {
    match t {
        FrameType::Rows => w_tag(0),
        FrameType::Range => w_tag(1),
        FrameType::Groups => w_tag(2),
    }
}

/// An optional frame unit.
pub open spec fn w_opt_frame_type(o: Option<FrameType>) -> Writes {
    match o {
        Some(t) => w_tag(1) + w_frame_type(t),
        None => w_tag(0),
    }
}

/// An optional frame bound.
pub open spec fn w_opt_frame_bound(o: Option<FrameBound>) -> Writes {
    match o {
        Some(b) => w_tag(1) + w_frame_bound(b),
        None => w_tag(0),
    }
}

/// The frame of a window: unit, start and end.
pub open spec fn w_frame(w: WindowFunction) -> Writes {
    w_opt_frame_type(w.frame_type) + w_opt_frame_bound(w.frame_start) + w_opt_frame_bound(w.frame_end)
}

/// A window function: kind, partition, ordering, frame and alias.
pub open spec fn w_window(w: WindowFunction) -> Writes {
    w_window_type(w.function) + w_strs(w.partition_by@) + w_orders(w.order_by@) + w_frame(w) + w_str(
        w.alias@,
    )
}

/// The entries of a list of window functions.
pub open spec fn w_windows(ws: Seq<WindowFunction>) -> Writes
    decreases ws.len(),
{
    if ws.len() == 0 {
        Seq::empty()
    } else {
        w_windows(ws.drop_last()) + w_window(ws.last())
    }
}

/// The identity of the attached connection, when there is one.
pub open spec fn w_database(q: QueryBuilder) -> Writes {
    match q.database {
        Some(d) => match d.identity {
            Some(id) => w_num(id as nat),
            None => w_str("tideorm::unresolved-connection"@),
        },
        None => Seq::empty(),
    }
}

/// The filtering, ordering, paging and scope part of a structural key.
pub open spec fn w_filters(q: QueryBuilder) -> Writes {
    w_conditions(q.conditions@) + w_groups(q.or_groups@) + w_orders(q.order_by@) + w_opt_num(
        q.limit_value,
    ) + w_opt_num(q.offset_value) + w_bool(q.include_trashed) + w_bool(q.only_trashed)
}

/// The projection part of a structural key.
pub open spec fn w_projection(q: QueryBuilder) -> Writes {
    w_opt_strs(q.select_columns) + w_strs_items(q.raw_select_expressions@) + w_pairs(
        q.subquery_select_expressions@,
    )
}

/// The joins, grouping, operands, CTEs and windows part of a structural key.
pub open spec fn w_rest(q: QueryBuilder) -> Writes {
    w_joins(q.joins@) + w_strs_items(q.group_by@) + w_havings(q.having_conditions@, q.having_bindings@)
        + w_unions(q.unions@) + w_ctes(q.ctes@) + w_windows(q.window_functions@)
}

/// Everything a structural key hashes after the table and connection.
pub open spec fn w_structure(q: QueryBuilder) -> Writes {
    w_filters(q) + w_projection(q) + w_rest(q)
}

/// The full write sequence of a query's cache key: the table, the connection,
/// then either the namespaced explicit key or the structure.
pub open spec fn key_writes(q: QueryBuilder) -> Writes {
    w_str(q.meta.table_name@) + w_database(q) + match q.cache_key {
        Some(k) => w_str("tideorm::explicit-cache-key"@) + w_str(k@),
        None => w_structure(q),
    }
}

/// A cache key: the model's table, a colon, and the decimal hash.
pub open spec fn key_string(table: Seq<char>, hash: u64) -> Seq<char> {
    table + seq![':'] + decimal(hash as nat)
}

/// The cache key of a query.
pub open spec fn cache_key_of(q: QueryBuilder) -> Seq<char> {
    key_string(q.meta.table_name@, DefaultHasher::spec_finish(key_writes(q)))
}

} // verus!

verus! {

fn write_tag(h: &mut DefaultHasher, t: u8)
    ensures
        final(h)@ == old(h)@ + w_tag(t),
{
    let mut v: Vec<u8> = Vec::new();
    v.push(t);
    h.write(v.as_slice());
    assert(final(h)@ =~= old(h)@ + w_tag(t)) by {
        assert(v@ =~= seq![t]);
    }
}

fn write_str(h: &mut DefaultHasher, s: &str)
    ensures
        final(h)@ == old(h)@ + w_str(s@),
{
    h.write(s.as_bytes());
    write_tag(h, 0xff);
    assert(final(h)@ =~= old(h)@ + w_str(s@));
}

fn write_num(h: &mut DefaultHasher, n: u64)
    ensures
        final(h)@ == old(h)@ + w_num(n as nat),
{
    let mut digits: Vec<char> = Vec::new();
    push_u64(&mut digits, n);
    assert(digits@ =~= decimal(n as nat));
    let mut bytes: Vec<u8> = Vec::new();
    let mut i: usize = 0;
    while i < digits.len()
        invariant
            i <= digits@.len(),
            bytes@ == ascii_bytes(digits@.take(i as int)),
        decreases digits.len() - i,
    {
        bytes.push(digits[i] as u8);
        assert(ascii_bytes(digits@.take(i + 1)) =~= ascii_bytes(digits@.take(i as int)).push(
            digits@[i as int] as u8,
        ));
        i = i + 1;
    }
    assert(digits@.take(digits@.len() as int) =~= digits@);
    h.write(bytes.as_slice());
}

fn write_usize(h: &mut DefaultHasher, n: usize)
    ensures
        final(h)@ == old(h)@ + w_num(n as nat),
{
    write_num(h, n as u64);
}

fn write_bool(h: &mut DefaultHasher, b: bool)
    ensures
        final(h)@ == old(h)@ + w_bool(b),
{
    if b {
        write_tag(h, 1);
    } else {
        write_tag(h, 0);
    }
}

fn write_opt_num(h: &mut DefaultHasher, o: Option<u64>)
    ensures
        final(h)@ == old(h)@ + w_opt_num(o),
{
    match o {
        Some(n) => {
            write_tag(h, 1);
            write_num(h, n);
            assert(final(h)@ =~= old(h)@ + w_opt_num(o));
        },
        None => write_tag(h, 0),
    }
}

fn write_opt_str(h: &mut DefaultHasher, o: &Option<String>)
    ensures
        final(h)@ == old(h)@ + w_opt_str(*o),
{
    match o {
        Some(s) => {
            write_tag(h, 1);
            write_str(h, s.as_str());
            assert(final(h)@ =~= old(h)@ + w_opt_str(*o));
        },
        None => write_tag(h, 0),
    }
}

fn write_strs_items(h: &mut DefaultHasher, v: &Vec<String>)
    ensures
        final(h)@ == old(h)@ + w_strs_items(v@),
{
    let mut i: usize = 0;
    let ghost base = h@;
    while i < v.len()
        invariant
            i <= v@.len(),
            h@ == base + w_strs_items(v@.take(i as int)),
            base == old(h)@,
        decreases v.len() - i,
    {
        proof {
            assert(v@.take(i + 1).drop_last() == v@.take(i as int));
            assert(v@.take(i + 1).last() == v@[i as int]);
        }
        write_str(h, v[i].as_str());
        assert(h@ =~= base + w_strs_items(v@.take(i + 1)));
        i = i + 1;
    }
    assert(v@.take(v@.len() as int) == v@);
}

fn write_strs(h: &mut DefaultHasher, v: &Vec<String>)
    ensures
        final(h)@ == old(h)@ + w_strs(v@),
{
    write_usize(h, v.len());
    write_strs_items(h, v);
    assert(final(h)@ =~= old(h)@ + w_strs(v@));
}

/// Feeds a JSON value to the hasher.
fn hash_json_value(v: &JsonValue, h: &mut DefaultHasher)
    ensures
        final(h)@ == old(h)@ + w_json(*v),
{
    match v {
        JsonValue::Null => write_tag(h, 0),
        JsonValue::Bool(b) => {
            write_tag(h, 1);
            write_bool(h, *b);
        },
        JsonValue::Int(i) => {
            write_tag(h, 2);
            if *i < 0 {
                write_tag(h, 1);
                write_num(h, (0i128 - (*i as i128)) as u64);
            } else {
                write_tag(h, 0);
                write_num(h, *i as u64);
            }
        },
        JsonValue::UInt(u) => {
            write_tag(h, 3);
            write_num(h, *u);
        },
        JsonValue::Str(s) => {
            write_tag(h, 4);
            write_str(h, s.as_str());
        },
        JsonValue::Composite(t) => {
            write_tag(h, 5);
            write_str(h, t.as_str());
        },
    }
    assert(final(h)@ =~= old(h)@ + w_json(*v));
}

/// Feeds a list of bound values to the hasher: the count, then each value.
fn hash_bound_values(v: &Vec<JsonValue>, h: &mut DefaultHasher)
    ensures
        final(h)@ == old(h)@ + w_json_list(v@),
{
    write_usize(h, v.len());
    let ghost base = h@;
    let mut i: usize = 0;
    while i < v.len()
        invariant
            i <= v@.len(),
            h@ == base + w_json_items(v@.take(i as int)),
        decreases v.len() - i,
    {
        proof {
            assert(v@.take(i + 1).drop_last() == v@.take(i as int));
            assert(v@.take(i + 1).last() == v@[i as int]);
        }
        hash_json_value(&v[i], h);
        assert(h@ =~= base + w_json_items(v@.take(i + 1)));
        i = i + 1;
    }
    assert(v@.take(v@.len() as int) == v@);
    assert(final(h)@ =~= old(h)@ + w_json_list(v@));
}

/// Feeds an operator's tag to the hasher.
fn hash_operator(op: Operator, h: &mut DefaultHasher)
    ensures
        final(h)@ == old(h)@ + w_tag(operator_tag(op)),
{
    let t: u8 = match op {
        Operator::Eq => 0,
        Operator::NotEq => 1,
        Operator::Gt => 2,
        Operator::Gte => 3,
        Operator::Lt => 4,
        Operator::Lte => 5,
        Operator::Like => 6,
        Operator::LikeEscaped => 7,
        Operator::NotLike => 8,
        Operator::In => 9,
        Operator::NotIn => 10,
        Operator::IsNull => 11,
        Operator::IsNotNull => 12,
        Operator::Between => 13,
        Operator::JsonContains => 14,
        Operator::JsonContainedBy => 15,
        Operator::JsonKeyExists => 16,
        Operator::JsonKeyNotExists => 17,
        Operator::JsonPathExists => 18,
        Operator::JsonPathNotExists => 19,
        Operator::ArrayContains => 20,
        Operator::ArrayContainedBy => 21,
        Operator::ArrayOverlaps => 22,
        Operator::ArrayContainsAny => 23,
        Operator::ArrayContainsAll => 24,
        Operator::SubqueryIn => 25,
        Operator::SubqueryNotIn => 26,
        Operator::Raw => 27,
        Operator::EqAny => 28,
        Operator::NeAll => 29,
    };
    write_tag(h, t);
}

/// Feeds a condition operand to the hasher.
fn hash_condition_value(v: &ConditionValue, h: &mut DefaultHasher)
    ensures
        final(h)@ == old(h)@ + w_condition_value(*v),
{
    match v {
        ConditionValue::Single(s) => {
            write_tag(h, 0);
            hash_json_value(s, h);
        },
        ConditionValue::List(vs) => {
            write_tag(h, 1);
            hash_bound_values(vs, h);
        },
        ConditionValue::Range(a, b) => {
            write_tag(h, 2);
            hash_json_value(a, h);
            hash_json_value(b, h);
        },
        ConditionValue::NoValue => write_tag(h, 3),
        ConditionValue::Subquery(q) => {
            write_tag(h, 4);
            write_str(h, q.as_str());
        },
        ConditionValue::RawExpr(e) => {
            write_tag(h, 5);
            write_str(h, e.as_str());
        },
    }
    assert(final(h)@ =~= old(h)@ + w_condition_value(*v));
}

/// Feeds a WHERE condition to the hasher.
fn hash_where_condition(c: &WhereCondition, h: &mut DefaultHasher)
    ensures
        final(h)@ == old(h)@ + w_condition(*c),
{
    write_str(h, c.column.as_str());
    hash_operator(c.operator, h);
    hash_condition_value(&c.value, h);
    assert(final(h)@ =~= old(h)@ + w_condition(*c));
}

fn hash_conditions(cs: &Vec<WhereCondition>, h: &mut DefaultHasher)
    ensures
        final(h)@ == old(h)@ + w_conditions(cs@),
{
    let ghost base = h@;
    let mut i: usize = 0;
    while i < cs.len()
        invariant
            i <= cs@.len(),
            h@ == base + w_conditions(cs@.take(i as int)),
            base == old(h)@,
        decreases cs.len() - i,
    {
        proof {
            assert(cs@.take(i + 1).drop_last() == cs@.take(i as int));
            assert(cs@.take(i + 1).last() == cs@[i as int]);
        }
        hash_where_condition(&cs[i], h);
        assert(h@ =~= base + w_conditions(cs@.take(i + 1)));
        i = i + 1;
    }
    assert(cs@.take(cs@.len() as int) == cs@);
}

/// Feeds a group's connective to the hasher.
fn hash_logical_op(op: LogicalOp, h: &mut DefaultHasher)
    ensures
        final(h)@ == old(h)@ + w_tag(if op == LogicalOp::And { 0 } else { 1 }),
{
    match op {
        LogicalOp::And => write_tag(h, 0),
        LogicalOp::Or => write_tag(h, 1),
    }
}

/// Feeds an OR group and everything nested in it to the hasher.
fn hash_or_group(g: &OrGroup, h: &mut DefaultHasher)
    ensures
        final(h)@ == old(h)@ + w_group(*g),
    decreases *g,
{
    hash_logical_op(g.combine_with, h);
    write_usize(h, g.conditions.len());
    hash_conditions(&g.conditions, h);
    write_usize(h, g.nested_groups.len());
    let ghost base = h@;
    let gs = &g.nested_groups;
    let mut i: usize = 0;
    while i < gs.len()
        invariant
            i <= gs@.len(),
            gs@ == g.nested_groups@,
            h@ == base + w_groups(gs@.take(i as int)),
        decreases gs.len() - i,
    {
        proof {
            assert(gs@.take(i + 1).drop_last() == gs@.take(i as int));
            assert(gs@.take(i + 1).last() == gs@[i as int]);
            assert(decreases_to!(*g => g.nested_groups@[i as int]));
        }
        hash_or_group(&gs[i], h);
        assert(h@ =~= base + w_groups(gs@.take(i + 1)));
        i = i + 1;
    }
    assert(gs@.take(gs@.len() as int) == gs@);
    assert(final(h)@ =~= old(h)@ + w_group(*g));
}

fn hash_groups(gs: &Vec<OrGroup>, h: &mut DefaultHasher)
    ensures
        final(h)@ == old(h)@ + w_groups(gs@),
{
    let ghost base = h@;
    let mut i: usize = 0;
    while i < gs.len()
        invariant
            i <= gs@.len(),
            h@ == base + w_groups(gs@.take(i as int)),
            base == old(h)@,
        decreases gs.len() - i,
    {
        proof {
            assert(gs@.take(i + 1).drop_last() == gs@.take(i as int));
            assert(gs@.take(i + 1).last() == gs@[i as int]);
        }
        hash_or_group(&gs[i], h);
        assert(h@ =~= base + w_groups(gs@.take(i + 1)));
        i = i + 1;
    }
    assert(gs@.take(gs@.len() as int) == gs@);
}

fn hash_orders(os: &Vec<(String, Order)>, h: &mut DefaultHasher)
    ensures
        final(h)@ == old(h)@ + w_orders(os@),
{
    let ghost base = h@;
    let mut i: usize = 0;
    while i < os.len()
        invariant
            i <= os@.len(),
            h@ == base + w_orders(os@.take(i as int)),
            base == old(h)@,
        decreases os.len() - i,
    {
        proof {
            assert(os@.take(i + 1).drop_last() == os@.take(i as int));
            assert(os@.take(i + 1).last() == os@[i as int]);
        }
        write_str(h, os[i].0.as_str());
        write_str(h, os[i].1.as_str());
        assert(h@ =~= base + w_orders(os@.take(i + 1)));
        i = i + 1;
    }
    assert(os@.take(os@.len() as int) == os@);
}

/// Feeds a frame bound to the hasher.
fn hash_frame_bound(b: &FrameBound, h: &mut DefaultHasher)
    ensures
        final(h)@ == old(h)@ + w_frame_bound(*b),
{
    match b {
        FrameBound::UnboundedPreceding => write_tag(h, 0),
        FrameBound::UnboundedFollowing => write_tag(h, 1),
        FrameBound::CurrentRow => write_tag(h, 2),
        FrameBound::Preceding(n) => {
            write_tag(h, 3);
            write_num(h, *n);
        },
        FrameBound::Following(n) => {
            write_tag(h, 4);
            write_num(h, *n);
        },
    }
    assert(final(h)@ =~= old(h)@ + w_frame_bound(*b));
}

/// Feeds a frame unit to the hasher.
fn hash_frame_type(t: FrameType, h: &mut DefaultHasher)
    ensures
        final(h)@ == old(h)@ + w_frame_type(t),
{
    match t {
        FrameType::Rows => write_tag(h, 0),
        FrameType::Range => write_tag(h, 1),
        FrameType::Groups => write_tag(h, 2),
    }
}

fn write_opt_i32(h: &mut DefaultHasher, o: Option<i32>)
    ensures
        final(h)@ == old(h)@ + w_opt_i32(o),
{
    match o {
        Some(n) => {
            write_tag(h, 1);
            if n < 0 {
                write_tag(h, 1);
                write_num(h, (0i64 - (n as i64)) as u64);
            } else {
                write_tag(h, 0);
                write_num(h, n as u64);
            }
        },
        None => write_tag(h, 0),
    }
    assert(final(h)@ =~= old(h)@ + w_opt_i32(o));
}

/// Feeds a window function kind and its arguments to the hasher.
fn hash_window_function_type(t: &WindowFunctionType, h: &mut DefaultHasher)
    ensures
        final(h)@ == old(h)@ + w_window_type(*t),
{
    match t {
        WindowFunctionType::RowNumber => write_tag(h, 0),
        WindowFunctionType::Rank => write_tag(h, 1),
        WindowFunctionType::DenseRank => write_tag(h, 2),
        WindowFunctionType::Ntile(n) => {
            write_tag(h, 3);
            write_num(h, *n as u64);
        },
        WindowFunctionType::Lag(c, o, d) => {
            write_tag(h, 4);
            write_str(h, c.as_str());
            write_opt_i32(h, *o);
            write_opt_str(h, d);
        },
        WindowFunctionType::Lead(c, o, d) => {
            write_tag(h, 5);
            write_str(h, c.as_str());
            write_opt_i32(h, *o);
            write_opt_str(h, d);
        },
        WindowFunctionType::FirstValue(c) => {
            write_tag(h, 6);
            write_str(h, c.as_str());
        },
        WindowFunctionType::LastValue(c) => {
            write_tag(h, 7);
            write_str(h, c.as_str());
        },
        WindowFunctionType::NthValue(c, n) => {
            write_tag(h, 8);
            write_str(h, c.as_str());
            write_num(h, *n as u64);
        },
        WindowFunctionType::Sum(c) => {
            write_tag(h, 9);
            write_str(h, c.as_str());
        },
        WindowFunctionType::Avg(c) => {
            write_tag(h, 10);
            write_str(h, c.as_str());
        },
        WindowFunctionType::Count(c) => {
            write_tag(h, 11);
            write_opt_str(h, c);
        },
        WindowFunctionType::Min(c) => {
            write_tag(h, 12);
            write_str(h, c.as_str());
        },
        WindowFunctionType::Max(c) => {
            write_tag(h, 13);
            write_str(h, c.as_str());
        },
        WindowFunctionType::Custom(e) => {
            write_tag(h, 14);
            write_str(h, e.as_str());
        },
    }
    assert(final(h)@ =~= old(h)@ + w_window_type(*t));
}

fn write_opt_frame_bound(h: &mut DefaultHasher, o: &Option<FrameBound>)
    ensures
        final(h)@ == old(h)@ + w_opt_frame_bound(*o),
{
    match o {
        Some(b) => {
            write_tag(h, 1);
            hash_frame_bound(b, h);
            assert(final(h)@ =~= old(h)@ + w_opt_frame_bound(*o));
        },
        None => write_tag(h, 0),
    }
}

fn hash_frame(w: &WindowFunction, h: &mut DefaultHasher)
    ensures
        final(h)@ == old(h)@ + w_frame(*w),
{
    let ghost s0 = h@;
    match w.frame_type {
        Some(t) => {
            write_tag(h, 1);
            hash_frame_type(t, h);
        },
        None => write_tag(h, 0),
    }
    assert(h@ =~= s0 + w_opt_frame_type(w.frame_type));
    let ghost s1 = h@;
    write_opt_frame_bound(h, &w.frame_start);
    let ghost s2 = h@;
    write_opt_frame_bound(h, &w.frame_end);
    assert(h@ =~= s0 + w_frame(*w));
}

/// Feeds a window function to the hasher.
fn hash_window_function(w: &WindowFunction, h: &mut DefaultHasher)
    ensures
        final(h)@ == old(h)@ + w_window(*w),
{
    let ghost s0 = h@;
    hash_window_function_type(&w.function, h);
    let ghost s1 = h@;
    write_strs(h, &w.partition_by);
    let ghost s2 = h@;
    hash_orders(&w.order_by, h);
    let ghost s3 = h@;
    hash_frame(w, h);
    let ghost s4 = h@;
    write_str(h, w.alias.as_str());
    assert(h@ =~= s0 + w_window(*w));
}

/// Feeds a HAVING template and its bound values to the hasher.
fn hash_having_clause(sql: &str, params: &Vec<JsonValue>, h: &mut DefaultHasher)
    ensures
        final(h)@ == old(h)@ + w_str(sql@) + w_json_list(params@),
{
    write_str(h, sql);
    hash_bound_values(params, h);
}

} // verus!

verus! {

fn hash_pairs(ps: &Vec<(String, String)>, h: &mut DefaultHasher)
    ensures
        final(h)@ == old(h)@ + w_pairs(ps@),
{
    let ghost base = h@;
    let mut i: usize = 0;
    while i < ps.len()
        invariant
            i <= ps@.len(),
            h@ == base + w_pairs(ps@.take(i as int)),
            base == old(h)@,
        decreases ps.len() - i,
    {
        proof {
            assert(ps@.take(i + 1).drop_last() == ps@.take(i as int));
            assert(ps@.take(i + 1).last() == ps@[i as int]);
        }
        write_str(h, ps[i].0.as_str());
        write_str(h, ps[i].1.as_str());
        assert(h@ =~= base + w_pairs(ps@.take(i + 1)));
        i = i + 1;
    }
    assert(ps@.take(ps@.len() as int) == ps@);
}

fn hash_joins(js: &Vec<JoinClause>, h: &mut DefaultHasher)
    ensures
        final(h)@ == old(h)@ + w_joins(js@),
{
    let ghost base = h@;
    let mut i: usize = 0;
    while i < js.len()
        invariant
            i <= js@.len(),
            h@ == base + w_joins(js@.take(i as int)),
            base == old(h)@,
        decreases js.len() - i,
    {
        proof {
            assert(js@.take(i + 1).drop_last() == js@.take(i as int));
            assert(js@.take(i + 1).last() == js@[i as int]);
        }
        let j = &js[i];
        write_str(h, j.join_type.as_sql());
        write_str(h, j.table.as_str());
        write_opt_str(h, &j.alias);
        write_str(h, j.left_column.as_str());
        write_str(h, j.right_column.as_str());
        assert(h@ =~= base + w_joins(js@.take(i + 1)));
        i = i + 1;
    }
    assert(js@.take(js@.len() as int) == js@);
}

fn hash_havings(hs: &Vec<String>, bs: &Vec<Vec<JsonValue>>, h: &mut DefaultHasher)
    ensures
        final(h)@ == old(h)@ + w_havings(hs@, bs@),
{
    let ghost base = h@;
    let empty: Vec<JsonValue> = Vec::new();
    let mut i: usize = 0;
    while i < hs.len()
        invariant
            i <= hs@.len(),
            empty@.len() == 0,
            h@ == base + w_havings(hs@.take(i as int), bs@),
            base == old(h)@,
        decreases hs.len() - i,
    {
        proof {
            assert(hs@.take(i + 1).drop_last() == hs@.take(i as int));
            assert(hs@.take(i + 1).last() == hs@[i as int]);
        }
        let bound: &Vec<JsonValue> = if i < bs.len() { &bs[i] } else { &empty };
        hash_having_clause(hs[i].as_str(), bound, h);
        assert(h@ =~= base + w_havings(hs@.take(i + 1), bs@));
        i = i + 1;
    }
    assert(hs@.take(hs@.len() as int) == hs@);
}

fn hash_unions(us: &Vec<UnionClause>, h: &mut DefaultHasher)
    ensures
        final(h)@ == old(h)@ + w_unions(us@),
{
    let ghost base = h@;
    let mut i: usize = 0;
    while i < us.len()
        invariant
            i <= us@.len(),
            h@ == base + w_unions(us@.take(i as int)),
            base == old(h)@,
        decreases us.len() - i,
    {
        proof {
            assert(us@.take(i + 1).drop_last() == us@.take(i as int));
            assert(us@.take(i + 1).last() == us@[i as int]);
        }
        let u = &us[i];
        write_str(h, u.query_sql.as_str());
        write_str(h, u.union_type.as_sql());
        hash_bound_values(&u.params, h);
        assert(h@ =~= base + w_unions(us@.take(i + 1)));
        i = i + 1;
    }
    assert(us@.take(us@.len() as int) == us@);
}

fn hash_ctes(cs: &Vec<CTE>, h: &mut DefaultHasher)
    ensures
        final(h)@ == old(h)@ + w_ctes(cs@),
{
    let ghost base = h@;
    let mut i: usize = 0;
    while i < cs.len()
        invariant
            i <= cs@.len(),
            h@ == base + w_ctes(cs@.take(i as int)),
            base == old(h)@,
        decreases cs.len() - i,
    {
        proof {
            assert(cs@.take(i + 1).drop_last() == cs@.take(i as int));
            assert(cs@.take(i + 1).last() == cs@[i as int]);
        }
        let c = &cs[i];
        write_str(h, c.name.as_str());
        write_str(h, c.query_sql.as_str());
        write_bool(h, c.recursive);
        match &c.columns {
            Some(cols) => {
                write_tag(h, 1);
                write_strs(h, cols);
            },
            None => write_tag(h, 0),
        }
        hash_bound_values(&c.params, h);
        assert(h@ =~= base + w_ctes(cs@.take(i + 1)));
        i = i + 1;
    }
    assert(cs@.take(cs@.len() as int) == cs@);
}

fn hash_windows(ws: &Vec<WindowFunction>, h: &mut DefaultHasher)
    ensures
        final(h)@ == old(h)@ + w_windows(ws@),
{
    let ghost base = h@;
    let mut i: usize = 0;
    while i < ws.len()
        invariant
            i <= ws@.len(),
            h@ == base + w_windows(ws@.take(i as int)),
            base == old(h)@,
        decreases ws.len() - i,
    {
        proof {
            assert(ws@.take(i + 1).drop_last() == ws@.take(i as int));
            assert(ws@.take(i + 1).last() == ws@[i as int]);
        }
        hash_window_function(&ws[i], h);
        assert(h@ =~= base + w_windows(ws@.take(i + 1)));
        i = i + 1;
    }
    assert(ws@.take(ws@.len() as int) == ws@);
}

/// Builds `table:hash`.
pub fn generate_key(table: &str, hash: u64) -> (k: String)
    ensures
        k@ == key_string(table@, hash),
{
    let mut out: Vec<char> = Vec::new();
    crate::text::push_str(&mut out, table);
    out.push(':');
    push_u64(&mut out, hash);
    crate::text::string_of(&out)
}

impl QueryBuilder {
    fn hash_database_identity(&self, h: &mut DefaultHasher)
        ensures
            final(h)@ == old(h)@ + w_database(*self),
    {
        match &self.database {
            Some(d) => match d.identity {
                Some(id) => write_num(h, id),
                None => write_str(h, "tideorm::unresolved-connection"),
            },
            None => {
                assert(final(h)@ =~= old(h)@ + w_database(*self));
            },
        }
    }

    fn hash_filters(&self, h: &mut DefaultHasher)
        ensures
            final(h)@ == old(h)@ + w_filters(*self),
    {
        let ghost s0 = h@;
        hash_conditions(&self.conditions, h);
        hash_groups(&self.or_groups, h);
        hash_orders(&self.order_by, h);
        let ghost s1 = h@;
        assert(s1 =~= s0 + w_conditions(self.conditions@) + w_groups(self.or_groups@) + w_orders(self.order_by@));
        write_opt_num(h, self.limit_value);
        write_opt_num(h, self.offset_value);
        write_bool(h, self.include_trashed);
        write_bool(h, self.only_trashed);
        assert(h@ =~= s0 + w_filters(*self));
    }

    fn hash_projection(&self, h: &mut DefaultHasher)
        ensures
            final(h)@ == old(h)@ + w_projection(*self),
    {
        let ghost s0 = h@;
        match &self.select_columns {
            Some(cols) => {
                write_tag(h, 1);
                write_strs(h, cols);
            },
            None => write_tag(h, 0),
        }
        assert(h@ =~= s0 + w_opt_strs(self.select_columns));
        write_strs_items(h, &self.raw_select_expressions);
        hash_pairs(&self.subquery_select_expressions, h);
        assert(h@ =~= s0 + w_projection(*self));
    }

    fn hash_rest(&self, h: &mut DefaultHasher)
        ensures
            final(h)@ == old(h)@ + w_rest(*self),
    {
        let ghost s0 = h@;
        hash_joins(&self.joins, h);
        write_strs_items(h, &self.group_by);
        hash_havings(&self.having_conditions, &self.having_bindings, h);
        let ghost s1 = h@;
        assert(s1 =~= s0 + w_joins(self.joins@) + w_strs_items(self.group_by@) + w_havings(self.having_conditions@, self.having_bindings@));
        hash_unions(&self.unions, h);
        hash_ctes(&self.ctes, h);
        hash_windows(&self.window_functions, h);
        assert(h@ =~= s0 + w_rest(*self));
    }

    /// The cache key of this query: the model's table, a colon, and the hash
    /// of the table, the attached connection's identity and then either the
    /// namespaced explicit key or every clause that can change the result.
    pub fn generate_cache_key(&self) -> (k: String)
        ensures
            k@ == cache_key_of(*self),
    {
        let mut h = DefaultHasher::new();
        write_str(&mut h, self.meta.table_name.as_str());
        self.hash_database_identity(&mut h);
        let ghost prefix = h@;
        assert(prefix =~= w_str(self.meta.table_name@) + w_database(*self));
        match &self.cache_key {
            Some(key) => {
                write_str(&mut h, "tideorm::explicit-cache-key");
                write_str(&mut h, key.as_str());
                assert(h@ =~= key_writes(*self));
            },
            None => {
                self.hash_filters(&mut h);
                self.hash_projection(&mut h);
                self.hash_rest(&mut h);
                assert(h@ =~= key_writes(*self));
            },
        }
        let hash = h.finish();
        generate_key(self.meta.table_name.as_str(), hash)
    }
}

} // verus!

verus! {

proof fn lemma_key_shape(t: Seq<char>, hash: u64)
    ensures
        key_string(t, hash).len() > t.len(),
        key_string(t, hash).take(t.len() as int) == t,
        key_string(t, hash)[t.len() as int] == ':',
{
    assert(key_string(t, hash).take(t.len() as int) =~= t);
}

/// Cache keys are namespaced by model: two queries over tables with different
/// names (names without `:`) never share a cache key, whatever they hash to,
/// explicit keys included.
pub proof fn lemma_cache_key_namespaced_by_table(q1: QueryBuilder, q2: QueryBuilder)
    requires
        q1.meta.table_name@ != q2.meta.table_name@,
        !q1.meta.table_name@.contains(':'),
        !q2.meta.table_name@.contains(':'),
    ensures
        cache_key_of(q1) != cache_key_of(q2),
{
    let t1 = q1.meta.table_name@;
    let t2 = q2.meta.table_name@;
    let k1 = cache_key_of(q1);
    let k2 = cache_key_of(q2);
    lemma_key_shape(t1, DefaultHasher::spec_finish(key_writes(q1)));
    lemma_key_shape(t2, DefaultHasher::spec_finish(key_writes(q2)));
    if k1 == k2 {
        if t1.len() < t2.len() {
            assert(k2[t1.len() as int] == t2[t1.len() as int]);
            assert(t2.contains(t2[t1.len() as int]));
        } else if t2.len() < t1.len() {
            assert(k1[t2.len() as int] == t1[t2.len() as int]);
            assert(t1.contains(t1[t2.len() as int]));
        } else {
            assert(t1 == k1.take(t1.len() as int));
        }
    }
}

/// The cache key is a function of the hashed write sequence and the table:
/// two queries over the same table whose clauses hash identically share a key.
pub proof fn lemma_cache_key_stable(q1: QueryBuilder, q2: QueryBuilder)
    requires
        q1.meta.table_name@ == q2.meta.table_name@,
        key_writes(q1) == key_writes(q2),
    ensures
        cache_key_of(q1) == cache_key_of(q2),
{
}

/// With an explicit key, only the table, the connection and the key itself
/// feed the hash: the query's clauses do not.
pub proof fn lemma_explicit_key_ignores_structure(q1: QueryBuilder, q2: QueryBuilder)
    requires
        q1.meta.table_name@ == q2.meta.table_name@,
        q1.database == q2.database,
        q1.cache_key.is_some(),
        q2.cache_key.is_some(),
        q1.cache_key.unwrap()@ == q2.cache_key.unwrap()@,
    ensures
        cache_key_of(q1) == cache_key_of(q2),
{
    assert(key_writes(q1) =~= key_writes(q2));
}

/// Dropping the cache settings forgets them entirely: two queries that differ
/// only in cache settings, both dropped by `no_cache`, share a cache key.
pub proof fn lemma_no_cache_forgets_settings(q1: QueryBuilder, q2: QueryBuilder)
    requires
        crate::builder::same_but_cache(q1, q2),
        q1.cache_options is None,
        q2.cache_options is None,
        q1.cache_key is None,
        q2.cache_key is None,
    ensures
        cache_key_of(q1) == cache_key_of(q2),
{
    assert(q1 == q2);
}

} // verus!
