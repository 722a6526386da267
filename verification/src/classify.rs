//! How a WHERE condition renders: the classification of an operator and its
//! operand into one rendering shape, and the check that every condition of a
//! query has one.

use vstd::prelude::*;
use crate::builder::QueryBuilder;
use crate::condition::{ConditionValue, Operator, OrGroup, WhereCondition};
use crate::error::{Error, message_of};
use crate::json::{JsonValue, debug_quoted, json_debug, push_json_debug, str_debug};
use crate::render_where::representable;
use crate::text::{chars_of, push_str, seq_join, string_of};

verus! {

/// A plain comparison.
#[derive(Clone, Copy, PartialEq, Eq, Debug)]
pub enum ComparisonOperator {
    /// `=`.
    Eq,
    /// `!=`.
    NotEq,
    /// `>`.
    Gt,
    /// `>=`.
    Gte,
    /// `<`.
    Lt,
    /// `<=`.
    Lte,
}

/// A membership test against a list.
#[derive(Clone, Copy, PartialEq, Eq, Debug)]
pub enum ListOperator {
    /// `IN`.
    In,
    /// `NOT IN`.
    NotIn,
    /// `= ANY`.
    EqAny,
    /// `<> ALL`.
    NeAll,
}

/// A JSON document comparison.
#[derive(Clone, Copy, PartialEq, Eq, Debug)]
pub enum JsonValueOperator {
    /// The column contains the value.
    Contains,
    /// The column is contained by the value.
    ContainedBy,
}

/// A JSON key or path test.
#[derive(Clone, Copy, PartialEq, Eq, Debug)]
pub enum JsonStringOperator {
    /// The key is present.
    KeyPresent,
    /// The key is absent.
    KeyAbsent,
    /// The path is present.
    PathPresent,
    /// The path is absent.
    PathAbsent,
}

/// An array comparison.
#[derive(Clone, Copy, PartialEq, Eq, Debug)]
pub enum ArrayOperator {
    /// Contains every value.
    Contains,
    /// Contained by the values.
    ContainedBy,
    /// Shares a value.
    Overlaps,
}

/// The rendering shape of a condition; its operand is the condition's own.
#[derive(Clone, Copy, PartialEq, Eq, Debug)]
pub enum ConditionSpec {
    /// A raw predicate, after its column when there is one.
    Raw,
    /// A comparison against one value.
    Compare(ComparisonOperator),
    /// A LIKE pattern.
    Pattern {
        /// `NOT LIKE`.
        negated: bool,
        /// With an escape character.
        escaped: bool,
    },
    /// A membership test.
    List(ListOperator),
    /// `IS [NOT] NULL`.
    NullCheck {
        /// `IS NOT NULL`.
        negated: bool,
    },
    /// `BETWEEN`.
    Between,
    /// A JSON document comparison.
    JsonValue(JsonValueOperator),
    /// A JSON key or path test.
    JsonString(JsonStringOperator),
    /// An array comparison.
    Array(ArrayOperator),
    /// `[NOT] IN (subquery)`.
    Subquery {
        /// `NOT IN`.
        negated: bool,
    },
}

/// The rendering shape of a condition; `None` when its operator and operand
/// do not pair up. Equality and inequality with JSON null become null
/// checks, since `col = NULL` matches no row.
pub open spec fn condition_kind(c: WhereCondition) -> Option<ConditionSpec> {
    match (c.operator, c.value) {
        (Operator::Raw, ConditionValue::RawExpr(_)) => Some(ConditionSpec::Raw),
        (Operator::Eq, ConditionValue::Single(JsonValue::Null)) => Some(ConditionSpec::NullCheck { negated: false }),
        (Operator::NotEq, ConditionValue::Single(JsonValue::Null)) => Some(ConditionSpec::NullCheck { negated: true }),
        (Operator::Eq, ConditionValue::Single(_)) => Some(ConditionSpec::Compare(ComparisonOperator::Eq)),
        (Operator::NotEq, ConditionValue::Single(_)) => Some(ConditionSpec::Compare(ComparisonOperator::NotEq)),
        (Operator::Gt, ConditionValue::Single(_)) => Some(ConditionSpec::Compare(ComparisonOperator::Gt)),
        (Operator::Gte, ConditionValue::Single(_)) => Some(ConditionSpec::Compare(ComparisonOperator::Gte)),
        (Operator::Lt, ConditionValue::Single(_)) => Some(ConditionSpec::Compare(ComparisonOperator::Lt)),
        (Operator::Lte, ConditionValue::Single(_)) => Some(ConditionSpec::Compare(ComparisonOperator::Lte)),
        (Operator::Like, ConditionValue::Single(_)) => Some(ConditionSpec::Pattern { negated: false, escaped: false }),
        (Operator::LikeEscaped, ConditionValue::Single(_)) => Some(ConditionSpec::Pattern { negated: false, escaped: true }),
        (Operator::NotLike, ConditionValue::Single(_)) => Some(ConditionSpec::Pattern { negated: true, escaped: false }),
        (Operator::In, ConditionValue::List(_)) => Some(ConditionSpec::List(ListOperator::In)),
        (Operator::NotIn, ConditionValue::List(_)) => Some(ConditionSpec::List(ListOperator::NotIn)),
        (Operator::EqAny, ConditionValue::List(_)) => Some(ConditionSpec::List(ListOperator::EqAny)),
        (Operator::NeAll, ConditionValue::List(_)) => Some(ConditionSpec::List(ListOperator::NeAll)),
        (Operator::IsNull, ConditionValue::NoValue) => Some(ConditionSpec::NullCheck { negated: false }),
        (Operator::IsNotNull, ConditionValue::NoValue) => Some(ConditionSpec::NullCheck { negated: true }),
        (Operator::Between, ConditionValue::Range(_, _)) => Some(ConditionSpec::Between),
        (Operator::JsonContains, ConditionValue::Single(_)) => Some(ConditionSpec::JsonValue(JsonValueOperator::Contains)),
        (Operator::JsonContainedBy, ConditionValue::Single(_)) => Some(ConditionSpec::JsonValue(JsonValueOperator::ContainedBy)),
        (Operator::JsonKeyExists, ConditionValue::Single(JsonValue::Str(_))) => Some(ConditionSpec::JsonString(JsonStringOperator::KeyPresent)),
        (Operator::JsonKeyNotExists, ConditionValue::Single(JsonValue::Str(_))) => Some(ConditionSpec::JsonString(JsonStringOperator::KeyAbsent)),
        (Operator::JsonPathExists, ConditionValue::Single(JsonValue::Str(_))) => Some(ConditionSpec::JsonString(JsonStringOperator::PathPresent)),
        (Operator::JsonPathNotExists, ConditionValue::Single(JsonValue::Str(_))) => Some(ConditionSpec::JsonString(JsonStringOperator::PathAbsent)),
        (Operator::ArrayContains, ConditionValue::List(_)) => Some(ConditionSpec::Array(ArrayOperator::Contains)),
        (Operator::ArrayContainsAll, ConditionValue::List(_)) => Some(ConditionSpec::Array(ArrayOperator::Contains)),
        (Operator::ArrayContainedBy, ConditionValue::List(_)) => Some(ConditionSpec::Array(ArrayOperator::ContainedBy)),
        (Operator::ArrayOverlaps, ConditionValue::List(_)) => Some(ConditionSpec::Array(ArrayOperator::Overlaps)),
        (Operator::ArrayContainsAny, ConditionValue::List(_)) => Some(ConditionSpec::Array(ArrayOperator::Overlaps)),
        (Operator::SubqueryIn, ConditionValue::Subquery(_)) => Some(ConditionSpec::Subquery { negated: false }),
        (Operator::SubqueryNotIn, ConditionValue::Subquery(_)) => Some(ConditionSpec::Subquery { negated: true }),
        _ => None,
    }
}

/// Classifies a condition (see `condition_kind`).
pub fn condition_spec(c: &WhereCondition) -> (r: Option<ConditionSpec>)
    ensures
        r == condition_kind(*c),
{
    match (&c.operator, &c.value) {
        (Operator::Raw, ConditionValue::RawExpr(_)) => Some(ConditionSpec::Raw),
        (Operator::Eq, ConditionValue::Single(JsonValue::Null)) => Some(ConditionSpec::NullCheck { negated: false }),
        (Operator::NotEq, ConditionValue::Single(JsonValue::Null)) => Some(ConditionSpec::NullCheck { negated: true }),
        (Operator::Eq, ConditionValue::Single(_)) => Some(ConditionSpec::Compare(ComparisonOperator::Eq)),
        (Operator::NotEq, ConditionValue::Single(_)) => Some(ConditionSpec::Compare(ComparisonOperator::NotEq)),
        (Operator::Gt, ConditionValue::Single(_)) => Some(ConditionSpec::Compare(ComparisonOperator::Gt)),
        (Operator::Gte, ConditionValue::Single(_)) => Some(ConditionSpec::Compare(ComparisonOperator::Gte)),
        (Operator::Lt, ConditionValue::Single(_)) => Some(ConditionSpec::Compare(ComparisonOperator::Lt)),
        (Operator::Lte, ConditionValue::Single(_)) => Some(ConditionSpec::Compare(ComparisonOperator::Lte)),
        (Operator::Like, ConditionValue::Single(_)) => Some(ConditionSpec::Pattern { negated: false, escaped: false }),
        (Operator::LikeEscaped, ConditionValue::Single(_)) => Some(ConditionSpec::Pattern { negated: false, escaped: true }),
        (Operator::NotLike, ConditionValue::Single(_)) => Some(ConditionSpec::Pattern { negated: true, escaped: false }),
        (Operator::In, ConditionValue::List(_)) => Some(ConditionSpec::List(ListOperator::In)),
        (Operator::NotIn, ConditionValue::List(_)) => Some(ConditionSpec::List(ListOperator::NotIn)),
        (Operator::EqAny, ConditionValue::List(_)) => Some(ConditionSpec::List(ListOperator::EqAny)),
        (Operator::NeAll, ConditionValue::List(_)) => Some(ConditionSpec::List(ListOperator::NeAll)),
        (Operator::IsNull, ConditionValue::NoValue) => Some(ConditionSpec::NullCheck { negated: false }),
        (Operator::IsNotNull, ConditionValue::NoValue) => Some(ConditionSpec::NullCheck { negated: true }),
        (Operator::Between, ConditionValue::Range(_, _)) => Some(ConditionSpec::Between),
        (Operator::JsonContains, ConditionValue::Single(_)) => Some(ConditionSpec::JsonValue(JsonValueOperator::Contains)),
        (Operator::JsonContainedBy, ConditionValue::Single(_)) => Some(ConditionSpec::JsonValue(JsonValueOperator::ContainedBy)),
        (Operator::JsonKeyExists, ConditionValue::Single(JsonValue::Str(_))) => Some(ConditionSpec::JsonString(JsonStringOperator::KeyPresent)),
        (Operator::JsonKeyNotExists, ConditionValue::Single(JsonValue::Str(_))) => Some(ConditionSpec::JsonString(JsonStringOperator::KeyAbsent)),
        (Operator::JsonPathExists, ConditionValue::Single(JsonValue::Str(_))) => Some(ConditionSpec::JsonString(JsonStringOperator::PathPresent)),
        (Operator::JsonPathNotExists, ConditionValue::Single(JsonValue::Str(_))) => Some(ConditionSpec::JsonString(JsonStringOperator::PathAbsent)),
        (Operator::ArrayContains, ConditionValue::List(_)) => Some(ConditionSpec::Array(ArrayOperator::Contains)),
        (Operator::ArrayContainsAll, ConditionValue::List(_)) => Some(ConditionSpec::Array(ArrayOperator::Contains)),
        (Operator::ArrayContainedBy, ConditionValue::List(_)) => Some(ConditionSpec::Array(ArrayOperator::ContainedBy)),
        (Operator::ArrayOverlaps, ConditionValue::List(_)) => Some(ConditionSpec::Array(ArrayOperator::Overlaps)),
        (Operator::ArrayContainsAny, ConditionValue::List(_)) => Some(ConditionSpec::Array(ArrayOperator::Overlaps)),
        (Operator::SubqueryIn, ConditionValue::Subquery(_)) => Some(ConditionSpec::Subquery { negated: false }),
        (Operator::SubqueryNotIn, ConditionValue::Subquery(_)) => Some(ConditionSpec::Subquery { negated: true }),
        _ => None,
    }
}

/// Whether an operator compares JSON documents, keys or paths.
pub open spec fn json_operator(op: Operator) -> bool {
    match op {
        Operator::JsonContains | Operator::JsonContainedBy | Operator::JsonKeyExists
        | Operator::JsonKeyNotExists | Operator::JsonPathExists | Operator::JsonPathNotExists => true,
        _ => false,
    }
}

/// The renderers render exactly the conditions that have a rendering shape
/// and no JSON document operator.
pub proof fn lemma_kind_iff_representable(c: WhereCondition)
    ensures
        (condition_kind(c) is Some && !json_operator(c.operator)) <==> representable(c),
{
}

/// The `Debug` spelling of an operator.
pub open spec fn operator_name(op: Operator) -> Seq<char> {
    match op {
        Operator::Eq => "Eq"@,
        Operator::NotEq => "NotEq"@,
        Operator::Gt => "Gt"@,
        Operator::Gte => "Gte"@,
        Operator::Lt => "Lt"@,
        Operator::Lte => "Lte"@,
        Operator::Like => "Like"@,
        Operator::LikeEscaped => "LikeEscaped"@,
        Operator::NotLike => "NotLike"@,
        Operator::In => "In"@,
        Operator::NotIn => "NotIn"@,
        Operator::IsNull => "IsNull"@,
        Operator::IsNotNull => "IsNotNull"@,
        Operator::Between => "Between"@,
        Operator::JsonContains => "JsonContains"@,
        Operator::JsonContainedBy => "JsonContainedBy"@,
        Operator::JsonKeyExists => "JsonKeyExists"@,
        Operator::JsonKeyNotExists => "JsonKeyNotExists"@,
        Operator::JsonPathExists => "JsonPathExists"@,
        Operator::JsonPathNotExists => "JsonPathNotExists"@,
        Operator::ArrayContains => "ArrayContains"@,
        Operator::ArrayContainedBy => "ArrayContainedBy"@,
        Operator::ArrayOverlaps => "ArrayOverlaps"@,
        Operator::ArrayContainsAny => "ArrayContainsAny"@,
        Operator::ArrayContainsAll => "ArrayContainsAll"@,
        Operator::SubqueryIn => "SubqueryIn"@,
        Operator::SubqueryNotIn => "SubqueryNotIn"@,
        Operator::Raw => "Raw"@,
        Operator::EqAny => "EqAny"@,
        Operator::NeAll => "NeAll"@,
    }
}

fn operator_name_str(op: Operator) -> (s: &'static str)
    ensures
        s@ == operator_name(op),
{
    match op {
        Operator::Eq => "Eq",
        Operator::NotEq => "NotEq",
        Operator::Gt => "Gt",
        Operator::Gte => "Gte",
        Operator::Lt => "Lt",
        Operator::Lte => "Lte",
        Operator::Like => "Like",
        Operator::LikeEscaped => "LikeEscaped",
        Operator::NotLike => "NotLike",
        Operator::In => "In",
        Operator::NotIn => "NotIn",
        Operator::IsNull => "IsNull",
        Operator::IsNotNull => "IsNotNull",
        Operator::Between => "Between",
        Operator::JsonContains => "JsonContains",
        Operator::JsonContainedBy => "JsonContainedBy",
        Operator::JsonKeyExists => "JsonKeyExists",
        Operator::JsonKeyNotExists => "JsonKeyNotExists",
        Operator::JsonPathExists => "JsonPathExists",
        Operator::JsonPathNotExists => "JsonPathNotExists",
        Operator::ArrayContains => "ArrayContains",
        Operator::ArrayContainedBy => "ArrayContainedBy",
        Operator::ArrayOverlaps => "ArrayOverlaps",
        Operator::ArrayContainsAny => "ArrayContainsAny",
        Operator::ArrayContainsAll => "ArrayContainsAll",
        Operator::SubqueryIn => "SubqueryIn",
        Operator::SubqueryNotIn => "SubqueryNotIn",
        Operator::Raw => "Raw",
        Operator::EqAny => "EqAny",
        Operator::NeAll => "NeAll",
    }
}

/// The `Debug` text of a condition's operand: `Single(..)`, `List([..])`,
/// `Range(.., ..)`, `None`, `Subquery("..")` or `RawExpr("..")`, the values
/// as `json_debug` writes them.
pub open spec fn value_debug(v: ConditionValue) -> Seq<char> {
    match v {
        ConditionValue::Single(x) => "Single("@ + json_debug(x) + ")"@,
        ConditionValue::List(vs) => "List(["@ + seq_join(vs@.map_values(|x: JsonValue| json_debug(x)), ", "@) + "])"@,
        ConditionValue::Range(a, b) => "Range("@ + json_debug(a) + ", "@ + json_debug(b) + ")"@,
        ConditionValue::NoValue => "None"@,
        ConditionValue::Subquery(s) => "Subquery("@ + str_debug(s@) + ")"@,
        ConditionValue::RawExpr(s) => "RawExpr("@ + str_debug(s@) + ")"@,
    }
}

fn push_value_debug(out: &mut Vec<char>, v: &ConditionValue)
    ensures
        final(out)@ == old(out)@ + value_debug(*v),
{
    match v {
        ConditionValue::Single(x) => {
            push_str(out, "Single(");
            push_json_debug(out, x);
            push_str(out, ")");
        },
        ConditionValue::List(vs) => {
            let ghost base = out@;
            push_str(out, "List([");
            let ghost start = out@;
            let ghost parts = vs@.map_values(|x: JsonValue| json_debug(x));
            let mut i: usize = 0;
            while i < vs.len()
                invariant
                    i <= vs@.len(),
                    parts == vs@.map_values(|x: JsonValue| json_debug(x)),
                    out@ == start + seq_join(parts.take(i as int), ", "@),
                decreases vs@.len() - i,
            {
                proof {
                    assert(parts.take(i + 1).drop_last() =~= parts.take(i as int));
                    assert(parts.take(i + 1).last() == json_debug(vs@[i as int]));
                }
                if i > 0 {
                    push_str(out, ", ");
                } else {
                    assert(parts.take(0) =~= Seq::<Seq<char>>::empty());
                    assert(parts.take(1) =~= seq![parts[0]]);
                }
                push_json_debug(out, &vs[i]);
                i = i + 1;
            }
            assert(parts.take(vs@.len() as int) =~= parts);
            push_str(out, "])");
            assert(out@ =~= base + value_debug(*v));
        },
        ConditionValue::Range(a, b) => {
            push_str(out, "Range(");
            push_json_debug(out, a);
            push_str(out, ", ");
            push_json_debug(out, b);
            push_str(out, ")");
        },
        ConditionValue::NoValue => push_str(out, "None"),
        ConditionValue::Subquery(s) => {
            push_str(out, "Subquery(");
            let q = debug_quoted(s.as_str());
            push_str(out, q.as_str());
            push_str(out, ")");
        },
        ConditionValue::RawExpr(s) => {
            push_str(out, "RawExpr(");
            let q = debug_quoted(s.as_str());
            push_str(out, q.as_str());
            push_str(out, ")");
        },
    }
}

/// An ordering comparison or a range bound against JSON null: never true for
/// any row.
pub open spec fn has_null_bound(c: WhereCondition) -> bool {
    match (c.operator, c.value) {
        (Operator::Gt, ConditionValue::Single(JsonValue::Null)) => true,
        (Operator::Gte, ConditionValue::Single(JsonValue::Null)) => true,
        (Operator::Lt, ConditionValue::Single(JsonValue::Null)) => true,
        (Operator::Lte, ConditionValue::Single(JsonValue::Null)) => true,
        (Operator::Between, ConditionValue::Range(low, high)) => low is Null || high is Null,
        _ => false,
    }
}

/// A condition that can be executed: no null bound, a rendering shape, and
/// no JSON document operator.
pub open spec fn acceptable(c: WhereCondition) -> bool {
    !has_null_bound(c) && condition_kind(c) is Some && !json_operator(c.operator)
}

/// The conditions of a group and of its nested groups, depth first.
pub open spec fn group_flat(g: OrGroup) -> Seq<WhereCondition>
    decreases g,
{
    g.conditions@ + groups_flat(g.nested_groups@)
}

/// The conditions of a list of groups, depth first.
pub open spec fn groups_flat(gs: Seq<OrGroup>) -> Seq<WhereCondition>
    decreases gs,
{
    if gs.len() == 0 {
        Seq::empty()
    } else {
        groups_flat(gs.drop_last()) + group_flat(gs.last())
    }
}

/// Every condition of a query in checking order: its own, then its groups'.
pub open spec fn query_flat(q: QueryBuilder) -> Seq<WhereCondition> {
    q.conditions@ + groups_flat(q.or_groups@)
}

/// The first condition of `cs` that cannot be executed.
pub open spec fn first_rejected(cs: Seq<WhereCondition>) -> Option<WhereCondition>
    decreases cs.len(),
{
    if cs.len() == 0 {
        None
    } else if !acceptable(cs[0]) {
        Some(cs[0])
    } else {
        first_rejected(cs.skip(1))
    }
}

/// The message a rejected condition is reported with.
pub open spec fn rejection_message(table: Seq<char>, c: WhereCondition) -> Seq<char> {
    if has_null_bound(c) {
        "WHERE condition on '"@ + c.column@ + "' for model '"@ + table + "' compares against NULL with operator "@
            + operator_name(c.operator)
            + "; a NULL comparison is never true — use where_null() or where_not_null() instead"@
    } else if condition_kind(c) is Some {
        "WHERE condition on '"@ + c.column@ + "' for model '"@ + table + "' uses JSON operator "@
            + operator_name(c.operator) + ", which this query builder cannot render as SQL"@
    } else {
        "WHERE condition on '"@ + (if c.column@.len() == 0 {
            "<raw>"@
        } else {
            c.column@
        }) + "' for model '"@ + table + "' pairs operator "@ + operator_name(c.operator)
            + " with an incompatible value "@ + value_debug(c.value) + " and cannot be rendered as SQL"@
    }
}

proof fn lemma_first_rejected_concat(a: Seq<WhereCondition>, b: Seq<WhereCondition>)
    ensures
        first_rejected(a + b) == if first_rejected(a) is Some {
            first_rejected(a)
        } else {
            first_rejected(b)
        },
    decreases a.len(),
{
    if a.len() > 0 {
        assert((a + b).skip(1) =~= a.skip(1) + b);
        assert((a + b)[0] == a[0]);
        lemma_first_rejected_concat(a.skip(1), b);
    } else {
        assert(a + b =~= b);
    }
}

proof fn lemma_groups_flat_split(gs: Seq<OrGroup>, k: int)
    requires
        0 <= k <= gs.len(),
    ensures
        groups_flat(gs) == groups_flat(gs.take(k)) + groups_flat(gs.skip(k)),
    decreases gs.len(),
{
    if k == gs.len() {
        assert(gs.take(k) =~= gs);
        assert(gs.skip(k) =~= Seq::<OrGroup>::empty());
        assert(groups_flat(gs) + Seq::<WhereCondition>::empty() =~= groups_flat(gs));
    } else {
        lemma_groups_flat_split(gs.drop_last(), k);
        assert(gs.drop_last().take(k) =~= gs.take(k));
        assert(gs.skip(k).drop_last() =~= gs.drop_last().skip(k));
        assert(gs.skip(k).last() == gs.last());
        assert(groups_flat(gs.skip(k)) == groups_flat(gs.skip(k).drop_last()) + group_flat(gs.skip(k).last()));
    }
}

/// Every condition of `cs` can be executed.
pub open spec fn conditions_ok(cs: Seq<WhereCondition>) -> bool {
    forall|i: int| 0 <= i < cs.len() ==> #[trigger] acceptable(cs[i])
}

/// Every condition of a group, and of each of its nested groups, can be
/// executed.
pub open spec fn group_ok(g: OrGroup) -> bool
    decreases g,
{
    conditions_ok(g.conditions@) && groups_ok(g.nested_groups@)
}

/// Every group of `gs` passes `group_ok`.
pub open spec fn groups_ok(gs: Seq<OrGroup>) -> bool
    decreases gs,
{
    if gs.len() == 0 {
        true
    } else {
        groups_ok(gs.drop_last()) && group_ok(gs.last())
    }
}

proof fn lemma_first_rejected_none(cs: Seq<WhereCondition>)
    ensures
        first_rejected(cs) is None <==> conditions_ok(cs),
    decreases cs.len(),
{
    if cs.len() > 0 {
        let rest = cs.skip(1);
        lemma_first_rejected_none(rest);
        if conditions_ok(cs) {
            assert forall|i: int| 0 <= i < rest.len() implies #[trigger] acceptable(rest[i]) by {
                assert(rest[i] == cs[i + 1]);
            }
            assert(acceptable(cs[0]));
        }
        if acceptable(cs[0]) && conditions_ok(rest) {
            assert forall|i: int| 0 <= i < cs.len() implies #[trigger] acceptable(cs[i]) by {
                if i > 0 {
                    assert(cs[i] == rest[i - 1]);
                }
            }
        }
    }
}

proof fn lemma_conditions_ok_concat(a: Seq<WhereCondition>, b: Seq<WhereCondition>)
    ensures
        conditions_ok(a + b) <==> conditions_ok(a) && conditions_ok(b),
{
    if conditions_ok(a + b) {
        assert forall|i: int| 0 <= i < a.len() implies #[trigger] acceptable(a[i]) by {
            assert((a + b)[i] == a[i]);
        }
        assert forall|i: int| 0 <= i < b.len() implies #[trigger] acceptable(b[i]) by {
            assert((a + b)[a.len() + i] == b[i]);
        }
    }
    if conditions_ok(a) && conditions_ok(b) {
        assert forall|i: int| 0 <= i < (a + b).len() implies #[trigger] acceptable((a + b)[i]) by {
            if i < a.len() {
                assert((a + b)[i] == a[i]);
            } else {
                assert((a + b)[i] == b[i - a.len()]);
            }
        }
    }
}

proof fn lemma_group_ok_flat(g: OrGroup)
    ensures
        group_ok(g) <==> conditions_ok(group_flat(g)),
    decreases g,
{
    lemma_groups_ok_flat(g.nested_groups@);
    lemma_conditions_ok_concat(g.conditions@, groups_flat(g.nested_groups@));
}

proof fn lemma_groups_ok_flat(gs: Seq<OrGroup>)
    ensures
        groups_ok(gs) <==> conditions_ok(groups_flat(gs)),
    decreases gs,
{
    if gs.len() > 0 {
        lemma_groups_ok_flat(gs.drop_last());
        lemma_group_ok_flat(gs.last());
        lemma_conditions_ok_concat(groups_flat(gs.drop_last()), group_flat(gs.last()));
    }
}

/// The representability check finds nothing to reject exactly when every
/// condition of the query, its own and those of every group and nested group,
/// can be executed: no ordering comparison or range bound against NULL, an
/// operand that fits the operator, and no JSON document operator.
pub proof fn lemma_check_passes_iff_all_acceptable(q: QueryBuilder)
    ensures
        first_rejected(query_flat(q)) is None <==> (conditions_ok(q.conditions@) && groups_ok(q.or_groups@)),
{
    lemma_first_rejected_none(query_flat(q));
    lemma_groups_ok_flat(q.or_groups@);
    lemma_conditions_ok_concat(q.conditions@, groups_flat(q.or_groups@));
}

fn rejection(table: &str, c: &WhereCondition) -> (e: Error)
    ensures
        e matches Error::InvalidQuery(m) && m@ == rejection_message(table@, *c),
{
    let mut out: Vec<char> = Vec::new();
    let null_bound = match (&c.operator, &c.value) {
        (Operator::Gt, ConditionValue::Single(JsonValue::Null)) => true,
        (Operator::Gte, ConditionValue::Single(JsonValue::Null)) => true,
        (Operator::Lt, ConditionValue::Single(JsonValue::Null)) => true,
        (Operator::Lte, ConditionValue::Single(JsonValue::Null)) => true,
        (Operator::Between, ConditionValue::Range(low, high)) => matches!(low, JsonValue::Null) || matches!(high, JsonValue::Null),
        _ => false,
    };
    if null_bound {
        push_str(&mut out, "WHERE condition on '");
        push_str(&mut out, c.column.as_str());
        push_str(&mut out, "' for model '");
        push_str(&mut out, table);
        push_str(&mut out, "' compares against NULL with operator ");
        push_str(&mut out, operator_name_str(c.operator));
        push_str(&mut out, "; a NULL comparison is never true — use where_null() or where_not_null() instead");
    } else if condition_spec(c).is_some() {
        push_str(&mut out, "WHERE condition on '");
        push_str(&mut out, c.column.as_str());
        push_str(&mut out, "' for model '");
        push_str(&mut out, table);
        push_str(&mut out, "' uses JSON operator ");
        push_str(&mut out, operator_name_str(c.operator));
        push_str(&mut out, ", which this query builder cannot render as SQL");
    } else {
        push_str(&mut out, "WHERE condition on '");
        if chars_of(c.column.as_str()).len() == 0 {
            push_str(&mut out, "<raw>");
        } else {
            push_str(&mut out, c.column.as_str());
        }
        push_str(&mut out, "' for model '");
        push_str(&mut out, table);
        push_str(&mut out, "' pairs operator ");
        push_str(&mut out, operator_name_str(c.operator));
        push_str(&mut out, " with an incompatible value ");
        push_value_debug(&mut out, &c.value);
        push_str(&mut out, " and cannot be rendered as SQL");
    }
    Error::InvalidQuery(string_of(&out))
}

fn is_acceptable(c: &WhereCondition) -> (b: bool)
    ensures
        b == acceptable(*c),
{
    let null_bound = match (&c.operator, &c.value) {
        (Operator::Gt, ConditionValue::Single(JsonValue::Null)) => true,
        (Operator::Gte, ConditionValue::Single(JsonValue::Null)) => true,
        (Operator::Lt, ConditionValue::Single(JsonValue::Null)) => true,
        (Operator::Lte, ConditionValue::Single(JsonValue::Null)) => true,
        (Operator::Between, ConditionValue::Range(low, high)) => matches!(low, JsonValue::Null) || matches!(high, JsonValue::Null),
        _ => false,
    };
    let json = matches!(c.operator, Operator::JsonContains | Operator::JsonContainedBy
        | Operator::JsonKeyExists | Operator::JsonKeyNotExists | Operator::JsonPathExists
        | Operator::JsonPathNotExists);
    !null_bound && !json && condition_spec(c).is_some()
}

fn check_list(cs: &Vec<WhereCondition>, table: &str) -> (r: Result<(), Error>)
    ensures
        match first_rejected(cs@) {
            None => r is Ok,
            Some(c) => r matches Err(Error::InvalidQuery(m)) && m@ == rejection_message(table@, c),
        },
{
    let mut i: usize = 0;
    assert(cs@.skip(0) =~= cs@);
    while i < cs.len()
        invariant
            i <= cs@.len(),
            first_rejected(cs@) == first_rejected(cs@.skip(i as int)),
        decreases cs.len() - i,
    {
        let ghost rest = cs@.skip(i as int);
        assert(rest[0] == cs@[i as int]);
        if !is_acceptable(&cs[i]) {
            return Err(rejection(table, &cs[i]));
        }
        assert(rest.skip(1) =~= cs@.skip(i + 1));
        i = i + 1;
    }
    assert(cs@.skip(cs@.len() as int) =~= Seq::<WhereCondition>::empty());
    Ok(())
}

fn check_group(g: &OrGroup, table: &str) -> (r: Result<(), Error>)
    ensures
        match first_rejected(group_flat(*g)) {
            None => r is Ok,
            Some(c) => r matches Err(Error::InvalidQuery(m)) && m@ == rejection_message(table@, c),
        },
    decreases *g,
{
    proof {
        lemma_first_rejected_concat(g.conditions@, groups_flat(g.nested_groups@));
    }
    match check_list(&g.conditions, table) {
        Err(e) => {
            return Err(e);
        },
        Ok(()) => {},
    }
    let gs = &g.nested_groups;
    let mut i: usize = 0;
    while i < gs.len()
        invariant
            i <= gs@.len(),
            gs@ == g.nested_groups@,
            first_rejected(group_flat(*g)) == first_rejected(groups_flat(g.nested_groups@)),
            first_rejected(groups_flat(gs@.take(i as int))) is None,
        decreases gs.len() - i,
    {
        proof {
            assert(gs@.take(i + 1).drop_last() =~= gs@.take(i as int));
            assert(gs@.take(i + 1).last() == gs@[i as int]);
            lemma_first_rejected_concat(groups_flat(gs@.take(i as int)), group_flat(gs@[i as int]));
            assert(decreases_to!(*g => g.nested_groups@[i as int]));
        }
        match check_group(&gs[i], table) {
            Err(e) => {
                proof {
                    assert(groups_flat(gs@.take(i + 1)) == groups_flat(gs@.take(i as int)) + group_flat(gs@[i as int]));
                    lemma_groups_flat_split(gs@, i + 1);
                    lemma_first_rejected_concat(groups_flat(gs@.take(i + 1)), groups_flat(gs@.skip(i + 1)));
                }
                return Err(e);
            },
            Ok(()) => {},
        }
        i = i + 1;
    }
    assert(gs@.take(gs@.len() as int) =~= gs@);
    assert(group_flat(*g) == g.conditions@ + groups_flat(g.nested_groups@));
    Ok(())
}

impl QueryBuilder {
    /// Rejects the first condition (own conditions first, then the groups'
    /// depth first) that compares against NULL with an ordering operator or
    /// whose operator and operand do not pair up, so that such a condition is
    /// reported instead of silently dropped from the WHERE clause.
    pub fn ensure_conditions_are_representable(&self) -> (r: Result<(), Error>)
        ensures
            match first_rejected(query_flat(*self)) {
                None => r is Ok,
                Some(c) => r matches Err(Error::InvalidQuery(m)) && m@ == rejection_message(
                    self.meta.table_name@,
                    c,
                ),
            },
    {
        let table = self.meta.table_name.as_str();
        proof {
            lemma_first_rejected_concat(self.conditions@, groups_flat(self.or_groups@));
        }
        match check_list(&self.conditions, table) {
            Err(e) => {
                return Err(e);
            },
            Ok(()) => {},
        }
        let gs = &self.or_groups;
        let mut i: usize = 0;
        while i < gs.len()
            invariant
                i <= gs@.len(),
                gs@ == self.or_groups@,
                table@ == self.meta.table_name@,
                first_rejected(query_flat(*self)) == first_rejected(groups_flat(self.or_groups@)),
                first_rejected(groups_flat(gs@.take(i as int))) is None,
            decreases gs.len() - i,
        {
            proof {
                assert(gs@.take(i + 1).drop_last() =~= gs@.take(i as int));
                assert(gs@.take(i + 1).last() == gs@[i as int]);
                lemma_first_rejected_concat(groups_flat(gs@.take(i as int)), group_flat(gs@[i as int]));
            }
            match check_group(&gs[i], table) {
                Err(e) => {
                    proof {
                        assert(groups_flat(gs@.take(i + 1)) == groups_flat(gs@.take(i as int)) + group_flat(gs@[i as int]));
                        lemma_groups_flat_split(gs@, i + 1);
                        lemma_first_rejected_concat(groups_flat(gs@.take(i + 1)), groups_flat(gs@.skip(i + 1)));
                    }
                    return Err(e);
                },
                Ok(()) => {},
            }
            i = i + 1;
        }
        assert(gs@.take(gs@.len() as int) =~= gs@);
        assert(first_rejected(groups_flat(self.or_groups@)) is None);
        Ok(())
    }
}

} // verus!
