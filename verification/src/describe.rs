//! Human-readable descriptions of a query's filters, as error context shows
//! them.

use vstd::prelude::*;
use crate::builder::QueryBuilder;
use crate::condition::{ConditionValue, LogicalOp, Operator, OrGroup, WhereCondition, logical_keyword};
use crate::json::{JsonValue, json_debug, json_text, push_json_debug, push_json_text};
use crate::render_where::{operator_label, operator_label_str};
use crate::text::{push_joined_chars, push_str, seq_join, string_of, vviews};

verus! {

/// How a condition's operand is described: a value as its JSON text, a list
/// as the `Debug` text of its values, a range as `low..high`, no operand as
/// `NULL`, SQL as it is.
pub open spec fn value_description(v: ConditionValue) -> Seq<char> {
    match v {
        ConditionValue::Single(x) => json_text(x),
        ConditionValue::List(vs) => "["@ + seq_join(vs@.map_values(|x: JsonValue| json_debug(x)), ", "@) + "]"@,
        ConditionValue::Range(a, b) => json_text(a) + ".."@ + json_text(b),
        ConditionValue::NoValue => "NULL"@,
        ConditionValue::Subquery(s) => s@,
        ConditionValue::RawExpr(s) => s@,
    }
}

/// How a condition is described: raw SQL as it is, a null check as the
/// column and its label, anything else as the column, the label and the
/// operand.
pub open spec fn condition_description(c: WhereCondition) -> Seq<char> {
    match (c.operator, c.value) {
        (Operator::Raw, ConditionValue::RawExpr(s)) => s@,
        (Operator::IsNull, ConditionValue::NoValue) => c.column@ + " "@ + operator_label(c.operator),
        (Operator::IsNotNull, ConditionValue::NoValue) => c.column@ + " "@ + operator_label(c.operator),
        _ => c.column@ + " "@ + operator_label(c.operator) + " "@ + value_description(c.value),
    }
}

/// The descriptions of a group's members: its conditions, then its nested
/// groups (an empty nested group is described as nothing).
pub open spec fn member_descriptions(g: OrGroup) -> Seq<Seq<char>>
    decreases g, 1int,
{
    g.conditions@.map_values(|c: WhereCondition| condition_description(c)) + groups_descriptions(g.nested_groups@)
}

/// The descriptions of a list of groups.
pub open spec fn groups_descriptions(gs: Seq<OrGroup>) -> Seq<Seq<char>>
    decreases gs, 0int,
{
    if gs.len() == 0 {
        Seq::empty()
    } else {
        groups_descriptions(gs.drop_last()) + seq![group_description(gs.last())]
    }
}

/// How a group is described: nothing without members, its one member alone,
/// or its members joined by its connective, in parentheses.
pub open spec fn group_description(g: OrGroup) -> Seq<char>
    decreases g, 2int,
{
    let parts = member_descriptions(g);
    if parts.len() == 0 {
        Seq::empty()
    } else if parts.len() == 1 {
        parts[0]
    } else {
        "("@ + seq_join(parts, " "@ + logical_keyword(g.combine_with) + " "@) + ")"@
    }
}

fn push_value_description(out: &mut Vec<char>, v: &ConditionValue)
    ensures
        final(out)@ == old(out)@ + value_description(*v),
{
    match v {
        ConditionValue::Single(x) => push_json_text(out, x),
        ConditionValue::List(vs) => {
            let ghost base = out@;
            push_str(out, "[");
            let ghost start = out@;
            let ghost parts = vs@.map_values(|x: JsonValue| json_debug(x));
            let mut i: usize = 0;
            while i < vs.len()
                invariant
                    i <= vs@.len(),
                    parts == vs@.map_values(|x: JsonValue| json_debug(x)),
                    out@ == start + seq_join(parts.take(i as int), ", "@),
                decreases vs@.len() - i,
            {
                proof {
                    assert(parts.take(i + 1).drop_last() =~= parts.take(i as int));
                    assert(parts.take(i + 1).last() == json_debug(vs@[i as int]));
                }
                if i > 0 {
                    push_str(out, ", ");
                } else {
                    assert(parts.take(0) =~= Seq::<Seq<char>>::empty());
                    assert(parts.take(1) =~= seq![parts[0]]);
                }
                push_json_debug(out, &vs[i]);
                i = i + 1;
            }
            assert(parts.take(vs@.len() as int) =~= parts);
            push_str(out, "]");
            assert(out@ =~= base + value_description(*v));
        },
        ConditionValue::Range(a, b) => {
            push_json_text(out, a);
            push_str(out, "..");
            push_json_text(out, b);
        },
        ConditionValue::NoValue => push_str(out, "NULL"),
        ConditionValue::Subquery(s) => push_str(out, s.as_str()),
        ConditionValue::RawExpr(s) => push_str(out, s.as_str()),
    }
}

/// The description of a condition (see `condition_description`).
pub fn describe_condition(condition: &WhereCondition) -> (s: Vec<char>)
    ensures
        s@ == condition_description(*condition),
{
    let mut out: Vec<char> = Vec::new();
    match (&condition.operator, &condition.value) {
        (Operator::Raw, ConditionValue::RawExpr(raw)) => {
            push_str(&mut out, raw.as_str());
        },
        (Operator::IsNull, ConditionValue::NoValue) | (Operator::IsNotNull, ConditionValue::NoValue) => {
            push_str(&mut out, condition.column.as_str());
            push_str(&mut out, " ");
            push_str(&mut out, operator_label_str(condition.operator));
        },
        _ => {
            push_str(&mut out, condition.column.as_str());
            push_str(&mut out, " ");
            push_str(&mut out, operator_label_str(condition.operator));
            push_str(&mut out, " ");
            push_value_description(&mut out, &condition.value);
        },
    }
    out
}

fn push_joined(out: &mut Vec<char>, parts: &Vec<Vec<char>>, sep: &str)
    ensures
        final(out)@ == old(out)@ + seq_join(parts@.map_values(|p: Vec<char>| p@), sep@),
{
    assert(vviews(parts@) =~= parts@.map_values(|p: Vec<char>| p@));
    push_joined_chars(out, parts, sep);
}

/// The description of a group (see `group_description`).
pub fn describe_or_group(group: &OrGroup) -> (s: Vec<char>)
    ensures
        s@ == group_description(*group),
    decreases *group,
{
    let mut parts: Vec<Vec<char>> = Vec::new();
    let mut i: usize = 0;
    while i < group.conditions.len()
        invariant
            i <= group.conditions@.len(),
            parts@.map_values(|p: Vec<char>| p@) == group.conditions@.take(i as int).map_values(
                |c: WhereCondition| condition_description(c),
            ),
        decreases group.conditions@.len() - i,
    {
        let d = describe_condition(&group.conditions[i]);
        let ghost before = parts@;
        parts.push(d);
        proof {
            assert(group.conditions@.take(i + 1).drop_last() =~= group.conditions@.take(i as int));
            assert(parts@.map_values(|p: Vec<char>| p@) =~= before.map_values(|p: Vec<char>| p@).push(
                condition_description(group.conditions@[i as int]),
            ));
            assert(group.conditions@.take(i + 1).map_values(|c: WhereCondition| condition_description(c))
                =~= group.conditions@.take(i as int).map_values(|c: WhereCondition| condition_description(c)).push(
                condition_description(group.conditions@[i as int]),
            ));
        }
        i = i + 1;
    }
    assert(group.conditions@.take(group.conditions@.len() as int) =~= group.conditions@);
    let ghost head = parts@.map_values(|p: Vec<char>| p@);
    let gs = &group.nested_groups;
    let mut j: usize = 0;
    while j < gs.len()
        invariant
            j <= gs@.len(),
            gs@ == group.nested_groups@,
            parts@.map_values(|p: Vec<char>| p@) == head + groups_descriptions(gs@.take(j as int)),
        decreases gs@.len() - j,
    {
        proof {
            assert(decreases_to!(*group => group.nested_groups@[j as int]));
        }
        let d = describe_or_group(&gs[j]);
        let ghost before = parts@;
        parts.push(d);
        proof {
            assert(gs@.take(j + 1).drop_last() =~= gs@.take(j as int));
            assert(gs@.take(j + 1).last() == gs@[j as int]);
            assert(parts@.map_values(|p: Vec<char>| p@) =~= before.map_values(|p: Vec<char>| p@).push(
                group_description(gs@[j as int]),
            ));
        }
        j = j + 1;
    }
    assert(gs@.take(gs@.len() as int) =~= gs@);
    let ghost views = parts@.map_values(|p: Vec<char>| p@);
    assert(views == member_descriptions(*group));
    if parts.len() == 0 {
        Vec::new()
    } else if parts.len() == 1 {
        let mut out: Vec<char> = Vec::new();
        crate::dialect::push_chars(&mut out, &parts[0]);
        assert(out@ =~= views[0]);
        out
    } else {
        let mut out: Vec<char> = Vec::new();
        push_str(&mut out, "(");
        let mut sep: Vec<char> = Vec::new();
        push_str(&mut sep, " ");
        push_str(&mut sep, group.combine_with.as_sql());
        push_str(&mut sep, " ");
        let sep_s = string_of(&sep);
        push_joined(&mut out, &parts, sep_s.as_str());
        push_str(&mut out, ")");
        assert(out@ =~= group_description(*group));
        out
    }
}

/// The non-empty descriptions among `ds`, in order.
pub open spec fn non_empty(ds: Seq<Seq<char>>) -> Seq<Seq<char>>
    decreases ds.len(),
{
    if ds.len() == 0 {
        Seq::empty()
    } else if ds.last().len() > 0 {
        non_empty(ds.drop_last()).push(ds.last())
    } else {
        non_empty(ds.drop_last())
    }
}

/// The descriptions of a query's conditions.
pub open spec fn conditions_descriptions(q: QueryBuilder) -> Seq<Seq<char>> {
    q.conditions@.map_values(|c: WhereCondition| condition_description(c))
}

/// The filters a failed query's error context lists: each condition, each
/// non-empty group, and each HAVING clause prefixed with `HAVING `.
pub open spec fn context_conditions(q: QueryBuilder) -> Seq<Seq<char>> {
    conditions_descriptions(q) + non_empty(groups_descriptions(q.or_groups@)) + q.having_conditions@.map_values(
        |h: String| "HAVING "@ + h@,
    )
}

/// The filters as one chain: the conditions joined by ` AND `, each
/// non-empty group, and the HAVING clauses joined by ` AND ` after
/// `HAVING `, all joined by ` AND `; `None` when there is nothing.
pub open spec fn operator_chain(q: QueryBuilder) -> Option<Seq<char>> {
    let parts = (if q.conditions@.len() > 0 {
        seq![seq_join(conditions_descriptions(q), " AND "@)]
    } else {
        Seq::empty()
    }) + non_empty(groups_descriptions(q.or_groups@)) + (if q.having_conditions@.len() > 0 {
        seq!["HAVING "@ + seq_join(q.having_conditions@.map_values(|h: String| h@), " AND "@)]
    } else {
        Seq::empty()
    });
    if parts.len() == 0 {
        None
    } else {
        Some(seq_join(parts, " AND "@))
    }
}

fn condition_parts(cs: &Vec<WhereCondition>) -> (r: Vec<Vec<char>>)
    ensures
        r@.map_values(|p: Vec<char>| p@) == cs@.map_values(|c: WhereCondition| condition_description(c)),
{
    let mut parts: Vec<Vec<char>> = Vec::new();
    let mut i: usize = 0;
    while i < cs.len()
        invariant
            i <= cs@.len(),
            parts@.map_values(|p: Vec<char>| p@) == cs@.take(i as int).map_values(
                |c: WhereCondition| condition_description(c),
            ),
        decreases cs@.len() - i,
    {
        let d = describe_condition(&cs[i]);
        let ghost before = parts@;
        parts.push(d);
        proof {
            assert(cs@.take(i + 1).drop_last() =~= cs@.take(i as int));
            assert(parts@.map_values(|p: Vec<char>| p@) =~= before.map_values(|p: Vec<char>| p@).push(
                condition_description(cs@[i as int]),
            ));
            assert(cs@.take(i + 1).map_values(|c: WhereCondition| condition_description(c)) =~= cs@.take(
                i as int,
            ).map_values(|c: WhereCondition| condition_description(c)).push(condition_description(cs@[i as int])));
        }
        i = i + 1;
    }
    assert(cs@.take(cs@.len() as int) =~= cs@);
    parts
}

fn group_parts(gs: &Vec<OrGroup>) -> (r: Vec<Vec<char>>)
    ensures
        r@.map_values(|p: Vec<char>| p@) == non_empty(groups_descriptions(gs@)),
{
    let mut parts: Vec<Vec<char>> = Vec::new();
    let mut j: usize = 0;
    while j < gs.len()
        invariant
            j <= gs@.len(),
            parts@.map_values(|p: Vec<char>| p@) == non_empty(groups_descriptions(gs@.take(j as int))),
        decreases gs@.len() - j,
    {
        let d = describe_or_group(&gs[j]);
        let ghost before = parts@;
        proof {
            assert(gs@.take(j + 1).drop_last() =~= gs@.take(j as int));
            assert(gs@.take(j + 1).last() == gs@[j as int]);
            let ds = groups_descriptions(gs@.take(j + 1));
            assert(ds.drop_last() == groups_descriptions(gs@.take(j as int)));
            assert(ds.last() == group_description(gs@[j as int]));
        }
        if d.len() > 0 {
            parts.push(d);
            proof {
                assert(parts@.map_values(|p: Vec<char>| p@) =~= before.map_values(|p: Vec<char>| p@).push(
                    group_description(gs@[j as int]),
                ));
            }
        }
        j = j + 1;
    }
    assert(gs@.take(gs@.len() as int) =~= gs@);
    parts
}

impl QueryBuilder {
    /// The filters a failed query's error context lists (see
    /// `context_conditions`).
    pub fn error_context_conditions(&self) -> (r: Vec<String>)
        ensures
            r@.map_values(|s: String| s@) == context_conditions(*self),
    {
        let cs = condition_parts(&self.conditions);
        let gs = group_parts(&self.or_groups);
        let mut r: Vec<String> = Vec::new();
        let ghost target = context_conditions(*self);
        let ghost a = cs@.map_values(|p: Vec<char>| p@);
        let ghost b = gs@.map_values(|p: Vec<char>| p@);
        let mut i: usize = 0;
        while i < cs.len()
            invariant
                i <= cs@.len(),
                r@.map_values(|s: String| s@) == a.take(i as int),
                a == cs@.map_values(|p: Vec<char>| p@),
            decreases cs@.len() - i,
        {
            let ghost before = r@;
            r.push(string_of(&cs[i]));
            assert(r@.map_values(|s: String| s@) =~= before.map_values(|s: String| s@).push(a[i as int]));
            assert(a.take(i + 1) =~= a.take(i as int).push(a[i as int]));
            i = i + 1;
        }
        assert(a.take(cs@.len() as int) =~= a);
        let mut j: usize = 0;
        while j < gs.len()
            invariant
                j <= gs@.len(),
                r@.map_values(|s: String| s@) == a + b.take(j as int),
                b == gs@.map_values(|p: Vec<char>| p@),
            decreases gs@.len() - j,
        {
            let ghost before = r@;
            r.push(string_of(&gs[j]));
            assert(r@.map_values(|s: String| s@) =~= before.map_values(|s: String| s@).push(b[j as int]));
            assert(a + b.take(j + 1) =~= (a + b.take(j as int)).push(b[j as int]));
            j = j + 1;
        }
        assert(b.take(gs@.len() as int) =~= b);
        let hs = &self.having_conditions;
        let ghost c = hs@.map_values(|h: String| "HAVING "@ + h@);
        let mut k: usize = 0;
        while k < hs.len()
            invariant
                k <= hs@.len(),
                hs@ == self.having_conditions@,
                c == hs@.map_values(|h: String| "HAVING "@ + h@),
                r@.map_values(|s: String| s@) == a + b + c.take(k as int),
            decreases hs@.len() - k,
        {
            let mut line: Vec<char> = Vec::new();
            push_str(&mut line, "HAVING ");
            push_str(&mut line, hs[k].as_str());
            let ghost before = r@;
            r.push(string_of(&line));
            assert(r@.map_values(|s: String| s@) =~= before.map_values(|s: String| s@).push(c[k as int]));
            assert(a + b + c.take(k + 1) =~= (a + b + c.take(k as int)).push(c[k as int]));
            k = k + 1;
        }
        assert(c.take(hs@.len() as int) =~= c);
        r
    }

    /// The filters as one chain (see `operator_chain`).
    pub fn error_context_operator_chain(&self) -> (r: Option<String>)
        ensures
            match operator_chain(*self) {
                Some(t) => r is Some && r.unwrap()@ == t,
                None => r is None,
            },
    {
        let mut parts: Vec<Vec<char>> = Vec::new();
        let ghost first_part: Seq<Seq<char>> = if self.conditions@.len() > 0 {
            seq![seq_join(conditions_descriptions(*self), " AND "@)]
        } else {
            Seq::empty()
        };
        if self.conditions.len() > 0 {
            let cs = condition_parts(&self.conditions);
            let mut joined: Vec<char> = Vec::new();
            push_joined(&mut joined, &cs, " AND ");
            parts.push(joined);
        }
        assert(parts@.map_values(|p: Vec<char>| p@) =~= first_part);
        let gs = group_parts(&self.or_groups);
        let ghost b = gs@.map_values(|p: Vec<char>| p@);
        let mut j: usize = 0;
        while j < gs.len()
            invariant
                j <= gs@.len(),
                b == gs@.map_values(|p: Vec<char>| p@),
                parts@.map_values(|p: Vec<char>| p@) == first_part + b.take(j as int),
            decreases gs@.len() - j,
        {
            let ghost before = parts@;
            let mut copy: Vec<char> = Vec::new();
            crate::dialect::push_chars(&mut copy, &gs[j]);
            assert(copy@ =~= gs@[j as int]@);
            parts.push(copy);
            assert(parts@.map_values(|p: Vec<char>| p@) =~= before.map_values(|p: Vec<char>| p@).push(b[j as int]));
            assert(first_part + b.take(j + 1) =~= (first_part + b.take(j as int)).push(b[j as int]));
            j = j + 1;
        }
        assert(b.take(gs@.len() as int) =~= b);
        let ghost last_part: Seq<Seq<char>> = if self.having_conditions@.len() > 0 {
            seq!["HAVING "@ + seq_join(self.having_conditions@.map_values(|h: String| h@), " AND "@)]
        } else {
            Seq::empty()
        };
        let ghost mid = parts@;
        if self.having_conditions.len() > 0 {
            let mut line: Vec<char> = Vec::new();
            push_str(&mut line, "HAVING ");
            crate::text::push_joined(&mut line, &self.having_conditions, " AND ");
            parts.push(line);
        }
        assert(parts@.map_values(|p: Vec<char>| p@) =~= first_part + b + last_part);
        if parts.len() == 0 {
            None
        } else {
            let mut out: Vec<char> = Vec::new();
            push_joined(&mut out, &parts, " AND ");
            Some(string_of(&out))
        }
    }
}

} // verus!
