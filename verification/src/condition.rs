//! WHERE conditions and the OR groups that nest them.

use vstd::prelude::*;
use crate::json::JsonValue;

verus! {

/// The comparison a WHERE condition applies.
#[derive(Clone, Copy, PartialEq, Eq, Debug)]
pub enum Operator {
    /// `=`.
    Eq,
    /// `!=`.
    NotEq,
    /// `>`.
    Gt,
    /// `>=`.
    Gte,
    /// `<`.
    Lt,
    /// `<=`.
    Lte,
    /// `LIKE`.
    Like,
    /// `LIKE` with an escape character.
    LikeEscaped,
    /// `NOT LIKE`.
    NotLike,
    /// `IN (..)`.
    In,
    /// `NOT IN (..)`.
    NotIn,
    /// `IS NULL`.
    IsNull,
    /// `IS NOT NULL`.
    IsNotNull,
    /// `BETWEEN .. AND ..`.
    Between,
    /// JSON containment.
    JsonContains,
    /// JSON contained-by.
    JsonContainedBy,
    /// JSON key present.
    JsonKeyExists,
    /// JSON key absent.
    JsonKeyNotExists,
    /// JSON path present.
    JsonPathExists,
    /// JSON path absent.
    JsonPathNotExists,
    /// Array containment.
    ArrayContains,
    /// Array contained-by.
    ArrayContainedBy,
    /// Array overlap.
    ArrayOverlaps,
    /// Array contains any of the values.
    ArrayContainsAny,
    /// Array contains all of the values.
    ArrayContainsAll,
    /// `IN (subquery)`.
    SubqueryIn,
    /// `NOT IN (subquery)`.
    SubqueryNotIn,
    /// A trusted raw SQL predicate.
    Raw,
    /// `= ANY(..)`.
    EqAny,
    /// `<> ALL(..)`.
    NeAll,
}

/// The operand of a WHERE condition.
#[derive(Clone, Debug, PartialEq, Eq)]
pub enum ConditionValue {
    /// One value.
    Single(JsonValue),
    /// A list of values.
    List(Vec<JsonValue>),
    /// The two bounds of a range.
    Range(JsonValue, JsonValue),
    /// No operand.
    NoValue,
    /// A subquery, as SQL.
    Subquery(String),
    /// A raw SQL expression.
    RawExpr(String),
}

/// One WHERE predicate.
#[derive(Clone, Debug, PartialEq, Eq)]
pub struct WhereCondition {
    /// The column the predicate is about (empty for a bare raw predicate).
    pub column: String,
    /// The comparison.
    pub operator: Operator,
    /// The operand.
    pub value: ConditionValue,
}

/// How the members of an OR group are combined.
#[derive(Clone, Copy, PartialEq, Eq, Debug)]
pub enum LogicalOp {
    /// All members must hold.
    And,
    /// At least one member must hold.
    Or,
}

/// The keyword of a logical connective.
pub open spec fn logical_keyword(op: LogicalOp) -> Seq<char> {
    match op {
        LogicalOp::And => "AND"@,
        LogicalOp::Or => "OR"@,
    }
}

impl LogicalOp {
    /// The keyword placed between the members of a group.
    pub fn as_sql(&self) -> (s: &'static str)
        ensures
            s@ == logical_keyword(*self),
    {
        match self {
            LogicalOp::And => "AND",
            LogicalOp::Or => "OR",
        }
    }
}

/// A parenthesized group of conditions and nested groups, combined by one
/// connective.
#[derive(Debug)]
pub struct OrGroup {
    /// The group's own conditions.
    pub conditions: Vec<WhereCondition>,
    /// Groups nested inside this one.
    pub nested_groups: Vec<OrGroup>,
    /// The connective between members.
    pub combine_with: LogicalOp,
}

/// A copy of a group, its nested groups copied in turn.
fn copy_group(g: &OrGroup) -> (r: OrGroup)
    decreases *g,
{
    let mut nested: Vec<OrGroup> = Vec::new();
    let mut i: usize = 0;
    while i < g.nested_groups.len()
        decreases g.nested_groups.len() - i,
    {
        proof {
            assert(decreases_to!(*g => g.nested_groups@[i as int]));
        }
        nested.push(copy_group(&g.nested_groups[i]));
        i = i + 1;
    }
    OrGroup { conditions: g.conditions.clone(), nested_groups: nested, combine_with: g.combine_with }
}

impl Clone for OrGroup {
    fn clone(&self) -> Self {
        copy_group(self)
    }
}

/// A condition that can never exclude a row: a negative membership test
/// against an empty list.
pub open spec fn condition_vacuous(c: WhereCondition) -> bool {
    match c.value {
        ConditionValue::List(vs) => (c.operator == Operator::NotIn || c.operator == Operator::NeAll)
            && vs@.len() == 0,
        _ => false,
    }
}

/// Whether a condition can never exclude a row.
pub fn condition_is_vacuous(c: &WhereCondition) -> (b: bool)
    ensures
        b == condition_vacuous(*c),
{
    match &c.value {
        ConditionValue::List(vs) => (matches!(c.operator, Operator::NotIn) || matches!(c.operator, Operator::NeAll))
            && vs.len() == 0,
        _ => false,
    }
}

/// A group with no members at all.
pub open spec fn group_empty(g: OrGroup) -> bool {
    g.conditions@.len() == 0 && g.nested_groups@.len() == 0
}

/// The number of conditions in a group and in every group nested in it.
pub open spec fn group_condition_count(g: OrGroup) -> nat
    decreases g,
{
    g.conditions@.len() + groups_condition_count(g.nested_groups@)
}

/// The number of conditions in a list of groups, nested ones included.
pub open spec fn groups_condition_count(gs: Seq<OrGroup>) -> nat
    decreases gs,
{
    if gs.len() == 0 {
        0
    } else {
        groups_condition_count(gs.drop_last()) + group_condition_count(gs.last())
    }
}

/// Whether a group restricts the rows it is applied to. An AND group restricts
/// when any member does; an OR group restricts when it has a member and every
/// member restricts. Empty nested groups are not members.
pub open spec fn group_restrictive(g: OrGroup) -> bool
    decreases g,
{
    match g.combine_with {
        LogicalOp::And => exists_restrictive_condition(g.conditions@) || exists_restrictive_group(
            g.nested_groups@,
        ),
        LogicalOp::Or => (g.conditions@.len() > 0 || exists_member_group(g.nested_groups@))
            && all_conditions_restrictive(g.conditions@) && all_member_groups_restrictive(
            g.nested_groups@,
        ),
    }
}

/// Some condition of the list is not vacuous.
pub open spec fn exists_restrictive_condition(cs: Seq<WhereCondition>) -> bool {
    exists|i: int| 0 <= i < cs.len() && !condition_vacuous(#[trigger] cs[i])
}

/// Every condition of the list is non-vacuous.
pub open spec fn all_conditions_restrictive(cs: Seq<WhereCondition>) -> bool {
    forall|i: int| 0 <= i < cs.len() ==> !condition_vacuous(#[trigger] cs[i])
}

/// Some group of the list is non-empty.
pub open spec fn exists_member_group(gs: Seq<OrGroup>) -> bool {
    exists|i: int| 0 <= i < gs.len() && !group_empty(#[trigger] gs[i])
}

/// Some group of the list restricts.
pub open spec fn exists_restrictive_group(gs: Seq<OrGroup>) -> bool
    decreases gs,
{
    if gs.len() == 0 {
        false
    } else {
        exists_restrictive_group(gs.drop_last()) || group_restrictive(gs.last())
    }
}

/// Every non-empty group of the list restricts.
pub open spec fn all_member_groups_restrictive(gs: Seq<OrGroup>) -> bool
    decreases gs,
{
    if gs.len() == 0 {
        true
    } else {
        all_member_groups_restrictive(gs.drop_last()) && (group_empty(gs.last())
            || group_restrictive(gs.last()))
    }
}

fn any_restrictive_condition(cs: &Vec<WhereCondition>) -> (b: bool)
    ensures
        b == exists_restrictive_condition(cs@),
{
    let mut i: usize = 0;
    while i < cs.len()
        invariant
            i <= cs@.len(),
            forall|j: int| 0 <= j < i ==> condition_vacuous(#[trigger] cs@[j]),
        decreases cs.len() - i,
    {
        if !condition_is_vacuous(&cs[i]) {
            return true;
        }
        i = i + 1;
    }
    false
}

fn every_condition_restrictive(cs: &Vec<WhereCondition>) -> (b: bool)
    ensures
        b == all_conditions_restrictive(cs@),
{
    let mut i: usize = 0;
    while i < cs.len()
        invariant
            i <= cs@.len(),
            forall|j: int| 0 <= j < i ==> !condition_vacuous(#[trigger] cs@[j]),
        decreases cs.len() - i,
    {
        if condition_is_vacuous(&cs[i]) {
            return false;
        }
        i = i + 1;
    }
    true
}

impl OrGroup {
    /// An empty group combined by `combine_with`.
    pub fn new(combine_with: LogicalOp) -> (g: Self)
        ensures
            g.conditions@.len() == 0,
            g.nested_groups@.len() == 0,
            g.combine_with == combine_with,
    {
        OrGroup { conditions: Vec::new(), nested_groups: Vec::new(), combine_with }
    }

    /// Whether the group has no members at all.
    pub fn is_empty(&self) -> (b: bool)
        ensures
            b == group_empty(*self),
    {
        self.conditions.len() == 0 && self.nested_groups.len() == 0
    }

    /// The number of conditions here and in every nested group.
    pub fn condition_count(&self) -> (n: usize)
        requires
            group_condition_count(*self) <= usize::MAX,
        ensures
            n == group_condition_count(*self),
        decreases *self,
    {
        let mut n: usize = self.conditions.len();
        let mut i: usize = 0;
        while i < self.nested_groups.len()
            invariant
                i <= self.nested_groups@.len(),
                group_condition_count(*self) <= usize::MAX,
                n == self.conditions@.len() + groups_condition_count(self.nested_groups@.take(i as int)),
            decreases self.nested_groups.len() - i,
        {
            let ghost gs = self.nested_groups@;
            proof {
                assert(gs.take(i + 1).drop_last() == gs.take(i as int));
                assert(gs.take(i + 1).last() == gs[i as int]);
                lemma_count_prefix(gs, i + 1);
                assert(decreases_to!(*self => self.nested_groups@[i as int]));
            }
            let k = self.nested_groups[i].condition_count();
            n = n + k;
            i = i + 1;
        }
        proof {
            crate::text::lemma_take_all(self.nested_groups@);
        }
        n
    }

    /// Whether the group restricts the rows it is applied to.
    pub fn is_restrictive(&self) -> (b: bool)
        ensures
            b == group_restrictive(*self),
        decreases *self,
    {
        let gs = &self.nested_groups;
        match self.combine_with {
            LogicalOp::And => {
                if any_restrictive_condition(&self.conditions) {
                    return true;
                }
                let mut i: usize = 0;
                while i < gs.len()
                    invariant
                        i <= gs@.len(),
                        gs@ == self.nested_groups@,
                        !exists_restrictive_group(gs@.take(i as int)),
                        self.combine_with == LogicalOp::And,
                    decreases gs.len() - i,
                {
                    proof {
                        assert(gs@.take(i + 1).drop_last() == gs@.take(i as int));
                        assert(gs@.take(i + 1).last() == gs@[i as int]);
                        assert(decreases_to!(*self => self.nested_groups@[i as int]));
                    }
                    if gs[i].is_restrictive() {
                        proof {
                            let t = gs@.take(i + 1);
                            assert(t.len() > 0);
                            assert(group_restrictive(t.last()));
                            assert(exists_restrictive_group(t));
                            lemma_exists_restrictive_prefix(gs@, i + 1);
                        }
                        return true;
                    }
                    i = i + 1;
                }
                proof {
                    crate::text::lemma_take_all(gs@);
                }
                false
            },
            LogicalOp::Or => {
                if !every_condition_restrictive(&self.conditions) {
                    return false;
                }
                let mut has_member = self.conditions.len() > 0;
                let mut i: usize = 0;
                while i < gs.len()
                    invariant
                        i <= gs@.len(),
                        gs@ == self.nested_groups@,
                        all_member_groups_restrictive(gs@.take(i as int)),
                        self.combine_with == LogicalOp::Or,
                        all_conditions_restrictive(self.conditions@),
                        has_member == (self.conditions@.len() > 0 || exists_member_group(
                            gs@.take(i as int),
                        )),
                    decreases gs.len() - i,
                {
                    proof {
                        assert(gs@.take(i + 1).drop_last() == gs@.take(i as int));
                        assert(gs@.take(i + 1).last() == gs@[i as int]);
                        assert(decreases_to!(*self => self.nested_groups@[i as int]));
                    }
                    if !gs[i].is_empty() {
                        if !gs[i].is_restrictive() {
                            proof {
                                let t = gs@.take(i + 1);
                                assert(t.len() > 0);
                                assert(!group_empty(t.last()) && !group_restrictive(t.last()));
                                assert(!all_member_groups_restrictive(t));
                                lemma_all_member_prefix(gs@, i + 1);
                            }
                            return false;
                        }
                        has_member = true;
                        assert(gs@.take(i + 1)[i as int] == gs@[i as int]);
                    }
                    proof {
                        if exists_member_group(gs@.take(i as int)) {
                            let w = choose|j: int| 0 <= j < i && !group_empty(#[trigger] gs@.take(i as int)[j]);
                            assert(gs@.take(i + 1)[w] == gs@.take(i as int)[w]);
                        }
                        if exists_member_group(gs@.take(i + 1)) {
                            let w = choose|j: int| 0 <= j < i + 1 && !group_empty(#[trigger] gs@.take(i + 1)[j]);
                            if w < i {
                                assert(gs@.take(i + 1)[w] == gs@.take(i as int)[w]);
                            }
                        }
                    }
                    i = i + 1;
                }
                proof {
                    crate::text::lemma_take_all(gs@);
                }
                has_member
            },
        }
    }
}

/// The conditions counted in a prefix of groups are at most those of all.
pub proof fn lemma_count_prefix(gs: Seq<OrGroup>, k: int)
    requires
        0 <= k <= gs.len(),
    ensures
        groups_condition_count(gs.take(k)) <= groups_condition_count(gs),
    decreases gs.len(),
{
    if k < gs.len() {
        assert(gs.drop_last().take(k) == gs.take(k));
        lemma_count_prefix(gs.drop_last(), k);
    } else {
        crate::text::lemma_take_all(gs);
    }
}

proof fn lemma_exists_restrictive_prefix(gs: Seq<OrGroup>, k: int)
    requires
        0 <= k <= gs.len(),
        exists_restrictive_group(gs.take(k)),
    ensures
        exists_restrictive_group(gs),
    decreases gs.len(),
{
    if k < gs.len() {
        assert(gs.drop_last().take(k) == gs.take(k));
        lemma_exists_restrictive_prefix(gs.drop_last(), k);
    } else {
        crate::text::lemma_take_all(gs);
    }
}

proof fn lemma_all_member_prefix(gs: Seq<OrGroup>, k: int)
    requires
        0 <= k <= gs.len(),
        !all_member_groups_restrictive(gs.take(k)),
    ensures
        !all_member_groups_restrictive(gs),
    decreases gs.len(),
{
    if k < gs.len() {
        assert(gs.drop_last().take(k) == gs.take(k));
        lemma_all_member_prefix(gs.drop_last(), k);
    } else {
        crate::text::lemma_take_all(gs);
    }
}

} // verus!
