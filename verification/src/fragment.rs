//! A query's clauses without its model: what a builder can be snapshotted into
//! and replayed onto another builder from.

use vstd::prelude::*;
use crate::builder::CacheOptions;
use crate::condition::{OrGroup, WhereCondition, groups_condition_count, lemma_count_prefix};
use crate::dialect::Order;
use crate::json::JsonValue;
use crate::structure::{CTE, JoinClause, UnionClause, WindowFunction};

verus! {

/// The clauses of a query, each slot as the builder's own.
pub struct QueryFragment {
    /// WHERE conditions combined with AND.
    pub conditions: Vec<WhereCondition>,
    /// Parenthesized groups, AND-ed with the conditions.
    pub or_groups: Vec<OrGroup>,
    /// ORDER BY terms.
    pub order_by: Vec<(String, Order)>,
    /// LIMIT.
    pub limit_value: Option<u64>,
    /// OFFSET.
    pub offset_value: Option<u64>,
    /// Explicit projection columns.
    pub select_columns: Option<Vec<String>>,
    /// Raw projection expressions.
    pub raw_select_expressions: Vec<String>,
    /// Subquery projections with their aliases.
    pub subquery_select_expressions: Vec<(String, String)>,
    /// GROUP BY columns.
    pub group_by: Vec<String>,
    /// HAVING templates.
    pub having_conditions: Vec<String>,
    /// The bound values of each HAVING template.
    pub having_bindings: Vec<Vec<JsonValue>>,
    /// Joins.
    pub joins: Vec<JoinClause>,
    /// Compound-select operands.
    pub unions: Vec<UnionClause>,
    /// Window functions.
    pub window_functions: Vec<WindowFunction>,
    /// Common table expressions.
    pub ctes: Vec<CTE>,
    /// Cache settings.
    pub cache_options: Option<CacheOptions>,
    /// An explicit cache key.
    pub cache_key: Option<String>,
    /// Why the query cannot run, when it cannot.
    pub invalid_query_reason: Option<String>,
    /// Whether soft-deleted rows are included.
    pub include_trashed: bool,
    /// Whether only soft-deleted rows are returned.
    pub only_trashed: bool,
}

/// Applying the fragment changes nothing: every slot is unset, including the
/// soft-delete scope, which counts as state though it adds no clause.
pub open spec fn fragment_empty(f: QueryFragment) -> bool {
    &&& f.conditions@.len() == 0
    &&& f.or_groups@.len() == 0
    &&& f.order_by@.len() == 0
    &&& f.limit_value is None
    &&& f.offset_value is None
    &&& f.select_columns is None
    &&& f.raw_select_expressions@.len() == 0
    &&& f.subquery_select_expressions@.len() == 0
    &&& f.group_by@.len() == 0
    &&& f.having_conditions@.len() == 0
    &&& f.joins@.len() == 0
    &&& f.unions@.len() == 0
    &&& f.window_functions@.len() == 0
    &&& f.ctes@.len() == 0
    &&& f.cache_options is None
    &&& f.cache_key is None
    &&& f.invalid_query_reason is None
    &&& !f.include_trashed
    &&& !f.only_trashed
}

impl QueryFragment {
    /// The empty fragment.
    pub fn new() -> (f: Self)
        ensures
            fragment_empty(f),
            f.having_bindings@.len() == 0,
    {
        QueryFragment {
            conditions: Vec::new(),
            or_groups: Vec::new(),
            order_by: Vec::new(),
            limit_value: None,
            offset_value: None,
            select_columns: None,
            raw_select_expressions: Vec::new(),
            subquery_select_expressions: Vec::new(),
            group_by: Vec::new(),
            having_conditions: Vec::new(),
            having_bindings: Vec::new(),
            joins: Vec::new(),
            unions: Vec::new(),
            window_functions: Vec::new(),
            ctes: Vec::new(),
            cache_options: None,
            cache_key: None,
            invalid_query_reason: None,
            include_trashed: false,
            only_trashed: false,
        }
    }

    /// Whether applying the fragment would change nothing.
    pub fn is_empty(&self) -> (b: bool)
        ensures
            b == fragment_empty(*self),
    {
        let has_query_state = self.conditions.len() > 0 || self.or_groups.len() > 0 || self.order_by.len() > 0
            || self.limit_value.is_some() || self.offset_value.is_some() || self.select_columns.is_some()
            || self.raw_select_expressions.len() > 0 || self.subquery_select_expressions.len() > 0
            || self.group_by.len() > 0 || self.having_conditions.len() > 0 || self.joins.len() > 0
            || self.unions.len() > 0 || self.window_functions.len() > 0 || self.ctes.len() > 0
            || self.cache_options.is_some() || self.cache_key.is_some() || self.invalid_query_reason.is_some();
        let has_soft_delete_scope = self.include_trashed || self.only_trashed;
        !has_query_state && !has_soft_delete_scope
    }

    /// How many WHERE predicates the fragment carries: its conditions and
    /// those of every group and nested group.
    pub fn condition_count(&self) -> (n: usize)
        requires
            self.conditions@.len() + groups_condition_count(self.or_groups@) <= usize::MAX,
        ensures
            n == self.conditions@.len() + groups_condition_count(self.or_groups@),
    {
        let mut n: usize = self.conditions.len();
        let gs = &self.or_groups;
        let mut i: usize = 0;
        while i < gs.len()
            invariant
                i <= gs@.len(),
                gs@ == self.or_groups@,
                self.conditions@.len() + groups_condition_count(gs@) <= usize::MAX,
                n == self.conditions@.len() + groups_condition_count(gs@.take(i as int)),
            decreases gs.len() - i,
        {
            proof {
                assert(gs@.take(i + 1).drop_last() == gs@.take(i as int));
                assert(gs@.take(i + 1).last() == gs@[i as int]);
                lemma_count_prefix(gs@, i + 1);
            }
            let k = gs[i].condition_count();
            n = n + k;
            i = i + 1;
        }
        proof {
            crate::text::lemma_take_all(gs@);
        }
        n
    }
}

} // verus!
