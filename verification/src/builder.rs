//! The query builder: the clauses a query is made of, and the setters that
//! record them.

use vstd::prelude::*;
use crate::condition::{ConditionValue, LogicalOp, Operator, OrGroup, WhereCondition};
use crate::dialect::{DatabaseType, Order};
use crate::json::JsonValue;
use crate::model::ModelMeta;
use crate::structure::{CTE, JoinClause, JoinType, UnionClause, UnionType, WindowFunction};

verus! {

/// The connection a query was explicitly attached to.
#[derive(Clone, Copy, Debug, PartialEq, Eq)]
pub struct ConnectionInfo {
    /// The backend behind the connection.
    pub backend: DatabaseType,
    /// The pooled connection's process-unique identity; `None` for a handle
    /// that resolves to no pooled connection (a transaction handle).
    pub identity: Option<u64>,
    /// Whether the handle is a transaction.
    pub in_transaction: bool,
}

/// Result-cache settings of a query.
#[derive(Clone, Copy, Debug)]
pub struct CacheOptions {
    /// How long a cached result stays valid.
    pub ttl: std::time::Duration,
}

impl CacheOptions {
    /// Cache settings with the given time to live.
    pub fn new(ttl: std::time::Duration) -> (r: Self)
        ensures
            r.ttl == ttl,
    {
        CacheOptions { ttl }
    }
}

/// The marker `distinct()` records among the raw select expressions.
pub open spec fn distinct_marker() -> Seq<char> {
    "\u{1}tideorm::distinct"@
}

/// A query over one model, described clause by clause.
#[derive(Clone, Debug)]
pub struct QueryBuilder {
    /// The model queried.
    pub meta: ModelMeta,
    /// The explicitly attached connection, if any.
    pub database: Option<ConnectionInfo>,
    /// The backend of the globally configured database, if any.
    pub ambient_backend: Option<DatabaseType>,
    /// WHERE conditions, AND-ed together.
    pub conditions: Vec<WhereCondition>,
    /// Parenthesized groups, AND-ed with the conditions.
    pub or_groups: Vec<OrGroup>,
    /// ORDER BY terms.
    pub order_by: Vec<(String, Order)>,
    /// LIMIT.
    pub limit_value: Option<u64>,
    /// OFFSET.
    pub offset_value: Option<u64>,
    /// The typed projection, when one was chosen.
    pub select_columns: Option<Vec<String>>,
    /// Raw SELECT expressions (and the DISTINCT marker).
    pub raw_select_expressions: Vec<String>,
    /// Scalar subquery projections as `(subquery, alias)`.
    pub subquery_select_expressions: Vec<(String, String)>,
    /// GROUP BY columns.
    pub group_by: Vec<String>,
    /// HAVING templates with `?` placeholders.
    pub having_conditions: Vec<String>,
    /// Values for each HAVING template's placeholders.
    pub having_bindings: Vec<Vec<JsonValue>>,
    /// JOIN clauses.
    pub joins: Vec<JoinClause>,
    /// Compound-select operands.
    pub unions: Vec<UnionClause>,
    /// Window functions added to the projection.
    pub window_functions: Vec<WindowFunction>,
    /// WITH clause bodies.
    pub ctes: Vec<CTE>,
    /// Result-cache settings.
    pub cache_options: Option<CacheOptions>,
    /// Caller-supplied cache key.
    pub cache_key: Option<String>,
    /// The first builder call that failed.
    pub invalid_query_reason: Option<String>,
    /// Include soft-deleted rows.
    pub include_trashed: bool,
    /// Only soft-deleted rows.
    pub only_trashed: bool,
}

/// The WHERE state of two builders agrees.
pub open spec fn same_filters(a: QueryBuilder, b: QueryBuilder) -> bool {
    a.conditions == b.conditions && a.or_groups == b.or_groups
}

/// The projection of two builders agrees.
pub open spec fn same_projection(a: QueryBuilder, b: QueryBuilder) -> bool {
    &&& a.select_columns == b.select_columns
    &&& a.raw_select_expressions == b.raw_select_expressions
    &&& a.subquery_select_expressions == b.subquery_select_expressions
    &&& a.window_functions == b.window_functions
}

/// The joins, compound operands, CTEs and grouping of two builders agree.
pub open spec fn same_shape(a: QueryBuilder, b: QueryBuilder) -> bool {
    &&& a.joins == b.joins
    &&& a.unions == b.unions
    &&& a.ctes == b.ctes
    &&& a.group_by == b.group_by
    &&& a.having_conditions == b.having_conditions
    &&& a.having_bindings == b.having_bindings
}

/// The ordering and paging of two builders agree.
pub open spec fn same_paging(a: QueryBuilder, b: QueryBuilder) -> bool {
    a.order_by == b.order_by && a.limit_value == b.limit_value && a.offset_value == b.offset_value
}

/// The model, connection, cache settings and soft-delete scope agree.
pub open spec fn same_env(a: QueryBuilder, b: QueryBuilder) -> bool {
    &&& a.meta == b.meta
    &&& a.database == b.database
    &&& a.ambient_backend == b.ambient_backend
    &&& a.invalid_query_reason == b.invalid_query_reason
    &&& a.include_trashed == b.include_trashed
    &&& a.only_trashed == b.only_trashed
}

/// The cache settings agree.
pub open spec fn same_cache(a: QueryBuilder, b: QueryBuilder) -> bool {
    a.cache_options == b.cache_options && a.cache_key == b.cache_key
}

/// Everything but the WHERE state agrees.
pub open spec fn same_but_filters(a: QueryBuilder, b: QueryBuilder) -> bool {
    same_projection(a, b) && same_shape(a, b) && same_paging(a, b) && same_env(a, b) && same_cache(a, b)
}

/// Everything but the projection agrees.
pub open spec fn same_but_projection(a: QueryBuilder, b: QueryBuilder) -> bool {
    same_filters(a, b) && same_shape(a, b) && same_paging(a, b) && same_env(a, b) && same_cache(a, b)
}

/// Everything but the joins, operands, CTEs and grouping agrees.
pub open spec fn same_but_shape(a: QueryBuilder, b: QueryBuilder) -> bool {
    same_filters(a, b) && same_projection(a, b) && same_paging(a, b) && same_env(a, b) && same_cache(a, b)
}

/// Everything but the ordering and paging agrees.
pub open spec fn same_but_paging(a: QueryBuilder, b: QueryBuilder) -> bool {
    same_filters(a, b) && same_projection(a, b) && same_shape(a, b) && same_env(a, b) && same_cache(a, b)
}

/// Everything but the cache settings agrees.
pub open spec fn same_but_cache(a: QueryBuilder, b: QueryBuilder) -> bool {
    same_filters(a, b) && same_projection(a, b) && same_shape(a, b) && same_paging(a, b) && same_env(a, b)
}

impl QueryBuilder {
    /// An unfiltered query over the model described by `meta`.
    pub fn new(meta: ModelMeta) -> (q: Self)
        ensures
            q.meta == meta,
            q.database.is_none(),
            q.ambient_backend.is_none(),
            q.conditions@.len() == 0,
            q.or_groups@.len() == 0,
            q.order_by@.len() == 0,
            q.limit_value.is_none(),
            q.offset_value.is_none(),
            q.select_columns.is_none(),
            q.raw_select_expressions@.len() == 0,
            q.subquery_select_expressions@.len() == 0,
            q.group_by@.len() == 0,
            q.having_conditions@.len() == 0,
            q.having_bindings@.len() == 0,
            q.joins@.len() == 0,
            q.unions@.len() == 0,
            q.window_functions@.len() == 0,
            q.ctes@.len() == 0,
            q.cache_options.is_none(),
            q.cache_key.is_none(),
            q.invalid_query_reason.is_none(),
            !q.include_trashed,
            !q.only_trashed,
    {
        QueryBuilder {
            meta,
            database: None,
            ambient_backend: None,
            conditions: Vec::new(),
            or_groups: Vec::new(),
            order_by: Vec::new(),
            limit_value: None,
            offset_value: None,
            select_columns: None,
            raw_select_expressions: Vec::new(),
            subquery_select_expressions: Vec::new(),
            group_by: Vec::new(),
            having_conditions: Vec::new(),
            having_bindings: Vec::new(),
            joins: Vec::new(),
            unions: Vec::new(),
            window_functions: Vec::new(),
            ctes: Vec::new(),
            cache_options: None,
            cache_key: None,
            invalid_query_reason: None,
            include_trashed: false,
            only_trashed: false,
        }
    }

    /// Attaches the query to a connection.
    pub fn on_connection(self, connection: ConnectionInfo) -> (q: Self)
        ensures
            q.database == Some(connection),
            same_filters(q, self),
            same_projection(q, self),
            same_shape(q, self),
            same_paging(q, self),
            same_cache(q, self),
            q.meta == self.meta,
            q.ambient_backend == self.ambient_backend,
            q.invalid_query_reason == self.invalid_query_reason,
            q.include_trashed == self.include_trashed,
            q.only_trashed == self.only_trashed,
    {
        let mut q = self;
        q.database = Some(connection);
        q
    }

    /// Records the backend of the globally configured database.
    pub fn with_ambient_backend(self, backend: DatabaseType) -> (q: Self)
        ensures
            q.ambient_backend == Some(backend),
            same_filters(q, self),
            same_projection(q, self),
            same_shape(q, self),
            same_paging(q, self),
            same_cache(q, self),
            q.meta == self.meta,
            q.database == self.database,
            q.invalid_query_reason == self.invalid_query_reason,
            q.include_trashed == self.include_trashed,
            q.only_trashed == self.only_trashed,
    {
        let mut q = self;
        q.ambient_backend = Some(backend);
        q
    }

    /// Adds a WHERE condition.
    pub fn where_condition(self, condition: WhereCondition) -> (q: Self)
        ensures
            q.conditions@ == self.conditions@.push(condition),
            q.or_groups == self.or_groups,
            same_but_filters(q, self),
    {
        let mut q = self;
        q.conditions.push(condition);
        q
    }

    /// Adds `column = value`.
    pub fn where_eq(self, column: &str, value: JsonValue) -> (q: Self)
        ensures
            q.conditions@.len() == self.conditions@.len() + 1,
            q.conditions@.drop_last() == self.conditions@,
            q.conditions@.last().column@ == column@,
            q.conditions@.last().operator == Operator::Eq,
            q.conditions@.last().value == ConditionValue::Single(value),
            q.or_groups == self.or_groups,
            same_but_filters(q, self),
    {
        let c = WhereCondition { column: column.to_owned(), operator: Operator::Eq, value: ConditionValue::Single(value) };
        let q = self.where_condition(c);
        assert(q.conditions@.drop_last() =~= self.conditions@);
        q
    }

    /// Adds a single-value comparison `column <operator> value`.
    pub fn where_compare(self, column: &str, operator: Operator, value: JsonValue) -> (q: Self)
        ensures
            q.conditions@.len() == self.conditions@.len() + 1,
            q.conditions@.drop_last() == self.conditions@,
            q.conditions@.last().column@ == column@,
            q.conditions@.last().operator == operator,
            q.conditions@.last().value == ConditionValue::Single(value),
            q.or_groups == self.or_groups,
            same_but_filters(q, self),
    {
        let c = WhereCondition { column: column.to_owned(), operator, value: ConditionValue::Single(value) };
        let q = self.where_condition(c);
        assert(q.conditions@.drop_last() =~= self.conditions@);
        q
    }

    /// Adds a list comparison (`IN`, `NOT IN`, `= ANY`, `<> ALL`, array tests).
    pub fn where_list(self, column: &str, operator: Operator, values: Vec<JsonValue>) -> (q: Self)
        ensures
            q.conditions@.len() == self.conditions@.len() + 1,
            q.conditions@.drop_last() == self.conditions@,
            q.conditions@.last().column@ == column@,
            q.conditions@.last().operator == operator,
            q.conditions@.last().value == ConditionValue::List(values),
            q.or_groups == self.or_groups,
            same_but_filters(q, self),
    {
        let c = WhereCondition { column: column.to_owned(), operator, value: ConditionValue::List(values) };
        let q = self.where_condition(c);
        assert(q.conditions@.drop_last() =~= self.conditions@);
        q
    }

    /// Adds `column IN (values)`.
    pub fn where_in(self, column: &str, values: Vec<JsonValue>) -> (q: Self)
        ensures
            q.conditions@.len() == self.conditions@.len() + 1,
            q.conditions@.drop_last() == self.conditions@,
            q.conditions@.last().column@ == column@,
            q.conditions@.last().operator == Operator::In,
            q.conditions@.last().value == ConditionValue::List(values),
            q.or_groups == self.or_groups,
            same_but_filters(q, self),
    {
        self.where_list(column, Operator::In, values)
    }

    /// Adds `column NOT IN (values)`.
    pub fn where_not_in(self, column: &str, values: Vec<JsonValue>) -> (q: Self)
        ensures
            q.conditions@.len() == self.conditions@.len() + 1,
            q.conditions@.drop_last() == self.conditions@,
            q.conditions@.last().column@ == column@,
            q.conditions@.last().operator == Operator::NotIn,
            q.conditions@.last().value == ConditionValue::List(values),
            q.or_groups == self.or_groups,
            same_but_filters(q, self),
    {
        self.where_list(column, Operator::NotIn, values)
    }

    /// Adds `column <> ALL(values)`.
    pub fn ne_all(self, column: &str, values: Vec<JsonValue>) -> (q: Self)
        ensures
            q.conditions@.len() == self.conditions@.len() + 1,
            q.conditions@.drop_last() == self.conditions@,
            q.conditions@.last().column@ == column@,
            q.conditions@.last().operator == Operator::NeAll,
            q.conditions@.last().value == ConditionValue::List(values),
            q.or_groups == self.or_groups,
            same_but_filters(q, self),
    {
        self.where_list(column, Operator::NeAll, values)
    }

    /// Adds a trusted raw SQL predicate.
    pub fn where_raw(self, sql: &str) -> (q: Self)
        ensures
            q.conditions@.len() == self.conditions@.len() + 1,
            q.conditions@.drop_last() == self.conditions@,
            q.conditions@.last().column@.len() == 0,
            q.conditions@.last().operator == Operator::Raw,
            q.conditions@.last().value is RawExpr,
            q.conditions@.last().value->RawExpr_0@ == sql@,
            q.or_groups == self.or_groups,
            same_but_filters(q, self),
    {
        let c = WhereCondition { column: String::new(), operator: Operator::Raw, value: ConditionValue::RawExpr(sql.to_owned()) };
        let q = self.where_condition(c);
        assert(q.conditions@.drop_last() =~= self.conditions@);
        q
    }

    /// Adds a parenthesized group, AND-ed with the other filters.
    pub fn where_group(self, group: OrGroup) -> (q: Self)
        ensures
            q.or_groups@ == self.or_groups@.push(group),
            q.conditions == self.conditions,
            same_but_filters(q, self),
    {
        let mut q = self;
        q.or_groups.push(group);
        q
    }

    /// Chooses the typed projection.
    pub fn select(self, columns: Vec<&str>) -> (q: Self)
        ensures
            q.select_columns.is_some(),
            q.select_columns.unwrap()@.len() == columns@.len(),
            forall|i: int| 0 <= i < columns@.len() ==> #[trigger] q.select_columns.unwrap()@[i]@ == columns@[i]@,
            q.raw_select_expressions == self.raw_select_expressions,
            q.subquery_select_expressions == self.subquery_select_expressions,
            q.window_functions == self.window_functions,
            same_but_projection(q, self),
    {
        let mut cols: Vec<String> = Vec::new();
        let mut i: usize = 0;
        while i < columns.len()
            invariant
                i <= columns@.len(),
                cols@.len() == i,
                forall|j: int| 0 <= j < i ==> #[trigger] cols@[j]@ == columns@[j]@,
            decreases columns.len() - i,
        {
            cols.push(columns[i].to_owned());
            i = i + 1;
        }
        let mut q = self;
        q.select_columns = Some(cols);
        q
    }

    /// Adds a raw SELECT expression.
    pub fn select_raw(self, expression: &str) -> (q: Self)
        ensures
            q.raw_select_expressions@.len() == self.raw_select_expressions@.len() + 1,
            q.raw_select_expressions@.drop_last() == self.raw_select_expressions@,
            q.raw_select_expressions@.last()@ == expression@,
            q.select_columns == self.select_columns,
            q.subquery_select_expressions == self.subquery_select_expressions,
            q.window_functions == self.window_functions,
            same_but_projection(q, self),
    {
        let mut q = self;
        q.raw_select_expressions.push(expression.to_owned());
        assert(q.raw_select_expressions@.drop_last() =~= self.raw_select_expressions@);
        q
    }

    /// Adds a scalar subquery projection under `alias`.
    pub fn select_subquery(self, query_sql: &str, alias: &str) -> (q: Self)
        ensures
            q.subquery_select_expressions@.len() == self.subquery_select_expressions@.len() + 1,
            q.subquery_select_expressions@.drop_last() == self.subquery_select_expressions@,
            q.subquery_select_expressions@.last().0@ == query_sql@,
            q.subquery_select_expressions@.last().1@ == alias@,
            q.select_columns == self.select_columns,
            q.raw_select_expressions == self.raw_select_expressions,
            q.window_functions == self.window_functions,
            same_but_projection(q, self),
    {
        let mut q = self;
        q.subquery_select_expressions.push((query_sql.to_owned(), alias.to_owned()));
        assert(q.subquery_select_expressions@.drop_last() =~= self.subquery_select_expressions@);
        q
    }

    /// Adds a window function to the projection.
    pub fn window(self, window_function: WindowFunction) -> (q: Self)
        ensures
            q.window_functions@ == self.window_functions@.push(window_function),
            q.select_columns == self.select_columns,
            q.raw_select_expressions == self.raw_select_expressions,
            q.subquery_select_expressions == self.subquery_select_expressions,
            same_but_projection(q, self),
    {
        let mut q = self;
        q.window_functions.push(window_function);
        q
    }

    /// Adds an ORDER BY term.
    pub fn order_by(self, column: &str, direction: Order) -> (q: Self)
        ensures
            q.order_by@.len() == self.order_by@.len() + 1,
            q.order_by@.drop_last() == self.order_by@,
            q.order_by@.last().0@ == column@,
            q.order_by@.last().1 == direction,
            q.limit_value == self.limit_value,
            q.offset_value == self.offset_value,
            same_but_paging(q, self),
    {
        let mut q = self;
        q.order_by.push((column.to_owned(), direction));
        assert(q.order_by@.drop_last() =~= self.order_by@);
        q
    }

    /// Adds an ascending ORDER BY term.
    pub fn order_asc(self, column: &str) -> (q: Self)
        ensures
            q.order_by@.len() == self.order_by@.len() + 1,
            q.order_by@.drop_last() == self.order_by@,
            q.order_by@.last().0@ == column@,
            q.order_by@.last().1 == Order::Asc,
            q.limit_value == self.limit_value,
            q.offset_value == self.offset_value,
            same_but_paging(q, self),
    {
        self.order_by(column, Order::Asc)
    }

    /// Adds a descending ORDER BY term.
    pub fn order_desc(self, column: &str) -> (q: Self)
        ensures
            q.order_by@.len() == self.order_by@.len() + 1,
            q.order_by@.drop_last() == self.order_by@,
            q.order_by@.last().0@ == column@,
            q.order_by@.last().1 == Order::Desc,
            q.limit_value == self.limit_value,
            q.offset_value == self.offset_value,
            same_but_paging(q, self),
    {
        self.order_by(column, Order::Desc)
    }

    /// Sets LIMIT; the last call wins.
    pub fn limit(self, n: u64) -> (q: Self)
        ensures
            q.limit_value == Some(n),
            q.order_by == self.order_by,
            q.offset_value == self.offset_value,
            same_but_paging(q, self),
    {
        let mut q = self;
        q.limit_value = Some(n);
        q
    }

    /// Sets OFFSET; the last call wins.
    pub fn offset(self, n: u64) -> (q: Self)
        ensures
            q.offset_value == Some(n),
            q.order_by == self.order_by,
            q.limit_value == self.limit_value,
            same_but_paging(q, self),
    {
        let mut q = self;
        q.offset_value = Some(n);
        q
    }

    /// Adds a GROUP BY column.
    pub fn group_by(self, column: &str) -> (q: Self)
        ensures
            q.group_by@.len() == self.group_by@.len() + 1,
            q.group_by@.drop_last() == self.group_by@,
            q.group_by@.last()@ == column@,
            q.joins == self.joins,
            q.unions == self.unions,
            q.ctes == self.ctes,
            q.having_conditions == self.having_conditions,
            q.having_bindings == self.having_bindings,
            same_but_shape(q, self),
    {
        let mut q = self;
        q.group_by.push(column.to_owned());
        assert(q.group_by@.drop_last() =~= self.group_by@);
        q
    }

    /// Adds a HAVING template with the values for its `?` placeholders.
    pub fn having(self, sql_template: &str, bindings: Vec<JsonValue>) -> (q: Self)
        ensures
            q.having_conditions@.len() == self.having_conditions@.len() + 1,
            q.having_conditions@.drop_last() == self.having_conditions@,
            q.having_conditions@.last()@ == sql_template@,
            q.having_bindings@ == self.having_bindings@.push(bindings),
            q.joins == self.joins,
            q.unions == self.unions,
            q.ctes == self.ctes,
            q.group_by == self.group_by,
            same_but_shape(q, self),
    {
        let mut q = self;
        q.having_conditions.push(sql_template.to_owned());
        q.having_bindings.push(bindings);
        assert(q.having_conditions@.drop_last() =~= self.having_conditions@);
        q
    }

    /// Adds a JOIN.
    pub fn join(self, join_type: JoinType, table: &str, left_column: &str, right_column: &str) -> (q:
        Self)
        ensures
            q.joins@.len() == self.joins@.len() + 1,
            q.joins@.drop_last() == self.joins@,
            q.joins@.last().join_type == join_type,
            q.joins@.last().table@ == table@,
            q.joins@.last().alias.is_none(),
            q.joins@.last().left_column@ == left_column@,
            q.joins@.last().right_column@ == right_column@,
            q.unions == self.unions,
            q.ctes == self.ctes,
            q.group_by == self.group_by,
            q.having_conditions == self.having_conditions,
            q.having_bindings == self.having_bindings,
            same_but_shape(q, self),
    {
        let mut q = self;
        q.joins.push(
            JoinClause {
                join_type,
                table: table.to_owned(),
                alias: None,
                left_column: left_column.to_owned(),
                right_column: right_column.to_owned(),
            },
        );
        assert(q.joins@.drop_last() =~= self.joins@);
        q
    }

    /// Adds an INNER JOIN.
    pub fn inner_join(self, table: &str, left_column: &str, right_column: &str) -> (q: Self)
        ensures
            q.joins@.len() == self.joins@.len() + 1,
            q.joins@.drop_last() == self.joins@,
            q.joins@.last().join_type == JoinType::Inner,
            q.joins@.last().table@ == table@,
            q.joins@.last().alias.is_none(),
            q.joins@.last().left_column@ == left_column@,
            q.joins@.last().right_column@ == right_column@,
            q.unions == self.unions,
            q.ctes == self.ctes,
            q.group_by == self.group_by,
            q.having_conditions == self.having_conditions,
            q.having_bindings == self.having_bindings,
            same_but_shape(q, self),
    {
        self.join(JoinType::Inner, table, left_column, right_column)
    }

    /// Adds a compound-select operand.
    pub fn union_clause(self, clause: UnionClause) -> (q: Self)
        ensures
            q.unions@ == self.unions@.push(clause),
            q.joins == self.joins,
            q.ctes == self.ctes,
            q.group_by == self.group_by,
            q.having_conditions == self.having_conditions,
            q.having_bindings == self.having_bindings,
            same_but_shape(q, self),
    {
        let mut q = self;
        q.unions.push(clause);
        q
    }

    /// Adds a `UNION` operand from trusted SQL.
    pub fn union_raw(self, query_sql: &str) -> (q: Self)
        ensures
            q.unions@.len() == self.unions@.len() + 1,
            q.unions@.drop_last() == self.unions@,
            q.unions@.last().union_type == UnionType::Union,
            q.unions@.last().query_sql@ == query_sql@,
            q.unions@.last().params@.len() == 0,
            q.joins == self.joins,
            q.ctes == self.ctes,
            q.group_by == self.group_by,
            q.having_conditions == self.having_conditions,
            q.having_bindings == self.having_bindings,
            same_but_shape(q, self),
    {
        let q = self.union_clause(UnionClause::new(UnionType::Union, query_sql.to_owned()));
        assert(q.unions@.drop_last() =~= self.unions@);
        q
    }

    /// Adds a WITH clause body.
    pub fn with_cte(self, cte: CTE) -> (q: Self)
        ensures
            q.ctes@ == self.ctes@.push(cte),
            q.joins == self.joins,
            q.unions == self.unions,
            q.group_by == self.group_by,
            q.having_conditions == self.having_conditions,
            q.having_bindings == self.having_bindings,
            same_but_shape(q, self),
    {
        let mut q = self;
        q.ctes.push(cte);
        q
    }

    /// Includes soft-deleted rows.
    pub fn with_trashed(self) -> (q: Self)
        ensures
            q.include_trashed,
            !q.only_trashed,
            q.meta == self.meta,
            q.database == self.database,
            q.ambient_backend == self.ambient_backend,
            q.invalid_query_reason == self.invalid_query_reason,
            same_filters(q, self),
            same_projection(q, self),
            same_shape(q, self),
            same_paging(q, self),
            same_cache(q, self),
    {
        let mut q = self;
        q.include_trashed = true;
        q.only_trashed = false;
        q
    }

    /// Returns only soft-deleted rows.
    pub fn only_trashed(self) -> (q: Self)
        ensures
            q.only_trashed,
            !q.include_trashed,
            q.meta == self.meta,
            q.database == self.database,
            q.ambient_backend == self.ambient_backend,
            q.invalid_query_reason == self.invalid_query_reason,
            same_filters(q, self),
            same_projection(q, self),
            same_shape(q, self),
            same_paging(q, self),
            same_cache(q, self),
    {
        let mut q = self;
        q.only_trashed = true;
        q.include_trashed = false;
        q
    }

    /// Caches the result for `ttl`.
    pub fn cache(self, ttl: std::time::Duration) -> (q: Self)
        ensures
            q.cache_options == Some(CacheOptions { ttl }),
            q.cache_key == self.cache_key,
            same_but_cache(q, self),
    {
        let mut q = self;
        q.cache_options = Some(CacheOptions::new(ttl));
        q
    }

    /// Caches the result for `ttl` under a caller-chosen key.
    pub fn cache_with_key(self, key: &str, ttl: std::time::Duration) -> (q: Self)
        ensures
            q.cache_options == Some(CacheOptions { ttl }),
            q.cache_key.is_some(),
            q.cache_key.unwrap()@ == key@,
            same_but_cache(q, self),
    {
        let mut q = self;
        q.cache_key = Some(key.to_owned());
        q.cache_options = Some(CacheOptions::new(ttl));
        q
    }

    /// Caches the result with the given settings.
    pub fn cache_with_options(self, options: CacheOptions) -> (q: Self)
        ensures
            q.cache_options == Some(options),
            q.cache_key == self.cache_key,
            same_but_cache(q, self),
    {
        let mut q = self;
        q.cache_options = Some(options);
        q
    }

    /// Turns result caching off and forgets any explicit key.
    pub fn no_cache(self) -> (q: Self)
        ensures
            q.cache_options.is_none(),
            q.cache_key.is_none(),
            same_but_cache(q, self),
    {
        let mut q = self;
        q.cache_options = None;
        q.cache_key = None;
        q
    }

    /// Marks the projection DISTINCT.
    pub fn distinct(self) -> (q: Self)
        ensures
            q.raw_select_expressions@.len() == self.raw_select_expressions@.len() + 1,
            q.raw_select_expressions@.drop_last() == self.raw_select_expressions@,
            q.raw_select_expressions@.last()@ == distinct_marker(),
            q.select_columns == self.select_columns,
            q.subquery_select_expressions == self.subquery_select_expressions,
            q.window_functions == self.window_functions,
            same_but_projection(q, self),
    {
        self.select_raw("\u{1}tideorm::distinct")
    }
}

} // verus!
