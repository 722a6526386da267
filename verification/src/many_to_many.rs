//! Many-to-many relations reached through a pivot table.
//!
//! The wrapper decides every query its operations run and the pivot rows they
//! write; running them (and the transaction around `sync`) is left to the
//! caller.

use vstd::prelude::*;
use crate::builder::{QueryBuilder, same_but_shape, same_cache, same_env, same_paging};
use crate::direct::otherwise_fresh;
use crate::chunking::qualified;
use crate::condition::{ConditionValue, Operator};
use crate::dialect::{DatabaseType, push_quoted, quoted};
use crate::direct::{carried_over, json_key_same, require_scalar_relation_key, same_key, scalar_message};
use crate::error::Error;
use crate::json::{JsonValue, json_text, push_json_text};
use crate::model::ModelMeta;
use crate::relation_sql::{ensure_relation_configured, placeholder, preserve_cached_value, push_param, unconfigured_message};
use crate::render_select::is_distinct;
use crate::structure::JoinType;
use crate::text::{chars_eq, chars_of, push_str, string_of};

verus! {

/// The GROUP BY columns that collapse duplicate rows of `meta`'s model: its
/// primary-key columns, qualified by its table.
pub open spec fn identity_groups(meta: ModelMeta) -> Seq<Seq<char>> {
    meta.primary_keys@.map_values(|k: String| qualified(meta.table_name@, k@))
}

/// `groups` is `base` followed by every primary-key column of `meta`,
/// qualified by its table.
pub open spec fn identity_grouping(groups: Seq<String>, base: Seq<String>, meta: ModelMeta) -> bool {
    &&& groups.len() == base.len() + meta.primary_keys@.len()
    &&& forall|j: int| 0 <= j < base.len() ==> groups[j] == base[j]
    &&& forall|j: int|
        0 <= j < meta.primary_keys@.len() ==> groups[base.len() + j]@ == qualified(
            meta.table_name@,
            (#[trigger] meta.primary_keys@[j])@,
        )
}

/// `q` is `base` grouped by every primary-key column of its model.
pub open spec fn grouped_by_identity(q: QueryBuilder, base: QueryBuilder) -> bool {
    &&& identity_grouping(q.group_by@, base.group_by@, base.meta)
    &&& q.joins == base.joins
    &&& q.unions == base.unions
    &&& q.ctes == base.ctes
    &&& q.having_conditions == base.having_conditions
    &&& q.having_bindings == base.having_bindings
    &&& same_but_shape(q, base)
}

/// Everything of `q` that pivot scoping does not touch equals `base`'s: the
/// model, connection, scope and cache settings, the ordering and paging, the
/// typed and subquery projections, window functions, compound operands, CTEs
/// and HAVING clauses.
pub open spec fn pivot_frame(q: QueryBuilder, base: QueryBuilder) -> bool {
    &&& same_env(q, base)
    &&& same_cache(q, base)
    &&& same_paging(q, base)
    &&& q.select_columns == base.select_columns
    &&& q.subquery_select_expressions == base.subquery_select_expressions
    &&& q.window_functions == base.window_functions
    &&& q.unions == base.unions
    &&& q.ctes == base.ctes
    &&& q.having_conditions == base.having_conditions
    &&& q.having_bindings == base.having_bindings
}

/// A pivot-scoped query built from a fresh one: beyond its join, filter,
/// grouping and raw projection it has nothing of its own.
pub open spec fn pivot_fresh(q: QueryBuilder) -> bool {
    &&& q.database is None
    &&& q.ambient_backend is None
    &&& q.or_groups@.len() == 0
    &&& q.order_by@.len() == 0
    &&& q.limit_value is None
    &&& q.offset_value is None
    &&& q.select_columns is None
    &&& q.subquery_select_expressions@.len() == 0
    &&& q.having_conditions@.len() == 0
    &&& q.having_bindings@.len() == 0
    &&& q.unions@.len() == 0
    &&& q.window_functions@.len() == 0
    &&& q.ctes@.len() == 0
    &&& q.cache_options is None
    &&& q.cache_key is None
    &&& q.invalid_query_reason is None
    &&& !q.include_trashed
    &&& !q.only_trashed
}

/// Collapses the rows a join duplicated: grouped by the model's primary-key
/// columns, or DISTINCT when the model declares none. Grouping keeps the
/// projection comparable when it holds a JSON column, which DISTINCT does not.
pub fn deduplicate_by_identity(query: QueryBuilder) -> (q: QueryBuilder)
    ensures
        query.meta.primary_keys@.len() == 0 ==> {
            &&& is_distinct(q)
            &&& q.raw_select_expressions@.drop_last() == query.raw_select_expressions@
            &&& q.raw_select_expressions@.len() == query.raw_select_expressions@.len() + 1
            &&& q.select_columns == query.select_columns
            &&& q.subquery_select_expressions == query.subquery_select_expressions
            &&& q.window_functions == query.window_functions
            &&& crate::builder::same_but_projection(q, query)
        },
        query.meta.primary_keys@.len() > 0 ==> grouped_by_identity(q, query),
{
    if query.meta.primary_keys.len() == 0 {
        let q = query.distinct();
        assert(q.raw_select_expressions@.contains(q.raw_select_expressions@.last()));
        return q;
    }
    let ghost base = query;
    let mut q = query;
    let mut i: usize = 0;
    while i < q.meta.primary_keys.len()
        invariant
            i <= base.meta.primary_keys@.len(),
            q.meta == base.meta,
            q.group_by@.len() == base.group_by@.len() + i,
            forall|j: int| 0 <= j < base.group_by@.len() ==> q.group_by@[j] == base.group_by@[j],
            forall|j: int|
                0 <= j < i ==> q.group_by@[base.group_by@.len() + j]@ == qualified(
                    base.meta.table_name@,
                    (#[trigger] base.meta.primary_keys@[j])@,
                ),
            q.joins == base.joins,
            q.unions == base.unions,
            q.ctes == base.ctes,
            q.having_conditions == base.having_conditions,
            q.having_bindings == base.having_bindings,
            same_but_shape(q, base),
        decreases base.meta.primary_keys@.len() - i,
    {
        let mut column: Vec<char> = Vec::new();
        push_str(&mut column, q.meta.table_name.as_str());
        push_str(&mut column, ".");
        push_str(&mut column, q.meta.primary_keys[i].as_str());
        let c = string_of(&column);
        let ghost before = q;
        q = q.group_by(c.as_str());
        proof {
            assert forall|j: int| 0 <= j < base.group_by@.len() implies q.group_by@[j] == base.group_by@[j] by {
                assert(q.group_by@[j] == q.group_by@.drop_last()[j]);
            }
            assert forall|j: int| 0 <= j < i + 1 implies q.group_by@[base.group_by@.len() + j]@ == qualified(
                base.meta.table_name@,
                (#[trigger] base.meta.primary_keys@[j])@,
            ) by {
                if j < i {
                    assert(q.group_by@[base.group_by@.len() + j] == q.group_by@.drop_last()[base.group_by@.len() + j]);
                }
            }
        }
        i = i + 1;
    }
    q
}

/// The pivot-table INSERT linking a parent key to a related key.
pub open spec fn pivot_insert_sql(db: DatabaseType, pivot: Seq<char>, fk: Seq<char>, rk: Seq<char>) -> Seq<char> {
    "INSERT INTO "@ + quoted(db, pivot) + " ("@ + quoted(db, fk) + ", "@ + quoted(db, rk) + ") VALUES ("@
        + placeholder(db, 1) + ", "@ + placeholder(db, 2) + ")"@
}

/// The INSERT of the pivot row linking `parent_pk` to `related_id`, with its
/// two bound values.
pub fn build_pivot_insert(
    db_type: DatabaseType,
    pivot_table: &str,
    foreign_key: &str,
    related_key: &str,
    parent_pk: &JsonValue,
    related_id: &JsonValue,
) -> (r: (String, Vec<JsonValue>))
    ensures
        r.0@ == pivot_insert_sql(db_type, pivot_table@, foreign_key@, related_key@),
        r.1@ == seq![*parent_pk, *related_id],
{
    let mut params: Vec<JsonValue> = Vec::new();
    let p1 = push_param(db_type, &mut params, parent_pk.duplicate());
    let p2 = push_param(db_type, &mut params, related_id.duplicate());
    let mut out: Vec<char> = Vec::new();
    push_str(&mut out, "INSERT INTO ");
    let t = chars_of(pivot_table);
    push_quoted(&mut out, db_type, &t);
    push_str(&mut out, " (");
    let f = chars_of(foreign_key);
    push_quoted(&mut out, db_type, &f);
    push_str(&mut out, ", ");
    let k = chars_of(related_key);
    push_quoted(&mut out, db_type, &k);
    push_str(&mut out, ") VALUES (");
    push_str(&mut out, p1.as_str());
    push_str(&mut out, ", ");
    push_str(&mut out, p2.as_str());
    push_str(&mut out, ")");
    assert(out@ =~= pivot_insert_sql(db_type, pivot_table@, foreign_key@, related_key@));
    assert(params@ =~= seq![*parent_pk, *related_id]);
    (string_of(&out), params)
}

/// The ids `sync` links, in order: each id whose JSON text no earlier kept id
/// has.
pub open spec fn first_occurrences(ids: Seq<JsonValue>) -> Seq<JsonValue>
    decreases ids.len(),
{
    if ids.len() == 0 {
        Seq::empty()
    } else {
        let kept = first_occurrences(ids.drop_last());
        if kept.map_values(|v: JsonValue| json_text(v)).contains(json_text(ids.last())) {
            kept
        } else {
            kept.push(ids.last())
        }
    }
}

/// Whether some id is an array or an object.
pub open spec fn has_composite(ids: Seq<JsonValue>) -> bool {
    exists|i: int| 0 <= i < ids.len() && (#[trigger] ids[i]) is Composite
}

fn contains_text(texts: &Vec<Vec<char>>, t: &Vec<char>) -> (b: bool)
    ensures
        b == texts@.map_values(|v: Vec<char>| v@).contains(t@),
{
    let mut i: usize = 0;
    while i < texts.len()
        invariant
            i <= texts@.len(),
            forall|j: int| 0 <= j < i ==> texts@[j]@ != t@,
        decreases texts.len() - i,
    {
        if chars_eq(&texts[i], t) {
            assert(texts@.map_values(|v: Vec<char>| v@)[i as int] == t@);
            return true;
        }
        i = i + 1;
    }
    proof {
        if texts@.map_values(|v: Vec<char>| v@).contains(t@) {
            let m = texts@.map_values(|v: Vec<char>| v@);
            let j = choose|j: int| 0 <= j < m.len() && #[trigger] m[j] == t@;
            assert(texts@[j]@ == t@);
        }
    }
    false
}

/// A many-to-many relation through a pivot table.
pub struct HasManyThrough<R> {
    /// Pivot column holding this model's key.
    pub foreign_key: String,
    /// Pivot column holding the related model's key.
    pub related_key: String,
    /// Column of this model the pivot's `foreign_key` matches.
    pub local_key: String,
    /// Column of the related model the pivot's `related_key` matches.
    pub related_local_key: String,
    /// The pivot table.
    pub pivot_table: String,
    /// The related rows an eager load cached.
    pub cached: Option<Vec<R>>,
    /// This model's key value.
    pub parent_pk: Option<JsonValue>,
}

/// What the checks shared by the relation's operations answer: the
/// unconfigured error when a name is empty, the missing-key error without a
/// key value, the scalar error for a composite one (under `context`), and the
/// key value otherwise.
pub open spec fn checked_key(
    r: Result<JsonValue, Error>,
    configured: bool,
    pk: Option<JsonValue>,
    context: Seq<char>,
) -> bool {
    if !configured {
        r matches Err(Error::Query(m)) && m@ == unconfigured_message("HasManyThrough"@)
    } else if pk is None {
        r matches Err(Error::Query(m)) && m@ == "Parent primary key not set for relation"@
    } else if pk.unwrap() is Composite {
        r matches Err(Error::InvalidQuery(m)) && m@ == scalar_message(context)
    } else {
        r == Ok::<JsonValue, Error>(pk.unwrap())
    }
}

impl<R> HasManyThrough<R> {
    /// Whether every name is set.
    pub open spec fn configured(&self) -> bool {
        &&& self.foreign_key@.len() > 0
        &&& self.related_key@.len() > 0
        &&& self.local_key@.len() > 0
        &&& self.related_local_key@.len() > 0
        &&& self.pivot_table@.len() > 0
    }

    /// The two wrappers describe the same relation instance.
    pub open spec fn same_relation(&self, other: &Self) -> bool {
        &&& self.foreign_key@ == other.foreign_key@
        &&& self.related_key@ == other.related_key@
        &&& self.local_key@ == other.local_key@
        &&& self.related_local_key@ == other.related_local_key@
        &&& self.pivot_table@ == other.pivot_table@
        &&& same_key(self.parent_pk, other.parent_pk)
    }

    /// `q` is `base` joined to the pivot rows of the parent `pk`: an INNER
    /// JOIN of the pivot on `pivot.related_key = related.related_local_key`
    /// and the filter `pivot.foreign_key = pk`.
    pub open spec fn scoped_to_pivot(&self, q: QueryBuilder, base: QueryBuilder, pk: JsonValue) -> bool {
        &&& q.joins@.len() == base.joins@.len() + 1
        &&& q.joins@.drop_last() == base.joins@
        &&& q.joins@.last().join_type == JoinType::Inner
        &&& q.joins@.last().table@ == self.pivot_table@
        &&& q.joins@.last().alias is None
        &&& q.joins@.last().left_column@ == qualified(self.pivot_table@, self.related_key@)
        &&& q.joins@.last().right_column@ == qualified(base.meta.table_name@, self.related_local_key@)
        &&& q.conditions@.len() == base.conditions@.len() + 1
        &&& q.conditions@.drop_last() == base.conditions@
        &&& q.conditions@.last().column@ == qualified(self.pivot_table@, self.foreign_key@)
        &&& q.conditions@.last().operator == Operator::Eq
        &&& q.conditions@.last().value == ConditionValue::Single(pk)
        &&& q.or_groups == base.or_groups
        &&& q.meta == base.meta
    }

    /// The grouping and raw projection of `q` against `base`'s: with
    /// `deduplicate`, grouped by `base`'s model identity (or DISTINCT when it
    /// declares no key); without, unchanged.
    pub open spec fn deduplicated(&self, q: QueryBuilder, base: QueryBuilder, deduplicate: bool) -> bool {
        if deduplicate && base.meta.primary_keys@.len() == 0 {
            &&& is_distinct(q)
            &&& q.raw_select_expressions@.drop_last() == base.raw_select_expressions@
            &&& q.raw_select_expressions@.len() == base.raw_select_expressions@.len() + 1
            &&& q.group_by == base.group_by
        } else if deduplicate {
            &&& identity_grouping(q.group_by@, base.group_by@, base.meta)
            &&& q.raw_select_expressions == base.raw_select_expressions
        } else {
            &&& q.group_by == base.group_by
            &&& q.raw_select_expressions == base.raw_select_expressions
        }
    }

    /// `q` is a query over `meta`'s model with no filter, join or grouping
    /// of its own, scoped to the pivot rows of `pk`.
    pub open spec fn pivot_query(&self, q: QueryBuilder, meta: ModelMeta, pk: JsonValue) -> bool {
        &&& q.meta == meta
        &&& q.joins@.len() == 1
        &&& q.joins@[0].join_type == JoinType::Inner
        &&& q.joins@[0].table@ == self.pivot_table@
        &&& q.joins@[0].alias is None
        &&& q.joins@[0].left_column@ == qualified(self.pivot_table@, self.related_key@)
        &&& q.joins@[0].right_column@ == qualified(meta.table_name@, self.related_local_key@)
        &&& q.conditions@.len() == 1
        &&& q.conditions@[0].column@ == qualified(self.pivot_table@, self.foreign_key@)
        &&& q.conditions@[0].operator == Operator::Eq
        &&& q.conditions@[0].value == ConditionValue::Single(pk)
        &&& q.or_groups@.len() == 0
    }

    /// The relation with its names, nothing cached and no key value.
    pub fn new(
        foreign_key: &str,
        related_key: &str,
        local_key: &str,
        related_local_key: &str,
        pivot_table: &str,
    ) -> (r: Self)
        ensures
            r.foreign_key@ == foreign_key@,
            r.related_key@ == related_key@,
            r.local_key@ == local_key@,
            r.related_local_key@ == related_local_key@,
            r.pivot_table@ == pivot_table@,
            r.cached is None,
            r.parent_pk is None,
    {
        HasManyThrough {
            foreign_key: foreign_key.to_owned(),
            related_key: related_key.to_owned(),
            local_key: local_key.to_owned(),
            related_local_key: related_local_key.to_owned(),
            pivot_table: pivot_table.to_owned(),
            cached: None,
            parent_pk: None,
        }
    }

    /// Supplies this model's key value.
    pub fn with_parent_pk(self, pk: JsonValue) -> (r: Self)
        ensures
            r.parent_pk == Some(pk),
            r.foreign_key == self.foreign_key,
            r.related_key == self.related_key,
            r.local_key == self.local_key,
            r.related_local_key == self.related_local_key,
            r.pivot_table == self.pivot_table,
            r.cached == self.cached,
    {
        let mut r = self;
        r.parent_pk = Some(pk);
        r
    }

    /// Fills the cache (an eager load's result).
    pub fn set_cached(&mut self, models: Vec<R>)
        ensures
            final(self).cached == Some(models),
            final(self).foreign_key == old(self).foreign_key,
            final(self).related_key == old(self).related_key,
            final(self).local_key == old(self).local_key,
            final(self).related_local_key == old(self).related_local_key,
            final(self).pivot_table == old(self).pivot_table,
            final(self).parent_pk == old(self).parent_pk,
    {
        self.cached = Some(models);
    }

    /// Carries the cached rows over from the wrapper this one replaces (see
    /// `carried_over`).
    pub fn preserve_runtime_state_from(&mut self, previous: &Self)
        where R: Clone,
        ensures
            final(self).foreign_key == old(self).foreign_key,
            final(self).related_key == old(self).related_key,
            final(self).local_key == old(self).local_key,
            final(self).related_local_key == old(self).related_local_key,
            final(self).pivot_table == old(self).pivot_table,
            final(self).parent_pk == old(self).parent_pk,
            carried_over(old(self).cached, final(self).cached, previous.cached, previous.parent_pk is None, old(self).same_relation(previous)),
    {
        let same = self.foreign_key == previous.foreign_key && self.related_key == previous.related_key
            && self.local_key == previous.local_key && self.related_local_key == previous.related_local_key
            && self.pivot_table == previous.pivot_table && json_key_same(&self.parent_pk, &previous.parent_pk);
        preserve_cached_value(&mut self.cached, &previous.cached, previous.parent_pk.is_none(), same);
    }

    /// The cached rows, if the relation was populated. Never queries.
    pub fn get_cached(&self) -> (r: Option<&Vec<R>>)
        ensures
            match r {
                Some(v) => self.cached == Some(*v),
                None => self.cached is None,
            },
    {
        match &self.cached {
            Some(v) => Some(v),
            None => None,
        }
    }

    /// The cached rows, if the relation was populated.
    pub fn items(&self) -> (r: Option<&Vec<R>>)
        ensures
            match r {
                Some(v) => self.cached == Some(*v),
                None => self.cached is None,
            },
    {
        self.get_cached()
    }

    /// Whether the relation was populated.
    pub fn is_loaded(&self) -> (b: bool)
        ensures
            b == (self.cached is Some),
    {
        self.cached.is_some()
    }

    fn configured_check(&self) -> (r: Result<(), Error>)
        ensures
            self.configured() ==> r is Ok,
            !self.configured() ==> (r matches Err(Error::Query(m)) && m@ == unconfigured_message("HasManyThrough"@)),
    {
        let names: Vec<&str> = vec![
            self.foreign_key.as_str(),
            self.related_key.as_str(),
            self.local_key.as_str(),
            self.related_local_key.as_str(),
            self.pivot_table.as_str(),
        ];
        let r = ensure_relation_configured("HasManyThrough", names.as_slice());
        proof {
            if self.configured() {
                assert forall|i: int| 0 <= i < names@.len() implies (#[trigger] names@[i])@.len() > 0 by {}
            } else {
                if r is Ok {
                    assert(names@[0]@.len() > 0 && names@[1]@.len() > 0 && names@[2]@.len() > 0 && names@[3]@.len() > 0
                        && names@[4]@.len() > 0);
                }
            }
        }
        r
    }

    /// The checks every operation runs first, under the operation's name
    /// (see `checked_key`).
    pub fn checked_parent_key(&self, context: &str) -> (r: Result<JsonValue, Error>)
        ensures
            checked_key(r, self.configured(), self.parent_pk, context@),
    {
        match self.configured_check() {
            Err(e) => return Err(e),
            Ok(()) => {},
        }
        let pk = match &self.parent_pk {
            Some(v) => v,
            None => {
                let mut m: Vec<char> = Vec::new();
                push_str(&mut m, "Parent primary key not set for relation");
                return Err(Error::Query(string_of(&m)));
            },
        };
        match require_scalar_relation_key(pk, context) {
            Err(e) => Err(e),
            Ok(v) => Ok(v.duplicate()),
        }
    }

    /// Joins `query` to the pivot rows of the parent `pk` (see
    /// `scoped_to_pivot`), collapsing duplicated rows when `deduplicate`
    /// holds (see `deduplicate_by_identity`).
    pub fn scope_to_pivot(&self, query: QueryBuilder, pk: &JsonValue, deduplicate: bool) -> (q: QueryBuilder)
        ensures
            self.scoped_to_pivot(q, query, *pk),
            self.deduplicated(q, query, deduplicate),
            pivot_frame(q, query),
    {
        let mut pivot_related: Vec<char> = Vec::new();
        push_str(&mut pivot_related, self.pivot_table.as_str());
        push_str(&mut pivot_related, ".");
        push_str(&mut pivot_related, self.related_key.as_str());
        let mut related_local: Vec<char> = Vec::new();
        push_str(&mut related_local, query.meta.table_name.as_str());
        push_str(&mut related_local, ".");
        push_str(&mut related_local, self.related_local_key.as_str());
        let mut pivot_foreign: Vec<char> = Vec::new();
        push_str(&mut pivot_foreign, self.pivot_table.as_str());
        push_str(&mut pivot_foreign, ".");
        push_str(&mut pivot_foreign, self.foreign_key.as_str());
        let pr = string_of(&pivot_related);
        let rl = string_of(&related_local);
        let pf = string_of(&pivot_foreign);
        let ghost base = query;
        let joined = query.inner_join(self.pivot_table.as_str(), pr.as_str(), rl.as_str());
        let scoped = joined.where_eq(pf.as_str(), pk.duplicate());
        assert(self.scoped_to_pivot(scoped, base, *pk));
        if deduplicate {
            deduplicate_by_identity(scoped)
        } else {
            scoped
        }
    }

    /// The query a load runs, or `Ok(None)` when cached rows answer it. With
    /// a reachable connection a configured relation with a key value always
    /// queries; otherwise cached rows answer, and failing that the checks run
    /// and may fail. The query is `meta`'s model scoped to the pivot rows of
    /// the parent key, duplicates collapsed.
    pub fn load_query(&self, meta: ModelMeta, can_query: bool) -> (r: Result<Option<QueryBuilder>, Error>)
        ensures
            !(can_query && self.configured() && self.parent_pk is Some) && self.cached is Some
                ==> r == Ok::<Option<QueryBuilder>, Error>(None),
            (can_query && self.configured() && self.parent_pk is Some) || self.cached is None ==> match r {
                Ok(Some(q)) => checked_key(Ok(self.parent_pk.unwrap()), self.configured(), self.parent_pk, "HasManyThrough::load"@)
                    && self.pivot_query(q, meta, self.parent_pk.unwrap()) && pivot_fresh(q) && (if meta.primary_keys@.len() == 0 {
                    is_distinct(q) && q.raw_select_expressions@.len() == 1 && q.group_by@.len() == 0
                } else {
                    identity_grouping(q.group_by@, Seq::empty(), meta) && q.raw_select_expressions@.len() == 0
                }),
                Ok(None) => false,
                Err(e) => checked_key(Err(e), self.configured(), self.parent_pk, "HasManyThrough::load"@),
            },
    {
        let configured = self.configured_check().is_ok();
        if !(can_query && configured && self.parent_pk.is_some()) && self.cached.is_some() {
            return Ok(None);
        }
        let pk = match self.checked_parent_key("HasManyThrough::load") {
            Err(e) => return Err(e),
            Ok(pk) => pk,
        };
        let base = QueryBuilder::new(meta);
        let q = self.scope_to_pivot(base, &pk, true);
        assert(base.group_by@ =~= Seq::<String>::empty());
        assert(q.joins@[0] == q.joins@.last());
        assert(q.conditions@[0] == q.conditions@.last());
        Ok(Some(q))
    }

    /// The query `load_with` refines: `meta`'s model scoped to the pivot rows
    /// of the parent key, duplicates left to the refinement.
    pub fn load_with_query(&self, meta: ModelMeta) -> (r: Result<QueryBuilder, Error>)
        ensures
            match r {
                Ok(q) => checked_key(Ok(self.parent_pk.unwrap()), self.configured(), self.parent_pk, "HasManyThrough::load_with"@)
                    && self.pivot_query(q, meta, self.parent_pk.unwrap()) && pivot_fresh(q) && q.group_by@.len() == 0
                    && q.raw_select_expressions@.len() == 0,
                Err(e) => checked_key(Err(e), self.configured(), self.parent_pk, "HasManyThrough::load_with"@),
            },
    {
        let pk = match self.checked_parent_key("HasManyThrough::load_with") {
            Err(e) => return Err(e),
            Ok(pk) => pk,
        };
        let base = QueryBuilder::new(meta);
        let q = self.scope_to_pivot(base, &pk, false);
        assert(q.joins@[0] == q.joins@.last());
        assert(q.conditions@[0] == q.conditions@.last());
        Ok(q)
    }

    /// The pivot query `count` counts the distinct `related_key` values of:
    /// the pivot rows of the parent key.
    pub fn count_query(&self, pivot_meta: ModelMeta) -> (r: Result<QueryBuilder, Error>)
        ensures
            match r {
                Ok(q) => checked_key(Ok(self.parent_pk.unwrap()), self.configured(), self.parent_pk, "HasManyThrough::count"@)
                    && q.meta == pivot_meta && q.conditions@.len() == 1 && otherwise_fresh(q)
                    && q.conditions@[0].column@ == qualified(self.pivot_table@, self.foreign_key@)
                    && q.conditions@[0].operator == Operator::Eq
                    && q.conditions@[0].value == ConditionValue::Single(self.parent_pk.unwrap()),
                Err(e) => checked_key(Err(e), self.configured(), self.parent_pk, "HasManyThrough::count"@),
            },
    {
        let pk = match self.checked_parent_key("HasManyThrough::count") {
            Err(e) => return Err(e),
            Ok(pk) => pk,
        };
        let mut column: Vec<char> = Vec::new();
        push_str(&mut column, self.pivot_table.as_str());
        push_str(&mut column, ".");
        push_str(&mut column, self.foreign_key.as_str());
        let c = string_of(&column);
        Ok(QueryBuilder::new(pivot_meta).where_eq(c.as_str(), pk))
    }

    /// The pivot query for the link between the parent key and `related_id`:
    /// `foreign_key = pk AND related_key = related_id`.
    fn link_query(&self, pivot_meta: ModelMeta, pk: JsonValue, related_id: JsonValue) -> (q: QueryBuilder)
        ensures
            q.meta == pivot_meta,
            otherwise_fresh(q),
            q.conditions@.len() == 2,
            q.conditions@[0].column@ == self.foreign_key@,
            q.conditions@[0].operator == Operator::Eq,
            q.conditions@[0].value == ConditionValue::Single(pk),
            q.conditions@[1].column@ == self.related_key@,
            q.conditions@[1].operator == Operator::Eq,
            q.conditions@[1].value == ConditionValue::Single(related_id),
    {
        QueryBuilder::new(pivot_meta).where_eq(self.foreign_key.as_str(), pk).where_eq(
            self.related_key.as_str(),
            related_id,
        )
    }

    /// The existence check `attach` runs before writing a pivot row, so that
    /// attaching an already attached id is a no-op. Both keys must be scalars.
    pub fn attach_check_query(&self, pivot_meta: ModelMeta, related_id: &JsonValue) -> (r: Result<QueryBuilder, Error>)
        ensures
            match r {
                Ok(q) => {
                    &&& checked_key(Ok(self.parent_pk.unwrap()), self.configured(), self.parent_pk, "HasManyThrough::attach"@)
                    &&& !(related_id is Composite)
                    &&& q.meta == pivot_meta
                    &&& otherwise_fresh(q)
                    &&& q.conditions@.len() == 2
                    &&& q.conditions@[0].column@ == self.foreign_key@
                    &&& q.conditions@[0].value == ConditionValue::Single(self.parent_pk.unwrap())
                    &&& q.conditions@[1].column@ == self.related_key@
                    &&& q.conditions@[1].value == ConditionValue::Single(*related_id)
                    &&& q.conditions@[0].operator == Operator::Eq && q.conditions@[1].operator == Operator::Eq
                },
                Err(e) => checked_key(Err(e), self.configured(), self.parent_pk, "HasManyThrough::attach"@) || (
                checked_key(Ok(self.parent_pk.unwrap()), self.configured(), self.parent_pk, "HasManyThrough::attach"@)
                    && related_id is Composite && (e matches Error::InvalidQuery(m) && m@ == scalar_message(
                    "HasManyThrough::attach"@,
                ))),
            },
    {
        let pk = match self.checked_parent_key("HasManyThrough::attach") {
            Err(e) => return Err(e),
            Ok(pk) => pk,
        };
        let id = match require_scalar_relation_key(related_id, "HasManyThrough::attach") {
            Err(e) => return Err(e),
            Ok(v) => v,
        };
        Ok(self.link_query(pivot_meta, pk, id.duplicate()))
    }

    /// The pivot row `attach` writes when the link is absent.
    pub fn attach_insert(&self, db_type: DatabaseType, parent_pk: &JsonValue, related_id: &JsonValue) -> (r: (
        String,
        Vec<JsonValue>,
    ))
        ensures
            r.0@ == pivot_insert_sql(db_type, self.pivot_table@, self.foreign_key@, self.related_key@),
            r.1@ == seq![*parent_pk, *related_id],
    {
        build_pivot_insert(
            db_type,
            self.pivot_table.as_str(),
            self.foreign_key.as_str(),
            self.related_key.as_str(),
            parent_pk,
            related_id,
        )
    }

    /// What `attach` writes once its existence check has answered: nothing
    /// when the link is already there, else the pivot row linking the parent
    /// key to `related_id`.
    pub fn attach_step(&self, db_type: DatabaseType, related_id: &JsonValue, already_attached: bool) -> (r:
        Option<(String, Vec<JsonValue>)>)
        requires
            self.parent_pk is Some,
        ensures
            already_attached ==> r is None,
            !already_attached ==> (r matches Some((sql, params)) && sql@ == pivot_insert_sql(
                db_type,
                self.pivot_table@,
                self.foreign_key@,
                self.related_key@,
            ) && params@ == seq![self.parent_pk.unwrap(), *related_id]),
    {
        if already_attached {
            return None;
        }
        match &self.parent_pk {
            Some(pk) => Some(self.attach_insert(db_type, pk, related_id)),
            None => None,
        }
    }

    /// The pivot rows `detach` deletes: the link between the parent key and
    /// `related_id`.
    pub fn detach_query(&self, pivot_meta: ModelMeta, related_id: JsonValue) -> (r: Result<QueryBuilder, Error>)
        ensures
            match r {
                Ok(q) => {
                    &&& checked_key(Ok(self.parent_pk.unwrap()), self.configured(), self.parent_pk, "HasManyThrough::detach"@)
                    &&& q.meta == pivot_meta
                    &&& otherwise_fresh(q)
                    &&& q.conditions@.len() == 2
                    &&& q.conditions@[0].column@ == self.foreign_key@
                    &&& q.conditions@[0].value == ConditionValue::Single(self.parent_pk.unwrap())
                    &&& q.conditions@[1].column@ == self.related_key@
                    &&& q.conditions@[1].value == ConditionValue::Single(related_id)
                    &&& q.conditions@[0].operator == Operator::Eq && q.conditions@[1].operator == Operator::Eq
                },
                Err(e) => checked_key(Err(e), self.configured(), self.parent_pk, "HasManyThrough::detach"@),
            },
    {
        let pk = match self.checked_parent_key("HasManyThrough::detach") {
            Err(e) => return Err(e),
            Ok(pk) => pk,
        };
        Ok(self.link_query(pivot_meta, pk, related_id))
    }

    /// What `sync` writes: the pivot rows of the parent key to delete, and
    /// the ids to link afresh, each id once (by JSON text), in first-seen
    /// order. Every id must be a scalar, checked before anything is written.
    pub fn sync_plan(&self, pivot_meta: ModelMeta, related_ids: Vec<JsonValue>) -> (r: Result<
        (QueryBuilder, Vec<JsonValue>),
        Error,
    >)
        ensures
            match r {
                Ok((q, wanted)) => {
                    &&& checked_key(Ok(self.parent_pk.unwrap()), self.configured(), self.parent_pk, "HasManyThrough::sync"@)
                    &&& !has_composite(related_ids@)
                    &&& wanted@ == first_occurrences(related_ids@)
                    &&& q.meta == pivot_meta
                    &&& otherwise_fresh(q)
                    &&& q.conditions@.len() == 1
                    &&& q.conditions@[0].column@ == self.foreign_key@
                    &&& q.conditions@[0].operator == Operator::Eq
                    &&& q.conditions@[0].value == ConditionValue::Single(self.parent_pk.unwrap())
                },
                Err(e) => checked_key(Err(e), self.configured(), self.parent_pk, "HasManyThrough::sync"@) || (
                checked_key(Ok(self.parent_pk.unwrap()), self.configured(), self.parent_pk, "HasManyThrough::sync"@)
                    && has_composite(related_ids@) && (e matches Error::InvalidQuery(m) && m@ == scalar_message(
                    "HasManyThrough::sync"@,
                ))),
            },
    {
        let pk = match self.checked_parent_key("HasManyThrough::sync") {
            Err(e) => return Err(e),
            Ok(pk) => pk,
        };
        let mut wanted: Vec<JsonValue> = Vec::new();
        let mut texts: Vec<Vec<char>> = Vec::new();
        let mut i: usize = 0;
        while i < related_ids.len()
            invariant
                i <= related_ids@.len(),
                wanted@ == first_occurrences(related_ids@.take(i as int)),
                texts@.map_values(|v: Vec<char>| v@) == wanted@.map_values(|v: JsonValue| json_text(v)),
                forall|j: int| 0 <= j < i ==> !((#[trigger] related_ids@[j]) is Composite),
                checked_key(Ok(pk), self.configured(), self.parent_pk, "HasManyThrough::sync"@),
            decreases related_ids@.len() - i,
        {
            let id = &related_ids[i];
            match require_scalar_relation_key(id, "HasManyThrough::sync") {
                Err(e) => {
                    assert(related_ids@[i as int] is Composite);
                    return Err(e);
                },
                Ok(_) => {},
            }
            let mut t: Vec<char> = Vec::new();
            push_json_text(&mut t, id);
            proof {
                assert(related_ids@.take(i + 1).drop_last() =~= related_ids@.take(i as int));
                assert(related_ids@.take(i + 1).last() == related_ids@[i as int]);
            }
            if !contains_text(&texts, &t) {
                let ghost old_texts = texts@;
                let ghost old_wanted = wanted@;
                wanted.push(id.duplicate());
                texts.push(t);
                proof {
                    assert(texts@.map_values(|v: Vec<char>| v@) =~= old_texts.map_values(|v: Vec<char>| v@).push(
                        json_text(related_ids@[i as int]),
                    ));
                    assert(wanted@.map_values(|v: JsonValue| json_text(v)) =~= old_wanted.map_values(
                        |v: JsonValue| json_text(v),
                    ).push(json_text(related_ids@[i as int])));
                }
            }
            i = i + 1;
        }
        assert(related_ids@.take(related_ids@.len() as int) =~= related_ids@);
        let q = QueryBuilder::new(pivot_meta).where_eq(self.foreign_key.as_str(), pk);
        Ok((q, wanted))
    }
}

impl<R> Default for HasManyThrough<R> {
    /// Unconfigured: every name empty.
    fn default() -> (r: Self)
        ensures
            !r.configured(),
            r.cached is None,
            r.parent_pk is None,
    {
        proof {
            reveal_strlit("");
        }
        HasManyThrough::new("", "", "", "", "")
    }
}

/// The links `(parent key, related id)` of a pivot table holding `links` after
/// `attach` runs: its existence check finds the link, in which case
/// `attach_step` writes nothing, or the row `attach_step` writes adds it.
pub open spec fn links_after_attach(links: Set<(JsonValue, JsonValue)>, pk: JsonValue, id: JsonValue) -> Set<
    (JsonValue, JsonValue),
> {
    if links.contains((pk, id)) {
        links
    } else {
        links.insert((pk, id))
    }
}

/// Attaching is idempotent: after one attach the link is present, and a
/// second attach of the same id leaves the links as they were.
pub proof fn lemma_attach_is_idempotent(links: Set<(JsonValue, JsonValue)>, pk: JsonValue, id: JsonValue)
    ensures
        links_after_attach(links, pk, id).contains((pk, id)),
        links_after_attach(links_after_attach(links, pk, id), pk, id) == links_after_attach(links, pk, id),
{
}

/// Each id `sync` links has a JSON text of its own, and every id given has
/// the JSON text of one of them: the ids are linked once each.
pub proof fn lemma_sync_links_each_id_once(ids: Seq<JsonValue>)
    ensures
        forall|i: int, j: int|
            0 <= i < j < first_occurrences(ids).len() ==> json_text(#[trigger] first_occurrences(ids)[i]) != json_text(
                #[trigger] first_occurrences(ids)[j],
            ),
        forall|i: int|
            0 <= i < ids.len() ==> first_occurrences(ids).map_values(|v: JsonValue| json_text(v)).contains(
                json_text(#[trigger] ids[i]),
            ),
    decreases ids.len(),
{
    if ids.len() > 0 {
        let prev = ids.drop_last();
        lemma_sync_links_each_id_once(prev);
        let kept = first_occurrences(prev);
        let texts = kept.map_values(|v: JsonValue| json_text(v));
        let out = first_occurrences(ids);
        if texts.contains(json_text(ids.last())) {
            assert(out == kept);
            assert forall|i: int| 0 <= i < ids.len() implies out.map_values(|v: JsonValue| json_text(v)).contains(
                json_text(#[trigger] ids[i]),
            ) by {
                if i < ids.len() - 1 {
                    assert(ids[i] == prev[i]);
                }
            }
        } else {
            assert(out == kept.push(ids.last()));
            let out_texts = out.map_values(|v: JsonValue| json_text(v));
            assert(out_texts =~= texts.push(json_text(ids.last())));
            assert forall|i: int, j: int| 0 <= i < j < out.len() implies json_text(#[trigger] out[i]) != json_text(
                #[trigger] out[j],
            ) by {
                if j == out.len() - 1 {
                    assert(out[j] == ids.last());
                    assert(out[i] == kept[i]);
                    assert(texts[i] == json_text(kept[i]));
                } else {
                    assert(out[i] == kept[i] && out[j] == kept[j]);
                }
            }
            assert forall|i: int| 0 <= i < ids.len() implies out_texts.contains(json_text(#[trigger] ids[i])) by {
                if i < ids.len() - 1 {
                    assert(ids[i] == prev[i]);
                    let k = choose|k: int| 0 <= k < texts.len() && #[trigger] texts[k] == json_text(prev[i]);
                    assert(out_texts[k] == texts[k]);
                } else {
                    assert(out_texts[out_texts.len() - 1] == json_text(ids.last()));
                }
            }
        }
    }
}

} // verus!
