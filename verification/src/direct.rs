//! The relations whose foreign key sits on one side of the pair: `HasOne`,
//! `HasMany` and `BelongsTo`.
//!
//! Each wrapper holds its key pair, the key value it is looked up by and what
//! an eager load cached. The library decides which query a load runs, or
//! whether the cache answers it; running the query is left to the caller.

use vstd::prelude::*;
use crate::builder::QueryBuilder;
use crate::condition::{ConditionValue, Operator};
use crate::error::Error;
use crate::json::JsonValue;
use crate::model::ModelMeta;
use crate::relation_sql::{ensure_relation_configured, preserve_cached_value, unconfigured_message};
use crate::text::{chars_of, push_str, string_of};

verus! {

/// Two JSON values are the same value.
pub open spec fn same_json(a: JsonValue, b: JsonValue) -> bool {
    match (a, b) {
        (JsonValue::Str(x), JsonValue::Str(y)) => x@ == y@,
        (JsonValue::Composite(x), JsonValue::Composite(y)) => x@ == y@,
        (JsonValue::Str(_), _) => false,
        (JsonValue::Composite(_), _) => false,
        _ => a == b,
    }
}

/// Two optional key values are the same.
pub open spec fn same_key(a: Option<JsonValue>, b: Option<JsonValue>) -> bool {
    match (a, b) {
        (Some(x), Some(y)) => same_json(x, y),
        (None, None) => true,
        _ => false,
    }
}

/// Whether `a` and `b` are the same JSON value.
pub fn json_same(a: &JsonValue, b: &JsonValue) -> (r: bool)
    ensures
        r == same_json(*a, *b),
{
    match (a, b) {
        (JsonValue::Null, JsonValue::Null) => true,
        (JsonValue::Bool(x), JsonValue::Bool(y)) => *x == *y,
        (JsonValue::Int(x), JsonValue::Int(y)) => *x == *y,
        (JsonValue::UInt(x), JsonValue::UInt(y)) => *x == *y,
        (JsonValue::Str(x), JsonValue::Str(y)) => x.eq(y),
        (JsonValue::Composite(x), JsonValue::Composite(y)) => x.eq(y),
        _ => false,
    }
}

/// Whether `a` and `b` are the same optional key value.
pub fn json_key_same(a: &Option<JsonValue>, b: &Option<JsonValue>) -> (r: bool)
    ensures
        r == same_key(*a, *b),
{
    match (a, b) {
        (Some(x), Some(y)) => json_same(x, y),
        (None, None) => true,
        _ => false,
    }
}

/// The message for a key value that is an array or an object.
pub open spec fn scalar_message(context: Seq<char>) -> Seq<char> {
    context
        + " only supports scalar relation keys; composite primary keys require an explicit single-column relation key or a custom query"@
}

/// Rejects a relation key that is an array or an object, which a single-column
/// filter cannot express.
pub fn require_scalar_relation_key<'a>(value: &'a JsonValue, context: &str) -> (r: Result<&'a JsonValue, Error>)
    ensures
        value is Composite ==> (r matches Err(Error::InvalidQuery(m)) && m@ == scalar_message(context@)),
        !(value is Composite) ==> r == Ok::<&JsonValue, Error>(value),
{
    match value {
        JsonValue::Composite(_) => {
            let mut m: Vec<char> = Vec::new();
            push_str(&mut m, context);
            push_str(
                &mut m,
                " only supports scalar relation keys; composite primary keys require an explicit single-column relation key or a custom query",
            );
            Err(Error::InvalidQuery(string_of(&m)))
        },
        _ => Ok(value),
    }
}

/// Everything of `q` but its model and its WHERE conditions is as a new
/// query leaves it.
pub open spec fn otherwise_fresh(q: QueryBuilder) -> bool {
    &&& q.database is None
    &&& q.ambient_backend is None
    &&& q.or_groups@.len() == 0
    &&& q.order_by@.len() == 0
    &&& q.limit_value is None
    &&& q.offset_value is None
    &&& q.select_columns is None
    &&& q.raw_select_expressions@.len() == 0
    &&& q.subquery_select_expressions@.len() == 0
    &&& q.group_by@.len() == 0
    &&& q.having_conditions@.len() == 0
    &&& q.having_bindings@.len() == 0
    &&& q.joins@.len() == 0
    &&& q.unions@.len() == 0
    &&& q.window_functions@.len() == 0
    &&& q.ctes@.len() == 0
    &&& q.cache_options is None
    &&& q.cache_key is None
    &&& q.invalid_query_reason is None
    &&& !q.include_trashed
    &&& !q.only_trashed
}

/// `q` is the query over `meta` with the one filter `column = value`.
pub open spec fn keyed_query(q: QueryBuilder, meta: ModelMeta, column: Seq<char>, value: JsonValue) -> bool {
    &&& q.meta == meta
    &&& q.conditions@.len() == 1
    &&& q.conditions@[0].column@ == column
    &&& q.conditions@[0].operator == Operator::Eq
    &&& q.conditions@[0].value == ConditionValue::Single(value)
    &&& otherwise_fresh(q)
}

/// What looking a relation up answers: the unconfigured error when a key
/// name is empty, the `missing` error without a key value, the scalar error
/// for a composite key value, and otherwise the query filtering `column` by
/// the key value.
pub open spec fn looked_up(
    r: Result<QueryBuilder, Error>,
    meta: ModelMeta,
    relation: Seq<char>,
    configured: bool,
    column: Seq<char>,
    key: Option<JsonValue>,
    missing: Seq<char>,
    context: Seq<char>,
) -> bool {
    if !configured {
        r matches Err(Error::Query(m)) && m@ == unconfigured_message(relation)
    } else if key is None {
        r matches Err(Error::Query(m)) && m@ == missing
    } else if key.unwrap() is Composite {
        r matches Err(Error::InvalidQuery(m)) && m@ == scalar_message(context)
    } else {
        r matches Ok(q) && keyed_query(q, meta, column, key.unwrap())
    }
}

/// `looked_up`, for a load that may also be answered from the cache
/// (`Ok(None)`).
pub open spec fn planned(
    r: Result<Option<QueryBuilder>, Error>,
    meta: ModelMeta,
    relation: Seq<char>,
    configured: bool,
    column: Seq<char>,
    key: Option<JsonValue>,
    missing: Seq<char>,
    context: Seq<char>,
) -> bool {
    match r {
        Ok(Some(q)) => looked_up(Ok(q), meta, relation, configured, column, key, missing, context),
        Ok(None) => false,
        Err(e) => looked_up(Err(e), meta, relation, configured, column, key, missing, context),
    }
}

/// Looks a relation up (see `looked_up`).
fn lookup(
    meta: ModelMeta,
    relation: &str,
    first_key: &str,
    second_key: &str,
    column: &str,
    key: &Option<JsonValue>,
    missing: &str,
    context: &str,
) -> (r: Result<QueryBuilder, Error>)
    ensures
        looked_up(r, meta, relation@, first_key@.len() > 0 && second_key@.len() > 0, column@, *key, missing@, context@),
{
    let names: Vec<&str> = vec![first_key, second_key];
    match ensure_relation_configured(relation, names.as_slice()) {
        Err(e) => {
            proof {
                if first_key@.len() > 0 && second_key@.len() > 0 {
                    assert forall|i: int| 0 <= i < names@.len() implies (#[trigger] names@[i])@.len() > 0 by {
                        if i == 0 {
                        } else {
                        }
                    }
                }
            }
            return Err(e);
        },
        Ok(()) => {},
    }
    assert(names@[0]@.len() > 0 && names@[1]@.len() > 0);
    let value = match key {
        None => {
            let mut m: Vec<char> = Vec::new();
            push_str(&mut m, missing);
            return Err(Error::Query(string_of(&m)));
        },
        Some(v) => v,
    };
    let value = match require_scalar_relation_key(value, context) {
        Err(e) => return Err(e),
        Ok(v) => v,
    };
    let q = QueryBuilder::new(meta).where_eq(column, value.duplicate());
    Ok(q)
}

/// What carrying a cache over leaves: a copy of the previous cache when the
/// previous wrapper had no key value and a cached value, or described the same
/// relation; the current cache otherwise.
pub open spec fn carried_over<C: Clone>(current: Option<C>, result: Option<C>, previous: Option<C>, previous_without_key: bool, same: bool) -> bool {
    if (previous_without_key && previous is Some) || same {
        &&& result.is_some() == previous.is_some()
        &&& previous is Some ==> cloned::<C>(previous.unwrap(), result.unwrap())
    } else {
        result == current
    }
}

/// A one-to-one relation: at most one row of the related model carries a
/// foreign key pointing back at this model.
pub struct HasOne<E> {
    /// Column on the related table holding this model's key.
    pub foreign_key: String,
    /// Column on this model whose value the foreign key matches.
    pub local_key: String,
    /// The related row an eager load cached.
    pub cached: Option<E>,
    /// Whether the cache was filled (possibly with nothing).
    pub loaded: bool,
    /// This model's key value the relation is looked up by.
    pub parent_pk: Option<JsonValue>,
}

impl<E> HasOne<E> {
    /// Whether both key names are set.
    pub open spec fn configured(&self) -> bool {
        self.foreign_key@.len() > 0 && self.local_key@.len() > 0
    }

    /// The relation with its key pair, nothing cached and no key value.
    pub fn new(foreign_key: &str, local_key: &str) -> (r: Self)
        ensures
            r.foreign_key@ == foreign_key@,
            r.local_key@ == local_key@,
            r.cached is None,
            !r.loaded,
            r.parent_pk is None,
    {
        HasOne {
            foreign_key: foreign_key.to_owned(),
            local_key: local_key.to_owned(),
            cached: None,
            loaded: false,
            parent_pk: None,
        }
    }

    /// Supplies this model's key value.
    pub fn with_parent_pk(self, pk: JsonValue) -> (r: Self)
        ensures
            r.parent_pk == Some(pk),
            r.foreign_key == self.foreign_key,
            r.local_key == self.local_key,
            r.cached == self.cached,
            r.loaded == self.loaded,
    {
        let mut r = self;
        r.parent_pk = Some(pk);
        r
    }

    /// Fills the cache (an eager load's result).
    pub fn set_cached(&mut self, model: Option<E>)
        ensures
            final(self).cached == model,
            final(self).loaded,
            final(self).foreign_key == old(self).foreign_key,
            final(self).local_key == old(self).local_key,
            final(self).parent_pk == old(self).parent_pk,
    {
        self.cached = model;
        self.loaded = true;
    }

    /// Whether the cache was filled.
    pub fn is_loaded(&self) -> (b: bool)
        ensures
            b == self.loaded,
    {
        self.loaded
    }

    /// Drops the cached row and records the relation as loaded and empty.
    pub fn clear(&mut self)
        ensures
            final(self).cached is None,
            final(self).loaded,
            final(self).foreign_key == old(self).foreign_key,
            final(self).local_key == old(self).local_key,
            final(self).parent_pk == old(self).parent_pk,
    {
        self.cached = None;
        self.loaded = true;
    }

    /// The cached row, if any. Never queries.
    pub fn get_cached(&self) -> (r: Option<&E>)
        ensures
            match r {
                Some(e) => self.cached == Some(*e),
                None => self.cached is None,
            },
    {
        match &self.cached {
            Some(e) => Some(e),
            None => None,
        }
    }

    /// The two wrappers describe the same relation instance: same key pair
    /// and same key value.
    pub open spec fn same_relation(&self, other: &Self) -> bool {
        &&& self.foreign_key@ == other.foreign_key@
        &&& self.local_key@ == other.local_key@
        &&& same_key(self.parent_pk, other.parent_pk)
    }

    /// Carries state over from the wrapper this one replaces: the cached row
    /// when the previous wrapper had no key value but a cached row, or
    /// described the same relation; and the loaded flag, when this one is not
    /// loaded, in the same cases.
    pub fn preserve_runtime_state_from(&mut self, previous: &Self)
        where E: Clone,
        ensures
            final(self).foreign_key == old(self).foreign_key,
            final(self).local_key == old(self).local_key,
            final(self).parent_pk == old(self).parent_pk,
            carried_over(old(self).cached, final(self).cached, previous.cached, previous.parent_pk is None, old(self).same_relation(previous)),
            final(self).loaded == (old(self).loaded || ((previous.parent_pk is None || old(self).same_relation(previous)) && previous.loaded)),
    {
        let same = self.foreign_key == previous.foreign_key && self.local_key == previous.local_key && json_key_same(
            &self.parent_pk,
            &previous.parent_pk,
        );
        let no_key = previous.parent_pk.is_none();
        preserve_cached_value(&mut self.cached, &previous.cached, no_key, same);
        if no_key && !self.loaded {
            self.loaded = previous.loaded;
        }
        if same && !self.loaded {
            self.loaded = previous.loaded;
        }
    }

    /// The query a load runs, or `Ok(None)` when the cache answers it. With a
    /// reachable connection (`can_query`) a configured relation with a key
    /// value always queries; otherwise a filled cache answers, and failing
    /// that the relation is looked up and may fail.
    pub fn load_query(&self, meta: ModelMeta, can_query: bool) -> (r: Result<Option<QueryBuilder>, Error>)
        ensures
            if can_query && self.configured() && self.parent_pk is Some {
                planned(r, meta, "HasOne"@, true, self.foreign_key@, self.parent_pk, "Parent primary key not set for relation"@, "HasOne::load"@)
            } else if self.loaded {
                r == Ok::<Option<QueryBuilder>, Error>(None)
            } else {
                planned(r, meta, "HasOne"@, self.configured(), self.foreign_key@, self.parent_pk, "Parent primary key not set for relation"@, "HasOne::load"@)
            },
    {
        let configured = chars_of(self.foreign_key.as_str()).len() > 0 && chars_of(self.local_key.as_str()).len() > 0;
        if !(can_query && configured && self.parent_pk.is_some()) && self.loaded {
            return Ok(None);
        }
        match lookup(
            meta,
            "HasOne",
            self.foreign_key.as_str(),
            self.local_key.as_str(),
            self.foreign_key.as_str(),
            &self.parent_pk,
            "Parent primary key not set for relation",
            "HasOne::load",
        ) {
            Ok(q) => Ok(Some(q)),
            Err(e) => Err(e),
        }
    }

    /// The query `load_with` refines and `exists` runs, for the operation
    /// named `context` (`HasOne::load_with`, `HasOne::exists`).
    pub fn relation_query(&self, meta: ModelMeta, context: &str) -> (r: Result<QueryBuilder, Error>)
        ensures
            looked_up(r, meta, "HasOne"@, self.configured(), self.foreign_key@, self.parent_pk, "Parent primary key not set for relation"@, context@),
    {
        lookup(
            meta,
            "HasOne",
            self.foreign_key.as_str(),
            self.local_key.as_str(),
            self.foreign_key.as_str(),
            &self.parent_pk,
            "Parent primary key not set for relation",
            context,
        )
    }
}

/// A one-to-many relation: any number of rows of the related model carry a
/// foreign key pointing back at this model.
pub struct HasMany<E> {
    /// Column on the related table holding this model's key.
    pub foreign_key: String,
    /// Column on this model whose value the foreign key matches.
    pub local_key: String,
    /// The related rows an eager load cached.
    pub cached: Option<Vec<E>>,
    /// This model's key value the relation is looked up by.
    pub parent_pk: Option<JsonValue>,
}

impl<E> HasMany<E> {
    /// Whether both key names are set.
    pub open spec fn configured(&self) -> bool {
        self.foreign_key@.len() > 0 && self.local_key@.len() > 0
    }

    /// The two wrappers describe the same relation instance.
    pub open spec fn same_relation(&self, other: &Self) -> bool {
        &&& self.foreign_key@ == other.foreign_key@
        &&& self.local_key@ == other.local_key@
        &&& same_key(self.parent_pk, other.parent_pk)
    }

    /// The relation with its key pair, nothing cached and no key value.
    pub fn new(foreign_key: &str, local_key: &str) -> (r: Self)
        ensures
            r.foreign_key@ == foreign_key@,
            r.local_key@ == local_key@,
            r.cached is None,
            r.parent_pk is None,
    {
        HasMany { foreign_key: foreign_key.to_owned(), local_key: local_key.to_owned(), cached: None, parent_pk: None }
    }

    /// Supplies this model's key value.
    pub fn with_parent_pk(self, pk: JsonValue) -> (r: Self)
        ensures
            r.parent_pk == Some(pk),
            r.foreign_key == self.foreign_key,
            r.local_key == self.local_key,
            r.cached == self.cached,
    {
        let mut r = self;
        r.parent_pk = Some(pk);
        r
    }

    /// Fills the cache (an eager load's result).
    pub fn set_cached(&mut self, models: Vec<E>)
        ensures
            final(self).cached == Some(models),
            final(self).foreign_key == old(self).foreign_key,
            final(self).local_key == old(self).local_key,
            final(self).parent_pk == old(self).parent_pk,
    {
        self.cached = Some(models);
    }

    /// Carries the cached rows over from the wrapper this one replaces (see
    /// `carried_over`).
    pub fn preserve_runtime_state_from(&mut self, previous: &Self)
        where E: Clone,
        ensures
            final(self).foreign_key == old(self).foreign_key,
            final(self).local_key == old(self).local_key,
            final(self).parent_pk == old(self).parent_pk,
            carried_over(old(self).cached, final(self).cached, previous.cached, previous.parent_pk is None, old(self).same_relation(previous)),
    {
        let same = self.foreign_key == previous.foreign_key && self.local_key == previous.local_key && json_key_same(
            &self.parent_pk,
            &previous.parent_pk,
        );
        preserve_cached_value(&mut self.cached, &previous.cached, previous.parent_pk.is_none(), same);
    }

    /// The cached rows, if the relation was populated. Never queries.
    pub fn get_cached(&self) -> (r: Option<&Vec<E>>)
        ensures
            match r {
                Some(v) => self.cached == Some(*v),
                None => self.cached is None,
            },
    {
        match &self.cached {
            Some(v) => Some(v),
            None => None,
        }
    }

    /// The query a load runs, or `Ok(None)` when the cached rows answer it.
    /// With a reachable connection a configured relation with a key value
    /// always queries; otherwise cached rows answer, and failing that the
    /// relation is looked up and may fail.
    pub fn load_query(&self, meta: ModelMeta, can_query: bool) -> (r: Result<Option<QueryBuilder>, Error>)
        ensures
            if can_query && self.configured() && self.parent_pk is Some {
                planned(r, meta, "HasMany"@, true, self.foreign_key@, self.parent_pk, "Parent primary key not set for relation"@, "HasMany::load"@)
            } else if self.cached is Some {
                r == Ok::<Option<QueryBuilder>, Error>(None)
            } else {
                planned(r, meta, "HasMany"@, self.configured(), self.foreign_key@, self.parent_pk, "Parent primary key not set for relation"@, "HasMany::load"@)
            },
    {
        let configured = chars_of(self.foreign_key.as_str()).len() > 0 && chars_of(self.local_key.as_str()).len() > 0;
        if !(can_query && configured && self.parent_pk.is_some()) && self.cached.is_some() {
            return Ok(None);
        }
        match lookup(
            meta,
            "HasMany",
            self.foreign_key.as_str(),
            self.local_key.as_str(),
            self.foreign_key.as_str(),
            &self.parent_pk,
            "Parent primary key not set for relation",
            "HasMany::load",
        ) {
            Ok(q) => Ok(Some(q)),
            Err(e) => Err(e),
        }
    }

    /// The query `load_with` refines and `count` and `exists` run, for the
    /// operation named `context`.
    pub fn relation_query(&self, meta: ModelMeta, context: &str) -> (r: Result<QueryBuilder, Error>)
        ensures
            looked_up(r, meta, "HasMany"@, self.configured(), self.foreign_key@, self.parent_pk, "Parent primary key not set for relation"@, context@),
    {
        lookup(
            meta,
            "HasMany",
            self.foreign_key.as_str(),
            self.local_key.as_str(),
            self.foreign_key.as_str(),
            &self.parent_pk,
            "Parent primary key not set for relation",
            context,
        )
    }
}

/// The inverse side of `HasOne` and `HasMany`: this model's foreign key
/// points at one row of the owning model.
pub struct BelongsTo<E> {
    /// Column on this model holding the owner's key.
    pub foreign_key: String,
    /// Column on the owning table the foreign key matches.
    pub owner_key: String,
    /// The owning row an eager load cached.
    pub cached: Option<E>,
    /// Whether the cache was filled (possibly with nothing).
    pub loaded: bool,
    /// This model's foreign-key value the owner is looked up by.
    pub fk_value: Option<JsonValue>,
}

impl<E> BelongsTo<E> {
    /// Whether both key names are set.
    pub open spec fn configured(&self) -> bool {
        self.foreign_key@.len() > 0 && self.owner_key@.len() > 0
    }

    /// The two wrappers describe the same relation instance.
    pub open spec fn same_relation(&self, other: &Self) -> bool {
        &&& self.foreign_key@ == other.foreign_key@
        &&& self.owner_key@ == other.owner_key@
        &&& same_key(self.fk_value, other.fk_value)
    }

    /// The relation with its key pair, nothing cached and no key value.
    pub fn new(foreign_key: &str, owner_key: &str) -> (r: Self)
        ensures
            r.foreign_key@ == foreign_key@,
            r.owner_key@ == owner_key@,
            r.cached is None,
            !r.loaded,
            r.fk_value is None,
    {
        BelongsTo {
            foreign_key: foreign_key.to_owned(),
            owner_key: owner_key.to_owned(),
            cached: None,
            loaded: false,
            fk_value: None,
        }
    }

    /// Supplies this model's foreign-key value. A JSON `null` is kept: it
    /// filters by `owner_key IS NULL`, which matches no owner.
    pub fn with_fk_value(self, fk: JsonValue) -> (r: Self)
        ensures
            r.fk_value == Some(fk),
            r.foreign_key == self.foreign_key,
            r.owner_key == self.owner_key,
            r.cached == self.cached,
            r.loaded == self.loaded,
    {
        let mut r = self;
        r.fk_value = Some(fk);
        r
    }

    /// Fills the cache (an eager load's result).
    pub fn set_cached(&mut self, model: Option<E>)
        ensures
            final(self).cached == model,
            final(self).loaded,
            final(self).foreign_key == old(self).foreign_key,
            final(self).owner_key == old(self).owner_key,
            final(self).fk_value == old(self).fk_value,
    {
        self.cached = model;
        self.loaded = true;
    }

    /// Carries state over from the wrapper this one replaces, as
    /// `HasOne::preserve_runtime_state_from` does.
    pub fn preserve_runtime_state_from(&mut self, previous: &Self)
        where E: Clone,
        ensures
            final(self).foreign_key == old(self).foreign_key,
            final(self).owner_key == old(self).owner_key,
            final(self).fk_value == old(self).fk_value,
            carried_over(old(self).cached, final(self).cached, previous.cached, previous.fk_value is None, old(self).same_relation(previous)),
            final(self).loaded == (old(self).loaded || ((previous.fk_value is None || old(self).same_relation(previous)) && previous.loaded)),
    {
        let same = self.foreign_key == previous.foreign_key && self.owner_key == previous.owner_key && json_key_same(
            &self.fk_value,
            &previous.fk_value,
        );
        let no_key = previous.fk_value.is_none();
        preserve_cached_value(&mut self.cached, &previous.cached, no_key, same);
        if no_key && !self.loaded {
            self.loaded = previous.loaded;
        }
        if same && !self.loaded {
            self.loaded = previous.loaded;
        }
    }

    /// Whether the cache was filled.
    pub fn is_loaded(&self) -> (b: bool)
        ensures
            b == self.loaded,
    {
        self.loaded
    }

    /// The cached owner, if any. Never queries.
    pub fn get_cached(&self) -> (r: Option<&E>)
        ensures
            match r {
                Some(e) => self.cached == Some(*e),
                None => self.cached is None,
            },
    {
        match &self.cached {
            Some(e) => Some(e),
            None => None,
        }
    }

    /// The query a load runs, or `Ok(None)` when the cache answers it: with a
    /// reachable connection a configured relation with a key value always
    /// queries the owner by `owner_key`; otherwise a filled cache answers, and
    /// failing that the owner is looked up and may fail.
    pub fn load_query(&self, meta: ModelMeta, can_query: bool) -> (r: Result<Option<QueryBuilder>, Error>)
        ensures
            if can_query && self.configured() && self.fk_value is Some {
                planned(r, meta, "BelongsTo"@, true, self.owner_key@, self.fk_value, "Foreign key value not set for relation"@, "BelongsTo::load"@)
            } else if self.loaded {
                r == Ok::<Option<QueryBuilder>, Error>(None)
            } else {
                planned(r, meta, "BelongsTo"@, self.configured(), self.owner_key@, self.fk_value, "Foreign key value not set for relation"@, "BelongsTo::load"@)
            },
    {
        let configured = chars_of(self.foreign_key.as_str()).len() > 0 && chars_of(self.owner_key.as_str()).len() > 0;
        if !(can_query && configured && self.fk_value.is_some()) && self.loaded {
            return Ok(None);
        }
        match lookup(
            meta,
            "BelongsTo",
            self.foreign_key.as_str(),
            self.owner_key.as_str(),
            self.owner_key.as_str(),
            &self.fk_value,
            "Foreign key value not set for relation",
            "BelongsTo::load",
        ) {
            Ok(q) => Ok(Some(q)),
            Err(e) => Err(e),
        }
    }

    /// The query `load_with` refines and `exists` runs, for the operation
    /// named `context`.
    pub fn relation_query(&self, meta: ModelMeta, context: &str) -> (r: Result<QueryBuilder, Error>)
        ensures
            looked_up(r, meta, "BelongsTo"@, self.configured(), self.owner_key@, self.fk_value, "Foreign key value not set for relation"@, context@),
    {
        lookup(
            meta,
            "BelongsTo",
            self.foreign_key.as_str(),
            self.owner_key.as_str(),
            self.owner_key.as_str(),
            &self.fk_value,
            "Foreign key value not set for relation",
            context,
        )
    }
}

} // verus!
