//! Self-referencing relations: rows of a table pointing at other rows of the
//! same table. `SelfRef` walks up one level, `SelfRefMany` down one level or,
//! with `load_tree`, down the whole subtree in one recursive query.
//!
//! Unlike the direct relations, loading here is cache-first: a cached value
//! answers without consulting the database.

use vstd::prelude::*;
use crate::builder::QueryBuilder;
use crate::dialect::DatabaseType;
use crate::direct::{carried_over, json_key_same, keyed_query, require_scalar_relation_key, same_key, scalar_message};
use crate::error::Error;
use crate::json::JsonValue;
use crate::model::ModelMeta;
use crate::relation_sql::{build_self_ref_tree_sql, preserve_cached_value, tree_query_outcome};
use crate::text::{push_str, string_of};

verus! {

/// How a cache-first load is answered.
#[derive(Debug)]
pub enum LoadStep {
    /// From the cache.
    Cached,
    /// With nothing: there is no key to look a row up by.
    Empty,
    /// By running the query.
    Query(QueryBuilder),
}

/// The message of a many-side load without a parent key.
pub open spec fn missing_parent_message() -> Seq<char> {
    "Parent primary key not set for self-reference"@
}

/// What looking the parent up answers: nothing without a key value or with a
/// JSON `null`, the scalar error for a composite key value, and otherwise the
/// query filtering `column` by it.
pub open spec fn parent_lookup(
    r: Result<Option<QueryBuilder>, Error>,
    meta: ModelMeta,
    column: Seq<char>,
    key: Option<JsonValue>,
    context: Seq<char>,
) -> bool {
    if key is None || key.unwrap() is Null {
        r == Ok::<Option<QueryBuilder>, Error>(None)
    } else if key.unwrap() is Composite {
        r matches Err(Error::InvalidQuery(m)) && m@ == scalar_message(context)
    } else {
        r matches Ok(Some(q)) && keyed_query(q, meta, column, key.unwrap())
    }
}

/// What looking the children up answers: the missing-parent error without a
/// key value, the scalar error for a composite one, and otherwise the query
/// filtering `column` by it.
pub open spec fn children_lookup(
    r: Result<QueryBuilder, Error>,
    meta: ModelMeta,
    column: Seq<char>,
    key: Option<JsonValue>,
    context: Seq<char>,
) -> bool {
    if key is None {
        r matches Err(Error::Query(m)) && m@ == missing_parent_message()
    } else if key.unwrap() is Composite {
        r matches Err(Error::InvalidQuery(m)) && m@ == scalar_message(context)
    } else {
        r matches Ok(q) && keyed_query(q, meta, column, key.unwrap())
    }
}

fn parent_query(meta: ModelMeta, column: &str, key: &Option<JsonValue>, context: &str) -> (r: Result<
    Option<QueryBuilder>,
    Error,
>)
    ensures
        parent_lookup(r, meta, column@, *key, context@),
{
    let v = match key {
        Some(v) => v,
        None => return Ok(None),
    };
    if v.is_null() {
        return Ok(None);
    }
    let v = match require_scalar_relation_key(v, context) {
        Err(e) => return Err(e),
        Ok(v) => v,
    };
    Ok(Some(QueryBuilder::new(meta).where_eq(column, v.duplicate())))
}

fn children_query(meta: ModelMeta, column: &str, key: &Option<JsonValue>, context: &str) -> (r: Result<
    QueryBuilder,
    Error,
>)
    ensures
        children_lookup(r, meta, column@, *key, context@),
{
    let v = match key {
        Some(v) => v,
        None => {
            let mut m: Vec<char> = Vec::new();
            push_str(&mut m, "Parent primary key not set for self-reference");
            return Err(Error::Query(string_of(&m)));
        },
    };
    let v = match require_scalar_relation_key(v, context) {
        Err(e) => return Err(e),
        Ok(v) => v,
    };
    Ok(QueryBuilder::new(meta).where_eq(column, v.duplicate()))
}

/// The parent row of a self-referencing model.
pub struct SelfRef<E> {
    /// Column holding the parent's key.
    pub foreign_key: String,
    /// Column the foreign key matches.
    pub local_key: String,
    /// The parent row a previous load cached.
    pub cached: Option<E>,
    /// This row's foreign-key value.
    pub fk_value: Option<JsonValue>,
}

impl<E> SelfRef<E> {
    /// The two wrappers describe the same relation instance.
    pub open spec fn same_relation(&self, other: &Self) -> bool {
        &&& self.foreign_key@ == other.foreign_key@
        &&& self.local_key@ == other.local_key@
        &&& same_key(self.fk_value, other.fk_value)
    }

    /// The relation with its key pair, nothing cached and no key value.
    pub fn new(foreign_key: &str, local_key: &str) -> (r: Self)
        ensures
            r.foreign_key@ == foreign_key@,
            r.local_key@ == local_key@,
            r.cached is None,
            r.fk_value is None,
    {
        SelfRef { foreign_key: foreign_key.to_owned(), local_key: local_key.to_owned(), cached: None, fk_value: None }
    }

    /// Supplies this row's foreign-key value.
    pub fn with_fk_value(self, fk: JsonValue) -> (r: Self)
        ensures
            r.fk_value == Some(fk),
            r.foreign_key == self.foreign_key,
            r.local_key == self.local_key,
            r.cached == self.cached,
    {
        let mut r = self;
        r.fk_value = Some(fk);
        r
    }

    /// Carries the cached parent over from the wrapper this one replaces (see
    /// `carried_over`).
    pub fn preserve_runtime_state_from(&mut self, previous: &Self)
        where E: Clone,
        ensures
            final(self).foreign_key == old(self).foreign_key,
            final(self).local_key == old(self).local_key,
            final(self).fk_value == old(self).fk_value,
            carried_over(old(self).cached, final(self).cached, previous.cached, previous.fk_value is None, old(self).same_relation(previous)),
    {
        let same = self.foreign_key == previous.foreign_key && self.local_key == previous.local_key
            && json_key_same(&self.fk_value, &previous.fk_value);
        preserve_cached_value(&mut self.cached, &previous.cached, previous.fk_value.is_none(), same);
    }

    /// The cached parent, if any. Never queries.
    pub fn get_cached(&self) -> (r: Option<&E>)
        ensures
            match r {
                Some(e) => self.cached == Some(*e),
                None => self.cached is None,
            },
    {
        match &self.cached {
            Some(e) => Some(e),
            None => None,
        }
    }

    /// How a load is answered: from the cache when it holds the parent;
    /// otherwise with nothing when there is no foreign-key value or it is
    /// `null`; otherwise by the query for the row whose `local_key` is the
    /// foreign-key value.
    pub fn load_step(&self, meta: ModelMeta) -> (r: Result<LoadStep, Error>)
        ensures
            self.cached is Some ==> r matches Ok(LoadStep::Cached),
            self.cached is None ==> match r {
                Ok(LoadStep::Cached) => false,
                Ok(LoadStep::Empty) => parent_lookup(Ok(None), meta, self.local_key@, self.fk_value, "SelfRef::load"@),
                Ok(LoadStep::Query(q)) => parent_lookup(Ok(Some(q)), meta, self.local_key@, self.fk_value, "SelfRef::load"@),
                Err(e) => parent_lookup(Err(e), meta, self.local_key@, self.fk_value, "SelfRef::load"@),
            },
    {
        if self.cached.is_some() {
            return Ok(LoadStep::Cached);
        }
        match parent_query(meta, self.local_key.as_str(), &self.fk_value, "SelfRef::load") {
            Ok(Some(q)) => Ok(LoadStep::Query(q)),
            Ok(None) => Ok(LoadStep::Empty),
            Err(e) => Err(e),
        }
    }

    /// The query `load_with` refines and `exists` runs, for the operation
    /// named `context`, or `None` when there is no parent to look up.
    pub fn relation_query(&self, meta: ModelMeta, context: &str) -> (r: Result<Option<QueryBuilder>, Error>)
        ensures
            parent_lookup(r, meta, self.local_key@, self.fk_value, context@),
    {
        parent_query(meta, self.local_key.as_str(), &self.fk_value, context)
    }
}

impl<E> Default for SelfRef<E> {
    /// Keyed by `parent_id` and `id`, with nothing cached.
    fn default() -> (r: Self)
        ensures
            r.foreign_key@ == "parent_id"@,
            r.local_key@ == "id"@,
            r.cached is None,
            r.fk_value is None,
    {
        SelfRef::new("parent_id", "id")
    }
}

/// The child rows of a self-referencing model.
pub struct SelfRefMany<E> {
    /// Column on the children holding this row's key.
    pub foreign_key: String,
    /// Column of this row the foreign key matches.
    pub local_key: String,
    /// The children a previous load cached.
    pub cached: Option<Vec<E>>,
    /// This row's key value.
    pub parent_pk: Option<JsonValue>,
}

impl<E> SelfRefMany<E> {
    /// The two wrappers describe the same relation instance.
    pub open spec fn same_relation(&self, other: &Self) -> bool {
        &&& self.foreign_key@ == other.foreign_key@
        &&& self.local_key@ == other.local_key@
        &&& same_key(self.parent_pk, other.parent_pk)
    }

    /// The relation with its key pair, nothing cached and no key value.
    pub fn new(foreign_key: &str, local_key: &str) -> (r: Self)
        ensures
            r.foreign_key@ == foreign_key@,
            r.local_key@ == local_key@,
            r.cached is None,
            r.parent_pk is None,
    {
        SelfRefMany {
            foreign_key: foreign_key.to_owned(),
            local_key: local_key.to_owned(),
            cached: None,
            parent_pk: None,
        }
    }

    /// Supplies this row's key value.
    pub fn with_parent_pk(self, pk: JsonValue) -> (r: Self)
        ensures
            r.parent_pk == Some(pk),
            r.foreign_key == self.foreign_key,
            r.local_key == self.local_key,
            r.cached == self.cached,
    {
        let mut r = self;
        r.parent_pk = Some(pk);
        r
    }

    /// Carries the cached children over from the wrapper this one replaces
    /// (see `carried_over`).
    pub fn preserve_runtime_state_from(&mut self, previous: &Self)
        where E: Clone,
        ensures
            final(self).foreign_key == old(self).foreign_key,
            final(self).local_key == old(self).local_key,
            final(self).parent_pk == old(self).parent_pk,
            carried_over(old(self).cached, final(self).cached, previous.cached, previous.parent_pk is None, old(self).same_relation(previous)),
    {
        let same = self.foreign_key == previous.foreign_key && self.local_key == previous.local_key
            && json_key_same(&self.parent_pk, &previous.parent_pk);
        preserve_cached_value(&mut self.cached, &previous.cached, previous.parent_pk.is_none(), same);
    }

    /// The cached children, if any. Never queries.
    pub fn get_cached(&self) -> (r: Option<&Vec<E>>)
        ensures
            match r {
                Some(v) => self.cached == Some(*v),
                None => self.cached is None,
            },
    {
        match &self.cached {
            Some(v) => Some(v),
            None => None,
        }
    }

    /// How a load is answered: from the cache when it holds the children;
    /// otherwise by the query for the rows whose `foreign_key` is this row's
    /// key, failing without a key value or with a composite one.
    pub fn load_step(&self, meta: ModelMeta) -> (r: Result<LoadStep, Error>)
        ensures
            self.cached is Some ==> r matches Ok(LoadStep::Cached),
            self.cached is None ==> match r {
                Ok(LoadStep::Query(q)) => children_lookup(Ok(q), meta, self.foreign_key@, self.parent_pk, "SelfRefMany::load"@),
                Ok(_) => false,
                Err(e) => children_lookup(Err(e), meta, self.foreign_key@, self.parent_pk, "SelfRefMany::load"@),
            },
    {
        if self.cached.is_some() {
            return Ok(LoadStep::Cached);
        }
        match children_query(meta, self.foreign_key.as_str(), &self.parent_pk, "SelfRefMany::load") {
            Ok(q) => Ok(LoadStep::Query(q)),
            Err(e) => Err(e),
        }
    }

    /// The query `load_with` refines and `count` and `exists` run, for the
    /// operation named `context`.
    pub fn relation_query(&self, meta: ModelMeta, context: &str) -> (r: Result<QueryBuilder, Error>)
        ensures
            children_lookup(r, meta, self.foreign_key@, self.parent_pk, context@),
    {
        children_query(meta, self.foreign_key.as_str(), &self.parent_pk, context)
    }

    /// The recursive query loading every descendant down to `max_depth`
    /// levels with its bound values, or `None` when `max_depth` is zero and
    /// the answer is empty. Fails without a key value, with a composite one,
    /// or as `build_self_ref_tree_sql` does.
    pub fn load_tree(&self, meta: &ModelMeta, max_depth: usize, db_type: DatabaseType) -> (r: Result<
        Option<(String, Vec<JsonValue>)>,
        Error,
    >)
        ensures
            max_depth == 0 ==> r == Ok::<Option<(String, Vec<JsonValue>)>, Error>(None),
            max_depth > 0 && self.parent_pk is None ==> (r matches Err(Error::Query(m)) && m@
                == missing_parent_message()),
            max_depth > 0 && self.parent_pk is Some && self.parent_pk.unwrap() is Composite ==> (r matches Err(
                Error::InvalidQuery(m),
            ) && m@ == scalar_message("SelfRefMany::load_tree"@)),
            max_depth > 0 && self.parent_pk is Some && !(self.parent_pk.unwrap() is Composite) ==> match r {
                Ok(Some(p)) => tree_query_outcome(*meta, self.foreign_key@, self.local_key@, self.parent_pk.unwrap(), max_depth, db_type, Ok(p)),
                Ok(None) => false,
                Err(e) => tree_query_outcome(*meta, self.foreign_key@, self.local_key@, self.parent_pk.unwrap(), max_depth, db_type, Err(e)),
            },
    {
        if max_depth == 0 {
            return Ok(None);
        }
        let pk = match &self.parent_pk {
            Some(v) => v,
            None => {
                let mut m: Vec<char> = Vec::new();
                push_str(&mut m, "Parent primary key not set for self-reference");
                return Err(Error::Query(string_of(&m)));
            },
        };
        let pk = match require_scalar_relation_key(pk, "SelfRefMany::load_tree") {
            Err(e) => return Err(e),
            Ok(v) => v,
        };
        match build_self_ref_tree_sql(
            meta,
            self.foreign_key.as_str(),
            self.local_key.as_str(),
            pk.duplicate(),
            max_depth,
            db_type,
        ) {
            Ok(p) => Ok(Some(p)),
            Err(e) => Err(e),
        }
    }
}

impl<E> Default for SelfRefMany<E> {
    /// Keyed by `parent_id` and `id`, with nothing cached.
    fn default() -> (r: Self)
        ensures
            r.foreign_key@ == "parent_id"@,
            r.local_key@ == "id"@,
            r.cached is None,
            r.parent_pk is None,
    {
        SelfRefMany::new("parent_id", "id")
    }
}

} // verus!
