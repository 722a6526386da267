//! Polymorphic relations: a link held as a `(type, id)` column pair, the type
//! column holding the owner's table name. `MorphOne` and `MorphMany` are the
//! owning side; `MorphTo` is the side that carries the two columns.
//!
//! Loading here is cache-first: a cached value answers without consulting the
//! database.

use vstd::prelude::*;
use crate::builder::QueryBuilder;
use crate::condition::{ConditionValue, Operator};
use crate::direct::{carried_over, json_key_same, keyed_query, otherwise_fresh, require_scalar_relation_key, same_key, scalar_message};
use crate::error::Error;
use crate::json::JsonValue;
use crate::model::ModelMeta;
use crate::relation_sql::{ensure_relation_configured, preserve_cached_value, primary_key_name, unconfigured_message};
use crate::self_ref::LoadStep;
use crate::text::{chars_eq, chars_of, push_str, string_of};

verus! {

/// The message of a `MorphTo` whose type column holds nothing.
pub open spec fn no_type_message(type_column: Seq<char>) -> Seq<char> {
    "MorphTo column '"@ + type_column + "' holds no type value; rebuild the model through TideORM"@
}

/// The message of a `MorphTo` whose type names another table.
pub open spec fn wrong_type_message(type_value: Seq<char>, table: Seq<char>) -> Seq<char> {
    "MorphTo target type '"@ + type_value + "' is not '"@ + table + "'; use load_as::<T>() for heterogeneous owners"@
}

/// `q` is the query over `meta` with the two filters `<morph>_type = table`
/// and `<morph>_id = pk`.
pub open spec fn morph_query(q: QueryBuilder, meta: ModelMeta, morph: Seq<char>, table: Seq<char>, pk: JsonValue) -> bool {
    &&& q.meta == meta
    &&& q.conditions@.len() == 2
    &&& q.conditions@[0].column@ == morph + "_type"@
    &&& q.conditions@[0].operator == Operator::Eq
    &&& (q.conditions@[0].value matches ConditionValue::Single(JsonValue::Str(s)) && s@ == table)
    &&& q.conditions@[1].column@ == morph + "_id"@
    &&& q.conditions@[1].operator == Operator::Eq
    &&& q.conditions@[1].value == ConditionValue::Single(pk)
    &&& otherwise_fresh(q)
}

/// What looking the owned side up answers: the unconfigured error when a
/// name is empty, then the missing-key error, the scalar error, the
/// missing-table error, and otherwise the morph query.
pub open spec fn morph_lookup(
    r: Result<QueryBuilder, Error>,
    meta: ModelMeta,
    relation: Seq<char>,
    configured: bool,
    morph: Seq<char>,
    pk: Option<JsonValue>,
    table: Option<String>,
    context: Seq<char>,
) -> bool {
    if !configured {
        r matches Err(Error::Query(m)) && m@ == unconfigured_message(relation)
    } else if pk is None {
        r matches Err(Error::Query(m)) && m@ == "Parent primary key not set for relation"@
    } else if pk.unwrap() is Composite {
        r matches Err(Error::InvalidQuery(m)) && m@ == scalar_message(context)
    } else if table is None {
        r matches Err(Error::Query(m)) && m@ == "Parent table not set for relation"@
    } else {
        r matches Ok(q) && morph_query(q, meta, morph, table.unwrap()@, pk.unwrap())
    }
}

fn morph_lookup_query(
    meta: ModelMeta,
    relation: &str,
    morph_name: &str,
    local_key: &str,
    pk: &Option<JsonValue>,
    table: &Option<String>,
    context: &str,
) -> (r: Result<QueryBuilder, Error>)
    ensures
        morph_lookup(r, meta, relation@, morph_name@.len() > 0 && local_key@.len() > 0, morph_name@, *pk, *table, context@),
{
    let names: Vec<&str> = vec![morph_name, local_key];
    match ensure_relation_configured(relation, names.as_slice()) {
        Err(e) => {
            proof {
                if morph_name@.len() > 0 && local_key@.len() > 0 {
                    assert forall|i: int| 0 <= i < names@.len() implies (#[trigger] names@[i])@.len() > 0 by {}
                }
            }
            return Err(e);
        },
        Ok(()) => {},
    }
    assert(names@[0]@.len() > 0 && names@[1]@.len() > 0);
    let pk = match pk {
        Some(v) => v,
        None => {
            let mut m: Vec<char> = Vec::new();
            push_str(&mut m, "Parent primary key not set for relation");
            return Err(Error::Query(string_of(&m)));
        },
    };
    let pk = match require_scalar_relation_key(pk, context) {
        Err(e) => return Err(e),
        Ok(v) => v,
    };
    let table = match table {
        Some(t) => t,
        None => {
            let mut m: Vec<char> = Vec::new();
            push_str(&mut m, "Parent table not set for relation");
            return Err(Error::Query(string_of(&m)));
        },
    };
    let mut type_column: Vec<char> = Vec::new();
    push_str(&mut type_column, morph_name);
    push_str(&mut type_column, "_type");
    let mut id_column: Vec<char> = Vec::new();
    push_str(&mut id_column, morph_name);
    push_str(&mut id_column, "_id");
    let tc = string_of(&type_column);
    let ic = string_of(&id_column);
    let q = QueryBuilder::new(meta).where_eq(tc.as_str(), JsonValue::Str(table.clone())).where_eq(
        ic.as_str(),
        pk.duplicate(),
    );
    Ok(q)
}

/// The side of a polymorphic link that carries the `(type, id)` columns.
pub struct MorphTo<M> {
    /// The column holding the owner's table name.
    pub type_column: String,
    /// The column holding the owner's key.
    pub id_column: String,
    /// The owner's table name.
    pub type_value: Option<String>,
    /// The owner's key.
    pub id_value: Option<JsonValue>,
    /// The owner a previous load cached.
    pub cached: Option<M>,
}

impl<M> MorphTo<M> {
    /// Whether both column names are set.
    pub open spec fn configured(&self) -> bool {
        self.type_column@.len() > 0 && self.id_column@.len() > 0
    }

    /// The link with its column pair, no values and nothing cached.
    pub fn new(type_column: &str, id_column: &str) -> (r: Self)
        ensures
            r.type_column@ == type_column@,
            r.id_column@ == id_column@,
            r.type_value is None,
            r.id_value is None,
            r.cached is None,
    {
        MorphTo {
            type_column: type_column.to_owned(),
            id_column: id_column.to_owned(),
            type_value: None,
            id_value: None,
            cached: None,
        }
    }

    /// Supplies the owner's table name and key.
    pub fn with_values(self, type_value: String, id_value: JsonValue) -> (r: Self)
        ensures
            r.type_value == Some(type_value),
            r.id_value == Some(id_value),
            r.type_column == self.type_column,
            r.id_column == self.id_column,
            r.cached == self.cached,
    {
        let mut r = self;
        r.type_value = Some(type_value);
        r.id_value = Some(id_value);
        r
    }

    /// The owner's table name, if set.
    pub fn type_value(&self) -> (r: Option<&str>)
        ensures
            match r {
                Some(s) => self.type_value is Some && s@ == self.type_value.unwrap()@,
                None => self.type_value is None,
            },
    {
        match &self.type_value {
            Some(t) => Some(t.as_str()),
            None => None,
        }
    }

    /// The owner's key, if set.
    pub fn id_value(&self) -> (r: Option<&JsonValue>)
        ensures
            match r {
                Some(v) => self.id_value == Some(*v),
                None => self.id_value is None,
            },
    {
        match &self.id_value {
            Some(v) => Some(v),
            None => None,
        }
    }

    /// Whether the owner lives in `table`.
    pub fn is_type(&self, table: &str) -> (b: bool)
        ensures
            b == (self.type_value is Some && self.type_value.unwrap()@ == table@),
    {
        match &self.type_value {
            Some(t) => {
                let a = chars_of(t.as_str());
                let b = chars_of(table);
                chars_eq(&a, &b)
            },
            None => false,
        }
    }

    /// The cached owner, if any. Never queries.
    pub fn get_cached(&self) -> (r: Option<&M>)
        ensures
            match r {
                Some(e) => self.cached == Some(*e),
                None => self.cached is None,
            },
    {
        match &self.cached {
            Some(e) => Some(e),
            None => None,
        }
    }

    /// Fills the cache.
    pub fn set_cached(&mut self, model: Option<M>)
        ensures
            final(self).cached == model,
            final(self).type_column == old(self).type_column,
            final(self).id_column == old(self).id_column,
            final(self).type_value == old(self).type_value,
            final(self).id_value == old(self).id_value,
    {
        self.cached = model;
    }

    /// Carries state over from the wrapper this one replaces: with the same
    /// column pair, the previous type and key values and its cached owner;
    /// with neither value set before, the previous cached owner when there
    /// was one.
    pub fn preserve_runtime_state_from(&mut self, previous: &Self)
        where M: Clone,
        ensures
            final(self).type_column == old(self).type_column,
            final(self).id_column == old(self).id_column,
            (old(self).type_column@ == previous.type_column@ && old(self).id_column@ == previous.id_column@) ==> {
                &&& final(self).type_value == previous.type_value
                &&& final(self).id_value == previous.id_value
            },
            !(old(self).type_column@ == previous.type_column@ && old(self).id_column@ == previous.id_column@) ==> {
                &&& final(self).type_value == old(self).type_value
                &&& final(self).id_value == old(self).id_value
            },
            carried_over(
                old(self).cached,
                final(self).cached,
                previous.cached,
                previous.type_value is None && previous.id_value is None,
                old(self).type_column@ == previous.type_column@ && old(self).id_column@ == previous.id_column@,
            ),
    {
        let same = self.type_column == previous.type_column && self.id_column == previous.id_column;
        if same {
            self.type_value = match &previous.type_value {
                Some(t) => Some(t.clone()),
                None => None,
            };
            self.id_value = match &previous.id_value {
                Some(v) => Some(v.duplicate()),
                None => None,
            };
        }
        preserve_cached_value(
            &mut self.cached,
            &previous.cached,
            previous.type_value.is_none() && previous.id_value.is_none(),
            same,
        );
    }

    /// The query loading the owner as a row of `related`'s model, or `None`
    /// when the owner lives in another table or has no key (or a `null` one).
    /// Fails when a column name is empty or the key is composite.
    pub fn load_as(&self, related: ModelMeta) -> (r: Result<Option<QueryBuilder>, Error>)
        ensures
            !self.configured() ==> (r matches Err(Error::Query(m)) && m@ == unconfigured_message("MorphTo"@)),
            self.configured() ==> morph_to_lookup(r, related, *self, "MorphTo::load_as"@),
    {
        let names: Vec<&str> = vec![self.type_column.as_str(), self.id_column.as_str()];
        match ensure_relation_configured("MorphTo", names.as_slice()) {
            Err(e) => {
                proof {
                    if self.configured() {
                        assert forall|i: int| 0 <= i < names@.len() implies (#[trigger] names@[i])@.len() > 0 by {}
                    }
                }
                return Err(e);
            },
            Ok(()) => {},
        }
        assert(names@[0]@.len() > 0 && names@[1]@.len() > 0);
        self.lookup_owner(related, "MorphTo::load_as")
    }

    fn lookup_owner(&self, related: ModelMeta, context: &str) -> (r: Result<Option<QueryBuilder>, Error>)
        ensures
            morph_to_lookup(r, related, *self, context@),
    {
        if !self.is_type(related.table_name.as_str()) {
            return Ok(None);
        }
        let id = match &self.id_value {
            Some(v) => v,
            None => return Ok(None),
        };
        if id.is_null() {
            return Ok(None);
        }
        let id = match require_scalar_relation_key(id, context) {
            Err(e) => return Err(e),
            Ok(v) => v,
        };
        let key = if related.primary_keys.len() > 0 {
            related.primary_keys[0].clone()
        } else {
            String::new()
        };
        Ok(Some(QueryBuilder::new(related).where_eq(key.as_str(), id.duplicate())))
    }

    /// How a load of the owner, as a row of `meta`'s model, is answered: from
    /// the cache when it holds the owner; otherwise it fails when a column
    /// name is empty, the type is missing or names another table, and is
    /// answered as `load_as` says.
    pub fn load_step(&self, meta: ModelMeta) -> (r: Result<LoadStep, Error>)
        ensures
            self.cached is Some ==> r matches Ok(LoadStep::Cached),
            self.cached is None && !self.configured() ==> (r matches Err(Error::Query(m)) && m@
                == unconfigured_message("MorphTo"@)),
            self.cached is None && self.configured() && self.type_value is None ==> (r matches Err(
                Error::Query(m),
            ) && m@ == no_type_message(self.type_column@)),
            self.cached is None && self.configured() && self.type_value is Some && self.type_value.unwrap()@
                != meta.table_name@ ==> (r matches Err(Error::Query(m)) && m@ == wrong_type_message(
                self.type_value.unwrap()@,
                meta.table_name@,
            )),
            self.cached is None && self.configured() && self.type_value is Some && self.type_value.unwrap()@
                == meta.table_name@ ==> match r {
                Ok(LoadStep::Cached) => false,
                Ok(LoadStep::Empty) => morph_to_lookup(Ok(None), meta, *self, "MorphTo::load_as"@),
                Ok(LoadStep::Query(q)) => morph_to_lookup(Ok(Some(q)), meta, *self, "MorphTo::load_as"@),
                Err(e) => morph_to_lookup(Err(e), meta, *self, "MorphTo::load_as"@),
            },
    {
        if self.cached.is_some() {
            return Ok(LoadStep::Cached);
        }
        let names: Vec<&str> = vec![self.type_column.as_str(), self.id_column.as_str()];
        match ensure_relation_configured("MorphTo", names.as_slice()) {
            Err(e) => {
                proof {
                    if self.configured() {
                        assert forall|i: int| 0 <= i < names@.len() implies (#[trigger] names@[i])@.len() > 0 by {}
                    }
                }
                return Err(e);
            },
            Ok(()) => {},
        }
        assert(names@[0]@.len() > 0 && names@[1]@.len() > 0);
        let type_value = match &self.type_value {
            Some(t) => t,
            None => {
                let mut m: Vec<char> = Vec::new();
                push_str(&mut m, "MorphTo column '");
                push_str(&mut m, self.type_column.as_str());
                push_str(&mut m, "' holds no type value; rebuild the model through TideORM");
                return Err(Error::Query(string_of(&m)));
            },
        };
        if !self.is_type(meta.table_name.as_str()) {
            let mut m: Vec<char> = Vec::new();
            push_str(&mut m, "MorphTo target type '");
            push_str(&mut m, type_value.as_str());
            push_str(&mut m, "' is not '");
            push_str(&mut m, meta.table_name.as_str());
            push_str(&mut m, "'; use load_as::<T>() for heterogeneous owners");
            return Err(Error::Query(string_of(&m)));
        }
        match self.lookup_owner(meta, "MorphTo::load_as") {
            Ok(Some(q)) => Ok(LoadStep::Query(q)),
            Ok(None) => Ok(LoadStep::Empty),
            Err(e) => Err(e),
        }
    }
}

/// What looking the owner up as a row of `related`'s model answers: nothing
/// when it lives in another table or has no (or a `null`) key, the scalar
/// error for a composite key, and otherwise the query by `related`'s first
/// primary-key column.
pub open spec fn morph_to_lookup<M>(
    r: Result<Option<QueryBuilder>, Error>,
    related: ModelMeta,
    link: MorphTo<M>,
    context: Seq<char>,
) -> bool {
    if !(link.type_value is Some && link.type_value.unwrap()@ == related.table_name@) || link.id_value is None
        || link.id_value.unwrap() is Null {
        r == Ok::<Option<QueryBuilder>, Error>(None)
    } else if link.id_value.unwrap() is Composite {
        r matches Err(Error::InvalidQuery(m)) && m@ == scalar_message(context)
    } else {
        r matches Ok(Some(q)) && keyed_query(q, related, primary_key_name(related), link.id_value.unwrap())
    }
}

impl<M> Default for MorphTo<M> {
    /// Unconfigured: both column names empty.
    fn default() -> (r: Self)
        ensures
            r.type_column@.len() == 0,
            r.id_column@.len() == 0,
            r.type_value is None,
            r.id_value is None,
            r.cached is None,
    {
        proof {
            reveal_strlit("");
        }
        MorphTo::new("", "")
    }
}

/// The owning side of a polymorphic one-to-one link: rows of the related model
/// whose `<morph_name>_type` holds this model's table and whose
/// `<morph_name>_id` holds its key.
pub struct MorphOne<R> {
    /// The prefix of the related model's `_type` and `_id` columns.
    pub morph_name: String,
    /// Column of this model the `_id` column matches.
    pub local_key: String,
    /// What a previous load cached.
    pub cached: Option<R>,
    /// This model's key value.
    pub parent_pk: Option<JsonValue>,
    /// This model's table name.
    pub parent_table: Option<String>,
}

impl<R> MorphOne<R> {
    /// Whether both names are set.
    pub open spec fn configured(&self) -> bool {
        self.morph_name@.len() > 0 && self.local_key@.len() > 0
    }

    /// The two wrappers describe the same relation instance.
    pub open spec fn same_relation(&self, other: &Self) -> bool {
        &&& self.morph_name@ == other.morph_name@
        &&& self.local_key@ == other.local_key@
        &&& same_key(self.parent_pk, other.parent_pk)
        &&& match (self.parent_table, other.parent_table) {
            (Some(a), Some(b)) => a@ == b@,
            (None, None) => true,
            _ => false,
        }
    }

    /// The link with its names, no parent and nothing cached.
    pub fn new(morph_name: &str, local_key: &str) -> (r: Self)
        ensures
            r.morph_name@ == morph_name@,
            r.local_key@ == local_key@,
            r.cached is None,
            r.parent_pk is None,
            r.parent_table is None,
    {
        MorphOne {
            morph_name: morph_name.to_owned(),
            local_key: local_key.to_owned(),
            cached: None,
            parent_pk: None,
            parent_table: None,
        }
    }

    /// Supplies this model's key value and table name.
    pub fn with_parent(self, pk: JsonValue, table: String) -> (r: Self)
        ensures
            r.parent_pk == Some(pk),
            r.parent_table == Some(table),
            r.morph_name == self.morph_name,
            r.local_key == self.local_key,
            r.cached == self.cached,
    {
        let mut r = self;
        r.parent_pk = Some(pk);
        r.parent_table = Some(table);
        r
    }

    /// Carries the cache over from the wrapper this one replaces (see
    /// `carried_over`; "without key" means without key value and table).
    pub fn preserve_runtime_state_from(&mut self, previous: &Self)
        where R: Clone,
        ensures
            final(self).morph_name == old(self).morph_name,
            final(self).local_key == old(self).local_key,
            final(self).parent_pk == old(self).parent_pk,
            final(self).parent_table == old(self).parent_table,
            carried_over(
                old(self).cached,
                final(self).cached,
                previous.cached,
                previous.parent_pk is None && previous.parent_table is None,
                old(self).same_relation(previous),
            ),
    {
        let same_table = match (&self.parent_table, &previous.parent_table) {
            (Some(a), Some(b)) => a.eq(b),
            (None, None) => true,
            _ => false,
        };
        let same = self.morph_name == previous.morph_name && self.local_key == previous.local_key
            && json_key_same(&self.parent_pk, &previous.parent_pk) && same_table;
        preserve_cached_value(
            &mut self.cached,
            &previous.cached,
            previous.parent_pk.is_none() && previous.parent_table.is_none(),
            same,
        );
    }

    /// What a previous load cached, if anything. Never queries.
    pub fn get_cached(&self) -> (r: Option<&R>)
        ensures
            match r {
                Some(e) => self.cached == Some(*e),
                None => self.cached is None,
            },
    {
        match &self.cached {
            Some(e) => Some(e),
            None => None,
        }
    }

    /// Fills the cache.
    pub fn set_cached(&mut self, value: Option<R>)
        ensures
            final(self).cached == value,
            final(self).morph_name == old(self).morph_name,
            final(self).local_key == old(self).local_key,
            final(self).parent_pk == old(self).parent_pk,
            final(self).parent_table == old(self).parent_table,
    {
        self.cached = value;
    }

    /// The query for the related rows, for the operation named `context`
    /// (see `morph_lookup`).
    pub fn relation_query(&self, meta: ModelMeta, context: &str) -> (r: Result<QueryBuilder, Error>)
        ensures
            morph_lookup(r, meta, "MorphOne"@, self.configured(), self.morph_name@, self.parent_pk, self.parent_table, context@),
    {
        morph_lookup_query(
            meta,
            "MorphOne",
            self.morph_name.as_str(),
            self.local_key.as_str(),
            &self.parent_pk,
            &self.parent_table,
            context,
        )
    }

    /// How a load is answered: from the cache when it holds something,
    /// otherwise by the query `relation_query` builds.
    pub fn load_step(&self, meta: ModelMeta) -> (r: Result<LoadStep, Error>)
        ensures
            self.cached is Some ==> r matches Ok(LoadStep::Cached),
            self.cached is None ==> match r {
                Ok(LoadStep::Query(q)) => morph_lookup(Ok(q), meta, "MorphOne"@, self.configured(), self.morph_name@, self.parent_pk, self.parent_table, "MorphOne::load"@),
                Ok(_) => false,
                Err(e) => morph_lookup(Err(e), meta, "MorphOne"@, self.configured(), self.morph_name@, self.parent_pk, self.parent_table, "MorphOne::load"@),
            },
    {
        if self.cached.is_some() {
            return Ok(LoadStep::Cached);
        }
        match self.relation_query(meta, "MorphOne::load") {
            Ok(q) => Ok(LoadStep::Query(q)),
            Err(e) => Err(e),
        }
    }
}

impl<R> Default for MorphOne<R> {
    /// Unconfigured: both names empty.
    fn default() -> (r: Self)
        ensures
            r.morph_name@.len() == 0,
            r.local_key@.len() == 0,
            r.cached is None,
            r.parent_pk is None,
            r.parent_table is None,
    {
        proof {
            reveal_strlit("");
        }
        MorphOne::new("", "")
    }
}

/// The owning side of a polymorphic one-to-many link: rows of the related model
/// whose `<morph_name>_type` holds this model's table and whose
/// `<morph_name>_id` holds its key.
pub struct MorphMany<R> {
    /// The prefix of the related model's `_type` and `_id` columns.
    pub morph_name: String,
    /// Column of this model the `_id` column matches.
    pub local_key: String,
    /// What a previous load cached.
    pub cached: Option<Vec<R>>,
    /// This model's key value.
    pub parent_pk: Option<JsonValue>,
    /// This model's table name.
    pub parent_table: Option<String>,
}

impl<R> MorphMany<R> {
    /// Whether both names are set.
    pub open spec fn configured(&self) -> bool {
        self.morph_name@.len() > 0 && self.local_key@.len() > 0
    }

    /// The two wrappers describe the same relation instance.
    pub open spec fn same_relation(&self, other: &Self) -> bool {
        &&& self.morph_name@ == other.morph_name@
        &&& self.local_key@ == other.local_key@
        &&& same_key(self.parent_pk, other.parent_pk)
        &&& match (self.parent_table, other.parent_table) {
            (Some(a), Some(b)) => a@ == b@,
            (None, None) => true,
            _ => false,
        }
    }

    /// The link with its names, no parent and nothing cached.
    pub fn new(morph_name: &str, local_key: &str) -> (r: Self)
        ensures
            r.morph_name@ == morph_name@,
            r.local_key@ == local_key@,
            r.cached is None,
            r.parent_pk is None,
            r.parent_table is None,
    {
        MorphMany {
            morph_name: morph_name.to_owned(),
            local_key: local_key.to_owned(),
            cached: None,
            parent_pk: None,
            parent_table: None,
        }
    }

    /// Supplies this model's key value and table name.
    pub fn with_parent(self, pk: JsonValue, table: String) -> (r: Self)
        ensures
            r.parent_pk == Some(pk),
            r.parent_table == Some(table),
            r.morph_name == self.morph_name,
            r.local_key == self.local_key,
            r.cached == self.cached,
    {
        let mut r = self;
        r.parent_pk = Some(pk);
        r.parent_table = Some(table);
        r
    }

    /// Carries the cache over from the wrapper this one replaces (see
    /// `carried_over`; "without key" means without key value and table).
    pub fn preserve_runtime_state_from(&mut self, previous: &Self)
        where R: Clone,
        ensures
            final(self).morph_name == old(self).morph_name,
            final(self).local_key == old(self).local_key,
            final(self).parent_pk == old(self).parent_pk,
            final(self).parent_table == old(self).parent_table,
            carried_over(
                old(self).cached,
                final(self).cached,
                previous.cached,
                previous.parent_pk is None && previous.parent_table is None,
                old(self).same_relation(previous),
            ),
    {
        let same_table = match (&self.parent_table, &previous.parent_table) {
            (Some(a), Some(b)) => a.eq(b),
            (None, None) => true,
            _ => false,
        };
        let same = self.morph_name == previous.morph_name && self.local_key == previous.local_key
            && json_key_same(&self.parent_pk, &previous.parent_pk) && same_table;
        preserve_cached_value(
            &mut self.cached,
            &previous.cached,
            previous.parent_pk.is_none() && previous.parent_table.is_none(),
            same,
        );
    }

    /// What a previous load cached, if anything. Never queries.
    pub fn get_cached(&self) -> (r: Option<&Vec<R>>)
        ensures
            match r {
                Some(e) => self.cached == Some(*e),
                None => self.cached is None,
            },
    {
        match &self.cached {
            Some(e) => Some(e),
            None => None,
        }
    }

    /// Fills the cache.
    pub fn set_cached(&mut self, value: Vec<R>)
        ensures
            final(self).cached == Some(value),
            final(self).morph_name == old(self).morph_name,
            final(self).local_key == old(self).local_key,
            final(self).parent_pk == old(self).parent_pk,
            final(self).parent_table == old(self).parent_table,
    {
        self.cached = Some(value);
    }

    /// The query for the related rows, for the operation named `context`
    /// (see `morph_lookup`).
    pub fn relation_query(&self, meta: ModelMeta, context: &str) -> (r: Result<QueryBuilder, Error>)
        ensures
            morph_lookup(r, meta, "MorphMany"@, self.configured(), self.morph_name@, self.parent_pk, self.parent_table, context@),
    {
        morph_lookup_query(
            meta,
            "MorphMany",
            self.morph_name.as_str(),
            self.local_key.as_str(),
            &self.parent_pk,
            &self.parent_table,
            context,
        )
    }

    /// How a load is answered: from the cache when it holds something,
    /// otherwise by the query `relation_query` builds.
    pub fn load_step(&self, meta: ModelMeta) -> (r: Result<LoadStep, Error>)
        ensures
            self.cached is Some ==> r matches Ok(LoadStep::Cached),
            self.cached is None ==> match r {
                Ok(LoadStep::Query(q)) => morph_lookup(Ok(q), meta, "MorphMany"@, self.configured(), self.morph_name@, self.parent_pk, self.parent_table, "MorphMany::load"@),
                Ok(_) => false,
                Err(e) => morph_lookup(Err(e), meta, "MorphMany"@, self.configured(), self.morph_name@, self.parent_pk, self.parent_table, "MorphMany::load"@),
            },
    {
        if self.cached.is_some() {
            return Ok(LoadStep::Cached);
        }
        match self.relation_query(meta, "MorphMany::load") {
            Ok(q) => Ok(LoadStep::Query(q)),
            Err(e) => Err(e),
        }
    }
}

impl<R> Default for MorphMany<R> {
    /// Unconfigured: both names empty.
    fn default() -> (r: Self)
        ensures
            r.morph_name@.len() == 0,
            r.local_key@.len() == 0,
            r.cached is None,
            r.parent_pk is None,
            r.parent_table is None,
    {
        proof {
            reveal_strlit("");
        }
        MorphMany::new("", "")
    }
}

/// An owner that is one of two models, or a row of neither.
pub enum MorphResult<A, B> {
    /// A row of the first model.
    TypeA(A),
    /// A row of the second model.
    TypeB(B),
    /// A row of neither, as JSON.
    Unknown(JsonValue),
}

impl<A, B> MorphResult<A, B> {
    /// Whether it is a row of the first model.
    pub fn is_type_a(&self) -> (b: bool)
        ensures
            b == (*self is TypeA),
    {
        match self {
            MorphResult::TypeA(_) => true,
            _ => false,
        }
    }

    /// Whether it is a row of the second model.
    pub fn is_type_b(&self) -> (b: bool)
        ensures
            b == (*self is TypeB),
    {
        match self {
            MorphResult::TypeB(_) => true,
            _ => false,
        }
    }

    /// Whether it is a row of neither.
    pub fn is_unknown(&self) -> (b: bool)
        ensures
            b == (*self is Unknown),
    {
        match self {
            MorphResult::Unknown(_) => true,
            _ => false,
        }
    }

    /// The row of the first model, if it is one.
    pub fn as_type_a(&self) -> (r: Option<&A>)
        ensures
            match r {
                Some(a) => *self == MorphResult::<A, B>::TypeA(*a),
                None => !(*self is TypeA),
            },
    {
        match self {
            MorphResult::TypeA(a) => Some(a),
            _ => None,
        }
    }

    /// The row of the second model, if it is one.
    pub fn as_type_b(&self) -> (r: Option<&B>)
        ensures
            match r {
                Some(b) => *self == MorphResult::<A, B>::TypeB(*b),
                None => !(*self is TypeB),
            },
    {
        match self {
            MorphResult::TypeB(b) => Some(b),
            _ => None,
        }
    }

    /// The row of the first model, if it is one.
    pub fn into_type_a(self) -> (r: Option<A>)
        ensures
            match r {
                Some(a) => self == MorphResult::<A, B>::TypeA(a),
                None => !(self is TypeA),
            },
    {
        match self {
            MorphResult::TypeA(a) => Some(a),
            _ => None,
        }
    }

    /// The row of the second model, if it is one.
    pub fn into_type_b(self) -> (r: Option<B>)
        ensures
            match r {
                Some(b) => self == MorphResult::<A, B>::TypeB(b),
                None => !(self is TypeB),
            },
    {
        match self {
            MorphResult::TypeB(b) => Some(b),
            _ => None,
        }
    }
}

/// An owner that is one of three models, or a row of none.
pub enum MorphResult3<A, B, C> {
    /// A row of the first model.
    TypeA(A),
    /// A row of the second model.
    TypeB(B),
    /// A row of the third model.
    TypeC(C),
    /// A row of none, as JSON.
    Unknown(JsonValue),
}

/// An owner that is one of four models, or a row of none.
pub enum MorphResult4<A, B, C, D> {
    /// A row of the first model.
    TypeA(A),
    /// A row of the second model.
    TypeB(B),
    /// A row of the third model.
    TypeC(C),
    /// A row of the fourth model.
    TypeD(D),
    /// A row of none, as JSON.
    Unknown(JsonValue),
}

} // verus!
