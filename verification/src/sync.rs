//! Model schemas registered for synchronization with a live database: their
//! column definitions, the registry that keeps one schema per table, and the
//! pure decisions the synchronization makes (which columns are missing,
//! which are extra, where the DDL is qualified).

use vstd::prelude::*;
use crate::dialect::DatabaseType;
use crate::error::Error;
use crate::text::{chars_eq_ignore_case, chars_of, eq_ignore_case, is_whitespace, is_ws, push_str, string_of};

verus! {

/// One column of a model schema; its type is the Rust type spelling.
#[derive(Clone, Debug)]
pub struct ColumnDef {
    /// The column name.
    pub name: String,
    /// The Rust type, converted to SQL at synchronization time.
    pub col_type: String,
    /// Whether NULL is allowed.
    pub nullable: bool,
    /// Whether the column is the primary key.
    pub primary_key: bool,
    /// Whether the column auto-increments.
    pub auto_increment: bool,
    /// The default value expression.
    pub default: Option<String>,
}

impl ColumnDef {
    /// A nullable, non-key column without a default.
    pub fn new(name: &str, col_type: &str) -> (r: Self)
        ensures
            r.name@ == name@,
            r.col_type@ == col_type@,
            r.nullable,
            !r.primary_key,
            !r.auto_increment,
            r.default is None,
    {
        ColumnDef {
            name: name.to_string(),
            col_type: col_type.to_string(),
            nullable: true,
            primary_key: false,
            auto_increment: false,
            default: None,
        }
    }

    /// Marks the column as primary key, which also makes it NOT NULL.
    pub fn primary_key(self) -> (r: Self)
        ensures
            r.primary_key,
            !r.nullable,
            r.name == self.name,
            r.col_type == self.col_type,
            r.auto_increment == self.auto_increment,
            r.default == self.default,
    {
        let mut r = self;
        r.primary_key = true;
        r.nullable = false;
        r
    }

    /// Marks the column as auto-incrementing.
    pub fn auto_increment(self) -> (r: Self)
        ensures
            r.auto_increment,
            r.name == self.name,
            r.col_type == self.col_type,
            r.nullable == self.nullable,
            r.primary_key == self.primary_key,
            r.default == self.default,
    {
        let mut r = self;
        r.auto_increment = true;
        r
    }

    /// Marks the column NOT NULL.
    pub fn not_null(self) -> (r: Self)
        ensures
            !r.nullable,
            r.name == self.name,
            r.col_type == self.col_type,
            r.primary_key == self.primary_key,
            r.auto_increment == self.auto_increment,
            r.default == self.default,
    {
        let mut r = self;
        r.nullable = false;
        r
    }

    /// A copy of the column definition.
    pub fn duplicate(&self) -> (r: Self)
        ensures
            r == *self,
    {
        ColumnDef {
            name: self.name.clone(),
            col_type: self.col_type.clone(),
            nullable: self.nullable,
            primary_key: self.primary_key,
            auto_increment: self.auto_increment,
            default: match &self.default {
                Some(d) => Some(d.clone()),
                None => None,
            },
        }
    }

    /// Sets the default value expression.
    pub fn default(self, expr: &str) -> (r: Self)
        ensures
            r.default matches Some(d) && d@ == expr@,
            r.name == self.name,
            r.col_type == self.col_type,
            r.nullable == self.nullable,
            r.primary_key == self.primary_key,
            r.auto_increment == self.auto_increment,
    {
        let mut r = self;
        r.default = Some(expr.to_string());
        r
    }
}

/// The schema of one model's table.
#[derive(Clone, Debug)]
pub struct ModelSchema {
    /// The table name.
    pub table_name: String,
    /// The schema the table lives in (`public` unless set).
    pub schema_name: String,
    /// The columns, in order.
    pub columns: Vec<ColumnDef>,
    /// The primary-key columns, in declaration order.
    pub primary_keys: Vec<String>,
}

impl ModelSchema {
    /// A schema for `table_name` in `public`, without columns.
    pub fn new(table_name: &str) -> (r: Self)
        ensures
            r.table_name@ == table_name@,
            r.schema_name@ == "public"@,
            r.columns@.len() == 0,
            r.primary_keys@.len() == 0,
    {
        ModelSchema {
            table_name: table_name.to_string(),
            schema_name: "public".to_string(),
            columns: Vec::new(),
            primary_keys: Vec::new(),
        }
    }

    /// Sets the schema name.
    pub fn schema(self, schema: &str) -> (r: Self)
        ensures
            r.schema_name@ == schema@,
            r.table_name == self.table_name,
            r.columns == self.columns,
            r.primary_keys == self.primary_keys,
    {
        let mut r = self;
        r.schema_name = schema.to_string();
        r
    }

    /// Adds a column.
    pub fn column(self, col: ColumnDef) -> (r: Self)
        ensures
            r.columns@ == self.columns@.push(col),
            r.table_name == self.table_name,
            r.schema_name == self.schema_name,
            r.primary_keys == self.primary_keys,
    {
        let mut r = self;
        r.columns.push(col);
        r
    }

    /// Adds several columns, in order.
    pub fn columns(self, cols: Vec<ColumnDef>) -> (r: Self)
        ensures
            r.columns@ == self.columns@ + cols@,
            r.table_name == self.table_name,
            r.schema_name == self.schema_name,
            r.primary_keys == self.primary_keys,
    {
        let mut r = self;
        let mut more = cols;
        r.columns.append(&mut more);
        r
    }

    /// Sets the primary-key columns.
    pub fn primary_keys(self, columns: Vec<String>) -> (r: Self)
        ensures
            r.primary_keys == columns,
            r.table_name == self.table_name,
            r.schema_name == self.schema_name,
            r.columns == self.columns,
    {
        let mut r = self;
        r.primary_keys = columns;
        r
    }
}

/// `s` without its white space.
pub open spec fn without_ws(s: Seq<char>) -> Seq<char>
    decreases s.len(),
{
    if s.len() == 0 {
        Seq::empty()
    } else if is_ws(s.last()) {
        without_ws(s.drop_last())
    } else {
        without_ws(s.drop_last()).push(s.last())
    }
}

/// A Rust type spelling with its white space removed.
pub fn normalize_rust_type(rust_type: &str) -> (r: String)
    ensures
        r@ == without_ws(rust_type@),
{
    let s = chars_of(rust_type);
    let mut out: Vec<char> = Vec::new();
    let mut i: usize = 0;
    while i < s.len()
        invariant
            i <= s@.len(),
            out@ == without_ws(s@.take(i as int)),
        decreases s.len() - i,
    {
        proof {
            assert(s@.take(i + 1).drop_last() == s@.take(i as int));
            assert(s@.take(i + 1).last() == s@[i as int]);
        }
        if !is_whitespace(s[i]) {
            out.push(s[i]);
        }
        i = i + 1;
    }
    assert(s@.take(s@.len() as int) == s@);
    string_of(&out)
}

/// The schema a model's DDL is qualified with: only PostgreSQL has schemas
/// apart from the connected database, and only a non-empty name qualifies.
pub open spec fn qualifying_schema_name(m: ModelSchema, db: DatabaseType) -> Option<Seq<char>> {
    if db == DatabaseType::Postgres && m.schema_name@.len() > 0 {
        Some(m.schema_name@)
    } else {
        None
    }
}

/// The schema a model's DDL is qualified with (see `qualifying_schema_name`).
pub fn qualifying_schema(model: &ModelSchema, db: DatabaseType) -> (r: Option<&str>)
    ensures
        match r {
            Some(s) => qualifying_schema_name(*model, db) == Some(s@),
            None => qualifying_schema_name(*model, db) is None,
        },
{
    if matches!(db, DatabaseType::Postgres) && chars_of(model.schema_name.as_str()).len() > 0 {
        Some(model.schema_name.as_str())
    } else {
        None
    }
}

/// Some name of `names` equals `n` up to ASCII case.
pub open spec fn named_among(names: Seq<Seq<char>>, n: Seq<char>) -> bool {
    exists|i: int| 0 <= i < names.len() && eq_ignore_case(#[trigger] names[i], n)
}

/// The columns of `cols` whose name is not among `existing`, in order.
pub open spec fn missing_columns(cols: Seq<ColumnDef>, existing: Seq<Seq<char>>) -> Seq<ColumnDef>
    decreases cols.len(),
{
    if cols.len() == 0 {
        Seq::empty()
    } else {
        missing_columns(cols.drop_last(), existing) + if named_among(existing, cols.last().name@) {
            Seq::<ColumnDef>::empty()
        } else {
            seq![cols.last()]
        }
    }
}

/// The names of `existing` that no column of `cols` carries, in order.
pub open spec fn extra_columns(cols: Seq<ColumnDef>, existing: Seq<Seq<char>>) -> Seq<Seq<char>>
    decreases existing.len(),
{
    if existing.len() == 0 {
        Seq::empty()
    } else {
        extra_columns(cols, existing.drop_last()) + if named_among(
            cols.map_values(|c: ColumnDef| c.name@),
            existing.last(),
        ) {
            Seq::<Seq<char>>::empty()
        } else {
            seq![existing.last()]
        }
    }
}

fn name_among(names: &Vec<Vec<char>>, n: &Vec<char>) -> (b: bool)
    ensures
        b == named_among(crate::text::vviews(names@), n@),
{
    let mut i: usize = 0;
    while i < names.len()
        invariant
            i <= names@.len(),
            forall|k: int| 0 <= k < i ==> !eq_ignore_case(#[trigger] crate::text::vviews(names@)[k], n@),
        decreases names.len() - i,
    {
        if chars_eq_ignore_case(&names[i], n) {
            assert(crate::text::vviews(names@)[i as int] == names@[i as int]@);
            return true;
        }
        i = i + 1;
    }
    false
}

fn char_names(v: &Vec<String>) -> (r: Vec<Vec<char>>)
    ensures
        crate::text::vviews(r@) == crate::text::views(v@),
{
    let mut r: Vec<Vec<char>> = Vec::new();
    let mut i: usize = 0;
    while i < v.len()
        invariant
            i <= v@.len(),
            crate::text::vviews(r@) == crate::text::views(v@).take(i as int),
        decreases v.len() - i,
    {
        let c = chars_of(v[i].as_str());
        proof {
            assert(crate::text::vviews(r@).len() == i);
            assert(r@.len() == i);
        }
        r.push(c);
        assert(crate::text::vviews(r@) =~= crate::text::views(v@).take(i + 1));
        i = i + 1;
    }
    assert(crate::text::views(v@).take(v@.len() as int) =~= crate::text::views(v@));
    r
}

/// Compares a model with the columns an existing table has, by name up to
/// ASCII case: the model's columns the table lacks (to add), and the table's
/// columns the model does not declare (only to report), each in order.
pub fn diff_columns(model: &ModelSchema, existing: &Vec<String>) -> (r: (Vec<ColumnDef>, Vec<String>))
    ensures
        r.0@ == missing_columns(model.columns@, crate::text::views(existing@)),
        crate::text::views(r.1@) == extra_columns(model.columns@, crate::text::views(existing@)),
{
    let ex = char_names(existing);
    let ghost exv = crate::text::views(existing@);
    assert(crate::text::vviews(ex@).len() == ex@.len());
    assert(ex@.len() == existing@.len());
    let cols = &model.columns;
    let mut missing: Vec<ColumnDef> = Vec::new();
    let mut col_names: Vec<Vec<char>> = Vec::new();
    let mut i: usize = 0;
    while i < cols.len()
        invariant
            i <= cols@.len(),
            cols@ == model.columns@,
            crate::text::vviews(ex@) == exv,
            missing@ == missing_columns(cols@.take(i as int), exv),
            crate::text::vviews(col_names@) == cols@.take(i as int).map_values(|c: ColumnDef| c.name@),
        decreases cols.len() - i,
    {
        proof {
            assert(cols@.take(i + 1).drop_last() == cols@.take(i as int));
            assert(cols@.take(i + 1).last() == cols@[i as int]);
        }
        let n = chars_of(cols[i].name.as_str());
        if !name_among(&ex, &n) {
            missing.push(cols[i].duplicate());
        }
        proof {
            assert(crate::text::vviews(col_names@).len() == i);
            assert(col_names@.len() == i);
        }
        let ghost old_names = col_names@;
        let ghost nv = n@;
        col_names.push(n);
        proof {
            let target = cols@.take(i + 1).map_values(|c: ColumnDef| c.name@);
            assert forall|k: int| 0 <= k < i + 1 implies crate::text::vviews(col_names@)[k] == target[k] by {
                if k < i {
                    assert(col_names@[k] == old_names[k]);
                    assert(crate::text::vviews(old_names)[k] == cols@.take(i as int).map_values(|c: ColumnDef| c.name@)[k]);
                } else {
                    assert(col_names@[k]@ == nv);
                }
            }
            assert(crate::text::vviews(col_names@) =~= target);
        }
        i = i + 1;
    }
    assert(cols@.take(cols@.len() as int) =~= cols@);
    let mut extra: Vec<String> = Vec::new();
    let mut j: usize = 0;
    while j < existing.len()
        invariant
            j <= existing@.len(),
            ex@.len() == existing@.len(),
            crate::text::vviews(ex@) == exv,
            exv == crate::text::views(existing@),
            crate::text::vviews(col_names@) == cols@.map_values(|c: ColumnDef| c.name@),
            cols@ == model.columns@,
            crate::text::views(extra@) == extra_columns(cols@, exv.take(j as int)),
        decreases existing.len() - j,
    {
        proof {
            assert(exv.take(j + 1).drop_last() == exv.take(j as int));
            assert(exv.take(j + 1).last() == exv[j as int]);
            assert(crate::text::vviews(ex@)[j as int] == ex@[j as int]@);
            assert(ex@[j as int]@ == exv[j as int]);
        }
        if !name_among(&col_names, &ex[j]) {
            let s = existing[j].clone();
            proof {
                assert(crate::text::views(extra@).len() == extra@.len());
            }
            extra.push(s);
            assert(crate::text::views(extra@) =~= extra_columns(cols@, exv.take(j + 1)));
        }
        j = j + 1;
    }
    assert(exv.take(existing@.len() as int) =~= exv);
    (missing, extra)
}

/// The registry of model schemas to synchronize, one per table name.
#[derive(Debug)]
pub struct SyncRegistry {
    /// The registered schemas, in registration order.
    pub schemas: Vec<ModelSchema>,
}

/// Some registered schema is for table `table`.
pub open spec fn has_table(rs: Seq<ModelSchema>, table: Seq<char>) -> bool {
    exists|i: int| 0 <= i < rs.len() && (#[trigger] rs[i]).table_name@ == table
}

impl SyncRegistry {
    /// An empty registry.
    pub fn new() -> (r: Self)
        ensures
            r.schemas@.len() == 0,
    {
        SyncRegistry { schemas: Vec::new() }
    }

    /// Registers a schema unless its table is registered already.
    pub fn register_schema(&mut self, schema: ModelSchema)
        ensures
            final(self).schemas@ == if has_table(old(self).schemas@, schema.table_name@) {
                old(self).schemas@
            } else {
                old(self).schemas@.push(schema)
            },
    {
        let mut i: usize = 0;
        while i < self.schemas.len()
            invariant
                i <= self.schemas@.len(),
                self.schemas@ == old(self).schemas@,
                forall|k: int| 0 <= k < i ==> (#[trigger] self.schemas@[k]).table_name@ != schema.table_name@,
            decreases self.schemas.len() - i,
        {
            if self.schemas[i].table_name == schema.table_name {
                return;
            }
            i = i + 1;
        }
        self.schemas.push(schema);
    }

    /// Copies of the registered schemas, in registration order.
    pub fn get_all_schemas(&self) -> (r: Vec<ModelSchema>)
        ensures
            r@.len() == self.schemas@.len(),
            forall|i: int| 0 <= i < r@.len() ==> same_model(#[trigger] r@[i], self.schemas@[i]),
    {
        let mut r: Vec<ModelSchema> = Vec::new();
        let mut i: usize = 0;
        while i < self.schemas.len()
            invariant
                i <= self.schemas@.len(),
                r@.len() == i,
                forall|k: int| 0 <= k < i ==> same_model(#[trigger] r@[k], self.schemas@[k]),
            decreases self.schemas.len() - i,
        {
            r.push(self.schemas[i].duplicate());
            i = i + 1;
        }
        r
    }

    /// The number of registered schemas.
    pub fn schema_count(&self) -> (n: usize)
        ensures
            n == self.schemas@.len(),
    {
        self.schemas.len()
    }

    /// Forgets every registered schema.
    pub fn clear(&mut self)
        ensures
            final(self).schemas@.len() == 0,
    {
        self.schemas = Vec::new();
    }
}

/// Two model schemas hold the same data.
pub open spec fn same_model(a: ModelSchema, b: ModelSchema) -> bool {
    a.table_name == b.table_name && a.schema_name == b.schema_name && a.columns@ == b.columns@
        && a.primary_keys@ == b.primary_keys@
}

impl ModelSchema {
    /// A copy of the model schema.
    pub fn duplicate(&self) -> (r: Self)
        ensures
            same_model(r, *self),
    {
        let mut columns: Vec<ColumnDef> = Vec::new();
        let mut i: usize = 0;
        while i < self.columns.len()
            invariant
                i <= self.columns@.len(),
                columns@ == self.columns@.take(i as int),
            decreases self.columns.len() - i,
        {
            columns.push(self.columns[i].duplicate());
            assert(columns@ =~= self.columns@.take(i + 1));
            i = i + 1;
        }
        assert(self.columns@.take(self.columns@.len() as int) =~= self.columns@);
        let mut keys: Vec<String> = Vec::new();
        let mut i: usize = 0;
        while i < self.primary_keys.len()
            invariant
                i <= self.primary_keys@.len(),
                keys@ == self.primary_keys@.take(i as int),
            decreases self.primary_keys.len() - i,
        {
            keys.push(self.primary_keys[i].clone());
            assert(keys@ =~= self.primary_keys@.take(i + 1));
            i = i + 1;
        }
        assert(self.primary_keys@.take(self.primary_keys@.len() as int) =~= self.primary_keys@);
        ModelSchema {
            table_name: self.table_name.clone(),
            schema_name: self.schema_name.clone(),
            columns,
            primary_keys: keys,
        }
    }
}

/// A model that can be registered for synchronization; its schema comes from
/// the model declaration.
pub trait SyncModel {
    /// The model's schema.
    fn sync_schema() -> ModelSchema;

    /// Registers the model's schema.
    fn register_for_sync(registry: &mut SyncRegistry) {
        registry.register_schema(Self::sync_schema());
    }
}

/// A group of models registered together.
pub trait RegisterModels {
    /// Registers every model of the group, in order.
    fn register_all(registry: &mut SyncRegistry);
}

impl RegisterModels for () {
    fn register_all(registry: &mut SyncRegistry) {
    }
}

impl<A: SyncModel> RegisterModels for (A,) {
    fn register_all(registry: &mut SyncRegistry) {
        A::register_for_sync(registry);
    }
}

impl<A: SyncModel, B: SyncModel> RegisterModels for (A, B) {
    fn register_all(registry: &mut SyncRegistry) {
        A::register_for_sync(registry);
        B::register_for_sync(registry);
    }
}

impl<A: SyncModel, B: SyncModel, C: SyncModel> RegisterModels for (A, B, C) {
    fn register_all(registry: &mut SyncRegistry) {
        A::register_for_sync(registry);
        B::register_for_sync(registry);
        C::register_for_sync(registry);
    }
}

/// The message of a table-existence probe that decoded as none of the
/// expected types.
pub open spec fn undecodable_probe_message(table: Seq<char>) -> Seq<char> {
    "Unable to decode the existence probe for table '"@ + table
        + "'; refusing to treat an unreadable answer as a missing table"@
}

/// Whether the probed table exists, from the probe's first column as it
/// decoded: as a boolean, else as an `i64`, a `u64` or an `i32` (non-zero
/// meaning present). An answer that decoded as none of them is an error,
/// never "missing", so a forced synchronization cannot skip its DROP.
pub fn decode_table_exists(
    as_bool: Option<bool>,
    as_i64: Option<i64>,
    as_u64: Option<u64>,
    as_i32: Option<i32>,
    table: &str,
) -> (r: Result<bool, Error>)
    ensures
        as_bool is Some ==> r == Ok::<bool, Error>(as_bool.unwrap()),
        as_bool is None && as_i64 is Some ==> r == Ok::<bool, Error>(as_i64.unwrap() != 0),
        as_bool is None && as_i64 is None && as_u64 is Some ==> r == Ok::<bool, Error>(as_u64.unwrap() != 0),
        as_bool is None && as_i64 is None && as_u64 is None && as_i32 is Some ==> r == Ok::<bool, Error>(
            as_i32.unwrap() != 0,
        ),
        as_bool is None && as_i64 is None && as_u64 is None && as_i32 is None ==> (r matches Err(
            Error::Query(m),
        ) && m@ == undecodable_probe_message(table@)),
{
    if let Some(v) = as_bool {
        return Ok(v);
    }
    if let Some(v) = as_i64 {
        return Ok(v != 0);
    }
    if let Some(v) = as_u64 {
        return Ok(v != 0);
    }
    if let Some(v) = as_i32 {
        return Ok(v != 0);
    }
    let mut m: Vec<char> = Vec::new();
    push_str(&mut m, "Unable to decode the existence probe for table '");
    push_str(&mut m, table);
    push_str(&mut m, "'; refusing to treat an unreadable answer as a missing table");
    Err(Error::Query(string_of(&m)))
}

} // verus!
