//! Table schemas built from model metadata, the Rust-type to SQL-type map,
//! and the rendering of a schema file's `CREATE TABLE` / `CREATE INDEX`
//! statements.

use vstd::prelude::*;
use crate::column_type::{lemma_integer_spellings_differ, range_size, range_within, rust_int_range};
use crate::dialect::{DatabaseType, push_quoted, push_strict_column, quoted, strict_column};
use crate::text::{
    is_ws,
    chars_eq, chars_of, decimal, push_joined, push_joined_chars, push_str, push_u64, seq_join,
    string_of, trim, trim_ws, views, vviews,
};

verus! {

/// An index over one or more columns of a table.
#[derive(Clone, Debug)]
pub struct IndexDefinition {
    /// The index name.
    pub name: String,
    /// The indexed columns, in order.
    pub columns: Vec<String>,
    /// Whether the index is unique.
    pub unique: bool,
}

impl IndexDefinition {
    /// An index named `name` over `columns`.
    pub fn new(name: &str, columns: Vec<String>, unique: bool) -> (r: Self)
        ensures
            r.name@ == name@,
            r.columns == columns,
            r.unique == unique,
    {
        IndexDefinition { name: name.to_string(), columns, unique }
    }
}

/// The schema of one column.
#[derive(Clone, Debug)]
pub struct ColumnSchema {
    /// The column name.
    pub name: String,
    /// The SQL type, as written into the DDL.
    pub sql_type: String,
    /// Whether NULL is allowed.
    pub nullable: bool,
    /// The default value expression.
    pub default: Option<String>,
    /// Whether the column is (part of) the primary key.
    pub primary_key: bool,
    /// Whether the column auto-increments.
    pub auto_increment: bool,
}

impl ColumnSchema {
    /// A nullable, non-key column without a default.
    pub fn new(name: &str, sql_type: &str) -> (r: Self)
        ensures
            r.name@ == name@,
            r.sql_type@ == sql_type@,
            r.nullable,
            r.default is None,
            !r.primary_key,
            !r.auto_increment,
    {
        ColumnSchema {
            name: name.to_string(),
            sql_type: sql_type.to_string(),
            nullable: true,
            default: None,
            primary_key: false,
            auto_increment: false,
        }
    }

    /// Marks the column as primary key, which also makes it NOT NULL.
    pub fn primary_key(self) -> (r: Self)
        ensures
            r.primary_key,
            !r.nullable,
            r.name == self.name,
            r.sql_type == self.sql_type,
            r.default == self.default,
            r.auto_increment == self.auto_increment,
    {
        let mut r = self;
        r.primary_key = true;
        r.nullable = false;
        r
    }

    /// Marks the column as auto-incrementing.
    pub fn auto_increment(self) -> (r: Self)
        ensures
            r.auto_increment,
            r.name == self.name,
            r.sql_type == self.sql_type,
            r.nullable == self.nullable,
            r.default == self.default,
            r.primary_key == self.primary_key,
    {
        let mut r = self;
        r.auto_increment = true;
        r
    }

    /// Marks the column NOT NULL.
    pub fn not_null(self) -> (r: Self)
        ensures
            !r.nullable,
            r.name == self.name,
            r.sql_type == self.sql_type,
            r.default == self.default,
            r.primary_key == self.primary_key,
            r.auto_increment == self.auto_increment,
    {
        let mut r = self;
        r.nullable = false;
        r
    }

    /// Sets the default value expression.
    pub fn default(self, value: &str) -> (r: Self)
        ensures
            r.default matches Some(d) && d@ == value@,
            r.name == self.name,
            r.sql_type == self.sql_type,
            r.nullable == self.nullable,
            r.primary_key == self.primary_key,
            r.auto_increment == self.auto_increment,
    {
        let mut r = self;
        r.default = Some(value.to_string());
        r
    }
}

/// The schema of one table.
#[derive(Clone, Debug)]
pub struct TableSchema {
    /// The table name.
    pub name: String,
    /// The schema (namespace) qualifying the table, if any.
    pub schema_name: Option<String>,
    /// The columns, in order.
    pub columns: Vec<ColumnSchema>,
    /// The indexes.
    pub indexes: Vec<IndexDefinition>,
    /// The first primary-key column, or empty.
    pub primary_key: String,
    /// Every primary-key column, in declaration order.
    pub primary_keys: Vec<String>,
}

/// Builds a table schema column by column.
#[derive(Clone, Debug)]
pub struct TableSchemaBuilder {
    /// The table name.
    pub name: String,
    /// The qualifying schema name.
    pub schema_name: Option<String>,
    /// The columns added so far.
    pub columns: Vec<ColumnSchema>,
    /// The indexes added so far.
    pub indexes: Vec<IndexDefinition>,
    /// The first primary-key column added, or empty.
    pub primary_key: String,
    /// Every primary-key column added, in order.
    pub primary_keys: Vec<String>,
}

/// The primary-key bookkeeping after adding column `c`: the first key column
/// is remembered, and every key column is listed.
pub open spec fn added_column(b: TableSchemaBuilder, c: ColumnSchema, r: TableSchemaBuilder) -> bool {
    &&& r.columns@ == b.columns@.push(c)
    &&& r.name == b.name
    &&& r.schema_name == b.schema_name
    &&& r.indexes == b.indexes
    &&& if c.primary_key {
        &&& r.primary_key@ == (if b.primary_key@.len() == 0 {
            c.name@
        } else {
            b.primary_key@
        })
        &&& views(r.primary_keys@) == views(b.primary_keys@).push(c.name@)
    } else {
        &&& r.primary_key == b.primary_key
        &&& r.primary_keys == b.primary_keys
    }
}

/// A column of type `sql_type` named `name` was added.
pub open spec fn added_typed_column(b: TableSchemaBuilder, name: Seq<char>, sql_type: Seq<char>, r: TableSchemaBuilder) -> bool {
    &&& r.columns@.len() == b.columns@.len() + 1
    &&& r.columns@.drop_last() == b.columns@
    &&& r.columns@.last().name@ == name
    &&& r.columns@.last().sql_type@ == sql_type
    &&& r.columns@.last().nullable
    &&& r.columns@.last().default is None
    &&& !r.columns@.last().primary_key
    &&& !r.columns@.last().auto_increment
    &&& r.name == b.name
    &&& r.schema_name == b.schema_name
    &&& r.indexes == b.indexes
    &&& r.primary_key == b.primary_key
    &&& r.primary_keys == b.primary_keys
}

impl TableSchemaBuilder {
    /// A builder for table `name` with nothing in it.
    pub fn new(name: &str) -> (r: Self)
        ensures
            r.name@ == name@,
            r.schema_name is None,
            r.columns@.len() == 0,
            r.indexes@.len() == 0,
            r.primary_key@.len() == 0,
            r.primary_keys@.len() == 0,
    {
        TableSchemaBuilder {
            name: name.to_string(),
            schema_name: None,
            columns: Vec::new(),
            indexes: Vec::new(),
            primary_key: String::new(),
            primary_keys: Vec::new(),
        }
    }

    /// Qualifies the table with a schema name.
    pub fn schema(self, schema_name: &str) -> (r: Self)
        ensures
            r.schema_name matches Some(s) && s@ == schema_name@,
            r.name == self.name,
            r.columns == self.columns,
            r.indexes == self.indexes,
            r.primary_key == self.primary_key,
            r.primary_keys == self.primary_keys,
    {
        let mut r = self;
        r.schema_name = Some(schema_name.to_string());
        r
    }

    /// Adds a column (see `added_column`).
    pub fn column(self, schema: ColumnSchema) -> (r: Self)
        ensures
            added_column(self, schema, r),
    {
        let mut r = self;
        if schema.primary_key {
            let empty = chars_of(r.primary_key.as_str()).len() == 0;
            if empty {
                r.primary_key = schema.name.clone();
            }
            let n = schema.name.clone();
            proof {
                assert(views(r.primary_keys@).len() == r.primary_keys@.len());
            }
            r.primary_keys.push(n);
            assert(views(r.primary_keys@) =~= views(self.primary_keys@).push(schema.name@));
        }
        r.columns.push(schema);
        r
    }

    fn typed(self, name: &str, sql_type: &str) -> (r: Self)
        ensures
            added_typed_column(self, name@, sql_type@, r),
    {
        let r = self.column(ColumnSchema::new(name, sql_type));
        assert(r.columns@.drop_last() =~= self.columns@);
        r
    }

    /// Adds a BIGINT column.
    pub fn bigint(self, name: &str) -> (r: Self)
        ensures
            added_typed_column(self, name@, "BIGINT"@, r),
    {
        self.typed(name, "BIGINT")
    }

    /// Adds an INTEGER column.
    pub fn integer(self, name: &str) -> (r: Self)
        ensures
            added_typed_column(self, name@, "INTEGER"@, r),
    {
        self.typed(name, "INTEGER")
    }

    /// Adds a SMALLINT column.
    pub fn smallint(self, name: &str) -> (r: Self)
        ensures
            added_typed_column(self, name@, "SMALLINT"@, r),
    {
        self.typed(name, "SMALLINT")
    }

    /// Adds a TEXT column.
    pub fn text(self, name: &str) -> (r: Self)
        ensures
            added_typed_column(self, name@, "TEXT"@, r),
    {
        self.typed(name, "TEXT")
    }

    /// Adds a `VARCHAR(length)` column.
    pub fn varchar(self, name: &str, length: u32) -> (r: Self)
        ensures
            added_typed_column(self, name@, "VARCHAR("@ + decimal(length as nat) + ")"@, r),
    {
        let mut t: Vec<char> = Vec::new();
        push_str(&mut t, "VARCHAR(");
        push_u64(&mut t, length as u64);
        push_str(&mut t, ")");
        let ts = string_of(&t);
        self.typed(name, ts.as_str())
    }

    /// Adds a BOOLEAN column.
    pub fn boolean(self, name: &str) -> (r: Self)
        ensures
            added_typed_column(self, name@, "BOOLEAN"@, r),
    {
        self.typed(name, "BOOLEAN")
    }

    /// Adds a TIMESTAMP (without time zone) column.
    pub fn timestamp(self, name: &str) -> (r: Self)
        ensures
            added_typed_column(self, name@, "TIMESTAMP"@, r),
    {
        self.typed(name, "TIMESTAMP")
    }

    /// Adds a TIMESTAMPTZ column.
    pub fn timestamptz(self, name: &str) -> (r: Self)
        ensures
            added_typed_column(self, name@, "TIMESTAMPTZ"@, r),
    {
        self.typed(name, "TIMESTAMPTZ")
    }

    /// Adds a DATE column.
    pub fn date(self, name: &str) -> (r: Self)
        ensures
            added_typed_column(self, name@, "DATE"@, r),
    {
        self.typed(name, "DATE")
    }

    /// Adds a TIME column.
    pub fn time(self, name: &str) -> (r: Self)
        ensures
            added_typed_column(self, name@, "TIME"@, r),
    {
        self.typed(name, "TIME")
    }

    /// Adds a UUID column.
    pub fn uuid(self, name: &str) -> (r: Self)
        ensures
            added_typed_column(self, name@, "UUID"@, r),
    {
        self.typed(name, "UUID")
    }

    /// Adds a DECIMAL column.
    pub fn decimal(self, name: &str) -> (r: Self)
        ensures
            added_typed_column(self, name@, "DECIMAL"@, r),
    {
        self.typed(name, "DECIMAL")
    }

    /// Adds a `DECIMAL(precision,scale)` column.
    pub fn decimal_with_precision(self, name: &str, precision: u32, scale: u32) -> (r: Self)
        ensures
            added_typed_column(
                self,
                name@,
                "DECIMAL("@ + decimal(precision as nat) + ","@ + decimal(scale as nat) + ")"@,
                r,
            ),
    {
        let mut t: Vec<char> = Vec::new();
        push_str(&mut t, "DECIMAL(");
        push_u64(&mut t, precision as u64);
        push_str(&mut t, ",");
        push_u64(&mut t, scale as u64);
        push_str(&mut t, ")");
        let ts = string_of(&t);
        self.typed(name, ts.as_str())
    }

    /// Adds a JSONB column.
    pub fn jsonb(self, name: &str) -> (r: Self)
        ensures
            added_typed_column(self, name@, "JSONB"@, r),
    {
        self.typed(name, "JSONB")
    }

    /// Adds a JSON column.
    pub fn json(self, name: &str) -> (r: Self)
        ensures
            added_typed_column(self, name@, "JSON"@, r),
    {
        self.typed(name, "JSON")
    }

    /// Adds a BYTEA column.
    pub fn bytea(self, name: &str) -> (r: Self)
        ensures
            added_typed_column(self, name@, "BYTEA"@, r),
    {
        self.typed(name, "BYTEA")
    }

    /// Adds a REAL column.
    pub fn real_column(self, name: &str) -> (r: Self)
        ensures
            added_typed_column(self, name@, "REAL"@, r),
    {
        self.typed(name, "REAL")
    }

    /// Adds a DOUBLE PRECISION column.
    pub fn double(self, name: &str) -> (r: Self)
        ensures
            added_typed_column(self, name@, "DOUBLE PRECISION"@, r),
    {
        self.typed(name, "DOUBLE PRECISION")
    }

    /// Adds an index.
    pub fn index(self, index: IndexDefinition) -> (r: Self)
        ensures
            r.indexes@ == self.indexes@.push(index),
            r.name == self.name,
            r.schema_name == self.schema_name,
            r.columns == self.columns,
            r.primary_key == self.primary_key,
            r.primary_keys == self.primary_keys,
    {
        let mut r = self;
        r.indexes.push(index);
        r
    }

    /// Adds several indexes, in order.
    pub fn indexes(self, indexes: Vec<IndexDefinition>) -> (r: Self)
        ensures
            r.indexes@ == self.indexes@ + indexes@,
            r.name == self.name,
            r.schema_name == self.schema_name,
            r.columns == self.columns,
            r.primary_key == self.primary_key,
            r.primary_keys == self.primary_keys,
    {
        let mut r = self;
        let mut more = indexes;
        r.indexes.append(&mut more);
        r
    }

    /// The table schema built so far.
    pub fn build(self) -> (t: TableSchema)
        ensures
            t.name == self.name,
            t.schema_name == self.schema_name,
            t.columns == self.columns,
            t.indexes == self.indexes,
            t.primary_key == self.primary_key,
            t.primary_keys == self.primary_keys,
    {
        TableSchema {
            name: self.name,
            schema_name: self.schema_name,
            columns: self.columns,
            indexes: self.indexes,
            primary_key: self.primary_key,
            primary_keys: self.primary_keys,
        }
    }
}

/// `s` without its white space.
pub open spec fn drop_ws(s: Seq<char>) -> Seq<char>
    decreases s.len(),
{
    if s.len() == 0 {
        Seq::empty()
    } else if is_ws(s.last()) {
        drop_ws(s.drop_last())
    } else {
        drop_ws(s.drop_last()).push(s.last())
    }
}

/// `s` without its `&` characters.
pub open spec fn drop_amp(s: Seq<char>) -> Seq<char>
    decreases s.len(),
{
    if s.len() == 0 {
        Seq::empty()
    } else if s.last() == '&' {
        drop_amp(s.drop_last())
    } else {
        drop_amp(s.drop_last()).push(s.last())
    }
}

/// `Option<T>` unwrapped to `T`, anything else unchanged.
pub open spec fn unwrap_option(s: Seq<char>) -> Seq<char> {
    if s.len() >= 8 && s.take(7) == "Option<"@ && s.last() == '>' {
        s.subrange(7, s.len() - 1)
    } else {
        s
    }
}

/// `s` with every occurrence of the non-empty `pat` removed, scanning left to
/// right without overlaps.
pub open spec fn remove_pattern(s: Seq<char>, pat: Seq<char>) -> Seq<char>
    decreases s.len(),
{
    if s.len() == 0 || pat.len() == 0 {
        s
    } else if s.len() >= pat.len() && s.take(pat.len() as int) == pat {
        remove_pattern(s.skip(pat.len() as int), pat)
    } else {
        seq![s[0]] + remove_pattern(s.skip(1), pat)
    }
}

/// The lookup key of a Rust type spelling: white space removed, one
/// `Option<..>` unwrapped, `&` and `'static` removed, trimmed.
pub open spec fn rust_type_key(t: Seq<char>) -> Seq<char> {
    trim_ws(remove_pattern(drop_amp(unwrap_option(drop_ws(t))), "'static"@))
}

/// The PostgreSQL type of a normalized Rust type; TEXT when unknown.
pub open spec fn postgres_type_for(key: Seq<char>) -> Seq<char> {
    if key == "i8"@ || key == "i16"@ {
        "SMALLINT"@
    } else if key == "i32"@ {
        "INTEGER"@
    } else if key == "i64"@ {
        "BIGINT"@
    } else if key == "u8"@ || key == "u16"@ {
        "SMALLINT"@
    } else if key == "u32"@ {
        "INTEGER"@
    } else if key == "u64"@ {
        "BIGINT"@
    } else if key == "f32"@ {
        "REAL"@
    } else if key == "f64"@ {
        "DOUBLE PRECISION"@
    } else if key == "bool"@ {
        "BOOLEAN"@
    } else if key == "String"@ || key == "str"@ {
        "TEXT"@
    } else if key == "Uuid"@ {
        "UUID"@
    } else if key == "DateTime<Utc>"@ || key == "chrono::DateTime<Utc>"@ || key == "chrono::DateTime<chrono::Utc>"@ {
        "TIMESTAMPTZ"@
    } else if key == "DateTime"@ || key == "NaiveDateTime"@ {
        "TIMESTAMP"@
    } else if key == "NaiveDate"@ {
        "DATE"@
    } else if key == "NaiveTime"@ {
        "TIME"@
    } else if key == "Decimal"@ {
        "DECIMAL"@
    } else if key == "Json"@ || key == "JsonValue"@ || key == "Value"@ || key == "serde_json::Value"@ {
        "JSONB"@
    } else if key == "Vec<u8>"@ {
        "BYTEA"@
    } else if key == "Vec<i32>"@ || key == "IntArray"@ {
        "INTEGER[]"@
    } else if key == "Vec<i64>"@ || key == "BigIntArray"@ {
        "BIGINT[]"@
    } else if key == "Vec<String>"@ || key == "TextArray"@ {
        "TEXT[]"@
    } else if key == "Vec<bool>"@ || key == "BoolArray"@ {
        "BOOLEAN[]"@
    } else if key == "Vec<f64>"@ || key == "FloatArray"@ {
        "DOUBLE PRECISION[]"@
    } else if key == "Vec<serde_json::Value>"@ || key == "JsonArray"@ {
        "JSONB[]"@
    } else {
        "TEXT"@
    }
}
/// The MySQL / MariaDB type of a normalized Rust type; TEXT when unknown.
pub open spec fn mysql_type_for(key: Seq<char>) -> Seq<char> {
    if key == "i8"@ || key == "i16"@ {
        "SMALLINT"@
    } else if key == "i32"@ {
        "INT"@
    } else if key == "i64"@ {
        "BIGINT"@
    } else if key == "u8"@ || key == "u16"@ {
        "SMALLINT UNSIGNED"@
    } else if key == "u32"@ {
        "INT UNSIGNED"@
    } else if key == "u64"@ {
        "BIGINT UNSIGNED"@
    } else if key == "f32"@ {
        "FLOAT"@
    } else if key == "f64"@ {
        "DOUBLE"@
    } else if key == "bool"@ {
        "TINYINT(1)"@
    } else if key == "String"@ || key == "str"@ {
        "TEXT"@
    } else if key == "Uuid"@ {
        "CHAR(36)"@
    } else if key == "DateTime<Utc>"@ || key == "DateTime"@ || key == "NaiveDateTime"@ {
        "DATETIME"@
    } else if key == "NaiveDate"@ {
        "DATE"@
    } else if key == "NaiveTime"@ {
        "TIME"@
    } else if key == "Decimal"@ {
        "DECIMAL(65,30)"@
    } else if key == "Json"@ || key == "JsonValue"@ || key == "Value"@ || key == "serde_json::Value"@ {
        "JSON"@
    } else if key == "Vec<u8>"@ {
        "BLOB"@
    } else if key == "Vec<i32>"@ || key == "IntArray"@ {
        "JSON"@
    } else if key == "Vec<i64>"@ || key == "BigIntArray"@ {
        "JSON"@
    } else if key == "Vec<String>"@ || key == "TextArray"@ {
        "JSON"@
    } else if key == "Vec<bool>"@ || key == "BoolArray"@ {
        "JSON"@
    } else if key == "Vec<f64>"@ || key == "FloatArray"@ {
        "JSON"@
    } else if key == "Vec<serde_json::Value>"@ || key == "JsonArray"@ {
        "JSON"@
    } else {
        "TEXT"@
    }
}
/// The SQLite type of a normalized Rust type; TEXT when unknown.
pub open spec fn sqlite_type_for(key: Seq<char>) -> Seq<char> {
    if key == "i8"@ || key == "i16"@ || key == "i32"@ || key == "i64"@ {
        "INTEGER"@
    } else if key == "u8"@ || key == "u16"@ || key == "u32"@ || key == "u64"@ {
        "INTEGER"@
    } else if key == "f32"@ || key == "f64"@ {
        "REAL"@
    } else if key == "bool"@ {
        "INTEGER"@
    } else if key == "String"@ || key == "str"@ {
        "TEXT"@
    } else if key == "Uuid"@ {
        "TEXT"@
    } else if key == "DateTime<Utc>"@ || key == "DateTime"@ || key == "NaiveDateTime"@ || key == "NaiveDate"@ || key == "NaiveTime"@ {
        "TEXT"@
    } else if key == "Decimal"@ {
        "TEXT"@
    } else if key == "Json"@ || key == "JsonValue"@ || key == "Value"@ || key == "serde_json::Value"@ {
        "TEXT"@
    } else if key == "Vec<u8>"@ {
        "BLOB"@
    } else {
        "TEXT"@
    }
}
fn postgres_type(key: &Vec<char>) -> (s: &'static str)
    ensures
        s@ == postgres_type_for(key@),
{
    if key_is(key, "i8") || key_is(key, "i16") {
        return "SMALLINT";
    }
    if key_is(key, "i32") {
        return "INTEGER";
    }
    if key_is(key, "i64") {
        return "BIGINT";
    }
    if key_is(key, "u8") || key_is(key, "u16") {
        return "SMALLINT";
    }
    if key_is(key, "u32") {
        return "INTEGER";
    }
    if key_is(key, "u64") {
        return "BIGINT";
    }
    if key_is(key, "f32") {
        return "REAL";
    }
    if key_is(key, "f64") {
        return "DOUBLE PRECISION";
    }
    if key_is(key, "bool") {
        return "BOOLEAN";
    }
    if key_is(key, "String") || key_is(key, "str") {
        return "TEXT";
    }
    if key_is(key, "Uuid") {
        return "UUID";
    }
    if key_is(key, "DateTime<Utc>") || key_is(key, "chrono::DateTime<Utc>") || key_is(key, "chrono::DateTime<chrono::Utc>") {
        return "TIMESTAMPTZ";
    }
    if key_is(key, "DateTime") || key_is(key, "NaiveDateTime") {
        return "TIMESTAMP";
    }
    if key_is(key, "NaiveDate") {
        return "DATE";
    }
    if key_is(key, "NaiveTime") {
        return "TIME";
    }
    if key_is(key, "Decimal") {
        return "DECIMAL";
    }
    if key_is(key, "Json") || key_is(key, "JsonValue") || key_is(key, "Value") || key_is(key, "serde_json::Value") {
        return "JSONB";
    }
    if key_is(key, "Vec<u8>") {
        return "BYTEA";
    }
    if key_is(key, "Vec<i32>") || key_is(key, "IntArray") {
        return "INTEGER[]";
    }
    if key_is(key, "Vec<i64>") || key_is(key, "BigIntArray") {
        return "BIGINT[]";
    }
    if key_is(key, "Vec<String>") || key_is(key, "TextArray") {
        return "TEXT[]";
    }
    if key_is(key, "Vec<bool>") || key_is(key, "BoolArray") {
        return "BOOLEAN[]";
    }
    if key_is(key, "Vec<f64>") || key_is(key, "FloatArray") {
        return "DOUBLE PRECISION[]";
    }
    if key_is(key, "Vec<serde_json::Value>") || key_is(key, "JsonArray") {
        return "JSONB[]";
    }
    "TEXT"
}
fn mysql_type(key: &Vec<char>) -> (s: &'static str)
    ensures
        s@ == mysql_type_for(key@),
{
    if key_is(key, "i8") || key_is(key, "i16") {
        return "SMALLINT";
    }
    if key_is(key, "i32") {
        return "INT";
    }
    if key_is(key, "i64") {
        return "BIGINT";
    }
    if key_is(key, "u8") || key_is(key, "u16") {
        return "SMALLINT UNSIGNED";
    }
    if key_is(key, "u32") {
        return "INT UNSIGNED";
    }
    if key_is(key, "u64") {
        return "BIGINT UNSIGNED";
    }
    if key_is(key, "f32") {
        return "FLOAT";
    }
    if key_is(key, "f64") {
        return "DOUBLE";
    }
    if key_is(key, "bool") {
        return "TINYINT(1)";
    }
    if key_is(key, "String") || key_is(key, "str") {
        return "TEXT";
    }
    if key_is(key, "Uuid") {
        return "CHAR(36)";
    }
    if key_is(key, "DateTime<Utc>") || key_is(key, "DateTime") || key_is(key, "NaiveDateTime") {
        return "DATETIME";
    }
    if key_is(key, "NaiveDate") {
        return "DATE";
    }
    if key_is(key, "NaiveTime") {
        return "TIME";
    }
    if key_is(key, "Decimal") {
        return "DECIMAL(65,30)";
    }
    if key_is(key, "Json") || key_is(key, "JsonValue") || key_is(key, "Value") || key_is(key, "serde_json::Value") {
        return "JSON";
    }
    if key_is(key, "Vec<u8>") {
        return "BLOB";
    }
    if key_is(key, "Vec<i32>") || key_is(key, "IntArray") {
        return "JSON";
    }
    if key_is(key, "Vec<i64>") || key_is(key, "BigIntArray") {
        return "JSON";
    }
    if key_is(key, "Vec<String>") || key_is(key, "TextArray") {
        return "JSON";
    }
    if key_is(key, "Vec<bool>") || key_is(key, "BoolArray") {
        return "JSON";
    }
    if key_is(key, "Vec<f64>") || key_is(key, "FloatArray") {
        return "JSON";
    }
    if key_is(key, "Vec<serde_json::Value>") || key_is(key, "JsonArray") {
        return "JSON";
    }
    "TEXT"
}
fn sqlite_type(key: &Vec<char>) -> (s: &'static str)
    ensures
        s@ == sqlite_type_for(key@),
{
    if key_is(key, "i8") || key_is(key, "i16") || key_is(key, "i32") || key_is(key, "i64") {
        return "INTEGER";
    }
    if key_is(key, "u8") || key_is(key, "u16") || key_is(key, "u32") || key_is(key, "u64") {
        return "INTEGER";
    }
    if key_is(key, "f32") || key_is(key, "f64") {
        return "REAL";
    }
    if key_is(key, "bool") {
        return "INTEGER";
    }
    if key_is(key, "String") || key_is(key, "str") {
        return "TEXT";
    }
    if key_is(key, "Uuid") {
        return "TEXT";
    }
    if key_is(key, "DateTime<Utc>") || key_is(key, "DateTime") || key_is(key, "NaiveDateTime") || key_is(key, "NaiveDate") || key_is(key, "NaiveTime") {
        return "TEXT";
    }
    if key_is(key, "Decimal") {
        return "TEXT";
    }
    if key_is(key, "Json") || key_is(key, "JsonValue") || key_is(key, "Value") || key_is(key, "serde_json::Value") {
        return "TEXT";
    }
    if key_is(key, "Vec<u8>") {
        return "BLOB";
    }
    "TEXT"
}
/// The SQL type a Rust type maps to on `db`; TEXT when unknown.
pub open spec fn rust_sql_type(t: Seq<char>, db: DatabaseType) -> Seq<char> {
    let key = rust_type_key(t);
    match db {
        DatabaseType::Postgres => postgres_type_for(key),
        DatabaseType::MySQL | DatabaseType::MariaDB => mysql_type_for(key),
        DatabaseType::SQLite => sqlite_type_for(key),
    }
}

/// The least and greatest value an integer column type holds on `db`:
/// SMALLINT, INTEGER (MySQL's INT) and BIGINT are 16, 32 and 64 bits signed
/// on PostgreSQL and MySQL, MySQL's UNSIGNED variants are their unsigned
/// counterparts, and SQLite's INTEGER is 64 bits signed; `None` for any other
/// type.
pub open spec fn sql_int_range(db: DatabaseType, t: Seq<char>) -> Option<(int, int)> {
    match db {
        DatabaseType::Postgres => if t == "SMALLINT"@ {
            Some((i16::MIN as int, i16::MAX as int))
        } else if t == "INTEGER"@ {
            Some((i32::MIN as int, i32::MAX as int))
        } else if t == "BIGINT"@ {
            Some((i64::MIN as int, i64::MAX as int))
        } else {
            None
        },
        DatabaseType::SQLite => if t == "INTEGER"@ {
            Some((i64::MIN as int, i64::MAX as int))
        } else {
            None
        },
        _ => if t == "SMALLINT"@ {
            Some((i16::MIN as int, i16::MAX as int))
        } else if t == "INT"@ {
            Some((i32::MIN as int, i32::MAX as int))
        } else if t == "BIGINT"@ {
            Some((i64::MIN as int, i64::MAX as int))
        } else if t == "SMALLINT UNSIGNED"@ {
            Some((0, u16::MAX as int))
        } else if t == "INT UNSIGNED"@ {
            Some((0, u32::MAX as int))
        } else if t == "BIGINT UNSIGNED"@ {
            Some((0, u64::MAX as int))
        } else {
            None
        },
    }
}

/// On PostgreSQL a fixed-width Rust integer type gets an integer column with
/// at least as many values, the narrowest such of SMALLINT, INTEGER and
/// BIGINT; for a signed type the column holds every value of the type.
/// PostgreSQL has no unsigned types: an unsigned type gets the signed column
/// of its own width (`u8` the narrowest, SMALLINT).
pub proof fn lemma_postgres_integer_columns_fit(rust_type: Seq<char>)
    ensures
        rust_int_range(rust_type_key(rust_type)) matches Some(r) ==> {
            &&& sql_int_range(DatabaseType::Postgres, rust_sql_type(rust_type, DatabaseType::Postgres)) matches Some(
                cr,
            )
            &&& range_size(r) <= range_size(cr)
            &&& (r.0 < 0 ==> range_within(r, cr))
            &&& forall|other: Seq<char>| #[trigger] sql_int_range(DatabaseType::Postgres, other) is Some
                && range_size(r) <= range_size(sql_int_range(DatabaseType::Postgres, other)->0) ==> range_size(cr)
                <= range_size(sql_int_range(DatabaseType::Postgres, other)->0)
        },
{
    lemma_integer_spellings_differ();
    lemma_sql_integer_spellings_differ();
}

/// On MySQL and MariaDB a fixed-width Rust integer type gets an integer
/// column that holds every one of its values, and no integer column type
/// that also holds them all has fewer values.
pub proof fn lemma_mysql_integer_columns_fit(rust_type: Seq<char>, db: DatabaseType)
    requires
        db == DatabaseType::MySQL || db == DatabaseType::MariaDB,
    ensures
        rust_int_range(rust_type_key(rust_type)) matches Some(r) ==> {
            &&& sql_int_range(db, rust_sql_type(rust_type, db)) matches Some(cr)
            &&& range_within(r, cr)
            &&& forall|other: Seq<char>| #[trigger] sql_int_range(db, other) is Some && range_within(
                r,
                sql_int_range(db, other)->0,
            ) ==> range_size(cr) <= range_size(sql_int_range(db, other)->0)
        },
{
    lemma_integer_spellings_differ();
    lemma_sql_integer_spellings_differ();
}

/// On SQLite every fixed-width Rust integer type is stored as INTEGER, which
/// holds every value of each of them but the upper half of `u64`.
pub proof fn lemma_sqlite_integer_columns_fit(rust_type: Seq<char>)
    ensures
        rust_int_range(rust_type_key(rust_type)) matches Some(r) ==> {
            &&& sql_int_range(DatabaseType::SQLite, rust_sql_type(rust_type, DatabaseType::SQLite)) matches Some(
                cr,
            )
            &&& (rust_type_key(rust_type) != "u64"@ ==> range_within(r, cr))
        },
{
    lemma_integer_spellings_differ();
    lemma_sql_integer_spellings_differ();
}

proof fn lemma_sql_integer_spellings_differ()
    ensures
        "SMALLINT"@ != "INTEGER"@, "SMALLINT"@ != "BIGINT"@, "INTEGER"@ != "BIGINT"@, "SMALLINT"@ != "INT"@,
        "INT"@ != "BIGINT"@, "SMALLINT UNSIGNED"@ != "SMALLINT"@, "SMALLINT UNSIGNED"@ != "INT"@,
        "SMALLINT UNSIGNED"@ != "BIGINT"@, "INT UNSIGNED"@ != "SMALLINT"@, "INT UNSIGNED"@ != "INT"@,
        "INT UNSIGNED"@ != "BIGINT"@, "INT UNSIGNED"@ != "SMALLINT UNSIGNED"@, "BIGINT UNSIGNED"@
            != "SMALLINT"@, "BIGINT UNSIGNED"@ != "INT"@, "BIGINT UNSIGNED"@ != "BIGINT"@,
        "BIGINT UNSIGNED"@ != "SMALLINT UNSIGNED"@, "BIGINT UNSIGNED"@ != "INT UNSIGNED"@,
{
    reveal_strlit("SMALLINT");
    reveal_strlit("INTEGER");
    reveal_strlit("BIGINT");
    reveal_strlit("INT");
    reveal_strlit("SMALLINT UNSIGNED");
    reveal_strlit("INT UNSIGNED");
    reveal_strlit("BIGINT UNSIGNED");
    assert("SMALLINT"@[0] != "INTEGER"@[0]);
    assert("SMALLINT"@[0] != "BIGINT"@[0]);
    assert("INTEGER"@[0] != "BIGINT"@[0]);
    assert("SMALLINT"@[0] != "INT"@[0]);
    assert("INT"@[0] != "BIGINT"@[0]);
    assert("SMALLINT UNSIGNED"@.len() != "SMALLINT"@.len());
    assert("SMALLINT UNSIGNED"@[0] != "INT"@[0]);
    assert("SMALLINT UNSIGNED"@[0] != "BIGINT"@[0]);
    assert("INT UNSIGNED"@[0] != "SMALLINT"@[0]);
    assert("INT UNSIGNED"@.len() != "INT"@.len());
    assert("INT UNSIGNED"@[0] != "BIGINT"@[0]);
    assert("INT UNSIGNED"@[0] != "SMALLINT UNSIGNED"@[0]);
    assert("BIGINT UNSIGNED"@[0] != "SMALLINT"@[0]);
    assert("BIGINT UNSIGNED"@[0] != "INT"@[0]);
    assert("BIGINT UNSIGNED"@.len() != "BIGINT"@.len());
    assert("BIGINT UNSIGNED"@[0] != "SMALLINT UNSIGNED"@[0]);
    assert("BIGINT UNSIGNED"@[0] != "INT UNSIGNED"@[0]);
}

fn key_is(key: &Vec<char>, s: &str) -> (b: bool)
    ensures
        b == (key@ == s@),
{
    let cs = chars_of(s);
    chars_eq(key, &cs)
}

fn drop_ws_chars(s: &Vec<char>) -> (r: Vec<char>)
    ensures
        r@ == drop_ws(s@),
{
    let mut r: Vec<char> = Vec::new();
    let mut i: usize = 0;
    while i < s.len()
        invariant
            i <= s@.len(),
            r@ == drop_ws(s@.take(i as int)),
        decreases s.len() - i,
    {
        proof {
            assert(s@.take(i + 1).drop_last() == s@.take(i as int));
            assert(s@.take(i + 1).last() == s@[i as int]);
        }
        if !crate::text::is_whitespace(s[i]) {
            r.push(s[i]);
        }
        i = i + 1;
    }
    assert(s@.take(s@.len() as int) == s@);
    r
}

fn drop_amp_chars(s: &Vec<char>) -> (r: Vec<char>)
    ensures
        r@ == drop_amp(s@),
{
    let mut r: Vec<char> = Vec::new();
    let mut i: usize = 0;
    while i < s.len()
        invariant
            i <= s@.len(),
            r@ == drop_amp(s@.take(i as int)),
        decreases s.len() - i,
    {
        proof {
            assert(s@.take(i + 1).drop_last() == s@.take(i as int));
            assert(s@.take(i + 1).last() == s@[i as int]);
        }
        if s[i] != '&' {
            r.push(s[i]);
        }
        i = i + 1;
    }
    assert(s@.take(s@.len() as int) == s@);
    r
}

fn unwrap_option_chars(s: &Vec<char>) -> (r: Vec<char>)
    ensures
        r@ == unwrap_option(s@),
{
    let n = s.len();
    if n >= 8 && s[n - 1] == '>' {
        let head = crate::text::slice_chars(s, 0, 7);
        let opt = chars_of("Option<");
        if chars_eq(&head, &opt) {
            return crate::text::slice_chars(s, 7, n - 1);
        }
    }
    crate::text::slice_chars(s, 0, n)
}

fn starts_at(s: &Vec<char>, i: usize, pat: &Vec<char>) -> (b: bool)
    requires
        i <= s@.len(),
    ensures
        b == (s@.skip(i as int).len() >= pat@.len() && s@.skip(i as int).take(pat@.len() as int) == pat@),
{
    if s.len() - i < pat.len() {
        return false;
    }
    let n: usize = s.len();
    let mut k: usize = 0;
    while k < pat.len()
        invariant
            k <= pat@.len(),
            n == s@.len(),
            i <= s@.len(),
            i + pat@.len() <= s@.len(),
            forall|m: int| 0 <= m < k ==> s@[i + m] == pat@[m],
        decreases pat.len() - k,
    {
        assert(i + k < n);
        if s[i + k] != pat[k] {
            assert(s@.skip(i as int).take(pat@.len() as int)[k as int] != pat@[k as int]);
            return false;
        }
        k = k + 1;
    }
    assert(s@.skip(i as int).take(pat@.len() as int) =~= pat@);
    true
}

fn remove_pattern_chars(s: &Vec<char>, pat: &Vec<char>) -> (r: Vec<char>)
    ensures
        r@ == remove_pattern(s@, pat@),
{
    if pat.len() == 0 {
        return crate::text::slice_chars(s, 0, s.len());
    }
    let mut r: Vec<char> = Vec::new();
    let mut i: usize = 0;
    assert(s@.skip(0) =~= s@);
    while i < s.len()
        invariant
            i <= s@.len(),
            pat@.len() > 0,
            remove_pattern(s@, pat@) == r@ + remove_pattern(s@.skip(i as int), pat@),
        decreases s.len() - i,
    {
        let ghost rest = s@.skip(i as int);
        if starts_at(s, i, pat) {
            assert(rest.skip(pat@.len() as int) =~= s@.skip(i + pat@.len()));
            i = i + pat.len();
        } else {
            assert(rest.skip(1) =~= s@.skip(i + 1));
            assert(rest[0] == s@[i as int]);
            r.push(s[i]);
            i = i + 1;
        }
    }
    assert(s@.skip(s@.len() as int) =~= Seq::<char>::empty());
    r
}

/// The SQL type a Rust type maps to on `db_type` (see `rust_sql_type`).
pub fn rust_type_to_sql(rust_type: &str, db_type: DatabaseType) -> (s: String)
    ensures
        s@ == rust_sql_type(rust_type@, db_type),
{
    let cs = chars_of(rust_type);
    let a = drop_ws_chars(&cs);
    let b = unwrap_option_chars(&a);
    let c = drop_amp_chars(&b);
    let st = chars_of("'static");
    let d = remove_pattern_chars(&c, &st);
    let key = trim(&d);
    let t = match db_type {
        DatabaseType::Postgres => postgres_type(&key),
        DatabaseType::MySQL | DatabaseType::MariaDB => mysql_type(&key),
        DatabaseType::SQLite => sqlite_type(&key),
    };
    let tc = chars_of(t);
    string_of(&tc)
}

/// What `str::to_uppercase` returns for `s`: the Unicode upper-case mapping
/// of every character.
pub uninterp spec fn unicode_upper(s: Seq<char>) -> Seq<char>;

/// Upper-cases a string with `str::to_uppercase`; the contract only names the
/// result as a function of the characters (`unicode_upper`).
#[verifier::external_body]
fn to_uppercase_string(s: &str) -> (r: String)
    ensures
        r@ == unicode_upper(s@),
{
    s.to_uppercase()
}

/// The current UTC time as `YYYY-MM-DD HH:MM:SS UTC`, from
/// `chrono::Utc::now()` formatted with `%Y-%m-%d %H:%M:%S UTC`. Nothing is
/// claimed of the text: it depends on the clock.
#[verifier::external_body]
fn generated_at_utc() -> (r: String) {
    chrono::Utc::now().format("%Y-%m-%d %H:%M:%S UTC").to_string()
}

/// The serial pseudo-type matching a declared PostgreSQL integer type, keeping
/// its width; `None` for a type without a serial form.
pub open spec fn postgres_serial(sql_type: Seq<char>) -> Option<Seq<char>> {
    let u = unicode_upper(trim_ws(sql_type));
    if u == "SMALLINT"@ || u == "INT2"@ {
        Some("SMALLSERIAL"@)
    } else if u == "INTEGER"@ || u == "INT"@ || u == "INT4"@ {
        Some("SERIAL"@)
    } else if u == "BIGINT"@ || u == "INT8"@ {
        Some("BIGSERIAL"@)
    } else {
        None
    }
}

fn postgres_serial_type(sql_type: &str) -> (r: Option<&'static str>)
    ensures
        match r {
            Some(t) => postgres_serial(sql_type@) == Some(t@),
            None => postgres_serial(sql_type@) is None,
        },
{
    let cs = chars_of(sql_type);
    let t = trim(&cs);
    let ts = string_of(&t);
    let u = to_uppercase_string(ts.as_str());
    let uc = chars_of(u.as_str());
    if key_is(&uc, "SMALLINT") || key_is(&uc, "INT2") {
        Some("SMALLSERIAL")
    } else if key_is(&uc, "INTEGER") || key_is(&uc, "INT") || key_is(&uc, "INT4") {
        Some("SERIAL")
    } else if key_is(&uc, "BIGINT") || key_is(&uc, "INT8") {
        Some("BIGSERIAL")
    } else {
        None
    }
}

/// The `Debug` spelling of a backend, used in the schema file header.
pub open spec fn db_debug_name(db: DatabaseType) -> Seq<char> {
    match db {
        DatabaseType::Postgres => "Postgres"@,
        DatabaseType::MySQL => "MySQL"@,
        DatabaseType::MariaDB => "MariaDB"@,
        DatabaseType::SQLite => "SQLite"@,
    }
}

fn db_debug_str(db: DatabaseType) -> (s: &'static str)
    ensures
        s@ == db_debug_name(db),
{
    match db {
        DatabaseType::Postgres => "Postgres",
        DatabaseType::MySQL => "MySQL",
        DatabaseType::MariaDB => "MariaDB",
        DatabaseType::SQLite => "SQLite",
    }
}

/// The table as referenced in DDL: `schema.table` quoted part by part when a
/// schema is set, otherwise the name quoted as a reference.
pub open spec fn table_ident(db: DatabaseType, t: TableSchema) -> Seq<char> {
    match t.schema_name {
        Some(s) => quoted(db, s@) + seq!['.'] + quoted(db, t.name@),
        None => strict_column(db, t.name@),
    }
}

/// One column definition line (without separator).
pub open spec fn column_def(db: DatabaseType, c: ColumnSchema) -> Seq<char> {
    let plain = "    "@ + quoted(db, c.name@) + " "@ + c.sql_type@;
    let typed = if c.auto_increment {
        match db {
            DatabaseType::Postgres => match postgres_serial(c.sql_type@) {
                Some(st) => "    "@ + quoted(db, c.name@) + " "@ + st,
                None => plain,
            },
            DatabaseType::MySQL | DatabaseType::MariaDB => plain + " AUTO_INCREMENT"@,
            DatabaseType::SQLite => plain,
        }
    } else {
        plain
    };
    typed + (if !c.nullable && !c.primary_key {
        " NOT NULL"@
    } else {
        Seq::empty()
    }) + match c.default {
        Some(d) => " DEFAULT "@ + d@,
        None => Seq::empty(),
    }
}

/// The primary-key columns of a table: the list when it has one, else the
/// single key column when set, else none.
pub open spec fn key_columns(t: TableSchema) -> Seq<Seq<char>> {
    if t.primary_keys@.len() > 0 {
        views(t.primary_keys@)
    } else if t.primary_key@.len() > 0 {
        seq![t.primary_key@]
    } else {
        Seq::empty()
    }
}

/// Identifiers quoted for `db`.
pub open spec fn quoted_names(db: DatabaseType, names: Seq<Seq<char>>) -> Seq<Seq<char>> {
    names.map_values(|n: Seq<char>| quoted(db, n))
}

/// `CREATE TABLE IF NOT EXISTS <table> (` + column lines + the primary-key
/// constraint + `);`.
pub open spec fn create_table_sql(db: DatabaseType, t: TableSchema) -> Seq<char> {
    let keys = key_columns(t);
    "CREATE TABLE IF NOT EXISTS "@ + table_ident(db, t) + " (\n"@ + seq_join(
        t.columns@.map_values(|c: ColumnSchema| column_def(db, c)),
        ",\n"@,
    ) + (if keys.len() > 0 {
        ",\n"@ + "    PRIMARY KEY ("@ + seq_join(quoted_names(db, keys), ", "@) + ")"@
    } else {
        Seq::empty()
    }) + "\n);\n"@
}

/// One `CREATE [UNIQUE] INDEX` statement; MySQL has no `IF NOT EXISTS` there.
pub open spec fn index_sql(db: DatabaseType, t: TableSchema, ix: IndexDefinition) -> Seq<char> {
    "CREATE "@ + (if ix.unique {
        "UNIQUE INDEX"@
    } else {
        "INDEX"@
    }) + " "@ + (if db == DatabaseType::MySQL {
        Seq::empty()
    } else {
        "IF NOT EXISTS "@
    }) + quoted(db, ix.name@) + " ON "@ + table_ident(db, t) + " ("@ + seq_join(
        quoted_names(db, views(ix.columns@)),
        ", "@,
    ) + ");\n"@
}

/// The index statements of a table, in order.
pub open spec fn indexes_sql(db: DatabaseType, t: TableSchema, ixs: Seq<IndexDefinition>) -> Seq<char>
    decreases ixs.len(),
{
    if ixs.len() == 0 {
        Seq::empty()
    } else {
        indexes_sql(db, t, ixs.drop_last()) + index_sql(db, t, ixs.last())
    }
}

/// Every table's CREATE TABLE statement followed by a blank line.
pub open spec fn tables_create_sql(db: DatabaseType, ts: Seq<TableSchema>) -> Seq<char>
    decreases ts.len(),
{
    if ts.len() == 0 {
        Seq::empty()
    } else {
        tables_create_sql(db, ts.drop_last()) + create_table_sql(db, ts.last()) + "\n"@
    }
}

/// Every table's index statements, each non-empty block followed by a blank
/// line.
pub open spec fn tables_index_sql(db: DatabaseType, ts: Seq<TableSchema>) -> Seq<char>
    decreases ts.len(),
{
    if ts.len() == 0 {
        Seq::empty()
    } else {
        let ix = indexes_sql(db, ts.last(), ts.last().indexes@);
        tables_index_sql(db, ts.drop_last()) + if ix.len() > 0 {
            ix + "\n"@
        } else {
            Seq::empty()
        }
    }
}

/// A schema file for `ts` on `db` stamped `generated_at`: the header, the
/// CREATE TABLE statements, then the index statements.
pub open spec fn schema_sql(db: DatabaseType, ts: Seq<TableSchema>, generated_at: Seq<char>) -> Seq<char> {
    "-- TideORM Generated Schema\n"@ + "-- Database: "@ + db_debug_name(db) + "\n"@ + "-- Generated at: "@
        + generated_at + "\n\n"@ + tables_create_sql(db, ts) + tables_index_sql(db, ts)
}

/// Renders schema SQL for a set of tables.
#[derive(Clone, Debug)]
pub struct SchemaGenerator {
    /// The backend the DDL is written for.
    pub database_type: DatabaseType,
    /// The tables, in the order added.
    pub tables: Vec<TableSchema>,
}

fn push_part(parts: &mut Vec<Vec<char>>, v: Vec<char>)
    ensures
        vviews(final(parts)@) == vviews(old(parts)@).push(v@),
{
    let ghost w = v@;
    parts.push(v);
    assert(vviews(parts@) =~= vviews(old(parts)@).push(w));
}

fn push_quoted_names(out: &mut Vec<char>, db: DatabaseType, names: &Vec<String>)
    ensures
        final(out)@ == old(out)@ + seq_join(quoted_names(db, views(names@)), ", "@),
{
    let ghost spec_parts = quoted_names(db, views(names@));
    let mut parts: Vec<Vec<char>> = Vec::new();
    let mut i: usize = 0;
    while i < names.len()
        invariant
            i <= names@.len(),
            spec_parts == quoted_names(db, views(names@)),
            vviews(parts@) == spec_parts.take(i as int),
        decreases names.len() - i,
    {
        let n = chars_of(names[i].as_str());
        let mut v: Vec<char> = Vec::new();
        push_quoted(&mut v, db, &n);
        push_part(&mut parts, v);
        assert(vviews(parts@) =~= spec_parts.take(i + 1));
        i = i + 1;
    }
    assert(spec_parts.take(names@.len() as int) =~= spec_parts);
    push_joined_chars(out, &parts, ", ");
}

impl SchemaGenerator {
    /// A generator for `database_type` with no tables.
    pub fn new(database_type: DatabaseType) -> (g: Self)
        ensures
            g.database_type == database_type,
            g.tables@.len() == 0,
    {
        SchemaGenerator { database_type, tables: Vec::new() }
    }

    /// Adds a table.
    pub fn add_table(&mut self, schema: TableSchema)
        ensures
            final(self).tables@ == old(self).tables@.push(schema),
            final(self).database_type == old(self).database_type,
    {
        self.tables.push(schema);
    }

    fn push_table_ident(&self, out: &mut Vec<char>, t: &TableSchema)
        ensures
            final(out)@ == old(out)@ + table_ident(self.database_type, *t),
    {
        match &t.schema_name {
            Some(s) => {
                let sc = chars_of(s.as_str());
                push_quoted(out, self.database_type, &sc);
                out.push('.');
                let n = chars_of(t.name.as_str());
                push_quoted(out, self.database_type, &n);
                assert(out@ =~= old(out)@ + table_ident(self.database_type, *t));
            },
            None => {
                let n = chars_of(t.name.as_str());
                push_strict_column(out, self.database_type, &n);
            },
        }
    }

    fn column_def_chars(&self, c: &ColumnSchema) -> (r: Vec<char>)
        ensures
            r@ == column_def(self.database_type, *c),
    {
        let db = self.database_type;
        let name = chars_of(c.name.as_str());
        let mut out: Vec<char> = Vec::new();
        push_str(&mut out, "    ");
        push_quoted(&mut out, db, &name);
        push_str(&mut out, " ");
        let prefix_len = out.len();
        push_str(&mut out, c.sql_type.as_str());
        if c.auto_increment {
            match db {
                DatabaseType::Postgres => {
                    match postgres_serial_type(c.sql_type.as_str()) {
                        Some(st) => {
                            let mut o2: Vec<char> = Vec::new();
                            push_str(&mut o2, "    ");
                            push_quoted(&mut o2, db, &name);
                            push_str(&mut o2, " ");
                            push_str(&mut o2, st);
                            out = o2;
                        },
                        None => {},
                    }
                },
                DatabaseType::MySQL | DatabaseType::MariaDB => {
                    push_str(&mut out, " AUTO_INCREMENT");
                },
                DatabaseType::SQLite => {},
            }
        }
        if !c.nullable && !c.primary_key {
            push_str(&mut out, " NOT NULL");
        }
        match &c.default {
            Some(d) => {
                push_str(&mut out, " DEFAULT ");
                push_str(&mut out, d.as_str());
            },
            None => {},
        }
        assert(out@ =~= column_def(db, *c));
        out
    }

    fn create_table_chars(&self, t: &TableSchema) -> (r: Vec<char>)
        ensures
            r@ == create_table_sql(self.database_type, *t),
    {
        let db = self.database_type;
        let mut out: Vec<char> = Vec::new();
        push_str(&mut out, "CREATE TABLE IF NOT EXISTS ");
        self.push_table_ident(&mut out, t);
        push_str(&mut out, " (\n");
        let cs = &t.columns;
        let ghost spec_parts = cs@.map_values(|c: ColumnSchema| column_def(db, c));
        let mut parts: Vec<Vec<char>> = Vec::new();
        let mut i: usize = 0;
        while i < cs.len()
            invariant
                i <= cs@.len(),
                db == self.database_type,
                cs@ == t.columns@,
                spec_parts == cs@.map_values(|c: ColumnSchema| column_def(db, c)),
                vviews(parts@) == spec_parts.take(i as int),
            decreases cs.len() - i,
        {
            let v = self.column_def_chars(&cs[i]);
            push_part(&mut parts, v);
            assert(vviews(parts@) =~= spec_parts.take(i + 1));
            i = i + 1;
        }
        assert(spec_parts.take(cs@.len() as int) =~= spec_parts);
        push_joined_chars(&mut out, &parts, ",\n");
        let ghost before_keys = out@;
        if t.primary_keys.len() > 0 {
            push_str(&mut out, ",\n");
            push_str(&mut out, "    PRIMARY KEY (");
            push_quoted_names(&mut out, db, &t.primary_keys);
            push_str(&mut out, ")");
        } else if chars_of(t.primary_key.as_str()).len() > 0 {
            push_str(&mut out, ",\n");
            push_str(&mut out, "    PRIMARY KEY (");
            let one = vec![t.primary_key.clone()];
            assert(views(one@) =~= seq![t.primary_key@]);
            push_quoted_names(&mut out, db, &one);
            push_str(&mut out, ")");
        } else {
            assert(key_columns(*t).len() == 0);
        }
        push_str(&mut out, "\n);\n");
        assert(out@ =~= create_table_sql(db, *t));
        out
    }

    fn index_chars(&self, t: &TableSchema, ix: &IndexDefinition) -> (r: Vec<char>)
        ensures
            r@ == index_sql(self.database_type, *t, *ix),
    {
        let db = self.database_type;
        let mut out: Vec<char> = Vec::new();
        push_str(&mut out, "CREATE ");
        if ix.unique {
            push_str(&mut out, "UNIQUE INDEX");
        } else {
            push_str(&mut out, "INDEX");
        }
        push_str(&mut out, " ");
        if !matches!(db, DatabaseType::MySQL) {
            push_str(&mut out, "IF NOT EXISTS ");
        }
        let n = chars_of(ix.name.as_str());
        push_quoted(&mut out, db, &n);
        push_str(&mut out, " ON ");
        self.push_table_ident(&mut out, t);
        push_str(&mut out, " (");
        push_quoted_names(&mut out, db, &ix.columns);
        push_str(&mut out, ");\n");
        assert(out@ =~= index_sql(db, *t, *ix));
        out
    }

    fn indexes_chars(&self, t: &TableSchema) -> (r: Vec<char>)
        ensures
            r@ == indexes_sql(self.database_type, *t, t.indexes@),
    {
        let mut out: Vec<char> = Vec::new();
        let ixs = &t.indexes;
        let mut i: usize = 0;
        while i < ixs.len()
            invariant
                i <= ixs@.len(),
                ixs@ == t.indexes@,
                out@ == indexes_sql(self.database_type, *t, ixs@.take(i as int)),
            decreases ixs.len() - i,
        {
            proof {
                assert(ixs@.take(i + 1).drop_last() == ixs@.take(i as int));
                assert(ixs@.take(i + 1).last() == ixs@[i as int]);
            }
            let v = self.index_chars(t, &ixs[i]);
            crate::dialect::push_chars(&mut out, &v);
            i = i + 1;
        }
        assert(ixs@.take(ixs@.len() as int) =~= ixs@);
        out
    }

    /// The schema file for the added tables, stamped with `generated_at`
    /// (see `schema_sql`).
    pub fn generate_at(&self, generated_at: &str) -> (s: String)
        ensures
            s@ == schema_sql(self.database_type, self.tables@, generated_at@),
    {
        let db = self.database_type;
        let mut out: Vec<char> = Vec::new();
        push_str(&mut out, "-- TideORM Generated Schema\n");
        push_str(&mut out, "-- Database: ");
        push_str(&mut out, db_debug_str(db));
        push_str(&mut out, "\n");
        push_str(&mut out, "-- Generated at: ");
        push_str(&mut out, generated_at);
        push_str(&mut out, "\n\n");
        let ghost header = out@;
        let ts = &self.tables;
        let mut i: usize = 0;
        while i < ts.len()
            invariant
                i <= ts@.len(),
                ts@ == self.tables@,
                out@ == header + tables_create_sql(db, ts@.take(i as int)),
                db == self.database_type,
            decreases ts.len() - i,
        {
            proof {
                assert(ts@.take(i + 1).drop_last() == ts@.take(i as int));
                assert(ts@.take(i + 1).last() == ts@[i as int]);
            }
            let v = self.create_table_chars(&ts[i]);
            crate::dialect::push_chars(&mut out, &v);
            push_str(&mut out, "\n");
            assert(out@ =~= header + tables_create_sql(db, ts@.take(i + 1)));
            i = i + 1;
        }
        assert(ts@.take(ts@.len() as int) =~= ts@);
        let ghost mid = out@;
        let mut i: usize = 0;
        while i < ts.len()
            invariant
                i <= ts@.len(),
                ts@ == self.tables@,
                out@ == mid + tables_index_sql(db, ts@.take(i as int)),
                db == self.database_type,
            decreases ts.len() - i,
        {
            proof {
                assert(ts@.take(i + 1).drop_last() == ts@.take(i as int));
                assert(ts@.take(i + 1).last() == ts@[i as int]);
            }
            let v = self.indexes_chars(&ts[i]);
            if v.len() > 0 {
                crate::dialect::push_chars(&mut out, &v);
                push_str(&mut out, "\n");
            }
            assert(out@ =~= mid + tables_index_sql(db, ts@.take(i + 1)));
            i = i + 1;
        }
        assert(out@ =~= schema_sql(db, self.tables@, generated_at@));
        string_of(&out)
    }

    /// The schema file for the added tables, stamped with the current UTC
    /// time: for some stamp, exactly `schema_sql` of the tables.
    pub fn generate(&self) -> (s: String)
        ensures
            exists|stamp: Seq<char>| s@ == schema_sql(self.database_type, self.tables@, stamp),
    {
        let stamp = generated_at_utc();
        self.generate_at(stamp.as_str())
    }
}

fn copy_strings(v: &Vec<String>) -> (r: Vec<String>)
    ensures
        r@ == v@,
{
    let mut r: Vec<String> = Vec::new();
    let mut i: usize = 0;
    while i < v.len()
        invariant
            i <= v@.len(),
            r@ == v@.take(i as int),
        decreases v.len() - i,
    {
        r.push(v[i].clone());
        assert(r@ =~= v@.take(i + 1));
        i = i + 1;
    }
    assert(v@.take(v@.len() as int) =~= v@);
    r
}

fn copy_opt_string(o: &Option<String>) -> (r: Option<String>)
    ensures
        r == *o,
{
    match o {
        Some(s) => Some(s.clone()),
        None => None,
    }
}

/// Two index definitions hold the same data.
pub open spec fn same_index(a: IndexDefinition, b: IndexDefinition) -> bool {
    a.name == b.name && a.columns@ == b.columns@ && a.unique == b.unique
}

/// Two table schemas hold the same data.
pub open spec fn same_schema(a: TableSchema, b: TableSchema) -> bool {
    &&& a.name == b.name
    &&& a.schema_name == b.schema_name
    &&& a.columns@ == b.columns@
    &&& a.indexes@.len() == b.indexes@.len()
    &&& forall|i: int| 0 <= i < a.indexes@.len() ==> same_index(#[trigger] a.indexes@[i], b.indexes@[i])
    &&& a.primary_key == b.primary_key
    &&& a.primary_keys@ == b.primary_keys@
}

impl IndexDefinition {
    /// A copy of the index definition.
    pub fn duplicate(&self) -> (r: Self)
        ensures
            same_index(r, *self),
    {
        IndexDefinition { name: self.name.clone(), columns: copy_strings(&self.columns), unique: self.unique }
    }
}

impl ColumnSchema {
    /// A copy of the column schema.
    pub fn duplicate(&self) -> (r: Self)
        ensures
            r == *self,
    {
        ColumnSchema {
            name: self.name.clone(),
            sql_type: self.sql_type.clone(),
            nullable: self.nullable,
            default: copy_opt_string(&self.default),
            primary_key: self.primary_key,
            auto_increment: self.auto_increment,
        }
    }
}

impl TableSchema {
    /// A copy of the table schema.
    pub fn duplicate(&self) -> (r: Self)
        ensures
            same_schema(r, *self),
    {
        let mut columns: Vec<ColumnSchema> = Vec::new();
        let mut i: usize = 0;
        while i < self.columns.len()
            invariant
                i <= self.columns@.len(),
                columns@ == self.columns@.take(i as int),
            decreases self.columns.len() - i,
        {
            columns.push(self.columns[i].duplicate());
            assert(columns@ =~= self.columns@.take(i + 1));
            i = i + 1;
        }
        assert(self.columns@.take(self.columns@.len() as int) =~= self.columns@);
        let mut indexes: Vec<IndexDefinition> = Vec::new();
        let mut i: usize = 0;
        while i < self.indexes.len()
            invariant
                i <= self.indexes@.len(),
                indexes@.len() == i,
                forall|k: int| 0 <= k < i ==> same_index(#[trigger] indexes@[k], self.indexes@[k]),
            decreases self.indexes.len() - i,
        {
            indexes.push(self.indexes[i].duplicate());
            i = i + 1;
        }
        TableSchema {
            name: self.name.clone(),
            schema_name: copy_opt_string(&self.schema_name),
            columns,
            indexes,
            primary_key: self.primary_key.clone(),
            primary_keys: copy_strings(&self.primary_keys),
        }
    }
}

/// Two schemas describe the same table: same name, same schema name.
pub open spec fn same_table(a: TableSchema, b: TableSchema) -> bool {
    a.name@ == b.name@ && match (a.schema_name, b.schema_name) {
        (Some(x), Some(y)) => x@ == y@,
        (None, None) => true,
        _ => false,
    }
}

/// Some registered schema describes the same table as `t`.
pub open spec fn is_registered(rs: Seq<TableSchema>, t: TableSchema) -> bool {
    exists|i: int| 0 <= i < rs.len() && same_table(#[trigger] rs[i], t)
}

/// The registry after registering `t`: unchanged when the table is already
/// there, `t` appended otherwise.
pub open spec fn registered_after(rs: Seq<TableSchema>, t: TableSchema) -> Seq<TableSchema> {
    if is_registered(rs, t) {
        rs
    } else {
        rs.push(t)
    }
}

/// Registering a table twice registers it once.
pub proof fn lemma_register_idempotent(rs: Seq<TableSchema>, t: TableSchema)
    ensures
        registered_after(registered_after(rs, t), t) == registered_after(rs, t),
{
    if !is_registered(rs, t) {
        let n = rs.len() as int;
        assert(rs.push(t)[n] == t);
        assert(same_table(rs.push(t)[n], t));
    }
}

fn same_table_exec(a: &TableSchema, b: &TableSchema) -> (r: bool)
    ensures
        r == same_table(*a, *b),
{
    if a.name != b.name {
        return false;
    }
    match (&a.schema_name, &b.schema_name) {
        (Some(x), Some(y)) => *x == *y,
        (None, None) => true,
        _ => false,
    }
}

/// The tables registered for a schema file, each at most once.
#[derive(Debug)]
pub struct SchemaWriter {
    /// The registered schemas, in registration order.
    pub registry: Vec<TableSchema>,
}

impl SchemaWriter {
    /// An empty registry.
    pub fn new() -> (w: Self)
        ensures
            w.registry@.len() == 0,
    {
        SchemaWriter { registry: Vec::new() }
    }

    /// Registers a table schema unless the same table is already registered.
    pub fn register_schema(&mut self, schema: TableSchema)
        ensures
            final(self).registry@ == registered_after(old(self).registry@, schema),
    {
        let mut i: usize = 0;
        while i < self.registry.len()
            invariant
                i <= self.registry@.len(),
                self.registry@ == old(self).registry@,
                forall|k: int| 0 <= k < i ==> !same_table(#[trigger] self.registry@[k], schema),
            decreases self.registry.len() - i,
        {
            if same_table_exec(&self.registry[i], &schema) {
                return;
            }
            i = i + 1;
        }
        self.registry.push(schema);
    }

    /// Copies of the registered schemas, in registration order.
    pub fn get_registered_schemas(&self) -> (r: Vec<TableSchema>)
        ensures
            r@.len() == self.registry@.len(),
            forall|i: int| 0 <= i < r@.len() ==> same_schema(#[trigger] r@[i], self.registry@[i]),
    {
        let mut r: Vec<TableSchema> = Vec::new();
        let mut i: usize = 0;
        while i < self.registry.len()
            invariant
                i <= self.registry@.len(),
                r@.len() == i,
                forall|k: int| 0 <= k < i ==> same_schema(#[trigger] r@[k], self.registry@[k]),
            decreases self.registry.len() - i,
        {
            r.push(self.registry[i].duplicate());
            i = i + 1;
        }
        r
    }

    /// Forgets every registered schema.
    pub fn clear_registry(&mut self)
        ensures
            final(self).registry@.len() == 0,
    {
        self.registry = Vec::new();
    }
}

} // verus!
