//! What the query layer knows about a model: its table, key columns, field to
//! column mapping and soft-delete setup.

use vstd::prelude::*;
use crate::dialect::first_pos;
use crate::text::{chars_of, chars_eq, slice_chars, string_of};

verus! {

/// Model metadata the query layer renders against.
#[derive(Clone, Debug)]
pub struct ModelMeta {
    /// The model's table.
    pub table_name: String,
    /// Primary key columns, in declaration order.
    pub primary_keys: Vec<String>,
    /// `(field name, column name)` pairs, in declaration order.
    pub fields: Vec<(String, String)>,
    /// Whether the model uses soft deletes.
    pub soft_delete: bool,
    /// The soft-delete timestamp column.
    pub deleted_at_column: String,
}

/// The column of the first field whose field name or column name is `name`.
pub open spec fn lookup_column(fields: Seq<(String, String)>, name: Seq<char>) -> Option<Seq<char>>
    decreases fields.len(),
{
    if fields.len() == 0 {
        None
    } else {
        let prev = lookup_column(fields.drop_last(), name);
        if prev.is_some() {
            prev
        } else if fields.last().0@ == name || fields.last().1@ == name {
            Some(fields.last().1@)
        } else {
            None
        }
    }
}

/// A field found among the first `k` fields is the one found among all.
pub proof fn lemma_lookup_prefix(fields: Seq<(String, String)>, name: Seq<char>, k: int)
    requires
        0 <= k <= fields.len(),
        lookup_column(fields.take(k), name).is_some(),
    ensures
        lookup_column(fields, name) == lookup_column(fields.take(k), name),
    decreases fields.len(),
{
    if k < fields.len() {
        assert(fields.drop_last().take(k) == fields.take(k));
        lemma_lookup_prefix(fields.drop_last(), name, k);
    } else {
        crate::text::lemma_take_all(fields);
    }
}

/// `name` resolved to its database column, or unchanged when no field matches.
pub open spec fn resolve_column(meta: ModelMeta, name: Seq<char>) -> Seq<char> {
    match lookup_column(meta.fields@, name) {
        Some(c) => c,
        None => name,
    }
}

/// A column reference split into its qualifier and its column, with the column
/// resolved through the field map when it is unqualified or qualified by the
/// model's own table. A foreign qualifier leaves the column untouched.
pub open spec fn canonical_parts(meta: ModelMeta, ident: Seq<char>) -> (Option<Seq<char>>, Seq<char>) {
    let p = first_pos(ident, '.');
    if p < 0 {
        (None, resolve_column(meta, ident))
    } else if ident.take(p) == meta.table_name@ {
        (Some(ident.take(p)), resolve_column(meta, ident.skip(p + 1)))
    } else {
        (Some(ident.take(p)), ident.skip(p + 1))
    }
}

/// The canonical spelling of a column reference.
pub open spec fn canonical_identifier(meta: ModelMeta, ident: Seq<char>) -> Seq<char> {
    match canonical_parts(meta, ident) {
        (Some(t), c) => t + seq!['.'] + c,
        (None, c) => c,
    }
}

impl ModelMeta {
    /// Metadata for `table` with no fields, no keys and no soft delete.
    pub fn new(table: &str) -> (m: Self)
        ensures
            m.table_name@ == table@,
            m.primary_keys@.len() == 0,
            m.fields@.len() == 0,
            !m.soft_delete,
    {
        ModelMeta {
            table_name: table.to_owned(),
            primary_keys: Vec::new(),
            fields: Vec::new(),
            soft_delete: false,
            deleted_at_column: "deleted_at".to_owned(),
        }
    }

    /// Declares a field and the column it is stored in.
    pub fn field(self, field_name: &str, column_name: &str) -> (m: Self)
        ensures
            m.fields@.len() == self.fields@.len() + 1,
            m.fields@.drop_last() == self.fields@,
            m.fields@.last().0@ == field_name@,
            m.fields@.last().1@ == column_name@,
            m.table_name == self.table_name,
            m.primary_keys == self.primary_keys,
            m.soft_delete == self.soft_delete,
            m.deleted_at_column == self.deleted_at_column,
    {
        let mut m = self;
        m.fields.push((field_name.to_owned(), column_name.to_owned()));
        m
    }

    /// Declares a primary key column.
    pub fn primary_key(self, column: &str) -> (m: Self)
        ensures
            m.primary_keys@.len() == self.primary_keys@.len() + 1,
            m.primary_keys@.drop_last() == self.primary_keys@,
            m.primary_keys@.last()@ == column@,
            m.table_name == self.table_name,
            m.fields == self.fields,
            m.soft_delete == self.soft_delete,
            m.deleted_at_column == self.deleted_at_column,
    {
        let mut m = self;
        m.primary_keys.push(column.to_owned());
        m
    }

    /// Enables soft deletes on `column`.
    pub fn soft_delete(self, column: &str) -> (m: Self)
        ensures
            m.soft_delete,
            m.deleted_at_column@ == column@,
            m.table_name == self.table_name,
            m.fields == self.fields,
            m.primary_keys == self.primary_keys,
    {
        let mut m = self;
        m.soft_delete = true;
        m.deleted_at_column = column.to_owned();
        m
    }

    /// The column `name` resolves to.
    pub fn resolve_column_chars(&self, name: &Vec<char>) -> (r: Vec<char>)
        ensures
            r@ == resolve_column(*self, name@),
    {
        let mut i: usize = 0;
        while i < self.fields.len()
            invariant
                i <= self.fields@.len(),
                lookup_column(self.fields@.take(i as int), name@).is_none(),
            decreases self.fields.len() - i,
        {
            let f = chars_of(self.fields[i].0.as_str());
            let c = chars_of(self.fields[i].1.as_str());
            proof {
                let t = self.fields@.take(i + 1);
                assert(t.drop_last() == self.fields@.take(i as int));
                assert(t.last() == self.fields@[i as int]);
            }
            if chars_eq(&f, name) || chars_eq(&c, name) {
                proof {
                    lemma_lookup_prefix(self.fields@, name@, i + 1);
                }
                return c;
            }
            i = i + 1;
        }
        proof {
            crate::text::lemma_take_all(self.fields@);
        }
        slice_chars(name, 0, name.len())
    }

    /// The canonical spelling of a column reference.
    pub fn canonical_identifier_chars(&self, ident: &Vec<char>) -> (r: Vec<char>)
        ensures
            r@ == canonical_identifier(*self, ident@),
    {
        match crate::dialect::find_char(ident, '.') {
            None => self.resolve_column_chars(ident),
            Some(p) => {
                proof {
                    crate::dialect::lemma_first_pos(ident@, '.');
                }
                let n = ident.len();
                assert(p < n);
                let q = slice_chars(ident, 0, p);
                let rest = slice_chars(ident, p + 1, n);
                let t = chars_of(self.table_name.as_str());
                let col = if chars_eq(&q, &t) {
                    self.resolve_column_chars(&rest)
                } else {
                    rest
                };
                let mut out = q;
                out.push('.');
                crate::dialect::push_chars(&mut out, &col);
                out
            },
        }
    }

    /// The canonical spelling of a column reference, as a `String`.
    pub fn canonical_identifier(&self, ident: &str) -> (r: String)
        ensures
            r@ == canonical_identifier(*self, ident@),
    {
        let cs = chars_of(ident);
        let v = self.canonical_identifier_chars(&cs);
        string_of(&v)
    }
}

} // verus!
