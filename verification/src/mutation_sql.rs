//! The statements that bulk mutations send, and the soft-delete stamp they
//! carry.

use vstd::prelude::*;
use crate::builder::QueryBuilder;
use crate::dialect::{DatabaseType, quote_ident, quoted};
use crate::error::Error;
use crate::model::ModelMeta;
use crate::mutation::{
    ensure_rendered_filter_is_restrictive, filtered_message, has_explicit_filters,
    has_select_modifiers, modifiers_message, unfiltered_message, unrestricted_body,
    unrestricted_message,
};
use crate::render_where::soft_delete_clauses;
use crate::render_bound::{where_bound, where_params};
use crate::json::JsonValue;
use crate::text::{push_str, string_of};
use crate::classify::{first_rejected, query_flat, rejection_message};

verus! {

/// Which rows a query over a soft-delete model sees.
#[derive(Clone, Copy, PartialEq, Eq, Debug)]
pub enum SoftDeleteScope {
    /// The model has no soft deletes.
    Disabled,
    /// Only rows that were not soft-deleted.
    ActiveOnly,
    /// Every row, soft-deleted or not.
    WithTrashed,
    /// Only soft-deleted rows.
    OnlyTrashed,
}

/// The scope that the trash flags select; asking for trashed rows only wins
/// over including them.
pub open spec fn scope_of(soft_delete: bool, include_trashed: bool, only_trashed: bool) -> SoftDeleteScope {
    if !soft_delete {
        SoftDeleteScope::Disabled
    } else if only_trashed {
        SoftDeleteScope::OnlyTrashed
    } else if include_trashed {
        SoftDeleteScope::WithTrashed
    } else {
        SoftDeleteScope::ActiveOnly
    }
}

/// The scope a query over `meta` runs in (see `scope_of`).
pub fn query_scope_for(meta: &ModelMeta, include_trashed: bool, only_trashed: bool) -> (s: SoftDeleteScope)
    ensures
        s == scope_of(meta.soft_delete, include_trashed, only_trashed),
{
    if !meta.soft_delete {
        SoftDeleteScope::Disabled
    } else if only_trashed {
        SoftDeleteScope::OnlyTrashed
    } else if include_trashed {
        SoftDeleteScope::WithTrashed
    } else {
        SoftDeleteScope::ActiveOnly
    }
}

/// A character of a MySQL wall-clock stamp: a digit or one of `- : . +` and
/// the space between date and time.
pub open spec fn wall_clock_char(c: char) -> bool {
    ('0' <= c && c <= '9') || c == '-' || c == ':' || c == '.' || c == ' ' || c == '+'
}

/// A character of an RFC 3339 stamp: a digit or one of `- : . + T`.
pub open spec fn rfc3339_char(c: char) -> bool {
    ('0' <= c && c <= '9') || c == '-' || c == ':' || c == '.' || c == '+' || c == 'T'
}

/// An RFC 3339 UTC stamp as chrono writes it: its characters, the `T`
/// between date and time, and the `+00:00` offset at the end.
pub open spec fn rfc3339_utc_text(s: Seq<char>) -> bool {
    &&& forall|i: int| 0 <= i < s.len() ==> rfc3339_char(#[trigger] s[i])
    &&& s.contains('T')
    &&& s.len() >= 6
    &&& s.subrange(s.len() - 6, s.len() as int) == "+00:00"@
}

/// The current instant from `chrono::Utc::now()`, as nanoseconds since the
/// Unix epoch (`timestamp_nanos_opt`, which has no value past the year 2262;
/// `0` stands in then). Nothing is claimed of the value: it is the clock's.
#[verifier::external_body]
fn utc_now_nanos() -> (nanos: i64) {
    chrono::Utc::now().timestamp_nanos_opt().unwrap_or_default()
}

/// What chrono writes for the UTC instant `nanos` nanoseconds after the Unix
/// epoch with `DateTime::format("%Y-%m-%d %H:%M:%S%.6f")`.
pub uninterp spec fn wall_clock_text(nanos: i64) -> Seq<char>;

/// Writes the UTC instant `nanos` nanoseconds after the Unix epoch
/// (`DateTime::from_timestamp_nanos`, defined for every `i64`) with
/// `DateTime::format("%Y-%m-%d %H:%M:%S%.6f")`: the year (four digits for
/// every such instant, which fall in 1677..=2262), month, day, hour, minute
/// and second as digits, then `.` and six digits. The contract names the text
/// and claims the characters that can occur in it.
#[verifier::external_body]
fn format_wall_clock(nanos: i64) -> (s: String)
    ensures
        s@ == wall_clock_text(nanos),
        forall|i: int| 0 <= i < s@.len() ==> wall_clock_char(#[trigger] s@[i]),
{
    chrono::DateTime::from_timestamp_nanos(nanos).format("%Y-%m-%d %H:%M:%S%.6f").to_string()
}

/// What chrono writes for the UTC instant `nanos` nanoseconds after the Unix
/// epoch with `DateTime::to_rfc3339_opts(SecondsFormat::Micros, false)`.
pub uninterp spec fn rfc3339_text(nanos: i64) -> Seq<char>;

/// Writes the UTC instant `nanos` nanoseconds after the Unix epoch
/// (`DateTime::from_timestamp_nanos`) with
/// `DateTime::to_rfc3339_opts(SecondsFormat::Micros, false)`: the date, `T`,
/// the time with six fraction digits and the offset `+00:00` (no `Z`, since
/// `use_z` is false). The contract names the text and claims that shape.
#[verifier::external_body]
fn format_rfc3339(nanos: i64) -> (s: String)
    ensures
        s@ == rfc3339_text(nanos),
        rfc3339_utc_text(s@),
{
    chrono::DateTime::from_timestamp_nanos(nanos).to_rfc3339_opts(chrono::SecondsFormat::Micros, false)
}

/// The quoted stamp of the instant `nanos` for `db`: the wall-clock text on
/// MySQL and MariaDB, which take no offset in a datetime literal, the
/// RFC 3339 text with its `+00:00` offset elsewhere.
pub open spec fn stamp_text(db: DatabaseType, nanos: i64) -> Seq<char> {
    seq!['\''] + match db {
        DatabaseType::MySQL | DatabaseType::MariaDB => wall_clock_text(nanos),
        _ => rfc3339_text(nanos),
    } + seq!['\'']
}

/// A quoted soft-delete stamp for `db`: a wall-clock text on MySQL and
/// MariaDB, which take no offset in a datetime literal, an RFC 3339 UTC text
/// with its `+00:00` offset elsewhere.
pub open spec fn stamp_literal(db: DatabaseType, s: Seq<char>) -> bool {
    &&& s.len() >= 2
    &&& s[0] == '\''
    &&& s[s.len() - 1] == '\''
    &&& match db {
        DatabaseType::MySQL | DatabaseType::MariaDB => forall|i: int|
            1 <= i < s.len() - 1 ==> wall_clock_char(#[trigger] s[i]),
        _ => rfc3339_utc_text(s.subrange(1, s.len() - 1)),
    }
}

/// `'` + `inner` + `'`.
fn quote_literal(inner: &str) -> (s: String)
    ensures
        s@ == seq!['\''] + inner@ + seq!['\''],
{
    let mut out: Vec<char> = Vec::new();
    out.push('\'');
    push_str(&mut out, inner);
    out.push('\'');
    string_of(&out)
}

/// A bulk mutation of the rows a query matches.
#[derive(Clone, Copy, PartialEq, Eq, Debug, Structural)]
pub enum Mutation {
    /// DELETE of the filtered rows.
    Delete,
    /// DELETE of every row, without filters.
    DeleteAll,
    /// Stamping the soft-delete column of the filtered rows.
    SoftDelete,
    /// Clearing the soft-delete column of the filtered trashed rows.
    Restore,
    /// DELETE of the filtered rows, trashed ones included.
    ForceDelete,
}

/// The operation's name in messages.
pub open spec fn operation_name(m: Mutation) -> Seq<char> {
    match m {
        Mutation::Delete => "delete"@,
        Mutation::DeleteAll => "delete_all"@,
        Mutation::SoftDelete => "soft_delete"@,
        Mutation::Restore => "restore"@,
        Mutation::ForceDelete => "force_delete"@,
    }
}

fn operation_str(m: Mutation) -> (s: &'static str)
    ensures
        s@ == operation_name(m),
{
    proof {
        reveal_strlit("delete");
        reveal_strlit("delete_all");
        reveal_strlit("soft_delete");
        reveal_strlit("restore");
        reveal_strlit("force_delete");
    }
    match m {
        Mutation::Delete => "delete",
        Mutation::DeleteAll => "delete_all",
        Mutation::SoftDelete => "soft_delete",
        Mutation::Restore => "restore",
        Mutation::ForceDelete => "force_delete",
    }
}

/// The message of a soft-delete operation on a model without soft deletes.
pub open spec fn soft_delete_disabled_message(m: Mutation) -> Seq<char> {
    operation_name(m) + "() can only be used on models with soft delete enabled"@
}

/// The query a mutation renders its WHERE from: restoring reaches only
/// trashed rows and force-deleting reaches trashed rows too, whatever scope
/// was asked for; the others keep the query's scope.
pub open spec fn scoped_for(q: QueryBuilder, m: Mutation) -> QueryBuilder {
    match m {
        Mutation::Restore => QueryBuilder { only_trashed: true, include_trashed: false, ..q },
        Mutation::ForceDelete => QueryBuilder { only_trashed: false, include_trashed: true, ..q },
        _ => q,
    }
}

/// Why a query cannot run at all: the reason a builder call recorded, else
/// the first condition that cannot be rendered.
pub open spec fn execution_rejection(q: QueryBuilder) -> Option<Seq<char>> {
    if q.invalid_query_reason is Some {
        Some(q.invalid_query_reason.unwrap()@)
    } else if first_rejected(query_flat(q)) is Some {
        Some(rejection_message(q.meta.table_name@, first_rejected(query_flat(q)).unwrap()))
    } else {
        None
    }
}

/// Why a mutation is refused, checked in this order: the query cannot run;
/// it carries SELECT-only clauses; a soft-delete operation on a model without
/// soft deletes; `delete_all` was given filters, or another operation was not
/// given one that can exclude a row; the rendered WHERE matches every row.
pub open spec fn mutation_rejection(q: QueryBuilder, m: Mutation, db: DatabaseType) -> Option<Seq<char>> {
    let op = operation_name(m);
    if execution_rejection(q) is Some {
        execution_rejection(q)
    } else if has_select_modifiers(q) {
        Some(modifiers_message(op))
    } else if (m is SoftDelete || m is Restore) && !q.meta.soft_delete {
        Some(soft_delete_disabled_message(m))
    } else if m is DeleteAll {
        if has_explicit_filters(q) {
            Some(filtered_message(op))
        } else {
            None
        }
    } else if !has_explicit_filters(q) {
        Some(unfiltered_message(op))
    } else if unrestricted_body(where_bound(scoped_for(q, m), db)) {
        Some(unrestricted_message(op))
    } else {
        None
    }
}

/// The values a mutation's statement binds: its WHERE clause's; `delete_all`
/// binds none.
pub open spec fn mutation_params(q: QueryBuilder, m: Mutation, db: DatabaseType) -> Seq<JsonValue> {
    if m is DeleteAll {
        Seq::empty()
    } else {
        where_params(q, db)
    }
}

/// The statement a mutation sends, `stamp` being the soft-delete literal.
pub open spec fn mutation_sql(q: QueryBuilder, m: Mutation, db: DatabaseType, stamp: Seq<char>) -> Seq<char> {
    let table = quoted(db, q.meta.table_name@);
    let deleted_at = quoted(db, q.meta.deleted_at_column@);
    let body = where_bound(scoped_for(q, m), db);
    match m {
        Mutation::Delete | Mutation::ForceDelete => "DELETE FROM "@ + table + " WHERE "@ + body,
        Mutation::DeleteAll => "DELETE FROM "@ + table,
        Mutation::SoftDelete => "UPDATE "@ + table + " SET "@ + deleted_at + " = "@ + stamp + " WHERE "@
            + body,
        Mutation::Restore => "UPDATE "@ + table + " SET "@ + deleted_at + " = NULL WHERE "@ + body,
    }
}

impl QueryBuilder {
    /// The quoted literal of the UTC instant `nanos` nanoseconds after the
    /// Unix epoch, spelled the way `db_type` reads a datetime (see
    /// `stamp_text` and `stamp_literal`).
    pub fn utc_timestamp_literal(db_type: DatabaseType, nanos: i64) -> (s: String)
        ensures
            s@ == stamp_text(db_type, nanos),
            stamp_literal(db_type, s@),
    {
        match db_type {
            DatabaseType::MySQL | DatabaseType::MariaDB => {
                let inner = format_wall_clock(nanos);
                let s = quote_literal(inner.as_str());
                assert forall|i: int| 1 <= i < s@.len() - 1 implies wall_clock_char(#[trigger] s@[i]) by {
                    assert(s@[i] == inner@[i - 1]);
                }
                s
            },
            _ => {
                let inner = format_rfc3339(nanos);
                let s = quote_literal(inner.as_str());
                assert(s@.subrange(1, s@.len() - 1) =~= inner@);
                s
            },
        }
    }

    /// The soft-delete stamp for the backend the statement is rendered for:
    /// the current UTC instant, quoted (see `stamp_literal`).
    pub fn current_timestamp_sql(db_type: DatabaseType) -> (s: String)
        ensures
            stamp_literal(db_type, s@),
    {
        let now = utc_now_nanos();
        QueryBuilder::utc_timestamp_literal(db_type, now)
    }

    /// The statement of mutation `m` over this query for `db_type`, `stamp`
    /// being the soft-delete literal; refused as `mutation_rejection` says.
    pub fn mutation_statement(self, m: Mutation, db_type: DatabaseType, stamp: &str) -> (r: Result<
        (String, Vec<JsonValue>),
        Error,
    >)
        requires
            where_params(self, db_type).len() < u64::MAX,
        ensures
            match mutation_rejection(self, m, db_type) {
                Some(msg) => r matches Err(Error::InvalidQuery(e)) && e@ == msg,
                None => r matches Ok((s, ps)) && s@ == mutation_sql(self, m, db_type, stamp@) && ps@
                    == mutation_params(self, m, db_type),
            },
    {
        match self.ensure_query_is_executable() {
            Err(e) => return Err(e),
            Ok(()) => {},
        }
        let op = operation_str(m);
        match self.ensure_mutation_query_is_safe(op) {
            Err(e) => return Err(e),
            Ok(()) => {},
        }
        let soft = match m {
            Mutation::SoftDelete | Mutation::Restore => true,
            _ => false,
        };
        if soft && !self.meta.soft_delete {
            let mut msg: Vec<char> = Vec::new();
            push_str(&mut msg, op);
            push_str(&mut msg, "() can only be used on models with soft delete enabled");
            return Err(Error::InvalidQuery(string_of(&msg)));
        }
        let table = quote_ident(db_type, self.meta.table_name.as_str());
        let mut out: Vec<char> = Vec::new();
        if m == Mutation::DeleteAll {
            match self.ensure_mutation_has_no_explicit_filters(op) {
                Err(e) => return Err(e),
                Ok(()) => {},
            }
            push_str(&mut out, "DELETE FROM ");
            push_str(&mut out, table.as_str());
            return Ok((string_of(&out), Vec::new()));
        }
        match self.ensure_mutation_has_explicit_filters(op) {
            Err(e) => return Err(e),
            Ok(()) => {},
        }
        let deleted_at = quote_ident(db_type, self.meta.deleted_at_column.as_str());
        let ghost original = self;
        let mut query = self;
        if m == Mutation::Restore {
            query.only_trashed = true;
            query.include_trashed = false;
        } else if m == Mutation::ForceDelete {
            query.only_trashed = false;
            query.include_trashed = true;
        }
        assert(query == scoped_for(original, m));
        let (body, params) = query.build_where_clause_with_condition_for_db(db_type);
        match ensure_rendered_filter_is_restrictive(op, body.as_str()) {
            Err(e) => return Err(e),
            Ok(()) => {},
        }
        match m {
            Mutation::SoftDelete => {
                push_str(&mut out, "UPDATE ");
                push_str(&mut out, table.as_str());
                push_str(&mut out, " SET ");
                push_str(&mut out, deleted_at.as_str());
                push_str(&mut out, " = ");
                push_str(&mut out, stamp);
                push_str(&mut out, " WHERE ");
            },
            Mutation::Restore => {
                push_str(&mut out, "UPDATE ");
                push_str(&mut out, table.as_str());
                push_str(&mut out, " SET ");
                push_str(&mut out, deleted_at.as_str());
                push_str(&mut out, " = NULL WHERE ");
            },
            _ => {
                push_str(&mut out, "DELETE FROM ");
                push_str(&mut out, table.as_str());
                push_str(&mut out, " WHERE ");
            },
        }
        push_str(&mut out, body.as_str());
        Ok((string_of(&out), params))
    }

    /// The soft-delete UPDATE of this query's rows for `db_type`, stamped
    /// with the current UTC instant written for that backend; refused when
    /// the rendered WHERE matches every row.
    pub fn build_soft_delete_sql(&self, db_type: DatabaseType) -> (r: Result<(String, Vec<JsonValue>), Error>)
        requires
            where_params(*self, db_type).len() < u64::MAX,
        ensures
            unrestricted_body(where_bound(*self, db_type)) ==> (r matches Err(Error::InvalidQuery(e))
                && e@ == unrestricted_message("soft_delete"@)),
            !unrestricted_body(where_bound(*self, db_type)) ==> (r matches Ok((s, ps)) && ps@ == where_params(*self, db_type)
                && exists|st: Seq<char>| #[trigger] stamp_literal(db_type, st) && s@ == mutation_sql(
                *self,
                Mutation::SoftDelete,
                db_type,
                st,
            )),
    {
        let table = quote_ident(db_type, self.meta.table_name.as_str());
        let deleted_at = quote_ident(db_type, self.meta.deleted_at_column.as_str());
        let now = Self::current_timestamp_sql(db_type);
        let (body, params) = self.build_where_clause_with_condition_for_db(db_type);
        let op = operation_str(Mutation::SoftDelete);
        match ensure_rendered_filter_is_restrictive(op, body.as_str()) {
            Err(e) => return Err(e),
            Ok(()) => {},
        }
        let mut out: Vec<char> = Vec::new();
        push_str(&mut out, "UPDATE ");
        push_str(&mut out, table.as_str());
        push_str(&mut out, " SET ");
        push_str(&mut out, deleted_at.as_str());
        push_str(&mut out, " = ");
        push_str(&mut out, now.as_str());
        push_str(&mut out, " WHERE ");
        push_str(&mut out, body.as_str());
        let s = string_of(&out);
        assert(stamp_literal(db_type, now@) && s@ == mutation_sql(*self, Mutation::SoftDelete, db_type, now@));
        Ok((s, params))
    }

    /// The statement of mutation `m` as it is sent now: for a soft delete the
    /// stamp is the current UTC instant for `db_type`; refused as
    /// `mutation_rejection` says.
    pub fn mutation_statement_now(self, m: Mutation, db_type: DatabaseType) -> (r: Result<
        (String, Vec<JsonValue>),
        Error,
    >)
        requires
            where_params(self, db_type).len() < u64::MAX,
        ensures
            match mutation_rejection(self, m, db_type) {
                Some(msg) => r matches Err(Error::InvalidQuery(e)) && e@ == msg,
                None => r matches Ok((s, ps)) && ps@ == mutation_params(self, m, db_type) && exists|st: Seq<char>|
                    #[trigger] stamp_literal(db_type, st) && s@ == mutation_sql(self, m, db_type, st),
            },
    {
        let now = Self::current_timestamp_sql(db_type);
        let r = self.mutation_statement(m, db_type, now.as_str());
        proof {
            if mutation_rejection(self, m, db_type) is None {
                assert(stamp_literal(db_type, now@));
            }
        }
        r
    }
}

/// A mutation other than `delete_all` is sent only when the query declares a
/// filter that can exclude a row and the WHERE it renders does not match
/// every row.
pub proof fn lemma_filtered_mutations_restrict(q: QueryBuilder, m: Mutation, db: DatabaseType)
    requires
        m != Mutation::DeleteAll,
        mutation_rejection(q, m, db) is None,
    ensures
        has_explicit_filters(q),
        !unrestricted_body(where_bound(scoped_for(q, m), db)),
{
}

/// `delete` and `delete_all` never both accept one query: the first needs a
/// filter that can exclude a row, the second refuses one.
pub proof fn lemma_delete_and_delete_all_exclusive(q: QueryBuilder, db: DatabaseType)
    ensures
        !(mutation_rejection(q, Mutation::Delete, db) is None && mutation_rejection(
            q,
            Mutation::DeleteAll,
            db,
        ) is None),
{
}

/// Restoring renders the trashed-only filter and force-deleting renders none,
/// whatever scope the query asked for; the other mutations keep its scope.
pub proof fn lemma_mutation_scopes(q: QueryBuilder, m: Mutation, db: DatabaseType)
    requires
        q.meta.soft_delete,
    ensures
        m == Mutation::Restore ==> soft_delete_clauses(scoped_for(q, m), db) == seq![
            quoted(db, q.meta.deleted_at_column@) + " IS NOT NULL"@,
        ],
        m == Mutation::ForceDelete ==> soft_delete_clauses(scoped_for(q, m), db) == Seq::<Seq<char>>::empty(),
        (m == Mutation::Delete || m == Mutation::SoftDelete) ==> soft_delete_clauses(scoped_for(q, m), db)
            == soft_delete_clauses(q, db),
{
}

/// The soft-delete filter a query renders is the one its scope names:
/// `IS NULL` for active rows only, `IS NOT NULL` for trashed rows only, none
/// when trashed rows are included or the model has no soft deletes.
pub proof fn lemma_scope_decides_soft_delete_filter(q: QueryBuilder, db: DatabaseType)
    ensures
        ({
            let col = quoted(db, q.meta.deleted_at_column@);
            match scope_of(q.meta.soft_delete, q.include_trashed, q.only_trashed) {
                SoftDeleteScope::ActiveOnly => soft_delete_clauses(q, db) == seq![col + " IS NULL"@],
                SoftDeleteScope::OnlyTrashed => soft_delete_clauses(q, db) == seq![col + " IS NOT NULL"@],
                _ => soft_delete_clauses(q, db) == Seq::<Seq<char>>::empty(),
            }
        }),
{
}

} // verus!
