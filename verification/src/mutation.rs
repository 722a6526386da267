//! Guards that keep bulk mutations from touching more rows than intended.

use vstd::prelude::*;
use crate::builder::QueryBuilder;
use crate::condition::{condition_is_vacuous, condition_vacuous, group_restrictive};
use crate::error::{Error, message_of};
use crate::text::{chars_of, is_whitespace, is_ws, push_str, string_of, to_upper, upper};

verus! {

/// The query carries a clause that a DELETE/UPDATE cannot honour.
pub open spec fn has_select_modifiers(q: QueryBuilder) -> bool {
    ||| q.joins@.len() > 0
    ||| q.group_by@.len() > 0
    ||| q.having_conditions@.len() > 0
    ||| q.unions@.len() > 0
    ||| q.ctes@.len() > 0
    ||| q.window_functions@.len() > 0
    ||| q.select_columns.is_some()
    ||| q.raw_select_expressions@.len() > 0
    ||| q.subquery_select_expressions@.len() > 0
    ||| q.order_by@.len() > 0
    ||| q.limit_value.is_some()
    ||| q.offset_value.is_some()
}

/// Some declared filter can exclude a row: a non-vacuous condition, or a
/// restrictive group.
pub open spec fn has_explicit_filters(q: QueryBuilder) -> bool {
    ||| exists|i: int| 0 <= i < q.conditions@.len() && !condition_vacuous(#[trigger] q.conditions@[i])
    ||| exists|i: int| 0 <= i < q.or_groups@.len() && group_restrictive(#[trigger] q.or_groups@[i])
}

/// The message of a rejected modifier.
pub open spec fn modifiers_message(op: Seq<char>) -> Seq<char> {
    op + " does not support SELECT/JOIN/ORDER/GROUP specific query modifiers"@
}

/// The message of a mutation without a restrictive filter.
pub open spec fn unfiltered_message(op: Seq<char>) -> Seq<char> {
    op + " requires at least one explicit filter that can exclude a row; unfiltered bulk mutations are blocked"@
}

/// The message of a rendered WHERE body that matches every row.
pub open spec fn unrestricted_message(op: Seq<char>) -> Seq<char> {
    op + " rendered a WHERE clause that matches every row; unfiltered bulk mutations are blocked"@
}

/// The message of a full-table mutation that was given filters.
pub open spec fn filtered_message(op: Seq<char>) -> Seq<char> {
    op + " does not accept WHERE filters; use delete() when you intend to target specific rows"@
}

/// A WHERE body with white space and parentheses removed and ASCII upper-cased.
pub open spec fn guard_normal_form(s: Seq<char>) -> Seq<char>
    decreases s.len(),
{
    if s.len() == 0 {
        Seq::empty()
    } else if is_ws(s.last()) || s.last() == '(' || s.last() == ')' {
        guard_normal_form(s.drop_last())
    } else {
        guard_normal_form(s.drop_last()).push(upper(s.last()))
    }
}

/// A rendered WHERE body that cannot exclude any row: empty, or one of the
/// constant-true spellings.
pub open spec fn unrestricted_body(s: Seq<char>) -> bool {
    let n = guard_normal_form(s);
    ||| n == Seq::<char>::empty()
    ||| n == "TRUE"@
    ||| n == "1"@
    ||| n == "1=1"@
    ||| n == "TRUE=TRUE"@
}

fn message_with(op: &str, tail: &str) -> (s: String)
    ensures
        s@ == op@ + tail@,
{
    let mut out: Vec<char> = Vec::new();
    push_str(&mut out, op);
    push_str(&mut out, tail);
    string_of(&out)
}

impl QueryBuilder {
    /// Rejects a mutation that carries SELECT-only clauses.
    pub fn ensure_mutation_query_is_safe(&self, operation: &str) -> (r: Result<(), Error>)
        ensures
            r is Ok <==> !has_select_modifiers(*self),
            r is Err ==> r->Err_0 is InvalidQuery && message_of(r->Err_0) == modifiers_message(operation@),
    {
        if self.joins.len() > 0 || self.group_by.len() > 0 || self.having_conditions.len() > 0
            || self.unions.len() > 0 || self.ctes.len() > 0 || self.window_functions.len() > 0
            || self.select_columns.is_some() || self.raw_select_expressions.len() > 0
            || self.subquery_select_expressions.len() > 0 || self.order_by.len() > 0
            || self.limit_value.is_some() || self.offset_value.is_some() {
            return Err(
                Error::InvalidQuery(
                    message_with(operation, " does not support SELECT/JOIN/ORDER/GROUP specific query modifiers"),
                ),
            );
        }
        Ok(())
    }

    /// Whether some declared filter can exclude a row.
    pub fn has_explicit_mutation_filters(&self) -> (b: bool)
        ensures
            b == has_explicit_filters(*self),
    {
        let mut i: usize = 0;
        while i < self.conditions.len()
            invariant
                i <= self.conditions@.len(),
                forall|j: int| 0 <= j < i ==> condition_vacuous(#[trigger] self.conditions@[j]),
            decreases self.conditions.len() - i,
        {
            if !condition_is_vacuous(&self.conditions[i]) {
                return true;
            }
            i = i + 1;
        }
        let mut k: usize = 0;
        while k < self.or_groups.len()
            invariant
                k <= self.or_groups@.len(),
                forall|j: int| 0 <= j < self.conditions@.len() ==> condition_vacuous(
                    #[trigger] self.conditions@[j],
                ),
                forall|j: int| 0 <= j < k ==> !group_restrictive(#[trigger] self.or_groups@[j]),
            decreases self.or_groups.len() - k,
        {
            if self.or_groups[k].is_restrictive() {
                return true;
            }
            k = k + 1;
        }
        false
    }

    /// Requires at least one declared filter that can exclude a row.
    pub fn ensure_mutation_has_explicit_filters(&self, operation: &str) -> (r: Result<(), Error>)
        ensures
            r is Ok <==> has_explicit_filters(*self),
            r is Err ==> r->Err_0 is InvalidQuery && message_of(r->Err_0) == unfiltered_message(operation@),
    {
        if self.has_explicit_mutation_filters() {
            Ok(())
        } else {
            Err(
                Error::InvalidQuery(
                    message_with(operation, " requires at least one explicit filter that can exclude a row; unfiltered bulk mutations are blocked"),
                ),
            )
        }
    }

    /// Requires that no filter was declared, for full-table operations.
    pub fn ensure_mutation_has_no_explicit_filters(&self, operation: &str) -> (r: Result<(), Error>)
        ensures
            r is Ok <==> !has_explicit_filters(*self),
            r is Err ==> r->Err_0 is InvalidQuery && message_of(r->Err_0) == filtered_message(operation@),
    {
        if self.has_explicit_mutation_filters() {
            Err(
                Error::InvalidQuery(
                    message_with(operation, " does not accept WHERE filters; use delete() when you intend to target specific rows"),
                ),
            )
        } else {
            Ok(())
        }
    }
}

/// Whether a rendered WHERE body cannot exclude any row.
pub fn is_unrestricted_where_body(where_sql: &str) -> (b: bool)
    ensures
        b == unrestricted_body(where_sql@),
{
    let cs = chars_of(where_sql);
    let mut n: Vec<char> = Vec::new();
    let mut i: usize = 0;
    while i < cs.len()
        invariant
            i <= cs@.len(),
            n@ == guard_normal_form(cs@.take(i as int)),
        decreases cs.len() - i,
    {
        let c = cs[i];
        proof {
            assert(cs@.take(i + 1).drop_last() == cs@.take(i as int));
            assert(cs@.take(i + 1).last() == c);
        }
        if !(is_whitespace(c) || c == '(' || c == ')') {
            n.push(to_upper(c));
        }
        i = i + 1;
    }
    proof {
        crate::text::lemma_take_all(cs@);
    }
    proof {
        if n@.len() == 0 {
            assert(n@ == Seq::<char>::empty());
        }
    }
    n.len() == 0 || crate::text::chars_eq(&n, &chars_of("TRUE"))
        || crate::text::chars_eq(&n, &chars_of("1")) || crate::text::chars_eq(&n, &chars_of("1=1"))
        || crate::text::chars_eq(&n, &chars_of("TRUE=TRUE"))
}

/// Rejects a rendered WHERE body that does not restrict any row.
pub fn ensure_rendered_filter_is_restrictive(operation: &str, where_sql: &str) -> (r: Result<(), Error>)
    ensures
        r is Ok <==> !unrestricted_body(where_sql@),
        r is Err ==> r->Err_0 is InvalidQuery && message_of(r->Err_0) == unrestricted_message(operation@),
{
    if is_unrestricted_where_body(where_sql) {
        return Err(
            Error::InvalidQuery(
                message_with(operation, " rendered a WHERE clause that matches every row; unfiltered bulk mutations are blocked"),
            ),
        );
    }
    Ok(())
}

} // verus!
