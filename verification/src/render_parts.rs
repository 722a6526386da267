//! The renderer's pieces as methods of the builder, each returning its text:
//! one column of the projection, the SELECT clause, one condition, one group,
//! one ORDER BY term, one HAVING clause and one value preview.

use vstd::prelude::*;
use crate::builder::QueryBuilder;
use crate::condition::{OrGroup, WhereCondition};
use crate::dialect::{DatabaseType, Order};
use crate::json::JsonValue;
use crate::render_select::{
    having_preview, order_term_sql, push_having_preview, push_order_term, push_select_column, select_clause_sql,
    select_column_sql,
};
use crate::render_where::{condition_sql, group_sql, preview_value, push_preview_value, render_condition, render_group};
use crate::text::{chars_of, string_of};

verus! {

impl QueryBuilder {
    /// One typed projection entry (see `select_column_sql`).
    pub fn format_select_column_for_db(&self, db_type: DatabaseType, column: &str) -> (s: String)
        ensures
            s@ == select_column_sql(self.meta, db_type, column@),
    {
        let mut out: Vec<char> = Vec::new();
        let c = chars_of(column);
        push_select_column(&mut out, &self.meta, db_type, &c);
        string_of(&out)
    }

    /// `SELECT [DISTINCT] <projection> ` (see `select_clause_sql`).
    pub fn build_select_clause_sql(&self, db_type: DatabaseType) -> (s: String)
        ensures
            s@ == select_clause_sql(*self, db_type),
    {
        let mut out: Vec<char> = Vec::new();
        self.push_select_clause(&mut out, db_type);
        string_of(&out)
    }

    /// The preview of one condition, when it is representable (see
    /// `condition_sql`).
    pub fn build_condition_sql_for_db(&self, condition: &WhereCondition, db_type: DatabaseType) -> (r: Option<
        String,
    >)
        ensures
            match r {
                Some(s) => condition_sql(self.meta, db_type, *condition) == Some(s@),
                None => condition_sql(self.meta, db_type, *condition) is None,
            },
    {
        match render_condition(&self.meta, db_type, condition) {
            Some(v) => Some(string_of(&v)),
            None => None,
        }
    }

    /// The preview of one group (see `group_sql`).
    pub fn build_or_group_sql_for_db(&self, group: &OrGroup, db_type: DatabaseType) -> (s: String)
        ensures
            s@ == group_sql(self.meta, db_type, *group),
    {
        let v = render_group(&self.meta, db_type, group);
        string_of(&v)
    }

    /// One ORDER BY term (see `order_term_sql`).
    pub fn format_order_by_for_db(&self, db_type: DatabaseType, column: &str, direction: Order) -> (s: String)
        ensures
            s@ == order_term_sql(self.meta, db_type, column@, direction),
    {
        let mut out: Vec<char> = Vec::new();
        let c = chars_of(column);
        push_order_term(&mut out, &self.meta, db_type, &c, direction);
        string_of(&out)
    }

    /// A HAVING template with its `?` placeholders replaced by the previews of
    /// the values, in order (see `having_preview`).
    pub fn render_having_preview_sql(&self, sql_template: &str, params: &Vec<JsonValue>) -> (s: String)
        ensures
            s@ == having_preview(sql_template@, params@),
    {
        let mut out: Vec<char> = Vec::new();
        let t = chars_of(sql_template);
        push_having_preview(&mut out, &t, params);
        string_of(&out)
    }

    /// The preview literal of a value (see `preview_value`).
    pub fn format_preview_value(value: &JsonValue) -> (s: String)
        ensures
            s@ == preview_value(*value),
    {
        let mut out: Vec<char> = Vec::new();
        push_preview_value(&mut out, value);
        string_of(&out)
    }

    /// The preview literals of values, in order.
    pub fn preview_values(values: &Vec<JsonValue>) -> (r: Vec<String>)
        ensures
            r@.len() == values@.len(),
            forall|i: int| 0 <= i < values@.len() ==> (#[trigger] r@[i])@ == preview_value(values@[i]),
    {
        let mut r: Vec<String> = Vec::new();
        let mut i: usize = 0;
        while i < values.len()
            invariant
                i <= values@.len(),
                r@.len() == i,
                forall|j: int| 0 <= j < i ==> (#[trigger] r@[j])@ == preview_value(values@[j]),
            decreases values@.len() - i,
        {
            r.push(QueryBuilder::format_preview_value(&values[i]));
            i = i + 1;
        }
        r
    }
}

} // verus!
