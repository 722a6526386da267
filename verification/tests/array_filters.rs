use tideorm::builder::QueryBuilder;
use tideorm::condition::{ConditionValue, Operator, WhereCondition};
use tideorm::dialect::DatabaseType;
use tideorm::json::JsonValue;
use tideorm::many_to_many::HasManyThrough;
use tideorm::model::ModelMeta;

fn articles() -> QueryBuilder {
    QueryBuilder::new(
        ModelMeta::new("articles")
            .primary_key("id")
            .field("id", "id")
            .field("tags", "tags")
            .field("meta", "meta"),
    )
}

fn array(operator: Operator, values: Vec<JsonValue>) -> WhereCondition {
    WhereCondition { column: "tags".to_string(), operator, value: ConditionValue::List(values) }
}

fn words(ws: &[&str]) -> Vec<JsonValue> {
    ws.iter().map(|w| JsonValue::Str(w.to_string())).collect()
}

fn bound(c: &WhereCondition, db: DatabaseType) -> (String, Vec<JsonValue>) {
    articles().build_condition_bound(c, db).expect("an array filter renders")
}

#[test]
fn postgres_array_filters_use_array_operators() {
    let (sql, params) = bound(&array(Operator::ArrayContains, words(&["a", "b"])), DatabaseType::Postgres);
    assert_eq!(sql, "\"tags\" @> ARRAY[$1,$2]");
    assert_eq!(params, words(&["a", "b"]));
    let (sql, _) = bound(&array(Operator::ArrayContainsAll, words(&["a"])), DatabaseType::Postgres);
    assert_eq!(sql, "\"tags\" @> ARRAY[$1]");
    let (sql, _) = bound(&array(Operator::ArrayContainedBy, words(&["a"])), DatabaseType::Postgres);
    assert_eq!(sql, "\"tags\" <@ ARRAY[$1]");
    let (sql, _) = bound(&array(Operator::ArrayOverlaps, words(&["a", "b"])), DatabaseType::Postgres);
    assert_eq!(sql, "\"tags\" && ARRAY[$1,$2]");
    let (sql, _) = bound(&array(Operator::ArrayContainsAny, words(&["a"])), DatabaseType::Postgres);
    assert_eq!(sql, "\"tags\" && ARRAY[$1]");
}

#[test]
fn mysql_array_filters_use_json_contains() {
    let (sql, params) = bound(&array(Operator::ArrayContains, words(&["a", "b"])), DatabaseType::MySQL);
    assert_eq!(sql, "JSON_CONTAINS(`tags`, JSON_ARRAY(?, ?))");
    assert_eq!(params, words(&["a", "b"]));
    let (sql, _) = bound(&array(Operator::ArrayContainedBy, words(&["a"])), DatabaseType::MariaDB);
    assert_eq!(sql, "JSON_CONTAINS(JSON_ARRAY(?), `tags`)");
    let (sql, params) = bound(&array(Operator::ArrayOverlaps, words(&["a", "b"])), DatabaseType::MySQL);
    assert_eq!(
        sql,
        "(JSON_CONTAINS(`tags`, JSON_ARRAY(?)) OR JSON_CONTAINS(`tags`, JSON_ARRAY(?)))"
    );
    assert_eq!(params, words(&["a", "b"]));
    let (sql, params) = bound(&array(Operator::ArrayOverlaps, vec![]), DatabaseType::MySQL);
    assert_eq!(sql, "0 = 1");
    assert!(params.is_empty());
}

#[test]
fn sqlite_array_filters_use_json_each() {
    let (sql, params) = bound(&array(Operator::ArrayContains, words(&["a", "b"])), DatabaseType::SQLite);
    assert_eq!(
        sql,
        "(EXISTS (SELECT 1 FROM json_each(\"tags\") WHERE value = ?) AND EXISTS (SELECT 1 FROM json_each(\"tags\") WHERE value = ?))"
    );
    assert_eq!(params, words(&["a", "b"]));
    let (sql, _) = bound(&array(Operator::ArrayContainedBy, words(&["a", "b"])), DatabaseType::SQLite);
    assert_eq!(sql, "NOT EXISTS (SELECT 1 FROM json_each(\"tags\") WHERE value NOT IN (?, ?))");
    let (sql, _) = bound(&array(Operator::ArrayOverlaps, words(&["a"])), DatabaseType::SQLite);
    assert_eq!(sql, "(EXISTS (SELECT 1 FROM json_each(\"tags\") WHERE value = ?))");
}

#[test]
fn empty_array_filters_have_fixed_truth_values() {
    let (sql, params) = bound(&array(Operator::ArrayContains, vec![]), DatabaseType::SQLite);
    assert_eq!(sql, "1 = 1");
    assert!(params.is_empty());
    let (sql, _) = bound(&array(Operator::ArrayContainedBy, vec![]), DatabaseType::SQLite);
    assert_eq!(sql, "NOT EXISTS (SELECT 1 FROM json_each(\"tags\"))");
    let (sql, _) = bound(&array(Operator::ArrayOverlaps, vec![]), DatabaseType::SQLite);
    assert_eq!(sql, "0 = 1");
}

#[test]
fn array_filters_number_their_placeholders_after_earlier_values() {
    let q = articles()
        .where_eq("id", JsonValue::Int(7))
        .where_condition(array(Operator::ArrayOverlaps, words(&["x", "y"])));
    let (sql, params) = q.build_where_clause_with_condition_for_db(DatabaseType::Postgres);
    assert_eq!(sql, "(\"id\" = $1) AND (\"tags\" && ARRAY[$2,$3])");
    assert_eq!(
        params,
        vec![JsonValue::Int(7), JsonValue::Str("x".to_string()), JsonValue::Str("y".to_string())]
    );
}

#[test]
fn array_filter_preview_shows_value_literals() {
    let q = articles();
    let c = array(Operator::ArrayContains, vec![JsonValue::Str("a".to_string()), JsonValue::Int(2)]);
    assert_eq!(
        q.build_condition_sql_for_db(&c, DatabaseType::Postgres),
        Some("\"tags\" @> ARRAY['a',2]".to_string())
    );
    assert_eq!(
        q.build_condition_sql_for_db(&c, DatabaseType::MySQL),
        Some("JSON_CONTAINS(`tags`, JSON_ARRAY('a', 2))".to_string())
    );
}

#[test]
fn json_document_filters_are_rejected_not_rendered() {
    let c = WhereCondition {
        column: "meta".to_string(),
        operator: Operator::JsonContains,
        value: ConditionValue::Single(JsonValue::Composite("{\"a\":1}".to_string())),
    };
    let q = articles().where_condition(c.clone());
    assert_eq!(q.build_condition_bound(&c, DatabaseType::Postgres), None);
    assert_eq!(q.build_condition_sql_for_db(&c, DatabaseType::Postgres), None);
    assert_eq!(
        q.ensure_conditions_are_representable().unwrap_err().message(),
        "WHERE condition on 'meta' for model 'articles' uses JSON operator JsonContains, which this query builder cannot render as SQL"
    );
    let key = WhereCondition {
        column: "meta".to_string(),
        operator: Operator::JsonKeyExists,
        value: ConditionValue::Single(JsonValue::Str("a".to_string())),
    };
    assert!(articles().where_condition(key).ensure_conditions_are_representable().is_err());
}

#[test]
fn attach_writes_the_pivot_row_only_when_the_link_is_absent() {
    let relation: HasManyThrough<u8> =
        HasManyThrough::new("post_id", "tag_id", "id", "id", "post_tags").with_parent_pk(JsonValue::Int(1));
    assert_eq!(relation.attach_step(DatabaseType::Postgres, &JsonValue::Int(9), true), None);
    let (sql, params) = relation
        .attach_step(DatabaseType::Postgres, &JsonValue::Int(9), false)
        .expect("an absent link is written");
    assert_eq!(sql, "INSERT INTO \"post_tags\" (\"post_id\", \"tag_id\") VALUES ($1, $2)");
    assert_eq!(params, vec![JsonValue::Int(1), JsonValue::Int(9)]);
}

#[test]
fn query_builders_clone_with_their_filters() {
    let q = articles().where_eq("id", JsonValue::Int(3)).no_cache();
    let copy = q.clone();
    assert_eq!(copy.generate_cache_key(), q.generate_cache_key());
    assert_eq!(
        copy.build_where_sql_for_db(DatabaseType::Postgres),
        q.build_where_sql_for_db(DatabaseType::Postgres)
    );
}
