use tideorm::builder::QueryBuilder;
use tideorm::condition::{ConditionValue, LogicalOp, Operator, OrGroup, WhereCondition};
use tideorm::dialect::{DatabaseType, Order};
use tideorm::json::JsonValue;
use tideorm::many_to_many::HasManyThrough;
use tideorm::model::ModelMeta;
use tideorm::structure::{FrameBound, FrameType, WindowFunction, WindowFunctionType};

fn tags() -> ModelMeta {
    ModelMeta::new("m2m_render_tags")
        .primary_key("id")
        .field("id", "id")
        .field("name", "name")
}

fn documents() -> ModelMeta {
    ModelMeta::new("m2m_render_documents")
        .primary_key("id")
        .field("id", "id")
        .field("metadata", "metadata")
}

fn regions() -> ModelMeta {
    ModelMeta::new("m2m_render_regions")
        .primary_key("country_id")
        .primary_key("region_id")
        .field("country_id", "country_id")
        .field("region_id", "region_id")
        .field("name", "name")
}

fn relation() -> HasManyThrough<()> {
    HasManyThrough::new("post_id", "tag_id", "id", "id", "m2m_render_post_tags")
}

const EXPECTED_LOAD_PREFIX: &str = "SELECT \"m2m_render_tags\".* FROM \"m2m_render_tags\" INNER JOIN \"m2m_render_post_tags\" ON \"m2m_render_post_tags\".\"tag_id\" = \"m2m_render_tags\".\"id\"";

#[test]
fn test_load_collapses_duplicate_pivot_rows_in_sql() {
    let sql = relation()
        .scope_to_pivot(QueryBuilder::new(tags()), &JsonValue::Int(1), true)
        .build_select_sql_for_db(DatabaseType::Postgres);

    assert!(sql.starts_with(EXPECTED_LOAD_PREFIX), "{sql}");
    assert!(sql.contains("\"m2m_render_post_tags\".\"post_id\""), "{sql}");
    assert!(
        sql.contains("GROUP BY \"m2m_render_tags\".\"id\""),
        "duplicate pivot rows are collapsed by grouping on the related primary key: {sql}"
    );
}

#[test]
fn test_load_does_not_distinct_over_a_json_column() {
    let relation: HasManyThrough<()> =
        HasManyThrough::new("post_id", "tag_id", "id", "id", "m2m_render_post_tags");

    let sql = relation
        .scope_to_pivot(QueryBuilder::new(documents()), &JsonValue::Int(1), true)
        .build_select_sql_for_db(DatabaseType::Postgres);

    assert!(
        !sql.contains("DISTINCT"),
        "SELECT DISTINCT over \"m2m_render_documents\".* cannot compare its json column: {sql}"
    );
    assert!(sql.starts_with("SELECT \"m2m_render_documents\".* FROM"), "{sql}");
    assert!(sql.contains("GROUP BY \"m2m_render_documents\".\"id\""), "{sql}");
}

#[test]
fn test_load_groups_by_every_primary_key_column() {
    let relation: HasManyThrough<()> =
        HasManyThrough::new("post_id", "tag_id", "id", "country_id", "m2m_render_post_tags");

    let sql = relation
        .scope_to_pivot(QueryBuilder::new(regions()), &JsonValue::Int(1), true)
        .build_select_sql_for_db(DatabaseType::Postgres);

    let expected_grouping =
        "GROUP BY \"m2m_render_regions\".\"country_id\", \"m2m_render_regions\".\"region_id\"";

    assert!(
        sql.contains(expected_grouping),
        "a composite identity needs every column to stay a functional dependency: {sql}"
    );
}

#[test]
fn test_constrained_load_is_left_undeduplicated() {
    let sql = relation()
        .scope_to_pivot(QueryBuilder::new(tags()), &JsonValue::Int(1), false)
        .build_select_sql_for_db(DatabaseType::Postgres);

    assert!(
        sql.starts_with("SELECT \"m2m_render_tags\".* FROM"),
        "load_with() leaves the projection to its closure: {sql}"
    );
    assert!(
        !sql.contains("GROUP BY"),
        "load_with() leaves deduplication to its closure: {sql}"
    );
}

fn cache_key_users() -> QueryBuilder {
    QueryBuilder::new(
        ModelMeta::new("cache_key_test_users")
            .primary_key("id")
            .field("id", "id")
            .field("name", "name"),
    )
}

fn compare(column: &str, operator: Operator, value: JsonValue) -> WhereCondition {
    WhereCondition {
        column: column.to_string(),
        operator,
        value: ConditionValue::Single(value),
    }
}

fn role_or_score_group() -> OrGroup {
    OrGroup {
        conditions: vec![compare("role", Operator::Eq, JsonValue::Str("admin".to_string()))],
        nested_groups: vec![OrGroup {
            conditions: vec![
                compare("score", Operator::Gt, JsonValue::Int(10)),
                compare("score", Operator::Lt, JsonValue::Int(20)),
            ],
            nested_groups: vec![],
            combine_with: LogicalOp::And,
        }],
        combine_with: LogicalOp::Or,
    }
}

fn structured_query() -> QueryBuilder {
    cache_key_users()
        .where_in(
            "status",
            vec![
                JsonValue::Str("active".to_string()),
                JsonValue::Str("pending".to_string()),
            ],
        )
        .where_group(role_or_score_group())
        .window(
            WindowFunction::new(
                WindowFunctionType::Lag("score".to_string(), Some(1), Some("0".to_string())),
                "previous_score",
            )
            .partition_by("team")
            .order_by("score", Order::Desc)
            .frame(FrameType::Rows, FrameBound::UnboundedPreceding, FrameBound::CurrentRow),
        )
        .limit(10)
}

#[test]
fn test_generate_cache_key_is_stable_for_equivalent_structured_queries() {
    let query_one = structured_query();
    let query_two = structured_query();

    assert_eq!(query_one.generate_cache_key(), query_two.generate_cache_key());
}

#[test]
fn test_unrepresentable_condition_is_rejected_instead_of_dropped() {
    let mut query = cache_key_users();
    query.conditions.push(WhereCondition {
        column: "id".to_string(),
        operator: Operator::Between,
        value: ConditionValue::Single(JsonValue::Int(1)),
    });

    let err = query.ensure_conditions_are_representable().unwrap_err();
    assert!(err.message().contains("cannot be rendered as SQL"));
}

#[test]
fn test_exists_flag_decoding_reports_undecodable_values() {
    assert!(QueryBuilder::decode_exists_flag(&JsonValue::Bool(true)).unwrap());
    assert!(!QueryBuilder::decode_exists_flag(&JsonValue::Bool(false)).unwrap());
    assert!(QueryBuilder::decode_exists_flag(&JsonValue::Int(1)).unwrap());
    assert!(!QueryBuilder::decode_exists_flag(&JsonValue::Int(0)).unwrap());

    let err = QueryBuilder::decode_exists_flag(&JsonValue::Null).unwrap_err();
    assert!(
        err.message().contains("Unable to decode"),
        "an undecodable EXISTS result must be reported: {:?}",
        err
    );
}

#[test]
fn test_count_decoding_reports_missing_and_undecodable_values() {
    let seven = JsonValue::Int(7);
    assert_eq!(QueryBuilder::decode_count_value(Some(&seven)).unwrap(), 7);

    let missing = QueryBuilder::decode_count_value(None).unwrap_err();
    assert!(missing.message().contains("no 'count' column"), "{:?}", missing);

    let text = JsonValue::Str("many".to_string());
    let undecodable = QueryBuilder::decode_count_value(Some(&text)).unwrap_err();
    assert!(undecodable.message().contains("Unable to decode"), "{:?}", undecodable);

    let negative_value = JsonValue::Int(-1);
    let negative = QueryBuilder::decode_count_value(Some(&negative_value)).unwrap_err();
    assert!(negative.message().contains("negative count"), "{:?}", negative);
}

#[test]
fn a_fragment_is_empty_until_any_slot_is_set() {
    let mut fragment = tideorm::fragment::QueryFragment::new();
    assert!(fragment.is_empty());
    assert_eq!(fragment.condition_count(), 0);
    fragment.include_trashed = true;
    assert!(!fragment.is_empty());
    let mut counted = tideorm::fragment::QueryFragment::new();
    counted.conditions.push(compare("id", Operator::Eq, JsonValue::Int(1)));
    counted.or_groups.push(role_or_score_group());
    assert_eq!(counted.condition_count(), 4);
    assert!(!counted.is_empty());
}

#[test]
fn a_rejected_condition_names_its_operand_as_written() {
    let reject = |value: ConditionValue| {
        let mut query = cache_key_users();
        query.conditions.push(WhereCondition { column: "id".to_string(), operator: Operator::Between, value });
        query.ensure_conditions_are_representable().unwrap_err().message()
    };
    assert_eq!(
        reject(ConditionValue::Single(JsonValue::Int(1))),
        "WHERE condition on 'id' for model 'cache_key_test_users' pairs operator Between with an incompatible value Single(Number(1)) and cannot be rendered as SQL"
    );
    assert!(reject(ConditionValue::Single(JsonValue::Str("a\"b".to_string())))
        .contains("value Single(String(\"a\\\"b\")) and"));
    assert!(reject(ConditionValue::List(vec![JsonValue::Bool(true), JsonValue::Composite("[1,2]".to_string())]))
        .contains("value List([Bool(true), Array [Number(1), Number(2)]]) and"));
    let mut null_bound = cache_key_users();
    null_bound.conditions.push(compare("score", Operator::Gt, JsonValue::Null));
    assert_eq!(
        null_bound.ensure_conditions_are_representable().unwrap_err().message(),
        "WHERE condition on 'score' for model 'cache_key_test_users' compares against NULL with operator Gt; a NULL comparison is never true — use where_null() or where_not_null() instead"
    );
}

#[test]
fn error_context_describes_every_filter() {
    let mut query = cache_key_users()
        .where_eq("id", JsonValue::Int(1))
        .where_group(role_or_score_group())
        .where_in("tag", vec![JsonValue::Int(1), JsonValue::Str("x".to_string())])
        .having("COUNT(*) > ?", vec![JsonValue::Int(2)]);
    query.conditions.push(WhereCondition {
        column: "deleted_at".to_string(),
        operator: Operator::IsNull,
        value: ConditionValue::NoValue,
    });
    assert_eq!(
        query.error_context_conditions(),
        vec![
            "id = 1".to_string(),
            "tag IN [Number(1), String(\"x\")]".to_string(),
            "deleted_at IS NULL".to_string(),
            "(role = \"admin\" OR (score > 10 AND score < 20))".to_string(),
            "HAVING COUNT(*) > ?".to_string(),
        ]
    );
    assert_eq!(
        query.error_context_operator_chain(),
        Some(
            "id = 1 AND tag IN [Number(1), String(\"x\")] AND deleted_at IS NULL AND (role = \"admin\" OR (score > 10 AND score < 20)) AND HAVING COUNT(*) > ?"
                .to_string()
        )
    );
    assert_eq!(cache_key_users().error_context_operator_chain(), None);
}

#[test]
fn with_many_holds_the_same_relations_as_with_in_turn() {
    let meta = || ModelMeta::new("users").primary_key("id").field("id", "id");
    let many = tideorm::relations::EagerQueryBuilder::new(meta()).with_many(&["posts.comments", "profile", "posts"]);
    let in_turn = tideorm::relations::EagerQueryBuilder::new(meta())
        .with("posts.comments")
        .with("profile")
        .with("posts");
    let a = many.get_relation_tree();
    let b = in_turn.get_relation_tree();
    assert_eq!(a.roots(), b.roots());
    assert_eq!(
        a.get_nested("posts").map(|t| t.roots()),
        b.get_nested("posts").map(|t| t.roots())
    );
    assert_eq!(a.get_nested("posts").map(|t| t.roots()), Some(vec!["comments".to_string()]));
}

#[test]
fn representability_check_reaches_nested_groups() {
    let nested_bad = OrGroup {
        conditions: vec![WhereCondition {
            column: "meta".to_string(),
            operator: Operator::JsonPathExists,
            value: ConditionValue::Single(JsonValue::Str("$.a".to_string())),
        }],
        nested_groups: vec![],
        combine_with: LogicalOp::And,
    };
    let outer = OrGroup {
        conditions: vec![WhereCondition {
            column: "id".to_string(),
            operator: Operator::Eq,
            value: ConditionValue::Single(JsonValue::Int(1)),
        }],
        nested_groups: vec![nested_bad],
        combine_with: LogicalOp::Or,
    };
    let q = QueryBuilder::new(ModelMeta::new("users").primary_key("id").field("id", "id")).where_group(outer);
    assert!(q.ensure_conditions_are_representable().is_err());

    let fine = OrGroup {
        conditions: vec![WhereCondition {
            column: "id".to_string(),
            operator: Operator::Gt,
            value: ConditionValue::Single(JsonValue::Int(1)),
        }],
        nested_groups: vec![],
        combine_with: LogicalOp::And,
    };
    let q = QueryBuilder::new(ModelMeta::new("users").primary_key("id").field("id", "id")).where_group(fine);
    assert!(q.ensure_conditions_are_representable().is_ok());
}
