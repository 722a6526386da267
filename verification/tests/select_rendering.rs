use tideorm::builder::QueryBuilder;
use tideorm::dialect::DatabaseType;
use tideorm::model::ModelMeta;
use tideorm::structure::CTE;

fn users() -> QueryBuilder {
    QueryBuilder::new(
        ModelMeta::new("select_render_users")
            .primary_key("id")
            .field("id", "id")
            .field("name", "name"),
    )
}

fn accounts() -> QueryBuilder {
    QueryBuilder::new(
        ModelMeta::new("select_render_accounts")
            .primary_key("id")
            .field("id", "id")
            .field("user_name_field", "user_name"),
    )
}

fn cte() -> CTE {
    CTE::new("recent", "SELECT id FROM select_render_users".to_string())
}

#[test]
fn test_typed_and_raw_selections_compose_in_one_projection() {
    let sql = users()
        .select(vec!["id", "name"])
        .select_raw("COUNT(*) AS total")
        .build_select_sql_for_db(DatabaseType::Postgres);

    assert_eq!(
        sql,
        "SELECT \"select_render_users\".\"id\", \"select_render_users\".\"name\", COUNT(*) AS total FROM \"select_render_users\""
    );
}

#[test]
fn test_distinct_prefixes_the_projection() {
    let sql = users().distinct().build_select_sql_for_db(DatabaseType::Postgres);

    assert_eq!(
        sql,
        "SELECT DISTINCT \"select_render_users\".* FROM \"select_render_users\""
    );
}

#[test]
fn test_distinct_composes_with_every_projection_source() {
    let sql = users()
        .select(vec!["id", "name"])
        .select_raw("COUNT(*) AS total")
        .distinct()
        .build_select_sql_for_db(DatabaseType::Postgres);

    assert_eq!(
        sql,
        "SELECT DISTINCT \"select_render_users\".\"id\", \"select_render_users\".\"name\", COUNT(*) AS total FROM \"select_render_users\""
    );
}

#[test]
fn test_empty_selection_falls_back_to_the_model_projection() {
    let sql = users()
        .select(Vec::new())
        .build_select_sql_for_db(DatabaseType::Postgres);

    assert_eq!(
        sql,
        "SELECT \"select_render_users\".* FROM \"select_render_users\""
    );
}

#[test]
fn test_cte_name_uses_backend_identifier_quoting() {
    let query = users().with_cte(cte());

    let mysql_sql = query.build_select_sql_for_db(DatabaseType::MySQL);
    assert!(
        mysql_sql.starts_with("WITH `recent` AS ("),
        "MySQL rejects a double-quoted CTE name: {mysql_sql}"
    );

    let postgres_sql = query.build_select_sql_for_db(DatabaseType::Postgres);
    assert!(
        postgres_sql.starts_with("WITH \"recent\" AS ("),
        "{postgres_sql}"
    );
}

#[test]
fn test_parameterized_cte_name_uses_backend_identifier_quoting() {
    let query = users().with_cte(cte());
    let sql = query.build_select_sql_for_db(DatabaseType::MySQL);

    assert!(sql.starts_with("WITH `recent` AS ("), "{sql}");
}

#[test]
fn test_self_qualified_rust_field_name_renders_the_database_column() {
    let sql = accounts()
        .select(vec!["select_render_accounts.user_name_field"])
        .group_by("select_render_accounts.user_name_field")
        .order_desc("select_render_accounts.user_name_field")
        .build_select_sql_for_db(DatabaseType::Postgres);

    assert!(
        !sql.contains("user_name_field"),
        "the Rust field name must not reach SQL: {sql}"
    );
    assert!(
        sql.starts_with("SELECT \"select_render_accounts\".\"user_name\" "),
        "{sql}"
    );
    assert!(
        sql.contains("GROUP BY \"select_render_accounts\".\"user_name\""),
        "{sql}"
    );
    assert!(
        sql.contains("ORDER BY \"select_render_accounts\".\"user_name\" DESC"),
        "{sql}"
    );
}

#[test]
fn test_unqualified_rust_field_name_still_renders_the_database_column() {
    let sql = accounts()
        .order_asc("user_name_field")
        .build_select_sql_for_db(DatabaseType::Postgres);

    assert!(sql.ends_with("ORDER BY \"user_name\" ASC"), "{sql}");
}

#[test]
fn test_foreign_qualifier_is_left_untouched() {
    let sql = accounts()
        .inner_join(
            "select_render_logins",
            "select_render_accounts.id",
            "select_render_logins.account_id",
        )
        .build_select_sql_for_db(DatabaseType::Postgres);

    assert!(
        sql.contains(
            "ON \"select_render_accounts\".\"id\" = \"select_render_logins\".\"account_id\""
        ),
        "{sql}"
    );
}

#[test]
fn test_distinct_sentinel_never_reaches_parameterized_sql() {
    let (sql, _) = users()
        .distinct()
        .where_eq("name", tideorm::json::JsonValue::Str("ada".to_string()))
        .build_select_sql_with_params_for_db(DatabaseType::Postgres);

    assert!(sql.starts_with("SELECT DISTINCT \"select_render_users\".*"), "{sql}");
    assert!(!sql.contains('\u{1}'), "{sql}");
}

#[test]
fn test_distinct_count_counts_the_deduplicated_rows() {
    let (sql, _) = users().distinct().build_count_sql_with_params_for_db(DatabaseType::Postgres);

    assert_eq!(
        sql,
        "SELECT COUNT(*) AS count FROM (SELECT DISTINCT \"select_render_users\".* FROM \"select_render_users\") AS \"tideorm_count_subquery\""
    );
}

#[test]
fn test_distinct_does_not_change_the_exists_projection() {
    let (sql, _) = users().distinct().build_exists_sql_with_params_for_db(DatabaseType::Postgres);

    assert_eq!(
        sql,
        "SELECT EXISTS(SELECT 1 FROM \"select_render_users\" LIMIT 1) AS \"exists_result\""
    );
}
