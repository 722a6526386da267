use tideorm::builder::QueryBuilder;
use tideorm::condition::{ConditionValue, LogicalOp, Operator, OrGroup, WhereCondition};
use tideorm::dialect::DatabaseType;
use tideorm::json::JsonValue;
use tideorm::model::ModelMeta;
use tideorm::relations::{RelationPath, RelationTree};
use tideorm::render_bound::rebase_operand_placeholders;

fn users() -> QueryBuilder {
    QueryBuilder::new(
        ModelMeta::new("cache_key_test_users")
            .primary_key("id")
            .field("id", "id")
            .field("name", "name"),
    )
}

fn posts() -> QueryBuilder {
    QueryBuilder::new(
        ModelMeta::new("cache_key_test_posts")
            .primary_key("id")
            .field("id", "id")
            .field("title", "title"),
    )
}

fn cond(column: &str, operator: Operator, value: ConditionValue) -> WhereCondition {
    WhereCondition { column: column.to_string(), operator, value }
}

#[test]
fn test_union_bound_values_participate_in_the_cache_key() {
    let tenant_one = posts().union(users().where_eq("id", JsonValue::Int(1)));
    let tenant_two = posts().union(users().where_eq("id", JsonValue::Int(2)));
    assert_eq!(
        tenant_one.unions[0].query_sql, tenant_two.unions[0].query_sql,
        "a parameterized union operand renders the same SQL for either bound value"
    );
    assert_ne!(
        tenant_one.generate_cache_key(),
        tenant_two.generate_cache_key(),
        "two unions differing only in a bound value must not share a cache entry"
    );
}

#[test]
fn test_cte_bound_values_participate_in_the_cache_key() {
    let tenant_one = posts().with_query("tenant_users", users().where_eq("id", JsonValue::Int(1)));
    let tenant_two = posts().with_query("tenant_users", users().where_eq("id", JsonValue::Int(2)));
    assert_eq!(
        tenant_one.ctes[0].query_sql, tenant_two.ctes[0].query_sql,
        "a parameterized CTE body renders the same SQL for either bound value"
    );
    assert_ne!(
        tenant_one.generate_cache_key(),
        tenant_two.generate_cache_key(),
        "two CTE bodies differing only in a bound value must not share a cache entry"
    );
}

#[test]
fn equality_with_null_renders_a_null_check() {
    let q = users()
        .where_eq("name", JsonValue::Null)
        .where_condition(cond("id", Operator::NotEq, ConditionValue::Single(JsonValue::Null)));
    assert_eq!(
        q.build_where_sql_for_db(DatabaseType::Postgres),
        "(\"name\" IS NULL) AND (\"id\" IS NOT NULL)"
    );
    let (sql, params) = q.build_where_clause_with_condition_for_db(DatabaseType::Postgres);
    assert_eq!(sql, "(\"name\" IS NULL) AND (\"id\" IS NOT NULL)");
    assert!(params.is_empty());
    assert!(matches!(
        tideorm::classify::condition_spec(&q.conditions[0]),
        Some(tideorm::classify::ConditionSpec::NullCheck { negated: false })
    ));
    assert!(matches!(
        tideorm::classify::condition_spec(&q.conditions[1]),
        Some(tideorm::classify::ConditionSpec::NullCheck { negated: true })
    ));
}

#[test]
fn bound_where_numbers_placeholders_in_order() {
    let group = OrGroup {
        conditions: vec![
            cond("name", Operator::Like, ConditionValue::Single(JsonValue::Str("a%".to_string()))),
            cond("id", Operator::Between, ConditionValue::Range(JsonValue::Int(3), JsonValue::Int(9))),
        ],
        nested_groups: vec![],
        combine_with: LogicalOp::Or,
    };
    let q = users()
        .where_in("id", vec![JsonValue::Int(1), JsonValue::Int(2)])
        .where_group(group);
    let (pg, params) = q.build_where_clause_with_condition_for_db(DatabaseType::Postgres);
    assert_eq!(
        pg,
        "(\"id\" IN ($1, $2)) AND ((\"name\" LIKE $3) OR (\"id\" BETWEEN $4 AND $5))"
    );
    assert_eq!(
        params,
        vec![
            JsonValue::Int(1),
            JsonValue::Int(2),
            JsonValue::Str("a%".to_string()),
            JsonValue::Int(3),
            JsonValue::Int(9)
        ]
    );
    let (my, _) = q.build_where_clause_with_condition_for_db(DatabaseType::MySQL);
    assert_eq!(my, "(`id` IN (?, ?)) AND ((`name` LIKE ?) OR (`id` BETWEEN ? AND ?))");
}

#[test]
fn select_binds_cte_then_base_then_union_values() {
    let q = posts()
        .with_query("u", users().where_eq("id", JsonValue::Int(1)))
        .where_eq("title", JsonValue::Str("t".to_string()))
        .union(users().where_eq("id", JsonValue::Int(2)));
    let (sql, params) = q.build_select_sql_with_params_for_db(DatabaseType::Postgres);
    assert_eq!(
        params,
        vec![JsonValue::Int(1), JsonValue::Str("t".to_string()), JsonValue::Int(2)]
    );
    assert!(sql.starts_with("WITH \"u\" AS ("), "{sql}");
    let first = sql.find("$1").unwrap();
    let second = sql.find("$2").unwrap();
    let third = sql.find("$3").unwrap();
    assert!(first < second && second < third, "{sql}");
    assert!(sql.ends_with("UNION (SELECT \"cache_key_test_users\".* FROM \"cache_key_test_users\" WHERE (\"id\" = $3))"), "{sql}");
    let (lite, _) = q.build_select_sql_with_params_for_db(DatabaseType::SQLite);
    assert!(lite.contains(" UNION SELECT "), "{lite}");
}

#[test]
fn having_values_are_bound_after_where_values() {
    let q = users()
        .where_eq("name", JsonValue::Str("x".to_string()))
        .group_by("name")
        .having("COUNT(*) > ?", vec![JsonValue::Int(5)]);
    let (sql, params) = q.build_select_sql_with_params_for_db(DatabaseType::Postgres);
    assert!(sql.ends_with("HAVING COUNT(*) > $2"), "{sql}");
    assert_eq!(params, vec![JsonValue::Str("x".to_string()), JsonValue::Int(5)]);
}

#[test]
fn postgres_placeholders_shift_for_their_place() {
    assert_eq!(
        rebase_operand_placeholders(DatabaseType::Postgres, "a = $1 AND b = $12 AND c = '$'", 3),
        "a = $4 AND b = $15 AND c = '$'"
    );
    assert_eq!(rebase_operand_placeholders(DatabaseType::MySQL, "a = ?", 3), "a = ?");
}

#[test]
fn an_empty_relation_path_is_ignored() {
    let mut tree = RelationTree::new();
    tree.add_path(&RelationPath::parse(""));
    assert!(tree.is_empty());
    assert!(tree.roots().is_empty());
    tree.add_path(&RelationPath::parse("posts"));
    assert_eq!(tree.roots(), vec!["posts".to_string()]);
}

#[test]
fn count_statement_drops_ordering_and_paging() {
    let (sql, params) = users()
        .where_eq("id", JsonValue::Int(1))
        .order_by("id", tideorm::dialect::Order::Desc)
        .limit(3)
        .build_count_sql_with_params_for_db(DatabaseType::Postgres);
    assert_eq!(sql, "SELECT COUNT(*) AS count FROM \"cache_key_test_users\" WHERE (\"id\" = $1)");
    assert_eq!(params, vec![JsonValue::Int(1)]);
    let (bare, _) = users().build_count_sql_with_params_for_db(DatabaseType::MySQL);
    assert_eq!(bare, "SELECT COUNT(*) AS count FROM `cache_key_test_users`");
    let (grouped, _) = users().group_by("name").build_count_sql_with_params_for_db(DatabaseType::Postgres);
    assert_eq!(
        grouped,
        "SELECT COUNT(*) AS count FROM (SELECT \"cache_key_test_users\".* FROM \"cache_key_test_users\" GROUP BY \"name\") AS \"tideorm_count_subquery\""
    );
}

#[test]
fn exists_statement_probes_one_row() {
    let (sql, params) = users()
        .where_eq("id", JsonValue::Int(1))
        .limit(9)
        .build_exists_sql_with_params_for_db(DatabaseType::Postgres);
    assert_eq!(
        sql,
        "SELECT EXISTS(SELECT 1 FROM \"cache_key_test_users\" WHERE (\"id\" = $1) LIMIT 1) AS \"exists_result\""
    );
    assert_eq!(params, vec![JsonValue::Int(1)]);
    let (with_union, params) = posts()
        .union(users().where_eq("id", JsonValue::Int(2)))
        .build_exists_sql_with_params_for_db(DatabaseType::SQLite);
    assert!(with_union.starts_with("SELECT 1 FROM (SELECT \"cache_key_test_posts\".* FROM"), "{with_union}");
    assert!(with_union.ends_with(") AS \"tideorm_exists_subquery\" LIMIT 1"), "{with_union}");
    assert_eq!(params, vec![JsonValue::Int(2)]);
}

#[test]
fn one_condition_renders_with_its_own_placeholders() {
    let q = users();
    let c = cond(
        "id",
        Operator::EqAny,
        ConditionValue::List(vec![JsonValue::Int(4), JsonValue::Int(5)]),
    );
    assert_eq!(
        q.build_condition_bound(&c, DatabaseType::Postgres),
        Some(("\"id\" = ANY(ARRAY[$1, $2])".to_string(), vec![JsonValue::Int(4), JsonValue::Int(5)]))
    );
    let bad = cond("id", Operator::Between, ConditionValue::Single(JsonValue::Int(1)));
    assert_eq!(q.build_condition_bound(&bad, DatabaseType::Postgres), None);
}
