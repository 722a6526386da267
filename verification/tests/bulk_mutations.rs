use tideorm::builder::QueryBuilder;
use tideorm::dialect::{DatabaseType, Order};
use tideorm::error::Error;
use tideorm::json::JsonValue;
use tideorm::model::ModelMeta;
use tideorm::mutation_sql::{query_scope_for, Mutation, SoftDeleteScope};

fn users() -> QueryBuilder {
    QueryBuilder::new(
        ModelMeta::new("cache_key_test_users")
            .primary_key("id")
            .field("id", "id")
            .field("name", "name"),
    )
}

fn soft_users() -> QueryBuilder {
    QueryBuilder::new(
        ModelMeta::new("cache_key_test_soft_delete_users")
            .primary_key("id")
            .field("id", "id")
            .field("deleted_at", "deleted_at")
            .soft_delete("deleted_at"),
    )
}

fn invalid_message(r: Result<(String, Vec<JsonValue>), Error>) -> String {
    match r {
        Err(Error::InvalidQuery(m)) => m,
        other => panic!("expected an invalid-query error, got {:?}", other),
    }
}

#[test]
fn test_soft_delete_stamp_renders_for_the_statement_backend() {
    fn stamp_of(sql: &str) -> &str {
        sql.split('\'')
            .nth(1)
            .expect("the soft-delete statement embeds a quoted timestamp literal")
    }

    let query = soft_users().where_eq("id", JsonValue::Int(1));

    let (mysql_sql, _) = query
        .build_soft_delete_sql(DatabaseType::MySQL)
        .expect("a filtered soft delete renders");
    let mysql_stamp = stamp_of(&mysql_sql);
    assert!(!mysql_stamp.contains('T'), "mysql stamp: {mysql_stamp}");
    assert!(!mysql_stamp.contains('+'), "mysql stamp: {mysql_stamp}");

    let (postgres_sql, _) = query
        .build_soft_delete_sql(DatabaseType::Postgres)
        .expect("a filtered soft delete renders");
    let postgres_stamp = stamp_of(&postgres_sql);
    assert!(postgres_stamp.contains('T'), "postgres stamp: {postgres_stamp}");
    assert!(postgres_stamp.ends_with("+00:00"), "postgres stamp: {postgres_stamp}");
}

#[test]
fn soft_delete_update_targets_active_rows_of_the_filter() {
    let (sql, params) = soft_users()
        .where_eq("id", JsonValue::Int(1))
        .build_soft_delete_sql(DatabaseType::Postgres)
        .unwrap();
    assert!(sql.starts_with("UPDATE \"cache_key_test_soft_delete_users\" SET \"deleted_at\" = '"));
    assert!(sql.ends_with("' WHERE (\"id\" = $1) AND \"deleted_at\" IS NULL"), "{sql}");
    assert_eq!(params, vec![JsonValue::Int(1)]);
}

#[test]
fn timestamp_literal_is_quoted_per_backend() {
    let mysql = QueryBuilder::current_timestamp_sql(DatabaseType::MariaDB);
    assert!(mysql.starts_with('\'') && mysql.ends_with('\''));
    assert_eq!(mysql.len(), 28, "{mysql}");
    assert!(mysql.contains(' ') && !mysql.contains('T'));
    let postgres = QueryBuilder::current_timestamp_sql(DatabaseType::SQLite);
    assert!(postgres.ends_with("+00:00'"), "{postgres}");
    assert_eq!(postgres.len(), 34, "{postgres}");
}

#[test]
fn delete_renders_the_filtered_statement() {
    let (sql, params) = users()
        .where_eq("id", JsonValue::Int(7))
        .mutation_statement(Mutation::Delete, DatabaseType::Postgres, "")
        .unwrap();
    assert_eq!(sql, "DELETE FROM \"cache_key_test_users\" WHERE (\"id\" = $1)");
    assert_eq!(params, vec![JsonValue::Int(7)]);
}

#[test]
fn delete_without_a_filter_is_blocked() {
    let msg = invalid_message(users().mutation_statement(Mutation::Delete, DatabaseType::Postgres, ""));
    assert_eq!(
        msg,
        "delete requires at least one explicit filter that can exclude a row; unfiltered bulk mutations are blocked"
    );
}

#[test]
fn delete_with_only_a_vacuous_filter_is_blocked() {
    let msg = invalid_message(
        users()
            .where_not_in("id", Vec::new())
            .mutation_statement(Mutation::Delete, DatabaseType::Postgres, ""),
    );
    assert!(msg.starts_with("delete requires at least one explicit filter"), "{msg}");
}

#[test]
fn delete_all_renders_the_bare_statement_and_refuses_filters() {
    let (sql, params) = users()
        .mutation_statement(Mutation::DeleteAll, DatabaseType::MySQL, "")
        .unwrap();
    assert_eq!(sql, "DELETE FROM `cache_key_test_users`");
    assert!(params.is_empty());
    let msg = invalid_message(
        users()
            .where_eq("id", JsonValue::Int(1))
            .mutation_statement(Mutation::DeleteAll, DatabaseType::MySQL, ""),
    );
    assert_eq!(
        msg,
        "delete_all does not accept WHERE filters; use delete() when you intend to target specific rows"
    );
}

#[test]
fn mutations_refuse_select_modifiers() {
    let msg = invalid_message(
        users()
            .where_eq("id", JsonValue::Int(1))
            .order_by("id", Order::Asc)
            .mutation_statement(Mutation::ForceDelete, DatabaseType::Postgres, ""),
    );
    assert_eq!(msg, "force_delete does not support SELECT/JOIN/ORDER/GROUP specific query modifiers");
    let msg = invalid_message(
        users()
            .where_eq("id", JsonValue::Int(1))
            .limit(3)
            .mutation_statement(Mutation::Delete, DatabaseType::Postgres, ""),
    );
    assert_eq!(msg, "delete does not support SELECT/JOIN/ORDER/GROUP specific query modifiers");
}

#[test]
fn soft_delete_operations_need_a_soft_delete_model() {
    let msg = invalid_message(
        users()
            .where_eq("id", JsonValue::Int(1))
            .mutation_statement(Mutation::SoftDelete, DatabaseType::Postgres, "'x'"),
    );
    assert_eq!(msg, "soft_delete() can only be used on models with soft delete enabled");
    let msg = invalid_message(
        users()
            .where_eq("id", JsonValue::Int(1))
            .mutation_statement(Mutation::Restore, DatabaseType::Postgres, ""),
    );
    assert_eq!(msg, "restore() can only be used on models with soft delete enabled");
}

#[test]
fn restore_always_targets_trashed_rows() {
    let (sql, _) = soft_users()
        .where_eq("id", JsonValue::Int(1))
        .with_trashed()
        .mutation_statement(Mutation::Restore, DatabaseType::Postgres, "")
        .unwrap();
    assert_eq!(
        sql,
        "UPDATE \"cache_key_test_soft_delete_users\" SET \"deleted_at\" = NULL WHERE (\"id\" = $1) AND \"deleted_at\" IS NOT NULL"
    );
}

#[test]
fn force_delete_reaches_trashed_rows() {
    let (sql, params) = soft_users()
        .where_eq("id", JsonValue::Int(1))
        .mutation_statement(Mutation::ForceDelete, DatabaseType::SQLite, "")
        .unwrap();
    assert_eq!(sql, "DELETE FROM \"cache_key_test_soft_delete_users\" WHERE (\"id\" = ?)");
    assert_eq!(params, vec![JsonValue::Int(1)]);
}

#[test]
fn soft_delete_statement_carries_the_given_stamp() {
    let (sql, _) = soft_users()
        .where_eq("id", JsonValue::Int(2))
        .mutation_statement(Mutation::SoftDelete, DatabaseType::Postgres, "'2024-01-01T00:00:00.000000+00:00'")
        .unwrap();
    assert_eq!(
        sql,
        "UPDATE \"cache_key_test_soft_delete_users\" SET \"deleted_at\" = '2024-01-01T00:00:00.000000+00:00' WHERE (\"id\" = $1) AND \"deleted_at\" IS NULL"
    );
    let (now, _) = soft_users()
        .where_eq("id", JsonValue::Int(2))
        .mutation_statement_now(Mutation::SoftDelete, DatabaseType::MySQL)
        .unwrap();
    assert!(now.starts_with("UPDATE `cache_key_test_soft_delete_users` SET `deleted_at` = '"), "{now}");
    assert!(now.ends_with("' WHERE (`id` = ?) AND `deleted_at` IS NULL"), "{now}");
}

#[test]
fn delete_and_delete_all_never_both_accept() {
    for filtered in [false, true] {
        let make = || {
            if filtered {
                users().where_eq("id", JsonValue::Int(1))
            } else {
                users()
            }
        };
        let a = make().mutation_statement(Mutation::Delete, DatabaseType::Postgres, "").is_ok();
        let b = make().mutation_statement(Mutation::DeleteAll, DatabaseType::Postgres, "").is_ok();
        assert!(a != b);
    }
}

#[test]
fn soft_delete_scope_follows_the_trash_flags() {
    let plain = ModelMeta::new("t");
    let soft = ModelMeta::new("t").soft_delete("deleted_at");
    assert_eq!(query_scope_for(&plain, true, true), SoftDeleteScope::Disabled);
    assert_eq!(query_scope_for(&soft, false, false), SoftDeleteScope::ActiveOnly);
    assert_eq!(query_scope_for(&soft, true, false), SoftDeleteScope::WithTrashed);
    assert_eq!(query_scope_for(&soft, true, true), SoftDeleteScope::OnlyTrashed);
}

#[test]
fn timestamp_literal_of_a_fixed_instant_is_spelled_per_backend() {
    assert_eq!(
        QueryBuilder::utc_timestamp_literal(DatabaseType::MySQL, 0),
        "'1970-01-01 00:00:00.000000'"
    );
    assert_eq!(
        QueryBuilder::utc_timestamp_literal(DatabaseType::Postgres, 0),
        "'1970-01-01T00:00:00.000000+00:00'"
    );
    let instant: i64 = 1_700_000_000_123_456_789;
    assert_eq!(
        QueryBuilder::utc_timestamp_literal(DatabaseType::MariaDB, instant),
        "'2023-11-14 22:13:20.123456'"
    );
    assert_eq!(
        QueryBuilder::utc_timestamp_literal(DatabaseType::SQLite, instant),
        "'2023-11-14T22:13:20.123456+00:00'"
    );
}
