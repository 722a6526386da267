use tideorm::builder::QueryBuilder;
use tideorm::dialect::Order;
use tideorm::json::JsonValue;
use tideorm::model::ModelMeta;
use tideorm::query_cache::QueryCache;
use tideorm::mutation::ensure_rendered_filter_is_restrictive;
use tideorm::structure::{WindowFunction, WindowFunctionType};
use tideorm::tables::collect_tables_from_sql;

fn users() -> QueryBuilder {
    QueryBuilder::new(
        ModelMeta::new("cache_key_test_users")
            .primary_key("id")
            .field("id", "id")
            .field("name", "name"),
    )
}

fn posts() -> QueryBuilder {
    QueryBuilder::new(
        ModelMeta::new("cache_key_test_posts")
            .primary_key("id")
            .field("id", "id")
            .field("title", "title"),
    )
}

#[test]
fn test_generate_cache_key_changes_when_window_definition_changes() {
    let baseline = users().window(
        WindowFunction::new(WindowFunctionType::Rank, "rank_alias").order_by("score", Order::Desc),
    );
    let changed = users().window(
        WindowFunction::new(WindowFunctionType::DenseRank, "rank_alias")
            .order_by("score", Order::Desc),
    );

    assert_ne!(baseline.generate_cache_key(), changed.generate_cache_key());
}

#[test]
fn test_explicit_cache_key_is_namespaced_per_model() {
    let ttl = std::time::Duration::from_secs(60);
    let user_query = users().cache_with_key("recent", ttl);
    let post_query = posts().cache_with_key("recent", ttl);

    assert_ne!(
        user_query.generate_cache_key(),
        post_query.generate_cache_key()
    );
}

#[test]
fn test_rendered_filter_guard_rejects_constant_true_bodies() {
    for body in ["", "TRUE", "true", "1 = 1", "(TRUE)"] {
        let err = ensure_rendered_filter_is_restrictive("delete", body).unwrap_err();
        let message = err.message();
        assert!(
            message.contains("unfiltered bulk mutations are blocked"),
            "body: {body}"
        );
    }

    let restrictive = ensure_rendered_filter_is_restrictive("delete", "\"id\" = $1");
    assert!(restrictive.is_ok());
}

#[test]
fn test_empty_negative_list_does_not_count_as_an_explicit_filter() {
    for query in [
        users().where_not_in("id", Vec::new()),
        users().ne_all("name", Vec::new()),
        users().ne_all("name", Vec::new()).where_not_in("id", Vec::new()),
    ] {
        let err = query
            .ensure_mutation_has_explicit_filters("delete")
            .unwrap_err();
        assert!(
            err.message().contains("unfiltered bulk mutations are blocked"),
            "vacuous filter was accepted: {}",
            err.message()
        );
    }
}

#[test]
fn test_a_real_filter_still_counts_alongside_a_vacuous_one() {
    assert!(users()
        .where_eq("name", JsonValue::Str("alice".to_string()))
        .where_not_in("id", Vec::new())
        .ensure_mutation_has_explicit_filters("delete")
        .is_ok());

    assert!(users()
        .where_not_in("id", vec![JsonValue::Int(1)])
        .ensure_mutation_has_explicit_filters("delete")
        .is_ok());

    assert!(users()
        .where_in("id", Vec::new())
        .ensure_mutation_has_explicit_filters("delete")
        .is_ok());
}

#[test]
fn test_cache_tags_cover_joined_tables() {
    let tables = posts()
        .inner_join(
            "cache_key_test_users",
            "cache_key_test_posts.id",
            "cache_key_test_users.id",
        )
        .cache_tables();

    assert_eq!(
        tables,
        vec![
            "cache_key_test_posts".to_string(),
            "cache_key_test_users".to_string()
        ]
    );
}

#[test]
fn test_cache_tags_cover_union_operand_tables() {
    let tables = posts().union(users()).cache_tables();

    assert!(
        tables.contains(&"cache_key_test_users".to_string()),
        "a union operand's table must be tagged for invalidation: {tables:?}"
    );
}

#[test]
fn test_collect_tables_from_sql_reads_from_and_join_targets() {
    let mut tables = Vec::new();
    collect_tables_from_sql(
        "SELECT * FROM \"orders\" INNER JOIN `line_items` ON a = b \
         WHERE id IN (SELECT id FROM public.archived_orders)",
        &mut tables,
    );

    assert_eq!(
        tables,
        vec![
            "orders".to_string(),
            "line_items".to_string(),
            "archived_orders".to_string()
        ]
    );
}

#[test]
fn test_collect_tables_from_sql_skips_derived_table_keywords() {
    let mut tables = Vec::new();
    collect_tables_from_sql("SELECT * FROM (SELECT * FROM \"users\") t", &mut tables);

    assert_eq!(tables, vec!["users".to_string()]);
}

#[test]
fn test_write_to_joined_table_evicts_cached_join_result() {
    let mut cache = QueryCache::new();
    cache.enable();

    let joined = posts().inner_join(
        "cache_key_test_users",
        "cache_key_test_posts.id",
        "cache_key_test_users.id",
    );
    let joined_key = joined.generate_cache_key();
    cache
        .set_tagged(&joined_key, "[\"row\"]".to_string(), None, joined.cache_tables())
        .unwrap();

    let posts_only = posts();
    let posts_only_key = posts_only.generate_cache_key();
    cache
        .set_tagged(&posts_only_key, "[\"row\"]".to_string(), None, posts_only.cache_tables())
        .unwrap();

    assert!(cache.contains(&joined_key));
    assert!(cache.contains(&posts_only_key));

    cache.invalidate_model("cache_key_test_users");

    assert!(
        !cache.contains(&joined_key),
        "a write to a joined table must evict the cached join result"
    );
    assert!(
        cache.contains(&posts_only_key),
        "invalidation must stay targeted at the tables a query actually reads"
    );
}

#[test]
fn a_disabled_cache_stores_nothing_and_a_new_entry_replaces_its_key() {
    let mut cache = QueryCache::new();
    cache.set_tagged("k", "1".to_string(), None, vec!["t".to_string()]).unwrap();
    assert!(!cache.contains("k"));
    cache.enable();
    cache.set_tagged("k", "1".to_string(), Some(60), vec!["t".to_string()]).unwrap();
    cache.set_tagged("k", "2".to_string(), None, vec!["u".to_string()]).unwrap();
    assert_eq!(cache.entries.len(), 1);
    assert_eq!(cache.entries[0].value, "2");
    cache.invalidate_model("t");
    assert!(cache.contains("k"));
    cache.invalidate_model("u");
    assert!(!cache.contains("k"));
}

#[test]
fn test_connection_identity_is_stable_for_one_connection() {
    let mut ids = tideorm::identities::ConnectionIdentities::new();
    let connection: usize = 0x7f00_1000;
    let live = vec![connection];
    let first = ids.identify(connection, &live);
    let same_connection = ids.identify(connection, &live);

    assert_eq!(
        first, same_connection,
        "one connection must keep one identity, or its own cache entries never hit"
    );
}

#[test]
fn test_connection_identity_is_never_inherited_from_a_recycled_address() {
    let mut ids = tideorm::identities::ConnectionIdentities::new();
    let first_address: usize = 0x7f00_2000;
    let first_identity = ids.identify(first_address, &vec![first_address]);

    // The first connection is dropped: it is no longer among the live ones,
    // and sixteen connections are opened after it.
    let reopened: Vec<usize> = (0..16).map(|i| 0x7f00_3000 + i * 0x40).collect();
    for &connection in &reopened {
        assert_ne!(connection, first_address);
        assert_ne!(
            ids.identify(connection, &reopened),
            first_identity,
            "a new connection must never inherit a dropped connection's cache identity"
        );
    }
    // Once its entry is gone, a connection landing on the freed address gets
    // an identity of its own.
    assert_ne!(ids.identify(first_address, &reopened), first_identity);
}
