use tideorm::builder::QueryBuilder;
use tideorm::condition::{ConditionValue, Operator};
use tideorm::dialect::DatabaseType;
use tideorm::direct::{require_scalar_relation_key, BelongsTo, HasMany, HasOne};
use tideorm::error::Error;
use tideorm::json::JsonValue;
use tideorm::many_to_many::{build_pivot_insert, HasManyThrough};
use tideorm::model::ModelMeta;
use tideorm::polymorphic::{MorphMany, MorphOne, MorphResult, MorphTo};
use tideorm::self_ref::{LoadStep, SelfRef, SelfRefMany};

fn profiles() -> ModelMeta {
    ModelMeta::new("profiles").primary_key("id").field("id", "id").field("user_id", "user_id")
}

fn categories() -> ModelMeta {
    ModelMeta::new("categories")
        .primary_key("id")
        .field("id", "id")
        .field("parentId", "parent_id")
}

fn message(e: Error) -> String {
    e.message()
}

fn only_filter(q: &QueryBuilder) -> (String, Operator, ConditionValue) {
    assert_eq!(q.conditions.len(), 1);
    let c = &q.conditions[0];
    (c.column.clone(), c.operator, c.value.clone())
}

#[test]
fn has_one_queries_by_the_foreign_key_whenever_a_connection_is_reachable() {
    let mut relation: HasOne<u8> = HasOne::new("user_id", "id").with_parent_pk(JsonValue::Int(7));
    relation.set_cached(Some(3));
    let q = relation.load_query(profiles(), true).unwrap().unwrap();
    assert_eq!(
        only_filter(&q),
        ("user_id".to_string(), Operator::Eq, ConditionValue::Single(JsonValue::Int(7)))
    );
    assert_eq!(q.meta.table_name, "profiles");
    assert!(relation.load_query(profiles(), false).unwrap().is_none());
}

#[test]
fn has_one_cleared_cache_answers_without_a_connection() {
    let mut relation: HasOne<u8> = HasOne::new("user_id", "id").with_parent_pk(JsonValue::Int(7));
    assert!(relation.load_query(profiles(), false).unwrap().is_some());
    relation.clear();
    assert!(relation.is_loaded());
    assert!(relation.get_cached().is_none());
    assert!(relation.load_query(profiles(), false).unwrap().is_none());
}

#[test]
fn has_one_reports_each_missing_piece() {
    let relation: HasOne<u8> = HasOne::new("user_id", "id");
    assert_eq!(
        message(relation.load_query(profiles(), true).unwrap_err()),
        "Parent primary key not set for relation"
    );
    let unconfigured: HasOne<u8> = HasOne::new("", "id").with_parent_pk(JsonValue::Int(1));
    assert_eq!(
        message(unconfigured.load_query(profiles(), true).unwrap_err()),
        "HasOne relation is not configured; use HasOne::new(...) or a macro-generated relation field"
    );
    let composite: HasOne<u8> =
        HasOne::new("user_id", "id").with_parent_pk(JsonValue::Composite("[1,2]".to_string()));
    match composite.relation_query(profiles(), "HasOne::exists") {
        Err(Error::InvalidQuery(m)) => assert_eq!(
            m,
            "HasOne::exists only supports scalar relation keys; composite primary keys require an explicit single-column relation key or a custom query"
        ),
        _ => panic!("a composite key is rejected"),
    }
}

#[test]
fn has_one_keeps_the_cache_of_the_same_relation() {
    let mut previous: HasOne<u8> = HasOne::new("user_id", "id").with_parent_pk(JsonValue::Int(7));
    previous.set_cached(Some(5));
    let mut fresh: HasOne<u8> = HasOne::new("user_id", "id").with_parent_pk(JsonValue::Int(7));
    fresh.preserve_runtime_state_from(&previous);
    assert_eq!(fresh.get_cached(), Some(&5));
    assert!(fresh.is_loaded());

    let mut other: HasOne<u8> = HasOne::new("user_id", "id").with_parent_pk(JsonValue::Int(8));
    other.preserve_runtime_state_from(&previous);
    assert_eq!(other.get_cached(), None);
    assert!(!other.is_loaded());
}

#[test]
fn has_many_answers_from_its_cache_without_a_connection() {
    let mut relation: HasMany<u8> = HasMany::new("user_id", "id").with_parent_pk(JsonValue::Int(2));
    relation.set_cached(vec![1, 2]);
    assert!(relation.load_query(profiles(), false).unwrap().is_none());
    assert_eq!(relation.get_cached(), Some(&vec![1, 2]));
    let q = relation.relation_query(profiles(), "HasMany::count").unwrap();
    assert_eq!(
        only_filter(&q),
        ("user_id".to_string(), Operator::Eq, ConditionValue::Single(JsonValue::Int(2)))
    );
}

#[test]
fn belongs_to_queries_the_owner_key_and_keeps_a_null_foreign_key() {
    let relation: BelongsTo<u8> = BelongsTo::new("user_id", "id").with_fk_value(JsonValue::Null);
    let q = relation.load_query(profiles(), true).unwrap().unwrap();
    assert_eq!(
        only_filter(&q),
        ("id".to_string(), Operator::Eq, ConditionValue::Single(JsonValue::Null))
    );
    let missing: BelongsTo<u8> = BelongsTo::new("user_id", "id");
    assert_eq!(
        message(missing.relation_query(profiles(), "BelongsTo::exists").unwrap_err()),
        "Foreign key value not set for relation"
    );
}

#[test]
fn scalar_keys_pass_and_composite_keys_fail() {
    let v = JsonValue::Str("x".to_string());
    assert_eq!(require_scalar_relation_key(&v, "ctx").unwrap(), &v);
    let c = JsonValue::Composite("{}".to_string());
    assert!(require_scalar_relation_key(&c, "ctx").is_err());
}

#[test]
fn self_ref_is_cache_first_and_quiet_without_a_parent() {
    let relation: SelfRef<u8> = SelfRef::default().with_fk_value(JsonValue::Null);
    assert!(matches!(relation.load_step(categories()), Ok(LoadStep::Empty)));
    let relation: SelfRef<u8> = SelfRef::default().with_fk_value(JsonValue::Int(4));
    match relation.load_step(categories()) {
        Ok(LoadStep::Query(q)) => assert_eq!(
            only_filter(&q),
            ("id".to_string(), Operator::Eq, ConditionValue::Single(JsonValue::Int(4)))
        ),
        _ => panic!("a parent with a key is queried"),
    }
}

#[test]
fn self_ref_many_builds_the_tree_query_or_nothing_at_depth_zero() {
    let relation: SelfRefMany<u8> = SelfRefMany::new("parentId", "id").with_parent_pk(JsonValue::Int(1));
    assert!(relation.load_tree(&categories(), 0, DatabaseType::Postgres).unwrap().is_none());
    let (sql, params) = relation.load_tree(&categories(), 3, DatabaseType::Postgres).unwrap().unwrap();
    assert!(sql.starts_with("WITH RECURSIVE \"tide_tree\""), "{sql}");
    assert!(sql.contains("\"node\".\"parent_id\" = $1"), "{sql}");
    assert!(sql.contains("\"tree\".\"depth\" < $2"), "{sql}");
    assert_eq!(params, vec![JsonValue::Int(1), JsonValue::Int(3)]);
    let orphan: SelfRefMany<u8> = SelfRefMany::default();
    assert_eq!(
        message(orphan.load_tree(&categories(), 2, DatabaseType::Postgres).unwrap_err()),
        "Parent primary key not set for self-reference"
    );
}

#[test]
fn morph_one_filters_by_type_and_id() {
    let comments = ModelMeta::new("comments").primary_key("id");
    let relation: MorphOne<u8> =
        MorphOne::new("commentable", "id").with_parent(JsonValue::Int(3), "posts".to_string());
    match relation.load_step(comments) {
        Ok(LoadStep::Query(q)) => {
            assert_eq!(q.conditions.len(), 2);
            assert_eq!(q.conditions[0].column, "commentable_type");
            assert_eq!(
                q.conditions[0].value,
                ConditionValue::Single(JsonValue::Str("posts".to_string()))
            );
            assert_eq!(q.conditions[1].column, "commentable_id");
            assert_eq!(q.conditions[1].value, ConditionValue::Single(JsonValue::Int(3)));
        },
        _ => panic!("a configured morph relation is queried"),
    }
    let no_table: MorphMany<u8> = MorphMany::new("commentable", "id");
    assert_eq!(
        message(no_table.relation_query(ModelMeta::new("comments"), "MorphMany::count").unwrap_err()),
        "Parent primary key not set for relation"
    );
}

#[test]
fn morph_to_names_a_wrong_owner_table() {
    let link: MorphTo<u8> =
        MorphTo::new("commentable_type", "commentable_id").with_values("videos".to_string(), JsonValue::Int(1));
    assert_eq!(
        message(link.load_step(ModelMeta::new("posts").primary_key("id")).unwrap_err()),
        "MorphTo target type 'videos' is not 'posts'; use load_as::<T>() for heterogeneous owners"
    );
    assert!(link.load_as(ModelMeta::new("posts").primary_key("id")).unwrap().is_none());
    let q = link.load_as(ModelMeta::new("videos").primary_key("id")).unwrap().unwrap();
    assert_eq!(
        only_filter(&q),
        ("id".to_string(), Operator::Eq, ConditionValue::Single(JsonValue::Int(1)))
    );
    let result: MorphResult<u8, u16> = MorphResult::TypeB(9);
    assert!(result.is_type_b());
    assert_eq!(result.as_type_b(), Some(&9));
    assert_eq!(result.into_type_a(), None);
}

#[test]
fn pivot_insert_uses_the_backend_spelling() {
    let (sql, params) = build_pivot_insert(
        DatabaseType::Postgres,
        "post_tags",
        "post_id",
        "tag_id",
        &JsonValue::Int(1),
        &JsonValue::Int(2),
    );
    assert_eq!(sql, "INSERT INTO \"post_tags\" (\"post_id\", \"tag_id\") VALUES ($1, $2)");
    assert_eq!(params, vec![JsonValue::Int(1), JsonValue::Int(2)]);
    let (sql, _) = build_pivot_insert(
        DatabaseType::MySQL,
        "post_tags",
        "post_id",
        "tag_id",
        &JsonValue::Int(1),
        &JsonValue::Int(2),
    );
    assert_eq!(sql, "INSERT INTO `post_tags` (`post_id`, `tag_id`) VALUES (?, ?)");
}

#[test]
fn sync_links_each_id_once_and_rejects_composite_ids() {
    let relation: HasManyThrough<u8> =
        HasManyThrough::new("post_id", "tag_id", "id", "id", "post_tags").with_parent_pk(JsonValue::Int(1));
    let pivot = ModelMeta::new("post_tags");
    let (delete_scope, wanted) = relation
        .sync_plan(
            pivot,
            vec![
                JsonValue::Int(1),
                JsonValue::Int(2),
                JsonValue::Int(1),
                JsonValue::Str("1".to_string()),
            ],
        )
        .unwrap();
    assert_eq!(wanted, vec![JsonValue::Int(1), JsonValue::Int(2), JsonValue::Str("1".to_string())]);
    assert_eq!(
        only_filter(&delete_scope),
        ("post_id".to_string(), Operator::Eq, ConditionValue::Single(JsonValue::Int(1)))
    );
    let err = relation
        .sync_plan(
            ModelMeta::new("post_tags"),
            vec![JsonValue::Int(1), JsonValue::Composite("[2]".to_string())],
        )
        .unwrap_err();
    assert_eq!(
        message(err),
        "HasManyThrough::sync only supports scalar relation keys; composite primary keys require an explicit single-column relation key or a custom query"
    );
    let unconfigured: HasManyThrough<u8> = HasManyThrough::default();
    assert_eq!(
        message(unconfigured.count_query(ModelMeta::new("post_tags")).unwrap_err()),
        "HasManyThrough relation is not configured; use HasManyThrough::new(...) or a macro-generated relation field"
    );
}

#[test]
fn attach_checks_for_an_existing_link_first() {
    let relation: HasManyThrough<u8> =
        HasManyThrough::new("post_id", "tag_id", "id", "id", "post_tags").with_parent_pk(JsonValue::Int(1));
    let q = relation.attach_check_query(ModelMeta::new("post_tags"), &JsonValue::Int(5)).unwrap();
    assert_eq!(q.conditions.len(), 2);
    assert_eq!(q.conditions[0].column, "post_id");
    assert_eq!(q.conditions[1].column, "tag_id");
    assert_eq!(q.conditions[1].value, ConditionValue::Single(JsonValue::Int(5)));
    let cached_load: HasManyThrough<u8> = HasManyThrough::new("post_id", "tag_id", "id", "id", "post_tags");
    assert_eq!(
        message(cached_load.load_query(ModelMeta::new("tags").primary_key("id"), true).unwrap_err()),
        "Parent primary key not set for relation"
    );
}

#[test]
fn primary_key_filters_follow_the_key_columns() {
    let meta = ModelMeta::new("memberships").primary_key("user_id").primary_key("team_id");
    let q = tideorm::eager_keys::apply_primary_key_filter(
        QueryBuilder::new(meta),
        vec![JsonValue::Int(1), JsonValue::Int(2)],
    )
    .unwrap();
    assert_eq!(q.conditions.len(), 2);
    assert_eq!(q.conditions[0].column, "user_id");
    assert_eq!(q.conditions[1].column, "team_id");
    assert_eq!(q.conditions[1].value, ConditionValue::Single(JsonValue::Int(2)));
    let meta = ModelMeta::new("memberships").primary_key("user_id").primary_key("team_id");
    assert_eq!(
        message(
            tideorm::eager_keys::apply_primary_key_filter(QueryBuilder::new(meta), vec![JsonValue::Int(1)])
                .unwrap_err()
        ),
        "Primary key value for memberships did not match declared key columns"
    );
}

#[test]
fn grouped_loads_look_each_non_null_key_up_once() {
    let keys = vec![JsonValue::Int(3), JsonValue::Null, JsonValue::Int(3), JsonValue::Int(4)];
    assert_eq!(
        tideorm::eager_keys::grouped_lookup_keys(&keys),
        vec![JsonValue::Int(3), JsonValue::Int(4)]
    );
    let q = tideorm::eager_keys::grouped_key_query(
        ModelMeta::new("comments"),
        &keys,
        "commentable_id",
        Some(("commentable_type", "posts")),
    )
    .unwrap();
    assert_eq!(q.conditions.len(), 2);
    assert_eq!(q.conditions[0].operator, Operator::In);
    assert_eq!(
        q.conditions[0].value,
        ConditionValue::List(vec![JsonValue::Int(3), JsonValue::Int(4)])
    );
    assert_eq!(
        q.conditions[1].value,
        ConditionValue::Single(JsonValue::Str("posts".to_string()))
    );
    assert!(tideorm::eager_keys::grouped_key_query(
        ModelMeta::new("comments"),
        &vec![JsonValue::Null],
        "commentable_id",
        None
    )
    .is_none());
    let eager = tideorm::relations::EagerQueryBuilder::from_query(QueryBuilder::new(ModelMeta::new("posts")));
    assert!(eager.get_relation_tree().is_empty());
}

#[test]
fn connection_identities_are_stable_and_never_reused() {
    let mut ids = tideorm::identities::ConnectionIdentities::new();
    assert_eq!(ids.identify(100, &vec![]), 1);
    assert_eq!(ids.identify(100, &vec![]), 1);
    assert_eq!(ids.identify(200, &vec![100]), 2);
    assert_eq!(ids.assigned, vec![(100, 1), (200, 2)]);
    assert_eq!(ids.identify(300, &vec![200]), 3);
    assert_eq!(ids.assigned, vec![(200, 2), (300, 3)]);
    assert_eq!(ids.identify(100, &vec![200, 300]), 4);
    assert_eq!(ids.last_id, 4);
}
