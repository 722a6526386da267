use tideorm::builder::QueryBuilder;
use tideorm::condition::{ConditionValue, Operator};
use tideorm::dialect::Order;
use tideorm::error::Error;
use tideorm::json::JsonValue;
use tideorm::model::ModelMeta;

fn users_meta() -> ModelMeta {
    ModelMeta::new("users").primary_key("id").field("id", "id").field("name", "name")
}

fn users() -> QueryBuilder {
    QueryBuilder::new(users_meta())
}

fn invalid_message(r: Result<tideorm::chunking::ChunkState, Error>) -> String {
    match r {
        Err(Error::InvalidQuery(m)) => m,
        Err(other) => panic!("unexpected error {:?}", other),
        Ok(_) => panic!("expected a rejection"),
    }
}

#[test]
fn chunk_walks_the_limit_in_batches_resuming_after_the_last_key() {
    let mut state = users().where_eq("name", JsonValue::Str("ada".to_string())).limit(5).chunk(2).unwrap();
    assert_eq!(state.query.order_by.len(), 1);
    assert_eq!(state.query.order_by[0].0, "users.id");
    assert_eq!(state.query.order_by[0].1, Order::Asc);

    assert!(state.next_batch());
    assert_eq!(state.query.limit_value, Some(2));
    assert_eq!(state.query.offset_value, None);
    assert_eq!(state.query.conditions.len(), 1);
    state.record_batch(2, Some(JsonValue::Int(2)));
    assert!(!state.is_finished());
    assert_eq!(state.remaining, Some(3));

    assert!(state.next_batch());
    assert_eq!(state.query.limit_value, Some(2));
    assert_eq!(state.query.conditions.len(), 2);
    assert_eq!(state.query.conditions[1].column, "users.id");
    assert_eq!(state.query.conditions[1].operator, Operator::Gt);
    assert_eq!(state.query.conditions[1].value, ConditionValue::Single(JsonValue::Int(2)));
    state.record_batch(2, Some(JsonValue::Int(4)));
    assert_eq!(state.remaining, Some(1));

    assert!(state.next_batch());
    assert_eq!(state.query.limit_value, Some(1));
    assert_eq!(state.query.conditions.len(), 2);
    assert_eq!(state.query.conditions[1].value, ConditionValue::Single(JsonValue::Int(4)));
    state.record_batch(1, Some(JsonValue::Int(5)));
    assert_eq!(state.remaining, Some(0));
    assert!(state.is_finished());
    assert!(!state.next_batch());
}

#[test]
fn chunk_stops_on_a_short_or_empty_batch() {
    let mut state = users().chunk(3).unwrap();
    assert!(state.next_batch());
    assert_eq!(state.query.limit_value, Some(3));
    state.record_batch(2, Some(JsonValue::Int(9)));
    assert!(state.is_finished());
    assert!(!state.next_batch());

    let mut state = users().chunk(3).unwrap();
    assert!(state.next_batch());
    state.record_batch(0, None);
    assert!(state.is_finished());
    assert!(!state.next_batch());
}

#[test]
fn chunk_walks_backwards_when_ordered_by_the_key_descending() {
    let mut state = users().order_by("users.id", Order::Desc).chunk(2).unwrap();
    assert_eq!(state.query.order_by.len(), 1);
    assert!(state.next_batch());
    state.record_batch(2, Some(JsonValue::Int(10)));
    assert!(state.next_batch());
    assert_eq!(state.query.conditions[0].operator, Operator::Lt);
    assert_eq!(state.query.conditions[0].value, ConditionValue::Single(JsonValue::Int(10)));
}

#[test]
fn chunk_gives_each_batch_its_own_cache_key() {
    let ttl = std::time::Duration::from_secs(60);
    let mut state = users().cache_with_key("recent", ttl).chunk(2).unwrap();
    assert!(state.next_batch());
    assert_eq!(state.query.cache_key.as_deref(), Some("recent::chunk(cursor=null,limit=2)"));
    state.record_batch(2, Some(JsonValue::Str("b".to_string())));
    assert!(state.next_batch());
    assert_eq!(state.query.cache_key.as_deref(), Some("recent::chunk(cursor=\"b\",limit=2)"));
}

#[test]
fn chunk_rejects_what_it_cannot_walk() {
    assert_eq!(
        invalid_message(users().chunk(0)),
        "chunk() requires chunk_size to be greater than 0"
    );
    assert_eq!(
        invalid_message(users().offset(3).chunk(2)),
        "chunk() does not support offset(); use page()/get() for fixed windows or chunk over primary-key order"
    );
    let composite = QueryBuilder::new(ModelMeta::new("memberships").primary_key("user_id").primary_key("team_id"));
    assert_eq!(
        invalid_message(composite.chunk(2)),
        "chunk() only supports models with a single-column primary key; model 'memberships' uses 2 key columns"
    );
    assert_eq!(
        invalid_message(users().order_by("name", Order::Asc).chunk(2)),
        "chunk() only supports explicit ordering by the single primary key 'id' for model 'users'"
    );
    assert!(users().offset(0).chunk(2).is_ok());
    assert!(users().order_by("id", Order::Desc).chunk(2).is_ok());
}

#[test]
fn chunk_order_and_key_helpers_answer_directly() {
    assert_eq!(users().chunk_primary_key_column().unwrap(), "id");
    assert_eq!(users().chunk_order("id").unwrap(), Order::Asc);
    assert_eq!(users().order_by("users.id", Order::Desc).chunk_order("id").unwrap(), Order::Desc);
    assert!(tideorm::chunking::is_chunk_primary_key_order("users", "users.id", "id"));
    assert!(!tideorm::chunking::is_chunk_primary_key_order("users", "posts.id", "id"));
}

#[test]
fn reads_use_the_cache_only_outside_transactions() {
    let ttl = std::time::Duration::from_secs(30);
    let cached = users().where_eq("id", JsonValue::Int(1)).cache(ttl);
    let key = cached.read_cache_key(false).unwrap();
    assert_eq!(key, Some(cached.generate_cache_key()));
    assert_eq!(cached.read_cache_key(true).unwrap(), None);
    assert_eq!(users().read_cache_key(false).unwrap(), None);
    let mut broken = users();
    broken.conditions.push(tideorm::condition::WhereCondition {
        column: "id".to_string(),
        operator: Operator::Between,
        value: ConditionValue::Single(JsonValue::Int(1)),
    });
    assert!(broken.read_cache_key(false).is_err());
}

#[test]
fn chunk_batches_put_end_to_end_are_the_matching_rows() {
    // Seven matching rows, keys 10..=70, walked three at a time; each batch
    // query is answered with the rows past its cursor, in key order.
    let rows: Vec<i64> = (1..=7).map(|k| k * 10).collect();
    let mut state = users().chunk(3).unwrap();
    let mut seen: Vec<i64> = Vec::new();
    while state.next_batch() {
        let cursor = match state.query.conditions.last() {
            Some(c) => match &c.value {
                ConditionValue::Single(JsonValue::Int(k)) => *k,
                other => panic!("unexpected cursor {:?}", other),
            },
            None => i64::MIN,
        };
        let limit = state.query.limit_value.unwrap() as usize;
        let batch: Vec<i64> = rows.iter().copied().filter(|k| *k > cursor).take(limit).collect();
        seen.extend(batch.iter().copied());
        state.record_batch(batch.len() as u64, batch.last().map(|k| JsonValue::Int(*k)));
    }
    assert_eq!(seen, rows);
}
