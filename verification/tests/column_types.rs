use tideorm::column_type::{auto_increment_width, rust_type_to_column_type, AutoIncrementWidth, ColumnType};
use tideorm::error::Error;
use tideorm::sync::decode_table_exists;
use tideorm::model::ModelMeta;
use tideorm::relations::EagerLoadExt;

#[test]
fn optional_unsigned_maps_to_unsigned() {
    assert_eq!(rust_type_to_column_type("Option<u32>"), Some(ColumnType::Unsigned));
    assert_eq!(rust_type_to_column_type("MyCustomType"), None);
}

#[test]
fn nested_options_and_references_are_peeled() {
    assert_eq!(rust_type_to_column_type("Option<Option<&'static str>>"), Some(ColumnType::Text));
    assert_eq!(rust_type_to_column_type(" Option < i64 > "), Some(ColumnType::BigInteger));
    assert_eq!(rust_type_to_column_type("&'a String"), Some(ColumnType::Text));
}

#[test]
fn module_paths_are_dropped_from_type_and_arguments() {
    assert_eq!(
        rust_type_to_column_type("chrono::DateTime<chrono::Utc>"),
        Some(ColumnType::TimestampTz)
    );
    assert_eq!(
        rust_type_to_column_type("std::vec::Vec<std::string::String>"),
        Some(ColumnType::TextArray)
    );
    assert_eq!(
        rust_type_to_column_type("Option<serde_json::Value>"),
        Some(ColumnType::Jsonb)
    );
}

#[test]
fn naive_and_offset_date_times_differ() {
    assert_eq!(rust_type_to_column_type("chrono::NaiveDateTime"), Some(ColumnType::DateTime));
    assert_eq!(
        rust_type_to_column_type("DateTime<FixedOffset>"),
        Some(ColumnType::TimestampTz)
    );
    assert_eq!(rust_type_to_column_type("DateTimeUtc"), Some(ColumnType::TimestampTz));
}

#[test]
fn wide_integers_become_decimals() {
    assert_eq!(
        rust_type_to_column_type("i128"),
        Some(ColumnType::Decimal { precision: 39, scale: 0 })
    );
    assert_eq!(rust_type_to_column_type("u8"), Some(ColumnType::TinyUnsigned));
    assert_eq!(rust_type_to_column_type("Vec<u8>"), Some(ColumnType::Binary));
}

#[test]
fn unknown_generic_spellings_are_unmapped() {
    assert_eq!(rust_type_to_column_type("HashMap<String, i32>"), None);
    assert_eq!(rust_type_to_column_type("Vec<Vec<u8>>"), None);
}

#[test]
fn option_wrapper_keeps_the_column_type() {
    for t in ["u16", "Vec<i32>", "uuid::Uuid", "Decimal"] {
        assert_eq!(
            rust_type_to_column_type(&format!("Option<{t}>")),
            rust_type_to_column_type(t)
        );
    }
}

#[test]
fn eager_entry_points_start_from_the_model() {
    let bare = ModelMeta::new("users").eager();
    assert_eq!(bare.query.meta.table_name, "users");
    assert!(bare.relation_tree.children.is_empty());

    let one = ModelMeta::new("users").with_relation("posts.comments");
    assert_eq!(one.relation_tree.children.len(), 1);
    assert_eq!(one.relation_tree.children[0].0, "posts");
    assert_eq!(one.relation_tree.children[0].1.children[0].0, "comments");

    let many = ModelMeta::new("users").with_relations(&["posts", "profile", "posts"]);
    let names: Vec<&str> = many.relation_tree.children.iter().map(|c| c.0.as_str()).collect();
    assert_eq!(names, vec!["posts", "profile"]);
}

#[test]
fn auto_increment_width_matches_the_plain_column() {
    assert_eq!(auto_increment_width(&ColumnType::TinyUnsigned), Some(AutoIncrementWidth::Small));
    assert_eq!(auto_increment_width(&ColumnType::Unsigned), Some(AutoIncrementWidth::Regular));
    assert_eq!(auto_increment_width(&ColumnType::BigInteger), Some(AutoIncrementWidth::Big));
    assert_eq!(auto_increment_width(&ColumnType::BigUnsigned), None);
    assert_eq!(auto_increment_width(&ColumnType::Text), None);
}

#[test]
fn table_probe_decodes_in_order_and_refuses_unreadable_answers() {
    assert_eq!(decode_table_exists(Some(false), Some(1), None, None, "users"), Ok(false));
    assert_eq!(decode_table_exists(None, Some(2), None, None, "users"), Ok(true));
    assert_eq!(decode_table_exists(None, None, Some(0), Some(1), "users"), Ok(false));
    assert_eq!(decode_table_exists(None, None, None, Some(7), "users"), Ok(true));
    assert_eq!(
        decode_table_exists(None, None, None, None, "users"),
        Err(Error::Query(
            "Unable to decode the existence probe for table 'users'; refusing to treat an unreadable answer as a missing table".to_string()
        ))
    );
}
