use tideorm::consolidation::JoinResultConsolidator;
use tideorm::dialect::DatabaseType;
use tideorm::error::Error;
use tideorm::relations::{RelationPath, RelationTree};
use tideorm::schema::{
    rust_type_to_sql, ColumnSchema, IndexDefinition, SchemaGenerator, SchemaWriter, TableSchemaBuilder,
};
use tideorm::seeding::{SeedEntry, SeedStep, Seeder};
use tideorm::sync::{diff_columns, normalize_rust_type, ColumnDef, ModelSchema, SyncRegistry};

#[test]
fn rust_types_map_to_backend_column_types() {
    assert_eq!(rust_type_to_sql("Option < i64 >", DatabaseType::Postgres), "BIGINT");
    assert_eq!(rust_type_to_sql("&'static str", DatabaseType::MySQL), "TEXT");
    assert_eq!(rust_type_to_sql("DateTime<Utc>", DatabaseType::Postgres), "TIMESTAMPTZ");
    assert_eq!(rust_type_to_sql("bool", DatabaseType::MySQL), "TINYINT(1)");
    assert_eq!(rust_type_to_sql("u64", DatabaseType::MySQL), "BIGINT UNSIGNED");
    assert_eq!(rust_type_to_sql("Vec<i64>", DatabaseType::Postgres), "BIGINT[]");
    assert_eq!(rust_type_to_sql("Mystery", DatabaseType::Postgres), "TEXT");
}

fn users_table() -> tideorm::schema::TableSchema {
    TableSchemaBuilder::new("users")
        .column(ColumnSchema::new("id", "BIGINT").primary_key().auto_increment())
        .column(ColumnSchema::new("email", "TEXT").not_null())
        .index(IndexDefinition::new("idx_users_email", vec!["email".to_string()], true))
        .build()
}

#[test]
fn schema_file_lists_tables_then_indexes() {
    let mut generator = SchemaGenerator::new(DatabaseType::Postgres);
    generator.add_table(users_table());
    let sql = generator.generate_at("2024-01-01 00:00:00 UTC");
    assert_eq!(
        sql,
        "-- TideORM Generated Schema\n-- Database: Postgres\n-- Generated at: 2024-01-01 00:00:00 UTC\n\n\
CREATE TABLE IF NOT EXISTS \"users\" (\n    \"id\" BIGSERIAL,\n    \"email\" TEXT NOT NULL,\n    PRIMARY KEY (\"id\")\n);\n\n\
CREATE UNIQUE INDEX IF NOT EXISTS \"idx_users_email\" ON \"users\" (\"email\");\n\n"
    );
    let stamped = generator.generate();
    assert!(stamped.starts_with("-- TideORM Generated Schema\n-- Database: Postgres\n-- Generated at: "));
    assert!(stamped.ends_with(" UTC\n\nCREATE TABLE IF NOT EXISTS \"users\" (\n    \"id\" BIGSERIAL,\n    \"email\" TEXT NOT NULL,\n    PRIMARY KEY (\"id\")\n);\n\nCREATE UNIQUE INDEX IF NOT EXISTS \"idx_users_email\" ON \"users\" (\"email\");\n\n"));
}

#[test]
fn registering_a_table_twice_keeps_one_entry() {
    let mut writer = SchemaWriter::new();
    writer.register_schema(users_table());
    writer.register_schema(users_table());
    assert_eq!(writer.get_registered_schemas().len(), 1);
    writer.clear_registry();
    assert!(writer.get_registered_schemas().is_empty());
}

#[test]
fn seeds_run_in_dependency_order_and_skip_executed_ones() {
    let seeder = Seeder::new()
        .add_boxed(SeedEntry::new("posts", 10).depends_on("users"))
        .add_boxed(SeedEntry::new("users", 50))
        .add_boxed(SeedEntry::new("tags", 5));
    let order = seeder.sort_seeds_by_priority_and_deps().unwrap();
    let names: Vec<&str> = order.iter().map(|i| seeder.seeds[*i].name.as_str()).collect();
    assert_eq!(names, vec!["tags", "users", "posts"]);

    let plan = seeder.run_plan(&vec!["tags".to_string()]).unwrap();
    assert_eq!(plan.order, order);
    assert_eq!(plan.steps, vec![SeedStep::Skip(2), SeedStep::Run(1), SeedStep::Run(0)]);
    assert!(plan.failure.is_none());
}

#[test]
fn a_seed_with_an_unknown_dependency_stops_the_run() {
    let seeder = Seeder::new()
        .add_boxed(SeedEntry::new("users", 1))
        .add_boxed(SeedEntry::new("posts", 2).depends_on("authors"));
    let plan = seeder.run_plan(&vec![]).unwrap();
    assert_eq!(plan.steps, vec![SeedStep::Run(0)]);
    match plan.failure {
        Some(Error::Configuration(m)) => {
            assert_eq!(m, "Seed 'posts' depends on 'authors' which has not been executed")
        },
        other => panic!("unexpected {:?}", other),
    }
}

#[test]
fn a_dependency_cycle_is_reported() {
    let seeder = Seeder::new()
        .add_boxed(SeedEntry::new("a", 1).depends_on("b"))
        .add_boxed(SeedEntry::new("b", 1).depends_on("a"));
    match seeder.sort_seeds_by_priority_and_deps() {
        Err(Error::Configuration(m)) => assert!(m.contains("a") && m.contains("b"), "{m}"),
        other => panic!("unexpected {:?}", other),
    }
    assert!(seeder.run_plan(&vec![]).is_err());
}

#[test]
fn seeds_are_found_by_name_for_single_runs_and_rollbacks() {
    let seeder = Seeder::new().add_boxed(SeedEntry::new("users", 1)).add_boxed(SeedEntry::new("posts", 2));
    assert_eq!(seeder.seed_index("posts").unwrap(), 1);
    match seeder.seed_index("tags") {
        Err(Error::NotFound(m)) => assert_eq!(m, "Seed 'tags' not found"),
        other => panic!("unexpected {:?}", other),
    }
    assert_eq!(seeder.rollback_index(&vec!["users".to_string(), "posts".to_string()]), Some(1));
    assert_eq!(seeder.rollback_index(&vec![]), None);
    assert_eq!(seeder.rollback_index(&vec!["gone".to_string()]), None);
}

#[test]
fn relation_paths_split_at_dots() {
    let path = RelationPath::parse("posts.comments.author");
    assert_eq!(path.root(), "posts");
    assert!(path.is_nested());
    assert_eq!(path.depth(), 3);
    let nested = path.nested().unwrap();
    assert_eq!(nested.root(), "comments");
    assert_eq!(nested.depth(), 2);
    assert!(RelationPath::parse("posts").nested().is_none());
}

#[test]
fn relation_trees_merge_paths_once() {
    let mut tree = RelationTree::new();
    tree.add_path(&RelationPath::parse("posts.comments"));
    tree.add_path(&RelationPath::parse("posts.tags"));
    tree.add_path(&RelationPath::parse("profile"));
    tree.add_path(&RelationPath::parse("posts.comments"));
    assert_eq!(tree.roots(), vec!["posts".to_string(), "profile".to_string()]);
    assert!(tree.has_nested("posts"));
    assert!(!tree.has_nested("profile"));
    let posts = tree.get_nested("posts").unwrap();
    assert_eq!(posts.roots(), vec!["comments".to_string(), "tags".to_string()]);
    assert!(tree.get_nested("missing").is_none());
}

#[test]
fn rust_type_names_normalize_for_comparison() {
    assert_eq!(normalize_rust_type("Option < i64 >"), "Option<i64>");
}

#[test]
fn columns_missing_from_the_table_and_extra_columns_are_found() {
    let model = ModelSchema::new("users")
        .column(ColumnDef::new("id", "BIGINT").primary_key())
        .column(ColumnDef::new("email", "TEXT"));
    let (missing, extra) = diff_columns(&model, &vec!["id".to_string(), "legacy".to_string()]);
    assert_eq!(missing.len(), 1);
    assert_eq!(missing[0].name, "email");
    assert_eq!(extra, vec!["legacy".to_string()]);
}

#[test]
fn sync_registry_keeps_one_schema_per_table() {
    let mut registry = SyncRegistry::new();
    registry.register_schema(ModelSchema::new("users"));
    registry.register_schema(ModelSchema::new("users"));
    registry.register_schema(ModelSchema::new("posts"));
    assert_eq!(registry.schema_count(), 2);
    registry.clear();
    assert_eq!(registry.schema_count(), 0);
}

#[test]
fn join_rows_regroup_under_their_first_parent() {
    let rows = vec![(1u64, "a"), (2u64, "b"), (1u64, "c")];
    let grouped = JoinResultConsolidator::consolidate_two(rows, |k: &u64| *k);
    assert_eq!(grouped, vec![(1u64, vec!["a", "c"]), (2u64, vec!["b"])]);

    let optional = vec![(1u64, Some("a")), (2u64, None), (1u64, None)];
    let grouped = JoinResultConsolidator::consolidate_two_optional(optional, |k: &u64| *k);
    assert_eq!(grouped, vec![(1u64, vec!["a"]), (2u64, vec![])]);
}

#[test]
fn postgres_auto_increment_keeps_the_integer_width_whatever_its_case() {
    let table = TableSchemaBuilder::new("events")
        .column(ColumnSchema::new("id", "integer").primary_key().auto_increment())
        .build();
    let mut generator = SchemaGenerator::new(DatabaseType::Postgres);
    generator.add_table(table);
    let sql = generator.generate_at("now");
    assert!(sql.contains("    \"id\" SERIAL,\n"), "{sql}");
    let small = TableSchemaBuilder::new("flags")
        .column(ColumnSchema::new("id", " smallint ").primary_key().auto_increment())
        .build();
    let mut generator = SchemaGenerator::new(DatabaseType::Postgres);
    generator.add_table(small);
    assert!(generator.generate_at("now").contains("    \"id\" SMALLSERIAL,\n"));
}

#[test]
fn independent_seeds_run_by_priority_then_in_the_order_added() {
    let seeder = Seeder::new()
        .add_boxed(SeedEntry::new("a", 5))
        .add_boxed(SeedEntry::new("b", 5))
        .add_boxed(SeedEntry::new("c", 1))
        .add_boxed(SeedEntry::new("d", 0).depends_on("a"));
    let order = seeder.sort_seeds_by_priority_and_deps().unwrap();
    assert_eq!(order, vec![2, 0, 1, 3]);
}

#[test]
fn seed_status_follows_the_run_order_and_marks_executed_seeds() {
    let seeder = Seeder::new()
        .add_boxed(SeedEntry::new("posts", 10).depends_on("users"))
        .add_boxed(SeedEntry::new("users", 50))
        .add_boxed(SeedEntry::new("tags", 5));
    let report = seeder.status_report(&vec!["users".to_string()]).unwrap();
    let lines: Vec<String> = report.iter().map(|s| s.to_string()).collect();
    assert_eq!(
        lines,
        vec!["[○] tags (priority: 5)", "[✓] users (priority: 50)", "[○] posts (priority: 10)"]
    );
    let cyclic = Seeder::new()
        .add_boxed(SeedEntry::new("a", 1).depends_on("b"))
        .add_boxed(SeedEntry::new("b", 1).depends_on("a"));
    assert!(cyclic.status_report(&vec![]).is_err());
}
