//! Query-building, relation, schema and seeding logic of an ORM, with its
//! behaviour stated in contracts and proved.

pub mod text;
pub mod dialect;
pub mod json;
pub mod structure;
pub mod condition;
pub mod tables;
pub mod model;
pub mod builder;
pub mod cache_key;
pub mod cache_tags;
pub mod error;
pub mod mutation;
pub mod render_where;
pub mod classify;
pub mod render_select;
pub mod relations;
pub mod schema;
pub mod sync;
pub mod seeding;
pub mod consolidation;
pub mod relation_sql;
pub mod chunking;
pub mod direct;
pub mod self_ref;
pub mod polymorphic;
pub mod many_to_many;
pub mod render_parts;
pub mod eager_keys;
pub mod decode;
pub mod identities;
pub mod fragment;
pub mod describe;
pub mod mutation_sql;
pub mod column_type;
pub mod render_bound;
pub mod array_filter;
pub mod query_cache;
