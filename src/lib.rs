//! Schema-driven query compilation: filter grammars, a backend-neutral
//! query IR, and ClickHouse SQL generation.

pub mod clickhouse;
pub mod config;
pub mod error;
pub mod filter_ir;
pub mod indexed;
pub mod laws;
pub mod metadata;
pub mod middleware;
pub mod query;
pub mod query_ir;
pub mod schema;
pub mod templates;
pub mod text;
