//! A catalogue of security vulnerabilities: business-key validation, the flat-file feed
//! importer, the schema migration plan, search statements and in-memory search, and the
//! enrichment merge that fills unknown fields without touching known ones.

pub mod text;
pub mod cve;
pub mod dates;
pub mod model;
pub mod feed;
pub mod store;
pub mod enrich;
pub mod query;
pub mod schema;
pub mod sql;
pub mod robots;
pub mod software;
pub mod config;
