//! Client-side core of an NGSI-style entity store tool: JSON entity
//! documents, paginated retrieval, bulk operation payloads, single-entity
//! queries, and a synthetic time-series generator.
pub mod bulk;
pub mod client;
pub mod json;
pub mod paginate;
pub mod query;
pub mod random_helper;
pub mod text;
pub mod time;
