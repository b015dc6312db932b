//! An in-memory schema of models, fields and relations, with an identity index
//! over it, extraction of the subgraph around one model, and text renderings:
//! a directed-graph description, a listing, and a single-model report.

pub mod extract;
pub mod index;
pub mod render;
pub mod report;
pub mod schema;
pub mod sink;
