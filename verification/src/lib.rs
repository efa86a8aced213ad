//! Verified core of the local developer companion: event normalization,
//! daily aggregation, draft composition, style scoring and the decisions
//! around the optional outside services.

pub mod text;
pub mod text_laws;
pub mod order;
pub mod fmt;
pub mod model;
pub mod json;
pub mod ingest;
pub mod ingest_laws;
pub mod analysis;
pub mod content_laws;
pub mod copilot;
pub mod similarity;
pub mod draft;
pub mod llm;
pub mod linkedin;
pub mod config;
pub mod config_laws;
pub mod daily;
pub mod api;

