//! A verified core for a web-novel finder: a deduplicated processing
//! frontier, hard criteria filters, two scoring strategies, byte-level
//! extraction of novels and reviews from fetched pages, and the
//! orchestration state machine that ties them together.
//!
//! Everything that decides — filtering, extraction, scoring, ordering,
//! deduplication, stopping — lives here and carries a contract. The
//! fetches themselves are left to a thin driver: each pipeline step
//! says what to fetch, and the driver hands the raw bytes back.

pub mod config;
pub mod discovery;
pub mod eval;
pub mod json;
pub mod models;
pub mod pipeline;
pub mod queue;
pub mod ranking;
pub mod scraper;
pub mod text;
