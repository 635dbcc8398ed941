//! Verified core of a selector-scraping pipeline: extraction of CSS-selector
//! text from fetched documents, content filtering and whitespace
//! normalization, record construction with host provenance, a flat-file
//! (CSV) codec, and durable batched persistence to a relational store.

pub mod config;
pub mod db;
pub mod errors;
pub mod filter;
pub mod extract;
pub mod flatfile;
pub mod pipeline;
pub mod record;
pub mod strutil;
