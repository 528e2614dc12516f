//! An ingestion pipeline for news: it polls feeds, pages and a trending
//! list, drops what it has seen before, attaches a summary to each new
//! article and keeps a bounded store with a keyword index.
//!
//! The library decides and computes; it performs no input or output. A
//! caller fetches pages, sends requests, waits, and holds the store while
//! the library works on it.

pub mod article;
pub mod commands;
pub mod feed;
pub mod html;
pub mod ingest;
pub mod item;
pub mod order;
pub mod page;
pub mod persist;
pub mod regenerate;
pub mod settings;
pub mod source;
pub mod stars;
pub mod store;
pub mod summary;
pub mod text;
pub mod time;
pub mod trending;
pub mod url;
