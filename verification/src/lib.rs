//! Crawling core for open directory listings: URL canonicalization and
//! joining, listing-software classification, per-family link extraction,
//! and the depth-bounded, cycle-safe crawl state machine.

pub mod asset;
pub mod compat;
pub mod dom;
pub mod download;
pub mod od;
pub mod parser;
pub mod record;
pub mod scrape;
pub mod search;
pub mod text;
