//! Scrapes user-count statistics for a browser extension from the listing
//! pages of several extension stores, sums them per extension, and renders the
//! total as an SVG status badge.
//!
//! The store pages are plain HTML; the count is embedded in a store-specific
//! fragment. The extraction rules, the count parsing, the aggregation across
//! stores and the construction of URLs and output paths are verified here.
//! HTML tree construction and SVG rendering are delegated to outside crates
//! behind a few trusted declarations; network and file I/O live outside the
//! library.

pub mod aggregate;
pub mod badge;
pub mod chrome;
pub mod config;
pub mod mozilla;
pub mod text;
