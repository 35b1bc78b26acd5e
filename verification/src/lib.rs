//! A small search engine: pages of many domains are crawled, their text is
//! extracted and added to a full-text index, and queries are answered from
//! the index with a higher weight on technology terms.
//!
//! - [`indexer`] holds the gateway to the index and to the per-domain
//!   statistics, the extraction of text from markup, and the boosting of
//!   queries.
//! - [`crawler`] holds the decisions of the crawl: which domain is started
//!   next, when to wait for a running task, when progress is reported.
//! - [`config`] holds the settings.
//! - [`text`] holds helpers on characters and strings.

pub mod config;
pub mod crawler;
pub mod indexer;
pub mod text;
