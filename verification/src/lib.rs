//! Bookkeeping for crawl sessions.
//!
//! A crawl engine fetches pages; a session supervises it. This crate holds
//! what a session has to keep straight while the engine runs: which
//! subscriptions and detached crawls are live and under which ids, what was
//! collected, where an export goes, how a fetched document becomes a page
//! record, and how the caller's options reach the engine. It spawns no task
//! and opens no file: its methods update the books and hand back what the
//! runtime is to do.

pub mod cron;
pub mod export;
pub mod headers;
pub mod options;
pub mod page;
pub mod records;
pub mod registry;
pub mod settings;
pub mod website;

pub use cron::Cron;
pub use headers::header_map_to_hash_map;
pub use page::page_title;
pub use page::NPage;
pub use website::Website;
