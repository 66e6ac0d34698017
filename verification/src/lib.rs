//! Package discovery and installation core: merges candidate lists from two
//! independently failing catalogs, ranks them by fuzzy relevance against a
//! query, and drives an ordered fallback across external installer programs.
//!
//! All I/O (HTTP fetching, console interaction, process spawning) lives with
//! the callers; this crate holds the decisions and proves their contracts.

pub mod aggregate;
pub mod candidate;
pub mod config;
pub mod install;
pub mod rank;
pub mod text;
