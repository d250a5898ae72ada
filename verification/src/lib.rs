//! A minimal line-oriented text search library.
//!
//! The core is a pair of pure matchers: [`search`] reports every line of a
//! document that contains a query as a contiguous substring, and
//! [`search_insensitive`] does the same after folding both query and line to
//! lower case. Results are views into the original document, in document
//! order. All I/O (argument handling, file reading, printing) lives outside
//! this crate; the matchers themselves never fail.

pub mod config;
pub mod fold;
pub mod laws;
pub mod lines;
pub mod matcher;
pub mod substring;

pub use config::Config;
pub use config::ErrorKind;
pub use fold::lower;
pub use fold::lower_char;
pub use lines::lines_of;
pub use matcher::matching_lines;
pub use matcher::matching_lines_ci;
pub use matcher::run_search;
pub use matcher::search;
pub use matcher::search_insensitive;
pub use substring::contains_at;
pub use substring::contains_substring;
