//! Link resolution for documents with inline links.
//!
//! A document is scanned for links of the shape `[label](destination)`. Each
//! destination is fetched, the page it names is asked for its title, and the
//! document that comes out lists every destination under that title, or under
//! the reason why no title could be had.
//!
//! This crate holds the rules of that work: which destinations a text names,
//! how an exchange with a server becomes an outcome, how many fetches may run
//! at once and how their outcomes are collected, and how the collected entries
//! are written down. Sending requests and reading files is left to the caller.

pub mod dispatch;
pub mod fetch;
pub mod links;
pub mod outcome;
pub mod render;
pub mod text;
pub mod title;
