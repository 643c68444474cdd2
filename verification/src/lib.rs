//! A small interactive command interpreter: the command classifier, the
//! built-in handlers' decisions, search-path resolution and the exact text of
//! every reply are verified here; an unverified front end does the terminal,
//! environment and process work around this library.

pub mod cmd;
pub mod laws;
pub mod messages;
pub mod numbers;
pub mod resolve;
pub mod text;
