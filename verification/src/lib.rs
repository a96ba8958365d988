//! The persistence and retrieval layer of a desktop application for notes and
//! chats: conversations, their messages and their mind-maps in a relational
//! store, and a search over them.
//!
//! - `migrations` holds the versioned changes of the schema and applies those
//!   that a store lacks.
//! - `database` holds one function for each thing that is done with the
//!   records, `records` the records themselves and how they are read from
//!   rows, `maintenance` what the store tells about itself.
//! - `search` finds messages and conversations for a query, with `query`,
//!   `snippet`, `relevance` and `ranking` for its parts and `text` for the
//!   work on characters.
//! - `session`, `cursor` and `sql` are the way to the store. What the store
//!   answers is not proved here; what is asked of it, and what is made of
//!   each answer, is.

pub mod cursor;
pub mod database;
pub mod maintenance;
pub mod migrations;
pub mod query;
pub mod ranking;
pub mod records;
pub mod relevance;
pub mod search;
pub mod session;
pub mod snippet;
pub mod sql;
pub mod text;
