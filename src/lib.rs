//! A to-do store: the data model of a to-do item, the semantics of the
//! store's four operations over a table of items, and the SQL command layer
//! that an application hands to an embedded database.
pub mod todo;
pub mod table;
pub mod command;
