//! Persistence of responses and conversations.
//!
//! [`sqlite`] says which statements the store runs and what their answers mean;
//! running them is left to the caller. [`model`] says what each statement asks
//! of the tables.

pub mod cursor;
pub mod model;
pub mod paging;
pub mod registry;
pub mod schemas;
pub mod sqlite;
pub mod types;
