//! A verified core for a multi-backend SQL console client.
//!
//! The library owns the backend-independent logic of the client: the
//! connection bootstrap grammar, the value normalizer that maps native
//! column values onto one textual cell model, the query result model,
//! the command dispatcher, the console renderer and the exporters.
//! Native drivers, terminals and files are reached from the surrounding
//! binary, which hands this library plain values and takes plain values
//! back.

use vstd::prelude::*;

pub mod strutil;
pub mod url;
pub mod db;
pub mod value;
pub mod render;
pub mod ui;
pub mod dispatch;
pub mod export;
pub mod plugin;

verus! {

/// The number of rows a plain `select` shows by default.
pub const DEFAULT_ROW_LIMIT: usize = 20;

/// The number of columns a plain `select` shows by default.
pub const DEFAULT_COLUMN_LIMIT: usize = 10;

} // verus!
