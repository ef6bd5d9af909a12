//! A store of bookmarks: named registers, grouped in named sections, each
//! holding a file path, a line, a column and free text, or a list of strings.
//!
//! Load a [`HarpConnection`] from the stored document with
//! [`HarpConnection::build`], perform one operation on it (see [`run::run`]),
//! and write it back only when the operation changed it.

pub mod args;
pub mod assoc;
pub mod data;
pub mod error;
pub mod laws;
pub mod run;
pub mod store;

pub use args::{Action, Args};
pub use data::{Entry, Register, Selectors, Value};
pub use error::Error;
pub use store::{HarpConnection, Section, Slot};
