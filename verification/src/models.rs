//! The catalog's data: projects, the filter a listing is asked with, the
//! statement that asks the store, and the listing a set of rows yields.

pub mod catalog;
pub mod project;
pub mod query;
pub mod tags;

pub use project::{Project, ProjectQuery, Timestamp};
pub use query::SqlStatement;
