//! The catalog of a personal portfolio site: the filter that a listing is
//! asked with, the parameterised statement it becomes, the listing it
//! selects, and the view a request is answered with.

pub mod config;
pub mod errors;
pub mod models;
pub mod routes;
pub mod text;

pub use config::Config;
pub use errors::AppError;
