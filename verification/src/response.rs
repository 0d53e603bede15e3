//! The response side: the response model the handlers build, and filters
//! over responses.

pub mod filter;
pub mod model;

pub use filter::Filter;
pub use model::ResponseData;
