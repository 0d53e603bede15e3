//! The capability interface answering membership questions for filters.

pub mod container;

pub use container::HttpToolsContainer;
