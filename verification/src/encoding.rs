//! Comparison of percent-encoded text with plain text.

pub mod percent;

pub use percent::PercentEncodedStr;
