//! The failure kinds a filter chain can record.

use vstd::prelude::*;

verus! {

/// How a filter chain failed.  Exactly one value is current at any time;
/// a chain without a failure is passing and keeps evaluating filters.
#[derive(Clone, Copy, Debug, PartialEq, Eq, Structural)]
pub enum FilterError {
    /// A header filter found the key missing or its value wrong.
    FailFilterHeader,
    /// A query filter found the key missing or its value wrong.
    FailFilterQuery,
    /// The path pattern did not accept the request path.
    FailFilterPath,
    /// The request method was not the expected one.
    FailFilterMethod,
    /// The request scheme was not the expected one.
    FailFilterScheme,
    /// The request port was absent or not the expected one.
    FailFilterPort,
    /// A custom predicate rejected the request.
    FailFilterCustom,
}

} // verus!
