//! Tools for filtering and routing already-parsed HTTP requests.
//!
//! A request is modelled by [`request::RequestData`]; a chain of filter
//! calls on a [`request::Filter`] decides whether the request matches a
//! route and dispatches to a handler, to an error handler, or reports the
//! route as unhandled so that a multiplexer can try the next one.
//!
//! The pattern syntax route authors rely on: `{}` matches any single
//! path segment or any header or query value, `{a|b|c}` matches any of
//! the listed literals, a trailing `*` accepts the rest of a path, and a
//! leading `?` on a header or query key lets an absent key pass.

pub mod encoding;
pub mod interface;
pub mod request;
pub mod response;
pub mod text;
