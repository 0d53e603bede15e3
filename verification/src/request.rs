//! The request side: the request model, the path matcher, query
//! extraction, the filter state machine, and the handlers it dispatches
//! to.

pub mod filter;
pub mod filter_status;
pub mod handlers;
pub mod model;
pub mod path;
pub mod query;

pub use filter::Filter;
pub use filter::Resolution;
pub use filter_status::FilterError;
pub use handlers::DefaultHandlers;
pub use handlers::HandlerFailure;
pub use handlers::HandlerResult;
pub use handlers::Handlers;
pub use handlers::KindHandler;
pub use model::HttpVersion;
pub use model::RequestData;
pub use query::query_iter;
