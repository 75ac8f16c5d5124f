//! The request-handling core of a web framework: requests with a typed
//! extension map and a payload that can be taken once, extractors run in
//! declared order that stop at the first failure, handlers wrapped by
//! middleware folded left to right, and the plans from which the handler
//! attribute and the middleware tuple impls are generated.

pub mod codegen;
pub mod data;
pub mod endpoint;
pub mod extract;
pub mod http;
