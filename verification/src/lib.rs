//! Incremental-search client library for a line-oriented music-server
//! protocol: the input state machine, the constraint model and query
//! builder, and the request/response parsing, all verified.

pub mod fsm;
pub mod model;
pub mod numbers;
pub mod protocol;
pub mod session;
pub mod strutil;

pub use fsm::State;
pub use model::Constraint;
pub use model::FilterType;
