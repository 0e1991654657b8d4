//! A client-side library over a key-value and stream store: decoding of the
//! store's stream replies, the requests that the composite stream operations
//! issue, and the choice of connection from configuration.
pub mod config;
pub mod reply;
pub mod stream;
