//! A minimal HTTP/1.0 static-file server core, verified with Verus.
//!
//! The crate covers the decision logic of one request/response exchange:
//! parsing a `GET <path> HTTP` request line, resolving the path against a
//! filesystem (descending into directories to find an index file),
//! classifying content, and formatting the response. Socket and filesystem
//! access stay outside: the resolver is a state machine whose caller
//! performs each probe and feeds the result back.

pub mod content;
pub mod fsmodel;
pub mod resolve;
pub mod request;
pub mod response;
pub mod server;
