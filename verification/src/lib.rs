//! The core of a small HTTP/1.1 server: parsing a request, choosing its
//! handler, and building the response, with the decisions of one connection
//! as a state machine.
pub mod text;
pub mod request;
pub mod response;
pub mod router;
pub mod connection;
pub mod laws;
