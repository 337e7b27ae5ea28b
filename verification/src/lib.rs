//! A small HTTP routing framework: route patterns, typed extraction of handler
//! arguments, middleware, and dispatch, with the behaviour of each part stated
//! as a contract.

pub mod codec;
pub mod extract;
pub mod handler;
pub mod http;
pub mod laws;
pub mod middleware;
pub mod param;
pub mod pattern;
pub mod request;
pub mod response;
pub mod route;
pub mod server;
pub mod testing;
pub mod text;
pub mod wire;
