//! A minimal HTTP server library: request parsing, routing with verb
//! enforcement, response rendering, a mime table, and the small support
//! types around them. Socket and file I/O live outside the library; the
//! functions here compute on plain values and carry contracts.

pub mod arghelper;
pub mod cache;
pub mod duration;
pub mod handler;
pub mod mime;
pub mod request;
pub mod response;
pub mod server;
pub mod strutil;
