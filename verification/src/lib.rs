//! Webhook inspection: whoever listens on a path with curl, or with an event
//! stream, is streamed the requests of others to the same path.
//!
//! - [`request`] tells who is asking and which handler answers.
//! - [`pipes`] holds the listeners of each path.
//! - [`post`] passes a request on to the listeners of its path and removes those
//!   that have gone; [`entry`] is what is passed on.
//! - [`session`] is the connection to a listener: the greeting, and then each
//!   request in turn. [`stream`] turns a request into the chunks that a listener
//!   reads; [`json`] shows JSON bodies in colour.
//! - [`reply`] makes the answers, [`redirect`] those to requests without TLS.
//! - [`tls`] reads the certificate of the service.
//! - [`headers`] and [`text`] are what the others share.

pub mod entry;
pub mod headers;
pub mod json;
pub mod pipes;
pub mod post;
pub mod redirect;
pub mod reply;
pub mod request;
pub mod session;
pub mod stream;
pub mod text;
pub mod tls;
