//! A server for one static HTML document: the document's representations are
//! computed once, every request is answered from them, and request metrics
//! are kept beside.

pub mod cli;
pub mod clock;
pub mod codec;
pub mod http;
pub mod lifecycle;
pub mod metrics;
pub mod server;
pub mod text;
pub mod tls;
