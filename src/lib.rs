//! An HTTP/1.1 origin server library: incremental request parsing with a
//! body cap, response framing, routing and path resolution, virtual hosts,
//! sessions, CGI marshalling, upload and listing logic, configuration
//! validation, and the per-connection state machine the server loop drives.

pub mod text;
pub mod utf8;
pub mod clock;
pub mod date;
pub mod buffer;
pub mod params;

pub mod status;
pub mod version;
pub mod method;
pub mod headers;
pub mod cookie;
pub mod error;
pub mod request;
pub mod response;
pub mod serializer;
pub mod parser;

pub mod config;
pub mod router;
pub mod vhost;
pub mod session;
pub mod handlers;
pub mod listing;
pub mod upload;
pub mod cgi;
pub mod event;
pub mod connection;
pub mod engine;
