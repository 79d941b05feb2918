//! A small HTTP/1.1 server core: request decoding, path routing with
//! `:name` parameters, response encoding and the keep-alive decision of a
//! connection.
pub mod text;
pub mod fields;
pub mod status;
pub mod version;
pub mod request;
pub mod response;
pub mod route;
pub mod handlers;
pub mod connection;
