//! Builds complete HTTP/1.1 responses for a small static file server: a file
//! with its sniffed content type, an HTML listing of a directory, or a 404 page.

pub mod codec;
pub mod paths;
pub mod mime;
pub mod response;
pub mod listing;
