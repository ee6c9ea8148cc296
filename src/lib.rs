//! Request building for a browser-impersonating HTTP client: header lists,
//! the `Cookie` header, and the encoding of a request body, all proved
//! against their specifications. The client that sends the request lives
//! outside this library.

pub mod text;
pub mod body;
pub mod request;
