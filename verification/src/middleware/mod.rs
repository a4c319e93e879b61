//! What is decided about a request before a handler sees it.

pub mod jwt_extractor;
pub mod request_id;
