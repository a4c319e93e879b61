//! What goes over the wire: the shapes of requests and responses, and how
//! the domain is turned into them.

pub mod dtos;
pub mod responses;
pub mod validations;
