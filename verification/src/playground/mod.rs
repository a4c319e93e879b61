//! Small types that try out operators and traits on types of one's own.

pub mod meters;
pub mod usage;
pub mod wrapper;
