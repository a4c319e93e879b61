//! Travel advisor: cities, airports, priced flights between them, and the
//! search for the cheapest way to fly from one city to another.

pub mod annotations;
pub mod api;
pub mod middleware;
pub mod model;
pub mod playground;
pub mod services;
pub mod storage;
pub mod util;
