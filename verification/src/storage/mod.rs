//! What the library asks of the stores behind it, and stores that keep
//! everything in memory.

pub mod airport;
pub mod city;
pub mod entities;
pub mod memory;
pub mod route;
pub mod user;

pub use airport::AirportRepository;
pub use city::CityRepository;
pub use route::RouteRepository;
