//! The domain: what the services handle and what the route search works on.

pub mod airport;
pub mod airports;
pub mod best_route;
pub mod city;
pub mod comment;
pub mod common;
pub mod network;
pub mod route;
pub mod user;

pub use airport::Airport;
pub use city::City;
pub use comment::Comment;
pub use route::Route;
pub use user::User;
pub use user::UserDB;
