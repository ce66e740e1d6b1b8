//! An in-memory to-do service: the records, the store that keeps their ids
//! unique, the routing of requests, and the replies that they get.
//!
//! `laws` states, and proves, what holds of any run of the service's commands.
pub mod todo;
pub mod store;
pub mod route;
pub mod api;
pub mod posts;
pub mod laws;
