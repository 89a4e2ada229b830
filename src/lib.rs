//! Lazy service discovery for a cluster of game servers: a membership cache
//! kept in lockstep over two indices, a fan-out of membership notifications,
//! the key layout of the coordination store, and the decisions of the lease
//! keep-alive and watch tasks.
pub mod server;
pub mod bus;
pub mod index;
pub mod cache;
pub mod keys;
pub mod lease;
pub mod watch;
pub mod engine;
