//! The decisions of a live-routing reverse proxy, verified.
//!
//! Requests are routed by their `Host` header according to rules that a
//! relational store keeps. The library holds what is decided, not what is
//! done: it opens no socket and no connection. Its caller reads requests,
//! talks to the store and moves messages between tasks, and asks the library
//! at every turn what comes next.
//!
//! - [`db`]: the persistence actor, the single writer of the store, as a
//!   state machine over commands and store results.
//! - [`routing`]: the routing cache snapshot, the lookup mapping and the
//!   listing of one read of the store.
//! - [`authority`]: the lookup key of a `Host` value and the upstream URI.
//! - [`proxy_service`]: the request router and the cache synchronizer.
//! - [`models`]: the routing rule.
//! - [`laws`]: what holds of these parts taken together.

pub mod authority;
pub mod db;
pub mod laws;
pub mod models;
pub mod proxy_service;
pub mod routing;
