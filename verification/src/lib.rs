//! A virtual-hosting reverse proxy core for the Minecraft wire protocol.
//!
//! The crate holds the proxy's logic: classifying a client's first packet and
//! extracting the requested virtual host, the routing configuration model,
//! the per-connection forwarding decisions, and the listener-lifecycle
//! controller's state transitions. The surrounding I/O (sockets, the
//! filesystem watcher, logging) lives outside the library and hands it plain
//! values.

pub mod config_change;
pub mod connection;
pub mod controller;
pub mod minecraft;
pub mod proxy;
pub mod proxy_config;
