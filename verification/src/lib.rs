//! A clipboard shared between machines: servers that hold a clipboard, a hub
//! that relays clipboard changes between servers, and a client that talks to
//! one server.
pub mod framing;
pub mod text;
pub mod hub_message;
pub mod commands;
pub mod server;
pub mod watcher;
pub mod ntfy;
pub mod client;
pub mod hub;
