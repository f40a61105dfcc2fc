//! Schemes of all messages used by the server.

pub mod data_server;
