//! Verified core of a terminal program that drives a fleet of coding agents.
//!
//! The library holds the state machine, the rules and the wire format. It
//! performs no input or output: every function maps plain values to plain
//! values, and the program around it carries out the effects it asks for.
pub mod agent;
pub mod app;
pub mod cli;
pub mod config;
pub mod effect;
pub mod error_codes;
pub mod event;
pub mod explorer;
pub mod framing;
pub mod init;
pub mod json;
pub mod keybind;
pub mod mcp_server;
pub mod methods;
pub mod order;
pub mod pairing;
pub mod paths;
pub mod protocol;
pub mod text;
pub mod types;
pub mod ui;
pub mod workspace;
