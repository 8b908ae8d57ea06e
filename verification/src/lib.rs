//! Session, tick-floor and input bookkeeping of a multiplayer game's server
//! edge and test client, with the command-line parsing of its server.
//!
//! - [`server`]: the server edge's sessions, PlayerIds, floors and steps;
//! - [`tick_loop`]: what each transport event leads to, and tick pacing;
//! - [`client`], [`tick_floor`], [`input`], [`connection`], [`state`]: the
//!   test client's session state, handshake and errors;
//! - [`args`], [`text`]: the server binary's settings from its command line
//!   and environment;
//! - [`config`], [`wire`]: match parameters and shared values.

pub mod args;
pub mod client;
pub mod config;
pub mod connection;
pub mod input;
pub mod server;
pub mod state;
pub mod text;
pub mod tick_floor;
pub mod tick_loop;
pub mod wire;
