//! The logic of the EasyTier management agent and of the server routes it
//! talks to, with its contracts:
//!
//! - `network`, `suffix`: reading the node's address out of `ip -4 addr show`
//!   and the hostname suffix derived from it;
//! - `ip_monitor`, `process`, `web_client`, `config`: the agent's decisions
//!   about the core process and what it sends to the server;
//! - `agent_api`, `agent_table`: the server's agent store and its handlers;
//! - `client_releases`: the latest-release answer with proxied download links;
//! - `system`, `text`: what comes from the machine, and character helpers.
use vstd::prelude::*;

pub mod agent_api;
pub mod agent_table;
pub mod client_releases;
pub mod config;
pub mod ip_monitor;
pub mod network;
pub mod process;
pub mod suffix;
pub mod system;
pub mod text;
pub mod web_client;

verus! {

} // verus!
