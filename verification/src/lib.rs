//! Holdfast: the logic of a remote-shell daemon, its agent and its clients.

pub mod agent;
pub mod agent_link;
pub mod assoc;
pub mod attachment;
pub mod auth;
pub mod base64;
pub mod bytes;
pub mod chance;
pub mod channels;
pub mod cli;
pub mod client;
pub mod clock;
pub mod conn;
pub mod daemon;
pub mod dockerwm;
pub mod forward;
pub mod frontdoor_bridge;
pub mod grant;
pub mod hex;
pub mod ids;
pub mod json;
pub mod key_file;
pub mod laws;
pub mod lifecycle;
pub mod net;
pub mod observability;
pub mod opening;
pub mod order;
pub mod pam;
pub mod parse;
pub mod password;
pub mod pem;
pub mod permits;
pub mod protocol;
pub mod rate_limit;
pub mod ssh;
pub mod store;
pub mod supervisor;
pub mod text;
pub mod uploads;
pub mod web;
pub mod wire;
pub mod ws;
