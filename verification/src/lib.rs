//! A self-hosted, RustDesk-compatible rendezvous and relay service.
//!
//! * `codec`, `message`: what goes over the wire.
//! * `registry`, `pending`, `server`, `audit`, `config`: the rendezvous server.
//! * `relay`: the relay.
//! * `stream`: the video fan-out.
//! * `control`: the HTTP control plane.
//! * `capture`, `capturer`, `mac_capturer`, `win_capturer`: screen capture.
//! * `buffer`, `json`: the byte buffers and JSON values that these use.

pub mod audit;
pub mod buffer;
pub mod capture;
pub mod capturer;
pub mod codec;
pub mod config;
pub mod control;
pub mod json;
pub mod mac_capturer;
pub mod message;
pub mod pending;
pub mod registry;
pub mod relay;
pub mod server;
pub mod stream;
pub mod win_capturer;
