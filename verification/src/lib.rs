//! Action execution for solx.

pub mod caller;
pub mod chance;
pub mod config;
pub mod dispatcher;
pub mod encoding;
pub mod entities;
pub mod error;
pub mod execution;
pub mod internal;
pub mod invocations;
pub mod json;
pub mod laws;
pub mod loopback;
pub mod loopback_control;
pub mod manager;
pub mod mask;
pub mod net;
pub mod oauth_loopback;
pub mod script;
pub mod secrets;
pub mod seed;
pub mod store;
pub mod table;
pub mod text;
pub mod value;
pub mod wasm;
