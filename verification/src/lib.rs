//! Market stream gateway.
pub mod api;
pub mod catalog;
pub mod config;
pub mod decimal;
pub mod domain;
pub mod gateway;
pub mod health;
pub mod history;
pub mod json;
pub mod keyset;
pub mod laws;
pub mod metrics;
pub mod protocol;
pub mod providers;
pub mod runtime;
pub mod table;
pub mod text;
pub mod venues;
pub mod weburl;
pub mod wire;

use vstd::prelude::*;

verus! {

/// The name of the service.
pub const SERVICE_NAME: &'static str = "market-stream-gateway";

} // verus!
