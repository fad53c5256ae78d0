//! Connection lifecycle and message routing for a telemetry hub: the request
//! gate, the registry of live outbound handles, the broadcast pass and the
//! per-connection frame dispatcher.

pub mod data;
pub mod dispatch;
pub mod gate;
pub mod registry;
