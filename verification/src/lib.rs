//! Passive observation core for a UDP-borne secure transport: extracting
//! addressed UDP payloads from raw link-layer frames, dispatching the
//! protocol engine's outcomes, and tracking admitted connections.

pub mod credential;
pub mod frame;
pub mod monitorconfig;
pub mod registry;
pub mod router;
