//! A small observability agent: events (logs and metrics), the components
//! that produce, filter and ship them, and the wiring between components.
//!
//! Everything here is the agent's own logic; reading the system, sockets,
//! timers and HTTP live with the binary that drives these functions.

pub mod event;
pub mod fields;
pub mod order;
pub mod time;
pub mod component;
pub mod filter;
pub mod datadog;
pub mod topology;
pub mod sysinfo;
pub mod sink;
pub mod source;
