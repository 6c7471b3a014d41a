//! A small runtime for OS-level sandboxes ("jails"): parameter marshalling
//! for the kernel creation call, a declarative config-file parser, the
//! worker/controller lifecycle protocol, and the template provisioning
//! pipeline.

pub mod codec;
pub mod config;
pub mod kernel;
pub mod lifecycle;
pub mod params;
pub mod provision;
pub mod templates;
pub mod util;
