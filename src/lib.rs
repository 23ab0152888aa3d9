//! Supervision of sidecar helper processes for a desktop shell.
//!
//! The library decides; the application acts. Spawning a helper, sending a
//! termination request and showing a window are done by the caller, which
//! hands the outcomes back to the verified state machines here.
pub mod env;
pub mod lifecycle;
pub mod registry;
pub mod slot;
pub mod startup;
