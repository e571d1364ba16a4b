//! Connection bookkeeping for an X11 display service: owner-counted
//! connection registry, a one-slot latest-error cell fed by the native
//! error callback, the chain of previously installed callbacks, and
//! compute-once cells for optional native libraries and the default
//! connection.
//!
//! Loading libX11 goes through `x11_dl`; calls through Xlib's function
//! pointers and the process-wide locks stay with the caller, which hands
//! this crate plain values and acts on what it decides.

pub mod error;
pub mod fault;
pub mod registry;
pub mod memo;
pub mod capability;
pub mod laws;
