//! Input backends: each platform translates its native events into `InputEvent`.
//!
//! The platform plumbing (device enumeration, hooks, the channel to the
//! pipeline) runs outside the library; the decisions it makes on each event or
//! device are here.
use vstd::prelude::*;

pub mod evdev_backend;
pub mod windows_backend;

verus! {

/// Error starting a backend (permissions, device access, etc.).
#[derive(Debug)]
pub enum BackendError {
    /// The backend failed to start; the message says why.
    Start(String),
    /// Accessibility or input permission denied.
    Permission,
}

} // verus!
