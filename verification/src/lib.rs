//! Core of a kernel-mode-setting device backend.
//!
//! The crate holds the rules of such a backend as plain data and verified
//! functions: which surfaces may be created on which CRTC, how completion
//! events are routed, how pause and resume reach the device, and what has to
//! be restored when the device goes away. Talking to the kernel is left to the
//! caller, who hands in what was read from the device and carries out what
//! the functions here decide.

pub mod handle;
pub mod mode;
pub mod error;
pub mod lookup;
pub mod catalogue;
pub mod connectors;
pub mod surface;
pub mod registry;
pub mod snapshot;
pub mod resolve;
pub mod state;
pub mod device;
pub mod session;

pub use crate::device::LegacyDrmDevice;
pub use crate::error::Error;
pub use crate::session::{EglDeviceObserver, SessionObserver};
pub use crate::surface::LegacyDrmSurface;
