//! What can go wrong.

use vstd::prelude::*;
use crate::handle::{ConnectorHandle, CrtcHandle, EncoderHandle};
use crate::mode::Mode;

verus! {

/// The failures that the device reports.
#[derive(Clone, Copy, Debug, PartialEq, Eq, Structural)]
pub enum Error {
    /// The descriptor could not be identified as a device node.
    DeviceIdentification,
    /// The list of the device's resources could not be read.
    ResourceCatalogRead,
    /// The description of this connector could not be read.
    ConnectorInfoLoad(ConnectorHandle),
    /// The description of this encoder could not be read.
    EncoderInfoLoad(EncoderHandle),
    /// The configuration of this CRTC could not be read.
    CrtcInfoLoad(CrtcHandle),
    /// A requested connector does not support the mode.
    ModeNotSuitable(Mode),
    /// No encoder of the connector can be driven by the CRTC.
    NoSuitableEncoder { connector: ConnectorHandle, crtc: CrtcHandle },
    /// A surface for the CRTC is still held by someone.
    CrtcAlreadyInUse(CrtcHandle),
    /// The device is paused.
    DeviceInactive,
    /// Pending events could not be read from the device.
    EventProcessingFailure,
}

} // verus!
