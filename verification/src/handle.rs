//! Identifiers of the resources of one device.

use vstd::prelude::*;

verus! {

/// Identifier of a CRTC, unique within one device.
#[derive(Clone, Copy, Debug, PartialEq, Eq, Hash, Structural)]
pub struct CrtcHandle(pub u32);

/// Identifier of a connector, unique within one device.
#[derive(Clone, Copy, Debug, PartialEq, Eq, Hash, Structural)]
pub struct ConnectorHandle(pub u32);

/// Identifier of an encoder, unique within one device.
#[derive(Clone, Copy, Debug, PartialEq, Eq, Hash, Structural)]
pub struct EncoderHandle(pub u32);

/// Identifier of a framebuffer, unique within one device.
#[derive(Clone, Copy, Debug, PartialEq, Eq, Hash, Structural)]
pub struct FramebufferHandle(pub u32);

} // verus!
