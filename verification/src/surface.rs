//! Surfaces: what one CRTC shows.

use vstd::prelude::*;
use crate::connectors::ConnectorSet;
use crate::handle::{ConnectorHandle, CrtcHandle};
use crate::mode::Mode;

verus! {

/// What a CRTC is meant to show: a mode, on a set of connectors.
#[derive(Debug)]
pub struct State {
    pub mode: Mode,
    pub connectors: ConnectorSet,
}

/// A `State` as plain values.
pub struct StateView {
    pub mode: Mode,
    pub connectors: Seq<ConnectorHandle>,
}

impl View for State {
    type V = StateView;

    open spec fn view(&self) -> StateView {
        StateView { mode: self.mode, connectors: self.connectors@ }
    }
}

impl Clone for State {
    fn clone(&self) -> (res: State)
        ensures
            res@ == self@,
            self.connectors.wf() ==> res.connectors.wf(),
    {
        State { mode: self.mode, connectors: self.connectors.clone() }
    }
}

/// A surface: the output of one CRTC.
///
/// A surface is bound to its CRTC for as long as it exists. It carries the
/// state that was last applied and the state that waits for the next commit.
#[derive(Debug)]
pub struct LegacyDrmSurface {
    crtc: CrtcHandle,
    state: State,
    pending: State,
}

/// A surface as plain values.
pub struct SurfaceView {
    pub crtc: CrtcHandle,
    pub current: StateView,
    pub pending: StateView,
}

impl View for LegacyDrmSurface {
    type V = SurfaceView;

    closed spec fn view(&self) -> SurfaceView {
        SurfaceView { crtc: self.crtc, current: self.state@, pending: self.pending@ }
    }
}

impl LegacyDrmSurface {
    /// Neither state lists a connector twice.
    pub closed spec fn wf(&self) -> bool {
        self.state.connectors.wf() && self.pending.connectors.wf()
    }

    /// A fresh surface on `crtc`: `state` is both what is applied and what
    /// is pending.
    pub(crate) fn new(crtc: CrtcHandle, state: State) -> (res: LegacyDrmSurface)
        requires
            state.connectors.wf(),
        ensures
            res.wf(),
            res@ == (SurfaceView { crtc, current: state@, pending: state@ }),
    {
        let pending = state.clone();
        LegacyDrmSurface { crtc, state, pending }
    }

    /// The CRTC that the surface is bound to.
    pub fn crtc(&self) -> (res: CrtcHandle)
        ensures
            res == self@.crtc,
    {
        self.crtc
    }

    /// The state that was last applied.
    pub fn current_state(&self) -> (res: &State)
        ensures
            res@ == self@.current,
            self.wf() ==> res.connectors.wf(),
    {
        &self.state
    }

    /// The state that waits for the next commit.
    pub fn pending_state(&self) -> (res: &State)
        ensures
            res@ == self@.pending,
            self.wf() ==> res.connectors.wf(),
    {
        &self.pending
    }
}

} // verus!
