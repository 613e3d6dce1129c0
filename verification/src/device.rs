//! The device: what it knows, and what it decides.

use vstd::prelude::*;
use crate::catalogue::Catalogue;
use crate::connectors::ConnectorSet;
use crate::error::Error;
use crate::handle::CrtcHandle;
use crate::mode::Mode;
use crate::registry::SurfaceRegistry;
use crate::snapshot::{wirings, HardwareSnapshot, SnapshotEntry};
use crate::state::{completions, open_failure, opened, stale_flips, DeviceState, Event, HandlerCall};
use crate::surface::{LegacyDrmSurface, State, StateView, SurfaceView};

verus! {

/// The outcome of reading the device's pending events.
#[derive(Debug)]
pub enum EventRead {
    /// The events that were pending, oldest first.
    Batch(Vec<Event>),
    /// The read failed.
    Failed,
}

impl View for EventRead {
    type V = Option<Seq<Event>>;

    open spec fn view(&self) -> Option<Seq<Event>> {
        match self {
            EventRead::Batch(events) => Some(events@),
            EventRead::Failed => None,
        }
    }
}

/// What is left to do when a device goes away.
#[derive(Debug)]
pub enum Teardown {
    /// A surface of the device is still held. The device must not go away
    /// before its surfaces: the only thing left to do is to halt.
    PendingSurfaces,
    /// The device may go.
    Restore {
        /// The wiring to put back, each CRTC once.
        entries: Vec<SnapshotEntry>,
        /// Whether mastership over the device is to be given up.
        drop_master: bool,
    },
}

/// An open mode-setting device.
///
/// The device knows the wiring that it found when it was opened, whether it
/// holds mastership, whether the session may use it at present, which
/// surfaces it has handed out, and its handler, if one is set.
pub struct LegacyDrmDevice<H> {
    dev_id: u64,
    privileged: bool,
    active: bool,
    old_state: HardwareSnapshot,
    backends: SurfaceRegistry,
    handler: Option<H>,
}

impl<H> View for LegacyDrmDevice<H> {
    type V = DeviceState;

    closed spec fn view(&self) -> DeviceState {
        DeviceState {
            dev_id: self.dev_id,
            privileged: self.privileged,
            active: self.active,
            old_state: self.old_state@,
            backends: self.backends@,
            has_handler: self.handler is Some,
        }
    }
}

impl<H> LegacyDrmDevice<H> {
    /// The snapshot and the registry are well formed.
    pub closed spec fn wf(&self) -> bool {
        self.old_state.wf() && self.backends.wf()
    }

    /// The handler that is set, if one is.
    pub closed spec fn spec_handler(&self) -> Option<H> {
        self.handler
    }

    /// A handler is set exactly if the state says so.
    pub proof fn lemma_handler(&self)
        ensures
            self@.has_handler == (self.spec_handler() is Some),
    {
    }

    /// Opens a device.
    ///
    /// `dev_id` is the identifier of the device node, or `None` if the node
    /// could not be identified. `master` says whether mastership over the
    /// node was acquired; without it the device works unprivileged.
    /// `catalogue` is what the device said of its resources.
    ///
    /// The new device is active, has no surface and no handler, and
    /// remembers the wiring that the catalogue shows.
    pub fn new(dev_id: Option<u64>, master: bool, catalogue: &Catalogue) -> (res: Result<
        LegacyDrmDevice<H>,
        Error,
    >)
        ensures
            match res {
                Ok(device) => {
                    &&& open_failure(dev_id, catalogue) is None
                    &&& device.wf()
                    &&& device.spec_handler() is None
                    &&& device@ == opened(dev_id.unwrap(), master, catalogue)
                },
                Err(e) => open_failure(dev_id, catalogue) == Some(e),
            },
    {
        let dev_id = match dev_id {
            Some(dev_id) => dev_id,
            None => { return Err(Error::DeviceIdentification); },
        };
        let resources = match &catalogue.resources {
            Some(resources) => resources,
            None => { return Err(Error::ResourceCatalogRead); },
        };
        let old_state = match HardwareSnapshot::capture(catalogue, &resources.connectors) {
            Ok(old_state) => old_state,
            Err(e) => { return Err(e); },
        };
        Ok(
            LegacyDrmDevice {
                dev_id,
                privileged: master,
                active: true,
                old_state,
                backends: SurfaceRegistry::new(),
                handler: None,
            },
        )
    }

    /// The identifier of the device node.
    pub fn dev_id(&self) -> (res: u64)
        ensures
            res == self@.dev_id,
    {
        self.dev_id
    }

    /// Whether the device holds mastership over its node.
    pub fn is_privileged(&self) -> (res: bool)
        ensures
            res == self@.privileged,
    {
        self.privileged
    }

    /// Whether the session may use the device at present.
    pub fn is_active(&self) -> (res: bool)
        ensures
            res == self@.active,
    {
        self.active
    }

    /// The wiring found when the device was opened.
    pub fn old_state(&self) -> (res: &HardwareSnapshot)
        ensures
            res@ == self@.old_state,
            self.wf() ==> res.wf(),
    {
        &self.old_state
    }

    /// What the registry holds for `crtc`: nothing, a surface that is still
    /// held (`true`), or a stale entry (`false`).
    pub fn surface_entry(&self, crtc: CrtcHandle) -> (res: Option<bool>)
        requires
            self.wf(),
        ensures
            res == if self@.backends.contains_key(crtc) {
                Some(self@.backends[crtc])
            } else {
                None
            },
    {
        self.backends.lookup(crtc)
    }

    /// Sets the active flag.
    pub(crate) fn set_active(&mut self, active: bool)
        ensures
            final(self)@ == (DeviceState { active, ..old(self)@ }),
            final(self).spec_handler() == old(self).spec_handler(),
            old(self).wf() ==> final(self).wf(),
    {
        self.active = active;
    }

    /// Sets the handler, in place of the one that was set before.
    pub fn set_handler(&mut self, handler: H)
        ensures
            final(self).spec_handler() == Some(handler),
            final(self)@ == (DeviceState { has_handler: true, ..old(self)@ }),
            old(self).wf() ==> final(self).wf(),
    {
        self.handler = Some(handler);
    }

    /// Removes the handler.
    pub fn clear_handler(&mut self)
        ensures
            final(self).spec_handler() is None,
            final(self)@ == (DeviceState { has_handler: false, ..old(self)@ }),
            old(self).wf() ==> final(self).wf(),
    {
        self.handler = None;
    }

    /// The handler that is set, to call it.
    pub fn handler_mut(&mut self) -> (res: Option<&mut H>)
        ensures
            match res {
                Some(handler) => {
                    &&& old(self).spec_handler() == Some(*handler)
                    &&& final(self).spec_handler() == Some(*final(handler))
                },
                None => old(self).spec_handler() is None && final(self).spec_handler() is None,
            },
            final(self)@ == old(self)@,
            old(self).wf() ==> final(self).wf(),
    {
        match &mut self.handler {
            Some(handler) => Some(handler),
            None => None,
        }
    }

    /// Says why a request for a surface on `crtc` is turned away before the
    /// hardware is asked anything, if it is: because a surface for the CRTC
    /// is still held, or else because the device is paused.
    ///
    /// Whoever reads the catalogue for `create_surface` asks here first, and
    /// reads only if the answer is `None`.
    pub fn admission_failure(&self, crtc: CrtcHandle) -> (res: Option<Error>)
        requires
            self.wf(),
        ensures
            res == self@.admission_failure(crtc),
            res == if self@.is_live(crtc) {
                Some(Error::CrtcAlreadyInUse(crtc))
            } else if !self@.active {
                Some(Error::DeviceInactive)
            } else {
                None
            },
    {
        if self.backends.is_live(crtc) {
            Some(Error::CrtcAlreadyInUse(crtc))
        } else if !self.active {
            Some(Error::DeviceInactive)
        } else {
            None
        }
    }

    /// Makes a surface that shows `mode` on `connectors`, driven by `crtc`.
    ///
    /// Fails, and leaves the device as it is, if a surface for `crtc` is
    /// still held, if the device is paused, or if `catalogue` shows that the
    /// hardware cannot do it. Otherwise the surface is registered and handed
    /// out; `mode` on `connectors` is both its applied and its pending state.
    pub fn create_surface(
        &mut self,
        crtc: CrtcHandle,
        mode: Mode,
        connectors: ConnectorSet,
        catalogue: &Catalogue,
    ) -> (res: Result<LegacyDrmSurface, Error>)
        requires
            old(self).wf(),
            connectors.wf(),
        ensures
            final(self).wf(),
            final(self).spec_handler() == old(self).spec_handler(),
            match res {
                Ok(surface) => {
                    &&& old(self)@.create_failure(catalogue, crtc, mode, connectors@) is None
                    &&& surface.wf()
                    &&& surface@ == (SurfaceView {
                        crtc,
                        current: StateView { mode, connectors: connectors@ },
                        pending: StateView { mode, connectors: connectors@ },
                    })
                    &&& final(self)@ == old(self)@.with_surface(crtc)
                },
                Err(e) => {
                    &&& old(self)@.create_failure(catalogue, crtc, mode, connectors@) == Some(e)
                    &&& final(self)@ == old(self)@
                },
            },
    {
        match self.admission_failure(crtc) {
            Some(e) => { return Err(e); },
            None => {},
        }
        match catalogue.validate(crtc, mode, &connectors) {
            Ok(_) => {},
            Err(e) => { return Err(e); },
        }
        let surface = LegacyDrmSurface::new(crtc, State { mode, connectors });
        self.backends.register(crtc);
        Ok(surface)
    }

    /// Takes back a surface that nobody holds any longer.
    ///
    /// The entry of the surface becomes stale: it stays in the registry until
    /// it is pruned or a new surface for the CRTC takes its place. Returns
    /// whether the registry held the surface.
    pub fn release_surface(&mut self, surface: LegacyDrmSurface) -> (res: bool)
        requires
            old(self).wf(),
        ensures
            final(self).wf(),
            final(self).spec_handler() == old(self).spec_handler(),
            res == old(self)@.is_live(surface@.crtc),
            final(self)@ == old(self)@.released(surface@.crtc),
    {
        self.backends.release(surface.crtc())
    }

    /// Decides what follows from a read of the device's pending events.
    ///
    /// Returns the calls that the handler is owed, in order. A page flip
    /// whose CRTC has no held surface prunes the stale entry of that CRTC.
    /// While the device is paused a batch is dropped: nothing is called or
    /// pruned. Events other than page flips are passed over.
    pub fn process_events(&mut self, read: &EventRead) -> (calls: Vec<HandlerCall>)
        requires
            old(self).wf(),
        ensures
            final(self).wf(),
            final(self).spec_handler() == old(self).spec_handler(),
            calls@ == old(self)@.handler_calls(read@),
            final(self)@ == old(self)@.after_events(read@),
    {
        let mut calls: Vec<HandlerCall> = Vec::new();
        let events = match read {
            EventRead::Batch(events) => events,
            EventRead::Failed => {
                if self.handler.is_some() {
                    calls.push(HandlerCall::Error(Error::EventProcessingFailure));
                }
                return calls;
            },
        };
        let ghost start = self@;
        if !self.active {
            return calls;
        }
        proof {
            assert(stale_flips(start.backends, events@.take(0)) =~= Set::<CrtcHandle>::empty());
            assert(start.backends.remove_keys(Set::<CrtcHandle>::empty()) =~= start.backends);
        }
        let mut i: usize = 0;
        while i < events.len()
            invariant
                i <= events.len(),
                self.wf(),
                start.active,
                self.spec_handler() == old(self).spec_handler(),
                self@ == (DeviceState {
                    backends: start.backends.remove_keys(
                        stale_flips(start.backends, events@.take(i as int)),
                    ),
                    ..start
                }),
                calls@ == if start.has_handler {
                    completions(start.backends, events@.take(i as int))
                } else {
                    Seq::<HandlerCall>::empty()
                },
            decreases events.len() - i,
        {
            let ghost before = events@.take(i as int);
            let ghost now = events@.take(i + 1);
            proof {
                assert(now.drop_last() == before);
                assert(now.last() == events@[i as int]);
                assert forall|e: Event| now.contains(e) <==> (before.contains(e) || e
                    == events@[i as int]) by {
                    if before.contains(e) {
                        let k = choose|k: int| 0 <= k < before.len() && before[k] == e;
                        assert(now[k] == e);
                    }
                    if now.contains(e) {
                        let k = choose|k: int| 0 <= k < now.len() && now[k] == e;
                        if k < i {
                            assert(before[k] == e);
                        }
                    }
                    assert(now[i as int] == events@[i as int]);
                }
            }
            match events[i] {
                Event::PageFlip(crtc) => {
                    if self.backends.is_live(crtc) {
                        if self.handler.is_some() {
                            calls.push(HandlerCall::Completion(crtc));
                        }
                        proof {
                            assert(stale_flips(start.backends, now) =~= stale_flips(
                                start.backends,
                                before,
                            ));
                        }
                    } else {
                        self.backends.remove(crtc);
                        proof {
                            assert(self@.backends =~= start.backends.remove_keys(
                                stale_flips(start.backends, now),
                            ));
                        }
                    }
                },
                _ => {
                    proof {
                        assert(stale_flips(start.backends, now) =~= stale_flips(
                            start.backends,
                            before,
                        ));
                    }
                },
            }
            i += 1;
        }
        proof {
            assert(events@.take(i as int) == events@);
        }
        calls
    }

    /// Ends the device and decides what is left to do.
    ///
    /// While a surface is still held the device must not go away, and the
    /// answer is `PendingSurfaces`. Otherwise an active device puts back the
    /// whole wiring that it found when it was opened, each CRTC once, and a
    /// paused device puts nothing back. Mastership is given up if the device
    /// holds it, active or not.
    pub fn teardown(self) -> (res: Teardown)
        requires
            self.wf(),
        ensures
            match res {
                Teardown::PendingSurfaces => self@.has_live_surface(),
                Teardown::Restore { entries, drop_master } => {
                    &&& !self@.has_live_surface()
                    &&& wirings(entries@) == self@.restore_plan()
                    &&& drop_master == self@.privileged
                },
            },
    {
        let ghost state = self@;
        let mut device = self;
        let pending = device.backends.has_live();
        proof {
            let held = device.backends@;
            assert(held == state.backends);
            if pending {
                let c = choose|c: CrtcHandle| held.contains_key(c) && #[trigger] held[c];
                assert(state.backends.contains_key(c) && state.backends[c]);
            }
            if state.has_live_surface() {
                let c = choose|c: CrtcHandle|
                    state.backends.contains_key(c) && #[trigger] state.backends[c];
                assert(held.contains_key(c) && held[c]);
            }
        }
        device.backends.clear();
        if pending {
            return Teardown::PendingSurfaces;
        }
        if device.active {
            let entries = device.old_state.drain();
            Teardown::Restore { entries, drop_master: device.privileged }
        } else {
            Teardown::Restore { entries: Vec::new(), drop_master: device.privileged }
        }
    }
}

} // verus!
