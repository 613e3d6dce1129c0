//! What a device knows, as plain values, and how it changes.

use vstd::prelude::*;
use crate::catalogue::Catalogue;
use crate::error::Error;
use crate::handle::{ConnectorHandle, CrtcHandle};
use crate::lookup::lemma_first_some;
use crate::mode::Mode;
use crate::snapshot::{
    capture_failure,
    captured,
    driven_connectors,
    lemma_captured_is_wiring,
    lemma_replayed,
    replayed,
    wired_crtcs,
    Wiring,
};

verus! {

/// Something that the device reported.
#[derive(Clone, Copy, Debug, PartialEq, Eq, Structural)]
pub enum Event {
    /// A vertical blank went by on the CRTC.
    Vblank(CrtcHandle),
    /// A queued page flip on the CRTC is done.
    PageFlip(CrtcHandle),
    /// Anything else.
    Unknown,
}

/// A call that the handler of the device is owed.
#[derive(Clone, Copy, Debug, PartialEq, Eq, Structural)]
pub enum HandlerCall {
    /// A page flip is done on the surface of this CRTC.
    Completion(CrtcHandle),
    /// Processing events failed.
    Error(Error),
}

/// What a device knows, as plain values.
pub struct DeviceState {
    /// The identifier of the device node.
    pub dev_id: u64,
    /// Whether the device holds mastership over its node.
    pub privileged: bool,
    /// Whether the session may use the device at present.
    pub active: bool,
    /// The wiring found when the device was opened.
    pub old_state: Seq<Wiring>,
    /// For each CRTC with a registered surface, whether the surface is still
    /// held.
    pub backends: Map<CrtcHandle, bool>,
    /// Whether a handler is set.
    pub has_handler: bool,
}

/// The calls owed for the page flips among `events` whose CRTC has a held
/// surface in `backends`, in the order of the events.
pub open spec fn completions(backends: Map<CrtcHandle, bool>, events: Seq<Event>) -> Seq<
    HandlerCall,
>
    decreases events.len(),
{
    if events.len() == 0 {
        Seq::empty()
    } else {
        let before = completions(backends, events.drop_last());
        match events.last() {
            Event::PageFlip(crtc) => if backends.contains_key(crtc) && backends[crtc] {
                before.push(HandlerCall::Completion(crtc))
            } else {
                before
            },
            _ => before,
        }
    }
}

/// The CRTCs with a stale entry in `backends` for which `events` holds a
/// page flip.
pub open spec fn stale_flips(backends: Map<CrtcHandle, bool>, events: Seq<Event>) -> Set<
    CrtcHandle,
> {
    Set::new(
        |c: CrtcHandle| backends.contains_key(c) && !backends[c] && events.contains(Event::PageFlip(c)),
    )
}

impl DeviceState {
    /// Whether a surface for `crtc` is registered and still held.
    pub open spec fn is_live(self, crtc: CrtcHandle) -> bool {
        self.backends.contains_key(crtc) && self.backends[crtc]
    }

    /// Whether any registered surface is still held.
    pub open spec fn has_live_surface(self) -> bool {
        exists|c: CrtcHandle| self.backends.contains_key(c) && #[trigger] self.backends[c]
    }

    /// Why the device does not even consider a request for a surface on
    /// `crtc`, if it does not: a surface for the CRTC is still held, or else
    /// the device is paused. This is decided before anything is asked of the
    /// hardware.
    pub open spec fn admission_failure(self, crtc: CrtcHandle) -> Option<Error> {
        if self.is_live(crtc) {
            Some(Error::CrtcAlreadyInUse(crtc))
        } else if !self.active {
            Some(Error::DeviceInactive)
        } else {
            None
        }
    }

    /// Why no surface can be made for `crtc`, if none can. The first of
    /// these that holds decides: a surface for the CRTC is still held; the
    /// device is paused; the hardware cannot do it.
    pub open spec fn create_failure(
        self,
        catalogue: &Catalogue,
        crtc: CrtcHandle,
        mode: Mode,
        connectors: Seq<ConnectorHandle>,
    ) -> Option<Error> {
        match self.admission_failure(crtc) {
            Some(e) => Some(e),
            None => catalogue.spec_validation_failure(crtc, mode, connectors),
        }
    }

    /// The state after a surface was made for `crtc`.
    pub open spec fn with_surface(self, crtc: CrtcHandle) -> DeviceState {
        DeviceState { backends: self.backends.insert(crtc, true), ..self }
    }

    /// The state after the surface for `crtc` was let go.
    pub open spec fn released(self, crtc: CrtcHandle) -> DeviceState {
        if self.is_live(crtc) {
            DeviceState { backends: self.backends.insert(crtc, false), ..self }
        } else {
            self
        }
    }

    /// The state after the session was paused.
    pub open spec fn paused(self) -> DeviceState {
        DeviceState { active: false, ..self }
    }

    /// The state after the session was resumed.
    pub open spec fn activated(self) -> DeviceState {
        DeviceState { active: true, ..self }
    }

    /// The calls that the handler is owed after `read`.
    ///
    /// Without a handler nothing is owed. A failed read is owed an error
    /// call. Of a batch, each page flip whose CRTC has a held surface is owed
    /// a completion call, unless the device is paused: then the batch is
    /// dropped.
    pub open spec fn handler_calls(self, read: Option<Seq<Event>>) -> Seq<HandlerCall> {
        if !self.has_handler {
            Seq::empty()
        } else {
            match read {
                None => seq![HandlerCall::Error(Error::EventProcessingFailure)],
                Some(events) => if self.active {
                    completions(self.backends, events)
                } else {
                    Seq::empty()
                },
            }
        }
    }

    /// The state after `read` was processed: if the device is not paused,
    /// the stale entries of the CRTCs that the batch holds a page flip for
    /// are gone.
    pub open spec fn after_events(self, read: Option<Seq<Event>>) -> DeviceState {
        match read {
            Some(events) => if self.active {
                DeviceState {
                    backends: self.backends.remove_keys(stale_flips(self.backends, events)),
                    ..self
                }
            } else {
                self
            },
            None => self,
        }
    }
}

/// Why a device cannot be opened, if it cannot. The first of these that
/// holds decides: the node was not identified; the handle lists are missing;
/// a connector cannot be followed to its CRTC.
pub open spec fn open_failure(dev_id: Option<u64>, catalogue: &Catalogue) -> Option<Error> {
    match dev_id {
        None => Some(Error::DeviceIdentification),
        Some(_) => match catalogue.resources {
            None => Some(Error::ResourceCatalogRead),
            Some(resources) => capture_failure(catalogue, resources.connectors@),
        },
    }
}

/// The state of a device that was just opened: active, without surface or
/// handler, with the wiring that the catalogue shows.
pub open spec fn opened(dev_id: u64, master: bool, catalogue: &Catalogue) -> DeviceState
    recommends
        catalogue.resources is Some,
{
    DeviceState {
        dev_id,
        privileged: master,
        active: true,
        old_state: captured(catalogue, catalogue.resources.unwrap().connectors@),
        backends: Map::empty(),
        has_handler: false,
    }
}

impl DeviceState {
    /// The wiring that is put back when the device goes away: all of what
    /// was found when it was opened, or nothing if the device is paused.
    pub open spec fn restore_plan(self) -> Seq<Wiring> {
        if self.active {
            self.old_state
        } else {
            Seq::empty()
        }
    }

    /// While the surface of a CRTC is held, no request for another surface
    /// on that CRTC succeeds: whatever is asked for, the answer is that the
    /// CRTC is in use.
    pub proof fn lemma_held_crtc_is_refused(
        self,
        catalogue: &Catalogue,
        crtc: CrtcHandle,
        mode: Mode,
        connectors: Seq<ConnectorHandle>,
    )
        requires
            self.is_live(crtc),
        ensures
            self.create_failure(catalogue, crtc, mode, connectors) == Some(
                Error::CrtcAlreadyInUse(crtc),
            ),
    {
    }

    /// A surface that was made is held, and stays held until it is let go:
    /// neither a surface for another CRTC, nor letting go of another
    /// surface, nor a pause or a resume, nor any read of events ends it.
    pub proof fn lemma_held_until_released(
        self,
        crtc: CrtcHandle,
        other: CrtcHandle,
        read: Option<Seq<Event>>,
    )
        ensures
            self.with_surface(crtc).is_live(crtc),
            self.is_live(crtc) ==> self.with_surface(other).is_live(crtc),
            self.is_live(crtc) && other != crtc ==> self.released(other).is_live(crtc),
            self.is_live(crtc) ==> self.paused().is_live(crtc),
            self.is_live(crtc) ==> self.activated().is_live(crtc),
            self.is_live(crtc) ==> self.after_events(read).is_live(crtc),
    {
    }

    /// Once the surface of a CRTC has been let go, the CRTC is free again:
    /// a request for it is answered as if the CRTC had never had a surface.
    /// In particular the request that made the first surface succeeds again.
    pub proof fn lemma_released_crtc_is_free(
        self,
        catalogue: &Catalogue,
        crtc: CrtcHandle,
        mode: Mode,
        connectors: Seq<ConnectorHandle>,
    )
        requires
            !self.is_live(crtc),
        ensures
            !self.with_surface(crtc).released(crtc).is_live(crtc),
            self.with_surface(crtc).released(crtc).create_failure(catalogue, crtc, mode, connectors)
                == self.create_failure(catalogue, crtc, mode, connectors),
            self.with_surface(crtc).released(crtc).create_failure(catalogue, crtc, mode, connectors)
                != Some(Error::CrtcAlreadyInUse(crtc)),
    {
        let f = |c: ConnectorHandle| catalogue.spec_connector_failure(crtc, mode, c);
        lemma_first_some(connectors, f);
    }

    /// A mode that none of the requested connectors supports is refused as
    /// not suitable, provided that the request gets as far as the hardware
    /// (the CRTC is free and the device active) and that there is a first
    /// connector and it is described.
    pub proof fn lemma_unsupported_mode_is_refused(
        self,
        catalogue: &Catalogue,
        crtc: CrtcHandle,
        mode: Mode,
        connectors: Seq<ConnectorHandle>,
    )
        requires
            !self.is_live(crtc),
            self.active,
            connectors.len() > 0,
            catalogue.spec_connector_info(connectors[0]) is Some,
            forall|i: int|
                0 <= i < connectors.len() ==> match #[trigger] catalogue.spec_connector_info(
                    connectors[i],
                ) {
                    Some(con) => !con.spec_supports(mode),
                    None => true,
                },
        ensures
            self.create_failure(catalogue, crtc, mode, connectors) == Some(
                Error::ModeNotSuitable(mode),
            ),
    {
    }

    /// Where the CRTC can drive no encoder of any requested connector, the
    /// request is refused for want of an encoder, and the refusal names the
    /// first connector, provided that the request gets as far as that
    /// question: the CRTC is free, the device active, the handle lists are
    /// there, and the first connector is described, supports the mode and
    /// has all of its encoders described.
    pub proof fn lemma_undrivable_crtc_is_refused(
        self,
        catalogue: &Catalogue,
        crtc: CrtcHandle,
        mode: Mode,
        connectors: Seq<ConnectorHandle>,
    )
        requires
            !self.is_live(crtc),
            self.active,
            connectors.len() > 0,
            catalogue.resources is Some,
            match catalogue.spec_connector_info(connectors[0]) {
                Some(con) => con.spec_supports(mode) && catalogue.spec_missing_encoder(
                    con.encoders@,
                ) is None,
                None => false,
            },
            forall|i: int|
                0 <= i < connectors.len() ==> match #[trigger] catalogue.spec_connector_info(
                    connectors[i],
                ) {
                    Some(con) => !catalogue.spec_can_drive(
                        &catalogue.resources.unwrap(),
                        con.encoders@,
                        crtc,
                    ),
                    None => true,
                },
        ensures
            self.create_failure(catalogue, crtc, mode, connectors) == Some(
                Error::NoSuitableEncoder { connector: connectors[0], crtc },
            ),
    {
    }

    /// A request for no connector at all passes the hardware question.
    pub proof fn lemma_empty_request_passes(
        self,
        catalogue: &Catalogue,
        crtc: CrtcHandle,
        mode: Mode,
    )
        requires
            !self.is_live(crtc),
            self.active,
        ensures
            self.create_failure(catalogue, crtc, mode, Seq::empty()) is None,
    {
    }

    /// While the device is paused, a batch of events leads to no completion
    /// call and changes nothing, whatever the batch holds and whichever
    /// surfaces are held.
    pub proof fn lemma_paused_device_completes_nothing(
        self,
        events: Seq<Event>,
        crtc: CrtcHandle,
    )
        requires
            !self.active,
        ensures
            self.handler_calls(Some(events)) == Seq::<HandlerCall>::empty(),
            !self.handler_calls(Some(events)).contains(HandlerCall::Completion(crtc)),
            self.after_events(Some(events)) == self,
    {
    }

    /// Without a handler nothing is called, not even after a failed read.
    pub proof fn lemma_no_handler_no_call(self, read: Option<Seq<Event>>)
        requires
            !self.has_handler,
        ensures
            self.handler_calls(read) == Seq::<HandlerCall>::empty(),
    {
    }

    /// What is put back at the end is the wiring that the catalogue showed
    /// when the device was opened: each CRTC that drove a connector then is
    /// put back once, with the configuration that it had and with the
    /// connectors that it drove, in order. Whatever the hardware has become
    /// in between, afterwards each of those CRTCs drives those connectors
    /// again, and every other CRTC is left as it is.
    pub proof fn lemma_restore_reproduces_wiring(
        dev_id: u64,
        master: bool,
        catalogue: &Catalogue,
        hardware: Map<CrtcHandle, Seq<ConnectorHandle>>,
    )
        requires
            catalogue.resources is Some,
        ensures
            ({
                let connectors = catalogue.resources.unwrap().connectors@;
                let plan = opened(dev_id, master, catalogue).restore_plan();
                &&& wired_crtcs(plan).no_duplicates()
                &&& forall|c: CrtcHandle|
                    #![trigger wired_crtcs(plan).contains(c)]
                    #![trigger driven_connectors(catalogue, connectors, c)]
                    wired_crtcs(plan).contains(c) <==> driven_connectors(
                        catalogue,
                        connectors,
                        c,
                    ).len() > 0
                &&& forall|i: int|
                    #![trigger plan[i]]
                    0 <= i < plan.len() ==> {
                        &&& plan[i].connectors == driven_connectors(
                            catalogue,
                            connectors,
                            plan[i].crtc,
                        )
                        &&& catalogue.spec_crtc_info(plan[i].crtc) == Some(plan[i].info)
                    }
                &&& forall|c: CrtcHandle|
                    #![trigger replayed(plan, hardware)[c]]
                    #![trigger replayed(plan, hardware).contains_key(c)]
                    if driven_connectors(catalogue, connectors, c).len() > 0 {
                        &&& replayed(plan, hardware).contains_key(c)
                        &&& replayed(plan, hardware)[c] == driven_connectors(
                            catalogue,
                            connectors,
                            c,
                        )
                    } else {
                        &&& replayed(plan, hardware).contains_key(c) <==> hardware.contains_key(c)
                        &&& replayed(plan, hardware)[c] == hardware[c]
                    }
            }),
    {
        let connectors = catalogue.resources.unwrap().connectors@;
        let plan = opened(dev_id, master, catalogue).restore_plan();
        lemma_captured_is_wiring(catalogue, connectors);
        lemma_replayed(plan, hardware);
        assert forall|c: CrtcHandle|
            driven_connectors(catalogue, connectors, c).len() > 0 implies replayed(
            plan,
            hardware,
        ).contains_key(c) && #[trigger] replayed(plan, hardware)[c] == driven_connectors(
            catalogue,
            connectors,
            c,
        ) by {
            assert(wired_crtcs(plan).contains(c));
            let i = choose|i: int| 0 <= i < wired_crtcs(plan).len() && wired_crtcs(plan)[i] == c;
            assert(plan[i].crtc == c);
        }
        assert forall|c: CrtcHandle|
            driven_connectors(catalogue, connectors, c).len() == 0 implies (replayed(
            plan,
            hardware,
        ).contains_key(c) <==> hardware.contains_key(c)) && #[trigger] replayed(plan, hardware)[c]
            == hardware[c] by {
            assert(!wired_crtcs(plan).contains(c));
        }
    }

    /// Nothing that happens to a device changes what it remembers of the
    /// wiring, its identifier or its privilege.
    pub proof fn lemma_snapshot_is_kept(self, crtc: CrtcHandle, read: Option<Seq<Event>>)
        ensures
            self.with_surface(crtc).old_state == self.old_state,
            self.released(crtc).old_state == self.old_state,
            self.paused().old_state == self.old_state,
            self.activated().old_state == self.old_state,
            self.after_events(read).old_state == self.old_state,
            self.with_surface(crtc).dev_id == self.dev_id,
            self.released(crtc).dev_id == self.dev_id,
            self.paused().dev_id == self.dev_id,
            self.activated().dev_id == self.dev_id,
            self.after_events(read).dev_id == self.dev_id,
            self.with_surface(crtc).privileged == self.privileged,
            self.released(crtc).privileged == self.privileged,
            self.paused().privileged == self.privileged,
            self.activated().privileged == self.privileged,
            self.after_events(read).privileged == self.privileged,
    {
    }
}

/// The completion calls for a batch are those of its page flips whose CRTC
/// has a held surface, and no other call is among them.
pub proof fn lemma_completions(backends: Map<CrtcHandle, bool>, events: Seq<Event>)
    ensures
        forall|c: CrtcHandle|
            #![trigger completions(backends, events).contains(HandlerCall::Completion(c))]
            completions(backends, events).contains(HandlerCall::Completion(c)) <==> (
            events.contains(Event::PageFlip(c)) && backends.contains_key(c) && backends[c]),
        forall|e: Error|
            #![trigger completions(backends, events).contains(HandlerCall::Error(e))]
            !completions(backends, events).contains(HandlerCall::Error(e)),
        completions(backends, events).len() <= events.len(),
    decreases events.len(),
{
    if events.len() > 0 {
        let front = events.drop_last();
        let before = completions(backends, front);
        let now = completions(backends, events);
        lemma_completions(backends, front);
        assert forall|c: CrtcHandle|
            #![trigger completions(backends, events).contains(HandlerCall::Completion(c))]
            now.contains(HandlerCall::Completion(c)) <==> (events.contains(Event::PageFlip(c))
                && backends.contains_key(c) && backends[c]) by {
            let call = HandlerCall::Completion(c);
            if now.contains(call) {
                let k = choose|k: int| 0 <= k < now.len() && now[k] == call;
                if k < before.len() {
                    assert(before[k] == call);
                    assert(before.contains(call));
                    let j = choose|j: int| 0 <= j < front.len() && front[j] == Event::PageFlip(c);
                    assert(events[j] == Event::PageFlip(c));
                } else {
                    assert(events[events.len() - 1] == Event::PageFlip(c));
                }
            }
            if events.contains(Event::PageFlip(c)) && backends.contains_key(c) && backends[c] {
                let j = choose|j: int| 0 <= j < events.len() && events[j] == Event::PageFlip(c);
                if j < front.len() {
                    assert(front[j] == Event::PageFlip(c));
                    assert(front.contains(Event::PageFlip(c)));
                    assert(before.contains(call));
                    let k = choose|k: int| 0 <= k < before.len() && before[k] == call;
                    assert(now[k] == call);
                } else {
                    assert(now[before.len() as int] == call);
                }
            }
        }
        assert forall|e: Error|
            #![trigger completions(backends, events).contains(HandlerCall::Error(e))]
            !now.contains(HandlerCall::Error(e)) by {
            let call = HandlerCall::Error(e);
            if now.contains(call) {
                let k = choose|k: int| 0 <= k < now.len() && now[k] == call;
                if k < before.len() {
                    assert(before[k] == call);
                    assert(before.contains(call));
                }
            }
        }
    }
}

impl DeviceState {
    /// A page flip for a CRTC whose surface is held reaches the handler, if
    /// one is set and the device is active; and no completion is called for
    /// anything else.
    pub proof fn lemma_page_flip_is_delivered(self, events: Seq<Event>, crtc: CrtcHandle)
        requires
            self.has_handler,
            self.active,
        ensures
            self.handler_calls(Some(events)).contains(HandlerCall::Completion(crtc)) <==> (
            events.contains(Event::PageFlip(crtc)) && self.is_live(crtc)),
    {
        lemma_completions(self.backends, events);
    }

    /// Reading events prunes stale entries and nothing else: a CRTC is
    /// registered afterwards exactly if it was before and was not a stale
    /// one with a page flip in the batch, and what is left is as it was.
    pub proof fn lemma_only_stale_entries_are_pruned(self, events: Seq<Event>, crtc: CrtcHandle)
        requires
            self.active,
        ensures
            self.after_events(Some(events)).backends.contains_key(crtc) <==> (
            self.backends.contains_key(crtc) && (self.backends[crtc] || !events.contains(
                Event::PageFlip(crtc),
            ))),
            self.after_events(Some(events)).backends.contains_key(crtc) ==> self.after_events(
                Some(events),
            ).backends[crtc] == self.backends[crtc],
    {
    }
}

} // verus!
