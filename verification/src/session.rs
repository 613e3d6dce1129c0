//! Pause and resume.
//!
//! A session manager tells a stack of device layers when the session loses
//! the hardware and when it has it back. Each layer hands the signal to the
//! layer below, unchanged, until it reaches the device itself, which keeps
//! the flag.

use vstd::prelude::*;
use crate::device::LegacyDrmDevice;

verus! {

/// Something that takes the pause and resume signals of a session.
pub trait SessionObserver: Sized {
    /// Whether `after` is what `pause(devnum)` may turn `self` into. An
    /// observer that says nothing of itself allows anything.
    open spec fn pause_spec(&self, devnum: Option<(u32, u32)>, after: &Self) -> bool {
        true
    }

    /// Whether `after` is what `activate(devnum)` may turn `self` into. An
    /// observer that says nothing of itself allows anything.
    open spec fn activate_spec(&self, devnum: Option<(u32, u32, Option<i32>)>, after: &Self) -> bool {
        true
    }

    /// The session is about to lose the hardware. `devnum` names one device
    /// by major and minor number, or all of them.
    fn pause(&mut self, devnum: Option<(u32, u32)>)
        ensures
            old(self).pause_spec(devnum, final(self)),
    ;

    /// The session has the hardware back. `devnum` names one device by major
    /// and minor number, with a new descriptor for it if there is one, or
    /// all devices.
    fn activate(&mut self, devnum: Option<(u32, u32, Option<i32>)>)
        ensures
            old(self).activate_spec(devnum, final(self)),
    ;
}

/// The device is the bottom of every stack: a pause clears its active flag,
/// a resume sets it, and nothing else of the device changes.
impl<H> SessionObserver for LegacyDrmDevice<H> {
    open spec fn pause_spec(&self, devnum: Option<(u32, u32)>, after: &Self) -> bool {
        &&& after@ == self@.paused()
        &&& after.spec_handler() == self.spec_handler()
        &&& self.wf() ==> after.wf()
    }

    open spec fn activate_spec(&self, devnum: Option<(u32, u32, Option<i32>)>, after: &Self) -> bool {
        &&& after@ == self@.activated()
        &&& after.spec_handler() == self.spec_handler()
        &&& self.wf() ==> after.wf()
    }

    fn pause(&mut self, devnum: Option<(u32, u32)>) {
        self.set_active(false);
    }

    fn activate(&mut self, devnum: Option<(u32, u32, Option<i32>)>) {
        self.set_active(true);
    }
}

/// The observer of a layer that sits on top of another: it holds the
/// observer of the layer below and hands every signal on to it.
pub struct EglDeviceObserver<S: SessionObserver> {
    observer: S,
}

impl<S: SessionObserver> EglDeviceObserver<S> {
    /// The observer of the layer below.
    pub closed spec fn inner(&self) -> S {
        self.observer
    }

    /// The observer of a layer whose lower layer has the observer `observer`.
    pub fn new(observer: S) -> (res: EglDeviceObserver<S>)
        ensures
            res.inner() == observer,
    {
        EglDeviceObserver { observer }
    }

    /// The observer of the layer below.
    pub fn get_ref(&self) -> (res: &S)
        ensures
            *res == self.inner(),
    {
        &self.observer
    }

    /// Takes the layer off and gives back the observer of the layer below.
    pub fn into_inner(self) -> (res: S)
        ensures
            res == self.inner(),
    {
        self.observer
    }
}

/// A signal does to the layer what it does to the layer below.
impl<S: SessionObserver> SessionObserver for EglDeviceObserver<S> {
    open spec fn pause_spec(&self, devnum: Option<(u32, u32)>, after: &Self) -> bool {
        self.inner().pause_spec(devnum, &after.inner())
    }

    open spec fn activate_spec(&self, devnum: Option<(u32, u32, Option<i32>)>, after: &Self) -> bool {
        self.inner().activate_spec(devnum, &after.inner())
    }

    fn pause(&mut self, devnum: Option<(u32, u32)>) {
        self.observer.pause(devnum);
    }

    fn activate(&mut self, devnum: Option<(u32, u32, Option<i32>)>) {
        self.observer.activate(devnum);
    }
}

/// A layer adds nothing to a signal and keeps nothing of it: what a signal
/// may do to a layer is what it may do to the layer below.
pub proof fn lemma_layer_forwards<S: SessionObserver>(
    before: EglDeviceObserver<S>,
    after: EglDeviceObserver<S>,
    pause: Option<(u32, u32)>,
    activate: Option<(u32, u32, Option<i32>)>,
)
    ensures
        before.pause_spec(pause, &after) == before.inner().pause_spec(pause, &after.inner()),
        before.activate_spec(activate, &after) == before.inner().activate_spec(
            activate,
            &after.inner(),
        ),
{
}

/// A signal that enters a stack of layers above a device reaches the device:
/// a pause clears its active flag and a resume sets it, as if the device had
/// been told itself. Shown here for one layer and for two; every further
/// layer adds one more step of `lemma_layer_forwards`.
pub proof fn lemma_signal_reaches_device<H>(
    one: EglDeviceObserver<LegacyDrmDevice<H>>,
    one_after: EglDeviceObserver<LegacyDrmDevice<H>>,
    two: EglDeviceObserver<EglDeviceObserver<LegacyDrmDevice<H>>>,
    two_after: EglDeviceObserver<EglDeviceObserver<LegacyDrmDevice<H>>>,
    pause: Option<(u32, u32)>,
    activate: Option<(u32, u32, Option<i32>)>,
)
    ensures
        one.pause_spec(pause, &one_after) ==> one_after.inner()@ == one.inner()@.paused(),
        one.activate_spec(activate, &one_after) ==> one_after.inner()@ == one.inner()@.activated(),
        two.pause_spec(pause, &two_after) ==> two_after.inner().inner()@
            == two.inner().inner()@.paused(),
        two.activate_spec(activate, &two_after) ==> two_after.inner().inner()@
            == two.inner().inner()@.activated(),
{
}

} // verus!
