//! A reading of the device's resources.
//!
//! The caller queries the device and writes down what it answered: the lists
//! of handles, and the description of each connector, encoder and CRTC that
//! could be read. A description that is missing here stands for one that the
//! device failed to give.

use vstd::prelude::*;
use crate::error::Error;
use crate::handle::{ConnectorHandle, CrtcHandle, EncoderHandle, FramebufferHandle};
use crate::lookup::{first_position, lemma_first_position_is, lemma_first_position_none};
use crate::mode::Mode;

verus! {

/// The CRTCs that an encoder can be wired to, as a mask over the positions of
/// the device's CRTC list: bit `n` stands for the CRTC at position `n`.
#[derive(Clone, Copy, Debug, PartialEq, Eq, Structural)]
pub struct CrtcListFilter(pub u32);

impl CrtcListFilter {
    /// Whether the bit for `position` is set. Positions beyond the width of
    /// the mask have no bit and never pass.
    pub open spec fn spec_admits(self, position: int) -> bool {
        0 <= position < 32 && (1u32 << (position as u32)) & self.0 != 0
    }

    /// Whether the filter lets the CRTC at `position` pass.
    pub fn admits(&self, position: usize) -> (res: bool)
        ensures
            res == self.spec_admits(position as int),
    {
        position < 32 && (1u32 << (position as u32)) & self.0 != 0
    }
}

/// The handles of everything the device has.
#[derive(Debug)]
pub struct ResourceHandles {
    pub connectors: Vec<ConnectorHandle>,
    pub encoders: Vec<EncoderHandle>,
    pub crtcs: Vec<CrtcHandle>,
}

/// The items of `crtcs` at the positions that `filter` admits, in order.
pub open spec fn admitted_crtcs(crtcs: Seq<CrtcHandle>, filter: CrtcListFilter) -> Seq<CrtcHandle>
    decreases crtcs.len(),
{
    if crtcs.len() == 0 {
        Seq::empty()
    } else {
        let before = admitted_crtcs(crtcs.drop_last(), filter);
        if filter.spec_admits(crtcs.len() - 1) {
            before.push(crtcs.last())
        } else {
            before
        }
    }
}

/// A CRTC is among the admitted ones exactly when it stands at an admitted
/// position of the list.
pub proof fn lemma_admitted_crtcs(crtcs: Seq<CrtcHandle>, filter: CrtcListFilter, crtc: CrtcHandle)
    ensures
        admitted_crtcs(crtcs, filter).contains(crtc) <==> exists|n: int|
            0 <= n < crtcs.len() && filter.spec_admits(n) && crtcs[n] == crtc,
    decreases crtcs.len(),
{
    if crtcs.len() > 0 {
        let front = crtcs.drop_last();
        let before = admitted_crtcs(front, filter);
        let last = crtcs.len() - 1;
        lemma_admitted_crtcs(front, filter, crtc);
        if admitted_crtcs(crtcs, filter).contains(crtc) {
            let k = choose|k: int|
                0 <= k < admitted_crtcs(crtcs, filter).len() && admitted_crtcs(crtcs, filter)[k]
                    == crtc;
            if k < before.len() {
                assert(before[k] == crtc);
                let n = choose|n: int|
                    0 <= n < front.len() && filter.spec_admits(n) && front[n] == crtc;
                assert(crtcs[n] == crtc);
            } else {
                assert(filter.spec_admits(last) && crtcs[last] == crtc);
            }
        }
        if exists|n: int| 0 <= n < crtcs.len() && filter.spec_admits(n) && crtcs[n] == crtc {
            let n = choose|n: int| 0 <= n < crtcs.len() && filter.spec_admits(n) && crtcs[n] == crtc;
            if n < last {
                assert(front[n] == crtc);
                let k = choose|k: int| 0 <= k < before.len() && before[k] == crtc;
                assert(admitted_crtcs(crtcs, filter)[k] == crtc);
            } else {
                assert(admitted_crtcs(crtcs, filter)[before.len() as int] == crtc);
            }
        }
    }
}

impl ResourceHandles {
    /// The CRTCs of this device that `filter` admits.
    pub open spec fn spec_filter_crtcs(&self, filter: CrtcListFilter) -> Seq<CrtcHandle> {
        admitted_crtcs(self.crtcs@, filter)
    }

    /// The CRTCs of this device that `filter` admits, in the order of the
    /// device's list.
    pub fn filter_crtcs(&self, filter: CrtcListFilter) -> (res: Vec<CrtcHandle>)
        ensures
            res@ == self.spec_filter_crtcs(filter),
    {
        let mut res: Vec<CrtcHandle> = Vec::new();
        let mut n: usize = 0;
        while n < self.crtcs.len()
            invariant
                n <= self.crtcs.len(),
                res@ == admitted_crtcs(self.crtcs@.take(n as int), filter),
            decreases self.crtcs.len() - n,
        {
            proof {
                assert(self.crtcs@.take(n + 1).drop_last() == self.crtcs@.take(n as int));
            }
            if filter.admits(n) {
                res.push(self.crtcs[n]);
            }
            n += 1;
        }
        proof {
            assert(self.crtcs@.take(n as int) == self.crtcs@);
        }
        res
    }
}

/// What the device says of one connector.
#[derive(Debug)]
pub struct ConnectorInfo {
    pub handle: ConnectorHandle,
    /// The modes that the connected display supports.
    pub modes: Vec<Mode>,
    /// The encoder that feeds the connector now, if any.
    pub current_encoder: Option<EncoderHandle>,
    /// The encoders that could feed the connector.
    pub encoders: Vec<EncoderHandle>,
}

/// What the device says of one encoder.
#[derive(Clone, Copy, Debug, PartialEq, Eq, Structural)]
pub struct EncoderInfo {
    pub handle: EncoderHandle,
    /// The CRTC that drives the encoder now, if any.
    pub current_crtc: Option<CrtcHandle>,
    /// The CRTCs that could drive the encoder.
    pub possible_crtcs: CrtcListFilter,
}

/// How one CRTC is set up.
#[derive(Clone, Copy, Debug, PartialEq, Eq)]
pub struct CrtcInfo {
    pub handle: CrtcHandle,
    pub position: (u32, u32),
    pub mode: Option<Mode>,
    pub fb: FramebufferHandle,
}

/// Everything that was read from the device at one moment.
#[derive(Debug)]
pub struct Catalogue {
    /// The handle lists, or `None` if the device did not yield them.
    pub resources: Option<ResourceHandles>,
    /// The connectors whose description could be read.
    pub connectors: Vec<ConnectorInfo>,
    /// The encoders whose description could be read.
    pub encoders: Vec<EncoderInfo>,
    /// The CRTCs whose configuration could be read.
    pub crtcs: Vec<CrtcInfo>,
}

impl Catalogue {
    /// The handles of the connector descriptions, in order.
    pub open spec fn connector_keys(&self) -> Seq<ConnectorHandle> {
        self.connectors@.map_values(|i: ConnectorInfo| i.handle)
    }

    /// The handles of the encoder descriptions, in order.
    pub open spec fn encoder_keys(&self) -> Seq<EncoderHandle> {
        self.encoders@.map_values(|i: EncoderInfo| i.handle)
    }

    /// The handles of the CRTC configurations, in order.
    pub open spec fn crtc_keys(&self) -> Seq<CrtcHandle> {
        self.crtcs@.map_values(|i: CrtcInfo| i.handle)
    }

    /// The first description of the connector, if one was read.
    pub open spec fn spec_connector_info(&self, handle: ConnectorHandle) -> Option<ConnectorInfo> {
        match first_position(self.connector_keys(), handle) {
            Some(i) => Some(self.connectors@[i]),
            None => None,
        }
    }

    /// The first description of the encoder, if one was read.
    pub open spec fn spec_encoder_info(&self, handle: EncoderHandle) -> Option<EncoderInfo> {
        match first_position(self.encoder_keys(), handle) {
            Some(i) => Some(self.encoders@[i]),
            None => None,
        }
    }

    /// The first configuration of the CRTC, if one was read.
    pub open spec fn spec_crtc_info(&self, handle: CrtcHandle) -> Option<CrtcInfo> {
        match first_position(self.crtc_keys(), handle) {
            Some(i) => Some(self.crtcs@[i]),
            None => None,
        }
    }

    /// The description of the connector, if one was read.
    pub fn connector_info(&self, handle: ConnectorHandle) -> (res: Option<&ConnectorInfo>)
        ensures
            match res {
                Some(info) => self.spec_connector_info(handle) == Some(*info),
                None => self.spec_connector_info(handle) is None,
            },
    {
        let mut i: usize = 0;
        while i < self.connectors.len()
            invariant
                i <= self.connectors.len(),
                forall|j: int| 0 <= j < i ==> self.connector_keys()[j] != handle,
            decreases self.connectors.len() - i,
        {
            if self.connectors[i].handle == handle {
                proof {
                    lemma_first_position_is(self.connector_keys(), handle, i as int);
                }
                return Some(&self.connectors[i]);
            }
            i += 1;
        }
        proof {
            lemma_first_position_none(self.connector_keys(), handle);
        }
        None
    }

    /// The description of the encoder, if one was read.
    pub fn encoder_info(&self, handle: EncoderHandle) -> (res: Option<EncoderInfo>)
        ensures
            res == self.spec_encoder_info(handle),
    {
        let mut i: usize = 0;
        while i < self.encoders.len()
            invariant
                i <= self.encoders.len(),
                forall|j: int| 0 <= j < i ==> self.encoder_keys()[j] != handle,
            decreases self.encoders.len() - i,
        {
            if self.encoders[i].handle == handle {
                proof {
                    lemma_first_position_is(self.encoder_keys(), handle, i as int);
                }
                return Some(self.encoders[i]);
            }
            i += 1;
        }
        proof {
            lemma_first_position_none(self.encoder_keys(), handle);
        }
        None
    }

    /// The configuration of the CRTC, if one was read.
    pub fn crtc_info(&self, handle: CrtcHandle) -> (res: Option<CrtcInfo>)
        ensures
            res == self.spec_crtc_info(handle),
    {
        let mut i: usize = 0;
        while i < self.crtcs.len()
            invariant
                i <= self.crtcs.len(),
                forall|j: int| 0 <= j < i ==> self.crtc_keys()[j] != handle,
            decreases self.crtcs.len() - i,
        {
            if self.crtcs[i].handle == handle {
                proof {
                    lemma_first_position_is(self.crtc_keys(), handle, i as int);
                }
                return Some(self.crtcs[i]);
            }
            i += 1;
        }
        proof {
            lemma_first_position_none(self.crtc_keys(), handle);
        }
        None
    }

    /// The CRTC that drives `connector` now, with its configuration: the
    /// current CRTC of the connector's current encoder. `None` where the
    /// connector has no current encoder, the encoder no current CRTC, or one
    /// of the three descriptions is missing.
    pub open spec fn spec_wired(&self, connector: ConnectorHandle) -> Option<(CrtcHandle, CrtcInfo)> {
        match self.spec_connector_info(connector) {
            Some(con) => match con.current_encoder {
                Some(e) => match self.spec_encoder_info(e) {
                    Some(enc) => match enc.current_crtc {
                        Some(c) => match self.spec_crtc_info(c) {
                            Some(info) => Some((c, info)),
                            None => None,
                        },
                        None => None,
                    },
                    None => None,
                },
                None => None,
            },
            None => None,
        }
    }

    /// The description that is missing on the way from `connector` to the
    /// CRTC that drives it, as the failure that it stands for. The failure
    /// names what could not be read.
    pub open spec fn spec_probe_failure(&self, connector: ConnectorHandle) -> Option<Error> {
        match self.spec_connector_info(connector) {
            Some(con) => match con.current_encoder {
                Some(e) => match self.spec_encoder_info(e) {
                    Some(enc) => match enc.current_crtc {
                        Some(c) => match self.spec_crtc_info(c) {
                            Some(info) => None,
                            None => Some(Error::CrtcInfoLoad(c)),
                        },
                        None => None,
                    },
                    None => Some(Error::EncoderInfoLoad(e)),
                },
                None => None,
            },
            None => Some(Error::ConnectorInfoLoad(connector)),
        }
    }

    /// Follows `connector` to the CRTC that drives it now.
    ///
    /// Fails where a description on the way is missing; otherwise returns the
    /// CRTC with its configuration, or `None` if the connector is not driven.
    pub fn probe(&self, connector: ConnectorHandle) -> (res: Result<
        Option<(CrtcHandle, CrtcInfo)>,
        Error,
    >)
        ensures
            match res {
                Ok(wired) => self.spec_probe_failure(connector) is None && wired
                    == self.spec_wired(connector),
                Err(e) => self.spec_probe_failure(connector) == Some(e),
            },
    {
        let con = match self.connector_info(connector) {
            Some(con) => con,
            None => { return Err(Error::ConnectorInfoLoad(connector)); },
        };
        let e = match con.current_encoder {
            Some(e) => e,
            None => { return Ok(None); },
        };
        let enc = match self.encoder_info(e) {
            Some(enc) => enc,
            None => { return Err(Error::EncoderInfoLoad(e)); },
        };
        let c = match enc.current_crtc {
            Some(c) => c,
            None => { return Ok(None); },
        };
        match self.crtc_info(c) {
            Some(info) => Ok(Some((c, info))),
            None => Err(Error::CrtcInfoLoad(c)),
        }
    }
}

} // verus!
