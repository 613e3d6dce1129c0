//! Whether a CRTC can show a mode on a connector.
//!
//! A configuration is possible only if every connector supports the mode and
//! has an encoder that the CRTC can drive. Finding that out here, before
//! anything is handed to the kernel, gives a failure that names its cause.

use vstd::prelude::*;
use crate::catalogue::{Catalogue, ConnectorInfo, CrtcListFilter, EncoderInfo, ResourceHandles};
use crate::connectors::ConnectorSet;
use crate::error::Error;
use crate::handle::{ConnectorHandle, CrtcHandle, EncoderHandle};
use crate::lookup::{first_some, lemma_first_some_at, lemma_first_some_none};
use crate::mode::Mode;

verus! {

impl ResourceHandles {
    /// Whether an encoder with the filter `possible` can be driven by `crtc`:
    /// whether `crtc` is among the device's CRTCs that the filter admits.
    pub open spec fn spec_drives(&self, possible: CrtcListFilter, crtc: CrtcHandle) -> bool {
        self.spec_filter_crtcs(possible).contains(crtc)
    }

    /// Whether an encoder with the filter `possible` can be driven by `crtc`.
    #[verifier::loop_isolation(false)]
    pub fn drives(&self, possible: CrtcListFilter, crtc: CrtcHandle) -> (res: bool)
        ensures
            res == self.spec_drives(possible, crtc),
    {
        let admitted = self.filter_crtcs(possible);
        let mut i: usize = 0;
        while i < admitted.len()
            invariant
                i <= admitted.len(),
                forall|j: int| 0 <= j < i ==> admitted@[j] != crtc,
            decreases admitted.len() - i,
        {
            if admitted[i] == crtc {
                return true;
            }
            i += 1;
        }
        false
    }
}

impl ConnectorInfo {
    /// Whether the connector supports `mode`.
    pub open spec fn spec_supports(&self, mode: Mode) -> bool {
        self.modes@.contains(mode)
    }

    /// Whether the connector supports `mode`.
    pub fn supports(&self, mode: Mode) -> (res: bool)
        ensures
            res == self.spec_supports(mode),
    {
        let mut i: usize = 0;
        while i < self.modes.len()
            invariant
                i <= self.modes.len(),
                forall|j: int| 0 <= j < i ==> self.modes@[j] != mode,
            decreases self.modes.len() - i,
        {
            if self.modes[i] == mode {
                return true;
            }
            i += 1;
        }
        false
    }
}

impl Catalogue {
    /// The first of `encoders` whose description is missing.
    pub open spec fn spec_missing_encoder(&self, encoders: Seq<EncoderHandle>) -> Option<
        EncoderHandle,
    > {
        first_some(
            encoders,
            |e: EncoderHandle|
                if self.spec_encoder_info(e) is None {
                    Some(e)
                } else {
                    None
                },
        )
    }

    /// Whether `crtc` can drive one of `encoders`.
    pub open spec fn spec_can_drive(
        &self,
        resources: &ResourceHandles,
        encoders: Seq<EncoderHandle>,
        crtc: CrtcHandle,
    ) -> bool {
        exists|j: int|
            0 <= j < encoders.len() && match #[trigger] self.spec_encoder_info(encoders[j]) {
                Some(enc) => resources.spec_drives(enc.possible_crtcs, crtc),
                None => false,
            }
    }

    /// Why `crtc` cannot show `mode` on `connector`, if it cannot. The
    /// questions are asked in this order, and the first that fails decides:
    /// is the connector described; does it support the mode; are all of its
    /// encoders described (the first that is not is named); are the device's
    /// handle lists there; can the CRTC drive one of the encoders.
    pub open spec fn spec_connector_failure(
        &self,
        crtc: CrtcHandle,
        mode: Mode,
        connector: ConnectorHandle,
    ) -> Option<Error> {
        match self.spec_connector_info(connector) {
            None => Some(Error::ConnectorInfoLoad(connector)),
            Some(con) => if !con.spec_supports(mode) {
                Some(Error::ModeNotSuitable(mode))
            } else {
                match self.spec_missing_encoder(con.encoders@) {
                    Some(e) => Some(Error::EncoderInfoLoad(e)),
                    None => match self.resources {
                        None => Some(Error::ResourceCatalogRead),
                        Some(resources) => if self.spec_can_drive(
                            &resources,
                            con.encoders@,
                            crtc,
                        ) {
                            None
                        } else {
                            Some(Error::NoSuitableEncoder { connector, crtc })
                        },
                    },
                }
            },
        }
    }

    /// Why `crtc` cannot show `mode` on `connectors`, if it cannot: the
    /// failure of the first connector that has one.
    pub open spec fn spec_validation_failure(
        &self,
        crtc: CrtcHandle,
        mode: Mode,
        connectors: Seq<ConnectorHandle>,
    ) -> Option<Error> {
        first_some(connectors, |c: ConnectorHandle| self.spec_connector_failure(crtc, mode, c))
    }

    /// The descriptions of `encoders`, or the first encoder whose
    /// description is missing.
    fn load_encoders(&self, encoders: &Vec<EncoderHandle>) -> (res: Result<
        Vec<EncoderInfo>,
        EncoderHandle,
    >)
        ensures
            match res {
                Ok(infos) => {
                    &&& self.spec_missing_encoder(encoders@) is None
                    &&& infos@.len() == encoders@.len()
                    &&& forall|j: int|
                        0 <= j < encoders@.len() ==> self.spec_encoder_info(#[trigger] encoders@[j])
                            == Some(infos@[j])
                },
                Err(e) => self.spec_missing_encoder(encoders@) == Some(e),
            },
    {
        let ghost f = |e: EncoderHandle|
            if self.spec_encoder_info(e) is None {
                Some(e)
            } else {
                None
            };
        let mut infos: Vec<EncoderInfo> = Vec::new();
        let mut i: usize = 0;
        while i < encoders.len()
            invariant
                i <= encoders.len(),
                infos@.len() == i,
                f == |e: EncoderHandle|
                    if self.spec_encoder_info(e) is None {
                        Some(e)
                    } else {
                        None
                    },
                forall|j: int| 0 <= j < i ==> #[trigger] f(encoders@[j]) is None,
                forall|j: int|
                    0 <= j < i ==> self.spec_encoder_info(#[trigger] encoders@[j]) == Some(infos@[j]),
            decreases encoders.len() - i,
        {
            match self.encoder_info(encoders[i]) {
                Some(info) => {
                    infos.push(info);
                },
                None => {
                    proof {
                        assert(f(encoders@[i as int]) == Some(encoders@[i as int]));
                        lemma_first_some_at(encoders@, f, i as int);
                    }
                    return Err(encoders[i]);
                },
            }
            i += 1;
        }
        proof {
            lemma_first_some_none(encoders@, f);
        }
        Ok(infos)
    }

    /// Decides whether `crtc` can show `mode` on `connector`.
    #[verifier::loop_isolation(false)]
    pub fn validate_connector(&self, crtc: CrtcHandle, mode: Mode, connector: ConnectorHandle) -> (res:
        Result<(), Error>)
        ensures
            match res {
                Ok(_) => self.spec_connector_failure(crtc, mode, connector) is None,
                Err(e) => self.spec_connector_failure(crtc, mode, connector) == Some(e),
            },
    {
        let con = match self.connector_info(connector) {
            Some(con) => con,
            None => { return Err(Error::ConnectorInfoLoad(connector)); },
        };
        if !con.supports(mode) {
            return Err(Error::ModeNotSuitable(mode));
        }
        let infos = match self.load_encoders(&con.encoders) {
            Ok(infos) => infos,
            Err(e) => { return Err(Error::EncoderInfoLoad(e)); },
        };
        let resources = match &self.resources {
            Some(resources) => resources,
            None => { return Err(Error::ResourceCatalogRead); },
        };
        let mut i: usize = 0;
        while i < infos.len()
            invariant
                i <= infos.len(),
                infos@.len() == con.encoders@.len(),
                forall|j: int|
                    0 <= j < con.encoders@.len() ==> self.spec_encoder_info(
                        #[trigger] con.encoders@[j],
                    ) == Some(infos@[j]),
                forall|j: int|
                    0 <= j < i ==> !resources.spec_drives((#[trigger] infos@[j]).possible_crtcs, crtc),
            decreases infos.len() - i,
        {
            if resources.drives(infos[i].possible_crtcs, crtc) {
                assert(self.spec_encoder_info(con.encoders@[i as int]) == Some(infos@[i as int]));
                return Ok(());
            }
            i += 1;
        }
        assert(!self.spec_can_drive(resources, con.encoders@, crtc)) by {
            if self.spec_can_drive(resources, con.encoders@, crtc) {
                let j = choose|j: int|
                    0 <= j < con.encoders@.len() && match #[trigger] self.spec_encoder_info(
                        con.encoders@[j],
                    ) {
                        Some(enc) => resources.spec_drives(enc.possible_crtcs, crtc),
                        None => false,
                    };
                assert(!resources.spec_drives(infos@[j].possible_crtcs, crtc));
            }
        }
        Err(Error::NoSuitableEncoder { connector, crtc })
    }

    /// Decides whether `crtc` can show `mode` on all of `connectors`.
    ///
    /// The connectors are taken in the order of the set, and the first that
    /// fails gives the failure. With no connector at all the answer is yes.
    pub fn validate(&self, crtc: CrtcHandle, mode: Mode, connectors: &ConnectorSet) -> (res: Result<
        (),
        Error,
    >)
        ensures
            match res {
                Ok(_) => self.spec_validation_failure(crtc, mode, connectors@) is None,
                Err(e) => self.spec_validation_failure(crtc, mode, connectors@) == Some(e),
            },
    {
        let ghost f = |c: ConnectorHandle| self.spec_connector_failure(crtc, mode, c);
        let mut i: usize = 0;
        while i < connectors.len()
            invariant
                i <= connectors@.len(),
                f == |c: ConnectorHandle| self.spec_connector_failure(crtc, mode, c),
                forall|j: int| 0 <= j < i ==> #[trigger] f(connectors@[j]) is None,
            decreases connectors@.len() - i,
        {
            let connector = match connectors.get(i) {
                Some(connector) => connector,
                None => { return Ok(()); },
            };
            match self.validate_connector(crtc, mode, connector) {
                Ok(_) => {},
                Err(e) => {
                    proof {
                        lemma_first_some_at(connectors@, f, i as int);
                    }
                    return Err(e);
                },
            }
            i += 1;
        }
        proof {
            lemma_first_some_none(connectors@, f);
        }
        Ok(())
    }
}

} // verus!
