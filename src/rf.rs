//! RF-side protocol and technology names, and their correspondence with the
//! NCI names.
use vstd::prelude::*;
use crate::controller::RfProtocolType;

verus! {

/// Protocol of an RF frame.
#[derive(PartialEq, Eq, Structural, Clone, Copy, Debug)]
pub enum Protocol {
    Undetermined,
    T1t,
    T2t,
    T3t,
    IsoDep,
    NfcDep,
    T5t,
    Ndef,
}

/// RF technology of a frame.
#[derive(PartialEq, Eq, Structural, Clone, Copy, Debug)]
pub enum Technology {
    NfcA,
    NfcB,
    NfcF,
    NfcV,
}

/// NCI RF technology and mode.
#[derive(PartialEq, Eq, Structural, Clone, Copy, Debug)]
pub enum RfTechnologyAndMode {
    NfcAPassivePollMode,
    NfcBPassivePollMode,
    NfcFPassivePollMode,
    NfcAActivePollMode,
    NfcFActivePollMode,
    NfcVPassivePollMode,
    NfcAPassiveListenMode,
    NfcBPassiveListenMode,
    NfcFPassiveListenMode,
    NfcAActiveListenMode,
    NfcFActiveListenMode,
}

/// The NCI protocol type of the same name.
pub open spec fn protocol_to_nci(p: Protocol) -> RfProtocolType {
    match p {
        Protocol::Undetermined => RfProtocolType::Undetermined,
        Protocol::T1t => RfProtocolType::T1t,
        Protocol::T2t => RfProtocolType::T2t,
        Protocol::T3t => RfProtocolType::T3t,
        Protocol::IsoDep => RfProtocolType::IsoDep,
        Protocol::NfcDep => RfProtocolType::NfcDep,
        Protocol::T5t => RfProtocolType::T5t,
        Protocol::Ndef => RfProtocolType::Ndef,
    }
}

/// The RF protocol of the same name.
pub open spec fn nci_to_protocol(p: RfProtocolType) -> Protocol {
    match p {
        RfProtocolType::Undetermined => Protocol::Undetermined,
        RfProtocolType::T1t => Protocol::T1t,
        RfProtocolType::T2t => Protocol::T2t,
        RfProtocolType::T3t => Protocol::T3t,
        RfProtocolType::IsoDep => Protocol::IsoDep,
        RfProtocolType::NfcDep => Protocol::NfcDep,
        RfProtocolType::T5t => Protocol::T5t,
        RfProtocolType::Ndef => Protocol::Ndef,
    }
}

/// The technology of a passive mode; active modes have none.
pub open spec fn spec_technology(m: RfTechnologyAndMode) -> Option<Technology> {
    match m {
        RfTechnologyAndMode::NfcAPassivePollMode | RfTechnologyAndMode::NfcAPassiveListenMode => Some(
            Technology::NfcA,
        ),
        RfTechnologyAndMode::NfcBPassivePollMode | RfTechnologyAndMode::NfcBPassiveListenMode => Some(
            Technology::NfcB,
        ),
        RfTechnologyAndMode::NfcFPassivePollMode | RfTechnologyAndMode::NfcFPassiveListenMode => Some(
            Technology::NfcF,
        ),
        RfTechnologyAndMode::NfcVPassivePollMode => Some(Technology::NfcV),
        _ => None,
    }
}

impl From<Protocol> for RfProtocolType {
    fn from(protocol: Protocol) -> (r: RfProtocolType) {
        match protocol {
            Protocol::Undetermined => RfProtocolType::Undetermined,
            Protocol::T1t => RfProtocolType::T1t,
            Protocol::T2t => RfProtocolType::T2t,
            Protocol::T3t => RfProtocolType::T3t,
            Protocol::IsoDep => RfProtocolType::IsoDep,
            Protocol::NfcDep => RfProtocolType::NfcDep,
            Protocol::T5t => RfProtocolType::T5t,
            Protocol::Ndef => RfProtocolType::Ndef,
        }
    }
}

impl vstd::std_specs::convert::FromSpecImpl<Protocol> for RfProtocolType {
    open spec fn obeys_from_spec() -> bool {
        true
    }

    open spec fn from_spec(v: Protocol) -> RfProtocolType {
        protocol_to_nci(v)
    }
}

impl From<RfProtocolType> for Protocol {
    fn from(protocol: RfProtocolType) -> (r: Protocol) {
        match protocol {
            RfProtocolType::Undetermined => Protocol::Undetermined,
            RfProtocolType::T1t => Protocol::T1t,
            RfProtocolType::T2t => Protocol::T2t,
            RfProtocolType::T3t => Protocol::T3t,
            RfProtocolType::IsoDep => Protocol::IsoDep,
            RfProtocolType::NfcDep => Protocol::NfcDep,
            RfProtocolType::T5t => Protocol::T5t,
            RfProtocolType::Ndef => Protocol::Ndef,
        }
    }
}

impl vstd::std_specs::convert::FromSpecImpl<RfProtocolType> for Protocol {
    open spec fn obeys_from_spec() -> bool {
        true
    }

    open spec fn from_spec(v: RfProtocolType) -> Protocol {
        nci_to_protocol(v)
    }
}

impl Technology {
    /// The technology of a passive poll or listen mode; an active mode is
    /// handed back as the error.
    pub fn try_from(mode: RfTechnologyAndMode) -> (r: Result<Technology, RfTechnologyAndMode>)
        ensures
            match spec_technology(mode) {
                Some(t) => r == Ok::<Technology, RfTechnologyAndMode>(t),
                None => r == Err::<Technology, RfTechnologyAndMode>(mode),
            },
    {
        match mode {
            RfTechnologyAndMode::NfcAPassivePollMode | RfTechnologyAndMode::NfcAPassiveListenMode => Ok(
                Technology::NfcA,
            ),
            RfTechnologyAndMode::NfcBPassivePollMode | RfTechnologyAndMode::NfcBPassiveListenMode => Ok(
                Technology::NfcB,
            ),
            RfTechnologyAndMode::NfcFPassivePollMode | RfTechnologyAndMode::NfcFPassiveListenMode => Ok(
                Technology::NfcF,
            ),
            RfTechnologyAndMode::NfcVPassivePollMode => Ok(Technology::NfcV),
            _ => Err(mode),
        }
    }
}

/// Converting a protocol to its NCI name and back gives it back, both ways.
pub proof fn lemma_protocol_round_trip(p: Protocol, q: RfProtocolType)
    ensures
        nci_to_protocol(protocol_to_nci(p)) == p,
        protocol_to_nci(nci_to_protocol(q)) == q,
{
}

} // verus!
