//! Emulated NFCC: configuration parameters, logical connections, and the
//! handlers of the NCI control commands it supports.
use vstd::prelude::*;
use std::collections::HashMap;
use crate::messages::{Command, Reply, DEACTIVATION_REASON_DH_REQUEST};

verus! {

broadcast use vstd::std_specs::hash::group_hash_axioms;

pub const MAX_LOGICAL_CONNECTIONS: u8 = 2;
pub const MAX_ROUTING_TABLE_SIZE: u16 = 512;
pub const MAX_CONTROL_PACKET_PAYLOAD_SIZE: u8 = 255;
pub const MAX_DATA_PACKET_PAYLOAD_SIZE: u8 = 255;
pub const NUMBER_OF_CREDITS: u8 = 0;
pub const MAX_NFCV_RF_FRAME_SIZE: u16 = 512;
/// Credits granted on every connection the emulator creates.
pub const INITIAL_NUMBER_OF_CREDITS: u8 = 0xff;

/// NCI status codes.
#[derive(PartialEq, Eq, Structural, Clone, Copy, Debug)]
pub enum Status {
    /// STATUS_OK.
    Success,
    Rejected,
    Failed,
    NotInitialized,
    InvalidParam,
}

impl Status {
    pub open spec fn spec_value(&self) -> u8 {
        match self {
            Status::Success => 0x00,
            Status::Rejected => 0x01,
            Status::Failed => 0x03,
            Status::NotInitialized => 0x04,
            Status::InvalidParam => 0x09,
        }
    }

    /// The status octet.
    pub fn value(&self) -> (r: u8)
        ensures
            r == self.spec_value(),
    {
        match self {
            Status::Success => 0x00,
            Status::Rejected => 0x01,
            Status::Failed => 0x03,
            Status::NotInitialized => 0x04,
            Status::InvalidParam => 0x09,
        }
    }
}

/// Reset type of CORE_RESET_CMD.
#[derive(PartialEq, Eq, Structural, Clone, Copy, Debug)]
pub enum ResetType {
    KeepConfig,
    ResetConfig,
}

/// Trigger field of CORE_RESET_NTF.
#[derive(PartialEq, Eq, Structural, Clone, Copy, Debug)]
pub enum ResetTrigger {
    UnrecoverableError,
    PowerOn,
    ResetCommand,
}

/// Configuration status field of CORE_RESET_NTF.
#[derive(PartialEq, Eq, Structural, Clone, Copy, Debug)]
pub enum ConfigStatus {
    ConfigKept,
    ConfigReset,
}

/// NCI version announced by the emulator.
#[derive(PartialEq, Eq, Structural, Clone, Copy, Debug)]
pub enum NciVersion {
    Version10,
    Version11,
    Version20,
}

/// Destination type of CORE_CONN_CREATE_CMD.
#[derive(PartialEq, Eq, Structural, Clone, Copy, Debug)]
pub enum DestinationType {
    NfccLoopback,
    RemoteNfcEndpoint,
    Nfcee,
}

/// RF protocol of a remote endpoint.
#[derive(PartialEq, Eq, Structural, Clone, Copy, Debug)]
pub enum RfProtocolType {
    Undetermined,
    T1t,
    T2t,
    T3t,
    IsoDep,
    NfcDep,
    T5t,
    Ndef,
}

pub open spec fn spec_rf_protocol(v: u8) -> Option<RfProtocolType> {
    if v == 0 {
        Some(RfProtocolType::Undetermined)
    } else if v == 1 {
        Some(RfProtocolType::T1t)
    } else if v == 2 {
        Some(RfProtocolType::T2t)
    } else if v == 3 {
        Some(RfProtocolType::T3t)
    } else if v == 4 {
        Some(RfProtocolType::IsoDep)
    } else if v == 5 {
        Some(RfProtocolType::NfcDep)
    } else if v == 6 {
        Some(RfProtocolType::T5t)
    } else if v == 7 {
        Some(RfProtocolType::Ndef)
    } else {
        None
    }
}

impl RfProtocolType {
    /// The protocol with wire value `v`, if any.
    pub fn from_value(v: u8) -> (r: Option<RfProtocolType>)
        ensures
            r == spec_rf_protocol(v),
    {
        if v == 0 {
            Some(RfProtocolType::Undetermined)
        } else if v == 1 {
            Some(RfProtocolType::T1t)
        } else if v == 2 {
            Some(RfProtocolType::T2t)
        } else if v == 3 {
            Some(RfProtocolType::T3t)
        } else if v == 4 {
            Some(RfProtocolType::IsoDep)
        } else if v == 5 {
            Some(RfProtocolType::NfcDep)
        } else if v == 6 {
            Some(RfProtocolType::T5t)
        } else if v == 7 {
            Some(RfProtocolType::Ndef)
        } else {
            None
        }
    }
}

/// Type of the destination-specific parameter that names an RF discovery.
pub const RF_DISCOVERY_PARAMETER: u8 = 0x00;

/// A configuration parameter: ID and value.
pub struct ConfigParameter {
    pub id: u8,
    pub value: Vec<u8>,
}

/// A destination-specific parameter of CORE_CONN_CREATE_CMD: type and value.
pub type DestinationParameter = ConfigParameter;

/// An open logical connection to a remote NFC endpoint.
#[derive(PartialEq, Eq, Structural, Clone, Copy, Debug)]
pub struct LogicalConnection {
    pub rf_discovery_id: u8,
    pub rf_protocol_type: RfProtocolType,
}

/// Whether configuration parameter `id` lies in a range that NCI reserves
/// for future use. Assigned IDs and the proprietary range 0xA0-0xFE are not.
pub open spec fn spec_is_rfu_config_id(id: u8) -> bool {
    !(id <= 0x03 || (0x08 <= id <= 0x09) || (0x10 <= id <= 0x14) || (0x18 <= id <= 0x1a) || (0x20
        <= id <= 0x21) || (0x28 <= id <= 0x2a) || id == 0x2f || (0x30 <= id <= 0x33) || (0x38 <= id
        <= 0x3c) || id == 0x3e || (0x40 <= id <= 0x55) || (0x58 <= id <= 0x5c) || (0x60 <= id
        <= 0x62) || id == 0x68 || (0x80 <= id <= 0x83) || (0x85 <= id <= 0x86) || (0xa0 <= id
        <= 0xfe))
}

pub fn is_rfu_config_id(id: u8) -> (r: bool)
    ensures
        r == spec_is_rfu_config_id(id),
{
    !(id <= 0x03 || (0x08 <= id && id <= 0x09) || (0x10 <= id && id <= 0x14) || (0x18 <= id && id
        <= 0x1a) || (0x20 <= id && id <= 0x21) || (0x28 <= id && id <= 0x2a) || id == 0x2f || (0x30
        <= id && id <= 0x33) || (0x38 <= id && id <= 0x3c) || id == 0x3e || (0x40 <= id && id
        <= 0x55) || (0x58 <= id && id <= 0x5c) || (0x60 <= id && id <= 0x62) || id == 0x68 || (0x80
        <= id && id <= 0x83) || (0x85 <= id && id <= 0x86) || (0xa0 <= id && id <= 0xfe))
}

/// The configuration after writing, in order, every parameter of `ps` whose
/// ID is not reserved.
pub open spec fn config_after_set(m: Map<u8, Seq<u8>>, ps: Seq<(u8, Seq<u8>)>) -> Map<u8, Seq<u8>>
    decreases ps.len(),
{
    if ps.len() == 0 {
        m
    } else {
        let last = ps.last();
        let m1 = config_after_set(m, ps.drop_last());
        if spec_is_rfu_config_id(last.0) {
            m1
        } else {
            m1.insert(last.0, last.1)
        }
    }
}

/// IDs of `ps` that are reserved, in order.
pub open spec fn rfu_ids(ps: Seq<(u8, Seq<u8>)>) -> Seq<u8>
    decreases ps.len(),
{
    if ps.len() == 0 {
        Seq::empty()
    } else {
        let last = ps.last();
        let r = rfu_ids(ps.drop_last());
        if spec_is_rfu_config_id(last.0) {
            r.push(last.0)
        } else {
            r
        }
    }
}

pub open spec fn params_view(ps: Seq<ConfigParameter>) -> Seq<(u8, Seq<u8>)> {
    ps.map_values(|p: ConfigParameter| (p.id, p.value@))
}

/// IDs of `ids` absent from `m`, in order.
pub open spec fn missing_ids(m: Map<u8, Seq<u8>>, ids: Seq<u8>) -> Seq<u8>
    decreases ids.len(),
{
    if ids.len() == 0 {
        Seq::empty()
    } else {
        let r = missing_ids(m, ids.drop_last());
        if m.contains_key(ids.last()) {
            r
        } else {
            r.push(ids.last())
        }
    }
}

/// (ID, value) of each ID of `ids` present in `m`, in order.
pub open spec fn found_params(m: Map<u8, Seq<u8>>, ids: Seq<u8>) -> Seq<(u8, Seq<u8>)>
    decreases ids.len(),
{
    if ids.len() == 0 {
        Seq::empty()
    } else {
        let r = found_params(m, ids.drop_last());
        if m.contains_key(ids.last()) {
            r.push((ids.last(), m[ids.last()]))
        } else {
            r
        }
    }
}

/// What CORE_GET_CONFIG_RSP reports for `ids`: with every ID present in
/// `m`, status Ok and each (ID, value) in order; otherwise status
/// InvalidParam and each missing ID with an empty value, in order.
pub open spec fn get_config_result(m: Map<u8, Seq<u8>>, ids: Seq<u8>) -> (Status, Seq<(u8, Seq<u8>)>) {
    let missing = missing_ids(m, ids);
    if missing.len() == 0 {
        (Status::Success, found_params(m, ids))
    } else {
        (Status::InvalidParam, missing.map_values(|id: u8| (id, Seq::<u8>::empty())))
    }
}

/// Lowest free slot of `conns`, if any.
pub open spec fn lowest_free(conns: Seq<Option<LogicalConnection>>) -> Option<int> {
    if exists|i: int|
        0 <= i < conns.len() && conns[i].is_none() && forall|j: int| 0 <= j < i ==> conns[j].is_some() {
        Some(choose|i: int| 0 <= i < conns.len() && conns[i].is_none() && forall|j: int| 0 <= j < i ==> conns[j].is_some())
    } else {
        None
    }
}

/// The connection that CORE_CONN_CREATE_CMD describes, if it is one the
/// emulator supports: a remote NFC endpoint whose parameters are all RF
/// discovery parameters, the last of which holds an RF discovery ID and a
/// known RF protocol.
pub open spec fn requested_connection(dt: DestinationType, ps: Seq<(u8, Seq<u8>)>) -> Option<LogicalConnection> {
    if dt != DestinationType::RemoteNfcEndpoint || ps.len() == 0 {
        None
    } else if exists|i: int| 0 <= i < ps.len() && (#[trigger] ps[i]).0 != RF_DISCOVERY_PARAMETER {
        None
    } else {
        let v = ps.last().1;
        if v.len() < 2 || spec_rf_protocol(v[1]).is_none() {
            None
        } else {
            Some(LogicalConnection { rf_discovery_id: v[0], rf_protocol_type: spec_rf_protocol(v[1]).unwrap() })
        }
    }
}

/// Outcome of CORE_CONN_CREATE_CMD on slots `conns`: the slot taken and the
/// connection, or a rejection (no free slot, unsupported destination, or a
/// destination already connected).
pub open spec fn conn_create_result(
    conns: Seq<Option<LogicalConnection>>,
    dt: DestinationType,
    ps: Seq<(u8, Seq<u8>)>,
) -> Option<(int, LogicalConnection)> {
    match (lowest_free(conns), requested_connection(dt, ps)) {
        (Some(i), Some(lc)) => if conns.contains(Some(lc)) {
            None
        } else {
            Some((i, lc))
        },
        _ => None,
    }
}

/// No two open connections share a destination.
pub open spec fn unique_connections(conns: Seq<Option<LogicalConnection>>) -> bool {
    forall|i: int, j: int|
        0 <= i < conns.len() && 0 <= j < conns.len() && i != j && (#[trigger] conns[i]).is_some()
            ==> conns[i] != #[trigger] conns[j]
}

/// Body of CORE_RESET_NTF.
#[derive(PartialEq, Eq, Structural, Clone, Copy, Debug)]
pub struct CoreResetNotification {
    pub trigger: ResetTrigger,
    pub config_status: ConfigStatus,
    pub nci_version: NciVersion,
    pub manufacturer_id: u8,
}

/// Body of CORE_INIT_RSP. The NFCC features it reports are fixed: every
/// feature flag disabled, discovery configuration by the DH only, and one
/// supported RF interface, NFC-DEP, with no extension.
#[derive(PartialEq, Eq, Structural, Clone, Copy, Debug)]
pub struct CoreInitResponse {
    pub status: Status,
    pub max_logical_connections: u8,
    pub max_routing_table_size: u16,
    pub max_control_packet_payload_size: u8,
    pub max_data_packet_payload_size: u8,
    pub number_of_credits: u8,
    pub max_nfcv_rf_frame_size: u16,
}

/// Body of CORE_CONN_CREATE_RSP.
#[derive(PartialEq, Eq, Structural, Clone, Copy, Debug)]
pub struct CoreConnCreateResponse {
    pub status: Status,
    pub max_data_packet_payload_size: u8,
    pub initial_number_of_credits: u8,
    pub conn_id: u8,
}

/// Body of CORE_SET_CONFIG_RSP: status and the rejected IDs.
pub struct CoreSetConfigResponse {
    pub status: Status,
    pub parameters: Vec<u8>,
}

/// Body of CORE_GET_CONFIG_RSP.
pub struct CoreGetConfigResponse {
    pub status: Status,
    pub parameters: Vec<ConfigParameter>,
}

pub open spec fn dest_params_view(ps: Seq<DestinationParameter>) -> Seq<(u8, Seq<u8>)> {
    params_view(ps)
}

/// The configuration status that a reset of type `t` reports.
pub open spec fn spec_config_status(t: ResetType) -> ConfigStatus {
    match t {
        ResetType::KeepConfig => ConfigStatus::ConfigKept,
        ResetType::ResetConfig => ConfigStatus::ConfigReset,
    }
}

/// The fixed CORE_INIT_RSP of the emulator.
pub open spec fn spec_init_response() -> CoreInitResponse {
    CoreInitResponse {
        status: Status::Success,
        max_logical_connections: MAX_LOGICAL_CONNECTIONS,
        max_routing_table_size: MAX_ROUTING_TABLE_SIZE,
        max_control_packet_payload_size: MAX_CONTROL_PACKET_PAYLOAD_SIZE,
        max_data_packet_payload_size: MAX_DATA_PACKET_PAYLOAD_SIZE,
        number_of_credits: NUMBER_OF_CREDITS,
        max_nfcv_rf_frame_size: MAX_NFCV_RF_FRAME_SIZE,
    }
}

/// State of an emulated NFCC instance.
pub struct Controller {
    id: usize,
    config_parameters: HashMap<u8, Vec<u8>>,
    logical_connections: Vec<Option<LogicalConnection>>,
}

impl Controller {
    /// Configuration parameters by ID.
    pub closed spec fn config(&self) -> Map<u8, Seq<u8>> {
        self.config_parameters@.map_values(|v: Vec<u8>| v@)
    }

    /// Logical connection slots, by Conn ID.
    pub closed spec fn connections(&self) -> Seq<Option<LogicalConnection>> {
        self.logical_connections@
    }

    pub closed spec fn spec_id(&self) -> usize {
        self.id
    }

    pub open spec fn wf(&self) -> bool {
        &&& self.connections().len() == MAX_LOGICAL_CONNECTIONS
        &&& unique_connections(self.connections())
    }

    /// A controller with no configuration and no open connection.
    pub fn new(id: usize) -> (r: Controller)
        ensures
            r.wf(),
            r.spec_id() == id,
            r.config() == Map::<u8, Seq<u8>>::empty(),
            r.connections() == seq![None::<LogicalConnection>, None],
    {
        let mut logical_connections: Vec<Option<LogicalConnection>> = Vec::new();
        logical_connections.push(None);
        logical_connections.push(None);
        let r = Controller { id, config_parameters: HashMap::new(), logical_connections };
        assert(r.config() =~= Map::<u8, Seq<u8>>::empty());
        assert(r.connections() =~= seq![None::<LogicalConnection>, None]);
        r
    }

    pub fn id(&self) -> (r: usize)
        ensures
            r == self.spec_id(),
    {
        self.id
    }

    /// Handles CORE_CONN_CLOSE_CMD: closes an open connection (status Ok),
    /// or rejects an ID with no connection (status Rejected).
    pub fn core_conn_close(&mut self, conn_id: u8) -> (r: Status)
        requires
            old(self).wf(),
        ensures
            final(self).wf(),
            final(self).config() == old(self).config(),
            final(self).spec_id() == old(self).spec_id(),
            (conn_id >= MAX_LOGICAL_CONNECTIONS || old(self).connections()[conn_id as int].is_none())
                ==> r == Status::Rejected && final(self).connections() == old(self).connections(),
            (conn_id < MAX_LOGICAL_CONNECTIONS && old(self).connections()[conn_id as int].is_some())
                ==> r == Status::Success && final(self).connections() == old(self).connections().update(
                conn_id as int,
                None,
            ),
    {
        if conn_id >= MAX_LOGICAL_CONNECTIONS || self.logical_connections[conn_id as usize].is_none() {
            Status::Rejected
        } else {
            self.logical_connections.set(conn_id as usize, None);
            Status::Success
        }
    }

    /// The CORE_RESET_NTF sent when the controller starts: power on, with
    /// the configuration reset.
    pub fn power_on_notification(&self) -> (r: CoreResetNotification)
        ensures
            r == (CoreResetNotification {
                trigger: ResetTrigger::PowerOn,
                config_status: ConfigStatus::ConfigReset,
                nci_version: NciVersion::Version11,
                manufacturer_id: 0,
            }),
    {
        CoreResetNotification {
            trigger: ResetTrigger::PowerOn,
            config_status: ConfigStatus::ConfigReset,
            nci_version: NciVersion::Version11,
            manufacturer_id: 0,
        }
    }

    /// Handles CORE_RESET_CMD: status Ok, then a CORE_RESET_NTF triggered by
    /// the command whose configuration status follows the reset type.
    pub fn core_reset(&self, reset_type: ResetType) -> (r: (Status, CoreResetNotification))
        ensures
            r.0 == Status::Success,
            r.1 == (CoreResetNotification {
                trigger: ResetTrigger::ResetCommand,
                config_status: spec_config_status(reset_type),
                nci_version: NciVersion::Version11,
                manufacturer_id: 0,
            }),
    {
        let config_status = match reset_type {
            ResetType::KeepConfig => ConfigStatus::ConfigKept,
            ResetType::ResetConfig => ConfigStatus::ConfigReset,
        };
        (
            Status::Success,
            CoreResetNotification {
                trigger: ResetTrigger::ResetCommand,
                config_status,
                nci_version: NciVersion::Version11,
                manufacturer_id: 0,
            },
        )
    }

    /// Handles CORE_INIT_CMD with the emulator's fixed capabilities.
    pub fn core_init(&self) -> (r: CoreInitResponse)
        ensures
            r == spec_init_response(),
    {
        CoreInitResponse {
            status: Status::Success,
            max_logical_connections: MAX_LOGICAL_CONNECTIONS,
            max_routing_table_size: MAX_ROUTING_TABLE_SIZE,
            max_control_packet_payload_size: MAX_CONTROL_PACKET_PAYLOAD_SIZE,
            max_data_packet_payload_size: MAX_DATA_PACKET_PAYLOAD_SIZE,
            number_of_credits: NUMBER_OF_CREDITS,
            max_nfcv_rf_frame_size: MAX_NFCV_RF_FRAME_SIZE,
        }
    }

    /// Handles CORE_SET_CONFIG_CMD: writes every parameter whose ID is not
    /// reserved, in order, and reports the reserved IDs (status InvalidParam
    /// if there is any, else Ok).
    pub fn core_set_config(&mut self, parameters: &Vec<ConfigParameter>) -> (r: CoreSetConfigResponse)
        requires
            old(self).wf(),
        ensures
            final(self).wf(),
            final(self).connections() == old(self).connections(),
            final(self).spec_id() == old(self).spec_id(),
            final(self).config() == config_after_set(old(self).config(), params_view(parameters@)),
            r.parameters@ == rfu_ids(params_view(parameters@)),
            r.status == (if r.parameters@.len() == 0 {
                Status::Success
            } else {
                Status::InvalidParam
            }),
    {
        let ghost pv = params_view(parameters@);
        let mut invalid: Vec<u8> = Vec::new();
        let mut i: usize = 0;
        while i < parameters.len()
            invariant
                pv == params_view(parameters@),
                i <= parameters@.len(),
                self.wf(),
                self.connections() == old(self).connections(),
                self.spec_id() == old(self).spec_id(),
                self.config() == config_after_set(old(self).config(), pv.take(i as int)),
                invalid@ == rfu_ids(pv.take(i as int)),
            decreases parameters@.len() - i,
        {
            let p = &parameters[i];
            assert(pv.take(i + 1).drop_last() =~= pv.take(i as int));
            assert(pv.take(i + 1).last() == (p.id, p.value@));
            if is_rfu_config_id(p.id) {
                invalid.push(p.id);
            } else {
                let ghost before = self.config();
                let v = crate::packet::copy_range(p.value.as_slice(), 0, p.value.len());
                assert(v@ =~= p.value@);
                self.config_parameters.insert(p.id, v);
                assert(self.config() =~= before.insert(p.id, p.value@));
            }
            i = i + 1;
        }
        assert(pv.take(parameters@.len() as int) =~= pv);
        let status = if invalid.len() == 0 {
            Status::Success
        } else {
            Status::InvalidParam
        };
        CoreSetConfigResponse { status, parameters: invalid }
    }

    /// Handles CORE_GET_CONFIG_CMD.
    pub fn core_get_config(&self, ids: &Vec<u8>) -> (r: CoreGetConfigResponse)
        ensures
            (r.status, params_view(r.parameters@)) == get_config_result(self.config(), ids@),
    {
        let ghost m = self.config();
        let mut valid: Vec<ConfigParameter> = Vec::new();
        let mut invalid: Vec<ConfigParameter> = Vec::new();
        let mut i: usize = 0;
        while i < ids.len()
            invariant
                m == self.config(),
                i <= ids@.len(),
                params_view(valid@) == found_params(m, ids@.take(i as int)),
                params_view(invalid@) == missing_ids(m, ids@.take(i as int)).map_values(
                    |id: u8| (id, Seq::<u8>::empty()),
                ),
            decreases ids@.len() - i,
        {
            let id = ids[i];
            assert(ids@.take(i + 1).drop_last() =~= ids@.take(i as int));
            assert(ids@.take(i + 1).last() == id);
            let ghost vb = valid@;
            let ghost ib = invalid@;
            match self.config_parameters.get(&id) {
                Some(value) => {
                    let v = crate::packet::copy_range(value.as_slice(), 0, value.len());
                    assert(v@ =~= value@);
                    valid.push(ConfigParameter { id, value: v });
                    assert(params_view(valid@) =~= params_view(vb).push((id, m[id])));
                },
                None => {
                    invalid.push(ConfigParameter { id, value: Vec::new() });
                    assert(params_view(invalid@) =~= params_view(ib).push((id, Seq::<u8>::empty())));
                    assert(missing_ids(m, ids@.take(i + 1)).map_values(|id: u8| (id, Seq::<u8>::empty()))
                        =~= missing_ids(m, ids@.take(i as int)).map_values(|id: u8| (id, Seq::<u8>::empty())).push((id, Seq::<u8>::empty())));
                },
            }
            i = i + 1;
        }
        assert(ids@.take(ids@.len() as int) =~= ids@);
        if invalid.len() == 0 {
            CoreGetConfigResponse { status: Status::Success, parameters: valid }
        } else {
            CoreGetConfigResponse { status: Status::InvalidParam, parameters: invalid }
        }
    }

    /// Lowest free connection slot, if any.
    fn free_slot(&self) -> (r: Option<u8>)
        requires
            self.wf(),
        ensures
            match r {
                Some(i) => lowest_free(self.connections()) == Some(i as int),
                None => lowest_free(self.connections()).is_none(),
            },
    {
        let ghost c = self.connections();
        let mut i: u8 = 0;
        while i < MAX_LOGICAL_CONNECTIONS
            invariant
                c == self.connections(),
                c.len() == MAX_LOGICAL_CONNECTIONS,
                i <= MAX_LOGICAL_CONNECTIONS,
                forall|j: int| 0 <= j < i ==> c[j].is_some(),
            decreases MAX_LOGICAL_CONNECTIONS - i,
        {
            if self.logical_connections[i as usize].is_none() {
                proof {
                    let w = choose|k: int| 0 <= k < c.len() && c[k].is_none() && forall|j: int| 0 <= j < k ==> c[j].is_some();
                    assert(0 <= i < c.len() && c[i as int].is_none() && forall|j: int| 0 <= j < i ==> c[j].is_some());
                    if w < i {
                        assert(c[w].is_some());
                    } else if w > i {
                        assert(c[i as int].is_some());
                    }
                }
                return Some(i);
            }
            i = i + 1;
        }
        None
    }

    /// The connection a CORE_CONN_CREATE_CMD asks for, if supported.
    fn requested(dt: DestinationType, parameters: &Vec<DestinationParameter>) -> (r: Option<LogicalConnection>)
        ensures
            r == requested_connection(dt, dest_params_view(parameters@)),
    {
        let ghost pv = dest_params_view(parameters@);
        if dt != DestinationType::RemoteNfcEndpoint || parameters.len() == 0 {
            return None;
        }
        let mut i: usize = 0;
        while i < parameters.len()
            invariant
                pv == dest_params_view(parameters@),
                i <= parameters@.len(),
                forall|j: int| 0 <= j < i ==> (#[trigger] pv[j]).0 == RF_DISCOVERY_PARAMETER,
            decreases parameters@.len() - i,
        {
            if parameters[i].id != RF_DISCOVERY_PARAMETER {
                assert(pv[i as int].0 != RF_DISCOVERY_PARAMETER);
                return None;
            }
            i = i + 1;
        }
        let v = &parameters[parameters.len() - 1].value;
        assert(pv.last().1 == v@);
        if v.len() < 2 {
            return None;
        }
        match RfProtocolType::from_value(v[1]) {
            Some(t) => Some(LogicalConnection { rf_discovery_id: v[0], rf_protocol_type: t }),
            None => None,
        }
    }

    /// Handles CORE_CONN_CREATE_CMD. Takes the lowest free Conn ID for a
    /// remote NFC endpoint named by an RF discovery parameter, unless that
    /// destination is already connected: status Ok, payload limit 255 and
    /// 255 credits. Anything else is rejected and changes nothing.
    pub fn core_conn_create(
        &mut self,
        destination_type: DestinationType,
        parameters: &Vec<DestinationParameter>,
    ) -> (r: CoreConnCreateResponse)
        requires
            old(self).wf(),
        ensures
            final(self).wf(),
            final(self).config() == old(self).config(),
            final(self).spec_id() == old(self).spec_id(),
            match conn_create_result(old(self).connections(), destination_type, dest_params_view(parameters@)) {
                Some((i, lc)) => {
                    &&& r == (CoreConnCreateResponse {
                        status: Status::Success,
                        max_data_packet_payload_size: MAX_DATA_PACKET_PAYLOAD_SIZE,
                        initial_number_of_credits: INITIAL_NUMBER_OF_CREDITS,
                        conn_id: i as u8,
                    })
                    &&& final(self).connections() == old(self).connections().update(i, Some(lc))
                },
                None => {
                    &&& r == (CoreConnCreateResponse {
                        status: Status::Rejected,
                        max_data_packet_payload_size: 0,
                        initial_number_of_credits: INITIAL_NUMBER_OF_CREDITS,
                        conn_id: 0,
                    })
                    &&& final(self).connections() == old(self).connections()
                },
            },
    {
        let rejected = CoreConnCreateResponse {
            status: Status::Rejected,
            max_data_packet_payload_size: 0,
            initial_number_of_credits: INITIAL_NUMBER_OF_CREDITS,
            conn_id: 0,
        };
        let ghost c = self.connections();
        let slot = self.free_slot();
        let lc = Self::requested(destination_type, parameters);
        let (conn_id, lc) = match (slot, lc) {
            (Some(i), Some(lc)) => (i, lc),
            _ => {
                return rejected;
            },
        };
        let mut j: usize = 0;
        while j < self.logical_connections.len()
            invariant
                c == self.connections(),
                c == old(self).connections(),
                self.wf(),
                self.config() == old(self).config(),
                self.spec_id() == old(self).spec_id(),
                lowest_free(c) == Some(conn_id as int),
                requested_connection(destination_type, dest_params_view(parameters@)) == Some(lc),
                rejected == (CoreConnCreateResponse {
                    status: Status::Rejected,
                    max_data_packet_payload_size: 0,
                    initial_number_of_credits: INITIAL_NUMBER_OF_CREDITS,
                    conn_id: 0,
                }),
                j <= c.len(),
                forall|k: int| 0 <= k < j ==> c[k] != Some(lc),
            decreases c.len() - j,
        {
            if self.logical_connections[j] == Some(lc) {
                assert(c[j as int] == Some(lc));
                assert(c.contains(Some(lc)));
                return rejected;
            }
            j = j + 1;
        }
        assert(!c.contains(Some(lc)));
        self.logical_connections.set(conn_id as usize, Some(lc));
        proof {
            let n = self.connections();
            assert(n == c.update(conn_id as int, Some(lc)));
            assert forall|a: int, b: int|
                0 <= a < n.len() && 0 <= b < n.len() && a != b && (#[trigger] n[a]).is_some()
                    implies n[a] != #[trigger] n[b] by {
                if a == conn_id as int {
                    assert(n[b] == c[b]);
                    assert(c[b] != Some(lc));
                } else if b == conn_id as int {
                    assert(n[a] == c[a]);
                    assert(c[a] != Some(lc));
                } else {
                    assert(n[a] == c[a] && n[b] == c[b]);
                }
            }
        }
        CoreConnCreateResponse {
            status: Status::Success,
            max_data_packet_payload_size: MAX_DATA_PACKET_PAYLOAD_SIZE,
            initial_number_of_credits: INITIAL_NUMBER_OF_CREDITS,
            conn_id,
        }
    }

    /// Timer handler, invoked every 5 ms to drive internal timers. The
    /// emulator keeps none yet.
    pub fn tick(&mut self)
        ensures
            *final(self) == *old(self),
    {
    }

    /// A reassembled data message received over NCI. Data is accepted and
    /// not processed.
    pub fn receive_data(&mut self, _packet: &[u8])
        ensures
            *final(self) == *old(self),
    {
    }

    /// An RF frame from another device of the scene. Frames are accepted and
    /// not processed.
    pub fn receive_rf(&mut self, _packet: Vec<u8>)
        ensures
            *final(self) == *old(self),
    {
    }

    /// Handles one decoded command and returns the replies to send, in
    /// order: the response, followed for CORE_RESET_CMD and RF_DEACTIVATE_CMD
    /// by a notification. Only configuration and connection commands change
    /// the state.
    pub fn receive_command(&mut self, cmd: Command) -> (r: Vec<Reply>)
        requires
            old(self).wf(),
        ensures
            final(self).wf(),
            final(self).spec_id() == old(self).spec_id(),
            !(cmd is CoreSetConfig) ==> final(self).config() == old(self).config(),
            !(cmd is CoreConnCreate || cmd is CoreConnClose) ==> final(self).connections() == old(
                self,
            ).connections(),
            match cmd {
                Command::CoreReset(t) => r@ == seq![
                    Reply::CoreResetResponse(Status::Success),
                    Reply::CoreResetNotification(
                        CoreResetNotification {
                            trigger: ResetTrigger::ResetCommand,
                            config_status: spec_config_status(t),
                            nci_version: NciVersion::Version11,
                            manufacturer_id: 0,
                        },
                    ),
                ],
                Command::CoreInit => r@ == seq![Reply::CoreInitResponse(spec_init_response())],
                Command::CoreSetConfig(ps) => {
                    &&& r@.len() == 1
                    &&& r@[0] matches Reply::CoreSetConfigResponse(resp)
                    &&& r@[0]->CoreSetConfigResponse_0.parameters@ == rfu_ids(params_view(ps@))
                    &&& r@[0]->CoreSetConfigResponse_0.status == (if rfu_ids(params_view(ps@)).len()
                        == 0 {
                        Status::Success
                    } else {
                        Status::InvalidParam
                    })
                    &&& final(self).config() == config_after_set(old(self).config(), params_view(ps@))
                },
                Command::CoreGetConfig(ids) => {
                    &&& r@.len() == 1
                    &&& r@[0] matches Reply::CoreGetConfigResponse(resp)
                    &&& (r@[0]->CoreGetConfigResponse_0.status, params_view(
                        r@[0]->CoreGetConfigResponse_0.parameters@,
                    )) == get_config_result(old(self).config(), ids@)
                },
                Command::CoreConnCreate(dt, ps) => {
                    &&& r@.len() == 1
                    &&& r@[0] matches Reply::CoreConnCreateResponse(resp)
                    &&& match conn_create_result(old(self).connections(), dt, params_view(ps@)) {
                        Some((i, lc)) => {
                            &&& r@[0]->CoreConnCreateResponse_0 == (CoreConnCreateResponse {
                                status: Status::Success,
                                max_data_packet_payload_size: MAX_DATA_PACKET_PAYLOAD_SIZE,
                                initial_number_of_credits: INITIAL_NUMBER_OF_CREDITS,
                                conn_id: i as u8,
                            })
                            &&& final(self).connections() == old(self).connections().update(i, Some(lc))
                        },
                        None => {
                            &&& r@[0]->CoreConnCreateResponse_0 == (CoreConnCreateResponse {
                                status: Status::Rejected,
                                max_data_packet_payload_size: 0,
                                initial_number_of_credits: INITIAL_NUMBER_OF_CREDITS,
                                conn_id: 0,
                            })
                            &&& final(self).connections() == old(self).connections()
                        },
                    }
                },
                Command::CoreConnClose(id) => {
                    let open = id < MAX_LOGICAL_CONNECTIONS && old(self).connections()[id as int].is_some();
                    &&& open ==> r@ == seq![Reply::CoreConnCloseResponse(Status::Success)]
                        && final(self).connections() == old(self).connections().update(id as int, None)
                    &&& !open ==> r@ == seq![Reply::CoreConnCloseResponse(Status::Rejected)]
                        && final(self).connections() == old(self).connections()
                },
                Command::CoreSetPowerSubState(_) => r@ == seq![
                    Reply::CoreSetPowerSubStateResponse(Status::Success),
                ],
                Command::RfDiscoverMap => r@ == seq![Reply::RfDiscoverMapResponse(Status::Success)],
                Command::RfSetListenModeRouting => r@ == seq![
                    Reply::RfSetListenModeRoutingResponse(Status::Success),
                ],
                Command::RfGetListenModeRouting => r@ == seq![
                    Reply::RfGetListenModeRoutingResponse { status: Status::Success, more_to_follow: 0 },
                ],
                Command::RfDiscover => r@ == seq![Reply::RfDiscoverResponse(Status::Success)],
                Command::RfDeactivate(t) => r@ == seq![
                    Reply::RfDeactivateResponse(Status::Success),
                    Reply::RfDeactivateNotification {
                        deactivation_type: t,
                        deactivation_reason: DEACTIVATION_REASON_DH_REQUEST,
                    },
                ],
                Command::NfceeDiscover => r@ == seq![
                    Reply::NfceeDiscoverResponse { status: Status::Success, number_of_nfcees: 0 },
                ],
            },
    {
        let mut out: Vec<Reply> = Vec::new();
        match cmd {
            Command::CoreReset(t) => {
                let (status, ntf) = self.core_reset(t);
                out.push(Reply::CoreResetResponse(status));
                out.push(Reply::CoreResetNotification(ntf));
            },
            Command::CoreInit => {
                out.push(Reply::CoreInitResponse(self.core_init()));
            },
            Command::CoreSetConfig(ps) => {
                out.push(Reply::CoreSetConfigResponse(self.core_set_config(&ps)));
            },
            Command::CoreGetConfig(ids) => {
                out.push(Reply::CoreGetConfigResponse(self.core_get_config(&ids)));
            },
            Command::CoreConnCreate(dt, ps) => {
                out.push(Reply::CoreConnCreateResponse(self.core_conn_create(dt, &ps)));
            },
            Command::CoreConnClose(id) => {
                out.push(Reply::CoreConnCloseResponse(self.core_conn_close(id)));
            },
            Command::CoreSetPowerSubState(_) => {
                out.push(Reply::CoreSetPowerSubStateResponse(Status::Success));
            },
            Command::RfDiscoverMap => {
                out.push(Reply::RfDiscoverMapResponse(Status::Success));
            },
            Command::RfSetListenModeRouting => {
                out.push(Reply::RfSetListenModeRoutingResponse(Status::Success));
            },
            Command::RfGetListenModeRouting => {
                out.push(
                    Reply::RfGetListenModeRoutingResponse { status: Status::Success, more_to_follow: 0 },
                );
            },
            Command::RfDiscover => {
                out.push(Reply::RfDiscoverResponse(Status::Success));
            },
            Command::RfDeactivate(t) => {
                out.push(Reply::RfDeactivateResponse(Status::Success));
                out.push(
                    Reply::RfDeactivateNotification {
                        deactivation_type: t,
                        deactivation_reason: DEACTIVATION_REASON_DH_REQUEST,
                    },
                );
            },
            Command::NfceeDiscover => {
                out.push(Reply::NfceeDiscoverResponse { status: Status::Success, number_of_nfcees: 0 });
            },
        }
        out
    }
}

/// Once a destination is connected, asking again for the same destination
/// is rejected: no two open connections share a destination.
pub proof fn lemma_conn_create_unique(
    conns: Seq<Option<LogicalConnection>>,
    dt: DestinationType,
    ps: Seq<(u8, Seq<u8>)>,
)
    requires
        unique_connections(conns),
        conn_create_result(conns, dt, ps).is_some(),
    ensures
        ({
            let (i, lc) = conn_create_result(conns, dt, ps).unwrap();
            let after = conns.update(i, Some(lc));
            &&& unique_connections(after)
            &&& conn_create_result(after, dt, ps).is_none()
        }),
{
    let (i, lc) = conn_create_result(conns, dt, ps).unwrap();
    let after = conns.update(i, Some(lc));
    let f = lowest_free(conns).unwrap();
    assert(0 <= f < conns.len() && conns[f].is_none());
    assert(after[i] == Some(lc));
    assert(after.contains(Some(lc)));
    assert forall|a: int, b: int|
        0 <= a < after.len() && 0 <= b < after.len() && a != b && (#[trigger] after[a]).is_some()
            implies after[a] != #[trigger] after[b] by {
        if a == i {
            assert(after[b] == conns[b]);
            if conns[b] == Some(lc) {
                assert(conns.contains(Some(lc)));
            }
        } else if b == i {
            assert(after[a] == conns[a]);
            if conns[a] == Some(lc) {
                assert(conns.contains(Some(lc)));
            }
        } else {
            assert(after[a] == conns[a] && after[b] == conns[b]);
        }
    }
}

} // verus!
