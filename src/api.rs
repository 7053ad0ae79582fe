//! Decisions of the host's NFC API: which command each call sends, and what
//! it does with the response. The caller sends the commands and awaits the
//! responses; the registry is the one shared with the dispatcher.
use vstd::prelude::*;
use crate::connections::{
    drained_from, split_packet, CallbackCall, ConnectionParameters, LogicalConnectionsRegistry,
    RegistryError, STATIC_HCI_CONN_ID, STATIC_RF_CONN_ID,
};
use crate::controller::Status;
use crate::packet::{
    copy_range, data_error, packets_view, spec_data_packet, ControlPacket, DataPacket, MessageType,
    PacketBoundaryFlag,
};

verus! {

/// What the host keeps of CORE_INIT_RSP.
#[derive(PartialEq, Eq, Structural, Clone, Copy, Debug)]
pub struct InitInfo {
    pub max_routing_table_size: u16,
    pub max_data_payload: u8,
    pub num_of_credits: u8,
}

/// Event code of the connection callback: connection created.
pub const NFC_CONN_CREATE_CEVT: u16 = 0;

/// Event code of the connection callback: connection closed.
pub const NFC_CONN_CLOSE_CEVT: u16 = 1;

/// Destination types a host may ask for.
pub const DEST_NFCC_LOOPBACK: u8 = 1;
pub const DEST_REMOTE: u8 = 2;
pub const DEST_NFCEE: u8 = 3;

/// Destination-specific parameter types.
pub const DEST_PARAM_RF_DISCOVERY: u8 = 0;
pub const DEST_PARAM_NFCEE: u8 = 1;

/// Payload of CORE_CONN_CREATE_CMD for a destination: its type, then no
/// parameter for the loopback, or one parameter (RF discovery for a remote
/// endpoint, NFCEE for an NFCEE) holding `id` and `protocol`.
pub open spec fn conn_create_payload(dest_type: u8, id: u8, protocol: u8) -> Seq<u8> {
    if dest_type == DEST_NFCC_LOOPBACK {
        seq![dest_type, 0u8]
    } else if dest_type == DEST_REMOTE {
        seq![dest_type, 1u8, DEST_PARAM_RF_DISCOVERY, 2u8, id, protocol]
    } else {
        seq![dest_type, 1u8, DEST_PARAM_NFCEE, 2u8, id, protocol]
    }
}

/// A Core command with GID 0, opcode `oid` and `payload`.
pub open spec fn is_core_command(p: ControlPacket, oid: u8, payload: Seq<u8>) -> bool {
    &&& p.wf()
    &&& p.mt == MessageType::Command
    &&& p.pbf == PacketBoundaryFlag::CompleteOrFinal
    &&& p.gid == 0
    &&& p.oid == oid
    &&& p.payload@ == payload
}

fn core_command(oid: u8, payload: Vec<u8>) -> (r: ControlPacket)
    requires
        oid < 64,
        payload@.len() <= 255,
    ensures
        is_core_command(r, oid, payload@),
{
    ControlPacket { mt: MessageType::Command, pbf: PacketBoundaryFlag::CompleteOrFinal, gid: 0, oid, payload }
}

/// What the host reads of CORE_INIT_RSP's payload `p`, laid out as the
/// emulator sends it (routing table size big-endian at octets 6-7, data
/// payload limit at 9, credits at 10).
pub open spec fn spec_init_info(p: Seq<u8>) -> Option<InitInfo> {
    if p.len() < 13 {
        None
    } else {
        Some(
            InitInfo {
                max_routing_table_size: (p[6] as int * 256 + p[7] as int) as u16,
                max_data_payload: p[9],
                num_of_credits: p[10],
            },
        )
    }
}

/// Reads CORE_INIT_RSP's payload.
pub fn parse_init_response(p: &[u8]) -> (r: Option<InitInfo>)
    ensures
        r == spec_init_info(p@),
{
    if p.len() < 13 {
        return None;
    }
    Some(
        InitInfo {
            max_routing_table_size: p[6] as u16 * 256 + p[7] as u16,
            max_data_payload: p[9],
            num_of_credits: p[10],
        },
    )
}

/// Host API state kept between calls. `C` is the connection callback handle.
pub struct NciApi<C> {
    init_response: Option<InitInfo>,
    rf_callback: Option<C>,
    hci_callback: Option<C>,
}

impl<C: Copy> NciApi<C> {
    pub closed spec fn spec_init_response(&self) -> Option<InitInfo> {
        self.init_response
    }

    pub closed spec fn spec_rf_callback(&self) -> Option<C> {
        self.rf_callback
    }

    pub closed spec fn spec_hci_callback(&self) -> Option<C> {
        self.hci_callback
    }

    pub fn new() -> (r: Self)
        ensures
            r.spec_init_response().is_none(),
            r.spec_rf_callback().is_none(),
            r.spec_hci_callback().is_none(),
    {
        NciApi { init_response: None, rf_callback: None, hci_callback: None }
    }

    /// The commands NFC_Init sends, in order: CORE_RESET_CMD resetting the
    /// configuration, then CORE_INIT_CMD.
    pub fn nfc_init_commands(&self) -> (r: (ControlPacket, ControlPacket))
        ensures
            is_core_command(r.0, 0, seq![1u8]),
            is_core_command(r.1, 1, seq![0u8, 0u8]),
    {
        let rp = vec![1u8];
        assert(rp@ =~= seq![1u8]);
        let ip = vec![0u8, 0u8];
        assert(ip@ =~= seq![0u8, 0u8]);
        let reset = core_command(0, rp);
        let init = core_command(1, ip);
        (reset, init)
    }

    /// Completes NFC_Init once CORE_INIT_RSP's payload is in: opens the
    /// static RF connection (Conn ID 0, no payload limit, no credits) and the
    /// static HCI connection (Conn ID 1, with the NFCC's data payload limit
    /// and credits), and keeps the response. A payload too short to read, or
    /// a static connection already open, is an error that changes nothing.
    pub fn nfc_init(
        &mut self,
        conns: &mut LogicalConnectionsRegistry<C>,
        init_rsp: &[u8],
    ) -> (r: Result<(), RegistryError>)
        ensures
            init_rsp@.len() < 13 ==> r is Ok && *final(self) == *old(self) && final(conns)@ == old(
                conns,
            )@,
            init_rsp@.len() >= 13 && (old(conns)@.contains_key(STATIC_RF_CONN_ID) || old(
                conns,
            )@.contains_key(STATIC_HCI_CONN_ID)) ==> {
                &&& r == Err::<(), RegistryError>(RegistryError::AlreadyOpen)
                &&& *final(self) == *old(self)
                &&& final(conns)@ == old(conns)@
            },
            init_rsp@.len() >= 13 && !old(conns)@.contains_key(STATIC_RF_CONN_ID) && !old(
                conns,
            )@.contains_key(STATIC_HCI_CONN_ID) ==> {
                let info = spec_init_info(init_rsp@).unwrap();
                &&& r is Ok
                &&& final(self).spec_init_response() == spec_init_info(init_rsp@)
                &&& final(self).spec_rf_callback() == old(self).spec_rf_callback()
                &&& final(self).spec_hci_callback() == old(self).spec_hci_callback()
                &&& final(conns)@.dom() == old(conns)@.dom().insert(STATIC_RF_CONN_ID).insert(
                    STATIC_HCI_CONN_ID,
                )
                &&& forall|k: u8|
                    k != STATIC_RF_CONN_ID && k != STATIC_HCI_CONN_ID && old(conns)@.contains_key(k)
                        ==> #[trigger] final(conns)@[k] == old(conns)@[k]
                &&& final(conns)@[STATIC_RF_CONN_ID].callback == old(self).spec_rf_callback()
                &&& final(conns)@[STATIC_RF_CONN_ID].max_payload_size == 0
                &&& final(conns)@[STATIC_RF_CONN_ID].nfcc_credits_avail == 0
                &&& final(conns)@[STATIC_RF_CONN_ID].sendq@.len() == 0
                &&& final(conns)@[STATIC_RF_CONN_ID].recvq@.len() == 0
                &&& final(conns)@[STATIC_HCI_CONN_ID].callback == old(self).spec_hci_callback()
                &&& final(conns)@[STATIC_HCI_CONN_ID].max_payload_size == info.max_data_payload
                &&& final(conns)@[STATIC_HCI_CONN_ID].nfcc_credits_avail == info.num_of_credits
                &&& final(conns)@[STATIC_HCI_CONN_ID].sendq@.len() == 0
                &&& final(conns)@[STATIC_HCI_CONN_ID].recvq@.len() == 0
            },
    {
        let info = match parse_init_response(init_rsp) {
            Some(i) => i,
            None => {
                return Ok(());
            },
        };
        if conns.is_open(STATIC_RF_CONN_ID) || conns.is_open(STATIC_HCI_CONN_ID) {
            return Err(RegistryError::AlreadyOpen);
        }
        let _ = conns.open(STATIC_RF_CONN_ID, self.rf_callback, 0, 0);
        let _ = conns.open(STATIC_HCI_CONN_ID, self.hci_callback, info.max_data_payload, info.num_of_credits);
        self.init_response = Some(info);
        Ok(())
    }

    /// Size of the listen mode routing table the NFCC supports, 0 before
    /// initialization.
    pub fn nfc_get_lmrt_size(&self) -> (r: u16)
        ensures
            r == match self.spec_init_response() {
                Some(i) => i.max_routing_table_size,
                None => 0,
            },
    {
        match &self.init_response {
            Some(i) => i.max_routing_table_size,
            None => 0,
        }
    }

    /// CORE_SET_CONFIG_CMD carrying the parameter TLVs as given.
    pub fn nfc_set_config(&self, param_tlvs: &[u8]) -> (r: ControlPacket)
        requires
            param_tlvs@.len() <= 255,
        ensures
            is_core_command(r, 2, param_tlvs@),
    {
        let p = copy_range(param_tlvs, 0, param_tlvs.len());
        assert(p@ =~= param_tlvs@);
        core_command(2, p)
    }

    /// CORE_GET_CONFIG_CMD carrying the parameter IDs as given.
    pub fn nfc_get_config(&self, param_ids: &[u8]) -> (r: ControlPacket)
        requires
            param_ids@.len() <= 255,
        ensures
            is_core_command(r, 3, param_ids@),
    {
        let p = copy_range(param_ids, 0, param_ids.len());
        assert(p@ =~= param_ids@);
        core_command(3, p)
    }

    /// CORE_CONN_CREATE_CMD for a destination, or status InvalidParam for a
    /// destination type that is not loopback, remote endpoint or NFCEE.
    pub fn nfc_conn_create(&self, dest_type: u8, id: u8, protocol: u8) -> (r: Result<ControlPacket, u8>)
        ensures
            (dest_type == DEST_NFCC_LOOPBACK || dest_type == DEST_REMOTE || dest_type == DEST_NFCEE) ==> r is Ok
                && is_core_command(r->Ok_0, 4, conn_create_payload(dest_type, id, protocol)),
            !(dest_type == DEST_NFCC_LOOPBACK || dest_type == DEST_REMOTE || dest_type == DEST_NFCEE)
                ==> r == Err::<ControlPacket, u8>(Status::InvalidParam.spec_value()),
    {
        let mut payload: Vec<u8> = Vec::new();
        payload.push(dest_type);
        if dest_type == DEST_NFCC_LOOPBACK {
            payload.push(0);
        } else if dest_type == DEST_REMOTE || dest_type == DEST_NFCEE {
            payload.push(1);
            payload.push(if dest_type == DEST_REMOTE { DEST_PARAM_RF_DISCOVERY } else { DEST_PARAM_NFCEE });
            payload.push(2);
            payload.push(id);
            payload.push(protocol);
        } else {
            return Err(Status::InvalidParam.value());
        }
        assert(payload@ =~= conn_create_payload(dest_type, id, protocol));
        Ok(core_command(4, payload))
    }

    /// Acts on CORE_CONN_CREATE_RSP's payload (status, payload limit,
    /// credits, Conn ID). On status Ok the connection is opened with
    /// `callback` and the callback gets a create event: status, destination
    /// type, ID, payload limit, credits. Returns the status, or Failed for a
    /// payload too short to read. An already open Conn ID is an error.
    pub fn nfc_conn_create_complete(
        &self,
        conns: &mut LogicalConnectionsRegistry<C>,
        dest_type: u8,
        id: u8,
        rsp: &[u8],
        callback: C,
    ) -> (r: Result<(u8, Option<CallbackCall<C>>), RegistryError>)
        ensures
            rsp@.len() < 4 ==> r == Ok::<(u8, Option<CallbackCall<C>>), RegistryError>(
                (Status::Failed.spec_value(), None),
            ) && final(conns)@ == old(conns)@,
            rsp@.len() >= 4 && rsp@[0] != Status::Success.spec_value() ==> r == Ok::<
                (u8, Option<CallbackCall<C>>),
                RegistryError,
            >((rsp@[0], None)) && final(conns)@ == old(conns)@,
            rsp@.len() >= 4 && rsp@[0] == Status::Success.spec_value() && old(conns)@.contains_key(
                rsp@[3],
            ) ==> r == Err::<(u8, Option<CallbackCall<C>>), RegistryError>(
                RegistryError::AlreadyOpen,
            ) && final(conns)@ == old(conns)@,
            rsp@.len() >= 4 && rsp@[0] == Status::Success.spec_value() && !old(conns)@.contains_key(
                rsp@[3],
            ) ==> {
                let c = rsp@[3];
                &&& r is Ok
                &&& r->Ok_0.0 == Status::Success.spec_value()
                &&& r->Ok_0.1 is Some
                &&& r->Ok_0.1->Some_0.callback == Some(callback)
                &&& r->Ok_0.1->Some_0.conn_id == c
                &&& r->Ok_0.1->Some_0.event == NFC_CONN_CREATE_CEVT
                &&& r->Ok_0.1->Some_0.data@ == seq![rsp@[0], dest_type, id, rsp@[1], rsp@[2]]
                &&& final(conns)@.dom() == old(conns)@.dom().insert(c)
                &&& forall|k: u8|
                    k != c && old(conns)@.contains_key(k) ==> #[trigger] final(conns)@[k] == old(
                        conns,
                    )@[k]
                &&& final(conns)@[c].callback == Some(callback)
                &&& final(conns)@[c].max_payload_size == rsp@[1]
                &&& final(conns)@[c].nfcc_credits_avail == rsp@[2]
                &&& final(conns)@[c].sendq@.len() == 0
                &&& final(conns)@[c].recvq@.len() == 0
            },
    {
        if rsp.len() < 4 {
            return Ok((Status::Failed.value(), None));
        }
        let status = rsp[0];
        if status != Status::Success.value() {
            return Ok((status, None));
        }
        let (mpps, ncreds, conn_id) = (rsp[1], rsp[2], rsp[3]);
        conns.open(conn_id, Some(callback), mpps, ncreds)?;
        let data = vec![status, dest_type, id, mpps, ncreds];
        Ok((status, Some(CallbackCall { callback: Some(callback), conn_id, event: NFC_CONN_CREATE_CEVT, data })))
    }

    /// First step of NFC_ConnClose: forgets the connection and returns its
    /// callback with the CORE_CONN_CLOSE_CMD to send, or status InvalidParam
    /// when no connection with a callback was open under that ID.
    pub fn nfc_conn_close(
        &self,
        conns: &mut LogicalConnectionsRegistry<C>,
        conn_id: u8,
    ) -> (r: Result<(C, ControlPacket), u8>)
        ensures
            final(conns)@ == old(conns)@.remove(conn_id),
            old(conns)@.contains_key(conn_id) && old(conns)@[conn_id].callback is Some ==> r is Ok
                && r->Ok_0.0 == old(conns)@[conn_id].callback->Some_0
                && is_core_command(r->Ok_0.1, 5, seq![conn_id]),
            !(old(conns)@.contains_key(conn_id) && old(conns)@[conn_id].callback is Some) ==> r == Err::<(C, ControlPacket), u8>(
                Status::InvalidParam.spec_value(),
            ),
    {
        match conns.close(conn_id) {
            Some(cb) => {
                let p = vec![conn_id];
                assert(p@ =~= seq![conn_id]);
                Ok((cb, core_command(5, p)))
            },
            None => Err(Status::InvalidParam.value()),
        }
    }

    /// Acts on CORE_CONN_CLOSE_RSP's payload: its status, and the close event
    /// for the connection's callback; Failed, with no event, when the
    /// payload is empty.
    pub fn nfc_conn_close_complete(&self, conn_id: u8, callback: C, rsp: &[u8]) -> (r: (u8, Option<CallbackCall<C>>))
        ensures
            rsp@.len() == 0 ==> r.0 == Status::Failed.spec_value() && r.1.is_none(),
            rsp@.len() > 0 ==> {
                &&& r.0 == rsp@[0]
                &&& r.1 is Some
                &&& r.1->Some_0.callback == Some(callback)
                &&& r.1->Some_0.conn_id == conn_id
                &&& r.1->Some_0.event == NFC_CONN_CLOSE_CEVT
                &&& r.1->Some_0.data@ == seq![rsp@[0]]
            },
    {
        if rsp.len() == 0 {
            return (Status::Failed.value(), None);
        }
        let status = rsp[0];
        let call = CallbackCall {
            callback: Some(callback),
            conn_id,
            event: NFC_CONN_CLOSE_CEVT,
            data: vec![status],
        };
        (status, Some(call))
    }

    /// Sets the static RF connection's callback, now and for a later
    /// initialization.
    pub fn nfc_set_static_rf_callback(&mut self, conns: &mut LogicalConnectionsRegistry<C>, callback: C)
        ensures
            final(self).spec_rf_callback() == Some(callback),
            final(self).spec_hci_callback() == old(self).spec_hci_callback(),
            final(self).spec_init_response() == old(self).spec_init_response(),
            old(conns)@.contains_key(STATIC_RF_CONN_ID) ==> final(conns)@ == old(conns)@.insert(
                STATIC_RF_CONN_ID,
                ConnectionParameters { callback: Some(callback), ..old(conns)@[STATIC_RF_CONN_ID] },
            ),
            !old(conns)@.contains_key(STATIC_RF_CONN_ID) ==> final(conns)@ == old(conns)@,
    {
        self.rf_callback = Some(callback);
        conns.set_static_callback(STATIC_RF_CONN_ID, Some(callback));
    }

    /// Sets the static HCI connection's callback, now and for a later
    /// initialization.
    pub fn nfc_set_static_hci_callback(&mut self, conns: &mut LogicalConnectionsRegistry<C>, callback: C)
        ensures
            final(self).spec_hci_callback() == Some(callback),
            final(self).spec_rf_callback() == old(self).spec_rf_callback(),
            final(self).spec_init_response() == old(self).spec_init_response(),
            old(conns)@.contains_key(STATIC_HCI_CONN_ID) ==> final(conns)@ == old(conns)@.insert(
                STATIC_HCI_CONN_ID,
                ConnectionParameters { callback: Some(callback), ..old(conns)@[STATIC_HCI_CONN_ID] },
            ),
            !old(conns)@.contains_key(STATIC_HCI_CONN_ID) ==> final(conns)@ == old(conns)@,
    {
        self.hci_callback = Some(callback);
        conns.set_static_callback(STATIC_HCI_CONN_ID, Some(callback));
    }

    /// NFC_SendData: a framed data packet is queued on the connection (and
    /// what its credits allow goes to the transport, returned); status Ok.
    /// Bytes that are not a data packet give status InvalidParam.
    pub fn nfc_send_data(
        &self,
        conns: &mut LogicalConnectionsRegistry<C>,
        conn_id: u8,
        data: &[u8],
    ) -> (r: (u8, Vec<DataPacket>))
        ensures
            data_error(data@).is_some() ==> r.0 == Status::InvalidParam.spec_value() && r.1@.len() == 0
                && final(conns)@ == old(conns)@,
            data_error(data@).is_none() ==> {
                &&& r.0 == Status::Success.spec_value()
                &&& !old(conns)@.contains_key(conn_id) ==> final(conns)@ == old(conns)@ && r.1@.len() == 0
                &&& old(conns)@.contains_key(conn_id) ==> {
                    let o = old(conns)@[conn_id];
                    &&& final(conns)@.dom() == old(conns)@.dom()
                    &&& final(conns)@.remove(conn_id) == old(conns)@.remove(conn_id)
                    &&& drained_from(
                        o,
                        o.nfcc_credits_avail,
                        packets_view(o.sendq@) + split_packet(spec_data_packet(data@), o.max_payload_size as nat),
                        final(conns)@[conn_id],
                        packets_view(r.1@),
                    )
                }
            },
    {
        match DataPacket::parse(data) {
            Ok(pkt) => {
                let out = conns.send_packet(conn_id, pkt);
                (Status::Success.value(), out)
            },
            Err(_) => (Status::InvalidParam.value(), Vec::new()),
        }
    }

    /// NFC_FlushData: status Ok when the connection's send queue was
    /// discarded, Failed when no such connection is open.
    pub fn nfc_flush_data(&self, conns: &mut LogicalConnectionsRegistry<C>, conn_id: u8) -> (r: u8)
        ensures
            r == (if old(conns)@.contains_key(conn_id) {
                Status::Success.spec_value()
            } else {
                Status::Failed.spec_value()
            }),
            old(conns)@.contains_key(conn_id) ==> final(conns)@.dom() == old(conns)@.dom()
                && final(conns)@[conn_id].sendq@.len() == 0,
            !old(conns)@.contains_key(conn_id) ==> final(conns)@ == old(conns)@,
    {
        if conns.flush_data(conn_id) {
            Status::Success.value()
        } else {
            Status::Failed.value()
        }
    }

    /// NFC_DiscoveryMap is accepted without effect: status Ok.
    pub fn nfc_discovery_map(&self) -> (r: u8)
        ensures
            r == Status::Success.spec_value(),
    {
        Status::Success.value()
    }
}

} // verus!
