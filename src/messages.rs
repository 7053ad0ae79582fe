//! Control messages the emulated NFCC understands and the replies it sends:
//! decoding of reassembled command bytes, and encoding of replies.
use vstd::prelude::*;
use crate::controller::{
    ConfigParameter, ConfigStatus, CoreConnCreateResponse, CoreGetConfigResponse,
    CoreInitResponse, CoreResetNotification, CoreSetConfigResponse, DestinationParameter,
    DestinationType, NciVersion, params_view, ResetTrigger, ResetType, Status,
};
use crate::packet::{copy_range, Opcode};

verus! {

/// Decoded NCI command.
pub enum Command {
    CoreReset(ResetType),
    CoreInit,
    CoreSetConfig(Vec<ConfigParameter>),
    CoreGetConfig(Vec<u8>),
    CoreConnCreate(DestinationType, Vec<DestinationParameter>),
    CoreConnClose(u8),
    CoreSetPowerSubState(u8),
    RfDiscoverMap,
    RfSetListenModeRouting,
    RfGetListenModeRouting,
    RfDiscover,
    RfDeactivate(u8),
    NfceeDiscover,
}

/// Why reassembled bytes are not a command the emulator handles.
#[derive(PartialEq, Eq, Structural, Clone, Copy, Debug)]
pub enum CommandError {
    /// Fewer than three bytes.
    Truncated,
    /// MT is not Command.
    NotACommand,
    /// No handler for this opcode.
    Unsupported(Opcode),
    /// The payload does not fit the command's layout.
    Malformed(Opcode),
}

/// Length-prefixed entries: `n` times an ID octet, a length octet, and that
/// many value octets, filling `b` exactly.
pub open spec fn tlv_list(b: Seq<u8>, n: nat) -> Option<Seq<(u8, Seq<u8>)>>
    decreases n,
{
    if n == 0 {
        if b.len() == 0 {
            Some(Seq::empty())
        } else {
            None
        }
    } else if b.len() < 2 || b.len() < 2 + b[1] {
        None
    } else {
        match tlv_list(b.skip(2 + b[1]), (n - 1) as nat) {
            Some(rest) => Some(seq![(b[0], b.subrange(2, 2 + b[1]))] + rest),
            None => None,
        }
    }
}

pub open spec fn spec_reset_type(v: u8) -> Option<ResetType> {
    if v == 0 {
        Some(ResetType::KeepConfig)
    } else if v == 1 {
        Some(ResetType::ResetConfig)
    } else {
        None
    }
}

pub open spec fn spec_destination_type(v: u8) -> Option<DestinationType> {
    if v == 1 {
        Some(DestinationType::NfccLoopback)
    } else if v == 2 {
        Some(DestinationType::RemoteNfcEndpoint)
    } else if v == 3 {
        Some(DestinationType::Nfcee)
    } else {
        None
    }
}


/// Whether `c` is the decoding of a command with opcode (`gid`, `oid`) and
/// payload `p`.
pub open spec fn decodes_to(gid: int, oid: int, p: Seq<u8>, c: Command) -> bool {
    match c {
        Command::CoreReset(t) => gid == 0 && oid == 0 && p.len() >= 1 && spec_reset_type(p[0]) == Some(t),
        Command::CoreInit => gid == 0 && oid == 1,
        Command::CoreSetConfig(ps) => gid == 0 && oid == 2 && p.len() >= 1 && tlv_list(p.skip(1), p[0] as nat)
            == Some(params_view(ps@)),
        Command::CoreGetConfig(ids) => gid == 0 && oid == 3 && p.len() >= 1 && p.len() == 1 + p[0]
            && ids@ == p.skip(1),
        Command::CoreConnCreate(dt, ps) => gid == 0 && oid == 4 && p.len() >= 2
            && spec_destination_type(p[0]) == Some(dt) && tlv_list(p.skip(2), p[1] as nat) == Some(
            params_view(ps@),
        ),
        Command::CoreConnClose(id) => gid == 0 && oid == 5 && p.len() >= 1 && id == p[0],
        Command::CoreSetPowerSubState(s) => gid == 0 && oid == 9 && p.len() >= 1 && s == p[0],
        Command::RfDiscoverMap => gid == 1 && oid == 0,
        Command::RfSetListenModeRouting => gid == 1 && oid == 1,
        Command::RfGetListenModeRouting => gid == 1 && oid == 2,
        Command::RfDiscover => gid == 1 && oid == 3,
        Command::RfDeactivate(t) => gid == 1 && oid == 6 && p.len() >= 1 && t == p[0],
        Command::NfceeDiscover => gid == 2 && oid == 0,
    }
}

/// Opcodes the emulator handles.
pub open spec fn supported(gid: int, oid: int) -> bool {
    (gid == 0 && (0 <= oid <= 5 || oid == 9)) || (gid == 1 && (0 <= oid <= 3 || oid == 6)) || (gid
        == 2 && oid == 0)
}

/// Decodes `n` length-prefixed entries filling `b[start..]` exactly.
fn parse_tlvs(b: &[u8], start: usize, n: u8) -> (r: Option<Vec<ConfigParameter>>)
    requires
        start <= b@.len(),
    ensures
        match r {
            Some(v) => tlv_list(b@.skip(start as int), n as nat) == Some(params_view(v@)),
            None => tlv_list(b@.skip(start as int), n as nat).is_none(),
        },
    decreases n,
{
    if n == 0 {
        if start == b.len() {
            let v: Vec<ConfigParameter> = Vec::new();
            assert(params_view(v@) =~= Seq::<(u8, Seq<u8>)>::empty());
            return Some(v);
        } else {
            return None;
        }
    }
    let ghost s = b@.skip(start as int);
    if b.len() - start < 2 || b.len() - start < 2 + b[start + 1] as usize {
        return None;
    }
    let len = b[start + 1] as usize;
    let value = copy_range(b, start + 2, start + 2 + len);
    assert(value@ =~= s.subrange(2, 2 + s[1]));
    assert(b@.skip(start + 2 + len) =~= s.skip(2 + s[1]));
    match parse_tlvs(b, start + 2 + len, n - 1) {
        None => None,
        Some(rest) => {
            let mut v: Vec<ConfigParameter> = Vec::new();
            v.push(ConfigParameter { id: b[start], value });
            let ghost rv = rest@;
            let mut rest = rest;
            v.append(&mut rest);
            assert(params_view(v@) =~= seq![(s[0], s.subrange(2, 2 + s[1]))] + params_view(rv));
            Some(v)
        },
    }
}

/// Whether payload `p` fits the layout of supported command (`gid`, `oid`).
pub open spec fn well_formed(gid: int, oid: int, p: Seq<u8>) -> bool {
    if gid == 0 && oid == 0 {
        p.len() >= 1 && spec_reset_type(p[0]).is_some()
    } else if gid == 0 && oid == 2 {
        p.len() >= 1 && tlv_list(p.skip(1), p[0] as nat).is_some()
    } else if gid == 0 && oid == 3 {
        p.len() >= 1 && p.len() == 1 + p[0]
    } else if gid == 0 && oid == 4 {
        p.len() >= 2 && spec_destination_type(p[0]).is_some() && tlv_list(p.skip(2), p[1] as nat).is_some()
    } else if (gid == 0 && (oid == 5 || oid == 9)) || (gid == 1 && oid == 6) {
        p.len() >= 1
    } else {
        true
    }
}

/// Decodes a reassembled command: header octets, then the whole payload.
/// The length octet is not consulted, as after reassembly it gives only the
/// last segment's length.
pub fn parse_command(msg: &[u8]) -> (r: Result<Command, CommandError>)
    ensures
        msg@.len() < 3 ==> r == Err::<Command, CommandError>(CommandError::Truncated),
        msg@.len() >= 3 ==> {
            let gid = msg@[0] as int % 16;
            let oid = msg@[1] as int % 64;
            let op = Opcode { gid: (msg@[0] % 16) as u8, oid: (msg@[1] % 64) as u8 };
            let p = msg@.skip(3);
            &&& msg@[0] as int / 32 != 1 ==> r == Err::<Command, CommandError>(CommandError::NotACommand)
            &&& msg@[0] as int / 32 == 1 && !supported(gid, oid) ==> r == Err::<Command, CommandError>(
                CommandError::Unsupported(op),
            )
            &&& msg@[0] as int / 32 == 1 && supported(gid, oid) && !well_formed(gid, oid, p) ==> r
                == Err::<Command, CommandError>(CommandError::Malformed(op))
            &&& msg@[0] as int / 32 == 1 && supported(gid, oid) && well_formed(gid, oid, p) ==> r is Ok
                && decodes_to(gid, oid, p, r->Ok_0)
        },
{
    if msg.len() < 3 {
        return Err(CommandError::Truncated);
    }
    if msg[0] / 32 != 1 {
        return Err(CommandError::NotACommand);
    }
    let gid = msg[0] % 16;
    let oid = msg[1] % 64;
    let op = Opcode { gid, oid };
    let ghost p = msg@.skip(3);
    let n = msg.len() - 3;
    if gid == 0 {
        if oid == 0 {
            if n < 1 {
                return Err(CommandError::Malformed(op));
            }
            if msg[3] == 0 {
                Ok(Command::CoreReset(ResetType::KeepConfig))
            } else if msg[3] == 1 {
                Ok(Command::CoreReset(ResetType::ResetConfig))
            } else {
                Err(CommandError::Malformed(op))
            }
        } else if oid == 1 {
            Ok(Command::CoreInit)
        } else if oid == 2 {
            if n < 1 {
                return Err(CommandError::Malformed(op));
            }
            assert(msg@.skip(4) =~= p.skip(1));
            match parse_tlvs(msg, 4, msg[3]) {
                Some(ps) => Ok(Command::CoreSetConfig(ps)),
                None => Err(CommandError::Malformed(op)),
            }
        } else if oid == 3 {
            if n < 1 || n != 1 + msg[3] as usize {
                return Err(CommandError::Malformed(op));
            }
            let ids = copy_range(msg, 4, msg.len());
            assert(ids@ =~= p.skip(1));
            Ok(Command::CoreGetConfig(ids))
        } else if oid == 4 {
            if n < 2 {
                return Err(CommandError::Malformed(op));
            }
            let dt = if msg[3] == 1 {
                DestinationType::NfccLoopback
            } else if msg[3] == 2 {
                DestinationType::RemoteNfcEndpoint
            } else if msg[3] == 3 {
                DestinationType::Nfcee
            } else {
                return Err(CommandError::Malformed(op));
            };
            assert(msg@.skip(5) =~= p.skip(2));
            match parse_tlvs(msg, 5, msg[4]) {
                Some(ps) => Ok(Command::CoreConnCreate(dt, ps)),
                None => Err(CommandError::Malformed(op)),
            }
        } else if oid == 5 {
            if n < 1 {
                return Err(CommandError::Malformed(op));
            }
            Ok(Command::CoreConnClose(msg[3]))
        } else if oid == 9 {
            if n < 1 {
                return Err(CommandError::Malformed(op));
            }
            Ok(Command::CoreSetPowerSubState(msg[3]))
        } else {
            Err(CommandError::Unsupported(op))
        }
    } else if gid == 1 {
        if oid == 0 {
            Ok(Command::RfDiscoverMap)
        } else if oid == 1 {
            Ok(Command::RfSetListenModeRouting)
        } else if oid == 2 {
            Ok(Command::RfGetListenModeRouting)
        } else if oid == 3 {
            Ok(Command::RfDiscover)
        } else if oid == 6 {
            if n < 1 {
                return Err(CommandError::Malformed(op));
            }
            Ok(Command::RfDeactivate(msg[3]))
        } else {
            Err(CommandError::Unsupported(op))
        }
    } else if gid == 2 && oid == 0 {
        Ok(Command::NfceeDiscover)
    } else {
        Err(CommandError::Unsupported(op))
    }
}

/// Deactivation reason "DH request".
pub const DEACTIVATION_REASON_DH_REQUEST: u8 = 0x00;

/// Wire value of the NFC-DEP RF interface.
pub const RF_INTERFACE_NFC_DEP: u8 = 0x03;

/// A response or notification sent by the emulated NFCC.
pub enum Reply {
    CoreResetResponse(Status),
    CoreResetNotification(CoreResetNotification),
    CoreInitResponse(CoreInitResponse),
    CoreSetConfigResponse(CoreSetConfigResponse),
    CoreGetConfigResponse(CoreGetConfigResponse),
    CoreConnCreateResponse(CoreConnCreateResponse),
    CoreConnCloseResponse(Status),
    CoreSetPowerSubStateResponse(Status),
    RfDiscoverMapResponse(Status),
    RfSetListenModeRoutingResponse(Status),
    RfGetListenModeRoutingResponse { status: Status, more_to_follow: u8 },
    RfDiscoverResponse(Status),
    RfDeactivateResponse(Status),
    RfDeactivateNotification { deactivation_type: u8, deactivation_reason: u8 },
    NfceeDiscoverResponse { status: Status, number_of_nfcees: u8 },
}

pub open spec fn trigger_value(t: ResetTrigger) -> u8 {
    match t {
        ResetTrigger::UnrecoverableError => 0,
        ResetTrigger::PowerOn => 1,
        ResetTrigger::ResetCommand => 2,
    }
}

pub open spec fn config_status_value(c: ConfigStatus) -> u8 {
    match c {
        ConfigStatus::ConfigKept => 0,
        ConfigStatus::ConfigReset => 1,
    }
}

pub open spec fn version_value(v: NciVersion) -> u8 {
    match v {
        NciVersion::Version10 => 0x10,
        NciVersion::Version11 => 0x11,
        NciVersion::Version20 => 0x20,
    }
}

/// Big-endian octets of a 16-bit field.
pub open spec fn be16(v: u16) -> Seq<u8> {
    seq![(v / 256) as u8, (v % 256) as u8]
}

/// Wire form of (ID, value) entries, each as ID, length, value.
pub open spec fn entries_bytes(ps: Seq<(u8, Seq<u8>)>) -> Seq<u8>
    decreases ps.len(),
{
    if ps.len() == 0 {
        Seq::empty()
    } else {
        entries_bytes(ps.drop_last()) + seq![ps.last().0, ps.last().1.len() as u8] + ps.last().1
    }
}

/// Message type (2 = Response, 3 = Notification), GID and OID of a reply.
pub open spec fn reply_header(r: Reply) -> (u8, u8, u8) {
    match r {
        Reply::CoreResetResponse(_) => (2, 0, 0),
        Reply::CoreResetNotification(_) => (3, 0, 0),
        Reply::CoreInitResponse(_) => (2, 0, 1),
        Reply::CoreSetConfigResponse(_) => (2, 0, 2),
        Reply::CoreGetConfigResponse(_) => (2, 0, 3),
        Reply::CoreConnCreateResponse(_) => (2, 0, 4),
        Reply::CoreConnCloseResponse(_) => (2, 0, 5),
        Reply::CoreSetPowerSubStateResponse(_) => (2, 0, 9),
        Reply::RfDiscoverMapResponse(_) => (2, 1, 0),
        Reply::RfSetListenModeRoutingResponse(_) => (2, 1, 1),
        Reply::RfGetListenModeRoutingResponse { .. } => (2, 1, 2),
        Reply::RfDiscoverResponse(_) => (2, 1, 3),
        Reply::RfDeactivateResponse(_) => (2, 1, 6),
        Reply::RfDeactivateNotification { .. } => (3, 1, 6),
        Reply::NfceeDiscoverResponse { .. } => (2, 2, 0),
    }
}

/// Payload of a reply.
pub open spec fn reply_payload(r: Reply) -> Seq<u8> {
    match r {
        Reply::CoreResetResponse(s) => seq![s.spec_value()],
        Reply::CoreResetNotification(n) => seq![
            trigger_value(n.trigger),
            config_status_value(n.config_status),
            version_value(n.nci_version),
            n.manufacturer_id,
            0u8,
        ],
        Reply::CoreInitResponse(i) => seq![i.status.spec_value(), 0u8, 0u8, 0u8, 0u8, i.max_logical_connections]
            + be16(i.max_routing_table_size) + seq![
            i.max_control_packet_payload_size,
            i.max_data_packet_payload_size,
            i.number_of_credits,
        ] + be16(i.max_nfcv_rf_frame_size) + seq![1u8, RF_INTERFACE_NFC_DEP, 0u8],
        Reply::CoreSetConfigResponse(c) => seq![c.status.spec_value(), c.parameters@.len() as u8]
            + c.parameters@,
        Reply::CoreGetConfigResponse(c) => seq![c.status.spec_value(), c.parameters@.len() as u8]
            + entries_bytes(params_view(c.parameters@)),
        Reply::CoreConnCreateResponse(c) => seq![
            c.status.spec_value(),
            c.max_data_packet_payload_size,
            c.initial_number_of_credits,
            c.conn_id,
        ],
        Reply::CoreConnCloseResponse(s) => seq![s.spec_value()],
        Reply::CoreSetPowerSubStateResponse(s) => seq![s.spec_value()],
        Reply::RfDiscoverMapResponse(s) => seq![s.spec_value()],
        Reply::RfSetListenModeRoutingResponse(s) => seq![s.spec_value()],
        Reply::RfGetListenModeRoutingResponse { status, more_to_follow } => seq![
            status.spec_value(),
            more_to_follow,
            0u8,
        ],
        Reply::RfDiscoverResponse(s) => seq![s.spec_value()],
        Reply::RfDeactivateResponse(s) => seq![s.spec_value()],
        Reply::RfDeactivateNotification { deactivation_type, deactivation_reason } => seq![
            deactivation_type,
            deactivation_reason,
        ],
        Reply::NfceeDiscoverResponse { status, number_of_nfcees } => seq![
            status.spec_value(),
            number_of_nfcees,
        ],
    }
}

/// Wire form of a reply: header, then payload. The length octet holds the
/// payload length modulo 256; segmentation rewrites it per segment.
pub open spec fn reply_bytes(r: Reply) -> Seq<u8> {
    let h = reply_header(r);
    let p = reply_payload(r);
    seq![(h.0 * 32 + h.1) as u8, h.2, (p.len() % 256) as u8] + p
}

fn push_all(out: &mut Vec<u8>, b: &[u8])
    ensures
        final(out)@ == old(out)@ + b@,
{
    let mut i: usize = 0;
    while i < b.len()
        invariant
            i <= b@.len(),
            out@ == old(out)@ + b@.take(i as int),
        decreases b@.len() - i,
    {
        out.push(b[i]);
        i = i + 1;
        assert(out@ =~= old(out)@ + b@.take(i as int));
    }
    assert(b@.take(b@.len() as int) =~= b@);
}

fn trigger_octet(t: ResetTrigger) -> (r: u8)
    ensures
        r == trigger_value(t),
{
    match t {
        ResetTrigger::UnrecoverableError => 0,
        ResetTrigger::PowerOn => 1,
        ResetTrigger::ResetCommand => 2,
    }
}

fn config_status_octet(c: ConfigStatus) -> (r: u8)
    ensures
        r == config_status_value(c),
{
    match c {
        ConfigStatus::ConfigKept => 0,
        ConfigStatus::ConfigReset => 1,
    }
}

fn version_octet(v: NciVersion) -> (r: u8)
    ensures
        r == version_value(v),
{
    match v {
        NciVersion::Version10 => 0x10,
        NciVersion::Version11 => 0x11,
        NciVersion::Version20 => 0x20,
    }
}

impl Reply {
    fn header(&self) -> (r: (u8, u8, u8))
        ensures
            r == reply_header(*self),
    {
        match self {
            Reply::CoreResetResponse(_) => (2, 0, 0),
            Reply::CoreResetNotification(_) => (3, 0, 0),
            Reply::CoreInitResponse(_) => (2, 0, 1),
            Reply::CoreSetConfigResponse(_) => (2, 0, 2),
            Reply::CoreGetConfigResponse(_) => (2, 0, 3),
            Reply::CoreConnCreateResponse(_) => (2, 0, 4),
            Reply::CoreConnCloseResponse(_) => (2, 0, 5),
            Reply::CoreSetPowerSubStateResponse(_) => (2, 0, 9),
            Reply::RfDiscoverMapResponse(_) => (2, 1, 0),
            Reply::RfSetListenModeRoutingResponse(_) => (2, 1, 1),
            Reply::RfGetListenModeRoutingResponse { .. } => (2, 1, 2),
            Reply::RfDiscoverResponse(_) => (2, 1, 3),
            Reply::RfDeactivateResponse(_) => (2, 1, 6),
            Reply::RfDeactivateNotification { .. } => (3, 1, 6),
            Reply::NfceeDiscoverResponse { .. } => (2, 2, 0),
        }
    }

    /// The reply's payload.
    pub fn payload(&self) -> (r: Vec<u8>)
        ensures
            r@ == reply_payload(*self),
    {
        let mut out: Vec<u8> = Vec::new();
        match self {
            Reply::CoreResetResponse(s) | Reply::CoreConnCloseResponse(s)
            | Reply::CoreSetPowerSubStateResponse(s) | Reply::RfDiscoverMapResponse(s)
            | Reply::RfSetListenModeRoutingResponse(s) | Reply::RfDiscoverResponse(s)
            | Reply::RfDeactivateResponse(s) => {
                out.push(s.value());
            },
            Reply::CoreResetNotification(n) => {
                out.push(trigger_octet(n.trigger));
                out.push(config_status_octet(n.config_status));
                out.push(version_octet(n.nci_version));
                out.push(n.manufacturer_id);
                out.push(0);
            },
            Reply::CoreInitResponse(i) => {
                out.push(i.status.value());
                out.push(0);
                out.push(0);
                out.push(0);
                out.push(0);
                out.push(i.max_logical_connections);
                out.push((i.max_routing_table_size / 256) as u8);
                out.push((i.max_routing_table_size % 256) as u8);
                out.push(i.max_control_packet_payload_size);
                out.push(i.max_data_packet_payload_size);
                out.push(i.number_of_credits);
                out.push((i.max_nfcv_rf_frame_size / 256) as u8);
                out.push((i.max_nfcv_rf_frame_size % 256) as u8);
                out.push(1);
                out.push(RF_INTERFACE_NFC_DEP);
                out.push(0);
            },
            Reply::CoreSetConfigResponse(c) => {
                out.push(c.status.value());
                out.push(c.parameters.len() as u8);
                push_all(&mut out, c.parameters.as_slice());
            },
            Reply::CoreGetConfigResponse(c) => {
                out.push(c.status.value());
                out.push(c.parameters.len() as u8);
                let ghost start = out@;
                let ghost pv = params_view(c.parameters@);
                let mut i: usize = 0;
                while i < c.parameters.len()
                    invariant
                        pv == params_view(c.parameters@),
                        i <= c.parameters@.len(),
                        out@ == start + entries_bytes(pv.take(i as int)),
                    decreases c.parameters@.len() - i,
                {
                    let e = &c.parameters[i];
                    assert(pv.take(i + 1).drop_last() =~= pv.take(i as int));
                    out.push(e.id);
                    out.push(e.value.len() as u8);
                    push_all(&mut out, e.value.as_slice());
                    i = i + 1;
                    assert(out@ =~= start + entries_bytes(pv.take(i as int)));
                }
                assert(pv.take(c.parameters@.len() as int) =~= pv);
            },
            Reply::CoreConnCreateResponse(c) => {
                out.push(c.status.value());
                out.push(c.max_data_packet_payload_size);
                out.push(c.initial_number_of_credits);
                out.push(c.conn_id);
            },
            Reply::RfGetListenModeRoutingResponse { status, more_to_follow } => {
                out.push(status.value());
                out.push(*more_to_follow);
                out.push(0);
            },
            Reply::RfDeactivateNotification { deactivation_type, deactivation_reason } => {
                out.push(*deactivation_type);
                out.push(*deactivation_reason);
            },
            Reply::NfceeDiscoverResponse { status, number_of_nfcees } => {
                out.push(status.value());
                out.push(*number_of_nfcees);
            },
        }
        assert(out@ =~= reply_payload(*self));
        out
    }

    /// The reply as one message: header, then payload.
    pub fn to_bytes(&self) -> (r: Vec<u8>)
        ensures
            r@ == reply_bytes(*self),
    {
        let (mt, gid, oid) = self.header();
        let mut payload = self.payload();
        let mut out: Vec<u8> = Vec::new();
        out.push(mt * 32 + gid);
        out.push(oid);
        out.push((payload.len() % 256) as u8);
        out.append(&mut payload);
        assert(out@ =~= reply_bytes(*self));
        out
    }
}

} // verus!
