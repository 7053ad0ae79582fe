//! Hardware abstraction layer logic: events from the NFC HAL, sorting of
//! inbound packets into control and data, and the length-prefixed framing
//! of the socket transport.
use vstd::prelude::*;
use crate::packet::{
    control_error, data_error, is_control_packet, mt_bits, pbf_bit, spec_mt_value, spec_pbf_value,
    ControlPacket, DataPacket, ParseError,
};

verus! {

/// Events the NFC HAL reports.
#[derive(PartialEq, Eq, Structural, Clone, Copy, Debug)]
pub enum NfcEvent {
    OpenComplete,
    CloseComplete,
    PostInitComplete,
    PreDiscoverComplete,
    RequestControl,
    ReleaseControl,
    Error,
    HciNetworkReset,
}

/// Status that accompanies a HAL event.
#[derive(PartialEq, Eq, Structural, Clone, Copy, Debug)]
pub enum NfcStatus {
    /// Success.
    Success,
    Failed,
    ErrTransport,
    ErrCmdTimeout,
    Refused,
}

/// Whether a HAL event signals that the HAL is open and ready: only
/// OPEN_CPLT does, whatever its status.
pub fn on_event(evt: NfcEvent, status: NfcStatus) -> (r: bool)
    ensures
        r == (evt == NfcEvent::OpenComplete),
{
    evt == NfcEvent::OpenComplete
}

/// An inbound packet, sorted by kind.
pub enum HalPacket {
    Control(ControlPacket),
    Data(DataPacket),
}

/// Sorts and parses a whole inbound packet: control when MT is not Data.
/// A packet that does not parse is reported, to be dropped.
pub fn on_data(data: &[u8]) -> (r: Result<HalPacket, ParseError>)
    ensures
        data@.len() == 0 ==> r == Err::<HalPacket, ParseError>(ParseError::TooShort),
        data@.len() > 0 && mt_bits(data@[0]) != 0 ==> match r {
            Ok(HalPacket::Control(p)) => {
                &&& control_error(data@).is_none()
                &&& spec_mt_value(p.mt) == mt_bits(data@[0])
                &&& spec_pbf_value(p.pbf) == pbf_bit(data@[0])
                &&& p.gid as int == data@[0] as int % 16
                &&& p.oid as int == data@[1] as int % 64
                &&& p.payload@ == data@.skip(3)
            },
            Ok(HalPacket::Data(_)) => false,
            Err(e) => control_error(data@) == Some(e),
        },
        data@.len() > 0 && mt_bits(data@[0]) == 0 ==> match r {
            Ok(HalPacket::Data(p)) => {
                &&& data_error(data@).is_none()
                &&& spec_pbf_value(p.pbf) == pbf_bit(data@[0])
                &&& p.conn_id as int == data@[0] as int % 16
                &&& p.cr as int == data@[1] as int / 64
                &&& p.payload@ == data@.skip(3)
            },
            Ok(HalPacket::Control(_)) => false,
            Err(e) => data_error(data@) == Some(e),
        },
{
    if data.len() == 0 {
        return Err(ParseError::TooShort);
    }
    if is_control_packet(data) {
        match ControlPacket::parse(data) {
            Ok(p) => Ok(HalPacket::Control(p)),
            Err(e) => Err(e),
        }
    } else {
        match DataPacket::parse(data) {
            Ok(p) => Ok(HalPacket::Data(p)),
            Err(e) => Err(e),
        }
    }
}

/// A packet framed for the socket transport: its length as two big-endian
/// octets, then its bytes.
pub fn length_prefixed(b: &[u8]) -> (r: Vec<u8>)
    requires
        b@.len() <= 0xffff,
    ensures
        r@ == seq![(b@.len() / 256) as u8, (b@.len() % 256) as u8] + b@,
{
    let mut out: Vec<u8> = Vec::new();
    out.push((b.len() / 256) as u8);
    out.push((b.len() % 256) as u8);
    let mut i: usize = 0;
    while i < b.len()
        invariant
            i <= b@.len(),
            out@ == seq![(b@.len() / 256) as u8, (b@.len() % 256) as u8] + b@.take(i as int),
        decreases b@.len() - i,
    {
        out.push(b[i]);
        i = i + 1;
        assert(out@ =~= seq![(b@.len() / 256) as u8, (b@.len() % 256) as u8] + b@.take(i as int));
    }
    assert(b@.take(b@.len() as int) =~= b@);
    out
}

} // verus!
