//! NCI packet headers, control packets and data packets.
use vstd::prelude::*;

verus! {

/// Length of the header shared by control and data packets.
pub const HEADER_SIZE: usize = 3;

/// Message Type (MT), octet 0 bits 7-5.
#[derive(PartialEq, Eq, Structural, Clone, Copy, Debug)]
pub enum MessageType {
    Data,
    Command,
    Response,
    Notification,
}

/// Packet Boundary Flag (PBF), octet 0 bit 4.
#[derive(PartialEq, Eq, Structural, Clone, Copy, Debug)]
pub enum PacketBoundaryFlag {
    CompleteOrFinal,
    Incomplete,
}

/// Reasons a byte string is not a well-formed packet.
#[derive(PartialEq, Eq, Structural, Clone, Copy, Debug)]
pub enum ParseError {
    /// Fewer than three bytes: no complete header.
    TooShort,
    /// The length octet disagrees with the number of payload bytes.
    LengthMismatch,
    /// MT holds a value reserved for future use.
    UnknownMessageType,
    /// MT is Data where a control packet was expected, or the reverse.
    WrongMessageKind,
}

/// Value of the MT field of header octet 0.
pub open spec fn mt_bits(b0: u8) -> int {
    b0 as int / 32
}

/// Value of the PBF bit of header octet 0.
pub open spec fn pbf_bit(b0: u8) -> int {
    (b0 as int / 16) % 2
}

/// Low nibble of header octet 0: GID for control packets, Conn ID for data.
pub open spec fn low_nibble(b0: u8) -> int {
    b0 as int % 16
}

pub open spec fn spec_mt_value(mt: MessageType) -> int {
    match mt {
        MessageType::Data => 0,
        MessageType::Command => 1,
        MessageType::Response => 2,
        MessageType::Notification => 3,
    }
}

pub open spec fn spec_pbf_value(pbf: PacketBoundaryFlag) -> int {
    match pbf {
        PacketBoundaryFlag::CompleteOrFinal => 0,
        PacketBoundaryFlag::Incomplete => 1,
    }
}

impl MessageType {
    /// The three-bit wire value.
    pub fn value(&self) -> (r: u8)
        ensures
            r as int == spec_mt_value(*self),
    {
        match self {
            MessageType::Data => 0,
            MessageType::Command => 1,
            MessageType::Response => 2,
            MessageType::Notification => 3,
        }
    }

    /// The message type whose wire value is `v`, if any.
    pub fn from_value(v: u8) -> (r: Option<MessageType>)
        ensures
            match r {
                Some(mt) => spec_mt_value(mt) == v as int,
                None => v > 3,
            },
    {
        if v == 0 {
            Some(MessageType::Data)
        } else if v == 1 {
            Some(MessageType::Command)
        } else if v == 2 {
            Some(MessageType::Response)
        } else if v == 3 {
            Some(MessageType::Notification)
        } else {
            None
        }
    }
}

impl PacketBoundaryFlag {
    /// The one-bit wire value.
    pub fn value(&self) -> (r: u8)
        ensures
            r as int == spec_pbf_value(*self),
    {
        match self {
            PacketBoundaryFlag::CompleteOrFinal => 0,
            PacketBoundaryFlag::Incomplete => 1,
        }
    }

    /// The flag whose wire value is `v % 2`.
    pub fn from_bit(v: u8) -> (r: PacketBoundaryFlag)
        ensures
            spec_pbf_value(r) == v as int % 2,
    {
        if v % 2 == 0 {
            PacketBoundaryFlag::CompleteOrFinal
        } else {
            PacketBoundaryFlag::Incomplete
        }
    }
}

/// Whether a framed packet is a control packet (MT other than Data).
pub fn is_control_packet(data: &[u8]) -> (r: bool)
    requires
        data@.len() >= 1,
    ensures
        r == (mt_bits(data@[0]) != 0),
{
    let b0 = data[0];
    let r = (b0 >> 5u8) & 0x7u8 != 0;
    assert(((b0 >> 5u8) & 0x7u8 != 0) == (b0 / 32 != 0)) by (bit_vector);
    r
}


/// A control message's identity: Group ID (4 bits) and Opcode ID (6 bits).
#[derive(PartialEq, Eq, Structural, Clone, Copy, Debug)]
pub struct Opcode {
    pub gid: u8,
    pub oid: u8,
}

impl Opcode {
    pub open spec fn wf(&self) -> bool {
        self.gid < 16 && self.oid < 64
    }

    /// The opcode packed into one integer, usable as a map key.
    pub open spec fn spec_key(&self) -> u16 {
        (self.gid as int * 256 + self.oid as int) as u16
    }

    pub fn key(&self) -> (r: u16)
        ensures
            r == self.spec_key(),
    {
        self.gid as u16 * 256 + self.oid as u16
    }
}

/// A control packet (MT = Command, Response or Notification).
#[derive(Clone, Debug)]
pub struct ControlPacket {
    pub mt: MessageType,
    pub pbf: PacketBoundaryFlag,
    pub gid: u8,
    pub oid: u8,
    pub payload: Vec<u8>,
}

/// A data packet (MT = Data) on a logical connection.
#[derive(Clone, Debug)]
pub struct DataPacket {
    pub conn_id: u8,
    pub pbf: PacketBoundaryFlag,
    /// Credits returned by the peer (2 bits).
    pub cr: u8,
    pub payload: Vec<u8>,
}

/// Mathematical value of a data packet.
pub struct DataPacketView {
    pub conn_id: u8,
    pub pbf: PacketBoundaryFlag,
    pub cr: u8,
    pub payload: Seq<u8>,
}

impl View for DataPacket {
    type V = DataPacketView;

    open spec fn view(&self) -> DataPacketView {
        DataPacketView { conn_id: self.conn_id, pbf: self.pbf, cr: self.cr, payload: self.payload@ }
    }
}

/// The values of a sequence of data packets.
pub open spec fn packets_view(v: Seq<DataPacket>) -> Seq<DataPacketView> {
    v.map_values(|p: DataPacket| p@)
}

/// Wire form of a control packet.
pub open spec fn control_bytes(
    mt: MessageType,
    pbf: PacketBoundaryFlag,
    gid: u8,
    oid: u8,
    payload: Seq<u8>,
) -> Seq<u8> {
    seq![
        (spec_mt_value(mt) * 32 + spec_pbf_value(pbf) * 16 + gid) as u8,
        oid,
        payload.len() as u8,
    ] + payload
}

/// Wire form of a data packet.
pub open spec fn data_bytes(p: DataPacketView) -> Seq<u8> {
    seq![
        (spec_pbf_value(p.pbf) * 16 + p.conn_id) as u8,
        (p.cr * 64) as u8,
        p.payload.len() as u8,
    ] + p.payload
}

/// Why `b` is not a framed packet of any kind, if it is not one.
pub open spec fn frame_error(b: Seq<u8>) -> Option<ParseError> {
    if b.len() < 3 {
        Some(ParseError::TooShort)
    } else if mt_bits(b[0]) > 3 {
        Some(ParseError::UnknownMessageType)
    } else if b.len() != 3 + b[2] {
        Some(ParseError::LengthMismatch)
    } else {
        None
    }
}

/// Why `b` is not a control packet, if it is not one.
pub open spec fn control_error(b: Seq<u8>) -> Option<ParseError> {
    if frame_error(b).is_some() {
        frame_error(b)
    } else if mt_bits(b[0]) == 0 {
        Some(ParseError::WrongMessageKind)
    } else {
        None
    }
}

/// Why `b` is not a data packet, if it is not one.
pub open spec fn data_error(b: Seq<u8>) -> Option<ParseError> {
    if frame_error(b).is_some() {
        frame_error(b)
    } else if mt_bits(b[0]) != 0 {
        Some(ParseError::WrongMessageKind)
    } else {
        None
    }
}

fn frame_check(b: &[u8]) -> (r: Result<(), ParseError>)
    ensures
        match r {
            Ok(()) => frame_error(b@).is_none(),
            Err(e) => frame_error(b@) == Some(e),
        },
{
    if b.len() < HEADER_SIZE {
        Err(ParseError::TooShort)
    } else if b[0] / 32 > 3 {
        Err(ParseError::UnknownMessageType)
    } else if b.len() != HEADER_SIZE + b[2] as usize {
        Err(ParseError::LengthMismatch)
    } else {
        Ok(())
    }
}

/// Copies `b[lo..hi]` into a new vector.
pub fn copy_range(b: &[u8], lo: usize, hi: usize) -> (r: Vec<u8>)
    requires
        lo <= hi <= b@.len(),
    ensures
        r@ == b@.subrange(lo as int, hi as int),
{
    let mut out: Vec<u8> = Vec::new();
    let mut i: usize = lo;
    while i < hi
        invariant
            lo <= i <= hi <= b@.len(),
            out@ == b@.subrange(lo as int, i as int),
        decreases hi - i,
    {
        out.push(b[i]);
        i = i + 1;
    }
    out
}

fn copy_from(b: &[u8], start: usize) -> (r: Vec<u8>)
    requires
        start <= b@.len(),
    ensures
        r@ == b@.skip(start as int),
{
    let out = copy_range(b, start, b.len());
    assert(out@ =~= b@.skip(start as int));
    out
}

impl ControlPacket {
    pub open spec fn wf(&self) -> bool {
        &&& self.mt != MessageType::Data
        &&& self.gid < 16
        &&& self.oid < 64
        &&& self.payload@.len() <= 255
    }

    pub open spec fn spec_opcode(&self) -> Opcode {
        Opcode { gid: self.gid, oid: self.oid }
    }

    pub open spec fn spec_bytes(&self) -> Seq<u8> {
        control_bytes(self.mt, self.pbf, self.gid, self.oid, self.payload@)
    }

    pub fn opcode(&self) -> (r: Opcode)
        ensures
            r == self.spec_opcode(),
    {
        Opcode { gid: self.gid, oid: self.oid }
    }

    /// Parses a framed control packet. RFU bits of octet 1 are ignored.
    pub fn parse(b: &[u8]) -> (r: Result<ControlPacket, ParseError>)
        ensures
            match r {
                Ok(p) => {
                    &&& control_error(b@).is_none()
                    &&& p.wf()
                    &&& spec_mt_value(p.mt) == mt_bits(b@[0])
                    &&& spec_pbf_value(p.pbf) == pbf_bit(b@[0])
                    &&& p.gid as int == low_nibble(b@[0])
                    &&& p.oid as int == b@[1] as int % 64
                    &&& p.payload@ == b@.skip(3)
                },
                Err(e) => control_error(b@) == Some(e),
            },
    {
        frame_check(b)?;
        let mt = match MessageType::from_value(b[0] / 32) {
            Some(MessageType::Data) => {
                return Err(ParseError::WrongMessageKind);
            },
            Some(mt) => mt,
            None => {
                return Err(ParseError::UnknownMessageType);
            },
        };
        let payload = copy_from(b, HEADER_SIZE);
        Ok(ControlPacket {
            mt,
            pbf: PacketBoundaryFlag::from_bit(b[0] / 16),
            gid: b[0] % 16,
            oid: b[1] % 64,
            payload,
        })
    }

    /// Serializes the packet: header followed by the payload.
    pub fn to_bytes(&self) -> (r: Vec<u8>)
        requires
            self.wf(),
        ensures
            r@ == self.spec_bytes(),
    {
        let mut out: Vec<u8> = Vec::new();
        out.push(self.mt.value() * 32 + self.pbf.value() * 16 + self.gid);
        out.push(self.oid);
        out.push(self.payload.len() as u8);
        let mut i: usize = 0;
        while i < self.payload.len()
            invariant
                i <= self.payload@.len(),
                out@ == control_bytes(self.mt, self.pbf, self.gid, self.oid, self.payload@).take(
                    3 + i,
                ),
            decreases self.payload@.len() - i,
        {
            out.push(self.payload[i]);
            i = i + 1;
            assert(out@ =~= control_bytes(self.mt, self.pbf, self.gid, self.oid, self.payload@).take(
                3 + i,
            ));
        }
        assert(out@ =~= self.spec_bytes());
        out
    }
}

/// The data packet that the framed bytes `b` denote.
pub open spec fn spec_data_packet(b: Seq<u8>) -> DataPacketView {
    DataPacketView {
        conn_id: (b[0] % 16) as u8,
        pbf: if pbf_bit(b[0]) == 0 {
            PacketBoundaryFlag::CompleteOrFinal
        } else {
            PacketBoundaryFlag::Incomplete
        },
        cr: (b[1] / 64) as u8,
        payload: b.skip(3),
    }
}

impl DataPacket {
    pub open spec fn wf(&self) -> bool {
        &&& self.conn_id < 16
        &&& self.cr < 4
        &&& self.payload@.len() <= 255
    }

    /// Parses a framed data packet. RFU bits of octet 1 are ignored.
    pub fn parse(b: &[u8]) -> (r: Result<DataPacket, ParseError>)
        ensures
            match r {
                Ok(p) => {
                    &&& data_error(b@).is_none()
                    &&& p.wf()
                    &&& spec_pbf_value(p.pbf) == pbf_bit(b@[0])
                    &&& p.conn_id as int == low_nibble(b@[0])
                    &&& p.cr as int == b@[1] as int / 64
                    &&& p.payload@ == b@.skip(3)
                    &&& p@ == spec_data_packet(b@)
                },
                Err(e) => data_error(b@) == Some(e),
            },
    {
        frame_check(b)?;
        if b[0] / 32 != 0 {
            return Err(ParseError::WrongMessageKind);
        }
        let payload = copy_from(b, HEADER_SIZE);
        Ok(DataPacket {
            conn_id: b[0] % 16,
            pbf: PacketBoundaryFlag::from_bit(b[0] / 16),
            cr: b[1] / 64,
            payload,
        })
    }

    /// Serializes the packet: header followed by the payload.
    pub fn to_bytes(&self) -> (r: Vec<u8>)
        requires
            self.wf(),
        ensures
            r@ == data_bytes(self@),
    {
        let mut out: Vec<u8> = Vec::new();
        out.push(self.pbf.value() * 16 + self.conn_id);
        out.push(self.cr * 64);
        out.push(self.payload.len() as u8);
        let mut i: usize = 0;
        while i < self.payload.len()
            invariant
                i <= self.payload@.len(),
                out@ == data_bytes(self@).take(3 + i),
            decreases self.payload@.len() - i,
        {
            out.push(self.payload[i]);
            i = i + 1;
            assert(out@ =~= data_bytes(self@).take(3 + i));
        }
        assert(out@ =~= data_bytes(self@));
        out
    }
}

} // verus!
