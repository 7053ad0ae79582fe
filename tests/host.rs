use nci::connections::{
    LogicalConnectionsRegistry, RegistryError, NFC_DATA_CEVT, NFC_DATA_START_CEVT,
};
use nci::dispatcher::{
    parse_conn_credits, DispatchError, Dispatcher, EventRegistry, Inbound, PendingCommand,
    QueuedCommand,
};
use nci::hal::{length_prefixed, on_data, HalPacket, NfcEvent, NfcStatus};
use nci::packet::{ControlPacket, DataPacket, MessageType, Opcode, PacketBoundaryFlag, ParseError};
use nci::segment::{segment_frames, set_pbf, split_payload, Reassembler};
use nci::{is_control_packet, on_event};

fn data(conn_id: u8, pbf: PacketBoundaryFlag, cr: u8, payload: &[u8]) -> DataPacket {
    DataPacket { conn_id, pbf, cr, payload: payload.to_vec() }
}

fn control(mt: MessageType, gid: u8, oid: u8, payload: &[u8]) -> ControlPacket {
    ControlPacket { mt, pbf: PacketBoundaryFlag::CompleteOrFinal, gid, oid, payload: payload.to_vec() }
}

#[test]
fn control_classification() {
    assert!(is_control_packet(&[0x20, 0x00, 0x00]));
    assert!(is_control_packet(&[0x60]));
    assert!(!is_control_packet(&[0x01, 0x00, 0x00]));
    assert!(!is_control_packet(&[0x1f]));
}

#[test]
fn hal_open_event() {
    assert!(on_event(NfcEvent::OpenComplete, NfcStatus::Success));
    assert!(on_event(NfcEvent::OpenComplete, NfcStatus::Failed));
    assert!(!on_event(NfcEvent::CloseComplete, NfcStatus::Success));
    assert!(!on_event(NfcEvent::Error, NfcStatus::ErrTransport));
}

#[test]
fn packet_round_trips() {
    let p = control(MessageType::Response, 1, 6, &[0, 1]);
    let b = p.to_bytes();
    assert_eq!(b, vec![0x41, 0x06, 0x02, 0x00, 0x01]);
    let q = ControlPacket::parse(&b).unwrap();
    assert_eq!((q.mt, q.gid, q.oid, q.payload), (MessageType::Response, 1, 6, vec![0, 1]));
    let d = data(3, PacketBoundaryFlag::Incomplete, 2, &[9, 8, 7]);
    let b = d.to_bytes();
    assert_eq!(b, vec![0x13, 0x80, 0x03, 9, 8, 7]);
    let e = DataPacket::parse(&b).unwrap();
    assert_eq!((e.conn_id, e.pbf, e.cr, e.payload), (3, PacketBoundaryFlag::Incomplete, 2, vec![9, 8, 7]));
}

#[test]
fn packet_parse_errors() {
    assert_eq!(ControlPacket::parse(&[0x20, 0x00]).err(), Some(ParseError::TooShort));
    assert_eq!(ControlPacket::parse(&[0x80, 0x00, 0x00]).err(), Some(ParseError::UnknownMessageType));
    assert_eq!(ControlPacket::parse(&[0x20, 0x00, 0x02, 0x00]).err(), Some(ParseError::LengthMismatch));
    assert_eq!(ControlPacket::parse(&[0x00, 0x00, 0x00]).err(), Some(ParseError::WrongMessageKind));
    assert_eq!(DataPacket::parse(&[0x20, 0x00, 0x00]).err(), Some(ParseError::WrongMessageKind));
    assert!(matches!(on_data(&[]), Err(ParseError::TooShort)));
    assert!(matches!(on_data(&[0x40, 0x00, 0x01, 0x00]), Ok(HalPacket::Control(_))));
    assert!(matches!(on_data(&[0x02, 0x00, 0x01, 0x05]), Ok(HalPacket::Data(_))));
    assert!(matches!(on_data(&[0x02, 0x00, 0x02, 0x05]), Err(ParseError::LengthMismatch)));
}

#[test]
fn socket_framing() {
    assert_eq!(length_prefixed(&[0x20, 0x00, 0x00]), vec![0x00, 0x03, 0x20, 0x00, 0x00]);
    let big = vec![1u8; 300];
    let f = length_prefixed(&big);
    assert_eq!(&f[..2], &[0x01, 0x2c]);
    assert_eq!(f.len(), 302);
}

#[test]
fn pbf_rewrite() {
    assert_eq!(set_pbf(0x40, PacketBoundaryFlag::Incomplete), 0x50);
    assert_eq!(set_pbf(0x5f, PacketBoundaryFlag::CompleteOrFinal), 0x4f);
    assert_eq!(set_pbf(0x5f, PacketBoundaryFlag::Incomplete), 0x5f);
}

#[test]
fn payload_split_counts() {
    let p: Vec<u8> = (0..7).collect();
    let c = split_payload(&p, 3);
    assert_eq!(c, vec![vec![0, 1, 2], vec![3, 4, 5], vec![6]]);
    let p: Vec<u8> = (0..6).collect();
    let c = split_payload(&p, 3);
    assert_eq!(c, vec![vec![0, 1, 2], vec![3, 4, 5]]);
    assert_eq!(split_payload(&[], 3), vec![Vec::<u8>::new()]);
    assert_eq!(split_payload(&[1, 2], 0), vec![vec![1, 2]]);
}

#[test]
fn frames_round_trip_through_reassembler() {
    let mut pkt = vec![0x40, 0x03, 0x00];
    pkt.extend((0..600u32).map(|i| (i % 251) as u8));
    let frames = segment_frames(&pkt);
    assert_eq!(frames.len(), 3);
    assert_eq!(frames[0][0], 0x50);
    assert_eq!(frames[1][0], 0x50);
    assert_eq!(frames[2][0], 0x40);
    assert_eq!(frames[2][2], 90);
    let mut r = Reassembler::new();
    assert!(r.push_segment(&frames[0][..3], &frames[0][3..]).is_none());
    assert!(r.push_segment(&frames[1][..3], &frames[1][3..]).is_none());
    let whole = r.push_segment(&frames[2][..3], &frames[2][3..]).unwrap();
    assert_eq!(&whole[..2], &pkt[..2]);
    assert_eq!(&whole[3..], &pkt[3..]);
    // An empty payload still gives one final frame.
    assert_eq!(segment_frames(&[0x20, 0x01, 0x00]), vec![vec![0x20, 0x01, 0x00]]);
}

#[test]
fn segmentation_on_small_connection() {
    let mut reg: LogicalConnectionsRegistry<u32> = LogicalConnectionsRegistry::new();
    reg.open(2, Some(7), 3, 10).unwrap();
    let pkt = data(2, PacketBoundaryFlag::CompleteOrFinal, 0, b"ABCDEFG");
    let out = reg.send_packet(2, pkt);
    assert_eq!(out.len(), 3);
    assert_eq!(out[0].payload, b"ABC".to_vec());
    assert_eq!(out[1].payload, b"DEF".to_vec());
    assert_eq!(out[2].payload, b"G".to_vec());
    assert_eq!(out[0].pbf, PacketBoundaryFlag::Incomplete);
    assert_eq!(out[1].pbf, PacketBoundaryFlag::Incomplete);
    assert_eq!(out[2].pbf, PacketBoundaryFlag::CompleteOrFinal);
    for p in &out {
        assert_eq!((p.conn_id, p.cr), (2, 0));
    }
    assert_eq!(reg.credits(2), Some(7));
}

#[test]
fn exact_multiple_ends_with_final_segment() {
    let mut reg: LogicalConnectionsRegistry<u32> = LogicalConnectionsRegistry::new();
    reg.open(2, None, 3, 10).unwrap();
    let out = reg.send_packet(2, data(2, PacketBoundaryFlag::CompleteOrFinal, 0, b"ABCDEF"));
    assert_eq!(out.len(), 2);
    assert_eq!(out[1].payload, b"DEF".to_vec());
    assert_eq!(out[1].pbf, PacketBoundaryFlag::CompleteOrFinal);
}

#[test]
fn credit_flow() {
    let mut reg: LogicalConnectionsRegistry<u32> = LogicalConnectionsRegistry::new();
    let mut disp: Dispatcher<u32, u32> = Dispatcher::new();
    reg.open(2, Some(1), 255, 1).unwrap();
    let mut written = Vec::new();
    for i in 0..3u8 {
        written.extend(reg.send_packet(2, data(2, PacketBoundaryFlag::CompleteOrFinal, 0, &[i; 10])));
    }
    assert_eq!(written.len(), 1);
    assert_eq!(reg.queued(2), 2);
    let ntf = control(MessageType::Notification, 0, 6, &[1, 2, 2]);
    match disp.on_control_packet(&mut reg, ntf) {
        Ok(Inbound::Transmit(out)) => written.extend(out),
        _ => panic!("expected packets to transmit"),
    }
    assert_eq!(written.len(), 3);
    for (i, p) in written.iter().enumerate() {
        assert_eq!(p.payload, vec![i as u8; 10]);
    }
    assert_eq!(reg.credits(2), Some(0));
    assert_eq!(reg.queued(2), 0);
}

#[test]
fn credit_conservation_on_values() {
    let mut reg: LogicalConnectionsRegistry<u32> = LogicalConnectionsRegistry::new();
    reg.open(4, None, 255, 2).unwrap();
    let mut sent = 0usize;
    for _ in 0..5 {
        sent += reg.send_packet(4, data(4, PacketBoundaryFlag::CompleteOrFinal, 0, &[1])).len();
    }
    sent += reg.add_credits(4, 1).len();
    sent += reg.add_credits(4, 3).len();
    // c0 = 2, r = 4, k = 5.
    assert_eq!(sent, 5);
    assert_eq!(reg.credits(4), Some(1));
    // Credits are held at 255.
    reg.add_credits(4, 255);
    assert_eq!(reg.credits(4), Some(255));
    // Credits returned in a CR field count too.
    let mut reg2: LogicalConnectionsRegistry<u32> = LogicalConnectionsRegistry::new();
    reg2.open(1, Some(3), 255, 0).unwrap();
    reg2.send_packet(1, data(1, PacketBoundaryFlag::CompleteOrFinal, 0, &[5]));
    let (out, _) = reg2.send_callback(data(1, PacketBoundaryFlag::CompleteOrFinal, 1, &[]));
    assert_eq!(out.len(), 1);
    assert_eq!(reg2.credits(1), Some(0));
}

#[test]
fn reassembly_events() {
    let mut reg: LogicalConnectionsRegistry<u32> = LogicalConnectionsRegistry::new();
    reg.open(3, Some(42), 255, 0).unwrap();
    let mut events = Vec::new();
    for (pbf, body) in [
        (PacketBoundaryFlag::Incomplete, &b"ab"[..]),
        (PacketBoundaryFlag::Incomplete, &b"cd"[..]),
        (PacketBoundaryFlag::CompleteOrFinal, &b"e"[..]),
    ] {
        let (_, calls) = reg.send_callback(data(3, pbf, 0, body));
        events.extend(calls);
    }
    assert_eq!(events.len(), 2);
    assert_eq!((events[0].event, events[0].data.len()), (NFC_DATA_START_CEVT, 0));
    assert_eq!(events[1].event, NFC_DATA_CEVT);
    assert_eq!(events[1].data, b"\0abcde".to_vec());
    for e in &events {
        assert_eq!((e.callback, e.conn_id), (Some(42), 3));
    }
    // A single complete packet fires DATA alone.
    let (_, calls) = reg.send_callback(data(3, PacketBoundaryFlag::CompleteOrFinal, 0, b"x"));
    assert_eq!(calls.len(), 1);
    assert_eq!(calls[0].data, vec![0, b'x']);
    // Packets for a closed connection are dropped.
    let (out, calls) = reg.send_callback(data(9, PacketBoundaryFlag::CompleteOrFinal, 0, b"x"));
    assert!(out.is_empty() && calls.is_empty());
}

#[test]
fn registry_open_close_flush() {
    let mut reg: LogicalConnectionsRegistry<u32> = LogicalConnectionsRegistry::new();
    assert_eq!(reg.open(0, None, 0, 0), Ok(()));
    assert_eq!(reg.open(0, Some(1), 0, 0), Err(RegistryError::AlreadyOpen));
    reg.set_static_callback(0, Some(5));
    reg.set_static_callback(2, Some(6));
    assert!(!reg.is_open(2));
    reg.send_packet(0, data(0, PacketBoundaryFlag::CompleteOrFinal, 0, &[1, 2, 3]));
    assert_eq!(reg.queued(0), 1);
    assert!(reg.flush_data(0));
    assert_eq!(reg.queued(0), 0);
    assert!(!reg.flush_data(7));
    assert_eq!(reg.close(0), Some(5));
    assert_eq!(reg.close(0), None);
}

fn queued(op: (u8, u8), id: u32, ntf: Option<u32>) -> QueuedCommand<u32, u32> {
    QueuedCommand {
        pending: PendingCommand { cmd: control(MessageType::Command, op.0, op.1, &[1]), response: id },
        notification: ntf,
    }
}

#[test]
fn responses_follow_submission_order() {
    let mut reg: LogicalConnectionsRegistry<u32> = LogicalConnectionsRegistry::new();
    let mut d: Dispatcher<u32, u32> = Dispatcher::new();
    let mut delivered = Vec::new();
    for (i, op) in [(0u8, 0u8), (0, 1), (0, 2)].iter().enumerate() {
        assert!(d.can_accept());
        let bytes = d.accept_command(queued(*op, i as u32, None)).unwrap();
        assert_eq!(bytes, vec![0x20 | op.0, op.1, 0x01, 0x01]);
        assert!(!d.can_accept());
        match d.on_control_packet(&mut reg, control(MessageType::Response, op.0, op.1, &[0])) {
            Ok(Inbound::DeliverResponse(sink, rsp)) => {
                assert_eq!(rsp.opcode(), Opcode { gid: op.0, oid: op.1 });
                delivered.push(sink);
            }
            _ => panic!("expected a response"),
        }
    }
    assert_eq!(delivered, vec![0, 1, 2]);
}

#[test]
fn protocol_violations() {
    let mut reg: LogicalConnectionsRegistry<u32> = LogicalConnectionsRegistry::new();
    let mut d: Dispatcher<u32, u32> = Dispatcher::new();
    let r = d.on_control_packet(&mut reg, control(MessageType::Response, 0, 0, &[0]));
    assert!(matches!(r, Err(DispatchError::UnexpectedResponse(Opcode { gid: 0, oid: 0 }))));
    d.accept_command(queued((0, 0), 1, Some(10))).unwrap();
    let r = d.on_control_packet(&mut reg, control(MessageType::Response, 0, 1, &[0]));
    assert!(matches!(
        r,
        Err(DispatchError::OpcodeMismatch {
            expected: Opcode { gid: 0, oid: 0 },
            got: Opcode { gid: 0, oid: 1 }
        })
    ));
    assert!(!d.can_accept());
    let r = d.on_control_packet(&mut reg, control(MessageType::Notification, 1, 5, &[]));
    assert!(matches!(r, Err(DispatchError::UnhandledNotification(Opcode { gid: 1, oid: 5 }))));
    let r = d.on_control_packet(&mut reg, control(MessageType::Notification, 0, 6, &[2, 1]));
    assert!(matches!(r, Err(DispatchError::Malformed)));
    let r = d.on_control_packet(&mut reg, control(MessageType::Command, 0, 0, &[]));
    assert!(matches!(r, Ok(Inbound::Ignored)));
}

#[test]
fn notification_listener_is_single_use() {
    let mut reg: LogicalConnectionsRegistry<u32> = LogicalConnectionsRegistry::new();
    let mut d: Dispatcher<u32, u32> = Dispatcher::new();
    d.accept_command(queued((0, 0), 1, Some(10))).unwrap();
    let r = d.on_control_packet(&mut reg, control(MessageType::Response, 0, 0, &[0]));
    assert!(matches!(r, Ok(Inbound::DeliverResponse(1, _))));
    let ntf = control(MessageType::Notification, 0, 0, &[2, 1, 0x11, 0, 0]);
    assert!(matches!(d.on_control_packet(&mut reg, ntf.clone()), Ok(Inbound::DeliverNotification(10, _))));
    assert!(matches!(d.on_control_packet(&mut reg, ntf), Err(DispatchError::UnhandledNotification(_))));
    // A second listener for a pending one is refused.
    d.accept_command(queued((0, 0), 2, Some(11))).unwrap();
    d.on_timeout();
    let r = d.accept_command(queued((0, 0), 3, Some(12)));
    assert!(matches!(r, Err(DispatchError::DuplicateListener(Opcode { gid: 0, oid: 0 }))));
    let mut ev: EventRegistry<u32> = EventRegistry::new();
    assert!(ev.register(Opcode { gid: 1, oid: 5 }, 1).is_ok());
    assert!(ev.register(Opcode { gid: 1, oid: 5 }, 2).is_err());
    assert_eq!(ev.unregister(Opcode { gid: 1, oid: 5 }), Some(1));
    assert_eq!(ev.unregister(Opcode { gid: 1, oid: 5 }), None);
}

#[test]
fn command_timeout_frees_the_slot() {
    let mut reg: LogicalConnectionsRegistry<u32> = LogicalConnectionsRegistry::new();
    let mut d: Dispatcher<u32, u32> = Dispatcher::new();
    d.accept_command(queued((0, 0), 7, None)).unwrap();
    assert!(!d.can_accept());
    // The driver's 20 ms timer expires: the response sink comes back to be dropped.
    assert_eq!(d.on_timeout(), Some(7));
    assert!(d.can_accept());
    assert_eq!(d.on_timeout(), None);
    // A late response is then unexpected; the next command is admitted.
    let r = d.on_control_packet(&mut reg, control(MessageType::Response, 0, 0, &[0]));
    assert!(matches!(r, Err(DispatchError::UnexpectedResponse(_))));
    assert!(d.accept_command(queued((0, 1), 8, None)).is_ok());
}

#[test]
fn credit_entries_parse() {
    assert_eq!(parse_conn_credits(&[2, 1, 3, 4, 5]), Some(vec![(1, 3), (4, 5)]));
    assert_eq!(parse_conn_credits(&[0]), Some(vec![]));
    assert_eq!(parse_conn_credits(&[2, 1, 3]), None);
    assert_eq!(parse_conn_credits(&[]), None);
}
