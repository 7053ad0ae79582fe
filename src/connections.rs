//! Registry of logical data connections: per-connection callback, credit
//! counter, send queue and reassembly queue.
//!
//! The registry decides; its caller acts. Methods return the data packets to
//! hand to the transport and the callback invocations to perform, in order.
use vstd::prelude::*;
use std::collections::HashMap;
use crate::packet::{packets_view, DataPacket, DataPacketView, PacketBoundaryFlag};
use crate::segment::{
    bytes_view, chunks, concat, lemma_chunk_sizes, lemma_chunks_concat, lemma_chunks_count,
    segment_flag, split_payload,
};

verus! {

broadcast use vstd::std_specs::hash::group_hash_axioms;

/// Event code: first segment of a segmented inbound message.
pub const NFC_DATA_START_CEVT: u16 = 5;

/// Event code: a complete inbound message.
pub const NFC_DATA_CEVT: u16 = 3;

/// Conn ID of the static RF connection.
pub const STATIC_RF_CONN_ID: u8 = 0;

/// Conn ID of the static HCI connection.
pub const STATIC_HCI_CONN_ID: u8 = 1;

/// State of one open logical connection. `C` is the callback handle.
pub struct ConnectionParameters<C> {
    pub callback: Option<C>,
    pub max_payload_size: u8,
    /// Credits the NFCC has granted and that are not used yet.
    pub nfcc_credits_avail: u8,
    /// Packets waiting for credits, oldest first.
    pub sendq: Vec<DataPacket>,
    /// Segments of the inbound message being reassembled.
    pub recvq: Vec<DataPacket>,
}

/// One invocation of a connection's callback.
pub struct CallbackCall<C> {
    pub callback: Option<C>,
    pub conn_id: u8,
    pub event: u16,
    pub data: Vec<u8>,
}

/// Mathematical value of a callback invocation (the callback aside).
pub struct CallbackEvent {
    pub event: u16,
    pub data: Seq<u8>,
}

pub open spec fn events_view<C>(v: Seq<CallbackCall<C>>) -> Seq<CallbackEvent> {
    v.map_values(|c: CallbackCall<C>| CallbackEvent { event: c.event, data: c.data@ })
}

/// Why a connection could not be opened.
#[derive(PartialEq, Eq, Structural, Clone, Copy, Debug)]
pub enum RegistryError {
    /// A connection with this Conn ID is already open.
    AlreadyOpen,
}

/// The packets queued for `p` on a connection whose payload limit is `m`:
/// `p` itself when it fits (or when `m` is zero), else its pieces, all with
/// the same Conn ID, CR = 0, and PBF = Incomplete on all but the last.
pub open spec fn split_packet(p: DataPacketView, m: nat) -> Seq<DataPacketView> {
    if m == 0 || p.payload.len() <= m {
        seq![p]
    } else {
        let c = chunks(p.payload, m);
        Seq::new(
            c.len(),
            |i: int|
                DataPacketView {
                    conn_id: p.conn_id,
                    pbf: segment_flag(i, c.len() as int),
                    cr: 0,
                    payload: c[i],
                },
        )
    }
}

/// `c + n`, held at 255.
pub open spec fn credits_after_grant(c: u8, n: u8) -> u8 {
    if c as int + n as int > 255 {
        255
    } else {
        (c + n) as u8
    }
}

/// How many queued packets leave when `c` credits meet a queue of `len`.
pub open spec fn drain_count(c: int, len: int) -> int {
    if c < len {
        c
    } else {
        len
    }
}

/// Payloads of a sequence of segments.
pub open spec fn payloads(q: Seq<DataPacketView>) -> Seq<Seq<u8>> {
    q.map_values(|p: DataPacketView| p.payload)
}

/// What the receive path does to a connection's reassembly queue `q` when
/// segment `p` arrives: the new queue and the callback events it fires.
pub open spec fn receive_step(q: Seq<DataPacketView>, p: DataPacketView) -> (
    Seq<DataPacketView>,
    Seq<CallbackEvent>,
) {
    let done = p.pbf == PacketBoundaryFlag::CompleteOrFinal;
    let start: Seq<CallbackEvent> = if !done && q.len() == 0 {
        seq![CallbackEvent { event: NFC_DATA_START_CEVT, data: Seq::empty() }]
    } else {
        Seq::empty()
    };
    let q1 = q.push(p);
    if done {
        (
            Seq::empty(),
            start.push(
                CallbackEvent { event: NFC_DATA_CEVT, data: seq![0u8] + concat(payloads(q1)) },
            ),
        )
    } else {
        (q1, start)
    }
}

/// Open logical connections by Conn ID.
pub struct LogicalConnectionsRegistry<C> {
    conns: HashMap<u8, ConnectionParameters<C>>,
}

/// Laying pieces end to end, one more piece goes at the end.
proof fn lemma_concat_push(s: Seq<Seq<u8>>, x: Seq<u8>)
    ensures
        concat(s.push(x)) == concat(s) + x,
    decreases s.len(),
{
    if s.len() == 0 {
        assert(s.push(x).skip(1) =~= Seq::<Seq<u8>>::empty());
        assert(concat(Seq::<Seq<u8>>::empty()) == Seq::<u8>::empty());
        assert(concat(s.push(x)) =~= concat(s) + x);
    } else {
        lemma_concat_push(s.skip(1), x);
        assert(s.push(x).skip(1) =~= s.skip(1).push(x));
        assert(concat(s.push(x)) =~= concat(s) + x);
    }
}

/// Splits a packet for a connection whose payload limit is `m`.
fn split_for_connection(pkt: DataPacket, m: u8) -> (r: Vec<DataPacket>)
    ensures
        packets_view(r@) == split_packet(pkt@, m as nat),
{
    if m == 0 || pkt.payload.len() <= m as usize {
        let ghost v = pkt@;
        let r = vec![pkt];
        assert(packets_view(r@) =~= seq![v]);
        return r;
    }
    let pieces = split_payload(pkt.payload.as_slice(), m as usize);
    let ghost c = chunks(pkt.payload@, m as nat);
    proof {
        lemma_chunk_sizes(pkt.payload@, m as nat);
    }
    let n = pieces.len();
    let mut out: Vec<DataPacket> = Vec::new();
    let mut i: usize = 0;
    while i < n
        invariant
            n == pieces@.len() == c.len(),
            bytes_view(pieces@) == c,
            c == chunks(pkt.payload@, m as nat),
            !(m == 0 || pkt.payload@.len() <= m),
            i <= n,
            packets_view(out@) == split_packet(pkt@, m as nat).take(i as int),
        decreases n - i,
    {
        let pbf = if i + 1 < n {
            PacketBoundaryFlag::Incomplete
        } else {
            PacketBoundaryFlag::CompleteOrFinal
        };
        let payload = crate::packet::copy_range(pieces[i].as_slice(), 0, pieces[i].len());
        assert(payload@ =~= c[i as int]);
        let part = DataPacket { conn_id: pkt.conn_id, pbf, cr: 0, payload };
        let ghost before = out@;
        assert(part@ == split_packet(pkt@, m as nat)[i as int]);
        out.push(part);
        assert(packets_view(out@) =~= packets_view(before).push(part@));
        i = i + 1;
        assert(packets_view(out@) =~= split_packet(pkt@, m as nat).take(i as int));
    }
    assert(split_packet(pkt@, m as nat).take(n as int) =~= split_packet(pkt@, m as nat));
    out
}

impl<C: Copy> ConnectionParameters<C> {
    /// Hands queued packets to the transport while credits remain, one credit
    /// per packet, oldest first.
    fn drain(self) -> (r: (ConnectionParameters<C>, Vec<DataPacket>))
        ensures
            ({
                let k = drain_count(self.nfcc_credits_avail as int, self.sendq@.len() as int);
                &&& r.0.nfcc_credits_avail == self.nfcc_credits_avail - k
                &&& r.0.sendq@ == self.sendq@.skip(k)
                &&& r.1@ == self.sendq@.take(k)
                &&& r.0.callback == self.callback
                &&& r.0.max_payload_size == self.max_payload_size
                &&& r.0.recvq@ == self.recvq@
            }),
    {
        let ConnectionParameters { callback, max_payload_size, nfcc_credits_avail, sendq, recvq } =
            self;
        let mut out = sendq;
        let k: usize = if (nfcc_credits_avail as usize) < out.len() {
            nfcc_credits_avail as usize
        } else {
            out.len()
        };
        let rest = out.split_off(k);
        assert(out@ =~= self.sendq@.take(k as int));
        assert(rest@ =~= self.sendq@.skip(k as int));
        (
            ConnectionParameters {
                callback,
                max_payload_size,
                nfcc_credits_avail: nfcc_credits_avail - k as u8,
                sendq: rest,
                recvq,
            },
            out,
        )
    }
}

impl<C: Copy> LogicalConnectionsRegistry<C> {
    /// Open connections by Conn ID.
    pub closed spec fn view(&self) -> Map<u8, ConnectionParameters<C>> {
        self.conns@
    }

    /// An empty registry.
    pub fn new() -> (r: Self)
        ensures
            r@ == Map::<u8, ConnectionParameters<C>>::empty(),
    {
        LogicalConnectionsRegistry { conns: HashMap::new() }
    }

    /// Whether a connection with this Conn ID is open.
    pub fn is_open(&self, conn_id: u8) -> (r: bool)
        ensures
            r == self@.contains_key(conn_id),
    {
        self.conns.contains_key(&conn_id)
    }

    /// Credits currently available on a connection, if it is open.
    pub fn credits(&self, conn_id: u8) -> (r: Option<u8>)
        ensures
            r == (if self@.contains_key(conn_id) {
                Some(self@[conn_id].nfcc_credits_avail)
            } else {
                None
            }),
    {
        match self.conns.get(&conn_id) {
            Some(p) => Some(p.nfcc_credits_avail),
            None => None,
        }
    }

    /// Number of packets waiting for credits on a connection (0 if closed).
    pub fn queued(&self, conn_id: u8) -> (r: usize)
        ensures
            r == (if self@.contains_key(conn_id) {
                self@[conn_id].sendq@.len()
            } else {
                0
            }),
    {
        match self.conns.get(&conn_id) {
            Some(p) => p.sendq.len(),
            None => 0,
        }
    }

    /// Opens a connection with empty queues.
    pub fn open(
        &mut self,
        conn_id: u8,
        cb: Option<C>,
        max_payload_size: u8,
        nfcc_credits_avail: u8,
    ) -> (r: Result<(), RegistryError>)
        ensures
            old(self)@.contains_key(conn_id) ==> r == Err::<(), RegistryError>(RegistryError::AlreadyOpen)
                && final(self)@ == old(self)@,
            !old(self)@.contains_key(conn_id) ==> {
                &&& r is Ok
                &&& final(self)@.dom() == old(self)@.dom().insert(conn_id)
                &&& forall|k: u8| k != conn_id && old(self)@.contains_key(k) ==> #[trigger] final(self)@[k] == old(self)@[k]
                &&& final(self)@[conn_id].callback == cb
                &&& final(self)@[conn_id].max_payload_size == max_payload_size
                &&& final(self)@[conn_id].nfcc_credits_avail == nfcc_credits_avail
                &&& final(self)@[conn_id].sendq@.len() == 0
                &&& final(self)@[conn_id].recvq@.len() == 0
            },
    {
        if self.conns.contains_key(&conn_id) {
            return Err(RegistryError::AlreadyOpen);
        }
        let params = ConnectionParameters {
            callback: cb,
            max_payload_size,
            nfcc_credits_avail,
            sendq: Vec::new(),
            recvq: Vec::new(),
        };
        self.conns.insert(conn_id, params);
        assert(self.conns@.dom() =~= old(self)@.dom().insert(conn_id));
        Ok(())
    }
}


/// `n` is `o` after its queue became `q`, `credits` were available, and as
/// many packets of `q` as credits allow left in order as `out`.
pub open spec fn drained_from<C>(
    o: ConnectionParameters<C>,
    credits: u8,
    q: Seq<DataPacketView>,
    n: ConnectionParameters<C>,
    out: Seq<DataPacketView>,
) -> bool {
    let k = drain_count(credits as int, q.len() as int);
    &&& n.nfcc_credits_avail == credits - k
    &&& packets_view(n.sendq@) == q.skip(k)
    &&& out == q.take(k)
    &&& n.callback == o.callback
    &&& n.max_payload_size == o.max_payload_size
    &&& n.recvq@ == o.recvq@
}

impl<C: Copy> LogicalConnectionsRegistry<C> {
    /// Replaces the callback of static connection 0 or 1, if it is open and
    /// `cb` is a callback. Otherwise nothing changes.
    pub fn set_static_callback(&mut self, conn_id: u8, cb: Option<C>)
        ensures
            (conn_id < 2 && cb.is_some() && old(self)@.contains_key(conn_id)) ==> {
                let o = old(self)@[conn_id];
                final(self)@ == old(self)@.insert(
                    conn_id,
                    ConnectionParameters { callback: cb, ..o },
                )
            },
            !(conn_id < 2 && cb.is_some() && old(self)@.contains_key(conn_id)) ==> final(self)@
                == old(self)@,
    {
        if conn_id < 2 && cb.is_some() {
            if let Some(params) = self.conns.remove(&conn_id) {
                let ghost o = params;
                let ConnectionParameters {
                    callback: _,
                    max_payload_size,
                    nfcc_credits_avail,
                    sendq,
                    recvq,
                } = params;
                let np = ConnectionParameters {
                    callback: cb,
                    max_payload_size,
                    nfcc_credits_avail,
                    sendq,
                    recvq,
                };
                assert(np == ConnectionParameters { callback: cb, ..o });
                self.conns.insert(conn_id, np);
                assert(self.conns@ =~= old(self)@.insert(conn_id, np));
            }
        }
    }

    /// Closes a connection, discarding its queues, and returns its callback so
    /// the caller can deliver a close event.
    pub fn close(&mut self, conn_id: u8) -> (r: Option<C>)
        ensures
            final(self)@ == old(self)@.remove(conn_id),
            r == (if old(self)@.contains_key(conn_id) {
                old(self)@[conn_id].callback
            } else {
                None
            }),
    {
        match self.conns.remove(&conn_id) {
            Some(params) => params.callback,
            None => {
                assert(old(self)@.remove(conn_id) =~= old(self)@);
                None
            },
        }
    }

    /// Adds `ncreds` credits to a connection (held at 255), then hands queued
    /// packets to the transport while credits remain: the returned packets,
    /// one credit each, oldest first. Nothing happens on a closed connection.
    pub fn add_credits(&mut self, conn_id: u8, ncreds: u8) -> (r: Vec<DataPacket>)
        ensures
            !old(self)@.contains_key(conn_id) ==> final(self)@ == old(self)@ && r@.len() == 0,
            old(self)@.contains_key(conn_id) ==> {
                let o = old(self)@[conn_id];
                &&& final(self)@.dom() == old(self)@.dom()
                &&& final(self)@.remove(conn_id) == old(self)@.remove(conn_id)
                &&& drained_from(
                    o,
                    credits_after_grant(o.nfcc_credits_avail, ncreds),
                    packets_view(o.sendq@),
                    final(self)@[conn_id],
                    packets_view(r@),
                )
            },
    {
        match self.conns.remove(&conn_id) {
            Some(params) => {
                let ghost o = params;
                let c = if params.nfcc_credits_avail as u16 + ncreds as u16 > 255 {
                    255u8
                } else {
                    params.nfcc_credits_avail + ncreds
                };
                let ConnectionParameters {
                    callback,
                    max_payload_size,
                    nfcc_credits_avail: _,
                    sendq,
                    recvq,
                } = params;
                let granted = ConnectionParameters {
                    callback,
                    max_payload_size,
                    nfcc_credits_avail: c,
                    sendq,
                    recvq,
                };
                let (np, out) = granted.drain();
                proof {
                    let k = drain_count(c as int, o.sendq@.len() as int);
                    assert(packets_view(np.sendq@) =~= packets_view(o.sendq@).skip(k));
                    assert(packets_view(out@) =~= packets_view(o.sendq@).take(k));
                }
                self.conns.insert(conn_id, np);
                assert(self.conns@.dom() =~= old(self)@.dom());
                assert(self.conns@.remove(conn_id) =~= old(self)@.remove(conn_id));
                out
            },
            None => {
                assert(old(self)@.remove(conn_id) =~= old(self)@);
                Vec::new()
            },
        }
    }

    /// Queues a packet on a connection, split into pieces of at most its
    /// maximum payload size, then hands queued packets to the transport while
    /// credits remain: the returned packets. Nothing happens on a closed
    /// connection.
    pub fn send_packet(&mut self, conn_id: u8, pkt: DataPacket) -> (r: Vec<DataPacket>)
        ensures
            !old(self)@.contains_key(conn_id) ==> final(self)@ == old(self)@ && r@.len() == 0,
            old(self)@.contains_key(conn_id) ==> {
                let o = old(self)@[conn_id];
                &&& final(self)@.dom() == old(self)@.dom()
                &&& final(self)@.remove(conn_id) == old(self)@.remove(conn_id)
                &&& drained_from(
                    o,
                    o.nfcc_credits_avail,
                    packets_view(o.sendq@) + split_packet(pkt@, o.max_payload_size as nat),
                    final(self)@[conn_id],
                    packets_view(r@),
                )
            },
    {
        match self.conns.remove(&conn_id) {
            Some(params) => {
                let ghost o = params;
                let ghost pv = pkt@;
                let ConnectionParameters {
                    callback,
                    max_payload_size,
                    nfcc_credits_avail,
                    sendq,
                    recvq,
                } = params;
                let mut q = sendq;
                let mut parts = split_for_connection(pkt, max_payload_size);
                q.append(&mut parts);
                let ghost full = packets_view(o.sendq@) + split_packet(pv, o.max_payload_size as nat);
                assert(packets_view(q@) =~= full);
                let queued = ConnectionParameters {
                    callback,
                    max_payload_size,
                    nfcc_credits_avail,
                    sendq: q,
                    recvq,
                };
                let ghost qq = q@;
                let (np, out) = queued.drain();
                proof {
                    let k = drain_count(nfcc_credits_avail as int, qq.len() as int);
                    assert(packets_view(np.sendq@) =~= full.skip(k));
                    assert(packets_view(out@) =~= full.take(k));
                }
                self.conns.insert(conn_id, np);
                assert(self.conns@.dom() =~= old(self)@.dom());
                assert(self.conns@.remove(conn_id) =~= old(self)@.remove(conn_id));
                out
            },
            None => {
                assert(old(self)@.remove(conn_id) =~= old(self)@);
                Vec::new()
            },
        }
    }

    /// Receive path for an inbound data packet. Credits returned in its CR
    /// field are added first (the returned packets are those this releases).
    /// Then, on an open connection, the packet joins the reassembly queue:
    /// the first segment of a segmented message fires DATA_START with no
    /// data, and the final segment fires DATA with a status byte of 0 followed
    /// by every queued payload in order, and empties the queue. Packets for a
    /// closed connection are dropped.
    pub fn send_callback(&mut self, pkt: DataPacket) -> (r: (Vec<DataPacket>, Vec<CallbackCall<C>>))
        ensures
            !old(self)@.contains_key(pkt.conn_id) ==> final(self)@ == old(self)@ && r.0@.len()
                == 0 && r.1@.len() == 0,
            old(self)@.contains_key(pkt.conn_id) ==> {
                let o = old(self)@[pkt.conn_id];
                let n = final(self)@[pkt.conn_id];
                let c = if pkt.cr > 0 {
                    credits_after_grant(o.nfcc_credits_avail, pkt.cr)
                } else {
                    o.nfcc_credits_avail
                };
                let step = receive_step(packets_view(o.recvq@), pkt@);
                &&& final(self)@.dom() == old(self)@.dom()
                &&& final(self)@.remove(pkt.conn_id) == old(self)@.remove(pkt.conn_id)
                &&& pkt.cr > 0 ==> drained_from(
                    o,
                    c,
                    packets_view(o.sendq@),
                    ConnectionParameters { recvq: o.recvq, ..n },
                    packets_view(r.0@),
                )
                &&& pkt.cr == 0 ==> n.sendq == o.sendq && n.nfcc_credits_avail
                    == o.nfcc_credits_avail && r.0@.len() == 0
                &&& n.callback == o.callback
                &&& n.max_payload_size == o.max_payload_size
                &&& packets_view(n.recvq@) == step.0
                &&& events_view(r.1@) == step.1
                &&& forall|i: int|
                    0 <= i < r.1@.len() ==> (#[trigger] r.1@[i]).callback == o.callback
                        && r.1@[i].conn_id == pkt.conn_id
            },
    {
        let conn_id = pkt.conn_id;
        if !self.conns.contains_key(&conn_id) {
            return (Vec::new(), Vec::new());
        }
        let sent = if pkt.cr > 0 {
            self.add_credits(conn_id, pkt.cr)
        } else {
            Vec::new()
        };
        let ghost mid = self.conns@;
        let params = self.conns.remove(&conn_id).unwrap();
        let ghost m = params;
        let ConnectionParameters { callback, max_payload_size, nfcc_credits_avail, sendq, recvq } =
            params;
        let ghost pv = pkt@;
        let ghost q0 = packets_view(recvq@);
        let done = match pkt.pbf {
            PacketBoundaryFlag::CompleteOrFinal => true,
            PacketBoundaryFlag::Incomplete => false,
        };
        let mut calls: Vec<CallbackCall<C>> = Vec::new();
        if !done && recvq.len() == 0 {
            calls.push(
                CallbackCall { callback, conn_id, event: NFC_DATA_START_CEVT, data: Vec::new() },
            );
        }
        let ghost start = events_view(calls@);
        let mut q = recvq;
        q.push(pkt);
        let ghost q1 = packets_view(q@);
        assert(q1 =~= q0.push(pv));
        let mut newq = q;
        if done {
            let mut data: Vec<u8> = Vec::new();
            data.push(0u8);
            let mut i: usize = 0;
            while i < newq.len()
                invariant
                    i <= newq@.len(),
                    q1 == packets_view(newq@),
                    data@ == seq![0u8] + concat(payloads(q1.take(i as int))),
                decreases newq@.len() - i,
            {
                let seg = &newq[i];
                let mut j: usize = 0;
                let ghost before = data@;
                while j < seg.payload.len()
                    invariant
                        j <= seg.payload@.len(),
                        data@ == before + seg.payload@.take(j as int),
                    decreases seg.payload@.len() - j,
                {
                    data.push(seg.payload[j]);
                    j = j + 1;
                    assert(data@ =~= before + seg.payload@.take(j as int));
                }
                proof {
                    assert(seg.payload@.take(seg.payload@.len() as int) =~= seg.payload@);
                    assert(payloads(q1.take(i + 1)) =~= payloads(q1.take(i as int)).push(
                        seg.payload@,
                    ));
                    lemma_concat_push(payloads(q1.take(i as int)), seg.payload@);
                }
                i = i + 1;
                assert(data@ =~= seq![0u8] + concat(payloads(q1.take(i as int))));
            }
            assert(q1.take(q1.len() as int) =~= q1);
            calls.push(CallbackCall { callback, conn_id, event: NFC_DATA_CEVT, data });
            newq = Vec::new();
        }
        proof {
            let step = receive_step(q0, pv);
            assert(packets_view(newq@) =~= step.0);
            assert(events_view(calls@) =~= step.1);
        }
        let np = ConnectionParameters {
            callback,
            max_payload_size,
            nfcc_credits_avail,
            sendq,
            recvq: newq,
        };
        self.conns.insert(conn_id, np);
        proof {
            assert(self.conns@.dom() =~= old(self)@.dom());
            assert(self.conns@.remove(conn_id) =~= old(self)@.remove(conn_id));
        }
        (sent, calls)
    }

    /// Discards a connection's send queue. Returns whether it is open.
    pub fn flush_data(&mut self, conn_id: u8) -> (r: bool)
        ensures
            r == old(self)@.contains_key(conn_id),
            !r ==> final(self)@ == old(self)@,
            r ==> {
                let o = old(self)@[conn_id];
                &&& final(self)@.dom() == old(self)@.dom()
                &&& final(self)@.remove(conn_id) == old(self)@.remove(conn_id)
                &&& final(self)@[conn_id].sendq@.len() == 0
                &&& final(self)@[conn_id].nfcc_credits_avail == o.nfcc_credits_avail
                &&& final(self)@[conn_id].callback == o.callback
                &&& final(self)@[conn_id].max_payload_size == o.max_payload_size
                &&& final(self)@[conn_id].recvq == o.recvq
            },
    {
        match self.conns.remove(&conn_id) {
            Some(params) => {
                let ConnectionParameters {
                    callback,
                    max_payload_size,
                    nfcc_credits_avail,
                    sendq: _,
                    recvq,
                } = params;
                let np = ConnectionParameters {
                    callback,
                    max_payload_size,
                    nfcc_credits_avail,
                    sendq: Vec::new(),
                    recvq,
                };
                self.conns.insert(conn_id, np);
                assert(self.conns@.dom() =~= old(self)@.dom());
                assert(self.conns@.remove(conn_id) =~= old(self)@.remove(conn_id));
                true
            },
            None => {
                assert(old(self)@.remove(conn_id) =~= old(self)@);
                false
            },
        }
    }
}


/// Splitting a payload of `l > 0` bytes with a limit `m > 0` and laying the
/// pieces' payloads end to end gives the payload back, in `ceil(l / m)`
/// pieces, each with the Conn ID of the packet split.
pub proof fn lemma_split_round_trip(p: DataPacketView, m: nat)
    requires
        m > 0,
        p.payload.len() > 0,
    ensures
        concat(payloads(split_packet(p, m))) == p.payload,
        split_packet(p, m).len() == (p.payload.len() + m - 1) / m as int,
        forall|i: int|
            0 <= i < split_packet(p, m).len() ==> (#[trigger] split_packet(p, m)[i]).conn_id
                == p.conn_id,
{
    lemma_chunks_count(p.payload, m);
    if p.payload.len() <= m {
        assert(payloads(split_packet(p, m)) =~= seq![p.payload]);
        assert(seq![p.payload].skip(1) =~= Seq::<Seq<u8>>::empty());
        assert(concat(Seq::<Seq<u8>>::empty()) == Seq::<u8>::empty());
        assert(concat(seq![p.payload]) =~= p.payload);
    } else {
        lemma_chunks_concat(p.payload, m);
        assert(payloads(split_packet(p, m)) =~= chunks(p.payload, m));
    }
}

/// When a packet is split, every piece but the last is Incomplete and holds
/// exactly `m` bytes, the last is CompleteOrFinal and holds between 1 and `m`
/// bytes, and every piece has CR = 0.
pub proof fn lemma_split_boundary_flags(p: DataPacketView, m: nat)
    requires
        m > 0,
        p.payload.len() > m,
    ensures
        split_packet(p, m).len() >= 2,
        forall|i: int|
            0 <= i < split_packet(p, m).len() - 1 ==> (#[trigger] split_packet(p, m)[i]).pbf
                == PacketBoundaryFlag::Incomplete && split_packet(p, m)[i].payload.len() == m,
        split_packet(p, m).last().pbf == PacketBoundaryFlag::CompleteOrFinal,
        0 < split_packet(p, m).last().payload.len() <= m,
        forall|i: int| 0 <= i < split_packet(p, m).len() ==> (#[trigger] split_packet(p, m)[i]).cr == 0,
{
    lemma_chunk_sizes(p.payload, m);
    lemma_chunk_sizes(p.payload.skip(m as int), m);
}

/// An operation on one connection's outbound side.
pub enum CreditOp {
    /// The caller sends a packet.
    Send(DataPacketView),
    /// The NFCC returns credits.
    Grant(u8),
}

/// Credits, send queue, packets handed to the transport and credits granted
/// after running `ops` on a connection with payload limit `m`, as
/// `send_packet` and `add_credits` do them.
pub open spec fn credit_run(c: u8, q: Seq<DataPacketView>, m: nat, ops: Seq<CreditOp>) -> (
    u8,
    Seq<DataPacketView>,
    int,
    int,
)
    decreases ops.len(),
{
    if ops.len() == 0 {
        (c, q, 0, 0)
    } else {
        let (c1, q1, s1, g1) = match ops[0] {
            CreditOp::Send(p) => {
                let qq = q + split_packet(p, m);
                let k = drain_count(c as int, qq.len() as int);
                ((c - k) as u8, qq.skip(k), k, 0int)
            },
            CreditOp::Grant(n) => {
                let cc = credits_after_grant(c, n);
                let k = drain_count(cc as int, q.len() as int);
                ((cc - k) as u8, q.skip(k), k, n as int)
            },
        };
        let r = credit_run(c1, q1, m, ops.skip(1));
        (r.0, r.1, s1 + r.2, g1 + r.3)
    }
}

/// Credits granted by `ops`.
pub open spec fn granted(ops: Seq<CreditOp>) -> int
    decreases ops.len(),
{
    if ops.len() == 0 {
        0
    } else {
        (match ops[0] {
            CreditOp::Send(_) => 0int,
            CreditOp::Grant(n) => n as int,
        }) + granted(ops.skip(1))
    }
}

/// Starting from `c0` credits, after `k` packets were handed to the
/// transport and credits summing to `r` were returned, the counter is
/// `c0 - k + r`, provided the counter never passes its 255 ceiling.
pub proof fn lemma_credit_conservation(c0: u8, q: Seq<DataPacketView>, m: nat, ops: Seq<CreditOp>)
    requires
        c0 as int + granted(ops) <= 255,
    ensures
        credit_run(c0, q, m, ops).0 as int == c0 as int - credit_run(c0, q, m, ops).2 + credit_run(
            c0,
            q,
            m,
            ops,
        ).3,
        credit_run(c0, q, m, ops).3 == granted(ops),
    decreases ops.len(),
{
    if ops.len() > 0 {
        match ops[0] {
            CreditOp::Send(p) => {
                let qq = q + split_packet(p, m);
                let k = drain_count(c0 as int, qq.len() as int);
                lemma_credit_conservation((c0 - k) as u8, qq.skip(k), m, ops.skip(1));
            },
            CreditOp::Grant(n) => {
                let cc = credits_after_grant(c0, n);
                let k = drain_count(cc as int, q.len() as int);
                assert(granted(ops.skip(1)) >= 0) by {
                    lemma_granted_nonneg(ops.skip(1));
                }
                lemma_credit_conservation((cc - k) as u8, q.skip(k), m, ops.skip(1));
            },
        }
    }
}

proof fn lemma_granted_nonneg(ops: Seq<CreditOp>)
    ensures
        granted(ops) >= 0,
    decreases ops.len(),
{
    if ops.len() > 0 {
        lemma_granted_nonneg(ops.skip(1));
    }
}

/// Reassembly queue and callback events after segments `segs` arrive, one by
/// one, on a connection whose queue is `q`.
pub open spec fn receive_run(q: Seq<DataPacketView>, segs: Seq<DataPacketView>) -> (
    Seq<DataPacketView>,
    Seq<CallbackEvent>,
)
    decreases segs.len(),
{
    if segs.len() == 0 {
        (q, Seq::empty())
    } else {
        let s = receive_step(q, segs[0]);
        let r = receive_run(s.0, segs.skip(1));
        (r.0, s.1 + r.1)
    }
}

/// `segs` is one segmented message: Incomplete segments, then a final one.
pub open spec fn is_message(segs: Seq<DataPacketView>) -> bool {
    &&& segs.len() >= 1
    &&& forall|i: int| 0 <= i < segs.len() - 1 ==> (#[trigger] segs[i]).pbf == PacketBoundaryFlag::Incomplete
    &&& segs.last().pbf == PacketBoundaryFlag::CompleteOrFinal
}

proof fn lemma_receive_rest(q: Seq<DataPacketView>, segs: Seq<DataPacketView>)
    requires
        q.len() > 0,
        is_message(segs),
    ensures
        receive_run(q, segs) == (
            Seq::<DataPacketView>::empty(),
            seq![CallbackEvent { event: NFC_DATA_CEVT, data: seq![0u8] + concat(payloads(q + segs)) }],
        ),
    decreases segs.len(),
{
    if segs.len() == 1 {
        assert(q.push(segs[0]) =~= q + segs);
        let r = receive_run(q, segs);
        assert(receive_run(Seq::empty(), segs.skip(1)) == (Seq::<DataPacketView>::empty(), Seq::<CallbackEvent>::empty()));
        assert(r.1 =~= seq![CallbackEvent { event: NFC_DATA_CEVT, data: seq![0u8] + concat(payloads(q + segs)) }]);
    } else {
        let rest = segs.skip(1);
        assert(is_message(rest)) by {
            assert forall|i: int| 0 <= i < rest.len() - 1 implies (#[trigger] rest[i]).pbf
                == PacketBoundaryFlag::Incomplete by {
                assert(rest[i] == segs[i + 1]);
            }
        }
        lemma_receive_rest(q.push(segs[0]), rest);
        assert(q.push(segs[0]) + rest =~= q + segs);
        let r = receive_run(q, segs);
        assert(r.1 =~= seq![CallbackEvent { event: NFC_DATA_CEVT, data: seq![0u8] + concat(payloads(q + segs)) }]);
    }
}

/// A message of two or more segments arriving on a connection with an empty
/// reassembly queue fires exactly two callback events: DATA_START with no
/// data, then DATA with a status byte of 0 followed by the payloads of all
/// segments in order; the queue ends empty.
pub proof fn lemma_segmented_message_events(segs: Seq<DataPacketView>)
    requires
        segs.len() >= 2,
        is_message(segs),
    ensures
        receive_run(Seq::empty(), segs) == (
            Seq::<DataPacketView>::empty(),
            seq![
                CallbackEvent { event: NFC_DATA_START_CEVT, data: Seq::empty() },
                CallbackEvent { event: NFC_DATA_CEVT, data: seq![0u8] + concat(payloads(segs)) },
            ],
        ),
{
    let rest = segs.skip(1);
    assert(segs[0].pbf == PacketBoundaryFlag::Incomplete);
    assert(is_message(rest)) by {
        assert forall|i: int| 0 <= i < rest.len() - 1 implies (#[trigger] rest[i]).pbf
            == PacketBoundaryFlag::Incomplete by {
            assert(rest[i] == segs[i + 1]);
        }
    }
    let q1 = Seq::<DataPacketView>::empty().push(segs[0]);
    lemma_receive_rest(q1, rest);
    assert(q1 + rest =~= segs);
    let r = receive_run(Seq::empty(), segs);
    assert(r.1 =~= seq![
        CallbackEvent { event: NFC_DATA_START_CEVT, data: Seq::empty() },
        CallbackEvent { event: NFC_DATA_CEVT, data: seq![0u8] + concat(payloads(segs)) },
    ]);
}

} // verus!
