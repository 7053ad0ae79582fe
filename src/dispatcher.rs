//! Command dispatcher: pairs each command with its response, keeps at most
//! one command in flight, routes notifications to one-shot listeners and
//! credit notifications to the connection registry.
//!
//! The dispatcher is a state machine. Its driver owns the transport, the
//! timer and the reply sinks (`R` for responses, `N` for notifications); it
//! feeds each input to the matching method and performs what comes back.
use vstd::prelude::*;
use std::collections::HashMap;
use crate::connections::{
    credits_after_grant, drained_from, ConnectionParameters, LogicalConnectionsRegistry,
};
use crate::packet::{packets_view, ControlPacket, DataPacket, MessageType, Opcode, DataPacketView};

verus! {

broadcast use vstd::std_specs::hash::group_hash_axioms;

/// Command timeout in milliseconds.
pub const COMMAND_TIMEOUT_MS: u64 = 20;

/// Group ID of CORE_CONN_CREDITS_NTF (Core).
pub const CONN_CREDITS_GID: u8 = 0;

/// Opcode ID of CORE_CONN_CREDITS_NTF.
pub const CONN_CREDITS_OID: u8 = 6;

/// Whether `op` is the opcode of CORE_CONN_CREDITS_NTF.
pub open spec fn is_conn_credits(op: Opcode) -> bool {
    op.gid == CONN_CREDITS_GID && op.oid == CONN_CREDITS_OID
}

/// A command in flight and the sink for its response.
pub struct PendingCommand<R> {
    pub cmd: ControlPacket,
    pub response: R,
}

/// A command waiting for the dispatcher, with an optional sink for the
/// notification that follows it.
pub struct QueuedCommand<R, N> {
    pub pending: PendingCommand<R>,
    pub notification: Option<N>,
}

/// Protocol violations. All are fatal to the session but `Malformed`, whose
/// packet is dropped.
#[derive(PartialEq, Eq, Structural, Clone, Copy, Debug)]
pub enum DispatchError {
    /// A listener for this opcode is already registered.
    DuplicateListener(Opcode),
    /// A response arrived while no command was pending.
    UnexpectedResponse(Opcode),
    /// A response's opcode differs from the pending command's.
    OpcodeMismatch { expected: Opcode, got: Opcode },
    /// A notification arrived that no listener waits for.
    UnhandledNotification(Opcode),
    /// A credit notification whose entries do not match its count.
    Malformed,
}

/// What the driver does after an inbound control packet.
pub enum Inbound<R, N> {
    /// Disarm the timer and hand the response to the sink.
    DeliverResponse(R, ControlPacket),
    /// Hand the notification to the listener's sink.
    DeliverNotification(N, ControlPacket),
    /// Hand these data packets, released by returned credits, to the transport.
    Transmit(Vec<DataPacket>),
    /// Nothing to do: a command from the NFCC side is not expected here.
    Ignored,
}

/// One-shot listeners for notifications, by opcode.
pub struct EventRegistry<N> {
    handlers: HashMap<u16, N>,
}

impl<N> EventRegistry<N> {
    /// Listeners by opcode key.
    pub closed spec fn view(&self) -> Map<u16, N> {
        self.handlers@
    }

    pub fn new() -> (r: Self)
        ensures
            r@ == Map::<u16, N>::empty(),
    {
        EventRegistry { handlers: HashMap::new() }
    }

    /// Registers interest in the next notification with opcode `code`.
    /// Registering twice for one opcode is an error, which changes nothing.
    pub fn register(&mut self, code: Opcode, sender: N) -> (r: Result<(), DispatchError>)
        ensures
            old(self)@.contains_key(code.spec_key()) ==> r == Err::<(), DispatchError>(
                DispatchError::DuplicateListener(code),
            ) && final(self)@ == old(self)@,
            !old(self)@.contains_key(code.spec_key()) ==> r is Ok && final(self)@ == old(self)@.insert(
                code.spec_key(),
                sender,
            ),
    {
        let k = code.key();
        if self.handlers.contains_key(&k) {
            Err(DispatchError::DuplicateListener(code))
        } else {
            self.handlers.insert(k, sender);
            Ok(())
        }
    }

    /// Removes and returns the listener for `code`, if any.
    pub fn unregister(&mut self, code: Opcode) -> (r: Option<N>)
        ensures
            final(self)@ == old(self)@.remove(code.spec_key()),
            r == (if old(self)@.contains_key(code.spec_key()) {
                Some(old(self)@[code.spec_key()])
            } else {
                None
            }),
    {
        let k = code.key();
        let r = self.handlers.remove(&k);
        if r.is_none() {
            assert(old(self)@.remove(code.spec_key()) =~= old(self)@);
        }
        r
    }
}

/// An input of the dispatcher, reduced to what decides the pending slot.
pub enum DispatchEvent {
    /// A queued command is offered.
    Submit(Opcode),
    /// A response with this opcode arrives.
    Respond(Opcode),
    /// The command timer expires.
    Expire,
}

/// Pending opcode after `e`, and the opcode of the response delivered by
/// it, if any; `None` where `e` is not admitted (a command offered while
/// one is pending waits) or is a protocol violation (a response that does
/// not match the pending command).
pub open spec fn dispatch_step(p: Option<Opcode>, e: DispatchEvent) -> Option<
    (Option<Opcode>, Option<Opcode>),
> {
    match e {
        DispatchEvent::Submit(op) => if p.is_none() {
            Some((Some(op), None))
        } else {
            None
        },
        DispatchEvent::Respond(op) => if p == Some(op) {
            Some((None, Some(op)))
        } else {
            None
        },
        DispatchEvent::Expire => Some((None, None)),
    }
}

/// Entries of a CORE_CONN_CREDITS_NTF payload: a count, then that many
/// (Conn ID, credits) pairs.
pub open spec fn credit_entries_ok(p: Seq<u8>) -> bool {
    p.len() >= 1 && p.len() == 1 + 2 * p[0]
}

/// `m2` and `out` are the registry and the packets released after
/// `add_credits` grants `e.1` credits to connection `e.0` of registry `m`.
pub open spec fn grant_step<C>(
    m: Map<u8, ConnectionParameters<C>>,
    e: (u8, u8),
    m2: Map<u8, ConnectionParameters<C>>,
    out: Seq<DataPacketView>,
) -> bool {
    if m.contains_key(e.0) {
        &&& m2.dom() == m.dom()
        &&& m2.remove(e.0) == m.remove(e.0)
        &&& drained_from(
            m[e.0],
            credits_after_grant(m[e.0].nfcc_credits_avail, e.1),
            packets_view(m[e.0].sendq@),
            m2[e.0],
            out,
        )
    } else {
        m2 == m && out.len() == 0
    }
}

/// The packets of `outs`, laid end to end.
pub open spec fn flatten_packets(outs: Seq<Seq<DataPacketView>>) -> Seq<DataPacketView>
    decreases outs.len(),
{
    if outs.len() == 0 {
        Seq::empty()
    } else {
        flatten_packets(outs.drop_last()) + outs.last()
    }
}

/// Registries `ms` and released packets `outs` are the successive steps of
/// granting credit entries `es`, one after the other.
pub open spec fn grant_steps<C>(
    ms: Seq<Map<u8, ConnectionParameters<C>>>,
    es: Seq<(u8, u8)>,
    outs: Seq<Seq<DataPacketView>>,
) -> bool {
    &&& ms.len() == es.len() + 1
    &&& outs.len() == es.len()
    &&& forall|i: int| 0 <= i < es.len() ==> grant_step(ms[i], #[trigger] es[i], ms[i + 1], outs[i])
}

/// Entries of a well-formed CORE_CONN_CREDITS_NTF payload.
pub open spec fn credit_entries(p: Seq<u8>) -> Seq<(u8, u8)> {
    Seq::new(p[0] as nat, |i: int| (p[1 + 2 * i], p[2 + 2 * i]))
}

/// Whether an entry of the CORE_CONN_CREDITS_NTF payload `p` names `id`.
pub open spec fn credit_entry_names(p: Seq<u8>, id: u8) -> bool {
    exists|i: int| 0 <= i < p[0] && #[trigger] p[1 + 2 * i] == id
}

/// Parses the entries of a CORE_CONN_CREDITS_NTF payload.
pub fn parse_conn_credits(p: &[u8]) -> (r: Option<Vec<(u8, u8)>>)
    ensures
        r.is_some() == credit_entries_ok(p@),
        r.is_some() ==> {
            let e = r.unwrap()@;
            &&& e.len() == p@[0]
            &&& forall|i: int| 0 <= i < e.len() ==> #[trigger] e[i] == (p@[1 + 2 * i], p@[2 + 2 * i])
        },
{
    if p.len() < 1 || p.len() != 1 + 2 * (p[0] as usize) {
        return None;
    }
    let n = p[0] as usize;
    let mut out: Vec<(u8, u8)> = Vec::new();
    let mut i: usize = 0;
    while i < n
        invariant
            n == p@[0],
            p@.len() == 1 + 2 * n,
            i <= n,
            out@.len() == i,
            forall|j: int| 0 <= j < i ==> #[trigger] out@[j] == (p@[1 + 2 * j], p@[2 + 2 * j]),
        decreases n - i,
    {
        out.push((p[1 + 2 * i], p[2 + 2 * i]));
        i = i + 1;
    }
    Some(out)
}

/// Command dispatcher state: the pending command and the listeners.
pub struct Dispatcher<R, N> {
    pending: Option<PendingCommand<R>>,
    notifications: EventRegistry<N>,
}

impl<R, N> Dispatcher<R, N> {
    /// The command in flight, if any.
    pub closed spec fn pending(&self) -> Option<PendingCommand<R>> {
        self.pending
    }

    /// Opcode of the command in flight, if any.
    pub open spec fn pending_opcode(&self) -> Option<Opcode> {
        match self.pending() {
            Some(p) => Some(p.cmd.spec_opcode()),
            None => None,
        }
    }

    /// Registered notification listeners.
    pub closed spec fn listeners(&self) -> Map<u16, N> {
        self.notifications@
    }

    pub fn new() -> (r: Self)
        ensures
            r.pending().is_none(),
            r.listeners() == Map::<u16, N>::empty(),
    {
        Dispatcher { pending: None, notifications: EventRegistry::new() }
    }

    /// Whether a queued command can be taken now: only when none is pending.
    pub fn can_accept(&self) -> (r: bool)
        ensures
            r == self.pending().is_none(),
    {
        self.pending.is_none()
    }

    /// Takes a queued command: registers its notification listener, if any,
    /// under the command's opcode, makes it the pending command, and returns
    /// the bytes to send. The driver then arms the timer for
    /// `COMMAND_TIMEOUT_MS`. A duplicate listener is an error, which changes
    /// nothing.
    pub fn accept_command(&mut self, queued: QueuedCommand<R, N>) -> (r: Result<
        Vec<u8>,
        DispatchError,
    >)
        requires
            old(self).pending().is_none(),
            queued.pending.cmd.wf(),
        ensures
            ({
                let op = queued.pending.cmd.spec_opcode();
                let dup = queued.notification.is_some() && old(self).listeners().contains_key(
                    op.spec_key(),
                );
                &&& dup ==> r == Err::<Vec<u8>, DispatchError>(DispatchError::DuplicateListener(op))
                    && final(self).pending() == old(self).pending() && final(self).listeners()
                    == old(self).listeners()
                &&& !dup ==> {
                    &&& r is Ok
                    &&& r.unwrap()@ == queued.pending.cmd.spec_bytes()
                    &&& final(self).pending() == Some(queued.pending)
                    &&& dispatch_step(old(self).pending_opcode(), DispatchEvent::Submit(op)) == Some(
                        (final(self).pending_opcode(), None::<Opcode>),
                    )
                    &&& final(self).listeners() == match queued.notification {
                        Some(n) => old(self).listeners().insert(op.spec_key(), n),
                        None => old(self).listeners(),
                    }
                }
            }),
    {
        let QueuedCommand { pending, notification } = queued;
        let op = pending.cmd.opcode();
        if let Some(n) = notification {
            self.notifications.register(op, n)?;
        }
        let bytes = pending.cmd.to_bytes();
        self.pending = Some(pending);
        Ok(bytes)
    }

    /// The command timer expired: the pending command is dropped, and its
    /// response sink returned so the driver can drop it.
    pub fn on_timeout(&mut self) -> (r: Option<R>)
        ensures
            final(self).pending().is_none(),
            final(self).listeners() == old(self).listeners(),
            r == match old(self).pending() {
                Some(p) => Some(p.response),
                None => None::<R>,
            },
            dispatch_step(old(self).pending_opcode(), DispatchEvent::Expire) == Some(
                (final(self).pending_opcode(), None::<Opcode>),
            ),
    {
        match self.pending.take() {
            Some(p) => Some(p.response),
            None => None,
        }
    }

    /// Handles an inbound control packet.
    /// - A response must match the pending command's opcode: then the pending
    ///   slot is cleared and the response goes to that command's sink.
    /// - A CORE_CONN_CREDITS_NTF adds each entry's credits to its connection,
    ///   in order; the packets this releases go to the transport.
    /// - Any other notification goes to, and consumes, the listener for its
    ///   opcode.
    /// - A command is ignored.
    pub fn on_control_packet<C: Copy>(
        &mut self,
        conns: &mut LogicalConnectionsRegistry<C>,
        pkt: ControlPacket,
    ) -> (r: Result<Inbound<R, N>, DispatchError>)
        ensures
            pkt.mt == MessageType::Response ==> {
                let op = pkt.spec_opcode();
                &&& final(conns)@ == old(conns)@
                &&& final(self).listeners() == old(self).listeners()
                &&& match old(self).pending() {
                    None => r == Err::<Inbound<R, N>, DispatchError>(
                        DispatchError::UnexpectedResponse(op),
                    ) && final(self).pending() == old(self).pending(),
                    Some(p) => if p.cmd.spec_opcode() == op {
                        &&& r matches Ok(Inbound::DeliverResponse(s, rsp))
                        &&& r->Ok_0->DeliverResponse_0 == p.response
                        &&& r->Ok_0->DeliverResponse_1 == pkt
                        &&& final(self).pending().is_none()
                        &&& dispatch_step(old(self).pending_opcode(), DispatchEvent::Respond(op))
                            == Some((final(self).pending_opcode(), Some(op)))
                    } else {
                        &&& r == Err::<Inbound<R, N>, DispatchError>(
                            DispatchError::OpcodeMismatch { expected: p.cmd.spec_opcode(), got: op },
                        )
                        &&& final(self).pending() == old(self).pending()
                        &&& dispatch_step(old(self).pending_opcode(), DispatchEvent::Respond(op))
                            is None
                    },
                }
            },
            pkt.mt == MessageType::Notification && is_conn_credits(pkt.spec_opcode()) ==> {
                &&& final(self).pending() == old(self).pending()
                &&& final(self).listeners() == old(self).listeners()
                &&& !credit_entries_ok(pkt.payload@) ==> r == Err::<Inbound<R, N>, DispatchError>(
                    DispatchError::Malformed,
                ) && final(conns)@ == old(conns)@
                &&& credit_entries_ok(pkt.payload@) ==> {
                    &&& r matches Ok(Inbound::Transmit(_))
                    &&& exists|ms: Seq<Map<u8, ConnectionParameters<C>>>, outs: Seq<Seq<DataPacketView>>|
                        #![trigger grant_steps(ms, credit_entries(pkt.payload@), outs)]
                        grant_steps(ms, credit_entries(pkt.payload@), outs) && ms[0] == old(conns)@
                            && ms.last() == final(conns)@ && packets_view(r->Ok_0->Transmit_0@)
                            == flatten_packets(outs)
                    &&& final(conns)@.dom() == old(conns)@.dom()
                    &&& forall|id: u8|
                        #![trigger final(conns)@[id]]
                        old(conns)@.contains_key(id) && !credit_entry_names(pkt.payload@, id)
                            ==> final(conns)@[id] == old(conns)@[id]
                }
            },
            pkt.mt == MessageType::Notification && !is_conn_credits(pkt.spec_opcode()) ==> {
                let k = pkt.spec_opcode().spec_key();
                &&& final(conns)@ == old(conns)@
                &&& final(self).pending() == old(self).pending()
                &&& final(self).listeners() == old(self).listeners().remove(k)
                &&& old(self).listeners().contains_key(k) ==> {
                    &&& r matches Ok(Inbound::DeliverNotification(_, _))
                    &&& r->Ok_0->DeliverNotification_0 == old(self).listeners()[k]
                    &&& r->Ok_0->DeliverNotification_1 == pkt
                }
                &&& !old(self).listeners().contains_key(k) ==> r == Err::<
                    Inbound<R, N>,
                    DispatchError,
                >(DispatchError::UnhandledNotification(pkt.spec_opcode()))
            },
            pkt.mt == MessageType::Command || pkt.mt == MessageType::Data ==> {
                &&& r matches Ok(Inbound::Ignored)
                &&& final(conns)@ == old(conns)@
                &&& final(self).pending() == old(self).pending()
                &&& final(self).listeners() == old(self).listeners()
            },
    {
        let op = pkt.opcode();
        match pkt.mt {
            MessageType::Response => {
                match self.pending.take() {
                    None => Err(DispatchError::UnexpectedResponse(op)),
                    Some(p) => {
                        let expected = p.cmd.opcode();
                        if expected == op {
                            Ok(Inbound::DeliverResponse(p.response, pkt))
                        } else {
                            self.pending = Some(p);
                            Err(DispatchError::OpcodeMismatch { expected, got: op })
                        }
                    },
                }
            },
            MessageType::Notification => {
                if op.gid == CONN_CREDITS_GID && op.oid == CONN_CREDITS_OID {
                    match parse_conn_credits(pkt.payload.as_slice()) {
                        None => Err(DispatchError::Malformed),
                        Some(entries) => {
                            let mut out: Vec<DataPacket> = Vec::new();
                            let mut i: usize = 0;
                            let ghost mut ms: Seq<Map<u8, ConnectionParameters<C>>> = seq![conns@];
                            let ghost mut outs: Seq<Seq<DataPacketView>> = Seq::empty();
                            assert(packets_view(out@) =~= flatten_packets(outs));
                            while i < entries.len()
                                invariant
                                    credit_entries_ok(pkt.payload@),
                                    entries@.len() == pkt.payload@[0],
                                    forall|j: int|
                                        0 <= j < entries@.len() ==> #[trigger] entries@[j] == (
                                            pkt.payload@[1 + 2 * j],
                                            pkt.payload@[2 + 2 * j],
                                        ),
                                    i <= entries@.len(),
                                    conns@.dom() == old(conns)@.dom(),
                                    grant_steps(ms, entries@.take(i as int), outs),
                                    ms[0] == old(conns)@,
                                    ms.last() == conns@,
                                    packets_view(out@) == flatten_packets(outs),
                                    forall|id: u8|
                                        #![trigger conns@[id]]
                                        old(conns)@.contains_key(id) && !(exists|j: int|
                                            0 <= j < i && #[trigger] entries@[j].0 == id)
                                            ==> conns@[id] == old(conns)@[id],
                                decreases entries@.len() - i,
                            {
                                let (conn_id, ncredits) = entries[i];
                                let ghost before = conns@;
                                let mut sent = conns.add_credits(conn_id, ncredits);
                                proof {
                                    assert forall|id: u8| #![trigger conns@[id]]
                                        before.contains_key(id) && id != conn_id implies conns@[id] == before[id] by {
                                        assert(conns@.remove(conn_id)[id] == before.remove(conn_id)[id]);
                                    }
                                    assert(entries@[i as int].0 == conn_id);
                                }
                                let ghost sv = packets_view(sent@);
                                let ghost ob = out@;
                                out.append(&mut sent);
                                proof {
                                    let ms2 = ms.push(conns@);
                                    let outs2 = outs.push(sv);
                                    assert(entries@.take(i + 1) =~= entries@.take(i as int).push((conn_id, ncredits)));
                                    assert(grant_step(ms2[i as int], (conn_id, ncredits), ms2[i + 1], outs2[i as int]));
                                    assert forall|j: int| 0 <= j < i + 1 implies grant_step(
                                        ms2[j],
                                        #[trigger] entries@.take(i + 1)[j],
                                        ms2[j + 1],
                                        outs2[j],
                                    ) by {
                                        if j < i {
                                            assert(entries@.take(i + 1)[j] == entries@.take(i as int)[j]);
                                        }
                                    }
                                    assert(outs2.drop_last() =~= outs);
                                    assert(packets_view(out@) =~= packets_view(ob) + sv);
                                    ms = ms2;
                                    outs = outs2;
                                }
                                i = i + 1;
                            }
                            proof {
                                assert(entries@.take(entries@.len() as int) =~= entries@);
                                assert(entries@ =~= credit_entries(pkt.payload@));
                                assert(grant_steps(ms, credit_entries(pkt.payload@), outs));
                                assert forall|id: u8| #![trigger conns@[id]]
                                    (exists|j: int| 0 <= j < entries@.len() && #[trigger] entries@[j].0 == id)
                                    implies credit_entry_names(pkt.payload@, id) by {
                                    let j = choose|j: int| 0 <= j < entries@.len() && #[trigger] entries@[j].0 == id;
                                    assert(pkt.payload@[1 + 2 * j] == id);
                                }
                            }
                            Ok(Inbound::Transmit(out))
                        },
                    }
                } else {
                    match self.notifications.unregister(op) {
                        Some(sink) => Ok(Inbound::DeliverNotification(sink, pkt)),
                        None => Err(DispatchError::UnhandledNotification(op)),
                    }
                }
            },
            _ => Ok(Inbound::Ignored),
        }
    }
}


/// Runs `evs` from pending opcode `p`: the final pending opcode, the opcodes
/// of the commands submitted, and the opcodes of the responses delivered, in
/// order; `None` if some event is not admitted or is a protocol violation.
pub open spec fn dispatch_run(p: Option<Opcode>, evs: Seq<DispatchEvent>) -> Option<
    (Option<Opcode>, Seq<Opcode>, Seq<Opcode>),
>
    decreases evs.len(),
{
    if evs.len() == 0 {
        Some((p, Seq::empty(), Seq::empty()))
    } else {
        match dispatch_step(p, evs[0]) {
            None => None,
            Some(s) => match dispatch_run(s.0, evs.skip(1)) {
                None => None,
                Some(r) => {
                    let subs = match evs[0] {
                        DispatchEvent::Submit(op) => seq![op] + r.1,
                        _ => r.1,
                    };
                    let dels = match s.1 {
                        Some(op) => seq![op] + r.2,
                        None => r.2,
                    };
                    Some((r.0, subs, dels))
                },
            },
        }
    }
}

pub open spec fn no_expiry(evs: Seq<DispatchEvent>) -> bool {
    forall|i: int| 0 <= i < evs.len() ==> !(#[trigger] evs[i] is Expire)
}

pub open spec fn opt_seq(p: Option<Opcode>) -> Seq<Opcode> {
    match p {
        Some(op) => seq![op],
        None => Seq::empty(),
    }
}

proof fn lemma_dispatch_run_from(p: Option<Opcode>, evs: Seq<DispatchEvent>)
    requires
        no_expiry(evs),
        dispatch_run(p, evs).is_some(),
    ensures
        ({
            let r = dispatch_run(p, evs).unwrap();
            let all = opt_seq(p) + r.1;
            &&& r.0.is_some() ==> all.len() >= 1 && r.0 == Some(all.last()) && r.2 == all.drop_last()
            &&& r.0.is_none() ==> r.2 == all
        }),
    decreases evs.len(),
{
    if evs.len() > 0 {
        let s = dispatch_step(p, evs[0]).unwrap();
        let rest = evs.skip(1);
        assert(no_expiry(rest)) by {
            assert forall|i: int| 0 <= i < rest.len() implies !(#[trigger] rest[i] is Expire) by {
                assert(rest[i] == evs[i + 1]);
            }
        }
        assert(!(evs[0] is Expire));
        lemma_dispatch_run_from(s.0, rest);
        let r = dispatch_run(s.0, rest).unwrap();
        let all1 = opt_seq(s.0) + r.1;
        let rr = dispatch_run(p, evs).unwrap();
        match evs[0] {
            DispatchEvent::Submit(op) => {
                assert(p.is_none());
                assert(opt_seq(p) + rr.1 =~= all1);
            },
            DispatchEvent::Respond(op) => {
                assert(p == Some(op));
                assert(opt_seq(p) + rr.1 =~= seq![op] + all1);
                assert(opt_seq(s.0) =~= Seq::<Opcode>::empty());
                assert(all1 =~= r.1);
                if r.0.is_some() {
                    assert((seq![op] + all1).drop_last() =~= seq![op] + all1.drop_last());
                }
            },
            DispatchEvent::Expire => {},
        }
    }
}

/// With no timeouts, commands submitted one at a time from an idle
/// dispatcher get their responses in submission order, each response
/// carrying its command's opcode: the responses delivered are exactly the
/// commands submitted, but the one still pending, if any.
pub proof fn lemma_single_in_flight(evs: Seq<DispatchEvent>)
    requires
        no_expiry(evs),
        dispatch_run(None, evs).is_some(),
    ensures
        ({
            let r = dispatch_run(None, evs).unwrap();
            &&& r.0.is_none() ==> r.2 == r.1
            &&& r.0.is_some() ==> r.1.len() >= 1 && r.0 == Some(r.1.last()) && r.2 == r.1.drop_last()
        }),
{
    lemma_dispatch_run_from(None, evs);
    let r = dispatch_run(None, evs).unwrap();
    assert(opt_seq(None) + r.1 =~= r.1);
}

} // verus!
