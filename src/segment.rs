//! Segmentation of oversize payloads and reassembly of segmented packets,
//! driven by the Packet Boundary Flag.
use vstd::prelude::*;
use crate::packet::{
    copy_range, pbf_bit, spec_pbf_value, PacketBoundaryFlag, HEADER_SIZE,
};

verus! {

/// Largest payload one packet can carry: the length octet's range.
pub const MAX_SEGMENT_PAYLOAD: usize = 255;

/// `p` cut into pieces of `m` bytes, the last piece holding the rest
/// (between 1 and `m` bytes). A payload of at most `m` bytes, or a limit of
/// zero, gives the payload as the single piece.
pub open spec fn chunks(p: Seq<u8>, m: nat) -> Seq<Seq<u8>>
    decreases p.len(),
{
    if m == 0 || p.len() <= m {
        seq![p]
    } else {
        seq![p.take(m as int)] + chunks(p.skip(m as int), m)
    }
}

/// The pieces of `s` laid end to end.
pub open spec fn concat(s: Seq<Seq<u8>>) -> Seq<u8>
    decreases s.len(),
{
    if s.len() == 0 {
        Seq::empty()
    } else {
        s[0] + concat(s.skip(1))
    }
}

/// The values of a sequence of byte vectors.
pub open spec fn bytes_view(v: Seq<Vec<u8>>) -> Seq<Seq<u8>> {
    v.map_values(|b: Vec<u8>| b@)
}

/// Laying the pieces end to end gives back the payload.
pub proof fn lemma_chunks_concat(p: Seq<u8>, m: nat)
    ensures
        concat(chunks(p, m)) == p,
    decreases p.len(),
{
    if m == 0 || p.len() <= m {
        assert(chunks(p, m).skip(1) =~= Seq::<Seq<u8>>::empty());
        assert(concat(Seq::<Seq<u8>>::empty()) == Seq::<u8>::empty());
        assert(concat(chunks(p, m)) =~= p);
    } else {
        lemma_chunks_concat(p.skip(m as int), m);
        let c = chunks(p, m);
        assert(c.skip(1) =~= chunks(p.skip(m as int), m));
        assert(p.take(m as int) + p.skip(m as int) =~= p);
    }
}

/// Every piece but the last holds exactly `m` bytes; the last holds between
/// 1 and `m` bytes when the payload is not empty.
pub proof fn lemma_chunk_sizes(p: Seq<u8>, m: nat)
    requires
        m > 0,
    ensures
        chunks(p, m).len() >= 1,
        forall|i: int| 0 <= i < chunks(p, m).len() - 1 ==> #[trigger] chunks(p, m)[i].len() == m,
        p.len() > 0 ==> 0 < chunks(p, m).last().len() <= m,
        p.len() == 0 ==> chunks(p, m) == seq![p],
    decreases p.len(),
{
    if p.len() > m {
        lemma_chunk_sizes(p.skip(m as int), m);
        let c = chunks(p, m);
        let t = chunks(p.skip(m as int), m);
        assert forall|i: int| 0 <= i < c.len() - 1 implies #[trigger] c[i].len() == m by {
            if i > 0 {
                assert(c[i] == t[i - 1]);
            }
        }
    }
}

/// With `m > 0`, a payload of `l > 0` bytes gives `ceil(l / m)` pieces.
pub proof fn lemma_chunks_count(p: Seq<u8>, m: nat)
    requires
        m > 0,
        p.len() > 0,
    ensures
        chunks(p, m).len() == (p.len() + m - 1) / m as int,
    decreases p.len(),
{
    let l = p.len() as int;
    let mi = m as int;
    if l <= mi {
        assert((l + mi - 1) / mi == 1) by (nonlinear_arith)
            requires
                0 < l <= mi,
        ;
    } else {
        lemma_chunks_count(p.skip(m as int), m);
        assert((l + mi - 1) / mi == (l - mi + mi - 1) / mi + 1) by (nonlinear_arith)
            requires
                l > mi > 0,
        {
            vstd::arithmetic::div_mod::lemma_div_plus_one(l - 1, mi);
        }
    }
}

/// Splits `p` into its pieces as `chunks` describes them.
pub fn split_payload(p: &[u8], m: usize) -> (r: Vec<Vec<u8>>)
    ensures
        bytes_view(r@) == chunks(p@, m as nat),
{
    let mut out: Vec<Vec<u8>> = Vec::new();
    let mut pos: usize = 0;
    proof {
        assert(p@.skip(0) =~= p@);
        assert(bytes_view(out@) =~= Seq::<Seq<u8>>::empty());
        assert(bytes_view(out@) + chunks(p@.skip(0), m as nat) =~= chunks(p@, m as nat));
    }
    if m > 0 {
        while p.len() - pos > m
            invariant
                m > 0,
                pos <= p@.len(),
                bytes_view(out@) + chunks(p@.skip(pos as int), m as nat) == chunks(p@, m as nat),
            decreases p@.len() - pos,
        {
            let piece = copy_range(p, pos, pos + m);
            proof {
                let rest = p@.skip(pos as int);
                assert(rest.take(m as int) =~= piece@);
                assert(rest.skip(m as int) =~= p@.skip(pos + m));
                assert(bytes_view(out@.push(piece)) =~= bytes_view(out@).push(piece@));
                assert(bytes_view(out@) + chunks(rest, m as nat) =~= bytes_view(out@).push(piece@)
                    + chunks(p@.skip(pos + m), m as nat));
            }
            out.push(piece);
            pos = pos + m;
        }
    }
    let last = copy_range(p, pos, p.len());
    proof {
        assert(last@ =~= p@.skip(pos as int));
        assert(bytes_view(out@.push(last)) =~= bytes_view(out@) + chunks(p@.skip(pos as int), m as nat));
    }
    out.push(last);
    out
}

/// The PBF bit of header octet 0.
const PBF_MASK: u8 = 0x10;

/// Header octet 0 with its PBF bit replaced by `f`.
pub open spec fn with_pbf(b0: u8, f: PacketBoundaryFlag) -> u8 {
    (b0 as int - pbf_bit(b0) * 16 + spec_pbf_value(f) * 16) as u8
}

/// Clears the PBF bit of `b0` and sets it to `f`.
pub fn set_pbf(b0: u8, f: PacketBoundaryFlag) -> (r: u8)
    ensures
        r == with_pbf(b0, f),
{
    let v = f.value();
    let r = (b0 & !PBF_MASK) | (v << 4u8);
    assert(v <= 1 ==> (b0 & !0x10u8) | (v << 4u8) == (b0 - ((b0 / 16) % 2) * 16 + v * 16) as u8)
        by (bit_vector);
    r
}

/// The flag that piece `i` of `n` carries: Incomplete for all but the last.
pub open spec fn segment_flag(i: int, n: int) -> PacketBoundaryFlag {
    if i < n - 1 {
        PacketBoundaryFlag::Incomplete
    } else {
        PacketBoundaryFlag::CompleteOrFinal
    }
}

/// Frame `i` of the segmentation of the framed packet `pkt`.
pub open spec fn spec_frame(pkt: Seq<u8>, i: int) -> Seq<u8> {
    let c = chunks(pkt.skip(3), MAX_SEGMENT_PAYLOAD as nat);
    seq![with_pbf(pkt[0], segment_flag(i, c.len() as int)), pkt[1], c[i].len() as u8] + c[i]
}

/// Cuts a framed packet into frames whose payloads hold at most 255 bytes.
/// Each frame repeats octets 0 and 1 of the header, with the PBF bit set to
/// Incomplete on all but the last frame, and gives its own length.
pub fn segment_frames(pkt: &[u8]) -> (r: Vec<Vec<u8>>)
    requires
        pkt@.len() >= 3,
    ensures
        r@.len() == chunks(pkt@.skip(3), MAX_SEGMENT_PAYLOAD as nat).len(),
        forall|i: int| 0 <= i < r@.len() ==> (#[trigger] r@[i])@ == spec_frame(pkt@, i),
{
    let payload = copy_range(pkt, HEADER_SIZE, pkt.len());
    assert(payload@ =~= pkt@.skip(3));
    let pieces = split_payload(payload.as_slice(), MAX_SEGMENT_PAYLOAD);
    let ghost c = chunks(pkt@.skip(3), MAX_SEGMENT_PAYLOAD as nat);
    proof {
        lemma_chunk_sizes(pkt@.skip(3), MAX_SEGMENT_PAYLOAD as nat);
        assert(c.len() == pieces@.len());
    }
    let n = pieces.len();
    let mut out: Vec<Vec<u8>> = Vec::new();
    let mut i: usize = 0;
    while i < n
        invariant
            n == pieces@.len() == c.len(),
            bytes_view(pieces@) == c,
            pkt@.len() >= 3,
            c == chunks(pkt@.skip(3), MAX_SEGMENT_PAYLOAD as nat),
            forall|j: int| 0 <= j < c.len() - 1 ==> #[trigger] c[j].len() == MAX_SEGMENT_PAYLOAD,
            pkt@.skip(3).len() > 0 ==> 0 < c.last().len() <= MAX_SEGMENT_PAYLOAD,
            pkt@.skip(3).len() == 0 ==> c == seq![pkt@.skip(3)],
            i <= n,
            out@.len() == i,
            forall|j: int| 0 <= j < i ==> (#[trigger] out@[j])@ == spec_frame(pkt@, j),
        decreases n - i,
    {
        let flag = if i + 1 < n {
            PacketBoundaryFlag::Incomplete
        } else {
            PacketBoundaryFlag::CompleteOrFinal
        };
        let piece = &pieces[i];
        assert(piece@ == c[i as int]);
        let mut frame: Vec<u8> = Vec::new();
        frame.push(set_pbf(pkt[0], flag));
        frame.push(pkt[1]);
        frame.push(piece.len() as u8);
        let mut k: usize = 0;
        while k < piece.len()
            invariant
                k <= piece@.len(),
                frame@.len() == 3 + k,
                frame@.take(3) == seq![with_pbf(pkt@[0], flag), pkt@[1], piece@.len() as u8],
                frame@.skip(3) == piece@.take(k as int),
            decreases piece@.len() - k,
        {
            let ghost before = frame@;
            frame.push(piece[k]);
            k = k + 1;
            assert(frame@.take(3) =~= before.take(3));
            assert(frame@.skip(3) =~= piece@.take(k as int));
        }
        assert(frame@ =~= frame@.take(3) + frame@.skip(3));
        assert(frame@ =~= spec_frame(pkt@, i as int));
        out.push(frame);
        i = i + 1;
    }
    out
}

/// Rewriting the PBF bit keeps MT and the low nibble and sets the bit.
pub proof fn lemma_with_pbf(b0: u8, f: PacketBoundaryFlag)
    ensures
        pbf_bit(with_pbf(b0, f)) == spec_pbf_value(f),
        with_pbf(b0, f) as int / 32 == b0 as int / 32,
        with_pbf(b0, f) as int % 16 == b0 as int % 16,
{
    let a = b0 as int / 32;
    let p = (b0 as int / 16) % 2;
    let r = b0 as int % 16;
    assert(b0 as int == 32 * a + 16 * p + r) by (nonlinear_arith)
        requires
            a == b0 as int / 32,
            p == (b0 as int / 16) % 2,
            r == b0 as int % 16,
            0 <= b0 <= 255,
    {
        vstd::arithmetic::div_mod::lemma_fundamental_div_mod(b0 as int, 16);
        vstd::arithmetic::div_mod::lemma_fundamental_div_mod(b0 as int / 16, 2);
        vstd::arithmetic::div_mod::lemma_div_denominator(b0 as int, 16, 2);
    }
    let v = 32 * a + 16 * spec_pbf_value(f) + r;
    assert(with_pbf(b0, f) as int == v);
    assert(v / 32 == a && v % 16 == r && (v / 16) % 2 == spec_pbf_value(f)) by (nonlinear_arith)
        requires
            v == 32 * a + 16 * spec_pbf_value(f) + r,
            0 <= r < 16,
            0 <= spec_pbf_value(f) <= 1,
            0 <= a,
    ;
}

/// Segmenting a framed packet and laying the frames' payloads end to end
/// gives back its payload. Every frame keeps the packet's message type, low
/// nibble and octet 1; all frames but the last are Incomplete and the last
/// is CompleteOrFinal.
pub proof fn lemma_frames_round_trip(pkt: Seq<u8>)
    requires
        pkt.len() >= 3,
    ensures
        ({
            let n = chunks(pkt.skip(3), MAX_SEGMENT_PAYLOAD as nat).len();
            &&& n >= 1
            &&& concat(Seq::new(n, |i: int| spec_frame(pkt, i).skip(3))) == pkt.skip(3)
            &&& forall|i: int| 0 <= i < n ==> pbf_bit(#[trigger] spec_frame(pkt, i)[0]) == (if i < n - 1 { 1int } else { 0int })
            &&& forall|i: int| 0 <= i < n ==> (#[trigger] spec_frame(pkt, i))[0] as int / 32 == pkt[0] as int / 32
                && spec_frame(pkt, i)[0] as int % 16 == pkt[0] as int % 16 && spec_frame(pkt, i)[1] == pkt[1]
        }),
{
    let c = chunks(pkt.skip(3), MAX_SEGMENT_PAYLOAD as nat);
    let n = c.len();
    lemma_chunk_sizes(pkt.skip(3), MAX_SEGMENT_PAYLOAD as nat);
    lemma_chunks_concat(pkt.skip(3), MAX_SEGMENT_PAYLOAD as nat);
    assert(Seq::new(n, |i: int| spec_frame(pkt, i).skip(3)) =~= c) by {
        assert forall|i: int| 0 <= i < n implies #[trigger] spec_frame(pkt, i).skip(3) == c[i] by {
            assert(spec_frame(pkt, i).skip(3) =~= c[i]);
        }
    }
    assert forall|i: int| 0 <= i < n implies pbf_bit(#[trigger] spec_frame(pkt, i)[0]) == (if i < n - 1 { 1int } else { 0int })
        && spec_frame(pkt, i)[0] as int / 32 == pkt[0] as int / 32 && spec_frame(pkt, i)[0] as int % 16
        == pkt[0] as int % 16 && spec_frame(pkt, i)[1] == pkt[1] by {
        lemma_with_pbf(pkt[0], segment_flag(i, n as int));
    }
}

/// Accumulates the payloads of the segments of one message until the segment
/// whose PBF is CompleteOrFinal arrives.
pub struct Reassembler {
    buffer: Vec<u8>,
}

impl Reassembler {
    /// Payload bytes of the segments received so far.
    pub closed spec fn pending(&self) -> Seq<u8> {
        self.buffer@
    }

    pub fn new() -> (r: Reassembler)
        ensures
            r.pending() == Seq::<u8>::empty(),
    {
        Reassembler { buffer: Vec::new() }
    }

    /// Takes one segment: its three header octets and its payload. On the
    /// final segment returns the whole message, the final header followed by
    /// every payload in order, and starts afresh.
    pub fn push_segment(&mut self, header: &[u8], payload: &[u8]) -> (r: Option<Vec<u8>>)
        requires
            header@.len() == 3,
        ensures
            pbf_bit(header@[0]) == 1 ==> {
                &&& r.is_none()
                &&& final(self).pending() == old(self).pending() + payload@
            },
            pbf_bit(header@[0]) == 0 ==> {
                &&& r.is_some()
                &&& r.unwrap()@ == header@ + old(self).pending() + payload@
                &&& final(self).pending() == Seq::<u8>::empty()
            },
    {
        let mut i: usize = 0;
        let ghost start = self.buffer@;
        while i < payload.len()
            invariant
                i <= payload@.len(),
                self.buffer@ == start + payload@.take(i as int),
            decreases payload@.len() - i,
        {
            self.buffer.push(payload[i]);
            i = i + 1;
            assert(self.buffer@ =~= start + payload@.take(i as int));
        }
        assert(payload@.take(payload@.len() as int) =~= payload@);
        if header[0] / 16 % 2 == 1 {
            None
        } else {
            let mut whole = copy_range(header, 0, HEADER_SIZE);
            assert(whole@ =~= header@);
            whole.append(&mut self.buffer);
            Some(whole)
        }
    }
}

} // verus!
