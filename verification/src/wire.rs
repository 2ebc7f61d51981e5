//! What travels between client and server.
//!
//! A packet is the serialized message followed by the 8 bytes of its type's
//! identifier, big-endian. On the TCP stream each packet is preceded by its
//! length as 4 bytes, big-endian.

use vstd::prelude::*;
use vstd::arithmetic::div_mod::{lemma_fundamental_div_mod_converse, lemma_mod_breakdown};

verus! {

/// `256` to the power `w`.
pub open spec fn base(w: nat) -> nat
    decreases w,
{
    if w == 0 {
        1
    } else {
        256 * base((w - 1) as nat)
    }
}

/// The number that big-endian bytes `b` write.
pub open spec fn be_value(b: Seq<u8>) -> nat
    decreases b.len(),
{
    if b.len() == 0 {
        0
    } else {
        be_value(b.drop_last()) * 256 + b.last() as nat
    }
}

/// The last `w` big-endian bytes of `n` (`n` modulo `256^w`).
pub open spec fn be_bytes(n: nat, w: nat) -> Seq<u8>
    decreases w,
{
    if w == 0 {
        seq![]
    } else {
        be_bytes(n / 256, (w - 1) as nat).push((n % 256) as u8)
    }
}

/// The big-endian writing of a number on `w` bytes has `w` bytes.
pub proof fn lemma_be_bytes_len(n: nat, w: nat)
    ensures
        be_bytes(n, w).len() == w,
    decreases w,
{
    if w > 0 {
        lemma_be_bytes_len(n / 256, (w - 1) as nat);
    }
}

/// The number of values of `w` bytes is positive.
pub proof fn lemma_base_positive(w: nat)
    ensures
        base(w) > 0,
    decreases w,
{
    if w > 0 {
        lemma_base_positive((w - 1) as nat);
    }
}

/// Reading back `w` bytes written from `n` gives `n` modulo `256^w`.
pub proof fn lemma_value_of_bytes(n: nat, w: nat)
    ensures
        be_value(be_bytes(n, w)) == n % base(w),
    decreases w,
{
    if w > 0 {
        lemma_value_of_bytes(n / 256, (w - 1) as nat);
        let b = be_bytes(n, w);
        assert(b.drop_last() == be_bytes(n / 256, (w - 1) as nat));
        lemma_base_positive((w - 1) as nat);
        lemma_mod_breakdown(n as int, 256, base((w - 1) as nat) as int);
    }
}

/// Writing back the number that bytes `b` hold gives `b`.
pub proof fn lemma_bytes_of_value(b: Seq<u8>)
    ensures
        be_bytes(be_value(b), b.len()) == b,
    decreases b.len(),
{
    if b.len() > 0 {
        let v = be_value(b.drop_last());
        lemma_bytes_of_value(b.drop_last());
        lemma_fundamental_div_mod_converse(be_value(b) as int, 256, v as int, b.last() as int);
        assert(be_bytes(be_value(b), b.len()) =~= b);
    }
}

/// `w` bytes hold a number below `256^w`.
pub proof fn lemma_value_bound(b: Seq<u8>)
    ensures
        be_value(b) < base(b.len()),
    decreases b.len(),
{
    if b.len() > 0 {
        lemma_value_bound(b.drop_last());
        let v = be_value(b.drop_last());
        let m = base((b.len() - 1) as nat);
        assert(v * 256 + b.last() < 256 * m) by (nonlinear_arith)
            requires v < m, b.last() < 256;
    }
}

proof fn lemma_base_values()
    ensures
        base(4) == 0x1_0000_0000,
        base(7) == 0x100_0000_0000_0000,
        base(8) == 0x1_0000_0000_0000_0000,
{
    reveal_with_fuel(base, 9);
}

proof fn lemma_base_monotone(a: nat, b: nat)
    requires
        a <= b,
    ensures
        base(a) <= base(b),
    decreases b,
{
    if a < b {
        lemma_base_monotone(a, (b - 1) as nat);
        lemma_base_positive((b - 1) as nat);
    }
}

/// Appends the last `w` big-endian bytes of `n` to `out`.
fn push_be(out: &mut Vec<u8>, n: u64, w: u8)
    ensures
        final(out)@ == old(out)@ + be_bytes(n as nat, w as nat),
    decreases w,
{
    if w > 0 {
        push_be(out, n / 256, w - 1);
        let ghost mid = out@;
        out.push((n % 256) as u8);
        proof {
            assert(out@ =~= old(out)@ + be_bytes(n as nat, w as nat));
        }
    } else {
        proof {
            assert(out@ =~= old(out)@ + be_bytes(n as nat, w as nat));
        }
    }
}

/// The number that the big-endian bytes `bytes` (at most 8) write.
fn be_decode(bytes: &[u8]) -> (r: u64)
    requires
        bytes@.len() <= 8,
    ensures
        r == be_value(bytes@),
{
    let mut v: u64 = 0;
    let mut i: usize = 0;
    proof {
        lemma_base_values();
    }
    while i < bytes.len()
        invariant
            i <= bytes@.len() <= 8,
            v == be_value(bytes@.take(i as int)),
            base(7) == 0x100_0000_0000_0000,
        decreases bytes@.len() - i,
    {
        proof {
            lemma_value_bound(bytes@.take(i as int));
            lemma_base_monotone(i as nat, 7);
            assert(bytes@.take(i + 1).drop_last() == bytes@.take(i as int));
        }
        v = v * 256 + bytes[i] as u64;
        i = i + 1;
    }
    proof {
        assert(bytes@.take(i as int) == bytes@);
    }
    v
}

/// Appends all of `src` to `out`.
fn append_bytes(out: &mut Vec<u8>, src: &[u8])
    ensures
        final(out)@ == old(out)@ + src@,
{
    let mut i: usize = 0;
    while i < src.len()
        invariant
            i <= src@.len(),
            out@ == old(out)@ + src@.take(i as int),
        decreases src@.len() - i,
    {
        out.push(src[i]);
        proof {
            assert(src@.take(i + 1) == src@.take(i as int).push(src@[i as int]));
            assert(out@ =~= old(out)@ + src@.take(i + 1));
        }
        i = i + 1;
    }
    proof {
        assert(src@.take(i as int) == src@);
    }
}

/// The bytes `src[from..to]`.
fn copy_range(src: &[u8], from: usize, to: usize) -> (r: Vec<u8>)
    requires
        from <= to <= src@.len(),
    ensures
        r@ == src@.subrange(from as int, to as int),
{
    let mut r: Vec<u8> = Vec::new();
    let mut i: usize = from;
    while i < to
        invariant
            from <= i <= to <= src@.len(),
            r@ == src@.subrange(from as int, i as int),
        decreases to - i,
    {
        r.push(src[i]);
        proof {
            assert(r@ =~= src@.subrange(from as int, i + 1));
        }
        i = i + 1;
    }
    r
}

/// The bytes that carry `p` on the stream: its length (modulo `2^32`) as
/// 4 big-endian bytes, then `p`.
pub open spec fn frame(p: Seq<u8>) -> Seq<u8> {
    be_bytes(p.len() % base(4), 4) + p
}

/// The first packet that a stream holds and the number of bytes it takes,
/// if the stream holds a whole one.
pub open spec fn decode_frame(s: Seq<u8>) -> Option<(Seq<u8>, nat)> {
    if s.len() < 4 {
        None
    } else {
        let n = be_value(s.take(4));
        if s.len() < 4 + n {
            None
        } else {
            Some((s.subrange(4, 4 + n as int), 4 + n))
        }
    }
}

/// The bytes to write on the stream for `packet`.
pub fn encode_frame(packet: &Vec<u8>) -> (r: Vec<u8>)
    ensures
        r@ == frame(packet@),
{
    proof {
        lemma_base_values();
    }
    let len: u64 = packet.len() as u64 % 0x1_0000_0000;
    let mut out: Vec<u8> = Vec::new();
    push_be(&mut out, len, 4);
    append_bytes(&mut out, packet.as_slice());
    proof {
        assert(out@ =~= frame(packet@));
    }
    out
}

/// The length of the packet that follows the 4-byte header `header`.
pub fn frame_length(header: &[u8]) -> (r: u32)
    requires
        header@.len() == 4,
    ensures
        r == be_value(header@),
{
    proof {
        lemma_value_bound(header@);
        lemma_base_values();
    }
    be_decode(header) as u32
}

/// The first packet of `stream` and the number of bytes it takes, or
/// `None` while the stream does not hold a whole packet yet.
pub fn read_frame(stream: &[u8]) -> (r: Option<(Vec<u8>, usize)>)
    ensures
        match decode_frame(stream@) {
            None => r is None,
            Some((p, n)) => r matches Some((q, m)) && q@ == p && m == n,
        },
{
    if stream.len() < 4 {
        return None;
    }
    let header = copy_range(stream, 0, 4);
    proof {
        assert(header@ == stream@.take(4));
    }
    let n = frame_length(header.as_slice());
    if stream.len() - 4 < n as usize {
        return None;
    }
    let end = 4 + n as usize;
    let p = copy_range(stream, 4, end);
    Some((p, end))
}

/// Reading the stream back gives each packet that was written, as long as
/// its length fits in 4 bytes.
pub proof fn lemma_frame_roundtrip(p: Seq<u8>, rest: Seq<u8>)
    requires
        p.len() < base(4),
    ensures
        decode_frame(frame(p) + rest) == Some((p, 4 + p.len())),
{
    lemma_base_values();
    lemma_be_bytes_len(p.len(), 4);
    let s = frame(p) + rest;
    assert(s.take(4) =~= be_bytes(p.len() % base(4), 4));
    lemma_value_of_bytes(p.len() % base(4), 4);
    assert(p.len() % base(4) == p.len());
    assert(s.subrange(4, 4 + p.len() as int) =~= p);
}

/// A packet: the message `d` followed by the identifier `id` of its type.
pub open spec fn tagged(d: Seq<u8>, id: u64) -> Seq<u8> {
    d + be_bytes(id as nat, 8)
}

/// The identifier and message of a packet; `None` for a packet shorter
/// than an identifier.
pub open spec fn untag(p: Seq<u8>) -> Option<(u64, Seq<u8>)> {
    if p.len() < 8 {
        None
    } else {
        Some((be_value(p.subrange(p.len() - 8, p.len() as int)) as u64, p.subrange(0, p.len() - 8)))
    }
}

/// Appends the identifier `id` to the message `data`.
pub fn tag_packet(data: Vec<u8>, id: u64) -> (r: Vec<u8>)
    ensures
        r@ == tagged(data@, id),
{
    let mut out = data;
    push_be(&mut out, id, 8);
    out
}

/// Splits a packet into its type's identifier and its message; `None` for
/// a packet too short to hold an identifier.
pub fn split_packet(packet: Vec<u8>) -> (r: Option<(u64, Vec<u8>)>)
    ensures
        match untag(packet@) {
            None => r is None,
            Some((id, d)) => r matches Some((i, m)) && i == id && m@ == d,
        },
{
    if packet.len() < 8 {
        return None;
    }
    let mut data = packet;
    let at = data.len() - 8;
    let id_buffer = data.split_off(at);
    proof {
        lemma_value_bound(id_buffer@);
        lemma_base_values();
    }
    let packet_id = be_decode(id_buffer.as_slice());
    Some((packet_id, data))
}

/// The identifier and message come back out of a packet unchanged.
pub proof fn lemma_tag_roundtrip(d: Seq<u8>, id: u64)
    ensures
        untag(tagged(d, id)) == Some((id, d)),
{
    lemma_be_bytes_len(id as nat, 8);
    lemma_value_of_bytes(id as nat, 8);
    lemma_base_values();
    let p = tagged(d, id);
    assert(p.subrange(p.len() - 8, p.len() as int) =~= be_bytes(id as nat, 8));
    assert(p.subrange(0, p.len() - 8) =~= d);
}

/// A packet long enough to hold an identifier is its message followed by
/// its identifier.
pub proof fn lemma_untag_tag(p: Seq<u8>)
    requires
        p.len() >= 8,
    ensures
        tagged(untag(p).unwrap().1, untag(p).unwrap().0) == p,
{
    let last = p.subrange(p.len() - 8, p.len() as int);
    lemma_value_bound(last);
    lemma_base_values();
    lemma_bytes_of_value(last);
    assert(tagged(untag(p).unwrap().1, untag(p).unwrap().0) =~= p);
}

/// The packets that the handlers receive from a list of received packets:
/// each one's identifier and message, those too short being dropped.
pub open spec fn valid_packets(rs: Seq<Seq<u8>>) -> Seq<(u64, Seq<u8>)>
    decreases rs.len(),
{
    if rs.len() == 0 {
        seq![]
    } else {
        let rest = valid_packets(rs.drop_last());
        match untag(rs.last()) {
            Some(x) => rest.push(x),
            None => rest,
        }
    }
}

/// Splits every received packet, in order, dropping those too short to
/// hold an identifier.
pub fn collect_packets(received: Vec<Vec<u8>>) -> (r: Vec<(u64, Vec<u8>)>)
    ensures
        r@.len() == valid_packets(received@.map_values(|v: Vec<u8>| v@)).len(),
        forall|k: int| 0 <= k < r@.len() ==> #[trigger] r@[k].0 == valid_packets(received@.map_values(|v: Vec<u8>| v@))[k].0
            && r@[k].1@ == valid_packets(received@.map_values(|v: Vec<u8>| v@))[k].1,
{
    let ghost all = received@;
    let ghost rs = all.map_values(|v: Vec<u8>| v@);
    let mut pending = received;
    let mut out: Vec<(u64, Vec<u8>)> = Vec::new();
    let ghost mut i: int = 0;
    while pending.len() > 0
        invariant
            0 <= i <= all.len(),
            pending@ == all.skip(i),
            rs == all.map_values(|v: Vec<u8>| v@),
            out@.len() == valid_packets(rs.take(i)).len(),
            forall|k: int| 0 <= k < out@.len() ==> #[trigger] out@[k].0 == valid_packets(rs.take(i))[k].0
                && out@[k].1@ == valid_packets(rs.take(i))[k].1,
        decreases pending@.len(),
    {
        let packet = pending.remove(0);
        proof {
            assert(packet == all[i]);
            assert(rs.take(i + 1).drop_last() == rs.take(i));
            assert(rs.take(i + 1).last() == packet@);
        }
        let ghost old_out = out@;
        let ghost vp = valid_packets(rs.take(i));
        let ghost nvp = valid_packets(rs.take(i + 1));
        let split = split_packet(packet);
        if let Some(x) = split {
            out.push(x);
            proof {
                assert(nvp == vp.push(untag(all[i]@).unwrap()));
                assert forall|k: int| 0 <= k < out@.len() implies #[trigger] out@[k].0 == nvp[k].0 && out@[k].1@ == nvp[k].1 by {
                    if k < old_out.len() {
                        assert(out@[k] == old_out[k]);
                    }
                }
            }
        } else {
            proof {
                assert(nvp == vp);
            }
        }
        proof {
            i = i + 1;
            assert(pending@ =~= all.skip(i));
        }
    }
    proof {
        assert(rs.take(i) == rs);
    }
    out
}

} // verus!
