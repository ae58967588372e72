//! Properties that every packetization of an H.264 access unit has, and those of a run of
//! Opus packetizations.
use vstd::prelude::*;

use crate::webrtc::packetizer::{
    annex_b_nal_units, annex_b_ranges_from, au_bodies, fu_a_end, fu_a_fragment, fu_a_from,
    lemma_next_start_code_bounds, lemma_seq_after_add, nal_bodies, next_start_code,
    is_opus_step, is_start_code3, is_start_code4, packetize_safe, seq_after, stamp, start_code_len,
    OpusRTPPacketizer, RtpPayloadView, FU_A_TYPE, RTP_HEADER_LEN,
};

verus! {

/// The bytes that a run of FU-A packets carries after their two-byte FU headers, in order.
pub open spec fn fu_a_reassemble(frags: Seq<(Seq<u8>, bool)>) -> Seq<u8>
    decreases frags.len(),
{
    if frags.len() == 0 {
        Seq::empty()
    } else {
        frags[0].0.subrange(2, frags[0].0.len() as int) + fu_a_reassemble(frags.drop_first())
    }
}

/// The NAL header that an FU-A packet's two header bytes encode.
pub open spec fn fu_a_nal_header(packet: Seq<u8>) -> u8 {
    (packet[0] & 0xE0u8) | (packet[1] & 0x1Fu8)
}

proof fn lemma_header_bits(h: u8, s: bool, e: bool)
    ensures
        ((((h & 0xE0u8) | FU_A_TYPE) & 0xE0u8) | ((((if s { 0x80u8 } else { 0u8 }) | (if e {
            0x40u8
        } else {
            0u8
        })) | (h & 0x1Fu8)) & 0x1Fu8)) == h,
        ((h & 0xE0u8) | FU_A_TYPE) & 0x1Fu8 == FU_A_TYPE,
        (((((if s { 0x80u8 } else { 0u8 }) | (if e { 0x40u8 } else { 0u8 })) | (h & 0x1Fu8))
            & 0x80u8) != 0) == s,
        (((((if s { 0x80u8 } else { 0u8 }) | (if e { 0x40u8 } else { 0u8 })) | (h & 0x1Fu8))
            & 0x40u8) != 0) == e,
{
    let sb: u8 = if s { 0x80u8 } else { 0u8 };
    let eb: u8 = if e { 0x40u8 } else { 0u8 };
    assert((((h & 0xE0u8) | 28u8) & 0xE0u8) | (((sb | eb) | (h & 0x1Fu8)) & 0x1Fu8) == h)
        by (bit_vector)
        requires
            sb == 0x80u8 || sb == 0u8,
            eb == 0x40u8 || eb == 0u8,
    ;
    assert(((h & 0xE0u8) | 28u8) & 0x1Fu8 == 28u8) by (bit_vector);
    assert(((((sb | eb) | (h & 0x1Fu8)) & 0x80u8) != 0) == (sb == 0x80u8)) by (bit_vector)
        requires
            sb == 0x80u8 || sb == 0u8,
            eb == 0x40u8 || eb == 0u8,
    ;
    assert(((((sb | eb) | (h & 0x1Fu8)) & 0x40u8) != 0) == (eb == 0x40u8)) by (bit_vector)
        requires
            sb == 0x80u8 || sb == 0u8,
            eb == 0x40u8 || eb == 0u8,
    ;
}

/// FU-A fragmentation loses nothing: the bytes that the fragments carry are the NAL unit
/// without its header, in order; every fragment is an FU-A packet (type 28) whose two header
/// bytes give back the NAL header; the start bit is set on the first fragment alone and the
/// end bit on the last alone; no fragment is longer than the payload budget and its two
/// header bytes; and the marker, if the unit ends its access unit, is set on the last alone.
pub proof fn lemma_fu_a_fragments_reassemble(nal: Seq<u8>, ps: int, last_nal: bool)
    requires
        nal.len() >= 2,
        ps >= 1,
    ensures
        ({
            let frags = fu_a_from(nal, ps, 1, last_nal);
            &&& frags.len() > 0
            &&& fu_a_reassemble(frags) == nal.subrange(1, nal.len() as int)
            &&& forall|k: int|
                0 <= k < frags.len() ==> {
                    &&& #[trigger] frags[k].0.len() >= 3
                    &&& frags[k].0.len() <= ps + 2
                    &&& fu_a_nal_header(frags[k].0) == nal[0]
                    &&& frags[k].0[0] & 0x1Fu8 == FU_A_TYPE
                    &&& ((frags[k].0[1] & 0x80u8) != 0) == (k == 0)
                    &&& ((frags[k].0[1] & 0x40u8) != 0) == (k == frags.len() - 1)
                    &&& frags[k].1 == (last_nal && k == frags.len() - 1)
                }
        }),
{
    lemma_fu_a_from_props(nal, ps, 1, last_nal);
}

proof fn lemma_fu_a_from_props(nal: Seq<u8>, ps: int, off: int, last_nal: bool)
    requires
        nal.len() >= 2,
        ps >= 1,
        1 <= off <= nal.len(),
    ensures
        ({
            let frags = fu_a_from(nal, ps, off, last_nal);
            &&& (frags.len() > 0) == (off < nal.len())
            &&& fu_a_reassemble(frags) == nal.subrange(off, nal.len() as int)
            &&& forall|k: int|
                0 <= k < frags.len() ==> {
                    &&& #[trigger] frags[k].0.len() >= 3
                    &&& frags[k].0.len() <= ps + 2
                    &&& fu_a_nal_header(frags[k].0) == nal[0]
                    &&& frags[k].0[0] & 0x1Fu8 == FU_A_TYPE
                    &&& ((frags[k].0[1] & 0x80u8) != 0) == (k == 0 && off == 1)
                    &&& ((frags[k].0[1] & 0x40u8) != 0) == (k == frags.len() - 1)
                    &&& frags[k].1 == (last_nal && k == frags.len() - 1)
                }
        }),
    decreases nal.len() - off,
{
    let frags = fu_a_from(nal, ps, off, last_nal);
    if off < nal.len() {
        let end = fu_a_end(nal.len() as int, off, ps);
        let rest = fu_a_from(nal, ps, end, last_nal);
        lemma_fu_a_from_props(nal, ps, end, last_nal);
        let first = fu_a_fragment(nal, off, end);
        assert(frags == seq![(first, last_nal && end == nal.len())] + rest);
        assert(frags.drop_first() =~= rest);
        assert(first.subrange(2, first.len() as int) =~= nal.subrange(off, end));
        assert(nal.subrange(off, end) + nal.subrange(end, nal.len() as int) =~= nal.subrange(
            off,
            nal.len() as int,
        ));
        lemma_header_bits(nal[0], off == 1, end == nal.len());
        assert(fu_a_nal_header(first) == nal[0]);
        assert forall|k: int| 0 <= k < frags.len() implies {
            &&& #[trigger] frags[k].0.len() >= 3
            &&& frags[k].0.len() <= ps + 2
            &&& fu_a_nal_header(frags[k].0) == nal[0]
            &&& frags[k].0[0] & 0x1Fu8 == FU_A_TYPE
            &&& ((frags[k].0[1] & 0x80u8) != 0) == (k == 0 && off == 1)
            &&& ((frags[k].0[1] & 0x40u8) != 0) == (k == frags.len() - 1)
            &&& frags[k].1 == (last_nal && k == frags.len() - 1)
        } by {
            if k > 0 {
                assert(frags[k] == rest[k - 1]);
                assert(rest[k - 1].0.len() >= 3);
            } else {
                assert((rest.len() > 0) == (end < nal.len()));
            }
        }
    } else {
        assert(nal.subrange(off, nal.len() as int) =~= Seq::<u8>::empty());
    }
}

proof fn lemma_ranges_from_bounds(d: Seq<u8>, start: int)
    requires
        0 <= start,
    ensures
        forall|i: int|
            0 <= i < annex_b_ranges_from(d, start).len() ==> start <= #[trigger] annex_b_ranges_from(
                d,
                start,
            )[i].0 < annex_b_ranges_from(d, start)[i].1 <= d.len(),
    decreases d.len() - start,
{
    if start < d.len() {
        let cl = start_code_len(d, start);
        if cl != 0 {
            let end = next_start_code(d, start + cl);
            lemma_next_start_code_bounds(d, start + cl);
            lemma_ranges_from_bounds(d, end);
            let rest = annex_b_ranges_from(d, end);
            let all = annex_b_ranges_from(d, start);
            if end > start + cl {
                assert(all == seq![(start + cl, end)] + rest);
                assert forall|i: int| 0 <= i < all.len() implies start <= #[trigger] all[i].0
                    < all[i].1 <= d.len() by {
                    if i > 0 {
                        assert(all[i] == rest[i - 1]);
                    }
                }
            } else {
                assert(all == rest);
            }
        }
    }
}

/// Every NAL unit that the Annex B reader finds is nonempty.
pub proof fn lemma_nal_units_nonempty(au: Seq<u8>)
    ensures
        forall|i: int|
            0 <= i < annex_b_nal_units(au).len() ==> #[trigger] annex_b_nal_units(au)[i].len() > 0,
{
    lemma_ranges_from_bounds(au, 0);
    assert forall|i: int|
        0 <= i < annex_b_nal_units(au).len() implies #[trigger] annex_b_nal_units(au)[i].len()
        > 0 by {
        let r = annex_b_ranges_from(au, 0)[i];
        assert(annex_b_nal_units(au)[i] == au.subrange(r.0, r.1));
    }
}

proof fn lemma_nal_bodies_props(nal: Seq<u8>, mtu: int, last_nal: bool)
    requires
        nal.len() > 0,
        mtu >= RTP_HEADER_LEN + 3 || (mtu >= RTP_HEADER_LEN && nal.len() + RTP_HEADER_LEN <= mtu),
    ensures
        ({
            let b = nal_bodies(nal, mtu, last_nal);
            &&& b.len() > 0
            &&& forall|k: int|
                0 <= k < b.len() ==> #[trigger] b[k].0.len() + RTP_HEADER_LEN <= mtu && b[k].1 == (
                last_nal && k == b.len() - 1)
        }),
{
    if nal.len() + RTP_HEADER_LEN > mtu {
        lemma_fu_a_fragments_reassemble(nal, mtu - RTP_HEADER_LEN - 2, last_nal);
    }
}

proof fn lemma_au_bodies_props(nals: Seq<Seq<u8>>, mtu: int, n: int)
    requires
        0 <= n <= nals.len(),
        forall|i: int|
            0 <= i < nals.len() ==> #[trigger] nals[i].len() > 0 && (mtu >= RTP_HEADER_LEN + 3 || (
            mtu >= RTP_HEADER_LEN && nals[i].len() + RTP_HEADER_LEN <= mtu)),
    ensures
        ({
            let b = au_bodies(nals, mtu, n);
            &&& (b.len() > 0) == (n > 0)
            &&& forall|k: int|
                0 <= k < b.len() ==> #[trigger] b[k].0.len() + RTP_HEADER_LEN <= mtu && b[k].1 == (
                n == nals.len() && k == b.len() - 1)
        }),
    decreases n,
{
    if n > 0 {
        lemma_au_bodies_props(nals, mtu, n - 1);
        let a = au_bodies(nals, mtu, n - 1);
        let c = nal_bodies(nals[n - 1], mtu, n == nals.len());
        lemma_nal_bodies_props(nals[n - 1], mtu, n == nals.len());
        let b = au_bodies(nals, mtu, n);
        assert(b == a + c);
        assert forall|k: int| 0 <= k < b.len() implies #[trigger] b[k].0.len() + RTP_HEADER_LEN
            <= mtu && b[k].1 == (n == nals.len() && k == b.len() - 1) by {
            if k < a.len() {
                assert(b[k] == a[k]);
                assert(a[k].0.len() + RTP_HEADER_LEN <= mtu);
                assert(c.len() > 0);
            } else {
                assert(b[k] == c[k - a.len()]);
                assert(c[k - a.len()].0.len() + RTP_HEADER_LEN <= mtu);
            }
        }
    }
}

/// Whatever access unit the packetizer accepts (see [`packetize_safe`]), every RTP payload it
/// produces fits the MTU budget beside the 12-byte RTP header, at least one payload is produced
/// when the unit holds a NAL unit, and the marker bit is set on the final payload alone.
pub proof fn lemma_packetize_payloads_fit_and_mark_last(au: Seq<u8>, mtu: int)
    requires
        packetize_safe(mtu, au),
        annex_b_nal_units(au).len() > 0,
    ensures
        ({
            let nals = annex_b_nal_units(au);
            let b = au_bodies(nals, mtu, nals.len() as int);
            &&& b.len() > 0
            &&& forall|k: int|
                0 <= k < b.len() ==> #[trigger] b[k].0.len() + RTP_HEADER_LEN <= mtu && b[k].1 == (k
                == b.len() - 1)
        }),
{
    let nals = annex_b_nal_units(au);
    lemma_nal_units_nonempty(au);
    assert forall|i: int| 0 <= i < nals.len() implies #[trigger] nals[i].len() > 0 && (mtu
        >= RTP_HEADER_LEN + 3 || (mtu >= RTP_HEADER_LEN && nals[i].len() + RTP_HEADER_LEN
        <= mtu)) by {
        assert(nals[i].len() > 0);
    }
    lemma_au_bodies_props(nals, mtu, nals.len() as int);
}

/// Sequence numbers run on across calls: advancing by `a` packets and then by `b`
/// packets is advancing by `a + b` packets, modulo 2^16.
pub proof fn lemma_sequence_numbers_compose(seq0: u16, a: int, b: int)
    requires
        0 <= a,
        0 <= b,
    ensures
        seq_after(seq_after(seq0, a), b) == seq_after(seq0, a + b),
{
    lemma_seq_after_add(seq0, a, b);
}


/// The bytes of each payload body.
pub open spec fn body_bytes(b: Seq<(Seq<u8>, bool)>) -> Seq<Seq<u8>> {
    b.map_values(|p: (Seq<u8>, bool)| p.0)
}

/// What a receiver makes of a run of H.264 RTP payloads (RFC 6184, non-interleaved mode):
/// a payload of type FU-A (28) with the start bit opens a NAL unit whose header its two FU
/// bytes give, and one without the start bit adds its bytes to the unit being reassembled
/// (and is dropped when there is none); any other payload is a NAL unit of its own.
pub open spec fn depacketize(payloads: Seq<Seq<u8>>) -> Seq<Seq<u8>>
    decreases payloads.len(),
{
    if payloads.len() == 0 {
        Seq::empty()
    } else {
        let prev = depacketize(payloads.drop_last());
        let p = payloads.last();
        if p.len() >= 2 && p[0] & 0x1Fu8 == FU_A_TYPE {
            if (p[1] & 0x80u8) != 0 {
                prev.push(seq![fu_a_nal_header(p)] + p.subrange(2, p.len() as int))
            } else if prev.len() > 0 {
                prev.update(prev.len() - 1, prev.last() + p.subrange(2, p.len() as int))
            } else {
                prev
            }
        } else {
            prev.push(p)
        }
    }
}

proof fn lemma_depacketize_fragments(
    nal: Seq<u8>,
    ps: int,
    off: int,
    last_nal: bool,
    before: Seq<Seq<u8>>,
    done: Seq<Seq<u8>>,
)
    requires
        nal.len() >= 2,
        ps >= 1,
        1 <= off <= nal.len(),
        off == 1 ==> depacketize(before) == done,
        off > 1 ==> depacketize(before) == done.push(seq![nal[0]] + nal.subrange(1, off)),
        off == 1 ==> off < nal.len(),
    ensures
        depacketize(before + body_bytes(fu_a_from(nal, ps, off, last_nal))) == done.push(nal),
    decreases nal.len() - off,
{
    let frags = fu_a_from(nal, ps, off, last_nal);
    if off < nal.len() {
        let end = fu_a_end(nal.len() as int, off, ps);
        let f = fu_a_fragment(nal, off, end);
        let rest = fu_a_from(nal, ps, end, last_nal);
        assert(frags == seq![(f, last_nal && end == nal.len())] + rest);
        assert(body_bytes(frags) =~= seq![f] + body_bytes(rest));
        let next = before.push(f);
        assert(before + body_bytes(frags) =~= next + body_bytes(rest));
        lemma_header_bits(nal[0], off == 1, end == nal.len());
        assert(next.drop_last() =~= before);
        assert(f.subrange(2, f.len() as int) =~= nal.subrange(off, end));
        let u = seq![nal[0]] + nal.subrange(1, end);
        if off == 1 {
            assert(seq![fu_a_nal_header(f)] + f.subrange(2, f.len() as int) =~= u);
            assert(depacketize(next) == done.push(u));
        } else {
            let w = seq![nal[0]] + nal.subrange(1, off);
            assert(w + nal.subrange(off, end) =~= u);
            assert(depacketize(next) =~= done.push(w).update(done.len() as int, u));
            assert(done.push(w).update(done.len() as int, u) =~= done.push(u));
        }
        if end < nal.len() {
            lemma_depacketize_fragments(nal, ps, end, last_nal, next, done);
        } else {
            assert(rest.len() == 0);
            assert(body_bytes(rest) =~= Seq::<Seq<u8>>::empty());
            assert(next + body_bytes(rest) =~= next);
            assert(u =~= nal);
        }
    } else {
        assert(frags.len() == 0);
        assert(body_bytes(frags) =~= Seq::<Seq<u8>>::empty());
        assert(before + body_bytes(frags) =~= before);
        assert(seq![nal[0]] + nal.subrange(1, off) =~= nal);
    }
}

proof fn lemma_depacketize_nal(nal: Seq<u8>, mtu: int, last_nal: bool, before: Seq<Seq<u8>>)
    requires
        nal.len() > 0,
        nal[0] & 0x1Fu8 != FU_A_TYPE,
        mtu >= RTP_HEADER_LEN + 3 || (mtu >= RTP_HEADER_LEN && nal.len() + RTP_HEADER_LEN <= mtu),
    ensures
        depacketize(before + body_bytes(nal_bodies(nal, mtu, last_nal))) == depacketize(before).push(
            nal,
        ),
{
    if nal.len() + RTP_HEADER_LEN <= mtu {
        assert(body_bytes(nal_bodies(nal, mtu, last_nal)) =~= seq![nal]);
        let next = before + seq![nal];
        assert(next =~= before.push(nal));
        assert(next.drop_last() =~= before);
    } else {
        lemma_depacketize_fragments(nal, mtu - RTP_HEADER_LEN - 2, 1, last_nal, before, depacketize(before));
    }
}

proof fn lemma_depacketize_au(nals: Seq<Seq<u8>>, mtu: int, n: int)
    requires
        0 <= n <= nals.len(),
        forall|i: int|
            0 <= i < nals.len() ==> #[trigger] nals[i].len() > 0 && nals[i][0] & 0x1Fu8 != FU_A_TYPE
                && (mtu >= RTP_HEADER_LEN + 3 || (mtu >= RTP_HEADER_LEN && nals[i].len()
                + RTP_HEADER_LEN <= mtu)),
    ensures
        depacketize(body_bytes(au_bodies(nals, mtu, n))) == nals.take(n),
    decreases n,
{
    if n == 0 {
        assert(body_bytes(au_bodies(nals, mtu, 0)) =~= Seq::<Seq<u8>>::empty());
        assert(nals.take(0) =~= Seq::<Seq<u8>>::empty());
    } else {
        lemma_depacketize_au(nals, mtu, n - 1);
        let a = au_bodies(nals, mtu, n - 1);
        let c = nal_bodies(nals[n - 1], mtu, n == nals.len());
        assert(au_bodies(nals, mtu, n) == a + c);
        assert(body_bytes(a + c) =~= body_bytes(a) + body_bytes(c));
        assert(nals[n - 1].len() > 0);
        lemma_depacketize_nal(nals[n - 1], mtu, n == nals.len(), body_bytes(a));
        assert(nals.take(n - 1).push(nals[n - 1]) =~= nals.take(n));
    }
}

/// What a receiver gets back of an access unit: depacketizing the payloads that the
/// packetizer produces (see [`depacketize`]) gives exactly the access unit's NAL units, in
/// order, for every access unit that the packetizer accepts whose NAL units are not themselves
/// of the FU-A type (which the Annex B stream of an encoder never holds).
pub proof fn lemma_depacketize_gives_back_nal_units(au: Seq<u8>, mtu: int)
    requires
        packetize_safe(mtu, au),
        forall|i: int|
            0 <= i < annex_b_nal_units(au).len() ==> #[trigger] annex_b_nal_units(au)[i][0] & 0x1Fu8
                != FU_A_TYPE,
    ensures
        ({
            let nals = annex_b_nal_units(au);
            depacketize(body_bytes(au_bodies(nals, mtu, nals.len() as int))) == nals
        }),
{
    let nals = annex_b_nal_units(au);
    lemma_nal_units_nonempty(au);
    assert forall|i: int| 0 <= i < nals.len() implies #[trigger] nals[i].len() > 0 && nals[i][0]
        & 0x1Fu8 != FU_A_TYPE && (mtu >= RTP_HEADER_LEN + 3 || (mtu >= RTP_HEADER_LEN
        && nals[i].len() + RTP_HEADER_LEN <= mtu)) by {
        assert(nals[i].len() > 0);
        assert(annex_b_nal_units(au)[i][0] & 0x1Fu8 != FU_A_TYPE);
    }
    lemma_depacketize_au(nals, mtu, nals.len() as int);
    assert(nals.take(nals.len() as int) =~= nals);
}


/// The sum of a run of RTP sample counts.
pub open spec fn samples_sum(samples: Seq<u32>) -> int
    decreases samples.len(),
{
    if samples.len() == 0 {
        0
    } else {
        samples_sum(samples.drop_last()) + samples.last()
    }
}

/// `states` are the Opus packetizer's states over a run of `packetize` calls with the sample
/// counts `samples`: each call leaves the next state as its contract says ([`is_opus_step`]).
pub open spec fn is_opus_run(states: Seq<OpusRTPPacketizer>, samples: Seq<u32>) -> bool {
    &&& states.len() == samples.len() + 1
    &&& forall|i: int|
        0 <= i < samples.len() ==> is_opus_step(states[i], states[i + 1], #[trigger] samples[i])
}

/// From a fresh Opus packetizer, after `k` packetizations the next payload carries sequence
/// number `k` modulo 2^16 and, as timestamp, the sum of the sample counts so far modulo 2^64.
pub proof fn lemma_opus_run(states: Seq<OpusRTPPacketizer>, samples: Seq<u32>)
    requires
        is_opus_run(states, samples),
        states[0].spec_sequence_number() == 0,
        states[0].spec_timestamp() == 0,
    ensures
        states.last().spec_sequence_number() == samples.len() % 0x10000,
        states.last().spec_timestamp() == samples_sum(samples) % 0x1_0000_0000_0000_0000,
{
    lemma_opus_run_prefix(states, samples, samples.len() as int);
    assert(samples.take(samples.len() as int) =~= samples);
}

proof fn lemma_opus_run_prefix(states: Seq<OpusRTPPacketizer>, samples: Seq<u32>, k: int)
    requires
        is_opus_run(states, samples),
        states[0].spec_sequence_number() == 0,
        states[0].spec_timestamp() == 0,
        0 <= k <= samples.len(),
    ensures
        states[k].spec_sequence_number() == k % 0x10000,
        states[k].spec_timestamp() == samples_sum(samples.take(k)) % 0x1_0000_0000_0000_0000,
    decreases k,
{
    if k == 0 {
        assert(samples.take(0).len() == 0);
    } else {
        lemma_opus_run_prefix(states, samples, k - 1);
        let x = samples[k - 1];
        assert(samples.take(k).drop_last() =~= samples.take(k - 1));
        assert(samples.take(k).last() == x);
        let t = samples_sum(samples.take(k - 1));
        let m: int = 0x1_0000_0000_0000_0000;
        vstd::arithmetic::div_mod::lemma_add_mod_noop(t, x as int, m);
        vstd::arithmetic::div_mod::lemma_small_mod(x as nat, m as nat);
        vstd::arithmetic::div_mod::lemma_mod_bound(t, m);
        vstd::arithmetic::div_mod::lemma_mod_bound(t + x, m);
        vstd::arithmetic::div_mod::lemma_add_mod_noop(k - 1, 1, 0x10000);
        vstd::arithmetic::div_mod::lemma_small_mod(1, 0x10000);
        vstd::arithmetic::div_mod::lemma_mod_bound(k - 1, 0x10000);
    }
}


/// An access unit's NAL units each go out in at least one payload, so there are at least as
/// many payloads as units; and a unit that fits beside the RTP header goes out whole, in the
/// one payload that follows those of the units before it (marked when it is the last unit).
/// The MTU leaves room for FU-A fragments, as the packetizer's constructor makes sure.
pub proof fn lemma_au_bodies_cover_units(nals: Seq<Seq<u8>>, mtu: int, n: int)
    requires
        mtu >= RTP_HEADER_LEN + 3,
        0 <= n <= nals.len(),
    ensures
        au_bodies(nals, mtu, n).len() >= n,
        forall|i: int|
            0 <= i < n && (#[trigger] nals[i]).len() + RTP_HEADER_LEN <= mtu ==> au_bodies(
                nals,
                mtu,
                i + 1,
            ) == au_bodies(nals, mtu, i).push((nals[i], i + 1 == nals.len())),
    decreases n,
{
    if n > 0 {
        lemma_au_bodies_cover_units(nals, mtu, n - 1);
        let nal = nals[n - 1];
        if nal.len() + RTP_HEADER_LEN > mtu {
            assert(fu_a_from(nal, mtu - RTP_HEADER_LEN - 2, 1, n == nals.len()).len() >= 1);
        }
        assert forall|i: int|
            0 <= i < n && (#[trigger] nals[i]).len() + RTP_HEADER_LEN <= mtu implies au_bodies(
                nals,
                mtu,
                i + 1,
            ) == au_bodies(nals, mtu, i).push((nals[i], i + 1 == nals.len())) by {
            assert(au_bodies(nals, mtu, i + 1) =~= au_bodies(nals, mtu, i) + seq![(nals[i], i + 1 == nals.len())]);
        }
    }
}


/// The bytes `00 00 01` (which every start code, three or four bytes long, ends with) occur
/// nowhere in `n`.
pub open spec fn free_of_start_codes(n: Seq<u8>) -> bool {
    forall|i: int| 0 <= i && i + 2 < n.len() ==> !(#[trigger] n[i] == 0 && n[i + 1] == 0 && n[i + 2] == 1)
}

proof fn lemma_no_start_code_after(d: Seq<u8>, from: int)
    requires
        4 <= from <= d.len(),
        d.len() >= 4,
        free_of_start_codes(d.subrange(4, d.len() as int)),
    ensures
        next_start_code(d, from) == d.len(),
    decreases d.len() - from,
{
    if from < d.len() {
        let n = d.subrange(4, d.len() as int);
        if is_start_code3(d, from) {
            assert(n[from - 4] == d[from]);
            assert(n[from - 4 + 1] == d[from + 1]);
            assert(n[from - 4 + 2] == d[from + 2]);
        }
        if is_start_code4(d, from) {
            assert(n[from - 3] == d[from + 1]);
            assert(n[from - 3 + 1] == d[from + 2]);
            assert(n[from - 3 + 2] == d[from + 3]);
        }
        lemma_no_start_code_after(d, from + 1);
    }
}

/// An access unit that is one start code followed by the bytes of one NAL unit holds that NAL
/// unit and nothing else, whatever the unit's header says (a non-IDR slice as much as an IDR
/// one); and the packetizer sends it as one marked payload carrying exactly those bytes at the
/// next sequence number, when it fits beside the RTP header.
pub proof fn lemma_single_nal_access_unit(n: Seq<u8>, mtu: int, timestamp: u64, seq0: u16)
    requires
        n.len() > 0,
        free_of_start_codes(n),
    ensures
        annex_b_nal_units(seq![0u8, 0u8, 0u8, 1u8] + n) == seq![n],
        annex_b_nal_units(seq![0u8, 0u8, 1u8] + n) == seq![n],
        n.len() + RTP_HEADER_LEN <= mtu ==> stamp(au_bodies(seq![n], mtu, 1), timestamp, seq0)
            == seq![RtpPayloadView { data: n, timestamp, sequence_number: seq0, marker: true }],
{
    let d = seq![0u8, 0u8, 0u8, 1u8] + n;
    assert(d.subrange(4, d.len() as int) =~= n);
    assert(is_start_code4(d, 0));
    assert(start_code_len(d, 0) == 4);
    lemma_no_start_code_after(d, 4);
    assert(annex_b_ranges_from(d, d.len() as int) == Seq::<(int, int)>::empty());
    assert(annex_b_ranges_from(d, 0) =~= seq![(4int, d.len() as int)]);
    assert(annex_b_nal_units(d) =~= seq![n]);

    let e = seq![0u8, 0u8, 1u8] + n;
    assert(!is_start_code4(e, 0));
    assert(is_start_code3(e, 0));
    assert(start_code_len(e, 0) == 3);
    lemma_no_start_code_after3(e, 3);
    assert(annex_b_ranges_from(e, e.len() as int) == Seq::<(int, int)>::empty());
    assert(annex_b_ranges_from(e, 0) =~= seq![(3int, e.len() as int)]);
    assert(e.subrange(3, e.len() as int) =~= n);
    assert(annex_b_nal_units(e) =~= seq![n]);

    if n.len() + RTP_HEADER_LEN <= mtu {
        assert(au_bodies(seq![n], mtu, 0) == Seq::<(Seq<u8>, bool)>::empty());
        assert(au_bodies(seq![n], mtu, 1) =~= seq![(n, true)]);
        assert(seq_after(seq0, 0) == seq0) by {
            vstd::arithmetic::div_mod::lemma_small_mod(seq0 as nat, 0x10000);
        }
        assert(stamp(au_bodies(seq![n], mtu, 1), timestamp, seq0) =~= seq![
            RtpPayloadView { data: n, timestamp, sequence_number: seq0, marker: true },
        ]);
    }
}

proof fn lemma_no_start_code_after3(d: Seq<u8>, from: int)
    requires
        3 <= from <= d.len(),
        d.len() >= 3,
        free_of_start_codes(d.subrange(3, d.len() as int)),
    ensures
        next_start_code(d, from) == d.len(),
    decreases d.len() - from,
{
    if from < d.len() {
        let n = d.subrange(3, d.len() as int);
        if is_start_code3(d, from) {
            assert(n[from - 3] == d[from]);
            assert(n[from - 3 + 1] == d[from + 1]);
            assert(n[from - 3 + 2] == d[from + 2]);
        }
        if is_start_code4(d, from) {
            assert(n[from - 2] == d[from + 1]);
            assert(n[from - 2 + 1] == d[from + 2]);
            assert(n[from - 2 + 2] == d[from + 3]);
        }
        lemma_no_start_code_after3(d, from + 1);
    }
}


proof fn lemma_next_start_code_is(d: Seq<u8>, from: int, to: int)
    requires
        0 <= from <= to <= d.len(),
        forall|i: int| from <= i < to ==> !is_start_code3(d, i) && !is_start_code4(d, i),
        to == d.len() || is_start_code3(d, to) || is_start_code4(d, to),
    ensures
        next_start_code(d, from) == to,
    decreases to - from,
{
    if from < to {
        lemma_next_start_code_is(d, from + 1, to);
    }
}

/// An access unit of two NAL units, each after a four-byte start code, holds exactly those two
/// units in order, whatever their headers say; the first must not end in a zero byte (which
/// would read as part of the start code after it).
pub proof fn lemma_two_nal_access_unit(a: Seq<u8>, b: Seq<u8>)
    requires
        a.len() > 0,
        b.len() > 0,
        a.last() != 0,
        free_of_start_codes(a),
        free_of_start_codes(b),
    ensures
        annex_b_nal_units(seq![0u8, 0u8, 0u8, 1u8] + a + seq![0u8, 0u8, 0u8, 1u8] + b) == seq![a, b],
{
    let sc = seq![0u8, 0u8, 0u8, 1u8];
    let d = sc + a + sc + b;
    let m: int = 4 + a.len() as int;
    assert(d.subrange(4, m) =~= a);
    assert(d.subrange(m + 4, d.len() as int) =~= b);
    assert forall|i: int| 4 <= i < m implies !is_start_code3(d, i) && !is_start_code4(d, i) by {
        assert(d[i] == a[i - 4]);
        if i + 1 < m {
            assert(d[i + 1] == a[i - 3]);
        }
        if i + 2 < m {
            assert(d[i + 2] == a[i - 2]);
        }
        if i + 3 < m {
            assert(d[i + 3] == a[i - 1]);
        }
        if i == m - 1 {
            assert(d[i] == a.last());
        } else if i == m - 2 {
            assert(d[i + 1] == a.last());
        } else if i == m - 3 {
            assert(d[i + 2] == a.last());
            if is_start_code3(d, i) {
                assert(a[i - 4] == 0 && a[i - 4 + 1] == 0 && a[i - 4 + 2] == 1);
            }
        } else {
            if is_start_code3(d, i) {
                assert(a[i - 4] == 0 && a[i - 4 + 1] == 0 && a[i - 4 + 2] == 1);
            }
            if is_start_code4(d, i) {
                assert(a[i - 3] == 0 && a[i - 3 + 1] == 0 && a[i - 3 + 2] == 1);
            }
        }
    }
    assert(is_start_code4(d, m));
    lemma_next_start_code_is(d, 4, m);
    assert forall|i: int| m + 4 <= i < d.len() implies !is_start_code3(d, i) && !is_start_code4(d, i) by {
        let k = i - (m + 4);
        assert(d[i] == b[k]);
        if is_start_code3(d, i) {
            assert(b[k] == 0 && b[k + 1] == 0 && b[k + 2] == 1);
        }
        if is_start_code4(d, i) {
            assert(b[k + 1] == 0 && b[k + 1 + 1] == 0 && b[k + 1 + 2] == 1);
        }
    }
    lemma_next_start_code_is(d, m + 4, d.len() as int);
    assert(is_start_code4(d, 0));
    assert(annex_b_ranges_from(d, d.len() as int) == Seq::<(int, int)>::empty());
    assert(annex_b_ranges_from(d, m) =~= seq![(m + 4, d.len() as int)]);
    assert(annex_b_ranges_from(d, 0) =~= seq![(4int, m), (m + 4, d.len() as int)]);
    assert(annex_b_nal_units(d) =~= seq![a, b]);
}

} // verus!
