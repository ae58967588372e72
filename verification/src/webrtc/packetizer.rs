//! RTP packetization of H.264 access units (RFC 6184) and Opus packets (RFC 7587).
use vstd::prelude::*;

use crate::bytes::{copy_bytes, extend_bytes};

verus! {

/// Bytes taken by the fixed RTP header in every packet.
pub const RTP_HEADER_LEN: usize = 12;

/// Largest MTU budget that the H.264 packetizer works with.
pub const MAX_MTU: usize = 1200;

/// NAL unit type of an FU-A fragmentation unit.
pub const FU_A_TYPE: u8 = 28;

/// RTP payload for WebRTC transmission
#[derive(Debug, Clone)]
pub struct RtpPayload {
    pub data: Vec<u8>,
    pub timestamp: u64,
    pub sequence_number: u16,
    pub marker: bool,
}

/// The mathematical value of an [`RtpPayload`].
pub struct RtpPayloadView {
    pub data: Seq<u8>,
    pub timestamp: u64,
    pub sequence_number: u16,
    pub marker: bool,
}

impl View for RtpPayload {
    type V = RtpPayloadView;

    open spec fn view(&self) -> RtpPayloadView {
        RtpPayloadView {
            data: self.data@,
            timestamp: self.timestamp,
            sequence_number: self.sequence_number,
            marker: self.marker,
        }
    }
}

impl RtpPayload {
    /// A copy of this payload.
    pub fn duplicate(&self) -> (p: Self)
        ensures
            p@ == self@,
    {
        RtpPayload {
            data: crate::bytes::copy_bytes(self.data.as_slice()),
            timestamp: self.timestamp,
            sequence_number: self.sequence_number,
            marker: self.marker,
        }
    }
}

/// The views of a sequence of payloads.
pub open spec fn payload_views(v: Seq<RtpPayload>) -> Seq<RtpPayloadView> {
    v.map_values(|p: RtpPayload| p@)
}

/// The sequence number that follows `seq` after `n` packets, modulo 2^16.
pub open spec fn seq_after(seq: u16, n: int) -> u16 {
    ((seq as int + n) % 0x10000) as u16
}

/// Gives a run of payload bodies (data and marker bit) their shared timestamp
/// and consecutive sequence numbers starting at `seq0`.
pub open spec fn stamp(bodies: Seq<(Seq<u8>, bool)>, timestamp: u64, seq0: u16) -> Seq<RtpPayloadView> {
    Seq::new(
        bodies.len(),
        |j: int|
            RtpPayloadView {
                data: bodies[j].0,
                timestamp: timestamp,
                sequence_number: seq_after(seq0, j),
                marker: bodies[j].1,
            },
    )
}

// ---------------------------------------------------------------------------
// Annex B byte streams
// ---------------------------------------------------------------------------

/// A three-byte start code `00 00 01` begins at `i`.
pub open spec fn is_start_code3(d: Seq<u8>, i: int) -> bool {
    0 <= i && i + 2 < d.len() && d[i] == 0 && d[i + 1] == 0 && d[i + 2] == 1
}

/// A four-byte start code `00 00 00 01` begins at `i`.
pub open spec fn is_start_code4(d: Seq<u8>, i: int) -> bool {
    0 <= i && i + 3 < d.len() && d[i] == 0 && d[i + 1] == 0 && d[i + 2] == 0 && d[i + 3] == 1
}

/// Length of the start code at `i` (the four-byte one preferred), or 0 if none begins there.
pub open spec fn start_code_len(d: Seq<u8>, i: int) -> int {
    if is_start_code4(d, i) {
        4
    } else if is_start_code3(d, i) {
        3
    } else {
        0
    }
}

/// The first position at or after `from` where a start code begins, or the
/// length of `d` if there is none.
pub open spec fn next_start_code(d: Seq<u8>, from: int) -> int
    decreases d.len() - from,
{
    if from >= d.len() {
        d.len() as int
    } else if is_start_code3(d, from) || is_start_code4(d, from) {
        from
    } else {
        next_start_code(d, from + 1)
    }
}

pub proof fn lemma_next_start_code_bounds(d: Seq<u8>, from: int)
    requires
        0 <= from <= d.len(),
    ensures
        from <= next_start_code(d, from) <= d.len(),
        forall|i: int|
            from <= i < next_start_code(d, from) ==> !is_start_code3(d, i) && !is_start_code4(d, i),
        next_start_code(d, from) < d.len() ==> is_start_code3(d, next_start_code(d, from))
            || is_start_code4(d, next_start_code(d, from)),
    decreases d.len() - from,
{
    if from < d.len() && !(is_start_code3(d, from) || is_start_code4(d, from)) {
        lemma_next_start_code_bounds(d, from + 1);
    }
}

/// The index ranges of the NAL units of an Annex B stream, read from position `start`:
/// each unit runs from just after a start code to the next start code (or the end),
/// empty units are skipped, and reading stops at the first position that holds no start code.
pub open spec fn annex_b_ranges_from(d: Seq<u8>, start: int) -> Seq<(int, int)>
    decreases d.len() - start,
{
    if start < 0 || start >= d.len() {
        Seq::empty()
    } else {
        let cl = start_code_len(d, start);
        if cl == 0 {
            Seq::empty()
        } else {
            let end = next_start_code(d, start + cl);
            proof {
                lemma_next_start_code_bounds(d, start + cl);
            }
            if end > start + cl {
                seq![(start + cl, end)] + annex_b_ranges_from(d, end)
            } else {
                annex_b_ranges_from(d, end)
            }
        }
    }
}

/// The NAL units of an Annex B access unit.
pub open spec fn annex_b_nal_units(d: Seq<u8>) -> Seq<Seq<u8>> {
    annex_b_ranges_from(d, 0).map_values(|r: (int, int)| d.subrange(r.0, r.1))
}

// ---------------------------------------------------------------------------
// FU-A fragmentation
// ---------------------------------------------------------------------------

/// The FU-A packet that carries `nal[off..end]`: FU indicator (NRI bits of the NAL
/// header with type 28), FU header (start bit, end bit, original NAL type), then the bytes.
pub open spec fn fu_a_fragment(nal: Seq<u8>, off: int, end: int) -> Seq<u8> {
    seq![
        (nal[0] & 0xE0u8) | FU_A_TYPE,
        ((if off == 1 { 0x80u8 } else { 0u8 }) | (if end == nal.len() { 0x40u8 } else { 0u8 })) | (
        nal[0] & 0x1Fu8),
    ] + nal.subrange(off, end)
}

/// Where the fragment that starts at `off` ends, with `ps` payload bytes per fragment.
pub open spec fn fu_a_end(len: int, off: int, ps: int) -> int {
    if len - off > ps {
        off + ps
    } else {
        len
    }
}

/// The FU-A packets (bytes and marker bit) that carry `nal[off..]`, `ps` bytes of the
/// NAL unit in each; the marker is set on the final one if the unit ends the access unit.
pub open spec fn fu_a_from(nal: Seq<u8>, ps: int, off: int, last_nal: bool) -> Seq<(Seq<u8>, bool)>
    decreases nal.len() - off,
{
    if ps <= 0 || off < 1 || off >= nal.len() {
        Seq::empty()
    } else {
        let end = fu_a_end(nal.len() as int, off, ps);
        seq![(fu_a_fragment(nal, off, end), last_nal && end == nal.len())] + fu_a_from(
            nal,
            ps,
            end,
            last_nal,
        )
    }
}

/// The packets that carry one NAL unit with the given MTU budget: the unit itself
/// when it fits beside the RTP header, else its FU-A fragments.
pub open spec fn nal_bodies(nal: Seq<u8>, mtu: int, last_nal: bool) -> Seq<(Seq<u8>, bool)> {
    if nal.len() + RTP_HEADER_LEN <= mtu {
        seq![(nal, last_nal)]
    } else {
        fu_a_from(nal, mtu - RTP_HEADER_LEN - 2, 1, last_nal)
    }
}

/// The packets that carry the first `n` NAL units of an access unit.
pub open spec fn au_bodies(nals: Seq<Seq<u8>>, mtu: int, n: int) -> Seq<(Seq<u8>, bool)>
    decreases n,
{
    if n <= 0 || n > nals.len() {
        Seq::empty()
    } else {
        au_bodies(nals, mtu, n - 1) + nal_bodies(nals[n - 1], mtu, n == nals.len())
    }
}

/// The packetizer neither panics nor loops forever on this access unit: the MTU leaves
/// room for FU-A fragments, or every NAL unit fits whole beside the RTP header.
pub open spec fn packetize_safe(mtu: int, au: Seq<u8>) -> bool {
    let nals = annex_b_nal_units(au);
    ||| mtu >= RTP_HEADER_LEN + 3
    ||| nals.len() == 0
    ||| (mtu >= RTP_HEADER_LEN && forall|i: int|
        0 <= i < nals.len() ==> #[trigger] nals[i].len() + RTP_HEADER_LEN <= mtu)
}

proof fn lemma_seq_step(seq0: u16, j: int)
    requires
        0 <= j,
    ensures
        seq_after(seq0, j) as int + 1 > u16::MAX ==> (seq_after(seq0, j) as int + 1 - 0x10000) as u16
            == seq_after(seq0, j + 1),
        seq_after(seq0, j) as int + 1 <= u16::MAX ==> (seq_after(seq0, j) as int + 1) as u16
            == seq_after(seq0, j + 1),
{
    let a = seq0 as int + j;
    assert((a % 0x10000 + 1) % 0x10000 == (a + 1) % 0x10000) by {
        vstd::arithmetic::div_mod::lemma_add_mod_noop(a, 1, 0x10000);
        vstd::arithmetic::div_mod::lemma_mod_twice(a, 0x10000);
        vstd::arithmetic::div_mod::lemma_small_mod(1, 0x10000);
    }
    assert(0 <= a % 0x10000 < 0x10000) by {
        vstd::arithmetic::div_mod::lemma_mod_bound(a, 0x10000);
    }
    if a % 0x10000 + 1 < 0x10000 {
        vstd::arithmetic::div_mod::lemma_small_mod((a % 0x10000 + 1) as nat, 0x10000);
    }
}

/// H.264 RTP packetizer implementing RFC 6184
pub struct H264RTPPacketizer {
    mtu: usize,
    sequence_number: u16,
}

impl H264RTPPacketizer {
    /// The MTU budget in use.
    pub closed spec fn spec_mtu(&self) -> nat {
        self.mtu as nat
    }

    /// The sequence number that the next payload receives.
    pub closed spec fn spec_sequence_number(&self) -> u16 {
        self.sequence_number
    }

    /// Create a new H.264 RTP packetizer
    pub fn new(mtu: usize) -> (p: Self)
        ensures
            p.spec_mtu() == (if mtu < MAX_MTU { mtu } else { MAX_MTU }),
            p.spec_sequence_number() == 0,
    {
        Self { mtu: if mtu < MAX_MTU { mtu } else { MAX_MTU }, sequence_number: 0 }
    }

    /// The MTU budget in use.
    pub fn mtu(&self) -> (m: usize)
        ensures
            m == self.spec_mtu(),
    {
        self.mtu
    }

    /// The sequence number that the next payload receives.
    pub fn sequence_number(&self) -> (s: u16)
        ensures
            s == self.spec_sequence_number(),
    {
        self.sequence_number
    }

    /// Packetize an Annex B H.264 access unit into RTP payloads
    pub fn packetize(&mut self, access_unit: &[u8], timestamp: u64) -> (res: Result<
        Vec<RtpPayload>,
        String,
    >)
        requires
            packetize_safe(old(self).spec_mtu() as int, access_unit@),
        ensures
            final(self).spec_mtu() == old(self).spec_mtu(),
            annex_b_nal_units(access_unit@).len() == 0 ==> {
                &&& res is Err
                &&& res->Err_0@ == "No valid NAL units found in access unit"@
                &&& final(self).spec_sequence_number() == old(self).spec_sequence_number()
            },
            annex_b_nal_units(access_unit@).len() > 0 ==> {
                let nals = annex_b_nal_units(access_unit@);
                let bodies = au_bodies(nals, old(self).spec_mtu() as int, nals.len() as int);
                &&& res is Ok
                &&& payload_views(res->Ok_0@) == stamp(
                    bodies,
                    timestamp,
                    old(self).spec_sequence_number(),
                )
                &&& final(self).spec_sequence_number() == seq_after(
                    old(self).spec_sequence_number(),
                    bodies.len() as int,
                )
            },
    {
        let nal_units = match Self::parse_annex_b_nal_units(access_unit) {
            Ok(n) => n,
            Err(e) => {
                return Err(e);
            },
        };
        let ghost nals = annex_b_nal_units(access_unit@);
        let ghost mtu = self.mtu as int;
        let ghost seq0 = self.sequence_number;
        let mut payloads: Vec<RtpPayload> = Vec::new();
        let mut idx: usize = 0;
        assert(payload_views(payloads@) =~= stamp(au_bodies(nals, mtu, 0), timestamp, seq0));
        while idx < nal_units.len()
            invariant
                nal_units@.len() == nals.len(),
                nals.len() > 0,
                forall|i: int| 0 <= i < nals.len() ==> #[trigger] nal_units@[i]@ == nals[i],
                forall|i: int| 0 <= i < nals.len() ==> #[trigger] nals[i].len() > 0,
                packetize_safe(mtu, access_unit@),
                nals == annex_b_nal_units(access_unit@),
                0 <= idx <= nals.len(),
                self.mtu == mtu,
                payload_views(payloads@) == stamp(au_bodies(nals, mtu, idx as int), timestamp, seq0),
                self.sequence_number == seq_after(seq0, au_bodies(nals, mtu, idx as int).len() as int),
            decreases nals.len() - idx,
        {
            let nal_unit: &[u8] = nal_units[idx];
            let is_last_nal = idx + 1 == nal_units.len();
            let ghost before = au_bodies(nals, mtu, idx as int);
            let ghost prev = payloads@;
            assert(au_bodies(nals, mtu, idx + 1) == before + nal_bodies(
                nals[idx as int],
                mtu,
                is_last_nal,
            ));
            if nal_unit.len() <= self.mtu - RTP_HEADER_LEN {
                let data = copy_bytes(nal_unit);
                proof {
                    lemma_seq_step(seq0, before.len() as int);
                }
                payloads.push(
                    RtpPayload {
                        data,
                        timestamp,
                        sequence_number: self.sequence_number,
                        marker: is_last_nal,
                    },
                );
                self.sequence_number = self.sequence_number.wrapping_add(1);
                proof {
                    let p = payloads@.last();
                    assert(payloads@ =~= prev.push(p));
                    lemma_views_push(prev, p);
                    lemma_stamp_push(before, (nals[idx as int], is_last_nal), timestamp, seq0);
                    assert(before.push((nals[idx as int], is_last_nal)) =~= au_bodies(
                        nals,
                        mtu,
                        idx + 1,
                    ));
                }
                assert(payload_views(payloads@) =~= stamp(
                    au_bodies(nals, mtu, idx + 1),
                    timestamp,
                    seq0,
                ));
            } else {
                assert(self.mtu >= RTP_HEADER_LEN + 3);
                let mut frags = match self.fragment_nal_unit(nal_unit, timestamp, is_last_nal) {
                    Ok(f) => f,
                    Err(e) => {
                        return Err(e);
                    },
                };
                let ghost fb = fu_a_from(nals[idx as int], mtu - 14, 1, is_last_nal);
                assert(nal_bodies(nals[idx as int], mtu, is_last_nal) == fb);
                proof {
                    lemma_stamp_concat(before, fb, timestamp, seq0);
                }
                let ghost fr = frags@;
                payloads.append(&mut frags);
                assert(payload_views(payloads@) =~= payload_views(prev) + payload_views(fr)) by {
                    assert(payloads@ =~= prev + fr);
                    lemma_views_concat(prev, fr);
                    assert(payload_views(payloads@) =~= stamp(before, timestamp, seq0) + stamp(
                        fb,
                        timestamp,
                        seq_after(seq0, before.len() as int),
                    ));
                }
                assert(payload_views(payloads@) =~= stamp(
                    au_bodies(nals, mtu, idx + 1),
                    timestamp,
                    seq0,
                ));
                proof {
                    lemma_seq_after_add(seq0, before.len() as int, fb.len() as int);
                }
            }
            idx = idx + 1;
        }
        Ok(payloads)
    }

    /// Parse Annex B start codes to extract NAL units
    fn parse_annex_b_nal_units(data: &[u8]) -> (res: Result<Vec<&[u8]>, String>)
        ensures
            annex_b_nal_units(data@).len() == 0 <==> res is Err,
            res is Err ==> res->Err_0@ == "No valid NAL units found in access unit"@,
            res is Ok ==> res->Ok_0@.len() == annex_b_nal_units(data@).len() && (forall|i: int|
                0 <= i < res->Ok_0@.len() ==> #[trigger] res->Ok_0@[i]@ == annex_b_nal_units(
                    data@,
                )[i]) && (forall|i: int|
                0 <= i < res->Ok_0@.len() ==> #[trigger] annex_b_nal_units(data@)[i].len() > 0),
    {
        let ghost d = data@;
        let mut nal_units: Vec<&[u8]> = Vec::new();
        let ghost mut taken: Seq<(int, int)> = Seq::empty();
        let mut start: usize = 0;
        while start < data.len()
            invariant
                0 <= start <= d.len(),
                d == data@,
                taken + annex_b_ranges_from(d, start as int) == annex_b_ranges_from(d, 0),
                nal_units@.len() == taken.len(),
                forall|i: int|
                    0 <= i < taken.len() ==> #[trigger] nal_units@[i]@ == d.subrange(
                        taken[i].0,
                        taken[i].1,
                    ) && 0 <= taken[i].0 < taken[i].1 <= d.len(),
            ensures
                annex_b_ranges_from(d, start as int) == Seq::<(int, int)>::empty(),
            decreases d.len() - start,
        {
            let code_len: usize = if data.len() - start > 3 && data[start] == 0 && data[start
                + 1] == 0 && data[start + 2] == 0 && data[start + 3] == 1 {
                4
            } else if data.len() - start > 2 && data[start] == 0 && data[start + 1] == 0
                && data[start + 2] == 1 {
                3
            } else {
                0
            };
            if code_len == 0 {
                assert(annex_b_ranges_from(d, start as int) =~= Seq::<(int, int)>::empty());
                break ;
            }
            assert(code_len == start_code_len(d, start as int));
            let mut end: usize = start + code_len;
            proof {
                lemma_next_start_code_bounds(d, end as int);
            }
            while end < data.len()
                invariant_except_break
                    start + code_len <= end <= d.len(),
                    d == data@,
                    next_start_code(d, end as int) == next_start_code(
                        d,
                        (start + code_len) as int,
                    ),
                ensures
                    start + code_len <= end <= d.len(),
                    end == next_start_code(d, (start + code_len) as int),
                decreases d.len() - end,
            {
                if data.len() - end > 2 && data[end] == 0 && data[end + 1] == 0 && data[end + 2]
                    == 1 {
                    break ;
                }
                if data.len() - end > 3 && data[end] == 0 && data[end + 1] == 0 && data[end + 2]
                    == 0 && data[end + 3] == 1 {
                    break ;
                }
                end = end + 1;
            }
            let ghost rest = annex_b_ranges_from(d, end as int);
            if end > start + code_len {
                let ghost old_units = nal_units@;
                let ghost old_taken = taken;
                nal_units.push(&data[start + code_len..end]);
                proof {
                    assert(annex_b_ranges_from(d, start as int) == seq![
                        ((start + code_len) as int, end as int),
                    ] + rest);
                    taken = taken.push(((start + code_len) as int, end as int));
                    assert(taken + rest =~= annex_b_ranges_from(d, 0));
                    assert forall|i: int| 0 <= i < taken.len() implies #[trigger] nal_units@[i]@
                        == d.subrange(taken[i].0, taken[i].1) && 0 <= taken[i].0 < taken[i].1
                        <= d.len() by {
                        if i < old_taken.len() {
                            assert(nal_units@[i] == old_units[i]);
                            assert(old_units[i]@ == d.subrange(old_taken[i].0, old_taken[i].1));
                            assert(taken[i] == old_taken[i]);
                        }
                    }
                }
            } else {
                assert(annex_b_ranges_from(d, start as int) == rest);
            }
            assert(forall|i: int|
                0 <= i < taken.len() ==> #[trigger] nal_units@[i]@ == d.subrange(taken[i].0, taken[i].1)
                    && 0 <= taken[i].0 < taken[i].1 <= d.len());
            start = end;
        }
        let ghost units = annex_b_nal_units(d);
        assert(taken =~= annex_b_ranges_from(d, 0));
        assert(units.len() == taken.len());
        if nal_units.len() == 0 {
            return Err(String::from_str("No valid NAL units found in access unit"));
        }
        assert forall|i: int| 0 <= i < nal_units@.len() implies #[trigger] nal_units@[i]@
            == annex_b_nal_units(data@)[i] && annex_b_nal_units(data@)[i].len() > 0 by {
            assert(taken[i] == annex_b_ranges_from(d, 0)[i]);
            assert(units[i] == d.subrange(taken[i].0, taken[i].1));
            assert(nal_units@[i]@ == d.subrange(taken[i].0, taken[i].1));
            assert(d.subrange(taken[i].0, taken[i].1).len() > 0);
        }
        assert forall|i: int| 0 <= i < nal_units@.len() implies #[trigger] annex_b_nal_units(
            data@,
        )[i].len() > 0 by {
            assert(nal_units@[i]@ == annex_b_nal_units(data@)[i]);
        }
        Ok(nal_units)
    }

    /// Fragment a large NAL unit using FU-A
    fn fragment_nal_unit(&mut self, nal_unit: &[u8], timestamp: u64, is_last_nal_in_access_unit: bool) -> (res:
        Result<Vec<RtpPayload>, String>)
        requires
            nal_unit@.len() == 0 || old(self).mtu >= RTP_HEADER_LEN + 3,
        ensures
            res is Ok,
            final(self).mtu == old(self).mtu,
            nal_unit@.len() == 0 ==> res->Ok_0@.len() == 0 && final(self).sequence_number == old(
                self,
            ).sequence_number,
            nal_unit@.len() > 0 ==> {
                let bodies = fu_a_from(
                    nal_unit@,
                    old(self).mtu - RTP_HEADER_LEN - 2,
                    1,
                    is_last_nal_in_access_unit,
                );
                &&& payload_views(res->Ok_0@) == stamp(bodies, timestamp, old(self).sequence_number)
                &&& final(self).sequence_number == seq_after(
                    old(self).sequence_number,
                    bodies.len() as int,
                )
            },
    {
        if nal_unit.len() == 0 {
            return Ok(Vec::new());
        }
        let ghost nal = nal_unit@;
        let ghost seq0 = self.sequence_number;
        let nal_header = nal_unit[0];
        let nal_type = nal_header & 0x1F;
        let fu_header_byte = (nal_header & 0xE0) | FU_A_TYPE;
        let payload_size = self.mtu - RTP_HEADER_LEN - 2;
        let ghost ps = payload_size as int;
        let ghost all = fu_a_from(nal, ps, 1, is_last_nal_in_access_unit);
        let mut payloads: Vec<RtpPayload> = Vec::new();
        let mut offset: usize = 1;
        let ghost mut done: Seq<(Seq<u8>, bool)> = Seq::empty();
        while offset < nal_unit.len()
            invariant
                nal == nal_unit@,
                nal.len() > 0,
                1 <= offset <= nal.len(),
                ps == payload_size,
                payload_size >= 1,
                nal_header == nal[0],
                nal_type == nal[0] & 0x1F,
                fu_header_byte == (nal[0] & 0xE0) | FU_A_TYPE,
                all == fu_a_from(nal, ps, 1, is_last_nal_in_access_unit),
                done + fu_a_from(nal, ps, offset as int, is_last_nal_in_access_unit) == all,
                payload_views(payloads@) == stamp(done, timestamp, seq0),
                self.sequence_number == seq_after(seq0, done.len() as int),
                self.mtu == old(self).mtu,
            decreases nal.len() - offset,
        {
            let end = if nal_unit.len() - offset > payload_size {
                offset + payload_size
            } else {
                nal_unit.len()
            };
            let is_last = end == nal_unit.len();
            let mut fu_header: Vec<u8> = Vec::new();
            fu_header.push(fu_header_byte);
            let fu_indicator: u8 = (if offset == 1 {
                0x80u8
            } else {
                0x00u8
            }) | (if is_last {
                0x40u8
            } else {
                0x00u8
            });
            fu_header.push(fu_indicator | nal_type);
            let mut payload = fu_header;
            extend_bytes(&mut payload, &nal_unit[offset..end]);
            let ghost prev = payloads@;
            let ghost body = (fu_a_fragment(nal, offset as int, end as int), is_last
                && is_last_nal_in_access_unit);
            assert(payload@ =~= body.0);
            assert(fu_a_from(nal, ps, offset as int, is_last_nal_in_access_unit) == seq![body]
                + fu_a_from(nal, ps, end as int, is_last_nal_in_access_unit));
            proof {
                lemma_seq_step(seq0, done.len() as int);
            }
            payloads.push(
                RtpPayload {
                    data: payload,
                    timestamp,
                    sequence_number: self.sequence_number,
                    marker: is_last && is_last_nal_in_access_unit,
                },
            );
            self.sequence_number = self.sequence_number.wrapping_add(1);
            proof {
                let p = payloads@.last();
                assert(payloads@ =~= prev.push(p));
                lemma_views_push(prev, p);
                lemma_stamp_push(done, body, timestamp, seq0);
                done = done.push(body);
                assert(done + fu_a_from(nal, ps, end as int, is_last_nal_in_access_unit) =~= all);
            }
            assert(payload_views(payloads@) =~= stamp(done, timestamp, seq0));
            offset = end;
        }
        assert(fu_a_from(nal, ps, offset as int, is_last_nal_in_access_unit) =~= Seq::empty());
        assert(done =~= all);
        Ok(payloads)
    }
}

proof fn lemma_stamp_concat(a: Seq<(Seq<u8>, bool)>, b: Seq<(Seq<u8>, bool)>, ts: u64, seq0: u16)
    ensures
        stamp(a + b, ts, seq0) =~= stamp(a, ts, seq0) + stamp(b, ts, seq_after(seq0, a.len() as int)),
{
    assert forall|j: int| 0 <= j < b.len() implies seq_after(seq_after(seq0, a.len() as int), j)
        == seq_after(seq0, a.len() + j) by {
        lemma_seq_after_add(seq0, a.len() as int, j);
    }
}

proof fn lemma_views_push(v: Seq<RtpPayload>, p: RtpPayload)
    ensures
        payload_views(v.push(p)) =~= payload_views(v).push(p@),
{
}

proof fn lemma_views_concat(a: Seq<RtpPayload>, b: Seq<RtpPayload>)
    ensures
        payload_views(a + b) =~= payload_views(a) + payload_views(b),
{
}

proof fn lemma_stamp_push(bodies: Seq<(Seq<u8>, bool)>, b: (Seq<u8>, bool), ts: u64, seq0: u16)
    ensures
        stamp(bodies.push(b), ts, seq0) =~= stamp(bodies, ts, seq0).push(
            RtpPayloadView {
                data: b.0,
                timestamp: ts,
                sequence_number: seq_after(seq0, bodies.len() as int),
                marker: b.1,
            },
        ),
{
}

/// Advancing a sequence number by `a` and then by `b` packets is advancing it by `a + b`.
pub proof fn lemma_seq_after_add(seq0: u16, a: int, b: int)
    requires
        0 <= a,
        0 <= b,
    ensures
        seq_after(seq_after(seq0, a), b) == seq_after(seq0, a + b),
{
    let x = seq0 as int + a;
    assert(((x % 0x10000) + b) % 0x10000 == (x + b) % 0x10000) by {
        vstd::arithmetic::div_mod::lemma_add_mod_noop(x, b, 0x10000);
        vstd::arithmetic::div_mod::lemma_mod_twice(x, 0x10000);
        vstd::arithmetic::div_mod::lemma_add_mod_noop(x % 0x10000, b, 0x10000);
    }
    assert(0 <= x % 0x10000 < 0x10000) by {
        vstd::arithmetic::div_mod::lemma_mod_bound(x, 0x10000);
    }
}

/// Opus RTP packetizer implementing RFC 7587
pub struct OpusRTPPacketizer {
    sequence_number: u16,
    timestamp: u64,
}

/// What packetizing one Opus packet of `samples` samples does to the packetizer: the sequence
/// number moves on by one and the timestamp by the samples, both wrapping around.
pub open spec fn is_opus_step(before: OpusRTPPacketizer, after: OpusRTPPacketizer, samples: u32) -> bool {
    &&& after.spec_sequence_number() == seq_after(before.spec_sequence_number(), 1)
    &&& after.spec_timestamp() == ((before.spec_timestamp() + samples) % 0x1_0000_0000_0000_0000) as u64
}

impl OpusRTPPacketizer {
    /// The sequence number that the next payload receives.
    pub closed spec fn spec_sequence_number(&self) -> u16 {
        self.sequence_number
    }

    /// The RTP timestamp that the next payload receives.
    pub closed spec fn spec_timestamp(&self) -> u64 {
        self.timestamp
    }

    /// Create a new Opus RTP packetizer
    pub fn new() -> (p: Self)
        ensures
            p.spec_sequence_number() == 0,
            p.spec_timestamp() == 0,
    {
        Self { sequence_number: 0, timestamp: 0 }
    }

    /// Packetize an Opus packet into RTP payload
    pub fn packetize(&mut self, opus_packet: &[u8], samples: u32) -> (res: Result<RtpPayload, String>)
        ensures
            res is Ok,
            res->Ok_0@ == (RtpPayloadView {
                data: opus_packet@,
                timestamp: old(self).spec_timestamp(),
                sequence_number: old(self).spec_sequence_number(),
                marker: true,
            }),
            is_opus_step(*old(self), *final(self), samples),
    {
        let payload = RtpPayload {
            data: copy_bytes(opus_packet),
            timestamp: self.timestamp,
            sequence_number: self.sequence_number,
            marker: true,
        };
        proof {
            lemma_seq_step(self.sequence_number, 0);
        }
        self.sequence_number = self.sequence_number.wrapping_add(1);
        self.timestamp = self.timestamp.wrapping_add(samples as u64);
        Ok(payload)
    }
}

impl Default for OpusRTPPacketizer {
    fn default() -> (p: Self)
        ensures
            p.spec_sequence_number() == 0,
            p.spec_timestamp() == 0,
    {
        Self::new()
    }
}

} // verus!
