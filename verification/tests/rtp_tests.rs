use crabcamera::commands::webrtc::{build_rtp_packet_bytes, forward_rtp_packet, FORWARD_SSRC};
use crabcamera::webrtc::packetizer::{H264RTPPacketizer, OpusRTPPacketizer, RtpPayload};

#[test]
fn rtp_packet_bytes_has_correct_header_shape() {
    let payload = RtpPayload {
        data: vec![1, 2, 3, 4, 5],
        timestamp: (u32::MAX as u64) + 123,
        sequence_number: 4242,
        marker: true,
    };

    let bytes = build_rtp_packet_bytes(96, 0xAABBCCDD, &payload);

    assert_eq!(bytes.len(), 12 + payload.data.len());
    assert_eq!(bytes[0], 0x80);
    assert_eq!(bytes[1] & 0x7F, 96);
    assert_eq!(bytes[1] & 0x80, 0x80);
    assert_eq!(u16::from_be_bytes([bytes[2], bytes[3]]), payload.sequence_number);

    let ts32 = u32::from_be_bytes([bytes[4], bytes[5], bytes[6], bytes[7]]);
    assert_eq!(ts32, (payload.timestamp & 0xFFFF_FFFF) as u32);

    let ssrc = u32::from_be_bytes([bytes[8], bytes[9], bytes[10], bytes[11]]);
    assert_eq!(ssrc, 0xAABBCCDD);

    assert_eq!(&bytes[12..], &payload.data);
}

#[test]
fn rtp_header_without_marker_keeps_low_payload_type_bits() {
    let payload = RtpPayload { data: vec![], timestamp: 7, sequence_number: 0xFFFF, marker: false };
    let bytes = build_rtp_packet_bytes(0xE1, 1, &payload);
    assert_eq!(bytes, vec![0x80, 0x61, 0xFF, 0xFF, 0, 0, 0, 7, 0, 0, 0, 1]);
}

#[test]
fn forwarded_packets_use_payload_type_96_and_the_fixed_ssrc() {
    let payload = RtpPayload { data: vec![9], timestamp: 90_000, sequence_number: 1, marker: true };
    let bytes = forward_rtp_packet(&payload);
    assert_eq!(bytes[1], 0x80 | 96);
    assert_eq!(u32::from_be_bytes([bytes[8], bytes[9], bytes[10], bytes[11]]), FORWARD_SSRC);
    assert_eq!(FORWARD_SSRC, 12345);
    assert_eq!(bytes[12], 9);
}

#[test]
fn small_nal_units_travel_whole_with_the_marker_on_the_last() {
    let mut p = H264RTPPacketizer::new(1200);
    let au = [0, 0, 0, 1, 0x67, 1, 2, 0, 0, 1, 0x68, 3, 0, 0, 0, 1, 0x65, 4, 5, 6];
    let packets = p.packetize(&au, 3000).expect("packetize");
    assert_eq!(packets.len(), 3);
    assert_eq!(packets[0].data, vec![0x67, 1, 2]);
    assert_eq!(packets[1].data, vec![0x68, 3]);
    assert_eq!(packets[2].data, vec![0x65, 4, 5, 6]);
    assert_eq!(packets.iter().map(|x| x.marker).collect::<Vec<_>>(), vec![false, false, true]);
    assert_eq!(packets.iter().map(|x| x.sequence_number).collect::<Vec<_>>(), vec![0, 1, 2]);
    assert!(packets.iter().all(|x| x.timestamp == 3000));
    assert_eq!(p.sequence_number(), 3);
}

#[test]
fn large_nal_units_are_fragmented_as_fu_a() {
    let mut p = H264RTPPacketizer::new(20);
    assert_eq!(p.mtu(), 20);
    let mut au = vec![0, 0, 1, 0x65];
    au.extend(1u8..15);
    let packets = p.packetize(&au, 1).expect("packetize");
    // 14 payload bytes after the NAL header, 6 per fragment.
    assert_eq!(packets.len(), 3);
    assert_eq!(packets[0].data, vec![0x7C, 0x85, 1, 2, 3, 4, 5, 6]);
    assert_eq!(packets[1].data, vec![0x7C, 0x05, 7, 8, 9, 10, 11, 12]);
    assert_eq!(packets[2].data, vec![0x7C, 0x45, 13, 14]);
    assert_eq!(packets.iter().map(|x| x.marker).collect::<Vec<_>>(), vec![false, false, true]);
    for packet in &packets {
        assert!(packet.data.len() + 12 <= 20);
    }
    // Reassembling the fragments gives the NAL unit back.
    let mut nal = vec![(packets[0].data[0] & 0xE0) | (packets[0].data[1] & 0x1F)];
    for packet in &packets {
        nal.extend_from_slice(&packet.data[2..]);
    }
    assert_eq!(nal, au[3..].to_vec());
}

#[test]
fn an_access_unit_without_start_codes_is_refused() {
    let mut p = H264RTPPacketizer::new(1200);
    let result = p.packetize(&[1, 2, 3, 4], 0);
    assert_eq!(result.unwrap_err(), "No valid NAL units found in access unit");
    assert_eq!(p.sequence_number(), 0);
}

#[test]
fn mtu_is_capped() {
    assert_eq!(H264RTPPacketizer::new(9000).mtu(), 1200);
    assert_eq!(H264RTPPacketizer::new(500).mtu(), 500);
}

#[test]
fn sequence_numbers_wrap_around() {
    let mut p = OpusRTPPacketizer::new();
    let mut last = 0;
    for i in 0..65537u32 {
        let packet = p.packetize(&[1, 2], 960).expect("packetize");
        assert_eq!(packet.sequence_number, (i % 65536) as u16);
        last = packet.timestamp;
    }
    assert_eq!(last, 960 * 65536);
}

#[test]
fn opus_packets_carry_the_packet_with_marker_and_advance_the_clock() {
    let mut p = OpusRTPPacketizer::default();
    let first = p.packetize(&[7, 8, 9], 960).expect("packetize");
    assert_eq!(first.data, vec![7, 8, 9]);
    assert_eq!(first.timestamp, 0);
    assert_eq!(first.sequence_number, 0);
    assert!(first.marker);
    let second = p.packetize(&[1], 480).expect("packetize");
    assert_eq!(second.timestamp, 960);
    assert_eq!(second.sequence_number, 1);
}

#[test]
fn opus_run_numbers_payloads_and_sums_their_samples() {
    let mut p = OpusRTPPacketizer::new();
    let samples = [960u32, 480, 960, 320];
    for s in samples {
        p.packetize(&[0], s).expect("packetize");
    }
    let next = p.packetize(&[5], 960).expect("packetize");
    assert_eq!(next.sequence_number, 4);
    assert_eq!(next.timestamp, 960 + 480 + 960 + 320);

    // The sequence number wraps after 65536 payloads.
    let mut q = OpusRTPPacketizer::new();
    for _ in 0..65536u32 {
        q.packetize(&[0], 1).expect("packetize");
    }
    let wrapped = q.packetize(&[0], 1).expect("packetize");
    assert_eq!(wrapped.sequence_number, 0);
    assert_eq!(wrapped.timestamp, 65536);
}
