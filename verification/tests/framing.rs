use lianli::turzx::{
    build_config_packet, build_power_off, fragment_stream_a, pack_fragment, pack_frame, tlv, COMMIT,
    FMT_MJPEG, MAGIC, STREAM_A_FINAL, STREAM_A_FRAG, STREAM_B_FINAL,
};

#[test]
fn config_packet_matches_spec() {
    let pkt = build_config_packet(1920, 480, FMT_MJPEG);
    assert_eq!(pkt.len(), 28);
    assert_eq!(
        pkt,
        vec![
            0xAF, 0x20, 0x00, 0x01, 0xAF, 0x20, 0x01, 0x07, 0xAF, 0x20, 0x02, 0x80, 0xAF, 0x20,
            0x03, 0x01, 0xAF, 0x20, 0x04, 0xE0, 0xAF, 0x20, 0x11, 0x01, 0xAF, 0x20, 0x1F, 0x01,
        ]
    );
}

#[test]
fn pack_frame_has_commit() {
    let pkt = pack_frame(STREAM_B_FINAL, 0, &[0xAA, 0xBB]);
    assert_eq!(
        pkt,
        vec![0xAF, 0x69, 0, 0, 0, 0, 0, 2, 0xAA, 0xBB, 0xAF, 0x66]
    );
}

#[test]
fn pack_fragment_has_no_commit() {
    let pkt = pack_fragment(STREAM_A_FRAG, 0x123, &[0xCC]);
    assert_eq!(pkt, vec![0xAF, 0x6C, 0, 0x01, 0x23, 0, 0, 1, 0xCC]);
}

#[test]
fn stream_a_single_urb_when_under_budget() {
    let urbs = fragment_stream_a(&[1, 2, 3, 4], 128);
    assert_eq!(urbs.len(), 1);
    assert_eq!(urbs[0][0..2], [0xAF, STREAM_A_FINAL]);
    let last_two = &urbs[0][urbs[0].len() - 2..];
    assert_eq!(last_two, &[MAGIC, COMMIT]);
}

#[test]
fn stream_a_multi_urb_spans_fragments_and_ends_with_final() {
    let payload: Vec<u8> = (0..50).collect();
    let urbs = fragment_stream_a(&payload, 32);
    assert!(urbs.len() >= 2);
    for urb in urbs.iter().take(urbs.len() - 1) {
        assert_eq!(urb[1], STREAM_A_FRAG);
        let last_two = &urb[urb.len() - 2..];
        assert_ne!(last_two, &[MAGIC, COMMIT]);
    }
    let last = urbs.last().unwrap();
    assert_eq!(last[1], STREAM_A_FINAL);
    let last_two = &last[last.len() - 2..];
    assert_eq!(last_two, &[MAGIC, COMMIT]);
    let mut reassembled = Vec::new();
    for urb in &urbs {
        let size = u32::from_be_bytes([0, urb[5], urb[6], urb[7]]) as usize;
        reassembled.extend_from_slice(&urb[8..8 + size]);
    }
    assert_eq!(reassembled, payload);
}

#[test]
fn stream_a_boundary_between_final_and_frag_budget_does_not_panic() {
    for len in [32758usize, 32759, 32760, 32761, 32762] {
        let payload: Vec<u8> = (0..len).map(|i| (i & 0xFF) as u8).collect();
        let urbs = fragment_stream_a(&payload, 32768);
        let mut reassembled = Vec::new();
        for urb in &urbs {
            let size = u32::from_be_bytes([0, urb[5], urb[6], urb[7]]) as usize;
            reassembled.extend_from_slice(&urb[8..8 + size]);
        }
        assert_eq!(reassembled, payload, "len={len}");
        let last = urbs.last().unwrap();
        assert_eq!(last[1], STREAM_A_FINAL, "len={len}: last urb must be FINAL");
        let last_two = &last[last.len() - 2..];
        assert_eq!(
            last_two,
            &[MAGIC, COMMIT],
            "len={len}: commit marker missing"
        );
    }
}

#[test]
fn stream_a_offset_advances() {
    let payload: Vec<u8> = (0..30).collect();
    let urbs = fragment_stream_a(&payload, 20);
    let mut expected_offset = 0u32;
    for urb in &urbs {
        let off = u32::from_be_bytes([0, urb[2], urb[3], urb[4]]);
        assert_eq!(off, expected_offset);
        let size = u32::from_be_bytes([0, urb[5], urb[6], urb[7]]);
        expected_offset += size;
    }
    assert_eq!(expected_offset as usize, payload.len());
}

#[test]
fn tlv_appends_one_control_record() {
    let mut buf = vec![1u8];
    tlv(&mut buf, 0x05, 0x42);
    assert_eq!(buf, vec![1, 0xAF, 0x20, 0x05, 0x42]);
}

#[test]
fn power_off_packet() {
    assert_eq!(build_power_off(), [0xAF, 0x20, 0x1F, 0x02]);
}

#[test]
fn stream_a_tiny_urb_max_is_raised_to_sixteen() {
    // urb_max below 16 behaves as 16: final budget 6, fragment budget 8.
    let payload: Vec<u8> = (0..10).collect();
    let urbs = fragment_stream_a(&payload, 1);
    assert_eq!(urbs.len(), 2);
    assert_eq!(urbs[0], vec![0xAF, 0x6C, 0, 0, 0, 0, 0, 8, 0, 1, 2, 3, 4, 5, 6, 7]);
    assert_eq!(urbs[1], vec![0xAF, 0x6D, 0, 0, 8, 0, 0, 2, 8, 9, 0xAF, 0x66]);
}

#[test]
fn stream_a_reserves_a_byte_for_the_final_urb() {
    // With urb_max 32 the final budget is 22 and the fragment budget 24:
    // 23 bytes give a fragment of 22 bytes and a final URB of one.
    let payload: Vec<u8> = (0..23).collect();
    let urbs = fragment_stream_a(&payload, 32);
    assert_eq!(urbs.len(), 2);
    assert_eq!(urbs[0][7], 22);
    assert_eq!(urbs[1][1], STREAM_A_FINAL);
    assert_eq!(urbs[1][7], 1);
    assert_eq!(urbs[1][8], 22);
}

#[test]
fn empty_stream_a_packet_is_one_final_urb() {
    let urbs = fragment_stream_a(&[], 64);
    assert_eq!(urbs, vec![vec![0xAF, 0x6D, 0, 0, 0, 0, 0, 0, 0xAF, 0x66]]);
}
