use arib_caption::ts::{
    carries_captions, media_pts_ms, CaptionStream, PacketSplitter, PesPacket, ServiceScanner,
    SYNC_BYTE, TS_PACKET_SIZE,
};

fn ts_packet(pid: u16, pusi: bool, cc: u8, payload: &[u8]) -> [u8; TS_PACKET_SIZE] {
    assert!(payload.len() <= TS_PACKET_SIZE - 4);
    let mut p = [0xffu8; TS_PACKET_SIZE];
    p[0] = SYNC_BYTE;
    p[1] = ((pid >> 8) as u8 & 0x1f) | if pusi { 0x40 } else { 0 };
    p[2] = (pid & 0xff) as u8;
    let payload_offset = if payload.len() == TS_PACKET_SIZE - 4 {
        p[3] = 0x10 | (cc & 0x0f);
        4
    } else {
        p[3] = 0x30 | (cc & 0x0f);
        let adaptation_length = TS_PACKET_SIZE - 5 - payload.len();
        p[4] = adaptation_length as u8;
        if adaptation_length != 0 {
            p[5] = 0;
        }
        5 + adaptation_length
    };
    p[payload_offset..].copy_from_slice(payload);
    p
}

fn pat_section(pmt_pid: u16) -> Vec<u8> {
    vec![
        0x00,
        0xB0,
        0x0D,
        0x00,
        0x01,
        0xC1,
        0x00,
        0x00,
        0x04,
        0x00,
        0xE0 | ((pmt_pid >> 8) as u8 & 0x1f),
        pmt_pid as u8,
        0x00,
        0x00,
        0x00,
        0x00,
    ]
}

fn pmt_section(caption_pid: u16) -> Vec<u8> {
    vec![
        0x02,
        0xB0,
        0x15,
        0x04,
        0x00,
        0xC1,
        0x00,
        0x00,
        0xE1,
        0x00,
        0xF0,
        0x00,
        0x06,
        0xE0 | ((caption_pid >> 8) as u8 & 0x1f),
        caption_pid as u8,
        0xF0,
        0x03,
        0x52,
        0x01,
        0x30,
        0x00,
        0x00,
        0x00,
        0x00,
    ]
}

fn section_start(section: &[u8]) -> Vec<u8> {
    let mut payload = Vec::with_capacity(section.len() + 1);
    payload.push(0);
    payload.extend_from_slice(section);
    payload
}

fn feed_pat(scanner: &mut ServiceScanner, pmt_pid: u16, cc: u8) {
    scanner.push(&ts_packet(0, true, cc, &section_start(&pat_section(pmt_pid))));
}

fn mark_transport_error(packet: &mut [u8; TS_PACKET_SIZE]) {
    packet[1] |= 0x80;
}

fn mark_scrambled(packet: &mut [u8; TS_PACKET_SIZE]) {
    packet[3] |= 0x80;
}

fn assert_psi_damage_is_rejected(mark_damage: fn(&mut [u8; TS_PACKET_SIZE])) {
    const PMT_PID: u16 = 0x0100;
    const CAPTION_PID: u16 = 0x0130;

    // A damaged PAT must not make its PMT PID watchable.
    let mut scanner = ServiceScanner::new();
    let mut pat = ts_packet(0, true, 0, &section_start(&pat_section(PMT_PID)));
    mark_damage(&mut pat);
    scanner.push(&pat);
    scanner.push(&ts_packet(PMT_PID, true, 0, &section_start(&pmt_section(CAPTION_PID))));
    assert_eq!(scanner.caption_pid(), None);

    // Damage in a split PMT invalidates the first fragment. A later tail
    // remains unusable until a clean PUSI starts a new section.
    let mut scanner = ServiceScanner::new();
    feed_pat(&mut scanner, PMT_PID, 0);
    let pmt = pmt_section(CAPTION_PID);
    let mut first = vec![0];
    first.extend_from_slice(&pmt[..10]);
    scanner.push(&ts_packet(PMT_PID, true, 0, &first));
    let mut damaged_tail = ts_packet(PMT_PID, false, 1, &pmt[10..]);
    mark_damage(&mut damaged_tail);
    scanner.push(&damaged_tail);
    scanner.push(&ts_packet(PMT_PID, false, 2, &pmt[10..]));
    assert_eq!(scanner.caption_pid(), None);

    scanner.push(&ts_packet(PMT_PID, true, 3, &section_start(&pmt)));
    assert_eq!(scanner.caption_pid(), Some(CAPTION_PID));
}

#[test]
fn service_scanner_rejects_transport_error_pat_and_pmt_packets() {
    assert_psi_damage_is_rejected(mark_transport_error);
}

#[test]
fn service_scanner_rejects_scrambled_pat_and_pmt_packets() {
    assert_psi_damage_is_rejected(mark_scrambled);
}

#[test]
fn gap_at_pusi_discards_the_damaged_tail_before_starting_clean_pmt() {
    const PMT_PID: u16 = 0x0100;
    let old_pmt = pmt_section(0x0130);
    let new_pmt = pmt_section(0x0131);
    let mut scanner = ServiceScanner::new();
    feed_pat(&mut scanner, PMT_PID, 0);

    let split = old_pmt.len() - 4;
    let mut first = vec![0];
    first.extend_from_slice(&old_pmt[..split]);
    scanner.push(&ts_packet(PMT_PID, true, 0, &first));

    let mut recovery = vec![4];
    recovery.extend_from_slice(&old_pmt[split..]);
    recovery.extend_from_slice(&new_pmt);
    scanner.push(&ts_packet(PMT_PID, true, 2, &recovery));

    assert_eq!(
        scanner.streams(),
        &[CaptionStream {
            pid: 0x0131,
            service_id: 1024,
            component_tag: Some(0x30),
        }]
    );
}

#[test]
fn gap_rejects_non_pusi_recovery_until_a_clean_start() {
    const PMT_PID: u16 = 0x0100;
    let old_pmt = pmt_section(0x0130);
    let new_pmt = pmt_section(0x0131);
    let mut scanner = ServiceScanner::new();
    feed_pat(&mut scanner, PMT_PID, 0);

    let mut first = vec![0];
    first.extend_from_slice(&old_pmt[..10]);
    scanner.push(&ts_packet(PMT_PID, true, 0, &first));
    scanner.push(&ts_packet(PMT_PID, false, 2, &old_pmt[10..]));
    scanner.push(&ts_packet(PMT_PID, false, 3, &new_pmt));
    assert_eq!(scanner.caption_pid(), None);

    scanner.push(&ts_packet(PMT_PID, true, 4, &section_start(&new_pmt)));
    assert_eq!(scanner.caption_pid(), Some(0x0131));
}

#[test]
fn exact_duplicate_payload_packet_is_ignored() {
    const PMT_PID: u16 = 0x0100;
    let pmt = pmt_section(0x0130);
    let mut scanner = ServiceScanner::new();
    feed_pat(&mut scanner, PMT_PID, 0);

    let mut first = vec![0];
    first.extend_from_slice(&pmt[..8]);
    scanner.push(&ts_packet(PMT_PID, true, 0, &first));
    let middle = ts_packet(PMT_PID, false, 1, &pmt[8..16]);
    scanner.push(&middle);
    scanner.push(&middle);
    scanner.push(&ts_packet(PMT_PID, false, 2, &pmt[16..]));

    assert_eq!(scanner.caption_pid(), Some(0x0130));
    assert_eq!(scanner.streams().len(), 1);
}

#[test]
fn pat_and_pmt_track_payload_continuity_independently() {
    const PMT_PID: u16 = 0x0100;
    let pmt = pmt_section(0x0130);
    let mut scanner = ServiceScanner::new();
    feed_pat(&mut scanner, PMT_PID, 7);

    let mut first = vec![0];
    first.extend_from_slice(&pmt[..10]);
    scanner.push(&ts_packet(PMT_PID, true, 12, &first));
    feed_pat(&mut scanner, PMT_PID, 8);
    scanner.push(&ts_packet(PMT_PID, false, 13, &pmt[10..]));

    assert_eq!(scanner.caption_pid(), Some(0x0130));
}

#[test]
fn splitter_resyncs_on_garbage_prefix() {
    let mut split = PacketSplitter::new();
    let a = ts_packet(0x130, true, 0, &[0x01]);
    let b = ts_packet(0x130, false, 1, &[0x02]);
    let mut stream = vec![0x00, 0x47, 0x11]; // junk, including a false sync
    stream.extend_from_slice(&a);
    stream.extend_from_slice(&b);
    split.feed(&stream);
    let first = split.next_packet().expect("first packet");
    assert_eq!(first[..4], a[..4]);
    let second = split.next_packet().expect("second packet");
    assert_eq!(second[..4], b[..4]);
}

#[test]
fn a_pmt_too_short_to_hold_a_service_id_is_ignored_rather_than_panicking() {
    const PMT_PID: u16 = 0x0100;

    for section_length in [0x00u8, 0x01] {
        let mut scanner = ServiceScanner::new();
        feed_pat(&mut scanner, PMT_PID, 0);
        let truncated = [0x02, 0xb0, section_length];
        scanner.push(&ts_packet(PMT_PID, true, 0, &section_start(&truncated)));
        assert_eq!(scanner.caption_pid(), None);
    }
}

// ── further cases ──────────────────────────────────────────────────

#[test]
fn the_component_tag_tells_superimpose_from_caption() {
    let s = CaptionStream { pid: 1, service_id: 2, component_tag: Some(0x38) };
    assert!(s.is_superimpose());
    let c = CaptionStream { pid: 1, service_id: 2, component_tag: Some(0x30) };
    assert!(!c.is_superimpose());
    assert!(!CaptionStream { pid: 1, service_id: 2, component_tag: None }.is_superimpose());
}

#[test]
fn pes_times_are_90khz_ticks_in_milliseconds() {
    let p = PesPacket { pts_90k: Some(90_000 * 3 + 89), payload: vec![] };
    assert_eq!(p.pts_ms(), Some(3_000));
    assert_eq!(PesPacket { pts_90k: None, payload: vec![] }.pts_ms(), None);
}

#[test]
fn only_clean_audio_and_video_unit_starts_give_the_media_time() {
    assert_eq!(media_pts_ms(false, 0, true, 0xE0, Some(180_000)), Some(2_000));
    assert_eq!(media_pts_ms(false, 0, true, 0xC0, Some(90)), Some(1));
    assert_eq!(media_pts_ms(true, 0, true, 0xE0, Some(90)), None);
    assert_eq!(media_pts_ms(false, 2, true, 0xE0, Some(90)), None);
    assert_eq!(media_pts_ms(false, 0, false, 0xE0, Some(90)), None);
    assert_eq!(media_pts_ms(false, 0, true, 0xBD, Some(90)), None);
    assert!(carries_captions(0xBD) && carries_captions(0xBF));
    assert!(!carries_captions(0xE0));
}

#[test]
fn the_superimpose_pid_is_the_one_with_a_superimpose_tag() {
    const PMT_PID: u16 = 0x0100;
    let mut pmt = pmt_section(0x0138);
    pmt[19] = 0x38; // component tag: superimpose
    // The CRC is not checked by the scanner, so the section stays usable.
    let mut scanner = ServiceScanner::new();
    feed_pat(&mut scanner, PMT_PID, 0);
    scanner.push(&ts_packet(PMT_PID, true, 0, &section_start(&pmt)));
    assert_eq!(scanner.superimpose_pid(), Some(0x0138));
    assert_eq!(scanner.caption_pid(), None);
}
