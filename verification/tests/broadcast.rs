//! Transport streams written rather than captured, read back through the
//! splitter and the service scanner.

use arib_caption::model::{Caption, CaptionKind, Duration, Rgba, Scale};
use arib_caption::pes::{self, DataGroup, DataUnitKind, Tmd};
use arib_caption::ts::{
    carries_captions, CaptionStream, PacketSplitter, PesPacket, ServiceScanner, TS_PACKET_SIZE,
};
use arib_caption::{Decoder, Options};

const CAPTION_PID: u16 = 0x0130;
const SUPERIMPOSE_PID: u16 = 0x0138;
const PMT_PID: u16 = 0x01F0;
const SERVICE_ID: u16 = 1024;
const CAPTION_COMPONENT_TAG: u8 = 0x30;
const SUPERIMPOSE_COMPONENT_TAG: u8 = 0x38;

/// Accumulates a transport stream, keeping one continuity counter per PID.
#[derive(Debug, Default)]
struct TsWriter {
    counters: Vec<(u16, u8)>,
    bytes: Vec<u8>,
}

impl TsWriter {
    fn new() -> Self {
        Self::default()
    }

    fn finish(self) -> Vec<u8> {
        self.bytes
    }

    fn next_counter(&mut self, pid: u16) -> u8 {
        match self.counters.iter_mut().find(|(seen, _)| *seen == pid) {
            Some(entry) => {
                entry.1 = (entry.1 + 1) & 0x0F;
                entry.1
            }
            None => {
                self.counters.push((pid, 0));
                0
            }
        }
    }

    /// One 188-byte packet, a short payload stuffed with an adaptation field.
    fn packet(&mut self, pid: u16, payload_unit_start: bool, payload: &[u8]) {
        assert!(!payload.is_empty() && payload.len() <= TS_PACKET_SIZE - 4);
        let continuity_counter = self.next_counter(pid);
        let mut packet = [0xFFu8; TS_PACKET_SIZE];
        packet[0] = 0x47;
        packet[1] = ((pid >> 8) as u8 & 0x1F) | if payload_unit_start { 0x40 } else { 0x00 };
        packet[2] = (pid & 0xFF) as u8;
        let payload_offset = if payload.len() == TS_PACKET_SIZE - 4 {
            packet[3] = 0x10 | continuity_counter;
            4
        } else {
            packet[3] = 0x30 | continuity_counter;
            let adaptation_length = TS_PACKET_SIZE - 5 - payload.len();
            packet[4] = adaptation_length as u8;
            if adaptation_length != 0 {
                packet[5] = 0x00;
            }
            5 + adaptation_length
        };
        packet[payload_offset..].copy_from_slice(payload);
        self.bytes.extend_from_slice(&packet);
    }

    /// One payload split across as many packets as it needs.
    fn payload(&mut self, pid: u16, bytes: &[u8]) {
        let mut rest = bytes;
        let mut first = true;
        while !rest.is_empty() {
            let take = rest.len().min(TS_PACKET_SIZE - 4);
            self.packet(pid, first, &rest[..take]);
            rest = &rest[take..];
            first = false;
        }
    }

    /// A PSI section, prefixed with its `pointer_field`.
    fn section(&mut self, pid: u16, section: &[u8]) {
        let mut payload = Vec::with_capacity(section.len() + 1);
        payload.push(0x00);
        payload.extend_from_slice(section);
        self.payload(pid, &payload);
    }
}

/// The MPEG-2 systems CRC-32.
fn mpeg_crc32(bytes: &[u8]) -> u32 {
    let mut crc: u32 = 0xFFFF_FFFF;
    for &byte in bytes {
        crc ^= (byte as u32) << 24;
        for _ in 0..8 {
            crc = if crc & 0x8000_0000 != 0 {
                (crc << 1) ^ 0x04C1_1DB7
            } else {
                crc << 1
            };
        }
    }
    crc
}

fn with_crc(mut section: Vec<u8>) -> Vec<u8> {
    let crc = mpeg_crc32(&section);
    section.extend_from_slice(&crc.to_be_bytes());
    section
}

fn pat_section(program_number: u16, pmt_pid: u16) -> Vec<u8> {
    let section_length: u16 = 13;
    with_crc(vec![
        0x00,
        0xB0 | ((section_length >> 8) as u8 & 0x0F),
        (section_length & 0xFF) as u8,
        0x00,
        0x01,
        0xC1,
        0x00,
        0x00,
        (program_number >> 8) as u8,
        (program_number & 0xFF) as u8,
        0xE0 | ((pmt_pid >> 8) as u8 & 0x1F),
        (pmt_pid & 0xFF) as u8,
    ])
}

#[derive(Clone, Copy, Debug)]
struct ElementaryStream {
    stream_type: u8,
    pid: u16,
    component_tag: u8,
}

/// A PMT, padded by `program_info_filler` bytes of private descriptor so it
/// runs past what one packet carries.
fn pmt_section(
    program_number: u16,
    pcr_pid: u16,
    program_info_filler: usize,
    streams: &[ElementaryStream],
) -> Vec<u8> {
    let mut program_info = Vec::with_capacity(program_info_filler);
    if program_info_filler > 0 {
        program_info.push(0xC1);
        program_info.push((program_info_filler - 2) as u8);
        program_info.resize(program_info_filler, 0x00);
    }
    let mut elementary = Vec::new();
    for stream in streams {
        elementary.push(stream.stream_type);
        elementary.push(0xE0 | ((stream.pid >> 8) as u8 & 0x1F));
        elementary.push((stream.pid & 0xFF) as u8);
        elementary.push(0xF0);
        elementary.push(0x03);
        elementary.push(0x52);
        elementary.push(0x01);
        elementary.push(stream.component_tag);
    }
    let section_length = 5 + 2 + 2 + program_info.len() + elementary.len() + 4;
    let mut section = vec![
        0x02,
        0xB0 | ((section_length >> 8) as u8 & 0x0F),
        (section_length & 0xFF) as u8,
        (program_number >> 8) as u8,
        (program_number & 0xFF) as u8,
        0xC1,
        0x00,
        0x00,
        0xE0 | ((pcr_pid >> 8) as u8 & 0x1F),
        (pcr_pid & 0xFF) as u8,
        0xF0 | ((program_info.len() >> 8) as u8 & 0x0F),
        (program_info.len() & 0xFF) as u8,
    ];
    section.extend_from_slice(&program_info);
    section.extend_from_slice(&elementary);
    with_crc(section)
}

fn service_streams() -> [ElementaryStream; 4] {
    [
        ElementaryStream { stream_type: 0x02, pid: 0x0100, component_tag: 0x00 },
        ElementaryStream { stream_type: 0x0F, pid: 0x0110, component_tag: 0x10 },
        ElementaryStream {
            stream_type: 0x06,
            pid: CAPTION_PID,
            component_tag: CAPTION_COMPONENT_TAG,
        },
        ElementaryStream {
            stream_type: 0x06,
            pid: SUPERIMPOSE_PID,
            component_tag: SUPERIMPOSE_COMPONENT_TAG,
        },
    ]
}

/// PAT and a PMT of 210 bytes — what an NHK PMT measures.
fn psi_ts() -> Vec<u8> {
    let mut writer = TsWriter::new();
    writer.section(0x0000, &pat_section(SERVICE_ID, PMT_PID));
    writer.section(PMT_PID, &pmt_section(SERVICE_ID, 0x0100, 162, &service_streams()));
    writer.finish()
}

fn packets(bytes: &[u8]) -> Vec<[u8; TS_PACKET_SIZE]> {
    let mut splitter = PacketSplitter::new();
    splitter.feed(bytes);
    let mut out = Vec::new();
    while let Some(p) = splitter.next_packet() {
        out.push(p);
    }
    out
}

/// The caption PID and the superimpose PID are told apart by the PMT's
/// component tag, and the PMT does not fit in one TS packet.
#[test]
fn finds_caption_pids_in_the_pmt() {
    let psi = psi_ts();
    let mut scanner = ServiceScanner::new();
    let mut pmt_packets = 0usize;
    for packet in packets(&psi) {
        let pid = (((packet[1] & 0x1F) as u16) << 8) | packet[2] as u16;
        if pid == PMT_PID {
            pmt_packets += 1;
        }
        scanner.push(&packet);
    }
    assert!(pmt_packets > 1, "the PMT must not fit in one packet");

    assert_eq!(scanner.caption_pid(), Some(CAPTION_PID));
    assert_eq!(scanner.superimpose_pid(), Some(SUPERIMPOSE_PID));
    let streams = scanner.streams();
    assert_eq!(streams.len(), 2);
    assert_eq!(streams[0].service_id, SERVICE_ID);
    assert_eq!(streams[0].component_tag, Some(CAPTION_COMPONENT_TAG));
    assert_eq!(streams[1].component_tag, Some(SUPERIMPOSE_COMPONENT_TAG));
}

#[test]
fn the_writer_emits_whole_packets_the_splitter_accepts() {
    let mut writer = TsWriter::new();
    writer.packet(0x0130, true, &[0x11, 0x22, 0x33]);
    writer.packet(0x0130, false, &[0x44; 184]);
    let bytes = writer.finish();

    assert_eq!(bytes.len(), 2 * TS_PACKET_SIZE);
    let packets = packets(&bytes);
    assert_eq!(packets.len(), 2);
    assert_eq!(packets[0][0], 0x47);
    assert_eq!(packets[0][1] & 0x40, 0x40, "first packet carries PUSI");
    assert_eq!(packets[1][1] & 0x40, 0x00);
    assert_eq!(packets[0][3] & 0x0F, 0);
    assert_eq!(packets[1][3] & 0x0F, 1, "continuity counter advances");
    assert_eq!(packets[0][3] & 0x30, 0x30, "a 3-byte payload needs adaptation-field stuffing");
    assert_eq!(packets[0][4], (TS_PACKET_SIZE - 5 - 3) as u8);
    assert_eq!(packets[1][3] & 0x30, 0x10, "a full payload carries no adaptation field");
}

#[test]
fn the_pmt_spans_more_than_one_packet_and_the_scanner_still_reads_it() {
    let bytes = psi_ts();
    let packets = packets(&bytes);
    assert_eq!(packets.len(), 3, "one PAT packet and a PMT split over two");

    let mut scanner = ServiceScanner::new();
    for packet in &packets {
        scanner.push(packet);
    }
    assert_eq!(
        scanner.streams(),
        &[
            CaptionStream { pid: 0x0130, service_id: 1024, component_tag: Some(0x30) },
            CaptionStream { pid: 0x0138, service_id: 1024, component_tag: Some(0x38) },
        ]
    );
}

// ── the caption stream ──────────────────────────────────────────────

const WRITING_FORMAT: u8 = 8;
const FIRST_STATEMENT_PTS_90K: u64 = 90_000 * 10;
const STATEMENT_INTERVAL_90K: u64 = 90_000 * 2;
const MANAGEMENT_LEAD_90K: u64 = 45_000;

const CS: u8 = 0x0C;
const APS: u8 = 0x1C;
const SSZ: u8 = 0x88;
const MSZ: u8 = 0x89;
const NSZ: u8 = 0x8A;
const TIME: u8 = 0x9D;
const COL: u8 = 0x90;
const YLF: u8 = 0x83;
const SS3: u8 = 0x1D;
const CSI: u8 = 0x9B;
const CSI_SWF: u8 = 0x53;
const CSI_SDF: u8 = 0x56;
const CSI_SDP: u8 = 0x5F;
const CSI_SHS: u8 = 0x58;
const CSI_SVS: u8 = 0x59;
const CSI_SSM: u8 = 0x57;
/// ➡ (U+27A1): additional symbols, ku 92 ten 1.
const ARROW: [u8; 2] = [0x7C, 0x21];
/// ⁉ (U+2049): additional symbols, ku 93 ten 79.
const INTERROBANG: [u8; 2] = [0x7D, 0x6F];

/// Japanese text as two-byte kanji-plane characters: the EUC-JP bytes with
/// the high bit cleared.
fn kanji(text: &str) -> Vec<u8> {
    let (encoded, _, had_errors) = encoding_rs::EUC_JP.encode(text);
    assert!(!had_errors, "{text:?} is not representable in EUC-JP");
    assert_eq!(encoded.len() % 2, 0);
    encoded
        .iter()
        .map(|byte| {
            assert!(*byte >= 0xA1);
            byte - 0x80
        })
        .collect()
}

fn aps(row: u8, column: u8) -> [u8; 3] {
    [APS, 0x40 | row, 0x40 | column]
}

fn wait(units_of_100ms: u8) -> [u8; 3] {
    [TIME, 0x20, 0x40 | units_of_100ms]
}

fn csi(params: &[u32], final_byte: u8) -> Vec<u8> {
    let mut bytes = vec![CSI];
    for (index, param) in params.iter().enumerate() {
        if index > 0 {
            bytes.push(b';');
        }
        bytes.extend_from_slice(param.to_string().as_bytes());
    }
    bytes.push(0x20);
    bytes.push(final_byte);
    bytes
}

fn preamble() -> Vec<u8> {
    let mut body = vec![CS];
    body.extend_from_slice(&csi(&[7], CSI_SWF));
    body.extend_from_slice(&csi(&[840, 480], CSI_SDF));
    body.extend_from_slice(&csi(&[58, 29], CSI_SDP));
    body.extend_from_slice(&csi(&[4], CSI_SHS));
    body.extend_from_slice(&csi(&[24], CSI_SVS));
    body.extend_from_slice(&csi(&[36, 36], CSI_SSM));
    body.extend_from_slice(&[SS3, 0x60 | 1]);
    body
}

fn crc16(bytes: &[u8]) -> u16 {
    let mut crc: u16 = 0x0000;
    for &byte in bytes {
        crc ^= (byte as u16) << 8;
        for _ in 0..8 {
            crc = if crc & 0x8000 != 0 { (crc << 1) ^ 0x1021 } else { crc << 1 };
        }
    }
    crc
}

fn be24(value: usize) -> [u8; 3] {
    [(value >> 16) as u8, (value >> 8) as u8, value as u8]
}

fn data_unit(parameter: u8, body: &[u8]) -> Vec<u8> {
    let mut unit = vec![0x1F, parameter];
    unit.extend_from_slice(&be24(body.len()));
    unit.extend_from_slice(body);
    unit
}

fn data_group(data_identifier: u8, data_group_id: u8, body: &[u8]) -> Vec<u8> {
    let mut group = vec![data_group_id << 2];
    group.push(0x00);
    group.push(0x00);
    group.push((body.len() >> 8) as u8);
    group.push((body.len() & 0xFF) as u8);
    group.extend_from_slice(body);
    let crc = crc16(&group);
    group.push((crc >> 8) as u8);
    group.push((crc & 0xFF) as u8);
    let mut payload = vec![data_identifier, 0xFF, 0xF0];
    payload.extend_from_slice(&group);
    payload
}

fn statement_payload(data_identifier: u8, data_group_id: u8, units: &[u8]) -> Vec<u8> {
    let mut body = vec![0x00];
    body.extend_from_slice(&be24(units.len()));
    body.extend_from_slice(units);
    data_group(data_identifier, data_group_id, &body)
}

fn management_payload(data_identifier: u8, group_b: bool, writing_format: u8) -> Vec<u8> {
    let body = [0x00, 0x01, 0x00, b'j', b'p', b'n', writing_format << 4, 0x00, 0x00, 0x00];
    data_group(data_identifier, if group_b { 0x20 } else { 0x00 }, &body)
}

/// A private_stream_1 PES carrying a PTS.
fn caption_pes(payload: &[u8], pts_90k: u64) -> Vec<u8> {
    let mut bytes = vec![0x00, 0x00, 0x01, 0xBD];
    let packet_length = 3 + 5 + payload.len();
    bytes.push((packet_length >> 8) as u8);
    bytes.push((packet_length & 0xFF) as u8);
    bytes.push(0x80);
    bytes.push(0x80);
    bytes.push(0x05);
    bytes.push(0x21 | (((pts_90k >> 30) as u8 & 0x07) << 1));
    bytes.push(((pts_90k >> 22) & 0xFF) as u8);
    bytes.push((((pts_90k >> 15) & 0x7F) as u8) << 1 | 0x01);
    bytes.push(((pts_90k >> 7) & 0xFF) as u8);
    bytes.push(((pts_90k & 0x7F) as u8) << 1 | 0x01);
    bytes.extend_from_slice(payload);
    bytes
}

/// A private_stream_2 PES: no optional header, so no PTS.
fn superimpose_pes(payload: &[u8]) -> Vec<u8> {
    let mut bytes = vec![0x00, 0x00, 0x01, 0xBF];
    bytes.push((payload.len() >> 8) as u8);
    bytes.push((payload.len() & 0xFF) as u8);
    bytes.extend_from_slice(payload);
    bytes
}

#[derive(Clone, Copy)]
struct Line {
    row: u8,
    column: u8,
    text: &'static str,
    arrow: bool,
    interrobang: bool,
    half_width: bool,
    ruby: Option<&'static str>,
    wait_100ms: Option<u8>,
    mixed_suffix: Option<&'static str>,
    color: bool,
}

const fn line(row: u8, column: u8, text: &'static str) -> Line {
    Line {
        row,
        column,
        text,
        arrow: false,
        interrobang: false,
        half_width: false,
        ruby: None,
        wait_100ms: None,
        mixed_suffix: None,
        color: false,
    }
}

const fn arrow_line(row: u8, column: u8, text: &'static str) -> Line {
    Line { arrow: true, ..line(row, column, text) }
}

const fn symbol_line(row: u8, column: u8, text: &'static str) -> Line {
    Line { interrobang: true, ..line(row, column, text) }
}

const fn half_width_line(row: u8, column: u8, text: &'static str) -> Line {
    Line { half_width: true, ..line(row, column, text) }
}

const fn ruby_line(row: u8, column: u8, text: &'static str, ruby: &'static str) -> Line {
    Line { ruby: Some(ruby), ..line(row, column, text) }
}

const fn timed_line(row: u8, column: u8, text: &'static str, wait_100ms: u8) -> Line {
    Line { wait_100ms: Some(wait_100ms), ..line(row, column, text) }
}

const fn mixed_width_line(row: u8, column: u8, text: &'static str, suffix: &'static str) -> Line {
    Line { mixed_suffix: Some(suffix), ..line(row, column, text) }
}

const fn color_line(row: u8, column: u8, text: &'static str) -> Line {
    Line { color: true, ..line(row, column, text) }
}

const CAPTION_SCRIPT: &[Line] = &[
    arrow_line(0, 0, "合成字幕の一行目"),
    half_width_line(0, 0, "テスト。"),
    timed_line(0, 0, "三行目の字幕", 23),
    ruby_line(1, 0, "本日の放送", "ほんじつ"),
    symbol_line(0, 0, "驚きの結果"),
    arrow_line(0, 0, "続きの行がある"),
    line(0, 0, "普通の行"),
    arrow_line(0, 0, "次に続く行"),
    line(1, 2, "位置を変えた行"),
    line(0, 0, "短い行"),
    arrow_line(0, 0, "四つ目の矢印"),
    line(0, 0, "静かな夜"),
    line(2, 4, "下の段の行"),
    arrow_line(0, 0, "五つ目の矢印"),
    line(0, 0, "遠くの音"),
    half_width_line(1, 0, "半角の行。"),
    arrow_line(0, 0, "六つ目の矢印"),
    line(0, 0, "白い雲"),
    line(0, 0, "青い空"),
    arrow_line(0, 0, "七つ目の矢印"),
    line(3, 0, "四段目の行"),
    line(0, 0, "赤い花"),
    arrow_line(0, 0, "八つ目の矢印"),
    line(0, 0, "緑の森"),
    line(0, 0, "黒い石"),
    arrow_line(0, 0, "九つ目の矢印"),
    line(0, 0, "黄色い光"),
    line(0, 0, "銀の月"),
    line(0, 0, "金の星"),
    line(0, 0, "水の音"),
    line(0, 0, "風の道"),
    line(0, 0, "山の影"),
    line(0, 0, "終わりの行"),
    mixed_width_line(0, 0, "全角に続く", "半角部分"),
    color_line(0, 0, "色つきの行"),
];

fn statement_body(entry: &Line) -> Vec<u8> {
    let mut body = preamble();
    if entry.color {
        body.extend_from_slice(&[COL, 0x20, 0x40 | 4]);
        body.extend_from_slice(&[COL, 0x50 | 1]);
        body.push(YLF);
    }
    if let Some(ruby) = entry.ruby {
        body.push(SSZ);
        body.extend_from_slice(&aps(entry.row - 1, entry.column));
        body.extend_from_slice(&kanji(ruby));
        body.push(NSZ);
    }
    if entry.half_width {
        body.push(MSZ);
    }
    body.extend_from_slice(&aps(entry.row, entry.column));
    body.extend_from_slice(&kanji(entry.text));
    if let Some(suffix) = entry.mixed_suffix {
        body.push(MSZ);
        body.extend_from_slice(&kanji(suffix));
        body.push(NSZ);
    }
    if entry.arrow {
        body.extend_from_slice(&ARROW);
    }
    if entry.interrobang {
        body.extend_from_slice(&INTERROBANG);
    }
    if let Some(units) = entry.wait_100ms {
        body.extend_from_slice(&wait(units));
    }
    body
}

fn caption_ts() -> Vec<u8> {
    let mut writer = TsWriter::new();
    for (index, entry) in CAPTION_SCRIPT.iter().enumerate() {
        let statement_pts = FIRST_STATEMENT_PTS_90K + STATEMENT_INTERVAL_90K * index as u64;
        let management = management_payload(0x80, index % 2 == 1, WRITING_FORMAT);
        writer.payload(CAPTION_PID, &caption_pes(&management, statement_pts - MANAGEMENT_LEAD_90K));
        let units = data_unit(0x20, &statement_body(entry));
        writer.payload(CAPTION_PID, &caption_pes(&statement_payload(0x80, 1, &units), statement_pts));
    }
    writer.finish()
}

fn superimpose_ts() -> Vec<u8> {
    let mut writer = TsWriter::new();
    writer.payload(SUPERIMPOSE_PID, &superimpose_pes(&management_payload(0x81, false, WRITING_FORMAT)));
    for text in ["速報", "気象情報"] {
        let mut body = preamble();
        body.extend_from_slice(&aps(0, 0));
        body.extend_from_slice(&kanji(text));
        let units = data_unit(0x20, &body);
        writer.payload(SUPERIMPOSE_PID, &superimpose_pes(&statement_payload(0x81, 1, &units)));
    }
    writer.finish()
}

/// Reassembles the PES packets of one PID from a clean stream: a unit starts
/// at each payload-unit-start packet and runs to the next.
fn pes_packets(bytes: &[u8], pid: u16) -> Vec<PesPacket> {
    fn finish(unit: &[u8], out: &mut Vec<PesPacket>) {
        if unit.len() < 6 || unit[0..3] != [0, 0, 1] {
            return;
        }
        let stream_id = unit[3];
        let length = ((unit[4] as usize) << 8) | unit[5] as usize;
        let end = (6 + length).min(unit.len());
        if !carries_captions(stream_id) {
            return;
        }
        if stream_id == 0xBF {
            out.push(PesPacket { pts_90k: None, payload: unit[6..end].to_vec() });
            return;
        }
        let header_len = unit[8] as usize;
        let pts = if unit[7] & 0x80 != 0 {
            let b = &unit[9..14];
            Some(
                (((b[0] >> 1) & 0x07) as u64) << 30
                    | (b[1] as u64) << 22
                    | ((b[2] >> 1) as u64) << 15
                    | (b[3] as u64) << 7
                    | (b[4] >> 1) as u64,
            )
        } else {
            None
        };
        out.push(PesPacket { pts_90k: pts, payload: unit[9 + header_len..end].to_vec() });
    }

    let mut out = Vec::new();
    let mut unit: Vec<u8> = Vec::new();
    for packet in packets(bytes) {
        let packet_pid = (((packet[1] & 0x1F) as u16) << 8) | packet[2] as u16;
        if packet_pid != pid {
            continue;
        }
        let afc = (packet[3] >> 4) & 0x03;
        if afc & 0x01 == 0 {
            continue;
        }
        let start = if afc & 0x02 != 0 { 5 + packet[4] as usize } else { 4 };
        if packet[1] & 0x40 != 0 {
            finish(&unit, &mut out);
            unit.clear();
        }
        unit.extend_from_slice(&packet[start..]);
    }
    finish(&unit, &mut out);
    out
}

/// Every PES on the caption PID parses, carries a PTS, and belongs to the
/// Japanese caption service.
#[test]
fn every_caption_pes_parses() {
    let pes_list = pes_packets(&caption_ts(), CAPTION_PID);
    assert!(pes_list.len() > 20, "got {} PES packets", pes_list.len());

    let mut management = 0usize;
    let mut statements = 0usize;
    let mut last_pts = i64::MIN;

    for packet in &pes_list {
        let pts = packet.pts_ms().expect("caption PES carries a PTS");
        assert!(pts >= last_pts, "PTS went backwards: {last_pts} → {pts}");
        last_pts = pts;

        let parsed = pes::parse(&packet.payload).expect("parses");
        assert_eq!(parsed.kind, CaptionKind::Caption);
        match parsed.group {
            DataGroup::Management(m) => {
                management += 1;
                assert_eq!(m.tmd, Tmd::Free);
                assert_eq!(m.languages.len(), 1);
                let lang = m.languages[0];
                assert_eq!(&lang.iso639, b"jpn");
                assert_eq!(lang.language_id, 1);
                assert_eq!(lang.format, 8);
                assert_eq!(lang.tcs, 0, "JIS coding, not UCS");
            }
            DataGroup::Statement(s) => {
                statements += 1;
                assert_eq!(s.language_id, 1);
                let units: Vec<_> =
                    s.units().collect().into_iter().map(|u| u.expect("unit parses")).collect();
                assert!(!units.is_empty(), "a statement carries at least one unit");
                assert!(units.iter().all(|u| u.kind == DataUnitKind::StatementBody
                    || matches!(u.kind, DataUnitKind::Drcs1 | DataUnitKind::Drcs2)));
            }
        }
    }

    assert_eq!(management, CAPTION_SCRIPT.len());
    assert_eq!(statements, CAPTION_SCRIPT.len());
}

/// Superimpose arrives as private_stream_2, which has no PES header extension
/// and therefore no PTS.
#[test]
fn superimpose_is_private_stream_2() {
    let pes_list = pes_packets(&superimpose_ts(), SUPERIMPOSE_PID);
    assert!(!pes_list.is_empty(), "no superimpose PES reassembled");

    for packet in &pes_list {
        assert_eq!(packet.pts_ms(), None, "private_stream_2 has no PTS");
        let parsed = pes::parse(&packet.payload).expect("parses");
        assert_eq!(parsed.kind, CaptionKind::Superimpose);
        if let DataGroup::Management(m) = parsed.group {
            assert_eq!(&m.languages[0].iso639, b"jpn");
        }
    }
}

fn decode_fixture(options: Options) -> Vec<Caption> {
    let bytes = caption_ts();
    let mut decoder = Decoder::new(CaptionKind::Caption, options);
    let mut captions = Vec::new();
    for packet in pes_packets(&bytes, CAPTION_PID) {
        match decoder.decode(&packet.payload, packet.pts_ms()) {
            Ok(Some(caption)) => captions.push(caption),
            Ok(None) => {}
            Err(e) => panic!("decode failed: {}", e.message()),
        }
    }
    captions
}

#[test]
fn decodes_captions_to_japanese_text() {
    let captions = decode_fixture(Options::default());
    assert_eq!(captions.len(), CAPTION_SCRIPT.len(), "caption count changed");

    let first = &captions[0];
    assert_eq!(first.text, "合成字幕の一行目➡");
    assert_eq!(first.language_str(), "jpn");
    assert_eq!((first.plane_width, first.plane_height), (960, 540));
    assert!(first.clear_screen);
    assert_eq!(first.pts_ms, Some((FIRST_STATEMENT_PTS_90K / 90) as i64));

    let arrows = captions.iter().filter(|c| c.text.ends_with('➡')).count();
    assert_eq!(arrows, 9, "lines ending with the continuation arrow");
    assert!(captions.iter().any(|c| c.text.contains('⁉')));

    assert_eq!(captions[2].duration, Duration::Millis(2300));
    assert!(
        captions
            .iter()
            .filter(|c| matches!(c.duration, Duration::Indefinite))
            .count()
            > 20
    );

    let mut last = i64::MIN;
    for c in &captions {
        let pts = c.pts_ms.expect("caption has a PTS");
        assert!(pts >= last);
        last = pts;
    }
}

/// Ruby is furigana: a half-size region riding above the line it annotates.
/// It must stay out of `text`, or a reading gets spliced into the sentence.
#[test]
fn ruby_is_placed_but_not_spoken() {
    let captions = decode_fixture(Options::default());
    let with_ruby: Vec<_> =
        captions.iter().filter(|c| c.regions.iter().any(|r| r.is_ruby)).collect();
    assert!(!with_ruby.is_empty(), "fixture has no ruby");

    for caption in with_ruby {
        for region in caption.regions.iter().filter(|r| r.is_ruby) {
            let ruby: String =
                region.chars.iter().filter_map(|c| c.text()).collect::<Vec<_>>().join("");
            assert!(!ruby.is_empty(), "a ruby region with no characters");
            assert!(
                !caption.text.contains(&ruby),
                "ruby {ruby:?} leaked into the text {:?}",
                caption.text
            );
            let ch = &region.chars[0];
            assert!(ch.char_horizontal_scale == Scale::Half || ch.char_width == 18);
        }
    }
}

/// Every character lands inside the caption plane, and a region's width is the
/// sum of the cells in it.
#[test]
fn geometry_stays_inside_the_plane() {
    for caption in decode_fixture(Options::default()) {
        for region in &caption.regions {
            let sum: i32 = region.chars.iter().map(|c| c.section_width()).sum();
            assert_eq!(region.width, sum, "region width does not match its chars");
            assert!(region.height > 0);
            for ch in &region.chars {
                assert!(ch.x >= 0 && ch.x < caption.plane_width, "x {} off plane", ch.x);
                assert!(ch.y >= 0 && ch.y < caption.plane_height, "y {} off plane", ch.y);
                assert!(ch.section_width() > 0 && ch.section_height() > 0);
            }
        }
    }
}

/// The MSZ substitution is a rendering choice, not a decoding one.
#[test]
fn msz_substitution_is_a_rendering_choice() {
    let fullwidth = decode_fixture(Options::default());
    let halfwidth = decode_fixture(Options {
        replace_msz_fullwidth_japanese: true,
        ..Options::default()
    });

    let fw = &fullwidth[1].text;
    let hw = &halfwidth[1].text;
    assert_eq!(fw, "テスト。");
    assert_eq!(hw, "テスト｡");
    assert_ne!(fw, hw);
}

/// A non-default background box and foreground colour: `COL` palette-select
/// then background-select, and a direct single-byte colour code.
#[test]
fn colour_controls_set_a_non_default_foreground_and_background() {
    let captions = decode_fixture(Options::default());
    // CLUT[0][7] is opaque white and CLUT[0][8] transparent.
    let default_text = Rgba::new(255, 255, 255, 255);
    let default_back = Rgba::new(0, 0, 0, 0);

    let mut saw_non_default_text = false;
    let mut saw_non_default_back = false;
    for caption in &captions {
        for ch in caption.regions.iter().flat_map(|r| &r.chars) {
            saw_non_default_text |= ch.text_color != default_text;
            saw_non_default_back |= ch.back_color != default_back;
        }
    }
    assert!(saw_non_default_text, "no character used a non-default foreground colour");
    assert!(saw_non_default_back, "no character used a non-default background colour (COL)");
}
