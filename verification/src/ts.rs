//! Just enough MPEG-TS to find the caption PID: TS packet headers, PSI section
//! reassembly, and the PAT/PMT reading that says which PID carries captions.
//!
//! [`ServiceScanner`] answers "which PID carries the captions", which cannot be
//! assumed: it differs per service, and the superimpose stream sits on its own
//! PID with the same stream type. The PMT's component tag is what separates
//! them (ARIB TR-B14: 0x30..0x37 caption, 0x38..0x3F superimpose).
use vstd::prelude::*;
use vstd::slice::slice_subrange;
use vstd::slice::slice_to_vec;

use crate::bytes::{append_bytes, bytes_equal, head_of, tail_from};

verus! {

pub const TS_PACKET_SIZE: usize = 188;

pub const SYNC_BYTE: u8 = 0x47;

// ── packet headers ──────────────────────────────────────────────────

/// The header fields of one TS packet, and where its payload starts.
#[derive(Clone, Copy, Debug, PartialEq, Eq, Structural)]
pub struct PacketView {
    pub pid: u16,
    pub payload_unit_start_indicator: bool,
    pub transport_error_indicator: bool,
    pub scrambling_control: u8,
    pub continuity_counter: u8,
    pub has_payload: bool,
    /// Where the payload begins; the packet size when there is none.
    pub payload_start: usize,
}

/// The header of a 188-byte packet that starts with the sync byte, or `None`
/// for anything else, or for an adaptation field longer than the packet.
pub open spec fn spec_packet_view(p: Seq<u8>) -> Option<PacketView> {
    if p.len() != 188 || p[0] != 0x47 {
        None
    } else {
        let afc = (p[3] >> 4u8) & 3u8;
        let has_adaptation = afc & 2u8 != 0;
        let has_payload = afc & 1u8 != 0;
        if has_adaptation && 5 + p[4] > 188 {
            None
        } else {
            Some(
                PacketView {
                    pid: (((p[1] & 0x1fu8) as u16) * 256 + p[2] as u16) as u16,
                    payload_unit_start_indicator: p[1] & 0x40u8 != 0,
                    transport_error_indicator: p[1] & 0x80u8 != 0,
                    scrambling_control: p[3] >> 6u8,
                    continuity_counter: p[3] & 0x0fu8,
                    has_payload,
                    payload_start: if !has_payload {
                        188usize
                    } else if has_adaptation {
                        (5 + p[4]) as usize
                    } else {
                        4usize
                    },
                },
            )
        }
    }
}

/// Reads the header of one TS packet.
pub fn packet_view(p: &[u8]) -> (v: Option<PacketView>)
    ensures
        v == spec_packet_view(p@),
        v matches Some(h) ==> h.payload_start <= 188,
{
    if p.len() != TS_PACKET_SIZE || p[0] != SYNC_BYTE {
        return None;
    }
    let afc = (p[3] >> 4) & 3;
    let has_adaptation = afc & 2 != 0;
    let has_payload = afc & 1 != 0;
    if has_adaptation && 5 + p[4] as usize > TS_PACKET_SIZE {
        return None;
    }
    let b1 = p[1];
    let b3 = p[3];
    assert(b1 & 0x1f <= 0x1f) by (bit_vector);
    Some(PacketView {
        pid: ((b1 & 0x1f) as u16) * 256 + p[2] as u16,
        payload_unit_start_indicator: b1 & 0x40 != 0,
        transport_error_indicator: b1 & 0x80 != 0,
        scrambling_control: b3 >> 6,
        continuity_counter: b3 & 0x0f,
        has_payload,
        payload_start: if !has_payload {
            TS_PACKET_SIZE
        } else if has_adaptation {
            5 + p[4] as usize
        } else {
            4
        },
    })
}

/// The header of a packet that carries payload bytes, or `None`.
pub open spec fn spec_payload_view(p: Seq<u8>) -> Option<PacketView> {
    match spec_packet_view(p) {
        Some(v) => if v.has_payload && v.payload_start < 188 {
            Some(v)
        } else {
            None
        },
        None => None,
    }
}

// ── service discovery ───────────────────────────────────────────────

/// A caption-carrying elementary stream found in the PMT.
#[derive(Clone, Copy, Debug, PartialEq, Eq, Structural)]
pub struct CaptionStream {
    pub pid: u16,
    pub service_id: u16,
    /// The stream_identifier_descriptor's component tag, which is what
    /// distinguishes captions (0x30..0x37) from superimpose (0x38..0x3F).
    pub component_tag: Option<u8>,
}

impl CaptionStream {
    pub open spec fn spec_is_superimpose(&self) -> bool {
        self.component_tag matches Some(tag) && 0x38 <= tag <= 0x3f
    }

    pub fn is_superimpose(&self) -> (s: bool)
        ensures
            s == self.spec_is_superimpose(),
    {
        match self.component_tag {
            Some(tag) => 0x38 <= tag && tag <= 0x3f,
            None => false,
        }
    }
}

/// What a section reader holds between packets.
pub struct ReaderState {
    pub buf: Seq<u8>,
    pub started: bool,
    pub awaiting_pusi: bool,
    pub last_continuity_counter: Option<u8>,
    pub last_packet: Option<Seq<u8>>,
}

/// A reader that has seen nothing.
pub open spec fn initial_reader() -> ReaderState {
    ReaderState {
        buf: Seq::empty(),
        started: false,
        awaiting_pusi: false,
        last_continuity_counter: None,
        last_packet: None,
    }
}

/// The 12-bit `section_length` of a section header.
pub open spec fn section_length(s: Seq<u8>) -> int {
    (s[1] & 0x0fu8) * 256 + s[2]
}

/// Takes whole sections off the front of a started buffer: the sections,
/// what is left, and whether a section is still under way. What follows a
/// section is another one or 0xFF stuffing, which ends the run.
pub open spec fn spec_drain(buf: Seq<u8>) -> (Seq<Seq<u8>>, Seq<u8>, bool)
    decreases buf.len(),
{
    if buf.len() < 3 {
        (Seq::empty(), buf, true)
    } else {
        let total = 3 + section_length(buf);
        if buf.len() < total {
            (Seq::empty(), buf, true)
        } else {
            let rest = buf.subrange(total, buf.len() as int);
            if rest.len() == 0 || rest[0] == 0xff {
                (seq![buf.take(total)], Seq::empty(), false)
            } else {
                let (more, left, started) = spec_drain(rest);
                (seq![buf.take(total)] + more, left, started)
            }
        }
    }
}

/// Drains `st` if a section is under way.
pub open spec fn drained(st: ReaderState) -> (ReaderState, Seq<Seq<u8>>) {
    if st.started {
        let (out, buf, started) = spec_drain(st.buf);
        (ReaderState { buf, started, ..st }, out)
    } else {
        (st, Seq::empty())
    }
}

/// One packet's payload into a reader. A section start carries a
/// `pointer_field` saying how many bytes of the *previous* section come
/// first; the start then abandons anything still incomplete.
pub open spec fn spec_push_payload(st: ReaderState, payload: Seq<u8>, pusi: bool) -> (
    ReaderState,
    Seq<Seq<u8>>,
) {
    if pusi {
        if payload.len() == 0 {
            (st, Seq::empty())
        } else {
            let pointer = if payload[0] as int <= payload.len() - 1 {
                payload[0] as int
            } else {
                payload.len() - 1
            };
            let rest = payload.subrange(1, payload.len() as int);
            let tail = rest.take(pointer);
            let next = rest.skip(pointer);
            let (_, first) = drained(ReaderState { buf: st.buf + tail, ..st });
            let first = if st.started {
                first
            } else {
                Seq::empty()
            };
            let started = next.len() != 0 && next[0] != 0xff;
            let (st2, second) = drained(
                ReaderState {
                    buf: if started {
                        next
                    } else {
                        Seq::empty()
                    },
                    started,
                    ..st
                },
            );
            (st2, first + second)
        }
    } else if st.started {
        drained(ReaderState { buf: st.buf + payload, ..st })
    } else {
        (st, Seq::empty())
    }
}

/// A reader that has lost its place: it waits for the next section start.
pub open spec fn invalidated(st: ReaderState) -> ReaderState {
    ReaderState { buf: Seq::empty(), started: false, awaiting_pusi: true, ..st }
}

/// One packet into a reader: damaged packets and continuity gaps lose the
/// section under way, an exact duplicate is ignored, and after a loss nothing
/// is read until a section starts.
pub open spec fn spec_reader_push(st: ReaderState, raw: Seq<u8>, v: PacketView) -> (
    ReaderState,
    Seq<Seq<u8>>,
) {
    if v.transport_error_indicator || v.scrambling_control != 0 {
        (invalidated(st), Seq::empty())
    } else if st.last_continuity_counter == Some(v.continuity_counter) && st.last_packet == Some(
        raw,
    ) {
        (st, Seq::empty())
    } else {
        let gap = st.last_continuity_counter matches Some(last) && v.continuity_counter != ((
        last + 1) % 16) as u8;
        let st1 = if gap {
            invalidated(st)
        } else {
            st
        };
        let st2 = ReaderState {
            last_continuity_counter: Some(v.continuity_counter),
            last_packet: Some(raw),
            ..st1
        };
        if st2.awaiting_pusi && !v.payload_unit_start_indicator {
            (st2, Seq::empty())
        } else {
            spec_push_payload(
                ReaderState { awaiting_pusi: false, ..st2 },
                raw.subrange(v.payload_start as int, 188),
                v.payload_unit_start_indicator,
            )
        }
    }
}

/// Reassembles PSI sections arriving on one PID.
#[derive(Debug)]
struct SectionReader {
    buf: Vec<u8>,
    started: bool,
    awaiting_pusi: bool,
    last_continuity_counter: Option<u8>,
    last_packet: Option<Vec<u8>>,
}

impl SectionReader {
    spec fn state(&self) -> ReaderState {
        ReaderState {
            buf: self.buf@,
            started: self.started,
            awaiting_pusi: self.awaiting_pusi,
            last_continuity_counter: self.last_continuity_counter,
            last_packet: match self.last_packet {
                Some(p) => Some(p@),
                None => None,
            },
        }
    }

    fn new() -> (r: SectionReader)
        ensures
            r.state() == initial_reader(),
    {
        SectionReader {
            buf: Vec::new(),
            started: false,
            awaiting_pusi: false,
            last_continuity_counter: None,
            last_packet: None,
        }
    }

    fn push(&mut self, raw: &[u8], v: PacketView, out: &mut Vec<Vec<u8>>)
        requires
            raw@.len() == 188,
            v.payload_start <= 188,
        ensures
            ({
                let (st, sections) = spec_reader_push(old(self).state(), raw@, v);
                &&& final(self).state() == st
                &&& final(out)@.map_values(|s: Vec<u8>| s@) == old(out)@.map_values(
                    |s: Vec<u8>| s@,
                ) + sections
            }),
    {
        if v.transport_error_indicator || v.scrambling_control != 0 {
            self.invalidate();
            return;
        }
        let exact_duplicate = match (&self.last_packet, self.last_continuity_counter) {
            (Some(last), Some(cc)) => cc == v.continuity_counter && bytes_equal(
                last.as_slice(),
                raw,
            ),
            _ => false,
        };
        if exact_duplicate {
            return;
        }
        let continuity_gap = match self.last_continuity_counter {
            // The counter is four bits, so it never exceeds 15 and this is
            // the next one modulo 16.
            Some(last) => v.continuity_counter != (last % 16 + 1) % 16,
            None => false,
        };
        if continuity_gap {
            self.invalidate();
        }
        self.last_continuity_counter = Some(v.continuity_counter);
        self.last_packet = Some(slice_to_vec(raw));

        if self.awaiting_pusi {
            if !v.payload_unit_start_indicator {
                return;
            }
            self.awaiting_pusi = false;
        }
        let payload = slice_subrange(raw, v.payload_start, TS_PACKET_SIZE);
        self.push_payload(payload, v.payload_unit_start_indicator, out);
    }

    fn push_payload(&mut self, payload: &[u8], pusi: bool, out: &mut Vec<Vec<u8>>)
        ensures
            ({
                let (st, sections) = spec_push_payload(old(self).state(), payload@, pusi);
                &&& final(self).state() == st
                &&& final(out)@.map_values(|s: Vec<u8>| s@) == old(out)@.map_values(
                    |s: Vec<u8>| s@,
                ) + sections
            }),
    {
        let ghost out0 = out@.map_values(|s: Vec<u8>| s@);
        if pusi {
            if payload.len() == 0 {
                assert(out0 + Seq::<Seq<u8>>::empty() =~= out0);
                return;
            }
            let pointer = if (payload[0] as usize) <= payload.len() - 1 {
                payload[0] as usize
            } else {
                payload.len() - 1
            };
            let rest = slice_subrange(payload, 1, payload.len());
            let tail = slice_subrange(rest, 0, pointer);
            let next = slice_subrange(rest, pointer, rest.len());
            assert(tail@ =~= rest@.take(pointer as int));
            assert(next@ =~= rest@.skip(pointer as int));
            let ghost out1 = out@.map_values(|s: Vec<u8>| s@);
            if self.started {
                append_bytes(&mut self.buf, tail);
                self.drain(out);
            } else {
                assert(out1 + Seq::<Seq<u8>>::empty() =~= out1);
            }
            let ghost out2 = out@.map_values(|s: Vec<u8>| s@);
            // A section start abandons anything still incomplete: its missing
            // bytes are never coming.
            self.buf.clear();
            self.started = next.len() != 0 && next[0] != 0xff;
            if self.started {
                append_bytes(&mut self.buf, next);
                assert(self.buf@ =~= next@);
            }
            self.drain(out);
            assert(out@.map_values(|s: Vec<u8>| s@) =~= out0 + spec_push_payload(
                old(self).state(),
                payload@,
                pusi,
            ).1);
        } else if self.started {
            append_bytes(&mut self.buf, payload);
            self.drain(out);
        } else {
            assert(out0 + Seq::<Seq<u8>>::empty() =~= out0);
        }
    }

    fn invalidate(&mut self)
        ensures
            final(self).state() == invalidated(old(self).state()),
    {
        self.buf.clear();
        self.started = false;
        self.awaiting_pusi = true;
    }

    fn drain(&mut self, out: &mut Vec<Vec<u8>>)
        ensures
            ({
                let (st, sections) = drained(old(self).state());
                &&& final(self).state() == st
                &&& final(out)@.map_values(|s: Vec<u8>| s@) == old(out)@.map_values(
                    |s: Vec<u8>| s@,
                ) + sections
            }),
    {
        let ghost out0 = out@.map_values(|s: Vec<u8>| s@);
        let ghost st0 = self.state();
        if !self.started {
            assert(out0 + Seq::<Seq<u8>>::empty() =~= out0);
            return;
        }
        loop
            invariant
                self.last_continuity_counter == st0.last_continuity_counter,
                self.awaiting_pusi == st0.awaiting_pusi,
                self.last_packet == old(self).last_packet,
                st0 == old(self).state(),
                out0 == old(out)@.map_values(|v: Vec<u8>| v@),
                st0.started,
                ({
                    let (all, buf_end, started_end) = spec_drain(st0.buf);
                    let (rest, b, s) = if self.started {
                        spec_drain(self.buf@)
                    } else {
                        (Seq::empty(), self.buf@, false)
                    };
                    &&& all == out@.map_values(|v: Vec<u8>| v@).skip(out0.len() as int) + rest
                    &&& buf_end == b
                    &&& started_end == s
                    &&& out0 == out@.map_values(|v: Vec<u8>| v@).take(out0.len() as int)
                    &&& out0.len() <= out@.len()
                }),
            decreases self.buf@.len(),
        {
            if !self.started || self.buf.len() < 3 {
                let ghost sfx = out@.map_values(|v: Vec<u8>| v@).skip(out0.len() as int);
                assert(sfx + Seq::<Seq<u8>>::empty() =~= sfx);
                assert(out@.map_values(|v: Vec<u8>| v@) =~= out0 + sfx);
                return;
            }
            let b1 = self.buf[1];
            let length = ((b1 & 0x0f) as usize) * 256 + self.buf[2] as usize;
            let total = 3 + length;
            if self.buf.len() < total {
                let ghost sfx = out@.map_values(|v: Vec<u8>| v@).skip(out0.len() as int);
                assert(sfx + Seq::<Seq<u8>>::empty() =~= sfx);
                assert(out@.map_values(|v: Vec<u8>| v@) =~= out0 + sfx);
                return;
            }
            let ghost before = out@.map_values(|v: Vec<u8>| v@);
            let section = head_of(&self.buf, total);
            out.push(section);
            assert(out@.map_values(|v: Vec<u8>| v@) =~= before.push(section@));
            let rest = tail_from(&self.buf, total);
            self.buf = rest;
            // What follows is another section or 0xFF stuffing.
            if self.buf.len() == 0 || self.buf[0] == 0xff {
                self.buf.clear();
                self.started = false;
            }
            assert(out@.map_values(|v: Vec<u8>| v@).skip(out0.len() as int) =~= before.skip(
                out0.len() as int,
            ).push(section@));
            assert(out0 =~= out@.map_values(|v: Vec<u8>| v@).take(out0.len() as int));
        }
    }
}

/// The contents of a section between its header and its CRC, as a range, or
/// `None` if the section is too short or does not fit.
pub open spec fn spec_section_body(s: Seq<u8>) -> Option<(int, int)> {
    if s.len() < 8 {
        None
    } else {
        let end = 3 + section_length(s);
        if end > s.len() || section_length(s) < 9 {
            None
        } else {
            Some((8, end - 4))
        }
    }
}

fn section_body(section: &[u8]) -> (r: Option<(usize, usize)>)
    ensures
        match (r, spec_section_body(section@)) {
            (Some((a, b)), Some((c, d))) => a == c && b == d,
            (None, None) => true,
            _ => false,
        },
        r matches Some((a, b)) ==> a <= b <= section@.len(),
{
    if section.len() < 8 {
        return None;
    }
    let b1 = section[1];
    let section_length = ((b1 & 0x0f) as usize) * 256 + section[2] as usize;
    let end = 3 + section_length;
    if end > section.len() || section_length < 9 {
        return None;
    }
    // Skip the 5 bytes after section_length (table id extension, version,
    // section numbers) and stop before the 4-byte CRC.
    Some((8, end - 4))
}

/// Whether a program is already known.
pub open spec fn has_program(pids: Seq<(u16, u16)>, program: u16) -> bool {
    exists|i: int| 0 <= i < pids.len() && #[trigger] pids[i].0 == program
}

/// The PAT entries from byte `i` of a section body on, each adding its
/// program's PMT PID unless the program is already known or is 0.
pub open spec fn pat_from(pids: Seq<(u16, u16)>, body: Seq<u8>, i: int) -> Seq<(u16, u16)>
    decreases body.len() - i,
{
    if i < 0 || i + 4 > body.len() {
        pids
    } else {
        let program = (body[i] * 256 + body[i + 1]) as u16;
        let pid = ((body[i + 2] & 0x1fu8) * 256 + body[i + 3]) as u16;
        let pids2 = if program != 0 && !has_program(pids, program) {
            pids.push((program, pid))
        } else {
            pids
        };
        pat_from(pids2, body, i + 4)
    }
}

/// What a PAT section adds to the PMT PIDs.
pub open spec fn spec_parse_pat(pids: Seq<(u16, u16)>, s: Seq<u8>) -> Seq<(u16, u16)> {
    if s.len() == 0 || s[0] != 0 {
        pids
    } else {
        match spec_section_body(s) {
            None => pids,
            Some((a, b)) => pat_from(pids, s.subrange(a, b), 0),
        }
    }
}

/// The component tag of the first stream identifier descriptor (0x52) from
/// byte `off` of a descriptor loop on; `None` when there is none, or when a
/// descriptor runs past the loop before one is found.
pub open spec fn spec_component_tag(d: Seq<u8>, off: int) -> Option<u8>
    decreases d.len() - off,
{
    if off < 0 || off + 2 > d.len() {
        None
    } else {
        let len = d[off + 1] as int;
        if off + 2 + len > d.len() {
            None
        } else if d[off] == 0x52 && len > 0 {
            Some(d[off + 2])
        } else {
            spec_component_tag(d, off + 2 + len)
        }
    }
}

/// The caption and superimpose streams a PMT's elementary stream loop
/// declares, from byte `off` of the section body on.
pub open spec fn pmt_streams(body: Seq<u8>, off: int, service_id: u16) -> Seq<CaptionStream>
    decreases body.len() - off,
{
    if off < 0 || off + 5 > body.len() {
        Seq::empty()
    } else {
        let stream_type = body[off];
        let pid = ((body[off + 1] & 0x1fu8) * 256 + body[off + 2]) as u16;
        let es_info_length = (body[off + 3] & 0x0fu8) * 256 + body[off + 4];
        let desc_start = off + 5;
        let desc_end = desc_start + es_info_length;
        if desc_end > body.len() {
            Seq::empty()
        } else {
            let tag = spec_component_tag(body.subrange(desc_start, desc_end), 0);
            let here = if stream_type == 0x06 && (tag matches Some(t) && 0x30 <= t <= 0x3f) {
                seq![CaptionStream { pid, service_id, component_tag: tag }]
            } else {
                Seq::empty()
            };
            here + pmt_streams(body, desc_end, service_id)
        }
    }
}

/// `found` with each of `streams` appended that it does not hold yet.
pub open spec fn add_streams(found: Seq<CaptionStream>, streams: Seq<CaptionStream>) -> Seq<
    CaptionStream,
>
    decreases streams.len(),
{
    if streams.len() == 0 {
        found
    } else {
        let f = if found.contains(streams[0]) {
            found
        } else {
            found.push(streams[0])
        };
        add_streams(f, streams.drop_first())
    }
}

/// The streams a PMT section declares.
pub open spec fn spec_pmt_section(s: Seq<u8>) -> Seq<CaptionStream> {
    if s.len() == 0 || s[0] != 0x02 {
        Seq::empty()
    } else {
        match spec_section_body(s) {
            None => Seq::empty(),
            Some((a, b)) => {
                let body = s.subrange(a, b);
                let service_id = (s[3] * 256 + s[4]) as u16;
                if body.len() < 4 {
                    Seq::empty()
                } else {
                    let program_info_length = (body[2] & 0x0fu8) * 256 + body[3];
                    pmt_streams(body, 4 + program_info_length, service_id)
                }
            },
        }
    }
}

/// PAT sections in order, applied to the PMT PIDs.
pub open spec fn pat_sections(pids: Seq<(u16, u16)>, sections: Seq<Seq<u8>>) -> Seq<(u16, u16)>
    decreases sections.len(),
{
    if sections.len() == 0 {
        pids
    } else {
        pat_sections(spec_parse_pat(pids, sections[0]), sections.drop_first())
    }
}

/// PMT sections in order, applied to the streams found so far.
pub open spec fn pmt_sections(found: Seq<CaptionStream>, sections: Seq<Seq<u8>>) -> Seq<
    CaptionStream,
>
    decreases sections.len(),
{
    if sections.len() == 0 {
        found
    } else {
        pmt_sections(add_streams(found, spec_pmt_section(sections[0])), sections.drop_first())
    }
}

/// A stream as the scanner finds one: tagged as a caption (0x30..0x37) or a
/// superimpose (0x38..0x3F) component.
pub open spec fn tagged(s: CaptionStream) -> bool {
    s.component_tag matches Some(t) && 0x30 <= t <= 0x3f
}

/// Found streams as the scanner keeps them: each tagged, none twice.
pub open spec fn found_ok(found: Seq<CaptionStream>) -> bool {
    &&& forall|i: int| 0 <= i < found.len() ==> #[trigger] tagged(found[i])
    &&& forall|i: int, j: int| 0 <= i < j < found.len() ==> #[trigger] found[i] != #[trigger] found[j]
}

/// `b` begins with all of `a`, in order.
pub open spec fn starts_with(b: Seq<CaptionStream>, a: Seq<CaptionStream>) -> bool {
    a.len() <= b.len() && forall|i: int| 0 <= i < a.len() ==> #[trigger] b[i] == a[i]
}

proof fn lemma_pmt_streams_tagged(body: Seq<u8>, off: int, service_id: u16)
    ensures
        forall|i: int|
            0 <= i < pmt_streams(body, off, service_id).len() ==> #[trigger] tagged(
                pmt_streams(body, off, service_id)[i],
            ),
    decreases body.len() - off,
{
    if off < 0 || off + 5 > body.len() {
    } else {
        let es_info_length = (body[off + 3] & 0x0fu8) * 256 + body[off + 4];
        let desc_end = off + 5 + es_info_length;
        if desc_end <= body.len() {
            lemma_pmt_streams_tagged(body, desc_end, service_id);
            let rest = pmt_streams(body, desc_end, service_id);
            let all = pmt_streams(body, off, service_id);
            assert forall|i: int| 0 <= i < all.len() implies #[trigger] tagged(all[i]) by {
                if all.len() > rest.len() && i > 0 {
                    assert(all[i] == rest[i - 1]);
                } else if all.len() == rest.len() {
                    assert(all[i] == rest[i]);
                }
            }
        }
    }
}

proof fn lemma_add_streams(found: Seq<CaptionStream>, streams: Seq<CaptionStream>)
    requires
        found_ok(found),
        forall|i: int| 0 <= i < streams.len() ==> #[trigger] tagged(streams[i]),
    ensures
        found_ok(add_streams(found, streams)),
        starts_with(add_streams(found, streams), found),
    decreases streams.len(),
{
    if streams.len() > 0 {
        let f = if found.contains(streams[0]) {
            found
        } else {
            found.push(streams[0])
        };
        assert(tagged(streams[0]));
        if !found.contains(streams[0]) {
            assert forall|i: int, j: int| 0 <= i < j < f.len() implies #[trigger] f[i] != #[trigger] f[j] by {
                if j == found.len() {
                    assert(found[i] == f[i]);
                    if found[i] == streams[0] {
                        assert(found.contains(streams[0]));
                    }
                } else {
                    assert(f[i] == found[i] && f[j] == found[j]);
                }
            }
            assert forall|i: int| 0 <= i < f.len() implies #[trigger] tagged(f[i]) by {
                if i < found.len() {
                    assert(f[i] == found[i]);
                }
            }
        }
        let rest = streams.drop_first();
        assert forall|i: int| 0 <= i < rest.len() implies #[trigger] tagged(rest[i]) by {
            assert(rest[i] == streams[i + 1]);
        }
        lemma_add_streams(f, rest);
    }
}

proof fn lemma_pmt_sections(found: Seq<CaptionStream>, sections: Seq<Seq<u8>>)
    requires
        found_ok(found),
    ensures
        found_ok(pmt_sections(found, sections)),
        starts_with(pmt_sections(found, sections), found),
    decreases sections.len(),
{
    if sections.len() > 0 {
        let s = sections[0];
        let streams = spec_pmt_section(s);
        if s.len() != 0 && s[0] == 0x02 {
            match spec_section_body(s) {
                None => {},
                Some((a, b)) => {
                    let body = s.subrange(a, b);
                    if body.len() >= 4 {
                        let program_info_length = (body[2] & 0x0fu8) * 256 + body[3];
                        lemma_pmt_streams_tagged(body, 4 + program_info_length, (s[3] * 256 + s[4]) as u16);
                    }
                },
            }
        }
        lemma_add_streams(found, streams);
        let f = add_streams(found, streams);
        lemma_pmt_sections(f, sections.drop_first());
    }
}

/// Whether some PMT PID is `pid`.
pub open spec fn is_pmt_pid(pids: Seq<(u16, u16)>, pid: u16) -> bool {
    exists|i: int| 0 <= i < pids.len() && #[trigger] pids[i].1 == pid
}

/// The first index of `x` in `s`, or `s.len()` when it is absent.
pub open spec fn first_index(s: Seq<u16>, x: u16) -> nat
    decreases s.len(),
{
    if s.len() == 0 {
        0
    } else if s[0] == x {
        0
    } else {
        1 + first_index(s.drop_first(), x)
    }
}

/// Finds caption PIDs by reading PAT and PMT off the stream.
///
/// Sections are reassembled across packets, which is not optional: an ISDB PMT
/// carrying the ARIB descriptors runs past 184 bytes routinely.
#[derive(Debug)]
pub struct ServiceScanner {
    /// (program_number, pmt_pid)
    pmt_pids: Vec<(u16, u16)>,
    reader_pids: Vec<u16>,
    readers: Vec<SectionReader>,
    found: Vec<CaptionStream>,
}

impl ServiceScanner {
    /// The PMT PIDs the PAT has named, with their programs.
    pub closed spec fn spec_pmt_pids(&self) -> Seq<(u16, u16)> {
        self.pmt_pids@
    }

    /// The PIDs a section reader is open on.
    pub closed spec fn spec_reader_pids(&self) -> Seq<u16> {
        self.reader_pids@
    }

    /// The state of each open section reader.
    pub closed spec fn spec_readers(&self) -> Seq<ReaderState> {
        self.readers@.map_values(|r: SectionReader| r.state())
    }

    /// The caption streams found so far.
    pub closed spec fn spec_found(&self) -> Seq<CaptionStream> {
        self.found@
    }

    pub closed spec fn wf(&self) -> bool {
        &&& self.reader_pids@.len() == self.readers@.len()
        &&& found_ok(self.found@)
    }

    pub fn new() -> (s: ServiceScanner)
        ensures
            s.wf(),
            s.spec_pmt_pids().len() == 0,
            s.spec_reader_pids().len() == 0,
            s.spec_found().len() == 0,
    {
        ServiceScanner {
            pmt_pids: Vec::new(),
            reader_pids: Vec::new(),
            readers: Vec::new(),
            found: Vec::new(),
        }
    }

    /// Feed a TS packet. Returns the caption streams known so far.
    pub fn push(&mut self, packet: &[u8]) -> (streams: &[CaptionStream])
        requires
            old(self).wf(),
        ensures
            final(self).wf(),
            streams@ == final(self).spec_found(),
            found_ok(final(self).spec_found()),
            starts_with(final(self).spec_found(), old(self).spec_found()),
            spec_payload_view(packet@) matches Some(v) ==> (v.transport_error_indicator
                || v.scrambling_control != 0 ==> final(self).spec_found() == old(self).spec_found()),
            ({
                let o = *old(self);
                let f = *final(self);
                match spec_payload_view(packet@) {
                    None => f.spec_pmt_pids() == o.spec_pmt_pids() && f.spec_found()
                        == o.spec_found() && f.spec_readers() == o.spec_readers()
                        && f.spec_reader_pids() == o.spec_reader_pids(),
                    Some(v) => {
                        let is_pat = v.pid == 0;
                        if !is_pat && !is_pmt_pid(o.spec_pmt_pids(), v.pid) {
                            f.spec_pmt_pids() == o.spec_pmt_pids() && f.spec_found()
                                == o.spec_found() && f.spec_readers() == o.spec_readers()
                                && f.spec_reader_pids() == o.spec_reader_pids()
                        } else {
                            let i = first_index(o.spec_reader_pids(), v.pid) as int;
                            let fresh = i == o.spec_reader_pids().len();
                            let pids = if fresh {
                                o.spec_reader_pids().push(v.pid)
                            } else {
                                o.spec_reader_pids()
                            };
                            let readers = if fresh {
                                o.spec_readers().push(initial_reader())
                            } else {
                                o.spec_readers()
                            };
                            let (st, sections) = spec_reader_push(readers[i], packet@, v);
                            &&& f.spec_reader_pids() == pids
                            &&& f.spec_readers() == readers.update(i, st)
                            &&& if is_pat {
                                f.spec_pmt_pids() == pat_sections(o.spec_pmt_pids(), sections)
                                    && f.spec_found() == o.spec_found()
                            } else {
                                f.spec_pmt_pids() == o.spec_pmt_pids() && f.spec_found()
                                    == pmt_sections(o.spec_found(), sections)
                            }
                        }
                    },
                }
            }),
    {
        let v = match packet_view(packet) {
            Some(v) => v,
            None => return self.found.as_slice(),
        };
        if !v.has_payload || v.payload_start >= TS_PACKET_SIZE {
            return self.found.as_slice();
        }
        let pid = v.pid;
        let is_pat = pid == 0;
        let mut is_pmt = false;
        let mut k: usize = 0;
        while k < self.pmt_pids.len()
            invariant
                0 <= k <= self.pmt_pids@.len(),
                is_pmt == exists|j: int| 0 <= j < k && #[trigger] self.pmt_pids@[j].1 == pid,
            decreases self.pmt_pids@.len() - k,
        {
            if self.pmt_pids[k].1 == pid {
                is_pmt = true;
            }
            k = k + 1;
        }
        if !is_pat && !is_pmt {
            return self.found.as_slice();
        }
        // Collect first, parse after.
        let mut i: usize = 0;
        while i < self.reader_pids.len() && self.reader_pids[i] != pid
            invariant
                0 <= i <= self.reader_pids@.len(),
                forall|j: int| 0 <= j < i ==> self.reader_pids@[j] != pid,
            decreases self.reader_pids@.len() - i,
        {
            i = i + 1;
        }
        proof {
            lemma_first_index_found(self.reader_pids@, pid, i as int);
        }
        if i == self.reader_pids.len() {
            self.reader_pids.push(pid);
            self.readers.push(SectionReader::new());
            assert(self.readers@.map_values(|r: SectionReader| r.state()) =~= old(
                self,
            ).readers@.map_values(|r: SectionReader| r.state()).push(initial_reader()));
        }
        let ghost states = self.readers@.map_values(|r: SectionReader| r.state());
        let ghost held = self.readers@;
        let mut sections: Vec<Vec<u8>> = Vec::new();
        let mut reader = self.readers.remove(i);
        assert(reader.state() == states[i as int]);
        let ghost reader0 = reader.state();
        reader.push(packet, v, &mut sections);
        self.readers.insert(i, reader);
        assert(self.readers@ =~= held.update(i as int, reader));
        assert(self.readers@.map_values(|r: SectionReader| r.state()) =~= states.update(
            i as int,
            reader.state(),
        ));
        assert(sections@.map_values(|s: Vec<u8>| s@) =~= Seq::<Seq<u8>>::empty()
            + sections@.map_values(|s: Vec<u8>| s@));
        let ghost all = sections@.map_values(|s: Vec<u8>| s@);
        assert(all == spec_reader_push(reader0, packet@, v).1);
        assert(all.skip(0) =~= all);
        let ghost pids_now = self.reader_pids@;
        let ghost readers_now = self.readers@;
        let mut n: usize = 0;
        while n < sections.len()
            invariant
                0 <= n <= sections@.len(),
                all == sections@.map_values(|s: Vec<u8>| s@),
                self.reader_pids@ == pids_now,
                self.readers@ == readers_now,
                is_pat ==> pat_sections(old(self).pmt_pids@, all) == pat_sections(
                    self.pmt_pids@,
                    all.skip(n as int),
                ) && self.found@ == old(self).found@,
                !is_pat ==> pmt_sections(old(self).found@, all) == pmt_sections(
                    self.found@,
                    all.skip(n as int),
                ) && self.pmt_pids@ == old(self).pmt_pids@,
            decreases sections@.len() - n,
        {
            assert(all.skip(n as int).drop_first() =~= all.skip(n + 1));
            assert(all.skip(n as int)[0] == sections@[n as int]@);
            if is_pat {
                self.parse_pat(sections[n].as_slice());
            } else {
                self.parse_pmt(sections[n].as_slice());
            }
            n = n + 1;
        }
        assert(all.skip(n as int) =~= Seq::<Seq<u8>>::empty());
        proof {
            lemma_pmt_sections(old(self).found@, all);
        }
        self.found.as_slice()
    }

    pub fn streams(&self) -> (s: &[CaptionStream])
        ensures
            s@ == self.spec_found(),
    {
        self.found.as_slice()
    }

    /// The caption (not superimpose) PID, if one has been seen.
    pub fn caption_pid(&self) -> (p: Option<u16>)
        ensures
            p matches Some(pid) ==> exists|i: int|
                0 <= i < self.spec_found().len() && self.spec_found()[i].pid == pid
                    && !self.spec_found()[i].spec_is_superimpose() && forall|j: int|
                    0 <= j < i ==> self.spec_found()[j].spec_is_superimpose(),
            p is None ==> forall|i: int|
                0 <= i < self.spec_found().len() ==> self.spec_found()[i].spec_is_superimpose(),
    {
        let mut i: usize = 0;
        while i < self.found.len()
            invariant
                0 <= i <= self.found@.len(),
                forall|j: int| 0 <= j < i ==> self.found@[j].spec_is_superimpose(),
            decreases self.found@.len() - i,
        {
            if !self.found[i].is_superimpose() {
                assert(0 <= i < self.spec_found().len() && self.spec_found()[i as int].pid
                    == self.found[i as int].pid && !self.spec_found()[i as int].spec_is_superimpose()
                    && forall|j: int| 0 <= j < i ==> self.spec_found()[j].spec_is_superimpose());
                return Some(self.found[i].pid);
            }
            i = i + 1;
        }
        None
    }

    /// The superimpose PID, if one has been seen.
    pub fn superimpose_pid(&self) -> (p: Option<u16>)
        ensures
            p matches Some(pid) ==> exists|i: int|
                0 <= i < self.spec_found().len() && self.spec_found()[i].pid == pid
                    && self.spec_found()[i].spec_is_superimpose() && forall|j: int|
                    0 <= j < i ==> !self.spec_found()[j].spec_is_superimpose(),
            p is None ==> forall|i: int|
                0 <= i < self.spec_found().len() ==> !self.spec_found()[i].spec_is_superimpose(),
    {
        let mut i: usize = 0;
        while i < self.found.len()
            invariant
                0 <= i <= self.found@.len(),
                forall|j: int| 0 <= j < i ==> !self.found@[j].spec_is_superimpose(),
            decreases self.found@.len() - i,
        {
            if self.found[i].is_superimpose() {
                assert(0 <= i < self.spec_found().len() && self.spec_found()[i as int].pid
                    == self.found[i as int].pid && self.spec_found()[i as int].spec_is_superimpose()
                    && forall|j: int| 0 <= j < i ==> !self.spec_found()[j].spec_is_superimpose());
                return Some(self.found[i].pid);
            }
            i = i + 1;
        }
        None
    }

    fn parse_pat(&mut self, section: &[u8])
        ensures
            final(self).pmt_pids@ == spec_parse_pat(old(self).pmt_pids@, section@),
            final(self).found == old(self).found,
            final(self).readers == old(self).readers,
            final(self).reader_pids == old(self).reader_pids,
    {
        if section.len() == 0 || section[0] != 0x00 {
            return;
        }
        let (a, b) = match section_body(section) {
            Some(r) => r,
            None => return,
        };
        let body = slice_subrange(section, a, b);
        // program_number(2) + PMT PID(2) per entry, after the 5 bytes of
        // table-specific header that section_body already skipped.
        let mut i: usize = 0;
        while body.len() - i >= 4
            invariant
                pat_from(old(self).pmt_pids@, body@, 0) == pat_from(self.pmt_pids@, body@, i as int),
                i <= body@.len(),
                self.found == old(self).found,
                self.readers == old(self).readers,
                self.reader_pids == old(self).reader_pids,
            decreases body@.len() - i,
        {
            let program = (body[i] as u16) * 256 + body[i + 1] as u16;
            let b2 = body[i + 2];
            assert(b2 & 0x1f <= 0x1f) by (bit_vector);
            let pid = ((b2 & 0x1f) as u16) * 256 + body[i + 3] as u16;
            let mut known = false;
            let mut j: usize = 0;
            while j < self.pmt_pids.len()
                invariant
                    0 <= j <= self.pmt_pids@.len(),
                    known == exists|k: int| 0 <= k < j && #[trigger] self.pmt_pids@[k].0 == program,
                decreases self.pmt_pids@.len() - j,
            {
                if self.pmt_pids[j].0 == program {
                    known = true;
                }
                j = j + 1;
            }
            if program != 0 && !known {
                self.pmt_pids.push((program, pid));
            }
            i = i + 4;
        }
    }

    fn parse_pmt(&mut self, section: &[u8])
        ensures
            final(self).found@ == add_streams(old(self).found@, spec_pmt_section(section@)),
            final(self).pmt_pids == old(self).pmt_pids,
            final(self).readers == old(self).readers,
            final(self).reader_pids == old(self).reader_pids,
    {
        if section.len() == 0 || section[0] != 0x02 {
            return;
        }
        // section_body() enforces the 8-byte minimum, so the service-id read
        // below must follow it.
        let (a, b) = match section_body(section) {
            Some(r) => r,
            None => return,
        };
        let body = slice_subrange(section, a, b);
        let service_id = (section[3] as u16) * 256 + section[4] as u16;
        if body.len() < 4 {
            return;
        }
        let b2 = body[2];
        let program_info_length = ((b2 & 0x0f) as usize) * 256 + body[3] as usize;
        let mut off = 4 + program_info_length;
        let ghost start = off as int;
        loop
            invariant
                add_streams(old(self).found@, pmt_streams(body@, start, service_id))
                    == add_streams(self.found@, pmt_streams(body@, off as int, service_id)),
                off <= 4 + 0x0fff + 0xffff * 2 || off <= body@.len(),
                self.pmt_pids == old(self).pmt_pids,
                self.readers == old(self).readers,
                self.reader_pids == old(self).reader_pids,
            ensures
                add_streams(old(self).found@, pmt_streams(body@, start, service_id))
                    == add_streams(self.found@, pmt_streams(body@, off as int, service_id)),
                pmt_streams(body@, off as int, service_id) == Seq::<CaptionStream>::empty(),
                self.pmt_pids == old(self).pmt_pids,
                self.readers == old(self).readers,
                self.reader_pids == old(self).reader_pids,
            decreases body@.len() - off,
        {
            if off > body.len() || body.len() - off < 5 {
                break;
            }
            let stream_type = body[off];
            let p1 = body[off + 1];
            assert(p1 & 0x1f <= 0x1f) by (bit_vector);
            let pid = ((p1 & 0x1f) as u16) * 256 + body[off + 2] as u16;
            let es_info_length = ((body[off + 3] & 0x0f) as usize) * 256 + body[off + 4] as usize;
            let desc_start = off + 5;
            if es_info_length > body.len() - desc_start {
                assert(pmt_streams(body@, off as int, service_id) == Seq::<CaptionStream>::empty());
                break;
            }
            let desc_end = desc_start + es_info_length;
            // 0x06 is PES carrying private data — captions, superimpose, and
            // the data broadcasting streams all share it, so the component tag
            // decides.
            let ghost found_before = self.found@;
            if stream_type == 0x06 {
                let tag = component_tag(slice_subrange(body, desc_start, desc_end));
                let in_range = match tag {
                    Some(t) => 0x30 <= t && t <= 0x3f,
                    None => false,
                };
                if in_range {
                    let stream = CaptionStream { pid, service_id, component_tag: tag };
                    if !contains_stream(&self.found, stream) {
                        self.found.push(stream);
                    }
                }
            }
            proof {
                let here = pmt_streams(body@, off as int, service_id);
                assert(here == pmt_streams(body@, off as int, service_id));
                if stream_type == 0x06 && (spec_component_tag(
                    body@.subrange(desc_start as int, desc_end as int),
                    0,
                ) matches Some(t) && 0x30 <= t <= 0x3f) {
                    let s = here[0];
                    assert(here.drop_first() =~= pmt_streams(body@, desc_end as int, service_id));
                } else {
                    assert(here =~= pmt_streams(body@, desc_end as int, service_id));
                }
            }
            off = desc_end;
        }
        assert(add_streams(self.found@, Seq::<CaptionStream>::empty()) == self.found@);
    }
}

/// Whether `found` holds `s`.
fn contains_stream(found: &Vec<CaptionStream>, s: CaptionStream) -> (c: bool)
    ensures
        c == found@.contains(s),
{
    let mut i: usize = 0;
    while i < found.len()
        invariant
            0 <= i <= found@.len(),
            forall|j: int| 0 <= j < i ==> found@[j] != s,
        decreases found@.len() - i,
    {
        if found[i] == s {
            assert(found@[i as int] == s);
            return true;
        }
        i = i + 1;
    }
    false
}

proof fn lemma_first_index_found(s: Seq<u16>, x: u16, i: int)
    requires
        0 <= i <= s.len(),
        forall|j: int| 0 <= j < i ==> s[j] != x,
        i < s.len() ==> s[i] == x,
    ensures
        first_index(s, x) == i,
    decreases i,
{
    if i > 0 {
        lemma_first_index_found(s.drop_first(), x, i - 1);
    }
}

fn component_tag(descriptors: &[u8]) -> (t: Option<u8>)
    ensures
        t == spec_component_tag(descriptors@, 0),
{
    let mut off = 0usize;
    while off < descriptors.len() && descriptors.len() - off >= 2
        invariant
            spec_component_tag(descriptors@, 0) == spec_component_tag(descriptors@, off as int),
            off <= descriptors@.len() + 0x101,
        decreases descriptors@.len() + 0x102 - off,
    {
        let tag = descriptors[off];
        let len = descriptors[off + 1] as usize;
        if len > descriptors.len() - off - 2 {
            return None;
        }
        // stream_identifier_descriptor
        if tag == 0x52 && len > 0 {
            return Some(descriptors[off + 2]);
        }
        off += 2 + len;
    }
    None
}

/// Whether a packet starts at `j` and another one a packet later.
pub open spec fn sync_pair_at(buf: Seq<u8>, j: int) -> bool {
    0 <= j && j + 188 < buf.len() && buf[j] == SYNC_BYTE && buf[j + 188] == SYNC_BYTE
}

/// The first position, at `i` or after it, of a sync byte followed by
/// another one a packet later.
pub open spec fn first_sync_from(buf: Seq<u8>, i: int) -> Option<int>
    decreases buf.len() - i,
{
    if i < 0 || i + 188 >= buf.len() {
        None
    } else if sync_pair_at(buf, i) {
        Some(i)
    } else {
        first_sync_from(buf, i + 1)
    }
}

proof fn lemma_first_sync_found(buf: Seq<u8>, i: int, k: int)
    requires
        0 <= i <= k,
        sync_pair_at(buf, k),
        forall|j: int| i <= j < k ==> !#[trigger] sync_pair_at(buf, j),
    ensures
        first_sync_from(buf, i) == Some(k),
    decreases k - i,
{
    if i < k {
        lemma_first_sync_found(buf, i + 1, k);
    }
}

proof fn lemma_first_sync_none(buf: Seq<u8>, i: int)
    requires
        0 <= i,
        forall|j: int| i <= j ==> !#[trigger] sync_pair_at(buf, j),
    ensures
        first_sync_from(buf, i) is None,
    decreases buf.len() - i,
{
    if i + 188 < buf.len() {
        lemma_first_sync_none(buf, i + 1);
    }
}

/// One step of the splitter over what it holds and whether it is aligned:
/// the packet it hands out, if any, what it holds afterwards, and whether it
/// is aligned afterwards.
///
/// Unaligned, it looks for a sync byte followed by another a packet later,
/// dropping what comes before; finding none, it keeps only the last packet's
/// worth, where a pair may yet start. Aligned, it hands out a whole packet,
/// or drops one byte and unaligns when the sync byte is missing.
pub open spec fn spec_next_packet(buf: Seq<u8>, synced: bool) -> (Option<Seq<u8>>, Seq<u8>, bool) {
    if !synced && first_sync_from(buf, 0) is None {
        (None, if buf.len() > 188 {
            buf.skip(buf.len() - 188)
        } else {
            buf
        }, false)
    } else {
        let b = if synced {
            buf
        } else {
            buf.skip(first_sync_from(buf, 0)->0)
        };
        if b.len() < 188 {
            (None, b, true)
        } else if b[0] != SYNC_BYTE {
            (None, b.skip(1), false)
        } else {
            (Some(b.take(188)), b.skip(188), true)
        }
    }
}

/// Where a splitter stands in the stream fed to it: what it holds is every
/// byte fed from position `pos` on.
pub open spec fn holds_from(fed: Seq<u8>, pos: int, held: Seq<u8>) -> bool {
    0 <= pos <= fed.len() && held == fed.skip(pos)
}

/// Feeding bytes extends the stream and what the splitter holds alike: it
/// stands where it stood.
pub proof fn law_feeding_keeps_the_place(fed: Seq<u8>, pos: int, held: Seq<u8>, bytes: Seq<u8>)
    requires
        holds_from(fed, pos, held),
    ensures
        holds_from(fed + bytes, pos, held + bytes),
{
    assert((fed + bytes).skip(pos) =~= fed.skip(pos) + bytes);
}

/// Packets come out in stream order, never overlapping and never invented:
/// a splitter standing at `pos` of the stream stands, after a step, at a
/// place `next` no earlier; a packet the step hands out is the 188 bytes of
/// the stream just before `next`, from a sync byte at `pos` or later.
pub proof fn law_packets_come_out_in_stream_order(
    fed: Seq<u8>,
    pos: int,
    held: Seq<u8>,
    synced: bool,
)
    requires
        holds_from(fed, pos, held),
    ensures
        exists|next: int|
            #![trigger holds_from(fed, next, spec_next_packet(held, synced).1)]
            pos <= next && holds_from(fed, next, spec_next_packet(held, synced).1) && (
            spec_next_packet(held, synced).0 matches Some(p) ==> pos <= next - 188 && p
                == fed.subrange(next - 188, next) && p[0] == SYNC_BYTE),
{
    let step = spec_next_packet(held, synced);
    if !synced && first_sync_from(held, 0) is None {
        let k = if held.len() > 188 {
            held.len() - 188
        } else {
            0
        };
        assert(held.skip(k) =~= fed.skip(pos + k));
        assert(holds_from(fed, pos + k, step.1));
    } else {
        let d = if synced {
            0
        } else {
            first_sync_from(held, 0)->0
        };
        if !synced {
            lemma_first_sync_in_range(held, 0);
        }
        let b = held.skip(d);
        assert(b =~= fed.skip(pos + d));
        if b.len() < 188 {
            assert(holds_from(fed, pos + d, step.1));
        } else if b[0] != SYNC_BYTE {
            assert(b.skip(1) =~= fed.skip(pos + d + 1));
            assert(holds_from(fed, pos + d + 1, step.1));
        } else {
            assert(b.skip(188) =~= fed.skip(pos + d + 188));
            assert(b.take(188) =~= fed.subrange(pos + d, pos + d + 188));
            assert(holds_from(fed, pos + d + 188, step.1));
        }
    }
}

/// Out of step, a splitter hands out nothing until a sync byte has another
/// one a packet after it.
pub proof fn law_unaligned_waits_for_a_pair(held: Seq<u8>)
    ensures
        spec_next_packet(held, false).0 is Some ==> exists|j: int| #[trigger] sync_pair_at(held, j),
{
    if first_sync_from(held, 0) is Some {
        lemma_first_sync_in_range(held, 0);
    }
}

proof fn lemma_first_sync_in_range(buf: Seq<u8>, i: int)
    ensures
        first_sync_from(buf, i) matches Some(k) ==> i <= k && sync_pair_at(buf, k),
    decreases buf.len() - i,
{
    if !(i < 0 || i + 188 >= buf.len()) && !sync_pair_at(buf, i) {
        lemma_first_sync_in_range(buf, i + 1);
    }
}

/// The first position of a sync byte followed by another one a packet
/// later, if there is one.
fn find_sync(buf: &Vec<u8>) -> (r: Option<usize>)
    ensures
        r matches Some(i) ==> sync_pair_at(buf@, i as int),
        r matches Some(i) ==> forall|j: int| 0 <= j < i ==> !#[trigger] sync_pair_at(buf@, j),
        r is None ==> forall|j: int| !#[trigger] sync_pair_at(buf@, j),
{
    if buf.len() <= TS_PACKET_SIZE {
        return None;
    }
    let mut i: usize = 0;
    while i < buf.len() - TS_PACKET_SIZE
        invariant
            buf@.len() > 188,
            0 <= i <= buf@.len() - 188,
            forall|j: int| 0 <= j < i ==> !#[trigger] sync_pair_at(buf@, j),
        decreases buf@.len() - i,
    {
        if buf[i] == SYNC_BYTE && buf[i + TS_PACKET_SIZE] == SYNC_BYTE {
            return Some(i);
        }
        i = i + 1;
    }
    None
}

/// Splits a byte stream into TS packets, tolerating a stream that does not
/// start on a packet boundary.
#[derive(Debug)]
pub struct PacketSplitter {
    buf: Vec<u8>,
    synced: bool,
}

impl PacketSplitter {
    /// The bytes fed and not yet handed out as packets or skipped.
    pub closed spec fn spec_buffered(&self) -> Seq<u8> {
        self.buf@
    }

    /// Whether the splitter is aligned on a packet boundary.
    pub closed spec fn spec_synced(&self) -> bool {
        self.synced
    }

    pub fn new() -> (s: PacketSplitter)
        ensures
            s.spec_buffered().len() == 0,
            !s.spec_synced(),
            holds_from(Seq::empty(), 0, s.spec_buffered()),
    {
        let s = PacketSplitter { buf: Vec::new(), synced: false };
        assert(Seq::<u8>::empty().skip(0) =~= s.spec_buffered());
        s
    }

    /// Append bytes, then call [`PacketSplitter::next_packet`] until it is None.
    pub fn feed(&mut self, bytes: &[u8])
        ensures
            final(self).spec_buffered() == old(self).spec_buffered() + bytes@,
            final(self).spec_synced() == old(self).spec_synced(),
            forall|fed: Seq<u8>, pos: int|
                #[trigger] holds_from(fed, pos, old(self).spec_buffered()) ==> holds_from(
                    fed + bytes@,
                    pos,
                    final(self).spec_buffered(),
                ),
    {
        append_bytes(&mut self.buf, bytes);
        proof {
            assert forall|fed: Seq<u8>, pos: int|
                #[trigger] holds_from(fed, pos, old(self).spec_buffered()) implies holds_from(
                    fed + bytes@,
                    pos,
                    self.spec_buffered(),
                ) by {
                law_feeding_keeps_the_place(fed, pos, old(self).spec_buffered(), bytes@);
            }
        }
    }

    /// The next whole packet. Out of sync, the buffer is searched for a sync
    /// byte followed by another one a packet later — a single 0x47 inside
    /// video payload is common, two in step is not — and what comes before
    /// it is dropped.
    pub fn next_packet(&mut self) -> (p: Option<[u8; TS_PACKET_SIZE]>)
        ensures
            ({
                let step = spec_next_packet(old(self).spec_buffered(), old(self).spec_synced());
                &&& final(self).spec_buffered() == step.1
                &&& final(self).spec_synced() == step.2
                &&& match p {
                    Some(packet) => step.0 == Some(packet@),
                    None => step.0 is None,
                }
            }),
            p matches Some(packet) ==> {
                &&& packet@.len() == 188
                &&& packet@[0] == SYNC_BYTE
                &&& final(self).spec_synced()
                &&& exists|skip: int|
                    0 <= skip && #[trigger] old(self).spec_buffered().skip(skip) == packet@
                        + final(self).spec_buffered()
            },
            p is None ==> final(self).spec_buffered().len() <= old(self).spec_buffered().len(),
            old(self).spec_synced() && old(self).spec_buffered().len() >= 188
                && old(self).spec_buffered()[0] == SYNC_BYTE ==> (p matches Some(packet)
                && packet@ == old(self).spec_buffered().take(188) && final(self).spec_buffered()
                == old(self).spec_buffered().skip(188)),
            forall|fed: Seq<u8>, pos: int|
                #[trigger] holds_from(fed, pos, old(self).spec_buffered()) ==> exists|next: int|
                    #![trigger holds_from(fed, next, final(self).spec_buffered())]
                    pos <= next && holds_from(fed, next, final(self).spec_buffered()) && (p matches Some(
                        packet,
                    ) ==> pos <= next - 188 && packet@ == fed.subrange(next - 188, next)),
    {
        let ghost held = self.buf@;
        let ghost synced = self.synced;
        let p = self.step();
        proof {
            assert forall|fed: Seq<u8>, pos: int|
                #[trigger] holds_from(fed, pos, held) implies exists|next: int|
                    #![trigger holds_from(fed, next, self.spec_buffered())]
                    pos <= next && holds_from(fed, next, self.spec_buffered()) && (p matches Some(
                        packet,
                    ) ==> pos <= next - 188 && packet@ == fed.subrange(next - 188, next)) by {
                law_packets_come_out_in_stream_order(fed, pos, held, synced);
            }
        }
        p
    }

    /// One step of [`PacketSplitter::next_packet`].
    fn step(&mut self) -> (p: Option<[u8; TS_PACKET_SIZE]>)
        ensures
            ({
                let step = spec_next_packet(old(self).spec_buffered(), old(self).spec_synced());
                &&& final(self).spec_buffered() == step.1
                &&& final(self).spec_synced() == step.2
                &&& match p {
                    Some(packet) => step.0 == Some(packet@),
                    None => step.0 is None,
                }
            }),
            p matches Some(packet) ==> {
                &&& packet@.len() == 188
                &&& packet@[0] == SYNC_BYTE
                &&& final(self).spec_synced()
                &&& exists|skip: int|
                    0 <= skip && #[trigger] old(self).spec_buffered().skip(skip) == packet@
                        + final(self).spec_buffered()
            },
            p is None ==> final(self).spec_buffered().len() <= old(self).spec_buffered().len(),
            old(self).spec_synced() && old(self).spec_buffered().len() >= 188
                && old(self).spec_buffered()[0] == SYNC_BYTE ==> (p matches Some(packet)
                && packet@ == old(self).spec_buffered().take(188) && final(self).spec_buffered()
                == old(self).spec_buffered().skip(188)),
    {
        let ghost orig = self.buf@;
        let mut skipped: usize = 0;
        if !self.synced {
            match find_sync(&self.buf) {
                None => {
                    proof {
                        lemma_first_sync_none(orig, 0);
                    }
                    // Keep the last packet's worth: a sync pair may yet start
                    // in it once more bytes arrive.
                    if self.buf.len() > TS_PACKET_SIZE {
                        let drop = self.buf.len() - TS_PACKET_SIZE;
                        self.buf = tail_from(&self.buf, drop);
                    }
                    return None;
                },
                Some(i) => {
                    proof {
                        lemma_first_sync_found(orig, 0, i as int);
                    }
                    self.buf = tail_from(&self.buf, i);
                    self.synced = true;
                    skipped = i;
                },
            }
        }
        assert(self.buf@ == orig.skip(skipped as int));
        if self.buf.len() < TS_PACKET_SIZE {
            return None;
        }
        if self.buf[0] != SYNC_BYTE {
            // Lost alignment — resync on the next call.
            self.synced = false;
            self.buf = tail_from(&self.buf, 1);
            return None;
        }
        let mut packet = [0u8; TS_PACKET_SIZE];
        let mut k: usize = 0;
        while k < TS_PACKET_SIZE
            invariant
                0 <= k <= 188,
                self.buf@.len() >= 188,
                packet@.len() == 188,
                forall|j: int| 0 <= j < k ==> packet@[j] == self.buf@[j],
            decreases 188 - k,
        {
            packet[k] = self.buf[k];
            k = k + 1;
        }
        let ghost before = self.buf@;
        self.buf = tail_from(&self.buf, TS_PACKET_SIZE);
        assert(packet@ =~= before.take(188));
        assert(orig.skip(skipped as int) =~= packet@ + self.buf@);
        assert(old(self).spec_buffered().skip(skipped as int) == packet@ + self.spec_buffered());
        Some(packet)
    }
}

// ── PES packets ─────────────────────────────────────────────────────

/// A reassembled PES packet from one PID.
#[derive(Clone, Debug)]
pub struct PesPacket {
    /// Presentation timestamp in 90 kHz units, if the PES carried one.
    pub pts_90k: Option<u64>,
    /// The PES payload — for caption streams this starts at `data_identifier`,
    /// which is what [`crate::pes::parse`] wants.
    pub payload: Vec<u8>,
}

/// A 90 kHz timestamp in whole milliseconds.
pub open spec fn ticks_ms(ticks: u64) -> i64 {
    (ticks / 90) as i64
}

impl PesPacket {
    /// PTS in milliseconds.
    pub fn pts_ms(&self) -> (ms: Option<i64>)
        ensures
            ms == match self.pts_90k {
                Some(t) => Some(ticks_ms(t)),
                None => None,
            },
    {
        match self.pts_90k {
            Some(t) => Some((t / 90) as i64),
            None => None,
        }
    }
}

/// Whether a PES stream id is one a caption travels in: private stream 1
/// (captions) or private stream 2 (superimpose).
pub fn carries_captions(stream_id: u8) -> (b: bool)
    ensures
        b == (stream_id == 0xBD || stream_id == 0xBF),
{
    stream_id == 0xBD || stream_id == 0xBF
}

/// The presentation time an audio or video PES unit start gives the stream,
/// from the fields of the packet that carries it: none for a damaged or
/// scrambled packet, for one that starts no unit, or for a stream that is not
/// audio (0xC0..=0xDF) or video (0xE0..=0xEF).
pub fn media_pts_ms(
    transport_error: bool,
    scrambling: u8,
    unit_start: bool,
    stream_id: u8,
    pts_90k: Option<u64>,
) -> (ms: Option<i64>)
    ensures
        ms == (if transport_error || scrambling != 0 || !unit_start || !(0xC0 <= stream_id
            <= 0xEF) {
            None
        } else {
            match pts_90k {
                Some(t) => Some(ticks_ms(t)),
                None => None,
            }
        }),
{
    if transport_error || scrambling != 0 || !unit_start {
        return None;
    }
    if !(0xC0 <= stream_id && stream_id <= 0xEF) {
        return None;
    }
    match pts_90k {
        Some(t) => Some((t / 90) as i64),
        None => None,
    }
}

} // verus!
