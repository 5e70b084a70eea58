//! One line per data group: what it is, when it plays, what it holds — the
//! view underneath the captions, for when the text comes out empty.
use vstd::prelude::*;

use crate::pes::{
    self, spec_all_units, spec_parse, spec_parse_message, units_view, DataGroup, DataUnit,
    DataUnitKind, Group, GroupLayout, LanguageInfo, ParseError, Tmd,
};
use crate::text::{code_text, dec, lossy_utf8, padded, push_char, push_dec, push_padded, push_str};
use crate::ts::PesPacket;

verus! {

/// A nibble as a lowercase hex digit.
pub open spec fn hex_lower_digit(v: int) -> char {
    if v < 10 {
        (0x30 + v) as char
    } else {
        (0x61 + v - 10) as char
    }
}

/// A byte in lowercase hex, without leading zeros.
pub open spec fn hex_lower(b: u8) -> Seq<char> {
    if b < 16 {
        seq![hex_lower_digit(b as int)]
    } else {
        seq![hex_lower_digit((b / 16) as int), hex_lower_digit((b % 16) as int)]
    }
}

/// A byte as two lowercase hex digits.
pub open spec fn hex_lower2(b: u8) -> Seq<char> {
    seq![hex_lower_digit((b / 16) as int), hex_lower_digit((b % 16) as int)]
}

fn hex_lower_digit_char(v: u8) -> (c: char)
    requires
        v < 16,
    ensures
        c == hex_lower_digit(v as int),
{
    if v < 10 {
        (0x30 + v) as char
    } else {
        (0x61 + v - 10) as char
    }
}

fn push_hex_lower(s: &mut String, b: u8)
    ensures
        final(s)@ == old(s)@ + hex_lower(b),
{
    if b >= 16 {
        push_char(s, hex_lower_digit_char(b / 16));
    }
    push_char(s, hex_lower_digit_char(b % 16));
    assert(s@ =~= old(s)@ + hex_lower(b));
}

fn push_hex_lower2(s: &mut String, b: u8)
    ensures
        final(s)@ == old(s)@ + hex_lower2(b),
{
    push_char(s, hex_lower_digit_char(b / 16));
    push_char(s, hex_lower_digit_char(b % 16));
    assert(s@ =~= old(s)@ + hex_lower2(b));
}

// ── units ───────────────────────────────────────────────────────────

/// The name a data unit kind goes by in a summary.
pub open spec fn unit_name(k: DataUnitKind) -> Seq<char> {
    match k {
        DataUnitKind::StatementBody => "body"@,
        DataUnitKind::Drcs1 => "drcs1"@,
        DataUnitKind::Drcs2 => "drcs2"@,
        DataUnitKind::Bitmap => "bitmap"@,
        DataUnitKind::ColorMap => "colormap"@,
        DataUnitKind::GeometricShape => "geometric"@,
        DataUnitKind::AdditionalSound => "sound"@,
        DataUnitKind::Unknown(p) => "unknown(0x"@ + hex_lower2(p) + ")"@,
    }
}

/// One unit in a summary: its name and size, or the error in its place.
pub open spec fn unit_part(u: Result<(DataUnitKind, Seq<u8>), ParseError>) -> Seq<char> {
    match u {
        Ok((k, bytes)) => unit_name(k) + "("@ + dec(bytes.len()) + ")"@,
        Err(e) => "!"@ + spec_parse_message(e),
    }
}

/// The units, comma-separated.
pub open spec fn unit_parts(us: Seq<Result<(DataUnitKind, Seq<u8>), ParseError>>) -> Seq<char>
    decreases us.len(),
{
    if us.len() == 0 {
        Seq::empty()
    } else {
        unit_parts(us.drop_last()) + (if us.len() > 1 {
            seq![',']
        } else {
            Seq::empty()
        }) + unit_part(us.last())
    }
}

/// `units=` and the units, or `units=-` when there are none.
pub open spec fn spec_units_summary(us: Seq<Result<(DataUnitKind, Seq<u8>), ParseError>>) -> Seq<
    char,
> {
    if us.len() == 0 {
        "units=-"@
    } else {
        "units="@ + unit_parts(us)
    }
}

fn push_unit_name(s: &mut String, k: DataUnitKind)
    ensures
        final(s)@ == old(s)@ + unit_name(k),
{
    match k {
        DataUnitKind::StatementBody => push_str(s, "body"),
        DataUnitKind::Drcs1 => push_str(s, "drcs1"),
        DataUnitKind::Drcs2 => push_str(s, "drcs2"),
        DataUnitKind::Bitmap => push_str(s, "bitmap"),
        DataUnitKind::ColorMap => push_str(s, "colormap"),
        DataUnitKind::GeometricShape => push_str(s, "geometric"),
        DataUnitKind::AdditionalSound => push_str(s, "sound"),
        DataUnitKind::Unknown(p) => {
            push_str(s, "unknown(0x");
            push_hex_lower2(s, p);
            push_str(s, ")");
            assert(s@ =~= old(s)@ + unit_name(k));
        },
    }
}

fn push_unit_part(s: &mut String, u: &Result<DataUnit, ParseError>)
    ensures
        final(s)@ == old(s)@ + unit_part(pes::unit_view(*u)),
{
    match u {
        Ok(unit) => {
            push_unit_name(s, unit.kind);
            push_str(s, "(");
            push_dec(s, unit.bytes.len() as u64);
            push_str(s, ")");
        },
        Err(e) => {
            push_str(s, "!");
            let m = e.message();
            push_str(s, m.as_str());
        },
    }
    assert(s@ =~= old(s)@ + unit_part(pes::unit_view(*u)));
}

/// What a data unit loop holds, as a summary: each unit's name and size,
/// comma-separated, or the error that ended it.
pub fn units_summary(units: &Vec<Result<DataUnit, ParseError>>) -> (s: String)
    ensures
        s@ == spec_units_summary(units_view(units@)),
{
    let ghost uv = units_view(units@);
    let mut s = String::new();
    if units.len() == 0 {
        push_str(&mut s, "units=-");
        return s;
    }
    push_str(&mut s, "units=");
    let ghost start = s@;
    let mut i: usize = 0;
    assert(uv.take(0) =~= Seq::<Result<(DataUnitKind, Seq<u8>), ParseError>>::empty());
    while i < units.len()
        invariant
            i <= units@.len(),
            uv == units_view(units@),
            s@ == start + unit_parts(uv.take(i as int)),
        decreases units@.len() - i,
    {
        if i > 0 {
            push_char(&mut s, ',');
        }
        push_unit_part(&mut s, &units[i]);
        proof {
            let t = uv.take(i + 1);
            assert(t.drop_last() =~= uv.take(i as int));
            assert(t.last() == pes::unit_view(units@[i as int]));
            assert(s@ =~= start + unit_parts(t));
        }
        i = i + 1;
    }
    assert(uv.take(units@.len() as int) =~= uv);
    s
}

// ── data groups ─────────────────────────────────────────────────────

/// The name of a presentation time mode.
pub open spec fn tmd_name(t: Tmd) -> Seq<char> {
    match t {
        Tmd::Free => "Free"@,
        Tmd::RealTime => "RealTime"@,
        Tmd::OffsetTime => "OffsetTime"@,
        Tmd::Reserved => "Reserved"@,
    }
}

fn push_tmd(s: &mut String, t: Tmd)
    ensures
        final(s)@ == old(s)@ + tmd_name(t),
{
    match t {
        Tmd::Free => push_str(s, "Free"),
        Tmd::RealTime => push_str(s, "RealTime"),
        Tmd::OffsetTime => push_str(s, "OffsetTime"),
        Tmd::Reserved => push_str(s, "Reserved"),
    }
}

/// A presentation time as seconds and milliseconds, or `-` for none.
pub open spec fn pts_text(pts_90k: Option<u64>) -> Seq<char> {
    match pts_90k {
        Some(t) => dec(((t / 90) / 1000) as nat) + seq!['.'] + padded(((t / 90) % 1000) as nat, 3),
        None => seq!['-'],
    }
}

/// One language of management data: its code, id, writing format, coding
/// and display mode.
pub open spec fn language_text(l: LanguageInfo) -> Seq<char> {
    code_text(l.iso639) + "(id="@ + dec(
        l.language_id as nat,
    ) + " fmt="@ + dec(l.format as nat) + " tcs="@ + dec(l.tcs as nat) + " dmf=0x"@
        + hex_lower(l.dmf) + ")"@
}

/// The languages, space-separated.
pub open spec fn languages_text(ls: Seq<LanguageInfo>) -> Seq<char>
    decreases ls.len(),
{
    if ls.len() == 0 {
        Seq::empty()
    } else {
        languages_text(ls.drop_last()) + (if ls.len() > 1 {
            seq![' ']
        } else {
            Seq::empty()
        }) + language_text(ls.last())
    }
}

/// The line a PES packet gets: its time and interleave group, then what its
/// data group is — management data with its languages, or statement data
/// with its language — and its units; or the error that stopped the parse,
/// with the payload's size.
pub open spec fn spec_describe(pts_90k: Option<u64>, payload: Seq<u8>) -> Seq<char> {
    match spec_parse(payload) {
        Err(e) => "!! "@ + spec_parse_message(e) + " ("@ + dec(payload.len()) + " bytes)"@,
        Ok((_, header, group)) => {
            let head = "pts="@ + pts_text(pts_90k) + " seq="@ + seq![
                if header.group == Group::A {
                    'A'
                } else {
                    'B'
                },
            ];
            match group {
                GroupLayout::Management { tmd, languages, units, .. } => head + " mgmt tmd="@
                    + tmd_name(tmd) + " langs=["@ + languages_text(languages) + "] "@
                    + spec_units_summary(spec_all_units(units)),
                GroupLayout::Statement { language_id, tmd, units, .. } => head + " stmt lang="@
                    + dec(language_id as nat) + " tmd="@ + tmd_name(tmd) + " "@
                    + spec_units_summary(spec_all_units(units)),
            }
        },
    }
}

fn push_language(s: &mut String, l: &LanguageInfo)
    ensures
        final(s)@ == old(s)@ + language_text(*l),
{
    let code = lossy_utf8(&l.iso639);
    assert(code@ == code_text(l.iso639));
    push_str(s, code.as_str());
    push_str(s, "(id=");
    push_dec(s, l.language_id as u64);
    push_str(s, " fmt=");
    push_dec(s, l.format as u64);
    push_str(s, " tcs=");
    push_dec(s, l.tcs as u64);
    push_str(s, " dmf=0x");
    push_hex_lower(s, l.dmf);
    push_str(s, ")");
    assert(s@ =~= old(s)@ + language_text(*l));
}

fn push_languages(s: &mut String, ls: &Vec<LanguageInfo>)
    ensures
        final(s)@ == old(s)@ + languages_text(ls@),
{
    let mut i: usize = 0;
    assert(ls@.take(0) =~= Seq::<LanguageInfo>::empty());
    while i < ls.len()
        invariant
            i <= ls@.len(),
            s@ == old(s)@ + languages_text(ls@.take(i as int)),
        decreases ls@.len() - i,
    {
        if i > 0 {
            push_char(s, ' ');
        }
        push_language(s, &ls[i]);
        proof {
            let t = ls@.take(i + 1);
            assert(t.drop_last() =~= ls@.take(i as int));
            assert(t.last() == ls@[i as int]);
            assert(s@ =~= old(s)@ + languages_text(t));
        }
        i = i + 1;
    }
    assert(ls@.take(ls@.len() as int) =~= ls@);
}

/// The line a PES packet gets, and whether its payload parsed.
pub fn describe(packet: &PesPacket) -> (r: (String, bool))
    ensures
        r.1 == (spec_parse(packet.payload@) is Ok),
        r.0@ == spec_describe(packet.pts_90k, packet.payload@),
{
    let mut s = String::new();
    let parsed = match pes::parse(packet.payload.as_slice()) {
        Ok(p) => p,
        Err(e) => {
            push_str(&mut s, "!! ");
            let m = e.message();
            push_str(&mut s, m.as_str());
            push_str(&mut s, " (");
            push_dec(&mut s, packet.payload.len() as u64);
            push_str(&mut s, " bytes)");
            assert(s@ =~= spec_describe(packet.pts_90k, packet.payload@));
            return (s, false);
        },
    };
    push_str(&mut s, "pts=");
    match packet.pts_90k {
        Some(t) => {
            let ms = t / 90;
            push_dec(&mut s, ms / 1000);
            push_char(&mut s, '.');
            push_padded(&mut s, ms % 1000, 3);
        },
        None => push_char(&mut s, '-'),
    }
    push_str(&mut s, " seq=");
    push_char(
        &mut s,
        match parsed.header.group {
            Group::A => 'A',
            Group::B => 'B',
        },
    );
    let ghost head = s@;
    assert(head =~= "pts="@ + pts_text(packet.pts_90k) + " seq="@ + seq![
        if parsed.header.group == Group::A {
            'A'
        } else {
            'B'
        },
    ]);
    match &parsed.group {
        DataGroup::Management(m) => {
            push_str(&mut s, " mgmt tmd=");
            push_tmd(&mut s, m.tmd);
            push_str(&mut s, " langs=[");
            push_languages(&mut s, &m.languages);
            push_str(&mut s, "] ");
            let mut it = m.units();
            let units = it.collect();
            let summary = units_summary(&units);
            push_str(&mut s, summary.as_str());
            assert(s@ =~= spec_describe(packet.pts_90k, packet.payload@));
        },
        DataGroup::Statement(st) => {
            push_str(&mut s, " stmt lang=");
            push_dec(&mut s, st.language_id as u64);
            push_str(&mut s, " tmd=");
            push_tmd(&mut s, st.tmd);
            push_str(&mut s, " ");
            let mut it = st.units();
            let units = it.collect();
            let summary = units_summary(&units);
            push_str(&mut s, summary.as_str());
            assert(s@ =~= spec_describe(packet.pts_90k, packet.payload@));
        },
    }
    (s, true)
}

} // verus!
