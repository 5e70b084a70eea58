//! The independent-PES layer: caption bytes as they arrive on the wire.
//!
//! An ISDB caption PES payload is not the statement text — it is a *data
//! group* (ARIB STD-B24 part 3), which is either the management data that says
//! what languages and screen format are in use, or the statement data holding
//! the text and the DRCS glyph definitions. This module gets from the payload
//! down to the individual data units and stops there; turning a statement body
//! into characters is [`crate::decoder`]'s job.
//!
//! Everything here borrows the input. Nothing is copied, and nothing is
//! decoded.
use vstd::prelude::*;
use vstd::slice::slice_subrange;

use crate::model::CaptionKind;
use crate::text::{dec, hex2, push_dec, push_hex2, push_str};

verus! {

#[derive(Clone, Copy, Debug, PartialEq, Eq, Structural)]
pub enum ParseError {
    /// Fewer bytes than the structure being read requires.
    Truncated,
    /// `data_identifier` was neither 0x80 (caption) nor 0x81 (superimpose).
    BadDataIdentifier(u8),
    /// `private_stream_id` must be 0xFF.
    BadPrivateStreamId(u8),
    /// A data unit must start with the 0x1F separator.
    BadUnitSeparator(u8),
    /// `num_languages` outside 1..=2.
    BadLanguageCount(u8),
    /// A data group id that is neither 0 (management data) nor 1..=8 (a
    /// language's statement data).
    BadDataGroupId(u8),
}

/// What a parse error says to a person reading a log.
pub open spec fn spec_parse_message(e: ParseError) -> Seq<char> {
    match e {
        ParseError::Truncated => "truncated"@,
        ParseError::BadDataIdentifier(v) => "bad data_identifier 0x"@ + hex2(v),
        ParseError::BadPrivateStreamId(v) => "bad private_stream_id 0x"@ + hex2(v),
        ParseError::BadUnitSeparator(v) => "bad unit_separator 0x"@ + hex2(v),
        ParseError::BadLanguageCount(v) => "bad num_languages "@ + dec(v as nat),
        ParseError::BadDataGroupId(v) => "bad data_group_id "@ + dec(v as nat),
    }
}

impl ParseError {
    /// What this error says to a person reading a log.
    pub fn message(&self) -> (s: String)
        ensures
            s@ == spec_parse_message(*self),
    {
        let mut s = String::new();
        match self {
            ParseError::Truncated => push_str(&mut s, "truncated"),
            ParseError::BadDataIdentifier(v) => {
                push_str(&mut s, "bad data_identifier 0x");
                push_hex2(&mut s, *v);
            },
            ParseError::BadPrivateStreamId(v) => {
                push_str(&mut s, "bad private_stream_id 0x");
                push_hex2(&mut s, *v);
            },
            ParseError::BadUnitSeparator(v) => {
                push_str(&mut s, "bad unit_separator 0x");
                push_hex2(&mut s, *v);
            },
            ParseError::BadLanguageCount(v) => {
                push_str(&mut s, "bad num_languages ");
                push_dec(&mut s, *v as u64);
            },
            ParseError::BadDataGroupId(v) => {
                push_str(&mut s, "bad data_group_id ");
                push_dec(&mut s, *v as u64);
            },
        }
        assert(s@ =~= spec_parse_message(*self));
        s
    }
}

/// Which of the two interleaved data-group sequences this belongs to.
///
/// A and B alternate so a receiver can tell a fresh management block from the
/// retransmission of the one it already applied: same group means the same
/// block sent again (ARIB TR-B14 4.2.4).
#[derive(Clone, Copy, Debug, PartialEq, Eq, Structural)]
pub enum Group {
    A,
    B,
}

/// Presentation time mode of a data group.
#[derive(Clone, Copy, Debug, PartialEq, Eq, Structural)]
pub enum Tmd {
    /// 00 — free: present when it arrives.
    Free,
    /// 01 — real time: an STM accompanies the statement.
    RealTime,
    /// 10 — offset time: an OTM gives an offset to apply.
    OffsetTime,
    /// 11 — reserved.
    Reserved,
}

/// The mode the top two bits of a data group's first byte select.
pub open spec fn spec_tmd(b: u8) -> Tmd {
    let bits = (b & 0xc0u8) >> 6u8;
    if bits == 0 {
        Tmd::Free
    } else if bits == 1 {
        Tmd::RealTime
    } else if bits == 2 {
        Tmd::OffsetTime
    } else {
        Tmd::Reserved
    }
}

impl Tmd {
    fn from_bits(b: u8) -> (t: Tmd)
        ensures
            t == spec_tmd(b),
    {
        let bits = (b & 0xc0) >> 6;
        match bits {
            0 => Tmd::Free,
            1 => Tmd::RealTime,
            2 => Tmd::OffsetTime,
            _ => Tmd::Reserved,
        }
    }
}

/// A 5-byte BCD timecode (OTM / STM): hh:mm:ss.mmm.
#[derive(Clone, Copy, Debug, PartialEq, Eq, Structural)]
pub struct Timecode {
    pub hour: u8,
    pub minute: u8,
    pub second: u8,
    pub millis: u16,
}

/// The high (`true`) or low nibble of a byte.
pub open spec fn nibble(b: u8, high: bool) -> int {
    if high {
        (b >> 4u8) as int
    } else {
        (b & 0x0fu8) as int
    }
}

/// Nine BCD digits packed into the first 4.5 bytes: HH MM SS mmm, with the
/// low nibble of the last byte reserved.
pub open spec fn spec_timecode(b: Seq<u8>) -> Timecode {
    Timecode {
        hour: (nibble(b[0], true) * 10 + nibble(b[0], false)) as u8,
        minute: (nibble(b[1], true) * 10 + nibble(b[1], false)) as u8,
        second: (nibble(b[2], true) * 10 + nibble(b[2], false)) as u8,
        millis: (nibble(b[3], true) * 100 + nibble(b[3], false) * 10 + nibble(b[4], true)) as u16,
    }
}

impl Timecode {
    fn parse(b: &[u8], off: usize) -> (t: Timecode)
        requires
            off + 5 <= b@.len(),
        ensures
            t == spec_timecode(b@.subrange(off as int, off + 5)),
    {
        let b0 = b[off];
        let b1 = b[off + 1];
        let b2 = b[off + 2];
        let b3 = b[off + 3];
        let b4 = b[off + 4];
        assert(b0 >> 4 <= 15 && b1 >> 4 <= 15 && b2 >> 4 <= 15 && b3 >> 4 <= 15 && b4 >> 4 <= 15)
            by (bit_vector);
        assert(b0 & 0x0f <= 15 && b1 & 0x0f <= 15 && b2 & 0x0f <= 15 && b3 & 0x0f <= 15)
            by (bit_vector);
        Timecode {
            hour: (b0 >> 4) * 10 + (b0 & 0x0f),
            minute: (b1 >> 4) * 10 + (b1 & 0x0f),
            second: (b2 >> 4) * 10 + (b2 & 0x0f),
            millis: ((b3 >> 4) as u16) * 100 + ((b3 & 0x0f) as u16) * 10 + ((b4 >> 4) as u16),
        }
    }

    /// The timecode in milliseconds.
    pub open spec fn spec_as_millis(&self) -> int {
        self.hour * 3_600_000 + self.minute * 60_000 + self.second * 1_000 + self.millis
    }

    pub fn as_millis(&self) -> (ms: i64)
        ensures
            ms == self.spec_as_millis(),
    {
        (self.hour as i64) * 3_600_000 + (self.minute as i64) * 60_000 + (self.second as i64)
            * 1_000 + self.millis as i64
    }
}

/// Per-language entry of the caption management data.
#[derive(Clone, Copy, Debug, PartialEq, Eq)]
pub struct LanguageInfo {
    /// 1-based language id, matching the `data_group_id` of that language's
    /// statement data.
    pub language_id: u8,
    /// Display mode (`DMF`).
    pub dmf: u8,
    /// Display condition, present only for the DMF values that carry one.
    pub display_condition: Option<u8>,
    /// ISO 639-2, e.g. `jpn`.
    pub iso639: [u8; 3],
    /// Raw writing-format value from management data (Table 9-7). Values 0..=4
    /// map directly to CSI SWF; values 6..=13 map to SWF 5..=12. Value 5 and
    /// values above 13 are reserved.
    pub format: u8,
    /// Character coding: 0 = 8-bit B24, 1 = UCS (UTF-8).
    pub tcs: u8,
    /// Roll-up mode.
    pub rollup: u8,
}

/// Header common to both kinds of data group.
#[derive(Clone, Copy, Debug, PartialEq, Eq, Structural)]
pub struct DataGroupHeader {
    pub group: Group,
    /// 0 for management data, 1..=8 for a language's statement data.
    pub id: u8,
    pub version: u8,
    pub link_number: u8,
    pub last_link_number: u8,
    pub size: usize,
}

/// Caption management data: what the following statements will look like.
#[derive(Clone, Debug)]
pub struct Management<'a> {
    pub tmd: Tmd,
    pub otm: Option<Timecode>,
    pub languages: Vec<LanguageInfo>,
    /// The bytes of the data unit loop; [`Management::units`] walks them.
    pub units: &'a [u8],
}

/// Caption statement data: one screen of caption, as control codes and text.
#[derive(Clone, Debug)]
pub struct Statement<'a> {
    /// Which language's statement this is (the data group id, 1..=8).
    pub language_id: u8,
    pub tmd: Tmd,
    pub stm: Option<Timecode>,
    /// The bytes of the data unit loop; [`Statement::units`] walks them.
    pub units: &'a [u8],
}

impl<'a> Management<'a> {
    /// The bytes of the data unit loop.
    pub open spec fn spec_units(&self) -> Seq<u8> {
        self.units@
    }

    pub fn units(&self) -> (u: DataUnits<'a>)
        ensures
            u.spec_rest() == self.spec_units(),
    {
        DataUnits { rest: self.units }
    }
}

impl<'a> Statement<'a> {
    /// The bytes of the data unit loop.
    pub open spec fn spec_units(&self) -> Seq<u8> {
        self.units@
    }

    pub fn units(&self) -> (u: DataUnits<'a>)
        ensures
            u.spec_rest() == self.spec_units(),
    {
        DataUnits { rest: self.units }
    }
}

#[derive(Clone, Debug)]
pub enum DataGroup<'a> {
    Management(Management<'a>),
    Statement(Statement<'a>),
}

/// What a data group holds, as values: the meaning of a [`DataGroup`].
pub enum GroupLayout {
    Management { tmd: Tmd, otm: Option<Timecode>, languages: Seq<LanguageInfo>, units: Seq<u8> },
    Statement { language_id: u8, tmd: Tmd, stm: Option<Timecode>, units: Seq<u8> },
}

impl<'a> DataGroup<'a> {
    pub open spec fn layout(&self) -> GroupLayout {
        match self {
            DataGroup::Management(m) => GroupLayout::Management {
                tmd: m.tmd,
                otm: m.otm,
                languages: m.languages@,
                units: m.spec_units(),
            },
            DataGroup::Statement(s) => GroupLayout::Statement {
                language_id: s.language_id,
                tmd: s.tmd,
                stm: s.stm,
                units: s.spec_units(),
            },
        }
    }
}

/// A parsed caption PES payload.
#[derive(Clone, Debug)]
pub struct Parsed<'a> {
    pub kind: CaptionKind,
    pub header: DataGroupHeader,
    pub group: DataGroup<'a>,
}

/// What a data unit holds.
#[derive(Clone, Copy, Debug, PartialEq, Eq, Structural)]
pub enum DataUnitKind {
    /// 0x20 — the statement body: control codes and character bytes.
    StatementBody,
    /// 0x28 — geometric shape.
    GeometricShape,
    /// 0x2C — additional sound (built-in sound data).
    AdditionalSound,
    /// 0x30 — DRCS with 1-byte codes.
    Drcs1,
    /// 0x31 — DRCS with 2-byte codes.
    Drcs2,
    /// 0x34 — colour map.
    ColorMap,
    /// 0x35 — bitmap.
    Bitmap,
    Unknown(u8),
}

/// The kind a data unit parameter byte names.
pub open spec fn spec_unit_kind(p: u8) -> DataUnitKind {
    if p == 0x20 {
        DataUnitKind::StatementBody
    } else if p == 0x28 {
        DataUnitKind::GeometricShape
    } else if p == 0x2c {
        DataUnitKind::AdditionalSound
    } else if p == 0x30 {
        DataUnitKind::Drcs1
    } else if p == 0x31 {
        DataUnitKind::Drcs2
    } else if p == 0x34 {
        DataUnitKind::ColorMap
    } else if p == 0x35 {
        DataUnitKind::Bitmap
    } else {
        DataUnitKind::Unknown(p)
    }
}

impl DataUnitKind {
    fn from_parameter(p: u8) -> (k: DataUnitKind)
        ensures
            k == spec_unit_kind(p),
    {
        match p {
            0x20 => DataUnitKind::StatementBody,
            0x28 => DataUnitKind::GeometricShape,
            0x2c => DataUnitKind::AdditionalSound,
            0x30 => DataUnitKind::Drcs1,
            0x31 => DataUnitKind::Drcs2,
            0x34 => DataUnitKind::ColorMap,
            0x35 => DataUnitKind::Bitmap,
            other => DataUnitKind::Unknown(other),
        }
    }
}

#[derive(Clone, Copy, Debug)]
pub struct DataUnit<'a> {
    pub kind: DataUnitKind,
    pub bytes: &'a [u8],
}

/// A big-endian 24-bit length.
pub open spec fn spec_be24(b: Seq<u8>, off: int) -> int {
    b[off] * 0x10000 + b[off + 1] * 0x100 + b[off + 2]
}

fn be24(b: &[u8], off: usize) -> (v: usize)
    requires
        off + 3 <= b@.len(),
    ensures
        v == spec_be24(b@, off as int),
{
    let b0 = b[off] as usize;
    let b1 = b[off + 1] as usize;
    let b2 = b[off + 2] as usize;
    b0 * 0x10000 + b1 * 0x100 + b2
}

/// One step of the data unit loop over `rest`: `None` at the end; otherwise
/// the unit (or the error it makes) and what is left after it. An error
/// leaves nothing: a data group arrives whole or not at all, so there is
/// nothing to resynchronize to.
pub open spec fn spec_next_unit(rest: Seq<u8>) -> Option<
    (Result<(DataUnitKind, Seq<u8>), ParseError>, Seq<u8>),
> {
    if rest.len() == 0 {
        None
    } else if rest.len() < 5 {
        Some((Err(ParseError::Truncated), Seq::empty()))
    } else if rest[0] != 0x1f {
        Some((Err(ParseError::BadUnitSeparator(rest[0])), Seq::empty()))
    } else if 5 + spec_be24(rest, 2) > rest.len() {
        Some((Err(ParseError::Truncated), Seq::empty()))
    } else {
        let size = spec_be24(rest, 2);
        Some(
            (
                Ok((spec_unit_kind(rest[1]), rest.subrange(5, 5 + size))),
                rest.subrange(5 + size, rest.len() as int),
            ),
        )
    }
}

/// Walks the data units of a data group.
///
/// Yields a `ParseError` and then stops if the loop is malformed.
#[derive(Clone, Debug)]
pub struct DataUnits<'a> {
    rest: &'a [u8],
}

impl<'a> DataUnits<'a> {
    /// The bytes not walked yet.
    pub closed spec fn spec_rest(&self) -> Seq<u8> {
        self.rest@
    }

    /// The next data unit, or the error that ends the loop.
    pub fn next(&mut self) -> (r: Option<Result<DataUnit<'a>, ParseError>>)
        ensures
            spec_next_unit(old(self).spec_rest()) == match r {
                None => None::<(Result<(DataUnitKind, Seq<u8>), ParseError>, Seq<u8>)>,
                Some(Ok(u)) => Some((Ok((u.kind, u.bytes@)), final(self).spec_rest())),
                Some(Err(e)) => Some((Err(e), final(self).spec_rest())),
            },
            final(self).spec_rest().len() < old(self).spec_rest().len() || r is None,
            r is None ==> final(self).spec_rest() == old(self).spec_rest(),
    {
        if self.rest.len() == 0 {
            return None;
        }
        if self.rest.len() < 5 {
            self.rest = &[];
            assert(self.rest@ =~= Seq::<u8>::empty());
            return Some(Err(ParseError::Truncated));
        }
        let separator = self.rest[0];
        if separator != 0x1f {
            self.rest = &[];
            assert(self.rest@ =~= Seq::<u8>::empty());
            return Some(Err(ParseError::BadUnitSeparator(separator)));
        }
        let kind = DataUnitKind::from_parameter(self.rest[1]);
        let size = be24(self.rest, 2);
        if size > self.rest.len() - 5 {
            self.rest = &[];
            assert(self.rest@ =~= Seq::<u8>::empty());
            return Some(Err(ParseError::Truncated));
        }
        let bytes = slice_subrange(self.rest, 5, 5 + size);
        let len = self.rest.len();
        self.rest = slice_subrange(self.rest, 5 + size, len);
        Some(Ok(DataUnit { kind, bytes }))
    }

    /// Every remaining unit, in order, up to and including the error that
    /// ends a malformed loop.
    pub fn collect(&mut self) -> (v: Vec<Result<DataUnit<'a>, ParseError>>)
        ensures
            final(self).spec_rest().len() == 0,
            units_view(v@) == spec_all_units(old(self).spec_rest()),
    {
        let mut v: Vec<Result<DataUnit<'a>, ParseError>> = Vec::new();
        let ghost start = self.spec_rest();
        loop
            invariant_except_break
                units_view(v@) + spec_all_units(self.spec_rest()) == spec_all_units(start),
            ensures
                self.spec_rest().len() == 0,
                units_view(v@) == spec_all_units(start),
            decreases self.spec_rest().len(),
        {
            let ghost before = self.spec_rest();
            let ghost v0 = v@;
            match self.next() {
                Some(u) => {
                    v.push(u);
                    proof {
                        assert(units_view(v@) =~= units_view(v0).push(unit_view(u)));
                        assert(spec_all_units(before) =~= seq![unit_view(u)] + spec_all_units(
                            self.spec_rest(),
                        ));
                        assert(units_view(v@) + spec_all_units(self.spec_rest()) =~= units_view(
                            v0,
                        ) + spec_all_units(before));
                    }
                },
                None => {
                    proof {
                        assert(spec_all_units(before) =~= Seq::empty());
                        assert(units_view(v@) + Seq::empty() =~= units_view(v@));
                    }
                    break;
                },
            }
        }
        v
    }
}

/// What a unit, or the error in its place, holds as values.
pub open spec fn unit_view(r: Result<DataUnit, ParseError>) -> Result<(DataUnitKind, Seq<u8>), ParseError> {
    match r {
        Ok(u) => Ok((u.kind, u.bytes@)),
        Err(e) => Err(e),
    }
}

/// The views of a run of units.
pub open spec fn units_view(v: Seq<Result<DataUnit, ParseError>>) -> Seq<Result<(DataUnitKind, Seq<u8>), ParseError>> {
    v.map_values(|r: Result<DataUnit, ParseError>| unit_view(r))
}

/// Every unit of the loop over `rest`, in order, up to and including the
/// error that ends a malformed one.
pub open spec fn spec_all_units(rest: Seq<u8>) -> Seq<Result<(DataUnitKind, Seq<u8>), ParseError>>
    decreases rest.len(),
{
    match spec_next_unit(rest) {
        None => Seq::empty(),
        Some((u, r)) => if r.len() < rest.len() {
            seq![u] + spec_all_units(r)
        } else {
            seq![u]
        },
    }
}

/// The parameter byte a data unit of kind `k` carries.
pub open spec fn spec_unit_parameter(k: DataUnitKind) -> u8 {
    match k {
        DataUnitKind::StatementBody => 0x20,
        DataUnitKind::GeometricShape => 0x28,
        DataUnitKind::AdditionalSound => 0x2c,
        DataUnitKind::Drcs1 => 0x30,
        DataUnitKind::Drcs2 => 0x31,
        DataUnitKind::ColorMap => 0x34,
        DataUnitKind::Bitmap => 0x35,
        DataUnitKind::Unknown(p) => p,
    }
}

/// A length as the three big-endian bytes a data unit header carries.
pub open spec fn be24_bytes(n: int) -> Seq<u8> {
    seq![(n / 0x10000) as u8, ((n / 0x100) % 0x100) as u8, (n % 0x100) as u8]
}

/// Units written out as a data unit loop, each as its separator, parameter,
/// length and bytes, up to the first error.
pub open spec fn framed_units(units: Seq<Result<(DataUnitKind, Seq<u8>), ParseError>>) -> Seq<u8>
    decreases units.len(),
{
    if units.len() == 0 {
        Seq::empty()
    } else {
        match units[0] {
            Ok((k, b)) => seq![0x1fu8, spec_unit_parameter(k)] + be24_bytes(b.len() as int) + b
                + framed_units(units.drop_first()),
            Err(_) => Seq::empty(),
        }
    }
}

proof fn lemma_be24_bytes(b: Seq<u8>, off: int)
    requires
        0 <= off,
        off + 3 <= b.len(),
    ensures
        be24_bytes(spec_be24(b, off)) == b.subrange(off, off + 3),
{
    let (b0, b1, b2) = (b[off] as int, b[off + 1] as int, b[off + 2] as int);
    let n = spec_be24(b, off);
    vstd::arithmetic::div_mod::lemma_fundamental_div_mod_converse(n, 0x10000, b0, b1 * 0x100 + b2);
    vstd::arithmetic::div_mod::lemma_fundamental_div_mod_converse(n, 0x100, b0 * 0x100 + b1, b2);
    vstd::arithmetic::div_mod::lemma_fundamental_div_mod_converse(
        b0 * 0x100 + b1,
        0x100,
        b0,
        b1,
    );
    assert(be24_bytes(n) =~= b.subrange(off, off + 3));
}

/// A data unit loop is its units: only the last unit of a loop can be the
/// error that ends it, and a loop whose units are all whole is exactly those
/// units written out one after another — separator, parameter, length and
/// bytes — with nothing left over.
pub proof fn law_a_whole_loop_is_its_units(rest: Seq<u8>)
    ensures
        forall|i: int| 0 <= i < spec_all_units(rest).len() - 1 ==> #[trigger] spec_all_units(rest)[i] is Ok,
        (forall|i: int| 0 <= i < spec_all_units(rest).len() ==> #[trigger] spec_all_units(rest)[i] is Ok)
            ==> framed_units(spec_all_units(rest)) == rest,
    decreases rest.len(),
{
    let units = spec_all_units(rest);
    match spec_next_unit(rest) {
        None => {},
        Some((u, r)) => {
            if u is Ok {
                let size = spec_be24(rest, 2);
                assert(r.len() < rest.len());
                law_a_whole_loop_is_its_units(r);
                assert(units.drop_first() =~= spec_all_units(r));
                assert forall|i: int| 0 <= i < units.len() - 1 implies #[trigger] units[i] is Ok by {
                    if i > 0 {
                        assert(units[i] == spec_all_units(r)[i - 1]);
                    }
                }
                if forall|i: int| 0 <= i < units.len() ==> #[trigger] units[i] is Ok {
                    assert forall|i: int| 0 <= i < spec_all_units(r).len() implies #[trigger] spec_all_units(r)[i] is Ok by {
                        assert(units[i + 1] == spec_all_units(r)[i]);
                    }
                    lemma_be24_bytes(rest, 2);
                    let body = rest.subrange(5, 5 + size);
                    assert(body.len() == size);
                    assert(spec_unit_parameter(spec_unit_kind(rest[1])) == rest[1]);
                    assert(framed_units(units) == seq![0x1fu8, rest[1]] + rest.subrange(2, 5) + body
                        + r);
                    assert(framed_units(units) =~= rest);
                }
            } else {
                assert(r.len() == 0);
                assert(spec_all_units(r) =~= Seq::empty());
                assert(units =~= seq![u]);
            }
        },
    }
}

/// The kind of caption a `data_identifier` names.
pub open spec fn spec_kind(b: u8) -> Option<CaptionKind> {
    if b == 0x80 {
        Some(CaptionKind::Caption)
    } else if b == 0x81 {
        Some(CaptionKind::Superimpose)
    } else {
        None
    }
}

/// Where the data group starts: after the three fixed bytes and the
/// PES data packet header, whose length is the low nibble of byte 2.
pub open spec fn spec_group_begin(p: Seq<u8>) -> int {
    3 + (p[2] & 0x0fu8)
}

/// The data-group header a payload carries at `begin`.
pub open spec fn spec_header(p: Seq<u8>, begin: int) -> DataGroupHeader {
    let data_group_id = (p[begin] & 0xfcu8) >> 2u8;
    DataGroupHeader {
        // Bit 5 selects the interleaved sequence.
        group: if data_group_id & 0x20u8 != 0 {
            Group::B
        } else {
            Group::A
        },
        id: data_group_id & 0x1fu8,
        version: p[begin] & 0x03u8,
        link_number: p[begin + 1],
        last_link_number: p[begin + 2],
        size: (p[begin + 3] * 0x100 + p[begin + 4]) as usize,
    }
}

/// The data unit loop that starts at `off`: its bounds, or why it is not there.
pub open spec fn spec_unit_loop(body: Seq<u8>, off: int) -> Result<(int, int), ParseError> {
    if off + 3 > body.len() {
        Err(ParseError::Truncated)
    } else if off + 3 + spec_be24(body, off) > body.len() {
        Err(ParseError::Truncated)
    } else {
        Ok((off + 3, off + 3 + spec_be24(body, off)))
    }
}

/// The DMF values that are followed by a display-condition byte.
pub open spec fn has_display_condition(dmf: u8) -> bool {
    0x0c <= dmf <= 0x0e
}

/// The language entry that starts at `off`, and where the next one starts.
pub open spec fn spec_language_at(body: Seq<u8>, off: int) -> Result<(LanguageInfo, int), ParseError> {
    if off + 5 > body.len() {
        Err(ParseError::Truncated)
    } else {
        let dmf = body[off] & 0x0fu8;
        let off1 = off + 1;
        let (display_condition, off2) = if has_display_condition(dmf) {
            (Some(body[off1]), off1 + 1)
        } else {
            (None, off1)
        };
        if off2 + 4 > body.len() {
            Err(ParseError::Truncated)
        } else {
            Ok(
                (
                    LanguageInfo {
                        language_id: (((body[off] & 0xe0u8) >> 5u8) + 1) as u8,
                        dmf,
                        display_condition,
                        iso639: [body[off2], body[off2 + 1], body[off2 + 2]],
                        format: (body[off2 + 3] & 0xf0u8) >> 4u8,
                        tcs: (body[off2 + 3] & 0x0cu8) >> 2u8,
                        rollup: body[off2 + 3] & 0x03u8,
                    },
                    off2 + 4,
                ),
            )
        }
    }
}

/// The first `n` language entries from `off`, and where they end.
pub open spec fn spec_languages(body: Seq<u8>, off: int, n: nat) -> Result<
    (Seq<LanguageInfo>, int),
    ParseError,
>
    decreases n,
{
    if n == 0 {
        Ok((Seq::empty(), off))
    } else {
        match spec_languages(body, off, (n - 1) as nat) {
            Err(e) => Err(e),
            Ok((langs, o)) => match spec_language_at(body, o) {
                Err(e) => Err(e),
                Ok((lang, o2)) => Ok((langs.push(lang), o2)),
            },
        }
    }
}

/// Caption management data, read from a data group body.
pub open spec fn spec_management(body: Seq<u8>) -> Result<GroupLayout, ParseError> {
    if body.len() == 0 {
        Err(ParseError::Truncated)
    } else {
        let tmd = spec_tmd(body[0]);
        let has_otm = tmd == Tmd::OffsetTime;
        if has_otm && 1 + 5 > body.len() {
            Err(ParseError::Truncated)
        } else {
            let otm = if has_otm {
                Some(spec_timecode(body.subrange(1, 6)))
            } else {
                None
            };
            let off = if has_otm {
                6int
            } else {
                1int
            };
            if off >= body.len() {
                Err(ParseError::Truncated)
            } else if body[off] == 0 || body[off] > 2 {
                Err(ParseError::BadLanguageCount(body[off]))
            } else {
                match spec_languages(body, off + 1, body[off] as nat) {
                    Err(e) => Err(e),
                    Ok((languages, end)) => match spec_unit_loop(body, end) {
                        Err(e) => Err(e),
                        Ok((s, e)) => Ok(
                            GroupLayout::Management {
                                tmd,
                                otm,
                                languages,
                                units: body.subrange(s, e),
                            },
                        ),
                    },
                }
            }
        }
    }
}

/// Caption statement data for language `id`, read from a data group body.
pub open spec fn spec_statement(id: u8, body: Seq<u8>) -> Result<GroupLayout, ParseError> {
    if body.len() == 0 {
        Err(ParseError::Truncated)
    } else {
        let tmd = spec_tmd(body[0]);
        // Both real-time and offset-time statements carry a 5-byte STM.
        let has_stm = tmd == Tmd::RealTime || tmd == Tmd::OffsetTime;
        if has_stm && 1 + 5 > body.len() {
            Err(ParseError::Truncated)
        } else {
            let stm = if has_stm {
                Some(spec_timecode(body.subrange(1, 6)))
            } else {
                None
            };
            let off = if has_stm {
                6int
            } else {
                1int
            };
            match spec_unit_loop(body, off) {
                Err(e) => Err(e),
                Ok((s, e)) => Ok(
                    GroupLayout::Statement { language_id: id, tmd, stm, units: body.subrange(s, e) },
                ),
            }
        }
    }
}

/// What one caption PES payload holds: its kind, its data-group header and
/// the data group, or the first thing wrong with it.
pub open spec fn spec_parse(p: Seq<u8>) -> Result<(CaptionKind, DataGroupHeader, GroupLayout), ParseError> {
    if p.len() < 3 {
        Err(ParseError::Truncated)
    } else if spec_kind(p[0]) is None {
        Err(ParseError::BadDataIdentifier(p[0]))
    } else if p[1] != 0xff {
        Err(ParseError::BadPrivateStreamId(p[1]))
    } else if spec_group_begin(p) + 5 > p.len() {
        Err(ParseError::Truncated)
    } else {
        let begin = spec_group_begin(p);
        let header = spec_header(p, begin);
        if begin + 5 + header.size > p.len() {
            Err(ParseError::Truncated)
        } else if header.id > 8 {
            Err(ParseError::BadDataGroupId(header.id))
        } else {
            let body = p.subrange(begin + 5, begin + 5 + header.size);
            let group = if header.id == 0 {
                spec_management(body)
            } else {
                spec_statement(header.id, body)
            };
            match group {
                Err(e) => Err(e),
                Ok(g) => Ok((spec_kind(p[0])->0, header, g)),
            }
        }
    }
}

/// A data group that parses is management data exactly when its id is 0,
/// and otherwise the statement data of the language its id names, 1 to 8:
/// any other id is refused.
pub proof fn law_group_ids_name_languages(p: Seq<u8>)
    ensures
        spec_parse(p) matches Ok((_, header, group)) ==> {
            &&& (group is Management <==> header.id == 0)
            &&& (group matches GroupLayout::Statement { language_id, .. } ==> language_id == header.id
                && 1 <= language_id <= 8)
        },
{
}

/// The value a parse result stands for.
pub open spec fn parsed_view(r: Result<Parsed, ParseError>) -> Result<
    (CaptionKind, DataGroupHeader, GroupLayout),
    ParseError,
> {
    match r {
        Ok(p) => Ok((p.kind, p.header, p.group.layout())),
        Err(e) => Err(e),
    }
}

/// Parse one caption PES payload (starting at `data_identifier`).
pub fn parse(payload: &[u8]) -> (r: Result<Parsed<'_>, ParseError>)
    ensures
        parsed_view(r) == spec_parse(payload@),
{
    if payload.len() < 3 {
        return Err(ParseError::Truncated);
    }
    let kind = match payload[0] {
        0x80 => CaptionKind::Caption,
        0x81 => CaptionKind::Superimpose,
        other => return Err(ParseError::BadDataIdentifier(other)),
    };
    if payload[1] != 0xff {
        return Err(ParseError::BadPrivateStreamId(payload[1]));
    }

    // PES_data_packet_header_length is the low nibble; the header itself is
    // of no interest to us.
    let begin = 3 + (payload[2] & 0x0f) as usize;
    if begin + 5 > payload.len() {
        return Err(ParseError::Truncated);
    }

    let data_group_id = (payload[begin] & 0b1111_1100) >> 2;
    // Bit 5 selects the interleaved sequence; the low 5 bits are the id
    // proper. libaribcaption reads the group as `(id & 0xF0) >> 8`, which is
    // always 0 — harmless there, but it means a mid-stream management change
    // is taken for a retransmission and dropped. We read the bit.
    let group = if data_group_id & 0x20 != 0 {
        Group::B
    } else {
        Group::A
    };
    let id = data_group_id & 0x1f;
    let size = (payload[begin + 3] as usize) * 0x100 + payload[begin + 4] as usize;
    let body_start = begin + 5;
    if size > payload.len() - body_start {
        return Err(ParseError::Truncated);
    }
    let header = DataGroupHeader {
        group,
        id,
        version: payload[begin] & 0x03,
        link_number: payload[begin + 1],
        last_link_number: payload[begin + 2],
        size,
    };
    if id > 8 {
        return Err(ParseError::BadDataGroupId(id));
    }
    let body = slice_subrange(payload, body_start, body_start + size);

    let group = if id == 0 {
        DataGroup::Management(parse_management(body)?)
    } else {
        DataGroup::Statement(parse_statement(id, body)?)
    };
    Ok(Parsed { kind, header, group })
}

/// Once a language entry fails to parse, every longer run of entries fails
/// the same way.
proof fn lemma_languages_err_extends(body: Seq<u8>, off: int, n: nat, m: nat)
    requires
        n <= m,
        spec_languages(body, off, n) is Err,
    ensures
        spec_languages(body, off, m) == spec_languages(body, off, n),
    decreases m - n,
{
    if n < m {
        lemma_languages_err_extends(body, off, n, (m - 1) as nat);
    }
}

#[verifier::loop_isolation(false)]
fn parse_management(body: &[u8]) -> (r: Result<Management<'_>, ParseError>)
    ensures
        spec_management(body@) == match r {
            Ok(m) => Ok(DataGroup::Management(m).layout()),
            Err(e) => Err(e),
        },
{
    if body.len() == 0 {
        return Err(ParseError::Truncated);
    }
    let tmd = Tmd::from_bits(body[0]);
    let mut off = 1usize;

    let otm = if tmd == Tmd::OffsetTime {
        if off + 5 > body.len() {
            return Err(ParseError::Truncated);
        }
        let tc = Timecode::parse(body, off);
        off += 5;
        Some(tc)
    } else {
        None
    };

    if off >= body.len() {
        return Err(ParseError::Truncated);
    }
    let num_languages = body[off];
    off += 1;
    if num_languages == 0 || num_languages > 2 {
        return Err(ParseError::BadLanguageCount(num_languages));
    }

    let ghost start = off as int;
    let mut languages: Vec<LanguageInfo> = Vec::new();
    let mut k: u8 = 0;
    while k < num_languages
        invariant
            0 <= k <= num_languages <= 2,
            start <= off <= body@.len(),
            spec_languages(body@, start, k as nat) == Ok::<(Seq<LanguageInfo>, int), ParseError>(
                (languages@, off as int),
            ),
        decreases num_languages - k,
    {
        if body.len() - off < 5 {
            proof {
                lemma_languages_err_extends(body@, start, (k + 1) as nat, num_languages as nat);
            }
            return Err(ParseError::Truncated);
        }
        let tag_byte = body[off];
        assert((tag_byte & 0xe0) >> 5 <= 7) by (bit_vector);
        let language_tag = (tag_byte & 0b1110_0000) >> 5;
        let dmf = body[off] & 0b0000_1111;
        off += 1;

        // These three display modes are followed by a display-condition byte.
        let display_condition = if 0x0c <= dmf && dmf <= 0x0e {
            let dc = body[off];
            off += 1;
            Some(dc)
        } else {
            None
        };

        if body.len() - off < 4 {
            proof {
                lemma_languages_err_extends(body@, start, (k + 1) as nat, num_languages as nat);
            }
            return Err(ParseError::Truncated);
        }
        let iso639 = [body[off], body[off + 1], body[off + 2]];
        off += 3;
        let format = (body[off] & 0b1111_0000) >> 4;
        let tcs = (body[off] & 0b0000_1100) >> 2;
        let rollup = body[off] & 0b0000_0011;
        off += 1;

        languages.push(LanguageInfo {
            language_id: language_tag + 1,
            dmf,
            display_condition,
            iso639,
            format,
            tcs,
            rollup,
        });
        k += 1;
    }

    let units = data_unit_loop(body, off)?;
    Ok(Management { tmd, otm, languages, units })
}

fn parse_statement(language_id: u8, body: &[u8]) -> (r: Result<Statement<'_>, ParseError>)
    ensures
        spec_statement(language_id, body@) == match r {
            Ok(s) => Ok(DataGroup::Statement(s).layout()),
            Err(e) => Err(e),
        },
{
    if body.len() == 0 {
        return Err(ParseError::Truncated);
    }
    let tmd = Tmd::from_bits(body[0]);
    let mut off = 1usize;

    // Both real-time and offset-time statements carry a 5-byte STM. It is kept
    // for the record; presentation time comes from the PES PTS.
    let stm = if tmd == Tmd::RealTime || tmd == Tmd::OffsetTime {
        if off + 5 > body.len() {
            return Err(ParseError::Truncated);
        }
        let tc = Timecode::parse(body, off);
        off += 5;
        Some(tc)
    } else {
        None
    };

    let units = data_unit_loop(body, off)?;
    Ok(Statement { language_id, tmd, stm, units })
}

fn data_unit_loop(body: &[u8], off: usize) -> (r: Result<&[u8], ParseError>)
    requires
        off <= body@.len(),
    ensures
        match (spec_unit_loop(body@, off as int), r) {
            (Ok((s, e)), Ok(u)) => u@ == body@.subrange(s, e),
            (Err(e1), Err(e2)) => e1 == e2,
            _ => false,
        },
{
    if body.len() < 3 || off > body.len() - 3 {
        return Err(ParseError::Truncated);
    }
    let len = be24(body, off);
    let start = off + 3;
    if len > body.len() - start {
        return Err(ParseError::Truncated);
    }
    Ok(slice_subrange(body, start, start + len))
}

} // verus!
