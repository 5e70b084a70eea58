//! JSON: the whole model, for a renderer that is not in this process.
//!
//! [`vtt`](crate::render::vtt) keeps the words — but it is a *file*, written
//! once for a recording somebody will play later. A live stream has another
//! consumer: a browser, drawing the caption itself over the picture as it
//! arrives. It wants the model, not a rendering.
//!
//! So this renderer renders nothing. It serialises [`Caption`] whole — regions,
//! cells, colours, styles, enclosure, ruby, the declared plane, and the DRCS
//! bitmaps a text form can only spell `〓` — and leaves every decision about
//! pixels to whoever reads it. The times are **raw broadcast PTS**: rebasing
//! them is the consumer's job.
//!
//! Two things shape the encoding:
//!
//! - **Defaults are omitted.** A caption is 40-odd cells and almost all of them
//!   share their spacing, scale, style and enclosure with the cell before. The
//!   reader is expected to know what a missing field means.
//! - **DRCS pixels go out packed, base64, exactly as transmitted.** They are the
//!   one part of a caption that is genuinely a bitmap. The unpacking rule is
//!   [`Drcs::level`](crate::model::Drcs::level).
use std::collections::HashMap;
use vstd::prelude::*;

use crate::render::vtt::{Cue, CueView};
use crate::model::{
    drcs_map_view, regions_view, BodyView, Caption, CaptionChar, CaptionView, CaptionRegion, CharBody, CharStyle, CharView, Drcs,
    DrcsView, Enclosure, RegionView, Rgba, Scale, WritingMode,
};
use crate::text::{
    chars_of, dec, hex2, push_char, push_dec, push_hex2, push_signed, push_str, signed_dec,
    string_of_char,
};

verus! {

broadcast use vstd::std_specs::hash::group_hash_axioms;

// ── scalars ─────────────────────────────────────────────────────────

/// `#RRGGBBAA` — the CSS form, since that is what reads it. Straight alpha:
/// `FF` is opaque.
pub open spec fn spec_colour(c: Rgba) -> Seq<char> {
    seq!['#'] + hex2(c.r) + hex2(c.g) + hex2(c.b) + hex2(c.a)
}

pub fn colour(c: Rgba) -> (s: String)
    ensures
        s@ == spec_colour(c),
{
    let mut s = String::new();
    push_char(&mut s, '#');
    push_hex2(&mut s, c.r);
    push_hex2(&mut s, c.g);
    push_hex2(&mut s, c.b);
    push_hex2(&mut s, c.a);
    assert(s@ =~= spec_colour(c));
    s
}

/// A cell scale as a number with no more precision than it needs.
pub open spec fn spec_num(s: Scale) -> Seq<char> {
    match s {
        Scale::Half => seq!['0', '.', '5'],
        Scale::One => seq!['1'],
        Scale::Double => seq!['2'],
    }
}

fn push_num(out: &mut String, s: Scale)
    ensures
        final(out)@ == old(out)@ + spec_num(s),
{
    match s {
        Scale::Half => {
            push_char(out, '0');
            push_char(out, '.');
            push_char(out, '5');
        },
        Scale::One => push_char(out, '1'),
        Scale::Double => push_char(out, '2'),
    }
    assert(out@ =~= old(out)@ + spec_num(s));
}

/// A lowercase hex digit.
pub open spec fn hex_lower(d: int) -> char {
    if d < 10 {
        (0x30 + d) as char
    } else {
        (0x61 + d - 10) as char
    }
}

/// What one character becomes in a JSON string: what the grammar requires
/// escaped, and nothing else.
pub open spec fn escape_char(c: char) -> Seq<char> {
    if c == '"' {
        seq!['\\', '"']
    } else if c == '\\' {
        seq!['\\', '\\']
    } else if c == '\n' {
        seq!['\\', 'n']
    } else if c == '\r' {
        seq!['\\', 'r']
    } else if c == '\t' {
        seq!['\\', 't']
    } else if (c as u32) < 0x20 {
        seq!['\\', 'u', '0', '0', hex_lower(((c as u32) / 16) as int), hex_lower(((c as u32) % 16) as int)]
    } else {
        seq![c]
    }
}

pub open spec fn spec_escape(s: Seq<char>) -> Seq<char>
    decreases s.len(),
{
    if s.len() == 0 {
        Seq::empty()
    } else {
        escape_char(s[0]) + spec_escape(s.drop_first())
    }
}

/// The value of a hexadecimal digit of either case, or -1.
pub open spec fn json_hex_value(c: char) -> int {
    let u = c as int;
    if 0x30 <= u <= 0x39 {
        u - 0x30
    } else if 0x61 <= u <= 0x66 {
        u - 0x61 + 10
    } else if 0x41 <= u <= 0x46 {
        u - 0x41 + 10
    } else {
        -1
    }
}

/// The characters a JSON string body stands for (RFC 8259, section 7): the
/// two-character escapes `\"`, `\\`, `\n`, `\r`, `\t`, the six-character
/// `\uXXXX`, and every other character as itself.
pub open spec fn json_unescape(s: Seq<char>) -> Seq<char>
    decreases s.len(),
{
    if s.len() == 0 {
        Seq::empty()
    } else if s[0] == '\\' && s.len() >= 2 && (s[1] == '"' || s[1] == '\\' || s[1] == 'n' || s[1]
        == 'r' || s[1] == 't') {
        seq![
            if s[1] == 'n' {
                '\n'
            } else if s[1] == 'r' {
                '\r'
            } else if s[1] == 't' {
                '\t'
            } else {
                s[1]
            },
        ] + json_unescape(s.skip(2))
    } else if s[0] == '\\' && s.len() >= 6 && s[1] == 'u' {
        seq![
            (json_hex_value(s[2]) * 4096 + json_hex_value(s[3]) * 256 + json_hex_value(s[4]) * 16
                + json_hex_value(s[5])) as char,
        ] + json_unescape(s.skip(6))
    } else {
        seq![s[0]] + json_unescape(s.skip(1))
    }
}

proof fn lemma_unescape_char(c: char, t: Seq<char>)
    ensures
        json_unescape(escape_char(c) + t) == seq![c] + json_unescape(t),
{
    let e = escape_char(c);
    let a = e + t;
    assert(a.skip(e.len() as int) =~= t);
    if (c as u32) < 0x20 && c != '\n' && c != '\r' && c != '\t' {
        let v = c as u32;
        assert(json_hex_value(hex_lower((v / 16) as int)) == v / 16);
        assert(json_hex_value(hex_lower((v % 16) as int)) == v % 16);
        assert(json_hex_value('0') == 0);
        assert((v / 16) * 16 + v % 16 == v);
    }
}

/// JSON escaping reads back: a JSON parser recovers from an escaped string
/// exactly the characters that went in.
pub proof fn law_escape_reads_back(s: Seq<char>)
    ensures
        json_unescape(spec_escape(s)) == s,
    decreases s.len(),
{
    if s.len() > 0 {
        law_escape_reads_back(s.drop_first());
        lemma_unescape_char(s[0], spec_escape(s.drop_first()));
        assert(s =~= seq![s[0]] + s.drop_first());
    }
}

/// A colour reads back as written: `#`, then red, green, blue and alpha as
/// two hex digits each.
pub proof fn law_colour_reads_back(c: Rgba)
    ensures
        spec_colour(c).len() == 9,
        spec_colour(c)[0] == '#',
        json_hex_value(spec_colour(c)[1]) * 16 + json_hex_value(spec_colour(c)[2]) == c.r,
        json_hex_value(spec_colour(c)[3]) * 16 + json_hex_value(spec_colour(c)[4]) == c.g,
        json_hex_value(spec_colour(c)[5]) * 16 + json_hex_value(spec_colour(c)[6]) == c.b,
        json_hex_value(spec_colour(c)[7]) * 16 + json_hex_value(spec_colour(c)[8]) == c.a,
{
    let s = spec_colour(c);
    assert(s[1] == hex2(c.r)[0] && s[2] == hex2(c.r)[1]);
    assert(s[3] == hex2(c.g)[0] && s[4] == hex2(c.g)[1]);
    assert(s[5] == hex2(c.b)[0] && s[6] == hex2(c.b)[1]);
    assert(s[7] == hex2(c.a)[0] && s[8] == hex2(c.a)[1]);
}

fn push_escaped_char(out: &mut String, c: char)
    ensures
        final(out)@ == old(out)@ + escape_char(c),
{
    let u = c as u32;
    if c == '"' {
        push_char(out, '\\');
        push_char(out, '"');
    } else if c == '\\' {
        push_char(out, '\\');
        push_char(out, '\\');
    } else if c == '\n' {
        push_char(out, '\\');
        push_char(out, 'n');
    } else if c == '\r' {
        push_char(out, '\\');
        push_char(out, 'r');
    } else if c == '\t' {
        push_char(out, '\\');
        push_char(out, 't');
    } else if u < 0x20 {
        push_char(out, '\\');
        push_char(out, 'u');
        push_char(out, '0');
        push_char(out, '0');
        let hi = (u / 16) as u8;
        let lo = (u % 16) as u8;
        push_char(out, if hi < 10 { (0x30 + hi) as char } else { (0x61 + hi - 10) as char });
        push_char(out, if lo < 10 { (0x30 + lo) as char } else { (0x61 + lo - 10) as char });
    } else {
        push_char(out, c);
    }
    assert(out@ =~= old(out)@ + escape_char(c));
}

/// A JSON string body: what the grammar requires escaped, and nothing else.
pub fn escape(text: &str) -> (e: String)
    ensures
        e@ == spec_escape(text@),
{
    let chars = chars_of(text);
    let mut out = String::new();
    let mut i: usize = 0;
    assert(chars@.skip(0) =~= chars@);
    while i < chars.len()
        invariant
            i <= chars@.len(),
            chars@ == text@,
            out@ + spec_escape(chars@.skip(i as int)) == spec_escape(text@),
        decreases chars@.len() - i,
    {
        assert(chars@.skip(i as int).drop_first() =~= chars@.skip(i + 1));
        let ghost before = out@;
        push_escaped_char(&mut out, chars[i]);
        assert(out@ + spec_escape(chars@.skip(i + 1)) =~= before + spec_escape(
            chars@.skip(i as int),
        ));
        i = i + 1;
    }
    assert(chars@.skip(chars@.len() as int) =~= Seq::<char>::empty());
    assert(out@ + Seq::<char>::empty() =~= out@);
    out
}

/// The base64 alphabet.
pub open spec fn b64(v: int) -> char {
    if v < 26 {
        (0x41 + v) as char
    } else if v < 52 {
        (0x61 + v - 26) as char
    } else if v < 62 {
        (0x30 + v - 52) as char
    } else if v == 62 {
        '+'
    } else {
        '/'
    }
}

fn b64_at(v: u32) -> (c: char)
    requires
        v < 64,
    ensures
        c == b64(v as int),
{
    if v < 26 {
        (0x41 + v as u8) as char
    } else if v < 52 {
        (0x61 + v as u8 - 26) as char
    } else if v < 62 {
        (0x30 + v as u8 - 52) as char
    } else if v == 62 {
        '+'
    } else {
        '/'
    }
}

/// Standard base64, padded.
pub open spec fn spec_base64(b: Seq<u8>) -> Seq<char>
    decreases b.len(),
{
    if b.len() == 0 {
        Seq::empty()
    } else {
        let b1 = b[0] as int;
        let b2 = if b.len() > 1 {
            b[1] as int
        } else {
            0
        };
        let b3 = if b.len() > 2 {
            b[2] as int
        } else {
            0
        };
        let n = b1 * 65536 + b2 * 256 + b3;
        seq![
            b64((n / 262144) % 64),
            b64((n / 4096) % 64),
            if b.len() > 1 {
                b64((n / 64) % 64)
            } else {
                '='
            },
            if b.len() > 2 {
                b64(n % 64)
            } else {
                '='
            },
        ] + spec_base64(
            if b.len() > 3 {
                b.skip(3)
            } else {
                Seq::empty()
            },
        )
    }
}

/// The value a standard base64 digit stands for (RFC 4648, table 1), or -1
/// for a character that is not one.
pub open spec fn b64_value(c: char) -> int {
    let u = c as int;
    if 0x41 <= u <= 0x5a {
        u - 0x41
    } else if 0x61 <= u <= 0x7a {
        u - 0x61 + 26
    } else if 0x30 <= u <= 0x39 {
        u - 0x30 + 52
    } else if c == '+' {
        62
    } else if c == '/' {
        63
    } else {
        -1
    }
}

/// Standard base64 decoding of padded text: each group of four digits gives
/// three bytes, or fewer where it ends in `=`.
pub open spec fn spec_unbase64(s: Seq<char>) -> Seq<u8>
    decreases s.len(),
{
    if s.len() < 4 {
        Seq::empty()
    } else {
        let v2 = if s[2] == '=' {
            0
        } else {
            b64_value(s[2])
        };
        let v3 = if s[3] == '=' {
            0
        } else {
            b64_value(s[3])
        };
        let n = b64_value(s[0]) * 262144 + b64_value(s[1]) * 4096 + v2 * 64 + v3;
        let bytes = if s[2] == '=' {
            seq![(n / 65536) as u8]
        } else if s[3] == '=' {
            seq![(n / 65536) as u8, ((n / 256) % 256) as u8]
        } else {
            seq![(n / 65536) as u8, ((n / 256) % 256) as u8, (n % 256) as u8]
        };
        bytes + spec_unbase64(s.skip(4))
    }
}

/// Every base64 digit is the standard one: it stands for the value it was
/// written for.
pub proof fn law_base64_digits_are_standard(v: int)
    requires
        0 <= v < 64,
    ensures
        b64_value(b64(v)) == v,
        b64(v) != '=',
{
}

/// Three bytes as the four 6-bit values base64 writes for them, and back.
proof fn lemma_base64_group(b1: u8, b2: u8, b3: u8)
    ensures
        ({
            let n = b1 as int * 65536 + b2 as int * 256 + b3 as int;
            let m = ((n / 262144) % 64) * 262144 + ((n / 4096) % 64) * 4096 + ((n / 64) % 64) * 64
                + n % 64;
            &&& m == n
            &&& n / 65536 == b1
            &&& (n / 256) % 256 == b2
            &&& n % 256 == b3
            &&& b3 == 0 ==> n % 64 == 0
            &&& b2 == 0 && b3 == 0 ==> (n / 64) % 64 == 0
        }),
{
    let n = b1 as int * 65536 + b2 as int * 256 + b3 as int;
    let (x1, x2, x3) = (b1 as u32, b2 as u32, b3 as u32);
    assert({
        let n32 = x1 * 65536 + x2 * 256 + x3;
        &&& ((n32 / 262144) % 64) * 262144 + ((n32 / 4096) % 64) * 4096 + ((n32 / 64) % 64) * 64
            + n32 % 64 == n32
        &&& n32 / 65536 == x1
        &&& (n32 / 256) % 256 == x2
        &&& n32 % 256 == x3
        &&& x3 == 0 ==> n32 % 64 == 0
        &&& x2 == 0 && x3 == 0 ==> (n32 / 64) % 64 == 0
    }) by (bit_vector)
        requires
            x1 < 256,
            x2 < 256,
            x3 < 256,
    ;
    assert(n == x1 * 65536 + x2 * 256 + x3);
}

/// Decoding what base64 writes gives back the bytes it was given: the
/// alphabet is the standard one, the bits go in the standard order, and the
/// padding marks exactly the bytes that were not there.
pub proof fn law_base64_decodes_back(b: Seq<u8>)
    ensures
        spec_unbase64(spec_base64(b)) == b,
    decreases b.len(),
{
    if b.len() > 0 {
        let b1 = b[0];
        let b2: u8 = if b.len() > 1 {
            b[1]
        } else {
            0
        };
        let b3: u8 = if b.len() > 2 {
            b[2]
        } else {
            0
        };
        lemma_base64_group(b1, b2, b3);
        let n = b1 as int * 65536 + b2 as int * 256 + b3 as int;
        let rest = if b.len() > 3 {
            b.skip(3)
        } else {
            Seq::empty()
        };
        law_base64_decodes_back(rest);
        let e = spec_base64(b);
        law_base64_digits_are_standard((n / 262144) % 64);
        law_base64_digits_are_standard((n / 4096) % 64);
        law_base64_digits_are_standard((n / 64) % 64);
        law_base64_digits_are_standard(n % 64);
        assert(e.skip(4) =~= spec_base64(rest));
        if b.len() == 1 {
            assert(b =~= seq![b1] + rest);
        } else if b.len() == 2 {
            assert(b =~= seq![b1, b2] + rest);
        } else {
            assert(b =~= seq![b1, b2, b3] + rest);
        }
    }
}

/// Standard base64, padded. Small enough to write out rather than take a
/// dependency for.
pub fn base64(bytes: &[u8]) -> (s: String)
    ensures
        s@ == spec_base64(bytes@),
{
    let mut out = String::new();
    let mut i: usize = 0;
    assert(bytes@.skip(0) =~= bytes@);
    while i < bytes.len()
        invariant
            i <= bytes@.len(),
            out@ + spec_base64(bytes@.skip(i as int)) == spec_base64(bytes@),
        decreases bytes@.len() - i,
    {
        let ghost rest = bytes@.skip(i as int);
        let left = bytes.len() - i;
        let b1 = bytes[i] as u32;
        let b2 = if left > 1 {
            bytes[i + 1] as u32
        } else {
            0
        };
        let b3 = if left > 2 {
            bytes[i + 2] as u32
        } else {
            0
        };
        let n = b1 * 65536 + b2 * 256 + b3;
        let ghost before = out@;
        push_char(&mut out, b64_at((n / 262144) % 64));
        push_char(&mut out, b64_at((n / 4096) % 64));
        push_char(&mut out, if left > 1 { b64_at((n / 64) % 64) } else { '=' });
        push_char(&mut out, if left > 2 { b64_at(n % 64) } else { '=' });
        let next = if left > 3 {
            i + 3
        } else {
            bytes.len()
        };
        assert(rest.skip(3) =~= bytes@.skip(next as int) || left <= 3);
        assert(bytes@.skip(next as int) =~= (if rest.len() > 3 {
            rest.skip(3)
        } else {
            Seq::<u8>::empty()
        }));
        assert(out@ + spec_base64(bytes@.skip(next as int)) =~= before + spec_base64(rest));
        i = next;
    }
    assert(bytes@.skip(bytes@.len() as int) =~= Seq::<u8>::empty());
    assert(out@ + Seq::<char>::empty() =~= out@);
    out
}

// ── flags ───────────────────────────────────────────────────────────

/// The flags that are set, comma-separated, each as `"name":true`; `written`
/// says whether one went before.
pub open spec fn spec_flags(pairs: Seq<(Seq<char>, bool)>, written: bool) -> Seq<char>
    decreases pairs.len(),
{
    if pairs.len() == 0 {
        Seq::empty()
    } else if !pairs[0].1 {
        spec_flags(pairs.drop_first(), written)
    } else {
        (if written {
            seq![',']
        } else {
            Seq::empty()
        }) + seq!['"'] + pairs[0].0 + "\":true"@ + spec_flags(pairs.drop_first(), true)
    }
}

pub open spec fn style_flags(s: CharStyle) -> Seq<(Seq<char>, bool)> {
    seq![("bold"@, s.bold), ("italic"@, s.italic), ("underline"@, s.underline), ("stroke"@, s.stroke)]
}

pub open spec fn enclosure_flags(e: Enclosure) -> Seq<(Seq<char>, bool)> {
    seq![("top"@, e.top), ("right"@, e.right), ("bottom"@, e.bottom), ("left"@, e.left)]
}

/// Only the flags that are set, comma-separated — `{"bold":true}` rather than
/// four fields of which three say nothing.
struct Flags(bool);

impl Flags {
    fn new() -> (f: Flags)
        ensures
            !f.0,
    {
        Flags(false)
    }

    fn set(&mut self, out: &mut String, name: &str, value: bool)
        ensures
            final(out)@ == old(out)@ + spec_flags(seq![(name@, value)], old(self).0),
            final(self).0 == (old(self).0 || value),
    {
        proof {
            reveal_with_fuel(spec_flags, 2);
            assert(seq![(name@, value)].drop_first() =~= Seq::<(Seq<char>, bool)>::empty());
        }
        if !value {
            assert(out@ + Seq::<char>::empty() =~= out@);
            return;
        }
        if self.0 {
            push_char(out, ',');
        }
        self.0 = true;
        push_char(out, '"');
        push_str(out, name);
        push_str(out, "\":true");
        assert(out@ =~= old(out)@ + spec_flags(seq![(name@, value)], old(self).0));
    }
}

proof fn lemma_flags_step(pairs: Seq<(Seq<char>, bool)>, written: bool)
    requires
        pairs.len() > 0,
    ensures
        spec_flags(pairs, written) == spec_flags(seq![pairs[0]], written) + spec_flags(
            pairs.drop_first(),
            written || pairs[0].1,
        ),
{
    reveal_with_fuel(spec_flags, 2);
    assert(seq![pairs[0]].drop_first() =~= Seq::<(Seq<char>, bool)>::empty());
    if pairs[0].1 {
        assert(spec_flags(seq![pairs[0]], written) =~= (if written {
            seq![',']
        } else {
            Seq::empty()
        }) + seq!['"'] + pairs[0].0 + "\":true"@);
    }
}

fn push_flags4(out: &mut String, names: [&str; 4], values: [bool; 4])
    ensures
        final(out)@ == old(out)@ + spec_flags(
            seq![
                (names[0]@, values[0]),
                (names[1]@, values[1]),
                (names[2]@, values[2]),
                (names[3]@, values[3]),
            ],
            false,
        ),
{
    let ghost pairs = seq![
        (names[0]@, values[0]),
        (names[1]@, values[1]),
        (names[2]@, values[2]),
        (names[3]@, values[3]),
    ];
    let mut flags = Flags::new();
    let ghost o0 = out@;
    flags.set(out, names[0], values[0]);
    flags.set(out, names[1], values[1]);
    flags.set(out, names[2], values[2]);
    flags.set(out, names[3], values[3]);
    proof {
        lemma_flags_step(pairs, false);
        lemma_flags_step(pairs.drop_first(), values[0]);
        lemma_flags_step(pairs.drop_first().drop_first(), values[0] || values[1]);
        lemma_flags_step(
            pairs.drop_first().drop_first().drop_first(),
            values[0] || values[1] || values[2],
        );
        assert(pairs.drop_first().drop_first().drop_first().drop_first() =~= Seq::<(Seq<char>, bool)>::empty());
        assert(pairs.drop_first()[0] == pairs[1]);
        assert(pairs.drop_first().drop_first()[0] == pairs[2]);
        assert(pairs.drop_first().drop_first().drop_first()[0] == pairs[3]);
        assert(out@ + Seq::<char>::empty() =~= out@);
        assert(out@ =~= o0 + spec_flags(pairs, false));
    }
}

// ── cells ───────────────────────────────────────────────────────────

/// `,"name":v`.
pub open spec fn int_field(name: Seq<char>, v: int) -> Seq<char> {
    ",\""@ + name + "\":"@ + signed_dec(v)
}

/// `,"name":v`, left out when `v` is zero.
pub open spec fn nonzero_field(name: Seq<char>, v: int) -> Seq<char> {
    if v != 0 {
        int_field(name, v)
    } else {
        Seq::empty()
    }
}

/// `,"name":s`, left out when the scale is one.
pub open spec fn scale_field(name: Seq<char>, s: Scale) -> Seq<char> {
    if s != Scale::One {
        ",\""@ + name + "\":"@ + spec_num(s)
    } else {
        Seq::empty()
    }
}

/// `,"name":"#RRGGBBAA"`.
pub open spec fn colour_field(name: Seq<char>, c: Rgba) -> Seq<char> {
    ",\""@ + name + "\":\""@ + spec_colour(c) + seq!['"']
}

/// `,"name":{flags}`, left out when no flag is set.
pub open spec fn flags_field(name: Seq<char>, pairs: Seq<(Seq<char>, bool)>, present: bool) -> Seq<
    char,
> {
    if present {
        ",\""@ + name + "\":{"@ + spec_flags(pairs, false) + seq!['}']
    } else {
        Seq::empty()
    }
}

/// What a cell holds: its text, or the code of the glyph it shows.
pub open spec fn json_body(b: BodyView) -> Seq<char> {
    match b {
        BodyView::Text { text, .. } => "\"text\":\""@ + spec_escape(text) + seq!['"'],
        BodyView::DrcsReplaced { text, .. } => "\"text\":\""@ + spec_escape(text) + seq!['"'],
        BodyView::Drcs { code } => "\"drcs\":"@ + dec(code as nat),
    }
}

/// The body, the place on the plane, the size, and the spacing and scale where
/// they are not the default.
pub open spec fn json_char_head(c: CharView) -> Seq<char> {
    json_body(c.body) + int_field("x"@, c.x) + int_field("y"@, c.y) + int_field(
        "char_width"@,
        c.char_width,
    ) + int_field("char_height"@, c.char_height) + nonzero_field(
        "char_horizontal_spacing"@,
        c.char_horizontal_spacing,
    ) + nonzero_field("char_vertical_spacing"@, c.char_vertical_spacing) + scale_field(
        "char_horizontal_scale"@,
        c.char_horizontal_scale,
    ) + scale_field("char_vertical_scale"@, c.char_vertical_scale)
}

/// The colours that show, then the style and the enclosure where any flag is
/// set.
pub open spec fn json_char_tail(c: CharView) -> Seq<char> {
    colour_field("text_color"@, c.text_color) + (if c.back_color.a != 0 {
        colour_field("back_color"@, c.back_color)
    } else {
        Seq::empty()
    }) + (if c.style.stroke && c.stroke_color.a != 0 {
        colour_field("stroke_color"@, c.stroke_color)
    } else {
        Seq::empty()
    }) + flags_field("style"@, style_flags(c.style), c.style != CharStyle::spec_plain())
        + flags_field(
        "enclosure"@,
        enclosure_flags(c.enclosure),
        c.enclosure != Enclosure::spec_none(),
    )
}

/// One cell as a JSON object.
pub open spec fn json_char(c: CharView) -> Seq<char> {
    seq!['{'] + json_char_head(c) + json_char_tail(c) + seq!['}']
}

fn push_int_field(out: &mut String, name: &str, v: i32)
    ensures
        final(out)@ == old(out)@ + int_field(name@, v as int),
{
    push_str(out, ",\"");
    push_str(out, name);
    push_str(out, "\":");
    push_signed(out, v as i64);
    assert(out@ =~= old(out)@ + int_field(name@, v as int));
}

fn push_nonzero_field(out: &mut String, name: &str, v: i32)
    ensures
        final(out)@ == old(out)@ + nonzero_field(name@, v as int),
{
    if v != 0 {
        push_int_field(out, name, v);
    } else {
        assert(out@ =~= out@ + Seq::<char>::empty());
    }
}

fn push_scale_field(out: &mut String, name: &str, s: Scale)
    ensures
        final(out)@ == old(out)@ + scale_field(name@, s),
{
    if s != Scale::One {
        push_str(out, ",\"");
        push_str(out, name);
        push_str(out, "\":");
        push_num(out, s);
        assert(out@ =~= old(out)@ + scale_field(name@, s));
    } else {
        assert(out@ =~= out@ + Seq::<char>::empty());
    }
}

fn push_colour_field(out: &mut String, name: &str, c: Rgba)
    ensures
        final(out)@ == old(out)@ + colour_field(name@, c),
{
    push_str(out, ",\"");
    push_str(out, name);
    push_str(out, "\":\"");
    let hex = colour(c);
    push_str(out, hex.as_str());
    push_char(out, '"');
    assert(out@ =~= old(out)@ + colour_field(name@, c));
}

fn push_flags_field(out: &mut String, name: &str, names: [&str; 4], values: [bool; 4])
    ensures
        final(out)@ == old(out)@ + flags_field(
            name@,
            seq![
                (names[0]@, values[0]),
                (names[1]@, values[1]),
                (names[2]@, values[2]),
                (names[3]@, values[3]),
            ],
            values[0] || values[1] || values[2] || values[3],
        ),
{
    if values[0] || values[1] || values[2] || values[3] {
        push_str(out, ",\"");
        push_str(out, name);
        push_str(out, "\":{");
        let ghost mid = out@;
        push_flags4(out, names, values);
        push_char(out, '}');
        assert(out@ =~= old(out)@ + flags_field(
            name@,
            seq![
                (names[0]@, values[0]),
                (names[1]@, values[1]),
                (names[2]@, values[2]),
                (names[3]@, values[3]),
            ],
            true,
        ));
    } else {
        assert(out@ =~= out@ + Seq::<char>::empty());
    }
}

fn push_style_field(out: &mut String, style: CharStyle)
    ensures
        final(out)@ == old(out)@ + flags_field(
            "style"@,
            style_flags(style),
            style != CharStyle::spec_plain(),
        ),
{
    let names = ["bold", "italic", "underline", "stroke"];
    let values = [style.bold, style.italic, style.underline, style.stroke];
    push_flags_field(out, "style", names, values);
    assert(seq![
        (names[0]@, values[0]),
        (names[1]@, values[1]),
        (names[2]@, values[2]),
        (names[3]@, values[3]),
    ] =~= style_flags(style));
}

fn push_enclosure_field(out: &mut String, enclosure: Enclosure)
    ensures
        final(out)@ == old(out)@ + flags_field(
            "enclosure"@,
            enclosure_flags(enclosure),
            enclosure != Enclosure::spec_none(),
        ),
{
    let names = ["top", "right", "bottom", "left"];
    let values = [enclosure.top, enclosure.right, enclosure.bottom, enclosure.left];
    push_flags_field(out, "enclosure", names, values);
    assert(seq![
        (names[0]@, values[0]),
        (names[1]@, values[1]),
        (names[2]@, values[2]),
        (names[3]@, values[3]),
    ] =~= enclosure_flags(enclosure));
}

fn write_body(out: &mut String, body: &CharBody)
    ensures
        final(out)@ == old(out)@ + json_body(body.view()),
{
    match body {
        CharBody::Text { text, .. } => {
            push_str(out, "\"text\":\"");
            let e = escape(text.as_str());
            push_str(out, e.as_str());
            push_char(out, '"');
        },
        CharBody::DrcsReplaced { text, .. } => {
            push_str(out, "\"text\":\"");
            let e = escape(text.as_str());
            push_str(out, e.as_str());
            push_char(out, '"');
        },
        CharBody::Drcs { code } => {
            push_str(out, "\"drcs\":");
            push_dec(out, *code as u64);
        },
    }
    assert(out@ =~= old(out)@ + json_body(body.view()));
}

#[verifier::rlimit(40)]
fn write_char_head(out: &mut String, ch: &CaptionChar)
    ensures
        final(out)@ == old(out)@ + json_char_head(ch.view()),
{
    let ghost c = ch.view();
    write_body(out, &ch.body);
    let ghost o1 = out@;
    push_int_field(out, "x", ch.x);
    push_int_field(out, "y", ch.y);
    push_int_field(out, "char_width", ch.char_width);
    push_int_field(out, "char_height", ch.char_height);
    let ghost o2 = out@;
    // The pen advances by the cell *plus* the spacing, so a reader that leaves
    // these out lays the line out on the wrong pitch. Zero is common enough to
    // be worth omitting.
    push_nonzero_field(out, "char_horizontal_spacing", ch.char_horizontal_spacing);
    push_nonzero_field(out, "char_vertical_spacing", ch.char_vertical_spacing);
    // Half width, full height is how a Japanese caption fits its line, so the
    // horizontal one is present more often than not. Missing means 1.
    push_scale_field(out, "char_horizontal_scale", ch.char_horizontal_scale);
    push_scale_field(out, "char_vertical_scale", ch.char_vertical_scale);
    assert(out@ =~= old(out)@ + json_char_head(c));
}

fn write_char_tail(out: &mut String, ch: &CaptionChar)
    ensures
        final(out)@ == old(out)@ + json_char_tail(ch.view()),
{
    let ghost c = ch.view();
    push_colour_field(out, "text_color", ch.text_color);
    let ghost o1 = out@;
    // A transparent background is what a caption over a black band uses, and
    // there is no shape to draw for it.
    if !ch.back_color.is_transparent() {
        push_colour_field(out, "back_color", ch.back_color);
    }
    let ghost o2 = out@;
    // Only meaningful with `style.stroke`, and only sent with it.
    if ch.style.stroke && !ch.stroke_color.is_transparent() {
        push_colour_field(out, "stroke_color", ch.stroke_color);
    }
    let ghost o3 = out@;
    push_style_field(out, ch.style);
    let ghost o4 = out@;
    push_enclosure_field(out, ch.enclosure);
    proof {
        assert(o1 =~= old(out)@ + colour_field("text_color"@, c.text_color));
        assert(o2 =~= o1 + (if c.back_color.a != 0 {
            colour_field("back_color"@, c.back_color)
        } else {
            Seq::empty()
        }));
        assert(o3 =~= o2 + (if c.style.stroke && c.stroke_color.a != 0 {
            colour_field("stroke_color"@, c.stroke_color)
        } else {
            Seq::empty()
        }));
        assert(o4 =~= o3 + flags_field(
            "style"@,
            style_flags(c.style),
            c.style != CharStyle::spec_plain(),
        ));
        assert(out@ =~= o4 + flags_field(
            "enclosure"@,
            enclosure_flags(c.enclosure),
            c.enclosure != Enclosure::spec_none(),
        ));
    }
    assert(out@ =~= old(out)@ + json_char_tail(c));
}

fn write_char(out: &mut String, ch: &CaptionChar)
    ensures
        final(out)@ == old(out)@ + json_char(ch.view()),
{
    push_char(out, '{');
    write_char_head(out, ch);
    write_char_tail(out, ch);
    push_char(out, '}');
    assert(out@ =~= old(out)@ + json_char(ch.view()));
}

// ── regions ─────────────────────────────────────────────────────────

/// Cells as JSON objects, comma-separated.
pub open spec fn json_chars(cs: Seq<CharView>) -> Seq<char>
    decreases cs.len(),
{
    if cs.len() == 0 {
        Seq::empty()
    } else {
        json_chars(cs.drop_last()) + (if cs.len() > 1 {
            seq![',']
        } else {
            Seq::empty()
        }) + json_char(cs.last())
    }
}

/// A region's box, its writing mode where it is vertical, and whether it is
/// ruby.
pub open spec fn json_region_head(r: RegionView) -> Seq<char> {
    "{\"x\":"@ + signed_dec(r.x) + int_field("y"@, r.y) + int_field("width"@, r.width) + int_field(
        "height"@,
        r.height,
    ) + (if r.writing_mode == WritingMode::VerticalRl {
        ",\"writing_mode\":\"vertical-rl\""@
    } else {
        Seq::empty()
    }) + (if r.is_ruby {
        ",\"is_ruby\":true"@
    } else {
        Seq::empty()
    })
}

/// One region as a JSON object: its head and its cells.
pub open spec fn json_region(r: RegionView) -> Seq<char> {
    json_region_head(r) + ",\"chars\":["@ + json_chars(r.chars) + "]}"@
}

fn write_chars(out: &mut String, chars: &Vec<CaptionChar>)
    ensures
        final(out)@ == old(out)@ + json_chars(chars@.map_values(|c: CaptionChar| c.view())),
{
    let ghost cv = chars@.map_values(|c: CaptionChar| c.view());
    let mut i: usize = 0;
    assert(cv.take(0) =~= Seq::<CharView>::empty());
    while i < chars.len()
        invariant
            i <= chars@.len(),
            cv == chars@.map_values(|c: CaptionChar| c.view()),
            out@ == old(out)@ + json_chars(cv.take(i as int)),
        decreases chars@.len() - i,
    {
        let ghost before = out@;
        if i > 0 {
            push_char(out, ',');
        }
        write_char(out, &chars[i]);
        proof {
            let t = cv.take(i + 1);
            assert(t.drop_last() =~= cv.take(i as int));
            assert(t.last() == chars@[i as int].view());
            assert(out@ =~= old(out)@ + json_chars(t));
        }
        i = i + 1;
    }
    assert(cv.take(chars@.len() as int) =~= cv);
}

fn write_region_head(out: &mut String, region: &CaptionRegion)
    ensures
        final(out)@ == old(out)@ + json_region_head(region.view()),
{
    let ghost r = region.view();
    push_str(out, "{\"x\":");
    push_signed(out, region.x as i64);
    push_int_field(out, "y", region.y);
    push_int_field(out, "width", region.width);
    push_int_field(out, "height", region.height);
    let ghost o1 = out@;
    if region.writing_mode == WritingMode::VerticalRl {
        push_str(out, ",\"writing_mode\":\"vertical-rl\"");
    }
    let ghost o2 = out@;
    // Ruby (furigana) rides above the line it annotates at half size. Absent
    // means an ordinary region; a text renderer drops these and a pixel
    // renderer draws them where they were sent.
    if region.is_ruby {
        push_str(out, ",\"is_ruby\":true");
    }
    proof {
        assert(o2 =~= o1 + (if r.writing_mode == WritingMode::VerticalRl {
            ",\"writing_mode\":\"vertical-rl\""@
        } else {
            Seq::empty()
        }));
        assert(out@ =~= o2 + (if r.is_ruby {
            ",\"is_ruby\":true"@
        } else {
            Seq::empty()
        }));
    }
    assert(out@ =~= old(out)@ + json_region_head(r));
}

#[verifier::rlimit(40)]
fn write_region(out: &mut String, region: &CaptionRegion)
    ensures
        final(out)@ == old(out)@ + json_region(region.view()),
{
    write_region_head(out, region);
    push_str(out, ",\"chars\":[");
    write_chars(out, &region.chars);
    push_str(out, "]}");
    assert(out@ =~= old(out)@ + json_region(region.view()));
}

// ── DRCS ────────────────────────────────────────────────────────────

/// A glyph: its dimensions and its bitmap, packed as transmitted.
///
/// `depth_bits` per pixel, most-significant-bit first, row-major, no padding
/// between rows — the same bytes the MD5 is taken over, so a consumer holding a
/// replacement table can key into it without unpacking anything.
pub open spec fn json_drcs(d: DrcsView) -> Seq<char> {
    "{\"width\":"@ + dec(d.width as nat) + ",\"height\":"@ + dec(d.height as nat)
        + ",\"depth\":"@ + dec(d.depth as nat) + ",\"depth_bits\":"@ + dec(
        d.depth_bits as nat,
    ) + ",\"md5\":\""@ + d.md5 + "\",\"pixels\":\""@ + spec_base64(d.pixels) + seq!['"']
        + (match d.alternative {
        Some(a) => ",\"alternative\":\""@ + spec_escape(seq![a]) + seq!['"'],
        None => Seq::empty(),
    }) + seq!['}']
}

fn write_drcs(out: &mut String, glyph: &Drcs)
    ensures
        final(out)@ == old(out)@ + json_drcs(glyph.view()),
{
    let ghost d = glyph.view();
    push_str(out, "{\"width\":");
    push_dec(out, glyph.width as u64);
    push_str(out, ",\"height\":");
    push_dec(out, glyph.height as u64);
    push_str(out, ",\"depth\":");
    push_dec(out, glyph.depth as u64);
    push_str(out, ",\"depth_bits\":");
    push_dec(out, glyph.depth_bits as u64);
    push_str(out, ",\"md5\":\"");
    push_str(out, glyph.md5.as_str());
    push_str(out, "\",\"pixels\":\"");
    let b = base64(glyph.pixels.as_slice());
    push_str(out, b.as_str());
    push_char(out, '"');
    let ghost o1 = out@;
    match glyph.alternative {
        Some(a) => {
            push_str(out, ",\"alternative\":\"");
            let one = string_of_char(a);
            let e = escape(one.as_str());
            push_str(out, e.as_str());
            push_char(out, '"');
        },
        None => {},
    }
    let ghost o2 = out@;
    push_char(out, '}');
    proof {
        assert(o2 =~= o1 + (match d.alternative {
            Some(a) => ",\"alternative\":\""@ + spec_escape(seq![a]) + seq!['"'],
            None => Seq::empty(),
        }));
    }
    assert(out@ =~= old(out)@ + json_drcs(d));
}

/// Whether `codes` lists each key of `m` once, in increasing order.
pub open spec fn sorted_keys(m: Map<u32, DrcsView>, codes: Seq<u32>) -> bool {
    &&& codes.to_set() == m.dom()
    &&& forall|i: int, j: int| 0 <= i < j < codes.len() ==> codes[i] < codes[j]
}

/// The glyphs under `codes`, each as `"code":{glyph}`, comma-separated.
pub open spec fn json_drcs_entries(m: Map<u32, DrcsView>, codes: Seq<u32>) -> Seq<char>
    decreases codes.len(),
{
    if codes.len() == 0 {
        Seq::empty()
    } else {
        json_drcs_entries(m, codes.drop_last()) + (if codes.len() > 1 {
            seq![',']
        } else {
            Seq::empty()
        }) + seq!['"'] + dec(codes.last() as nat) + "\":"@ + json_drcs(m[codes.last()])
    }
}

/// The codes a table holds, each once, in the order the table walks them.
fn drcs_keys(m: &HashMap<u32, Drcs>) -> (keys: Vec<u32>)
    ensures
        keys@.to_set() == m@.dom(),
        keys@.no_duplicates(),
{
    let mut keys: Vec<u32> = Vec::new();
    for k in it: m.keys()
        invariant
            it.seq().unref().to_set() == m@.dom(),
            it.seq().unref().no_duplicates(),
            keys@ == it.seq().unref().take(it.index()),
            it.index() == it.seq().len() ==> keys@.to_set() == m@.dom() && keys@.no_duplicates(),
    {
        keys.push(*k);
        proof {
            assert(it.seq().unref().take(it.index() + 1) =~= keys@);
            assert(it.seq().unref().take(it.seq().len() as int) =~= it.seq().unref());
        }
    }
    keys
}

/// The codes a table holds, each once, in increasing order — so the same
/// caption always serialises the same way: a hash map's order is not a fact
/// about the broadcast.
fn drcs_codes(m: &HashMap<u32, Drcs>) -> (codes: Vec<u32>)
    ensures
        codes@.to_set() == m@.dom(),
        forall|i: int, j: int| 0 <= i < j < codes@.len() ==> codes@[i] < codes@[j],
{
    let keys = drcs_keys(m);
    let mut codes: Vec<u32> = Vec::new();
    let mut n: usize = 0;
    while n < keys.len()
        invariant
            n <= keys@.len(),
            keys@.no_duplicates(),
            forall|x: u32| codes@.contains(x) <==> keys@.take(n as int).contains(x),
            forall|i: int, j: int| 0 <= i < j < codes@.len() ==> codes@[i] < codes@[j],
        decreases keys@.len() - n,
    {
        let key: u32 = keys[n];
        let ghost seen = keys@.take(n as int);
        proof {
            if seen.contains(key) {
                let q = choose|q: int| 0 <= q < seen.len() && seen[q] == key;
                assert(keys@[q] == keys@[n as int]);
            }
        }
        let mut p: usize = 0;
        while p < codes.len() && codes[p] < key
            invariant
                p <= codes@.len(),
                forall|q: int| 0 <= q < p ==> codes@[q] < key,
            decreases codes@.len() - p,
        {
            p = p + 1;
        }
        proof {
            if p < codes@.len() {
                assert(codes@.contains(codes@[p as int]));
                assert(codes@[p as int] != key);
            }
        }
        let ghost before = codes@;
        codes.insert(p, key);
        proof {
            assert(keys@.take(n + 1) =~= seen.push(key));
            assert forall|x: u32| codes@.contains(x) <==> seen.push(key).contains(x) by {
                if codes@.contains(x) {
                    let q = choose|q: int| 0 <= q < codes@.len() && codes@[q] == x;
                    if q < p {
                        assert(before[q] == x);
                        assert(before.contains(x));
                    } else if q > p {
                        assert(before[q - 1] == x);
                        assert(before.contains(x));
                    }
                    if x != key {
                        assert(seen.contains(x));
                        let r = choose|r: int| 0 <= r < seen.len() && seen[r] == x;
                        assert(seen.push(key)[r] == x);
                    } else {
                        assert(seen.push(key)[seen.len() as int] == x);
                    }
                }
                if seen.push(key).contains(x) {
                    let r = choose|r: int| 0 <= r < seen.len() + 1 && seen.push(key)[r] == x;
                    if r == seen.len() {
                        assert(codes@[p as int] == x);
                    } else {
                        assert(seen[r] == x);
                        assert(seen.contains(x));
                        assert(before.contains(x));
                        let q = choose|q: int| 0 <= q < before.len() && before[q] == x;
                        if q < p {
                            assert(codes@[q] == x);
                        } else {
                            assert(codes@[q + 1] == x);
                        }
                    }
                }
            }
            assert forall|i: int, j: int| 0 <= i < j < codes@.len() implies codes@[i]
                < codes@[j] by {
                if j < p {
                    assert(codes@[i] == before[i] && codes@[j] == before[j]);
                } else if j == p {
                    assert(codes@[i] == before[i]);
                } else if i < p {
                    assert(codes@[i] == before[i] && codes@[j] == before[j - 1]);
                    if p < before.len() {
                        assert(before[p as int] > key);
                    }
                } else if i == p {
                    assert(codes@[j] == before[j - 1]);
                    assert(before[p as int] > key);
                    if j - 1 > p {
                        assert(before[p as int] < before[j - 1]);
                    }
                } else {
                    assert(codes@[i] == before[i - 1] && codes@[j] == before[j - 1]);
                }
            }
        }
        n = n + 1;
    }
    proof {
        assert(keys@.take(keys@.len() as int) =~= keys@);
        assert(codes@.to_set() =~= m@.dom());
    }
    codes
}

// ── the caption ─────────────────────────────────────────────────────

/// Regions as JSON objects, comma-separated.
pub open spec fn json_regions(rs: Seq<RegionView>) -> Seq<char>
    decreases rs.len(),
{
    if rs.len() == 0 {
        Seq::empty()
    } else {
        json_regions(rs.drop_last()) + (if rs.len() > 1 {
            seq![',']
        } else {
            Seq::empty()
        }) + json_region(rs.last())
    }
}

/// One caption as a JSON object, its glyphs listed in the order of `codes`:
/// the plane, the regions, and the glyphs where there are any.
pub open spec fn json_caption(c: CaptionView, codes: Seq<u32>) -> Seq<char> {
    "{\"plane_width\":"@ + signed_dec(c.plane_width) + ",\"plane_height\":"@ + signed_dec(
        c.plane_height,
    ) + ",\"regions\":["@ + json_regions(c.regions) + seq![']'] + (if codes.len() > 0 {
        ",\"drcs\":{"@ + json_drcs_entries(c.drcs, codes) + seq!['}']
    } else {
        Seq::empty()
    }) + seq!['}']
}

fn write_regions(out: &mut String, regions: &Vec<CaptionRegion>)
    ensures
        final(out)@ == old(out)@ + json_regions(regions_view(regions@)),
{
    let ghost rv = regions_view(regions@);
    let mut i: usize = 0;
    assert(rv.take(0) =~= Seq::<RegionView>::empty());
    while i < regions.len()
        invariant
            i <= regions@.len(),
            rv == regions_view(regions@),
            out@ == old(out)@ + json_regions(rv.take(i as int)),
        decreases regions@.len() - i,
    {
        if i > 0 {
            push_char(out, ',');
        }
        write_region(out, &regions[i]);
        proof {
            let t = rv.take(i + 1);
            assert(t.drop_last() =~= rv.take(i as int));
            assert(t.last() == regions@[i as int].view());
            assert(out@ =~= old(out)@ + json_regions(t));
        }
        i = i + 1;
    }
    assert(rv.take(regions@.len() as int) =~= rv);
}

fn write_drcs_entries(out: &mut String, m: &HashMap<u32, Drcs>, codes: &Vec<u32>)
    requires
        forall|i: int| 0 <= i < codes@.len() ==> m@.dom().contains(#[trigger] codes@[i]),
    ensures
        final(out)@ == old(out)@ + json_drcs_entries(drcs_map_view(m@), codes@),
{
    let ghost mv = drcs_map_view(m@);
    let mut i: usize = 0;
    assert(codes@.take(0) =~= Seq::<u32>::empty());
    while i < codes.len()
        invariant
            i <= codes@.len(),
            mv == drcs_map_view(m@),
            forall|i: int| 0 <= i < codes@.len() ==> m@.dom().contains(#[trigger] codes@[i]),
            out@ == old(out)@ + json_drcs_entries(mv, codes@.take(i as int)),
        decreases codes@.len() - i,
    {
        let code = codes[i];
        assert(m@.dom().contains(codes@[i as int]));
        let ghost before = out@;
        if i > 0 {
            push_char(out, ',');
        }
        push_char(out, '"');
        push_dec(out, code as u64);
        push_str(out, "\":");
        match m.get(&code) {
            Some(glyph) => {
                write_drcs(out, glyph);
                proof {
                    let t = codes@.take(i + 1);
                    assert(t.drop_last() =~= codes@.take(i as int));
                    assert(t.last() == code);
                    assert(mv[code] == glyph.view());
                    assert(out@ =~= old(out)@ + json_drcs_entries(mv, t));
                }
            },
            None => {
                proof {
                    assert(false);
                }
            },
        }
        i = i + 1;
    }
    assert(codes@.take(codes@.len() as int) =~= codes@);
}

/// One caption as a JSON object, ready to be embedded in a larger document.
///
/// ```text
/// {"plane_width":960,"plane_height":540,
///  "regions":[{"x":190,"y":404,"width":580,"height":60,
///              "chars":[{"text":"あ","x":190,"y":404,"char_width":36,
///                        "char_height":36,"char_horizontal_spacing":4,
///                        "char_vertical_spacing":24,"char_horizontal_scale":0.5,
///                        "text_color":"#FFFFFFFF","back_color":"#000000CC"}]}]}
/// ```
///
/// A region without `writing_mode` is horizontal-tb. Vertical regions carry
/// `"writing_mode":"vertical-rl"` explicitly. The glyphs are keyed by the code
/// a `{"drcs":N}` cell names, in increasing order, and the key is absent when
/// the caption used none.
pub fn caption(c: &Caption) -> (s: String)
    ensures
        exists|codes: Seq<u32>|
            #![trigger json_caption(c.view(), codes)]
            sorted_keys(c.view().drcs, codes) && s@ == json_caption(c.view(), codes),
{
    let mut out = String::new();
    push_str(&mut out, "{\"plane_width\":");
    push_signed(&mut out, c.plane_width as i64);
    push_str(&mut out, ",\"plane_height\":");
    push_signed(&mut out, c.plane_height as i64);
    push_str(&mut out, ",\"regions\":[");
    write_regions(&mut out, &c.regions);
    push_char(&mut out, ']');
    let ghost o1 = out@;
    let codes = drcs_codes(&c.drcs);
    proof {
        assert forall|i: int| 0 <= i < codes@.len() implies c.drcs@.dom().contains(
            #[trigger] codes@[i],
        ) by {
            assert(codes@.contains(codes@[i]));
            assert(codes@.to_set().contains(codes@[i]));
        }
        assert(drcs_map_view(c.drcs@).dom() =~= c.drcs@.dom());
    }
    if codes.len() > 0 {
        push_str(&mut out, ",\"drcs\":{");
        write_drcs_entries(&mut out, &c.drcs, &codes);
        push_char(&mut out, '}');
    }
    let ghost o2 = out@;
    push_char(&mut out, '}');
    proof {
        let v = c.view();
        assert(sorted_keys(v.drcs, codes@));
        assert(o2 =~= o1 + (if codes@.len() > 0 {
            ",\"drcs\":{"@ + json_drcs_entries(v.drcs, codes@) + seq!['}']
        } else {
            Seq::empty()
        }));
        assert(out@ =~= json_caption(v, codes@));
    }
    out
}

/// Two increasing sequences holding the same codes are the same sequence.
proof fn lemma_increasing_unique(a: Seq<u32>, b: Seq<u32>)
    requires
        a.to_set() == b.to_set(),
        forall|i: int, j: int| 0 <= i < j < a.len() ==> a[i] < a[j],
        forall|i: int, j: int| 0 <= i < j < b.len() ==> b[i] < b[j],
    ensures
        a == b,
    decreases a.len(),
{
    if a.len() == 0 {
        if b.len() > 0 {
            assert(b.to_set().contains(b[0]));
            assert(!a.contains(b[0]));
        }
        assert(a =~= b);
    } else {
        if b.len() == 0 {
            assert(a.to_set().contains(a[0]));
            assert(!b.contains(a[0]));
        }
        // The first of each is the least of the codes, so they agree.
        assert(a.to_set().contains(a[0]));
        assert(b.contains(a[0]));
        let p = choose|p: int| 0 <= p < b.len() && b[p] == a[0];
        assert(b.to_set().contains(b[0]));
        assert(a.contains(b[0]));
        let q = choose|q: int| 0 <= q < a.len() && a[q] == b[0];
        assert(a[0] <= a[q]);
        assert(b[0] <= b[p]);
        assert(a[0] == b[0]);
        let ta = a.drop_first();
        let tb = b.drop_first();
        assert forall|x: u32| ta.to_set().contains(x) <==> tb.to_set().contains(x) by {
            if ta.contains(x) {
                let i = choose|i: int| 0 <= i < ta.len() && ta[i] == x;
                assert(a[i + 1] == x);
                assert(a.contains(x));
                assert(a.to_set().contains(x));
                assert(b.contains(x));
                let j = choose|j: int| 0 <= j < b.len() && b[j] == x;
                assert(x != a[0]);
                assert(j != 0);
                assert(tb[j - 1] == x);
            }
            if tb.contains(x) {
                let j = choose|j: int| 0 <= j < tb.len() && tb[j] == x;
                assert(b[j + 1] == x);
                assert(b.contains(x));
                assert(b.to_set().contains(x));
                assert(a.contains(x));
                let i = choose|i: int| 0 <= i < a.len() && a[i] == x;
                assert(x != b[0]);
                assert(i != 0);
                assert(ta[i - 1] == x);
            }
        }
        assert(ta.to_set() =~= tb.to_set());
        lemma_increasing_unique(ta, tb);
        assert(a =~= seq![a[0]] + ta);
        assert(b =~= seq![b[0]] + tb);
    }
}

/// The same caption always serialises the same way: the glyphs go out in the
/// order of their codes, so how a table happens to be walked cannot change a
/// byte of the result.
pub proof fn law_serialisation_is_deterministic(c: CaptionView, codes1: Seq<u32>, codes2: Seq<u32>)
    requires
        sorted_keys(c.drcs, codes1),
        sorted_keys(c.drcs, codes2),
    ensures
        codes1 == codes2,
        json_caption(c, codes1) == json_caption(c, codes2),
{
    lemma_increasing_unique(codes1, codes2);
}

// ── cues ────────────────────────────────────────────────────────────

/// `true` or `false`.
pub open spec fn bool_text(b: bool) -> Seq<char> {
    if b {
        "true"@
    } else {
        "false"@
    }
}

/// A cue as one JSON object: its span, whether it is still open, where it
/// sits, its text, and the caption it came from when one is given.
pub open spec fn spec_cue_json(c: CueView, open: bool, caption: Option<Seq<char>>) -> Seq<char> {
    "{\"start_ms\":"@ + signed_dec(c.start_ms as int) + ",\"end_ms\":"@ + signed_dec(
        c.end_ms as int,
    ) + ",\"open\":"@ + bool_text(open) + ",\"top\":"@ + bool_text(c.top) + ",\"text\":\""@
        + spec_escape(c.text) + seq!['"'] + (match caption {
        Some(j) => ",\"caption\":"@ + j,
        None => Seq::empty(),
    }) + seq!['}']
}

fn push_bool(s: &mut String, b: bool)
    ensures
        final(s)@ == old(s)@ + bool_text(b),
{
    if b {
        push_str(s, "true");
    } else {
        push_str(s, "false");
    }
}

/// A cue as one line of the live form: printed open the moment its caption
/// appears, and again closed with the same `start_ms` when its end is known,
/// so a consumer replaces the one with the other. `caption` is the caption
/// itself as [`caption`] writes it, for a consumer that draws it.
pub fn cue_json(cue: &Cue, open: bool, caption: Option<&str>) -> (s: String)
    ensures
        s@ == spec_cue_json(
            cue.view(),
            open,
            match caption {
                Some(c) => Some(c@),
                None => None,
            },
        ),
{
    let mut s = String::new();
    push_str(&mut s, "{\"start_ms\":");
    push_signed(&mut s, cue.start_ms);
    push_str(&mut s, ",\"end_ms\":");
    push_signed(&mut s, cue.end_ms);
    push_str(&mut s, ",\"open\":");
    push_bool(&mut s, open);
    push_str(&mut s, ",\"top\":");
    push_bool(&mut s, cue.top);
    push_str(&mut s, ",\"text\":\"");
    let e = escape(cue.text.as_str());
    push_str(&mut s, e.as_str());
    push_char(&mut s, '"');
    let ghost mid = s@;
    match caption {
        Some(c) => {
            push_str(&mut s, ",\"caption\":");
            push_str(&mut s, c);
        },
        None => {},
    }
    push_char(&mut s, '}');
    proof {
        let cv = match caption {
            Some(c) => Some(c@),
            None => None::<Seq<char>>,
        };
        assert(s@ =~= mid + (match cv {
            Some(j) => ",\"caption\":"@ + j,
            None => Seq::empty(),
        }) + seq!['}']);
    }
    assert(s@ =~= spec_cue_json(
        cue.view(),
        open,
        match caption {
            Some(c) => Some(c@),
            None => None,
        },
    ));
    s
}

} // verus!
