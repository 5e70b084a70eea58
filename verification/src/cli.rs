//! The values a command line gives the program: which PID to read, and what a
//! sidecar's time zero is.
//!
//! Numbers are read the way the standard library reads them — an optional
//! sign, then at least one digit, and a value that fits — so that `0x130`,
//! `304` and `+304` name the same PID and `-5` does not name one at all.
use vstd::prelude::*;

use crate::render::vtt::{trim, trim_range};
use crate::text::chars_of;

verus! {

// ── numbers ─────────────────────────────────────────────────────────

/// The value of a digit in `radix` (10 or 16, either case), or -1 for a
/// character that is not one.
pub open spec fn digit_value(c: char, radix: int) -> int {
    if '0' <= c <= '9' {
        c as int - 0x30
    } else if radix == 16 && 'a' <= c <= 'f' {
        c as int - 0x61 + 10
    } else if radix == 16 && 'A' <= c <= 'F' {
        c as int - 0x41 + 10
    } else {
        -1
    }
}

/// Every character is a digit in `radix`.
pub open spec fn all_digits(s: Seq<char>, radix: int) -> bool {
    forall|i: int| 0 <= i < s.len() ==> #[trigger] digit_value(s[i], radix) >= 0
}

/// The number a run of digits spells, most significant first.
pub open spec fn value_of(s: Seq<char>, radix: int) -> int
    decreases s.len(),
{
    if s.len() == 0 {
        0
    } else {
        value_of(s.drop_last(), radix) * radix + digit_value(s.last(), radix)
    }
}

/// An unsigned number: an optional `+`, then at least one digit, with a value
/// no greater than `max`.
pub open spec fn spec_parse_unsigned(s: Seq<char>, radix: int, max: int) -> Option<int> {
    let d = if s.len() > 0 && s[0] == '+' {
        s.drop_first()
    } else {
        s
    };
    if d.len() > 0 && all_digits(d, radix) && value_of(d, radix) <= max {
        Some(value_of(d, radix))
    } else {
        None
    }
}

/// A signed 64-bit number: an optional `+` or `-`, then at least one decimal
/// digit, with a value that fits.
pub open spec fn spec_parse_i64(s: Seq<char>) -> Option<int> {
    if s.len() > 0 && s[0] == '-' {
        let d = s.drop_first();
        if d.len() > 0 && all_digits(d, 10) && value_of(d, 10) <= 0x8000_0000_0000_0000 {
            Some(-value_of(d, 10))
        } else {
            None
        }
    } else {
        spec_parse_unsigned(s, 10, i64::MAX as int)
    }
}

proof fn lemma_value_nonnegative(s: Seq<char>, radix: int)
    requires
        all_digits(s, radix),
        radix == 10 || radix == 16,
    ensures
        value_of(s, radix) >= 0,
    decreases s.len(),
{
    if s.len() > 0 {
        assert(all_digits(s.drop_last(), radix)) by {
            assert forall|i: int| 0 <= i < s.drop_last().len() implies #[trigger] digit_value(
                s.drop_last()[i],
                radix,
            ) >= 0 by {
                assert(s.drop_last()[i] == s[i]);
            }
        }
        lemma_value_nonnegative(s.drop_last(), radix);
        assert(digit_value(s[s.len() - 1], radix) >= 0);
        assert(value_of(s.drop_last(), radix) * radix >= 0) by (nonlinear_arith)
            requires
                value_of(s.drop_last(), radix) >= 0,
                radix >= 0,
        ;
    }
}

fn digit_of(c: char, radix: u32) -> (d: Option<u64>)
    requires
        radix == 10 || radix == 16,
    ensures
        d matches Some(v) ==> digit_value(c, radix as int) == v as int && v < radix,
        d is None ==> digit_value(c, radix as int) == -1,
{
    if '0' <= c && c <= '9' {
        Some((c as u32 - 0x30) as u64)
    } else if radix == 16 && 'a' <= c && c <= 'f' {
        Some((c as u32 - 0x61 + 10) as u64)
    } else if radix == 16 && 'A' <= c && c <= 'F' {
        Some((c as u32 - 0x41 + 10) as u64)
    } else {
        None
    }
}

/// The number spelled by `v[lo..hi]`, when it is at least one digit and no
/// greater than `max`.
fn parse_digits(v: &Vec<char>, lo: usize, hi: usize, radix: u32, max: u64) -> (r: Option<u64>)
    requires
        lo <= hi <= v@.len(),
        radix == 10 || radix == 16,
        16 <= max <= 0x8000_0000_0000_0000,
    ensures
        r matches Some(n) ==> ({
            let s = v@.subrange(lo as int, hi as int);
            s.len() > 0 && all_digits(s, radix as int) && value_of(s, radix as int) <= max
                && n == value_of(s, radix as int)
        }),
        r is None ==> !({
            let s = v@.subrange(lo as int, hi as int);
            s.len() > 0 && all_digits(s, radix as int) && value_of(s, radix as int) <= max
        }),
{
    let ghost rad = radix as int;
    let mut acc: u64 = 0;
    let mut bad = false;
    let mut over = false;
    let mut i = lo;
    assert(v@.subrange(lo as int, lo as int) =~= Seq::<char>::empty());
    while i < hi
        invariant
            lo <= i <= hi <= v@.len(),
            radix == 10 || radix == 16,
            rad == radix as int,
            16 <= max <= 0x8000_0000_0000_0000,
            bad ==> !all_digits(v@.subrange(lo as int, i as int), rad),
            !bad ==> all_digits(v@.subrange(lo as int, i as int), rad),
            !bad && over ==> value_of(v@.subrange(lo as int, i as int), rad) > max,
            !bad && !over ==> acc == value_of(v@.subrange(lo as int, i as int), rad) && acc <= max,
        decreases hi - i,
    {
        let ghost s0 = v@.subrange(lo as int, i as int);
        let ghost s1 = v@.subrange(lo as int, i + 1);
        assert(s1 =~= s0.push(v@[i as int]));
        assert(s1.drop_last() =~= s0);
        match digit_of(v[i], radix) {
            None => {
                bad = true;
                assert(digit_value(s1[s0.len() as int], rad) < 0);
            },
            Some(d) => {
                proof {
                    if !bad {
                        assert forall|k: int| 0 <= k < s1.len() implies #[trigger] digit_value(
                            s1[k],
                            rad,
                        ) >= 0 by {
                            if k < s0.len() {
                                assert(s1[k] == s0[k]);
                            }
                        }
                    } else {
                        let k = choose|k: int| 0 <= k < s0.len() && !(#[trigger] digit_value(s0[k], rad) >= 0);
                        assert(s1[k] == s0[k]);
                    }
                }
                if !bad && !over {
                    let lim = (max - d) / (radix as u64);
                    if acc > lim {
                        over = true;
                        assert(value_of(s1, rad) == acc * rad + d);
                        assert(acc * rad + d > max) by (nonlinear_arith)
                            requires
                                acc > lim,
                                lim == (max - d) as int / rad,
                                rad == 10 || rad == 16,
                                d <= max,
                        ;
                    } else {
                        assert(acc * rad + d <= max) by (nonlinear_arith)
                            requires
                                acc <= lim,
                                lim == (max - d) as int / rad,
                                rad == 10 || rad == 16,
                                d <= max,
                        ;
                        acc = acc * (radix as u64) + d;
                    }
                } else if !bad {
                    proof {
                        lemma_value_nonnegative(s0, rad);
                        assert(value_of(s0, rad) * rad >= value_of(s0, rad)) by (nonlinear_arith)
                            requires
                                value_of(s0, rad) >= 0,
                                rad >= 1,
                        ;
                    }
                }
            },
        }
        i = i + 1;
    }
    if bad || over || i == lo {
        None
    } else {
        Some(acc)
    }
}

/// The number `s` spells, read as `u16` parsing reads it: an optional `+`,
/// digits in `radix`, and a value that fits.
fn parse_unsigned(v: &Vec<char>, lo: usize, hi: usize, radix: u32, max: u64) -> (r: Option<u64>)
    requires
        lo <= hi <= v@.len(),
        radix == 10 || radix == 16,
        16 <= max <= 0x8000_0000_0000_0000,
    ensures
        r matches Some(n) ==> spec_parse_unsigned(v@.subrange(lo as int, hi as int), radix as int, max as int) == Some(n as int),
        r is None ==> spec_parse_unsigned(v@.subrange(lo as int, hi as int), radix as int, max as int) is None,
{
    let ghost s = v@.subrange(lo as int, hi as int);
    if lo < hi && v[lo] == '+' {
        assert(s.drop_first() =~= v@.subrange(lo + 1, hi as int));
        parse_digits(v, lo + 1, hi, radix, max)
    } else {
        parse_digits(v, lo, hi, radix, max)
    }
}

/// A PID as the command line gives it: decimal, or hex after `0x` or `0X`,
/// with surrounding whitespace ignored.
pub open spec fn spec_parse_u16(s: Seq<char>) -> Option<u16> {
    let t = trim(s);
    let r = if t.len() >= 2 && t[0] == '0' && (t[1] == 'x' || t[1] == 'X') {
        spec_parse_unsigned(t.skip(2), 16, 0xffff)
    } else {
        spec_parse_unsigned(t, 10, 0xffff)
    };
    match r {
        Some(n) => Some(n as u16),
        None => None,
    }
}

/// A PID as the command line gives it: decimal, or hex after `0x` or `0X`,
/// with surrounding whitespace ignored.
pub fn parse_u16(s: &str) -> (r: Option<u16>)
    ensures
        r == spec_parse_u16(s@),
{
    let v = chars_of(s);
    let (lo, hi) = trim_range(&v, 0, v.len());
    assert(v@.subrange(0, v@.len() as int) =~= s@);
    let ghost t = v@.subrange(lo as int, hi as int);
    let n = if hi - lo >= 2 && v[lo] == '0' && (v[lo + 1] == 'x' || v[lo + 1] == 'X') {
        assert(t.skip(2) =~= v@.subrange(lo + 2, hi as int));
        parse_unsigned(&v, lo + 2, hi, 16, 0xffff)
    } else {
        parse_unsigned(&v, lo, hi, 10, 0xffff)
    };
    match n {
        Some(x) => Some(x as u16),
        None => None,
    }
}

// ── time zero ───────────────────────────────────────────────────────

/// What a sidecar's time zero is measured from.
///
/// Caption times are broadcast PTS — hours into the day. A live rendition
/// hands those to the player as they are, but a file sitting beside a recording
/// has no such mechanism: its zero has to be the player's zero, which for a
/// transport stream is the earliest PTS the file holds.
#[derive(Clone, Copy, Debug, PartialEq, Eq, Structural)]
pub enum Anchor {
    /// The earliest audio/video PTS in the file — what a player uses.
    Auto,
    /// The first caption's own PTS.
    Caption,
    /// None: times stay broadcast PTS.
    Raw,
    /// That many milliseconds of PTS.
    Fixed(i64),
}

/// The words the command line accepts for an anchor, or a number of
/// milliseconds.
pub open spec fn spec_anchor(s: Seq<char>) -> Option<Anchor> {
    if s == seq!['a', 'u', 't', 'o'] {
        Some(Anchor::Auto)
    } else if s == seq!['c', 'a', 'p', 't', 'i', 'o', 'n'] {
        Some(Anchor::Caption)
    } else if s == seq!['r', 'a', 'w'] || s == seq!['n', 'o', 'n', 'e'] {
        Some(Anchor::Raw)
    } else {
        match spec_parse_i64(s) {
            Some(ms) => Some(Anchor::Fixed(ms as i64)),
            None => None,
        }
    }
}

fn is_word(v: &Vec<char>, w: &[char]) -> (b: bool)
    ensures
        b == (v@ == w@),
{
    if v.len() != w.len() {
        return false;
    }
    let mut i: usize = 0;
    while i < v.len()
        invariant
            v@.len() == w@.len(),
            i <= v@.len(),
            forall|k: int| 0 <= k < i ==> v@[k] == w@[k],
        decreases v@.len() - i,
    {
        if v[i] != w[i] {
            return false;
        }
        i = i + 1;
    }
    assert(v@ =~= w@);
    true
}

impl Anchor {
    pub fn parse(s: &str) -> (a: Option<Anchor>)
        ensures
            a == spec_anchor(s@),
    {
        let v = chars_of(s);
        let auto = ['a', 'u', 't', 'o'];
        let caption = ['c', 'a', 'p', 't', 'i', 'o', 'n'];
        let raw = ['r', 'a', 'w'];
        let none = ['n', 'o', 'n', 'e'];
        assert(auto@ =~= seq!['a', 'u', 't', 'o']);
        assert(caption@ =~= seq!['c', 'a', 'p', 't', 'i', 'o', 'n']);
        assert(raw@ =~= seq!['r', 'a', 'w']);
        assert(none@ =~= seq!['n', 'o', 'n', 'e']);
        if is_word(&v, &auto) {
            Some(Anchor::Auto)
        } else if is_word(&v, &caption) {
            Some(Anchor::Caption)
        } else if is_word(&v, &raw) || is_word(&v, &none) {
            Some(Anchor::Raw)
        } else {
            let n = v.len();
            assert(v@.subrange(0, n as int) =~= v@);
            if n > 0 && v[0] == '-' {
                assert(v@.drop_first() =~= v@.subrange(1, n as int));
                match parse_digits(&v, 1, n, 10, 0x8000_0000_0000_0000) {
                    Some(m) => {
                        if m == 0x8000_0000_0000_0000 {
                            Some(Anchor::Fixed(i64::MIN))
                        } else {
                            Some(Anchor::Fixed(-(m as i64)))
                        }
                    },
                    None => None,
                }
            } else {
                match parse_unsigned(&v, 0, n, 10, i64::MAX as u64) {
                    Some(m) => Some(Anchor::Fixed(m as i64)),
                    None => None,
                }
            }
        }
    }

    /// The milliseconds to subtract, given what the pass found.
    pub fn resolve(self, media_pts: Option<i64>, first_caption: Option<i64>) -> (ms: i64)
        ensures
            ms == match self {
                Anchor::Auto => match media_pts {
                    Some(m) => m,
                    None => match first_caption {
                        Some(f) => f,
                        None => 0,
                    },
                },
                Anchor::Caption => match first_caption {
                    Some(f) => f,
                    None => 0,
                },
                Anchor::Raw => 0,
                Anchor::Fixed(ms) => ms,
            },
    {
        match self {
            // Falling back to the first caption is for a stream with no media
            // in it — a caption-PID tap, or a test fixture. It is worse than
            // the real start but it is not hours out, which raw PTS would be.
            Anchor::Auto => match media_pts {
                Some(m) => m,
                None => match first_caption {
                    Some(f) => f,
                    None => 0,
                },
            },
            Anchor::Caption => match first_caption {
                Some(f) => f,
                None => 0,
            },
            Anchor::Raw => 0,
            Anchor::Fixed(ms) => ms,
        }
    }
}

} // verus!
