//! String building blocks the renderers and the decoder share.
use vstd::prelude::*;
use vstd::utf8::{decode_utf8, is_scalar, valid_utf8};

verus! {

/// What `String::from_utf8_lossy` makes of a byte string.
pub uninterp spec fn utf8_lossy(bytes: Seq<u8>) -> Seq<char>;

/// A three-byte code as text: character for character when it is ASCII, as
/// every ISO 639-2 code is; decoded when it is valid UTF-8; otherwise as
/// `String::from_utf8_lossy` reads it.
pub open spec fn code_text(code: [u8; 3]) -> Seq<char> {
    if forall|i: int| 0 <= i < 3 ==> code@[i] < 0x80 {
        seq![code[0] as char, code[1] as char, code[2] as char]
    } else if valid_utf8(code@) {
        decode_utf8(code@)
    } else {
        utf8_lossy(code@)
    }
}

/// `String::from_utf8_lossy` over a three-byte code, owned. Its documentation
/// promises that valid UTF-8 comes back unchanged — as the characters it
/// encodes — and ASCII is valid UTF-8; what it makes of other bytes is left to
/// the name.
#[verifier::external_body]
pub(crate) fn lossy_utf8(bytes: &[u8; 3]) -> (s: String)
    ensures
        s@ == utf8_lossy(bytes@),
        valid_utf8(bytes@) ==> s@ == decode_utf8(bytes@),
        (forall|i: int| 0 <= i < 3 ==> bytes@[i] < 0x80) ==> s@ == seq![
            bytes[0] as char,
            bytes[1] as char,
            bytes[2] as char,
        ],
{
    String::from_utf8_lossy(bytes).into_owned()
}

/// `String::push`: appends one character.
#[verifier::external_body]
pub(crate) fn push_char(s: &mut String, c: char)
    ensures
        final(s)@ == old(s)@.push(c),
{
    s.push(c);
}

/// Appends a string slice.
pub(crate) fn push_str(s: &mut String, t: &str)
    ensures
        final(s)@ == old(s)@ + t@,
{
    s.append(t);
}

/// `char::from_u32`: the character a code point stands for, or `None` when
/// it is not a Unicode scalar value (above U+10FFFF, or a surrogate), as its
/// documentation states.
#[verifier::external_body]
pub(crate) fn char_from_u32(cp: u32) -> (c: Option<char>)
    ensures
        c == (if is_scalar(cp) {
            Some(cp as char)
        } else {
            None::<char>
        }),
{
    char::from_u32(cp)
}

/// A one-character string.
pub fn string_of_char(c: char) -> (s: String)
    ensures
        s@ == seq![c],
{
    let mut s = String::new();
    push_char(&mut s, c);
    assert(Seq::<char>::empty().push(c) =~= seq![c]);
    s
}

/// `str::chars`, collected: the characters of a string slice in order.
pub fn chars_of(s: &str) -> (v: Vec<char>)
    ensures
        v@ == s@,
{
    let mut v: Vec<char> = Vec::new();
    for c in it: s.chars()
        invariant
            v@ == it.seq().take(it.index() as int),
            it.seq() == s@,
    {
        v.push(c);
    }
    v
}

/// A string made of the given characters.
pub fn string_of(chars: &[char]) -> (s: String)
    ensures
        s@ == chars@,
{
    let mut s = String::new();
    let mut i: usize = 0;
    while i < chars.len()
        invariant
            0 <= i <= chars@.len(),
            s@ == chars@.take(i as int),
        decreases chars@.len() - i,
    {
        push_char(&mut s, chars[i]);
        assert(chars@.take(i as int).push(chars@[i as int]) =~= chars@.take((i + 1) as int));
        i = i + 1;
    }
    assert(chars@.take(chars@.len() as int) =~= chars@);
    s
}


/// The character for decimal digit `d`.
pub open spec fn digit_char(d: int) -> char {
    (0x30 + d) as char
}

/// `n` in decimal, most significant digit first, no leading zeros.
pub open spec fn dec(n: nat) -> Seq<char>
    decreases n,
{
    if n < 10 {
        seq![digit_char(n as int)]
    } else {
        dec(n / 10).push(digit_char((n % 10) as int))
    }
}

/// `n` in decimal, zero-padded to at least `width` digits.
pub open spec fn padded(n: nat, width: nat) -> Seq<char> {
    let d = dec(n);
    if d.len() >= width {
        d
    } else {
        Seq::new((width - d.len()) as nat, |i: int| '0') + d
    }
}

/// `v` in decimal, with a minus sign when negative.
pub open spec fn signed_dec(v: int) -> Seq<char> {
    if v < 0 {
        seq!['-'] + dec((-v) as nat)
    } else {
        dec(v as nat)
    }
}

/// The uppercase hex digit for `d`.
pub open spec fn hex_upper_digit(d: int) -> char {
    if d < 10 {
        (0x30 + d) as char
    } else {
        (0x41 + d - 10) as char
    }
}

/// A byte as two uppercase hex digits.
pub open spec fn hex2(b: u8) -> Seq<char> {
    seq![hex_upper_digit((b / 16) as int), hex_upper_digit((b % 16) as int)]
}

/// The value of a decimal digit, or -1 for a character that is not one.
pub open spec fn digit_value(c: char) -> int {
    if 0x30 <= c as int <= 0x39 {
        c as int - 0x30
    } else {
        -1
    }
}

/// Whether every character is a decimal digit.
pub open spec fn all_digits(s: Seq<char>) -> bool {
    forall|i: int| 0 <= i < s.len() ==> 0 <= #[trigger] digit_value(s[i])
}

/// The number a run of decimal digits reads as; 0 for none.
pub open spec fn decimal_value(s: Seq<char>) -> int
    decreases s.len(),
{
    if s.len() == 0 {
        0
    } else {
        decimal_value(s.drop_last()) * 10 + digit_value(s.last())
    }
}

/// The value of an uppercase hexadecimal digit, or -1 for a character that
/// is not one.
pub open spec fn hex_value(c: char) -> int {
    if 0x30 <= c as int <= 0x39 {
        c as int - 0x30
    } else if 0x41 <= c as int <= 0x46 {
        c as int - 0x41 + 10
    } else {
        -1
    }
}

/// Decimal writing reads back: the digits of `n` are digits, they read as
/// `n`, and only `0` itself starts with a zero.
pub proof fn law_decimal_reads_back(n: nat)
    ensures
        dec(n).len() >= 1,
        all_digits(dec(n)),
        decimal_value(dec(n)) == n,
        n >= 10 ==> dec(n)[0] != '0',
    decreases n,
{
    if n < 10 {
        assert(dec(n).drop_last() =~= Seq::<char>::empty());
        assert(digit_value(digit_char(n as int)) == n);
        assert(decimal_value(dec(n)) == decimal_value(dec(n).drop_last()) * 10 + digit_value(
            dec(n).last(),
        ));
    } else {
        law_decimal_reads_back(n / 10);
        let d = dec(n);
        assert(d.drop_last() =~= dec(n / 10));
        assert(digit_value(digit_char((n % 10) as int)) == n % 10);
        assert(d.last() == digit_char((n % 10) as int));
        assert(decimal_value(d) == decimal_value(dec(n / 10)) * 10 + digit_value(d.last()));
        assert((n / 10) * 10 + n % 10 == n);
        assert(d[0] == dec(n / 10)[0]);
        assert forall|i: int| 0 <= i < d.len() implies 0 <= #[trigger] digit_value(d[i]) by {
            if i < d.len() - 1 {
                assert(d[i] == dec(n / 10)[i]);
                assert(0 <= digit_value(dec(n / 10)[i]));
            }
        }
        if n / 10 < 10 {
            assert(dec(n / 10)[0] == digit_char((n / 10) as int));
        }
    }
}

/// Zeros in front of digits change what they read as not at all.
proof fn lemma_leading_zeros(k: nat, d: Seq<char>)
    ensures
        decimal_value(Seq::new(k, |i: int| '0') + d) == decimal_value(d),
    decreases d.len(), k,
{
    let z = Seq::new(k, |i: int| '0');
    if d.len() == 0 {
        assert(z + d =~= z);
        if k > 0 {
            assert(z.drop_last() =~= Seq::new((k - 1) as nat, |i: int| '0'));
            lemma_leading_zeros((k - 1) as nat, Seq::empty());
            assert(Seq::new((k - 1) as nat, |i: int| '0') + Seq::<char>::empty() =~= Seq::new(
                (k - 1) as nat,
                |i: int| '0',
            ));
        }
    } else {
        assert((z + d).drop_last() =~= z + d.drop_last());
        lemma_leading_zeros(k, d.drop_last());
    }
}

/// Zero-padded writing reads back: at least `width` digits, exactly `width`
/// when `n` needs no more, and they read as `n`.
pub proof fn law_padded_reads_back(n: nat, width: nat)
    ensures
        padded(n, width).len() >= width,
        dec(n).len() <= width ==> padded(n, width).len() == width,
        all_digits(padded(n, width)),
        decimal_value(padded(n, width)) == n,
{
    law_decimal_reads_back(n);
    let d = dec(n);
    if d.len() < width {
        let k = (width - d.len()) as nat;
        lemma_leading_zeros(k, d);
        let p = Seq::new(k, |i: int| '0') + d;
        assert forall|i: int| 0 <= i < p.len() implies 0 <= #[trigger] digit_value(p[i]) by {
            if i >= k {
                assert(p[i] == d[i - k]);
            }
        }
    }
}

/// A number below `10^width` padded to `width` digits takes exactly that many.
pub proof fn lemma_padded_exact(n: nat, width: nat)
    requires
        1 <= width,
        n < pow10(width),
        n <= u64::MAX,
    ensures
        padded(n, width).len() == width,
{
    lemma_dec_len_small(n as u64, width);
    law_padded_reads_back(n, width);
}

/// Hexadecimal writing of a byte reads back: two digits, high then low.
pub proof fn law_hex2_reads_back(b: u8)
    ensures
        hex2(b).len() == 2,
        hex_value(hex2(b)[0]) * 16 + hex_value(hex2(b)[1]) == b,
{
}

fn digit(d: u64) -> (c: char)
    requires
        d < 10,
    ensures
        c == digit_char(d as int),
{
    ((0x30 + d) as u8) as char
}

/// The number of decimal digits of `v`.
pub fn dec_len(v: u64) -> (n: usize)
    ensures
        n == dec(v as nat).len(),
        1 <= n <= 20,
    decreases v,
{
    if v < 10 {
        1
    } else {
        proof {
            lemma_dec_len_bound(v);
        }
        dec_len(v / 10) + 1
    }
}

proof fn lemma_dec_len_bound(v: u64)
    ensures
        dec(v as nat).len() <= 20,
        dec(v as nat).len() >= 1,
{
    reveal_with_fuel(pow10, 21);
    assert(pow10(20) == 100_000_000_000_000_000_000);
    lemma_dec_len_small(v, 20);
}

/// A number below `10^k` has at most `k` digits.
proof fn lemma_dec_len_small(v: u64, k: nat)
    requires
        k >= 1,
        v < pow10(k),
    ensures
        1 <= dec(v as nat).len() <= k,
    decreases k,
{
    if v >= 10 {
        reveal_with_fuel(pow10, 2);
        assert(pow10(1) == 10);
        if k == 1 {
            assert(false);
        } else {
            assert(pow10(k) == 10 * pow10((k - 1) as nat));
            assert(v / 10 < pow10((k - 1) as nat)) by (nonlinear_arith)
                requires
                    v < pow10(k),
                    pow10(k) == 10 * pow10((k - 1) as nat),
            ;
            lemma_dec_len_small(v / 10, (k - 1) as nat);
        }
    }
}

/// `10^k`.
pub open spec fn pow10(k: nat) -> int
    decreases k,
{
    if k == 0 {
        1
    } else {
        10 * pow10((k - 1) as nat)
    }
}

/// Appends `v` in decimal.
pub fn push_dec(s: &mut String, v: u64)
    ensures
        final(s)@ == old(s)@ + dec(v as nat),
    decreases v,
{
    if v >= 10 {
        push_dec(s, v / 10);
    }
    let ghost before = s@;
    push_char(s, digit(v % 10));
    proof {
        if v >= 10 {
            assert(dec(v as nat) == dec((v / 10) as nat).push(digit_char((v % 10) as int)));
            assert(s@ =~= old(s)@ + dec(v as nat));
        } else {
            assert(s@ =~= old(s)@ + dec(v as nat));
        }
    }
}

/// Appends `v` in decimal, zero-padded to `width` digits.
pub fn push_padded(s: &mut String, v: u64, width: usize)
    requires
        width <= 20,
    ensures
        final(s)@ == old(s)@ + padded(v as nat, width as nat),
{
    let n = dec_len(v);
    let mut i = n;
    let ghost start = s@;
    while i < width
        invariant
            n <= i <= width || (i == n && n > width),
            n == dec(v as nat).len(),
            s@ == start + Seq::new((i - n) as nat, |j: int| '0'),
        decreases width - i,
    {
        push_char(s, '0');
        assert(start + Seq::new((i + 1 - n) as nat, |j: int| '0') =~= start + Seq::new(
            (i - n) as nat,
            |j: int| '0',
        ).push('0'));
        i = i + 1;
    }
    push_dec(s, v);
    if n >= width {
        assert(Seq::new(0, |j: int| '0') + dec(v as nat) =~= dec(v as nat));
        assert(s@ =~= old(s)@ + padded(v as nat, width as nat));
    } else {
        assert(s@ =~= old(s)@ + padded(v as nat, width as nat));
    }
}

/// Appends `v` in decimal, with a minus sign when negative.
pub fn push_signed(s: &mut String, v: i64)
    ensures
        final(s)@ == old(s)@ + signed_dec(v as int),
{
    if v < 0 {
        push_char(s, '-');
        let magnitude: u64 = ((-(v + 1)) as u64) + 1;
        push_dec(s, magnitude);
        assert(s@ =~= old(s)@ + signed_dec(v as int));
    } else {
        push_dec(s, v as u64);
    }
}

fn hex_digit_upper(d: u8) -> (c: char)
    requires
        d < 16,
    ensures
        c == hex_upper_digit(d as int),
{
    if d < 10 {
        (0x30 + d) as char
    } else {
        (0x41 + d - 10) as char
    }
}

/// Appends a byte as two uppercase hex digits.
pub fn push_hex2(s: &mut String, b: u8)
    ensures
        final(s)@ == old(s)@ + hex2(b),
{
    push_char(s, hex_digit_upper(b / 16));
    push_char(s, hex_digit_upper(b % 16));
    assert(s@ =~= old(s)@ + hex2(b));
}

} // verus!
