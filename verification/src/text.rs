//! Text building blocks shared by the library: decimal and hexadecimal
//! rendering, character-level string assembly and splitting.
use vstd::prelude::*;
use vstd::string::*;
use crate::ids::lower_hex_digit;

verus! {

/// The character of a decimal digit.
pub open spec fn digit_char(d: int) -> char {
    (d + 48) as char
}

/// The character of a hexadecimal digit, upper case.
pub open spec fn hex_digit_char(d: int) -> char {
    if d < 10 {
        (d + 48) as char
    } else {
        (d - 10 + 65) as char
    }
}

/// Decimal rendering of a natural number, without sign or leading zeros.
pub open spec fn decimal_text(n: nat) -> Seq<char>
    decreases n,
{
    if n < 10 {
        seq![digit_char(n as int)]
    } else {
        decimal_text(n / 10).push(digit_char((n % 10) as int))
    }
}

/// Decimal rendering of a signed number.
pub open spec fn signed_decimal_text(n: int) -> Seq<char> {
    if n < 0 {
        seq!['-'] + decimal_text((-n) as nat)
    } else {
        decimal_text(n as nat)
    }
}

/// Upper-case hexadecimal rendering of a natural number, without leading zeros.
pub open spec fn hex_text(n: nat) -> Seq<char>
    decreases n,
{
    if n < 16 {
        seq![hex_digit_char(n as int)]
    } else {
        hex_text(n / 16).push(hex_digit_char((n % 16) as int))
    }
}

/// `s` preceded by as many copies of `c` as make it at least `width` long.
pub open spec fn pad_left(s: Seq<char>, c: char, width: nat) -> Seq<char> {
    if s.len() < width {
        Seq::new((width - s.len()) as nat, |i: int| c) + s
    } else {
        s
    }
}

/// Appends one character to a string (`String::push`).
#[verifier::external_body]
pub fn push_char(s: &mut String, c: char)
    ensures
        final(s)@ == old(s)@.push(c),
{
    s.push(c);
}

/// Appends the characters of `t` to `s`.
pub fn push_text(s: &mut String, t: &str)
    ensures
        final(s)@ == old(s)@ + t@,
{
    s.append(t);
}

/// A string holding the characters of `t`.
pub fn string_of(t: &str) -> (s: String)
    ensures
        s@ == t@,
{
    String::from_str(t)
}

/// The character of decimal digit `d`.
pub fn digit(d: u64) -> (c: char)
    requires
        d < 10,
    ensures
        c == digit_char(d as int),
{
    let b: u8 = (d as u8) + 48;
    b as char
}

/// The upper-case character of hexadecimal digit `d`.
pub fn hex_digit(d: u64) -> (c: char)
    requires
        d < 16,
    ensures
        c == hex_digit_char(d as int),
{
    if d < 10 {
        let b: u8 = (d as u8) + 48;
        b as char
    } else {
        let b: u8 = (d as u8) - 10 + 65;
        b as char
    }
}

/// Appends the decimal rendering of `n` to `s`.
pub fn push_decimal(s: &mut String, n: u64)
    ensures
        final(s)@ == old(s)@ + decimal_text(n as nat),
    decreases n,
{
    if n < 10 {
        push_char(s, digit(n));
    } else {
        push_decimal(s, n / 10);
        push_char(s, digit(n % 10));
    }
}

/// The decimal rendering of `n`.
pub fn decimal_string(n: u64) -> (s: String)
    ensures
        s@ == decimal_text(n as nat),
{
    let mut s = String::new();
    push_decimal(&mut s, n);
    assert(s@ =~= decimal_text(n as nat));
    s
}

/// Appends the decimal rendering of a signed number to `s`.
pub fn push_signed_decimal(s: &mut String, n: i64)
    ensures
        final(s)@ == old(s)@ + signed_decimal_text(n as int),
{
    if n < 0 {
        push_char(s, '-');
        let m: u64 = if n == i64::MIN {
            0x8000_0000_0000_0000u64
        } else {
            (-n) as u64
        };
        push_decimal(s, m);
        assert(final(s)@ =~= old(s)@ + signed_decimal_text(n as int));
    } else {
        push_decimal(s, n as u64);
    }
}

/// Appends the upper-case hexadecimal rendering of `n` to `s`.
pub fn push_hex(s: &mut String, n: u64)
    ensures
        final(s)@ == old(s)@ + hex_text(n as nat),
    decreases n,
{
    if n < 16 {
        push_char(s, hex_digit(n));
    } else {
        push_hex(s, n / 16);
        push_char(s, hex_digit(n % 16));
    }
}

/// Lower-case hexadecimal rendering of a natural number, without leading
/// zeros.
pub open spec fn lower_hex_text(n: nat) -> Seq<char>
    decreases n,
{
    if n < 16 {
        seq![lower_hex_digit(n as int)]
    } else {
        lower_hex_text(n / 16).push(lower_hex_digit((n % 16) as int))
    }
}

/// The lower-case character of hexadecimal digit `d`.
pub fn lower_hex_char(d: u64) -> (c: char)
    requires
        d < 16,
    ensures
        c == lower_hex_digit(d as int),
{
    if d < 10 {
        let b: u8 = (d as u8) + 48;
        b as char
    } else {
        let b: u8 = (d as u8) + 87;
        b as char
    }
}

/// Appends the lower-case hexadecimal rendering of `n` to `s`.
pub fn push_lower_hex(s: &mut String, n: u64)
    ensures
        final(s)@ == old(s)@ + lower_hex_text(n as nat),
    decreases n,
{
    if n < 16 {
        push_char(s, lower_hex_char(n));
    } else {
        push_lower_hex(s, n / 16);
        push_char(s, lower_hex_char(n % 16));
    }
}

/// The hexadecimal rendering of a number below 2^64 has between 1 and 16 digits.
pub proof fn lemma_hex_len(n: nat)
    requires
        n < 0x1_0000_0000_0000_0000,
    ensures
        1 <= hex_text(n).len() <= 16,
{
    reveal_with_fuel(pow16, 17);
    assert(pow16(16) == 0x1_0000_0000_0000_0000);
    lemma_hex_len_bound(n, 16);
}

proof fn lemma_hex_len_bound(n: nat, k: nat)
    requires
        n < pow16(k),
    ensures
        1 <= hex_text(n).len() <= (if k == 0 { 1 } else { k }),
    decreases n,
{
    if n >= 16 {
        assert(k >= 2) by {
            if k < 2 {
                if k == 0 {
                    assert(pow16(0) == 1);
                } else {
                    assert(pow16(1) == 16 * pow16(0));
                }
            }
        }
        assert(pow16(k) == 16 * pow16((k - 1) as nat));
        assert(n / 16 < pow16((k - 1) as nat));
        lemma_hex_len_bound(n / 16, (k - 1) as nat);
    }
}

/// Powers of sixteen.
pub open spec fn pow16(k: nat) -> nat
    decreases k,
{
    if k == 0 {
        1
    } else {
        16 * pow16((k - 1) as nat)
    }
}

/// Appends `n` in upper-case hexadecimal, left-padded with zeros to `width` digits.
pub fn push_hex_padded(s: &mut String, n: u64, width: usize)
    ensures
        final(s)@ == old(s)@ + pad_left(hex_text(n as nat), '0', width as nat),
{
    let mut digits = String::new();
    push_hex(&mut digits, n);
    proof {
        lemma_hex_len(n as nat);
    }
    let len = digits.as_str().unicode_len();
    let ghost before = s@;
    if len < width {
        let mut i: usize = len;
        while i < width
            invariant
                len <= i <= width,
                len == hex_text(n as nat).len(),
                s@ == before + Seq::new((i - len) as nat, |j: int| '0'),
            decreases width - i,
        {
            push_char(s, '0');
            i = i + 1;
            assert(s@ =~= before + Seq::new((i - len) as nat, |j: int| '0'));
        }
        push_text(s, digits.as_str());
        assert(s@ =~= before + pad_left(hex_text(n as nat), '0', width as nat));
    } else {
        push_text(s, digits.as_str());
    }
}

/// The characters of a string, one by one.
pub fn chars_of(t: &str) -> (v: Vec<char>)
    ensures
        v@ == t@,
{
    let n = t.unicode_len();
    let mut v: Vec<char> = Vec::new();
    let mut i: usize = 0;
    while i < n
        invariant
            n == t@.len(),
            i <= n,
            v@ == t@.subrange(0, i as int),
        decreases n - i,
    {
        v.push(t.get_char(i));
        i = i + 1;
        assert(v@ =~= t@.subrange(0, i as int));
    }
    assert(v@ =~= t@);
    v
}

/// A string made of the characters `v[from..to]`.
pub fn string_from_chars(v: &Vec<char>, from: usize, to: usize) -> (s: String)
    requires
        from <= to <= v.len(),
    ensures
        s@ == v@.subrange(from as int, to as int),
{
    let mut s = String::new();
    let mut i = from;
    while i < to
        invariant
            from <= i <= to <= v.len(),
            s@ == v@.subrange(from as int, i as int),
        decreases to - i,
    {
        push_char(&mut s, v[i]);
        i = i + 1;
        assert(s@ =~= v@.subrange(from as int, i as int));
    }
    s
}

/// Whether `s` starts with `prefix`.
pub open spec fn has_prefix(s: Seq<char>, prefix: Seq<char>) -> bool {
    prefix.len() <= s.len() && s.subrange(0, prefix.len() as int) == prefix
}

/// Whether `t` starts with `prefix`.
pub fn starts_with(t: &str, prefix: &str) -> (b: bool)
    ensures
        b == has_prefix(t@, prefix@),
{
    let n = t.unicode_len();
    let m = prefix.unicode_len();
    if m > n {
        return false;
    }
    let mut i: usize = 0;
    while i < m
        invariant
            n == t@.len(),
            m == prefix@.len(),
            m <= n,
            i <= m,
            forall|j: int| 0 <= j < i ==> t@[j] == prefix@[j],
        decreases m - i,
    {
        if t.get_char(i) != prefix.get_char(i) {
            assert(t@.subrange(0, m as int)[i as int] != prefix@[i as int]);
            return false;
        }
        i = i + 1;
    }
    assert(t@.subrange(0, m as int) =~= prefix@);
    true
}

/// Whether `needle` occurs in `s` as a contiguous piece.
pub open spec fn contains_text(s: Seq<char>, needle: Seq<char>) -> bool {
    exists|i: int| 0 <= i && i + needle.len() <= s.len() && #[trigger] s.subrange(i, i + needle.len()) == needle
}

} // verus!

verus! {

/// What `format!("{:?}", Duration::from_millis(millis))` renders.
pub uninterp spec fn duration_debug_text(millis: u64) -> Seq<char>;

/// Renders a duration given in milliseconds the way `Debug` for
/// `std::time::Duration` does (for example `5s` or `1.5s`). The rendering is
/// named, not spelled out; it depends on the argument alone.
#[verifier::external_body]
pub fn duration_debug(millis: u64) -> (s: String)
    ensures
        s@ == duration_debug_text(millis),
{
    format!("{:?}", std::time::Duration::from_millis(millis))
}

} // verus!
