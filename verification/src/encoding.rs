//! Byte and text conversions: UTF-8 decoding and encoding, lower-casing,
//! whitespace splitting and decimal parsing.
use vstd::prelude::*;
use vstd::utf8::{decode_utf8, encode_utf8, valid_utf8};
use vstd::string::*;
use crate::text::{push_char, push_text};

verus! {

/// What `String::from_utf8_lossy` makes of `bytes`.
pub uninterp spec fn utf8_lossy_text(bytes: Seq<u8>) -> Seq<char>;

/// Decodes bytes as UTF-8 with `String::from_utf8_lossy`, invalid sequences
/// becoming U+FFFD. Claimed: the result is the named decoding of the bytes,
/// and for valid UTF-8 it is the plain decoding (as the documentation says).
#[verifier::external_body]
pub fn utf8_lossy(bytes: &[u8]) -> (s: String)
    ensures
        s@ == utf8_lossy_text(bytes@),
        valid_utf8(bytes@) ==> s@ == decode_utf8(bytes@),
{
    String::from_utf8_lossy(bytes).to_string()
}

/// What `str::to_lowercase` makes of `s`.
pub uninterp spec fn lowercase_text(s: Seq<char>) -> Seq<char>;

/// Lower-cases a string with `str::to_lowercase`. The result is named, not
/// spelled out: it depends on the characters of `s` alone.
#[verifier::external_body]
pub fn to_lowercase(s: &str) -> (r: String)
    ensures
        r@ == lowercase_text(s@),
{
    s.to_lowercase()
}

/// The UTF-8 bytes of a string.
pub fn utf8_bytes(s: &str) -> (b: Vec<u8>)
    ensures
        b@ == encode_utf8(s@),
{
    let bytes = s.as_bytes();
    let mut v: Vec<u8> = Vec::new();
    let mut i: usize = 0;
    while i < bytes.len()
        invariant
            i <= bytes@.len(),
            v@ == bytes@.subrange(0, i as int),
        decreases bytes@.len() - i,
    {
        v.push(bytes[i]);
        i = i + 1;
        assert(v@ =~= bytes@.subrange(0, i as int));
    }
    assert(v@ =~= bytes@);
    v
}

/// The characters with the Unicode `White_Space` property, which
/// `char::is_whitespace` and `str::split_whitespace` use.
pub open spec fn is_white_space(c: char) -> bool {
    let u = c as u32;
    (0x09 <= u <= 0x0D) || u == 0x20 || u == 0x85 || u == 0xA0 || u == 0x1680 || (0x2000 <= u
        <= 0x200A) || u == 0x2028 || u == 0x2029 || u == 0x202F || u == 0x205F || u == 0x3000
}

/// Whether `c` is white space.
pub fn white_space(c: char) -> (b: bool)
    ensures
        b == is_white_space(c),
{
    let u = c as u32;
    (0x09 <= u && u <= 0x0D) || u == 0x20 || u == 0x85 || u == 0xA0 || u == 0x1680 || (0x2000 <= u
        && u <= 0x200A) || u == 0x2028 || u == 0x2029 || u == 0x202F || u == 0x205F || u == 0x3000
}

/// The words of `s` after the partial word `cur`: the maximal runs of
/// characters that are not white space.
pub open spec fn words_from(s: Seq<char>, cur: Seq<char>) -> Seq<Seq<char>>
    decreases s.len(),
{
    if s.len() == 0 {
        if cur.len() > 0 {
            seq![cur]
        } else {
            Seq::empty()
        }
    } else if is_white_space(s[0]) {
        (if cur.len() > 0 {
            seq![cur]
        } else {
            Seq::<Seq<char>>::empty()
        }) + words_from(s.drop_first(), Seq::empty())
    } else {
        words_from(s.drop_first(), cur.push(s[0]))
    }
}

/// The words of `s`, as `str::split_whitespace` yields them.
pub open spec fn words(s: Seq<char>) -> Seq<Seq<char>> {
    words_from(s, Seq::empty())
}

/// Splits `s` into its words.
pub fn split_whitespace(s: &str) -> (out: Vec<String>)
    ensures
        out@.len() == words(s@).len(),
        forall|i: int| 0 <= i < out@.len() ==> #[trigger] out@[i]@ == words(s@)[i],
{
    let n = s.unicode_len();
    let ghost all = s@;
    let mut out: Vec<String> = Vec::new();
    let mut cur = String::new();
    let ghost mut done: Seq<Seq<char>> = Seq::empty();
    let mut i: usize = 0;
    assert(all.subrange(0, n as int) =~= all);
    assert(done + words_from(all, cur@) =~= words(all));
    while i < n
        invariant
            n == all.len(),
            all == s@,
            i <= n,
            out@.len() == done.len(),
            forall|j: int| 0 <= j < out@.len() ==> #[trigger] out@[j]@ == done[j],
            done + words_from(all.subrange(i as int, n as int), cur@) == words(all),
        decreases n - i,
    {
        let c = s.get_char(i);
        let ghost rest = all.subrange(i as int, n as int);
        assert(rest[0] == c);
        assert(rest.drop_first() =~= all.subrange(i + 1, n as int));
        if white_space(c) {
            if cur.as_str().unicode_len() > 0 {
                let ghost w = cur@;
                out.push(cur);
                proof {
                    done = done.push(w);
                    assert(seq![w] + words_from(rest.drop_first(), Seq::empty()) == words_from(rest, w));
                    assert(done + words_from(all.subrange(i + 1, n as int), Seq::empty()) =~= done.drop_last()
                        + (seq![w] + words_from(all.subrange(i + 1, n as int), Seq::empty())));
                }
                cur = String::new();
            } else {
                proof {
                    assert(Seq::<Seq<char>>::empty() + words_from(rest.drop_first(), Seq::empty())
                        =~= words_from(rest.drop_first(), Seq::empty()));
                }
                cur = String::new();
            }
        } else {
            push_char(&mut cur, c);
        }
        i = i + 1;
    }
    assert(all.subrange(n as int, n as int).len() == 0);
    if cur.as_str().unicode_len() > 0 {
        let ghost w = cur@;
        out.push(cur);
        proof {
            done = done.push(w);
        }
    }
    assert(done =~= words(all));
    out
}

/// The value of a run of decimal digits.
pub open spec fn digits_value(s: Seq<char>) -> nat
    decreases s.len(),
{
    if s.len() == 0 {
        0
    } else {
        digits_value(s.drop_last()) * 10 + ((s.last() as u32) - 48) as nat
    }
}

pub open spec fn is_digit(c: char) -> bool {
    48 <= (c as u32) <= 57
}

/// What `str::parse::<u32>` gives: an optional `+` followed by one or more
/// decimal digits whose value fits in 32 bits.
pub open spec fn parse_u32_text(s: Seq<char>) -> Option<u32> {
    let body = u32_body(s);
    if body.len() > 0 && (forall|i: int| 0 <= i < body.len() ==> is_digit(#[trigger] body[i]))
        && digits_value(body) <= u32::MAX {
        Some(digits_value(body) as u32)
    } else {
        None
    }
}

/// The digits part of a number: without a leading `+`.
pub open spec fn u32_body(s: Seq<char>) -> Seq<char> {
    if s.len() > 0 && s[0] == '+' {
        s.drop_first()
    } else {
        s
    }
}

/// Parses `s` as a 32-bit unsigned decimal number.
pub fn parse_u32(s: &str) -> (r: Option<u32>)
    ensures
        r == parse_u32_text(s@),
{
    let n = s.unicode_len();
    let mut start: usize = 0;
    if n > 0 && s.get_char(0) == '+' {
        start = 1;
    }
    let ghost body = u32_body(s@);
    assert(body =~= s@.subrange(start as int, n as int));
    if start == n {
        return None;
    }
    let mut value: u64 = 0;
    let mut i: usize = start;
    while i < n
        invariant
            n == s@.len(),
            start <= i <= n,
            body == s@.subrange(start as int, n as int),
            body == u32_body(s@),
            forall|j: int| start <= j < i ==> is_digit(#[trigger] s@[j]),
            value == digits_value(s@.subrange(start as int, i as int)),
            value <= u32::MAX,
        decreases n - i,
    {
        let c = s.get_char(i);
        let d = c as u32;
        if d < 48 || d > 57 {
            assert(!is_digit(body[i - start]));
            assert(parse_u32_text(s@) is None);
            return None;
        }
        proof {
            assert(s@.subrange(start as int, i + 1).drop_last() =~= s@.subrange(start as int, i as int));
        }
        let next: u64 = value * 10 + (d - 48) as u64;
        if next > 4294967295 {
            proof {
                assert(body.subrange(0, i + 1 - start) =~= s@.subrange(start as int, i + 1));
                if forall|j: int| 0 <= j < body.len() ==> is_digit(#[trigger] body[j]) {
                    lemma_digits_grow(body, (i + 1 - start) as int);
                }
            }
            return None;
        }
        value = next;
        i = i + 1;
    }
    assert(s@.subrange(start as int, n as int) =~= body);
    Some(value as u32)
}

/// A longer run of digits never has a smaller value.
proof fn lemma_digits_grow(s: Seq<char>, k: int)
    requires
        0 <= k <= s.len(),
        forall|i: int| 0 <= i < s.len() ==> is_digit(#[trigger] s[i]),
    ensures
        digits_value(s.subrange(0, k)) <= digits_value(s),
    decreases s.len() - k,
{
    if k < s.len() {
        lemma_digits_grow(s, k + 1);
        assert(s.subrange(0, k + 1).drop_last() =~= s.subrange(0, k));
    } else {
        assert(s.subrange(0, k) =~= s);
    }
}

} // verus!

verus! {

/// Why text is not a number.
#[derive(Clone, Copy, PartialEq, Eq, Debug, Structural)]
pub enum ParseFault {
    Empty,
    InvalidDigit,
    PosOverflow,
}

/// The message `std::num::ParseIntError` gives for each kind of failure.
pub open spec fn parse_fault_text(f: ParseFault) -> Seq<char> {
    match f {
        ParseFault::Empty => "cannot parse integer from empty string"@,
        ParseFault::InvalidDigit => "invalid digit found in string"@,
        ParseFault::PosOverflow => "number too large to fit in target type"@,
    }
}

impl ParseFault {
    /// The message of this failure.
    pub fn message(&self) -> (s: &'static str)
        ensures
            s@ == parse_fault_text(*self),
    {
        match self {
            ParseFault::Empty => "cannot parse integer from empty string",
            ParseFault::InvalidDigit => "invalid digit found in string",
            ParseFault::PosOverflow => "number too large to fit in target type",
        }
    }
}

/// Reads decimal digits left to right after the value `acc`, stopping at
/// the first character that is not a digit or the first digit that takes
/// the value past 64 bits.
pub open spec fn scan_u64(s: Seq<char>, acc: nat) -> Result<nat, ParseFault>
    decreases s.len(),
{
    if s.len() == 0 {
        Ok(acc)
    } else if !is_digit(s[0]) {
        Err(ParseFault::InvalidDigit)
    } else {
        let next = acc * 10 + ((s[0] as u32) - 48) as nat;
        if next > u64::MAX {
            Err(ParseFault::PosOverflow)
        } else {
            scan_u64(s.drop_first(), next)
        }
    }
}

/// What `str::parse::<u64>` gives for `s`: nothing is empty, an optional
/// `+` is followed by the digits, which are read left to right.
pub open spec fn parse_u64_text(s: Seq<char>) -> Result<nat, ParseFault> {
    if s.len() == 0 {
        Err(ParseFault::Empty)
    } else if u32_body(s).len() == 0 {
        Err(ParseFault::InvalidDigit)
    } else {
        scan_u64(u32_body(s), 0)
    }
}

/// Parses `s` as a 64-bit unsigned decimal number (see `parse_u64_text`).
pub fn parse_u64(s: &str) -> (r: Result<u64, ParseFault>)
    ensures
        match parse_u64_text(s@) {
            Ok(v) => r == Ok::<u64, ParseFault>(v as u64),
            Err(f) => r == Err::<u64, ParseFault>(f),
        },
{
    let n = s.unicode_len();
    if n == 0 {
        return Err(ParseFault::Empty);
    }
    let mut i: usize = 0;
    if s.get_char(0) == '+' {
        i = 1;
    }
    let ghost body = u32_body(s@);
    assert(body =~= s@.subrange(i as int, n as int));
    if i == n {
        return Err(ParseFault::InvalidDigit);
    }
    let mut value: u64 = 0;
    while i < n
        invariant
            n == s@.len(),
            i <= n,
            body == u32_body(s@),
            scan_u64(body, 0) == scan_u64(s@.subrange(i as int, n as int), value as nat),
        decreases n - i,
    {
        let c = s.get_char(i);
        let d = c as u32;
        proof {
            let rest = s@.subrange(i as int, n as int);
            assert(rest[0] == c);
            assert(rest.drop_first() =~= s@.subrange(i + 1, n as int));
        }
        if d < 48 || d > 57 {
            return Err(ParseFault::InvalidDigit);
        }
        let dv = (d - 48) as u64;
        if value > 1844674407370955161 || (value == 1844674407370955161 && dv > 5) {
            return Err(ParseFault::PosOverflow);
        }
        value = value * 10 + dv;
        i = i + 1;
    }
    assert(s@.subrange(n as int, n as int).len() == 0);
    Ok(value)
}

} // verus!

verus! {

/// The pieces of `s` between occurrences of `sep`, after the partial piece
/// `cur`, empty pieces included.
pub open spec fn pieces_from(s: Seq<char>, sep: char, cur: Seq<char>) -> Seq<Seq<char>>
    decreases s.len(),
{
    if s.len() == 0 {
        seq![cur]
    } else if s[0] == sep {
        seq![cur] + pieces_from(s.drop_first(), sep, Seq::empty())
    } else {
        pieces_from(s.drop_first(), sep, cur.push(s[0]))
    }
}

/// Splitting yields at least one piece.
pub proof fn lemma_pieces_nonempty(s: Seq<char>, sep: char, cur: Seq<char>)
    ensures
        pieces_from(s, sep, cur).len() >= 1,
    decreases s.len(),
{
    if s.len() > 0 {
        if s[0] == sep {
            lemma_pieces_nonempty(s.drop_first(), sep, Seq::empty());
        } else {
            lemma_pieces_nonempty(s.drop_first(), sep, cur.push(s[0]));
        }
    }
}

/// What `str::split` with a character separator yields.
pub open spec fn pieces(s: Seq<char>, sep: char) -> Seq<Seq<char>> {
    pieces_from(s, sep, Seq::empty())
}

/// Splits `s` at every `sep`.
pub fn split_char(s: &str, sep: char) -> (out: Vec<String>)
    ensures
        out@.len() == pieces(s@, sep).len(),
        forall|i: int| 0 <= i < out@.len() ==> #[trigger] out@[i]@ == pieces(s@, sep)[i],
{
    let n = s.unicode_len();
    let ghost all = s@;
    let mut out: Vec<String> = Vec::new();
    let mut cur = String::new();
    let ghost mut done: Seq<Seq<char>> = Seq::empty();
    let mut i: usize = 0;
    assert(all.subrange(0, n as int) =~= all);
    assert(done + pieces_from(all, sep, cur@) =~= pieces(all, sep));
    while i < n
        invariant
            n == all.len(),
            all == s@,
            i <= n,
            out@.len() == done.len(),
            forall|j: int| 0 <= j < out@.len() ==> #[trigger] out@[j]@ == done[j],
            done + pieces_from(all.subrange(i as int, n as int), sep, cur@) == pieces(all, sep),
        decreases n - i,
    {
        let c = s.get_char(i);
        let ghost rest = all.subrange(i as int, n as int);
        assert(rest[0] == c);
        assert(rest.drop_first() =~= all.subrange(i + 1, n as int));
        if c == sep {
            let ghost w = cur@;
            out.push(cur);
            proof {
                done = done.push(w);
                assert(done + pieces_from(all.subrange(i + 1, n as int), sep, Seq::empty()) =~= done.drop_last()
                    + (seq![w] + pieces_from(all.subrange(i + 1, n as int), sep, Seq::empty())));
            }
            cur = String::new();
        } else {
            push_char(&mut cur, c);
        }
        i = i + 1;
    }
    assert(all.subrange(n as int, n as int).len() == 0);
    let ghost w = cur@;
    out.push(cur);
    proof {
        done = done.push(w);
    }
    assert(done =~= pieces(all, sep));
    out
}

/// A line without its trailing carriage return.
pub open spec fn strip_cr(l: Seq<char>) -> Seq<char> {
    if l.len() > 0 && l.last() == '\r' {
        l.drop_last()
    } else {
        l
    }
}

/// The lines of `s` after the partial line `cur`.
pub open spec fn lines_from(s: Seq<char>, cur: Seq<char>) -> Seq<Seq<char>>
    decreases s.len(),
{
    if s.len() == 0 {
        if cur.len() == 0 {
            Seq::empty()
        } else {
            seq![strip_cr(cur)]
        }
    } else if s[0] == '\n' {
        seq![strip_cr(cur)] + lines_from(s.drop_first(), Seq::empty())
    } else {
        lines_from(s.drop_first(), cur.push(s[0]))
    }
}

/// What `str::lines` yields: the text split at line feeds, a carriage
/// return before a line feed dropped, and no empty last line.
pub open spec fn lines_of(s: Seq<char>) -> Seq<Seq<char>> {
    lines_from(s, Seq::empty())
}

fn without_cr(l: String) -> (r: String)
    ensures
        r@ == strip_cr(l@),
{
    let n = l.as_str().unicode_len();
    if n > 0 && l.as_str().get_char(n - 1) == '\r' {
        let chars = crate::text::chars_of(l.as_str());
        let r = crate::text::string_from_chars(&chars, 0, n - 1);
        assert(r@ =~= strip_cr(l@));
        r
    } else {
        l
    }
}

/// The lines of `s`.
pub fn lines(s: &str) -> (out: Vec<String>)
    ensures
        out@.len() == lines_of(s@).len(),
        forall|i: int| 0 <= i < out@.len() ==> #[trigger] out@[i]@ == lines_of(s@)[i],
{
    let n = s.unicode_len();
    let ghost all = s@;
    let mut out: Vec<String> = Vec::new();
    let mut cur = String::new();
    let ghost mut done: Seq<Seq<char>> = Seq::empty();
    let mut i: usize = 0;
    assert(all.subrange(0, n as int) =~= all);
    assert(done + lines_from(all, cur@) =~= lines_of(all));
    while i < n
        invariant
            n == all.len(),
            all == s@,
            i <= n,
            out@.len() == done.len(),
            forall|j: int| 0 <= j < out@.len() ==> #[trigger] out@[j]@ == done[j],
            done + lines_from(all.subrange(i as int, n as int), cur@) == lines_of(all),
        decreases n - i,
    {
        let c = s.get_char(i);
        let ghost rest = all.subrange(i as int, n as int);
        assert(rest[0] == c);
        assert(rest.drop_first() =~= all.subrange(i + 1, n as int));
        if c == '\n' {
            let ghost w = strip_cr(cur@);
            let line = without_cr(cur);
            out.push(line);
            proof {
                done = done.push(w);
                assert(done + lines_from(all.subrange(i + 1, n as int), Seq::empty()) =~= done.drop_last()
                    + (seq![w] + lines_from(all.subrange(i + 1, n as int), Seq::empty())));
            }
            cur = String::new();
        } else {
            push_char(&mut cur, c);
        }
        i = i + 1;
    }
    assert(all.subrange(n as int, n as int).len() == 0);
    if cur.as_str().unicode_len() > 0 {
        let ghost w = strip_cr(cur@);
        let line = without_cr(cur);
        out.push(line);
        proof {
            done = done.push(w);
        }
    }
    assert(done =~= lines_of(all));
    out
}

} // verus!
