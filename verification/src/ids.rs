//! Sources of fresh identifiers and of the current time.
use vstd::prelude::*;

verus! {

/// Draws a random identifier with `uuid::Uuid::new_v4` and returns its
/// 128-bit value. The value is random; what is claimed is what `new_v4`
/// always sets: the version nibble (bits 76 to 79) is 4 and the variant
/// bits (62 and 63) are `10`, so the value is never zero.
#[verifier::external_body]
pub(crate) fn fresh_id() -> (id: u128)
    ensures
        (id >> 76u128) & 0xfu128 == 4,
        (id >> 62u128) & 0x3u128 == 2,
        id != 0,
{
    uuid::Uuid::new_v4().as_u128()
}

/// The current wall-clock time from `chrono::Utc::now`, in milliseconds since
/// the Unix epoch (a negative count, which `Utc::now` never gives, would
/// read as zero). It depends on the clock: nothing is claimed of it.
#[verifier::external_body]
pub(crate) fn now_millis() -> (t: u64) {
    u64::try_from(chrono::Utc::now().timestamp_millis()).unwrap_or(0)
}

} // verus!

verus! {

/// The lower-case hexadecimal digit of `d`.
pub open spec fn lower_hex_digit(d: int) -> char {
    if d < 10 {
        (48 + d) as char
    } else {
        (87 + d) as char
    }
}

/// The last `width` lower-case hexadecimal digits of `n`, zero-padded.
pub open spec fn lower_hex_fixed(n: nat, width: nat) -> Seq<char>
    decreases width,
{
    if width == 0 {
        Seq::empty()
    } else {
        lower_hex_fixed(n / 16, (width - 1) as nat).push(lower_hex_digit((n % 16) as int))
    }
}

/// The hyphenated lower-case form of a 128-bit identifier, 8-4-4-4-12 digits.
pub open spec fn uuid_text(id: u128) -> Seq<char> {
    let h = lower_hex_fixed(id as nat, 32);
    h.subrange(0, 8) + "-"@ + h.subrange(8, 12) + "-"@ + h.subrange(12, 16) + "-"@ + h.subrange(16, 20)
        + "-"@ + h.subrange(20, 32)
}

/// The text of identifier `id` as `uuid::Uuid`'s `Display` writes it: the
/// hyphenated lower-case form, as that crate documents.
#[verifier::external_body]
pub fn uuid_string(id: u128) -> (s: String)
    ensures
        s@ == uuid_text(id),
{
    uuid::Uuid::from_u128(id).to_string()
}

} // verus!

verus! {

proof fn lemma_hex_digit_injective(a: int, b: int)
    requires
        0 <= a < 16,
        0 <= b < 16,
        lower_hex_digit(a) == lower_hex_digit(b),
    ensures
        a == b,
{
    let ca = lower_hex_digit(a);
    let cb = lower_hex_digit(b);
    assert(ca as int == if a < 10 { 48 + a } else { 87 + a });
    assert(cb as int == if b < 10 { 48 + b } else { 87 + b });
}

proof fn lemma_hex_fixed_len(n: nat, w: nat)
    ensures
        lower_hex_fixed(n, w).len() == w,
    decreases w,
{
    if w > 0 {
        lemma_hex_fixed_len(n / 16, (w - 1) as nat);
    }
}

proof fn lemma_hex_fixed_injective(a: nat, b: nat, w: nat)
    requires
        a < crate::text::pow16(w),
        b < crate::text::pow16(w),
        lower_hex_fixed(a, w) == lower_hex_fixed(b, w),
    ensures
        a == b,
    decreases w,
{
    if w > 0 {
        let p = crate::text::pow16((w - 1) as nat);
        lemma_hex_fixed_len(a / 16, (w - 1) as nat);
        lemma_hex_fixed_len(b / 16, (w - 1) as nat);
        let fa = lower_hex_fixed(a, w);
        let fb = lower_hex_fixed(b, w);
        assert(fa.last() == fb.last());
        lemma_hex_digit_injective((a % 16) as int, (b % 16) as int);
        assert(fa.drop_last() == lower_hex_fixed(a / 16, (w - 1) as nat));
        assert(fb.drop_last() == lower_hex_fixed(b / 16, (w - 1) as nat));
        assert(a / 16 < p) by (nonlinear_arith)
            requires
                a < 16 * p,
        ;
        assert(b / 16 < p) by (nonlinear_arith)
            requires
                b < 16 * p,
        ;
        lemma_hex_fixed_injective(a / 16, b / 16, (w - 1) as nat);
        assert(a == 16 * (a / 16) + a % 16);
        assert(b == 16 * (b / 16) + b % 16);
    }
}

} // verus!

verus! {

/// Different identifiers have different texts.
pub proof fn lemma_uuid_text_injective(a: u128, b: u128)
    requires
        uuid_text(a) == uuid_text(b),
    ensures
        a == b,
{
    let ha = lower_hex_fixed(a as nat, 32);
    let hb = lower_hex_fixed(b as nat, 32);
    lemma_hex_fixed_len(a as nat, 32);
    lemma_hex_fixed_len(b as nat, 32);
    reveal_strlit("-");
    let ta = uuid_text(a);
    let tb = uuid_text(b);
    assert(ta.len() == 36);
    assert(ta.subrange(0, 8) =~= ha.subrange(0, 8));
    assert(tb.subrange(0, 8) =~= hb.subrange(0, 8));
    assert(ta.subrange(9, 13) =~= ha.subrange(8, 12));
    assert(tb.subrange(9, 13) =~= hb.subrange(8, 12));
    assert(ta.subrange(14, 18) =~= ha.subrange(12, 16));
    assert(tb.subrange(14, 18) =~= hb.subrange(12, 16));
    assert(ta.subrange(19, 23) =~= ha.subrange(16, 20));
    assert(tb.subrange(19, 23) =~= hb.subrange(16, 20));
    assert(ta.subrange(24, 36) =~= ha.subrange(20, 32));
    assert(tb.subrange(24, 36) =~= hb.subrange(20, 32));
    assert(ha =~= hb) by {
        assert forall|i: int| 0 <= i < 32 implies ha[i] == hb[i] by {
            if i < 8 {
                assert(ha.subrange(0, 8)[i] == hb.subrange(0, 8)[i]);
            } else if i < 12 {
                assert(ha.subrange(8, 12)[i - 8] == hb.subrange(8, 12)[i - 8]);
            } else if i < 16 {
                assert(ha.subrange(12, 16)[i - 12] == hb.subrange(12, 16)[i - 12]);
            } else if i < 20 {
                assert(ha.subrange(16, 20)[i - 16] == hb.subrange(16, 20)[i - 16]);
            } else {
                assert(ha.subrange(20, 32)[i - 20] == hb.subrange(20, 32)[i - 20]);
            }
        }
    }
    assert(crate::text::pow16(32) == 0x1_0000_0000_0000_0000_0000_0000_0000_0000nat) by {
        reveal_with_fuel(crate::text::pow16, 33);
    }
    lemma_hex_fixed_injective(a as nat, b as nat, 32);
}

} // verus!
