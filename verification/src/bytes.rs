//! Little-endian encodings of unsigned integers.
use vstd::prelude::*;

verus! {

/// The `n` low bytes of `v`, least significant first.
pub open spec fn le_bytes(v: nat, n: nat) -> Seq<u8>
    decreases n,
{
    if n == 0 {
        Seq::empty()
    } else {
        seq![(v % 256) as u8] + le_bytes(v / 256, (n - 1) as nat)
    }
}

/// Appends the `n` low bytes of `v` to `out`, least significant first.
pub fn push_le(out: &mut Vec<u8>, v: u64, n: usize)
    requires
        n <= 8,
    ensures
        final(out)@ == old(out)@ + le_bytes(v as nat, n as nat),
    decreases n,
{
    if n > 0 {
        out.push((v % 256) as u8);
        let ghost mid = out@;
        push_le(out, v / 256, n - 1);
        assert(out@ =~= old(out)@ + le_bytes(v as nat, n as nat));
    } else {
        assert(out@ =~= old(out)@ + le_bytes(v as nat, n as nat));
    }
}

/// The two's-complement value of a 32-bit signed integer as unsigned.
pub open spec fn u32_of_i32(v: i32) -> nat {
    if v < 0 {
        (v + 0x1_0000_0000) as nat
    } else {
        v as nat
    }
}

/// The unsigned 32-bit pattern of a signed 32-bit integer.
pub fn bits_of_i32(v: i32) -> (u: u64)
    ensures
        u == u32_of_i32(v),
{
    if v < 0 {
        ((v as i64) + 0x1_0000_0000i64) as u64
    } else {
        v as u64
    }
}

} // verus!

verus! {

/// The unsigned value of little-endian bytes, least significant first.
pub open spec fn le_value(b: Seq<u8>) -> nat
    decreases b.len(),
{
    if b.len() == 0 {
        0
    } else {
        b[0] as nat + 256 * le_value(b.drop_first())
    }
}

/// The value of eight little-endian bytes (as `u64::from_le_bytes`).
pub fn u64_from_le(b: &Vec<u8>) -> (v: u64)
    requires
        b@.len() == 8,
    ensures
        v as nat == le_value(b@),
{
    let ghost s = b@;
    proof {
        reveal_with_fuel(le_value, 9);
        let t1 = s.drop_first();
        let t2 = t1.drop_first();
        let t3 = t2.drop_first();
        let t4 = t3.drop_first();
        let t5 = t4.drop_first();
        let t6 = t5.drop_first();
        let t7 = t6.drop_first();
        let t8 = t7.drop_first();
        assert(t8.len() == 0);
        assert(le_value(t7) == s[7] as nat);
        assert(le_value(t6) == s[6] + 256 * le_value(t7));
        assert(le_value(t5) == s[5] + 256 * le_value(t6));
        assert(le_value(t4) == s[4] + 256 * le_value(t5));
        assert(le_value(t3) == s[3] + 256 * le_value(t4));
        assert(le_value(t2) == s[2] + 256 * le_value(t3));
        assert(le_value(t1) == s[1] + 256 * le_value(t2));
        assert(le_value(s) == s[0] + 256 * le_value(t1));
    }
    (b[0] as u64) + 0x100 * (b[1] as u64) + 0x1_0000 * (b[2] as u64) + 0x100_0000 * (b[3] as u64) + 0x1_0000_0000
        * (b[4] as u64) + 0x100_0000_0000 * (b[5] as u64) + 0x1_0000_0000_0000 * (b[6] as u64) + 0x100_0000_0000_0000
        * (b[7] as u64)
}

/// Eight little-endian bytes of a value below 256 read back as that value.
pub proof fn lemma_small_le_round_trip(v: nat)
    requires
        v < 256,
    ensures
        le_value(le_bytes(v, 8)) == v,
{
    reveal_with_fuel(le_bytes, 9);
    let b = le_bytes(v, 8);
    assert(b =~= seq![v as u8, 0u8, 0u8, 0u8, 0u8, 0u8, 0u8, 0u8]);
    reveal_with_fuel(le_value, 9);
    assert(b.drop_first().drop_first().drop_first().drop_first().drop_first().drop_first().drop_first().drop_first()
        =~= Seq::<u8>::empty());
}

} // verus!
