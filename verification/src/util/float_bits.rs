use vstd::prelude::*;

verus! {

/// 2 to the power `n`.
pub open spec fn two_to(n: nat) -> nat
    decreases n,
{
    if n == 0 {
        1
    } else {
        2 * two_to((n - 1) as nat)
    }
}

/// The position of the highest set bit of `m`; 0 for 0 and 1.
pub open spec fn top_bit(m: nat) -> nat
    decreases m,
{
    if m < 2 {
        0
    } else {
        1 + top_bit(m / 2)
    }
}

/// `m / 2^s` rounded to the nearest integer, ties to the even one.
pub open spec fn round_shift(m: nat, s: nat) -> nat {
    let d = two_to(s);
    let q = m / d;
    let r = m % d;
    if 2 * r > d || (2 * r == d && q % 2 == 1) {
        q + 1
    } else {
        q
    }
}

/// The significand, leading one included, and the binary exponent of `m`
/// rounded to the 24 significant bits of a single-precision float.
pub open spec fn f32_parts(m: nat) -> (nat, nat) {
    let e = top_bit(m);
    if e <= 23 {
        (m * two_to((23 - e) as nat), e)
    } else {
        let q = round_shift(m, (e - 23) as nat);
        if q == two_to(24) {
            (two_to(23), e + 1)
        } else {
            (q, e)
        }
    }
}

/// The bit pattern of the single-precision float nearest to `v`, ties to the even
/// significand: sign bit, biased exponent, and the significand without its leading one.
pub open spec fn f32_bits_of(v: int) -> u32 {
    if v == 0 {
        0
    } else {
        let m = if v < 0 { -v } else { v };
        let parts = f32_parts(m as nat);
        let sign: int = if v < 0 { 0x8000_0000 } else { 0 };
        (sign + (parts.1 + 127) * 0x80_0000 + (parts.0 - 0x80_0000)) as u32
    }
}

proof fn lemma_two_to_adds(a: nat, b: nat)
    ensures
        two_to(a + b) == two_to(a) * two_to(b),
    decreases a,
{
    if a == 0 {
        assert(two_to(a) == 1);
        assert(two_to(a) * two_to(b) == two_to(b));
    } else {
        let a1 = (a - 1) as nat;
        lemma_two_to_adds(a1, b);
        assert(a + b == (a1 + b) + 1);
        assert(two_to(a + b) == 2 * two_to(a1 + b));
        assert(two_to(a) * two_to(b) == 2 * (two_to((a - 1) as nat) * two_to(b))) by (nonlinear_arith)
            requires
                two_to(a) == 2 * two_to((a - 1) as nat),
        ;
    }
}

proof fn lemma_two_to_grows(a: nat, b: nat)
    requires
        a <= b,
    ensures
        two_to(a) <= two_to(b),
    decreases b,
{
    if a < b {
        lemma_two_to_grows(a, (b - 1) as nat);
    }
}

proof fn lemma_top_bit(m: nat, e: nat)
    requires
        two_to(e) <= m < 2 * two_to(e),
    ensures
        top_bit(m) == e,
    decreases e,
{
    if e > 0 {
        lemma_top_bit(m / 2, (e - 1) as nat);
    }
}

/// The bit pattern of `v` as a single-precision float: the float nearest to `v`,
/// ties to the even significand.
pub fn f32_bits_of_int(v: i64) -> (b: u32)
    ensures
        b == f32_bits_of(v as int),
{
    if v == 0 {
        return 0;
    }
    let negative = v < 0;
    let m: u64 = if v == i64::MIN {
        0x8000_0000_0000_0000
    } else if negative {
        (-v) as u64
    } else {
        v as u64
    };
    assert(m == (if v < 0 { -(v as int) } else { v as int }));
    let mut e: u64 = 0;
    let mut p: u64 = 1;
    proof {
        assert(two_to(64) == 0x1_0000_0000_0000_0000) by {
            reveal_with_fuel(two_to, 65);
        }
    }
    while p <= m / 2
        invariant
            1 <= m,
            p == two_to(e as nat),
            1 <= p <= m,
            e < 64,
            two_to(64) == 0x1_0000_0000_0000_0000,
        decreases m - p,
    {
        p = p * 2;
        e = e + 1;
        proof {
            if e >= 64 {
                lemma_two_to_grows(64, e as nat);
            }
        }
    }
    proof {
        lemma_top_bit(m as nat, e as nat);
    }
    let ghost parts = f32_parts(m as nat);
    let mut q: u64;
    let mut ex: u64;
    if e <= 23 {
        q = m;
        let mut k: u64 = e;
        assert(((k - e) as nat) == 0nat);
        assert(two_to(0) == 1);
        assert(m * two_to(0) == m);
        while k < 23
            invariant
                e <= k <= 23,
                q == m * two_to((k - e) as nat),
                two_to(k as nat) <= q < 2 * two_to(k as nat),
                two_to(e as nat) <= m < 2 * two_to(e as nat),
            decreases 23 - k,
        {
            proof {
                lemma_two_to_grows(k as nat, 22);
                assert(two_to(22) == 0x40_0000) by {
                    reveal_with_fuel(two_to, 23);
                }
                assert(two_to((k + 1 - e) as nat) == 2 * two_to((k - e) as nat));
                assert(m * two_to((k + 1 - e) as nat) == 2 * (m * two_to((k - e) as nat))) by (nonlinear_arith)
                    requires
                        two_to((k + 1 - e) as nat) == 2 * two_to((k - e) as nat),
                ;
            }
            q = q * 2;
            k = k + 1;
        }
        ex = e;
        proof {
            assert(two_to(23) == 0x80_0000) by {
                reveal_with_fuel(two_to, 24);
            }
        }
    } else {
        let s: u64 = e - 23;
        proof {
            lemma_two_to_adds(s as nat, 23);
            assert(two_to(23) == 0x80_0000) by {
                reveal_with_fuel(two_to, 24);
            }
            assert(two_to(24) == 0x100_0000) by {
                reveal_with_fuel(two_to, 25);
            }
            lemma_two_to_adds(s as nat, 24);
        }
        let d: u64 = p / 0x80_0000;
        proof {
            assert(d == two_to(s as nat)) by (nonlinear_arith)
                requires
                    p == two_to(s as nat) * 0x80_0000,
                    d == p / 0x80_0000,
            ;
            assert(two_to(s as nat) * 0x80_0000 <= m < two_to(s as nat) * 0x100_0000);
            assert(0x80_0000 <= m / d < 0x100_0000) by (nonlinear_arith)
                requires
                    d * 0x80_0000 <= m < d * 0x100_0000,
                    d > 0,
            ;
            assert(d >= 2) by {
                lemma_two_to_grows(1, s as nat);
            }
        }
        let q0 = m / d;
        let r = m % d;
        let q1 = if 2 * (r as u128) > d as u128 || (2 * (r as u128) == d as u128 && q0 % 2 == 1) {
            q0 + 1
        } else {
            q0
        };
        assert(q1 == round_shift(m as nat, s as nat));
        if q1 == 0x100_0000 {
            q = 0x80_0000;
            ex = e + 1;
        } else {
            q = q1;
            ex = e;
        }
    }
    assert(q == parts.0 && ex == parts.1);
    let sign: u32 = if negative { 0x8000_0000 } else { 0 };
    let exp_bits: u32 = ((ex + 127) as u32) * 0x80_0000;
    let frac: u32 = (q - 0x80_0000) as u32;
    sign + exp_bits + frac
}

/// The integer that converting the single-precision float with bit pattern `bits`
/// to `i32` gives: its value truncated toward zero, saturated at the bounds of
/// `i32`; 0 for NaN.
pub open spec fn i32_of_f32(bits: u32) -> i32 {
    let e = (bits / 0x80_0000) % 0x100;
    let frac = bits % 0x80_0000;
    let negative = bits >= 0x8000_0000;
    if e == 255 && frac != 0 {
        0
    } else {
        let mag: int = if e == 255 {
            0x8000_0000
        } else if e < 127 {
            0
        } else if e >= 150 {
            (frac + 0x80_0000) * two_to((e - 150) as nat)
        } else {
            (frac + 0x80_0000) / two_to((150 - e) as nat) as int
        };
        if negative {
            if mag >= 0x8000_0000 { i32::MIN } else { (-mag) as i32 }
        } else {
            if mag > i32::MAX { i32::MAX } else { mag as i32 }
        }
    }
}

proof fn lemma_top_bit_bounds(m: nat)
    requires
        m >= 1,
    ensures
        two_to(top_bit(m)) <= m < 2 * two_to(top_bit(m)),
    decreases m,
{
    if m >= 2 {
        lemma_top_bit_bounds(m / 2);
    }
}

proof fn lemma_bit_fields(bits: int, sign: int, x: int, f: int)
    requires
        bits == sign + x * 0x80_0000 + f,
        0 <= f < 0x80_0000,
        0 <= x < 0x100,
        sign == 0 || sign == 0x8000_0000,
    ensures
        (bits / 0x80_0000) % 0x100 == x,
        bits % 0x80_0000 == f,
        (bits >= 0x8000_0000) == (sign != 0),
        0 <= bits < 0x1_0000_0000,
{
    let hi: int = if sign == 0 { 0 } else { 0x100 };
    assert(bits == (hi + x) * 0x80_0000 + f);
    vstd::arithmetic::div_mod::lemma_fundamental_div_mod_converse(bits, 0x80_0000, hi + x, f);
    vstd::arithmetic::div_mod::lemma_fundamental_div_mod_converse(hi + x, 0x100, hi / 0x100, x);
}

proof fn lemma_round_trip_below(v: int, m: nat, e: nat)
    requires
        v != 0,
        m == (if v < 0 { -v } else { v }),
        e == top_bit(m),
        e <= 23,
        two_to(e) <= m < 2 * two_to(e),
        two_to(23) == 0x80_0000,
    ensures
        i32_of_f32(f32_bits_of(v)) == v,
{
    let k = (23 - e) as nat;
    lemma_two_to_adds(e, k);
    let s = m * two_to(k);
    assert(f32_parts(m) == (s, e));
    assert(0x80_0000 <= s < 0x100_0000) by (nonlinear_arith)
        requires
            two_to(e) <= m < 2 * two_to(e),
            two_to(e) * two_to(k) == 0x80_0000,
            s == m * two_to(k),
    ;
    let sign: int = if v < 0 { 0x8000_0000 } else { 0 };
    let bits_i: int = sign + (e + 127) * 0x80_0000 + (s - 0x80_0000);
    lemma_bit_fields(bits_i, sign, (e + 127) as int, s - 0x80_0000);
    let bits = f32_bits_of(v);
    assert(bits == bits_i);
    if e == 23 {
        assert(two_to(k) == 1);
        assert(s == m) by (nonlinear_arith)
            requires
                s == m * two_to(k),
                two_to(k) == 1,
        ;
        assert((s - 0x80_0000 + 0x80_0000) * two_to((e + 127 - 150) as nat) == m);
    } else {
        assert(two_to(k) > 0) by {
            lemma_two_to_grows(0, k);
        }
        assert(s / two_to(k) == m) by (nonlinear_arith)
            requires
                s == m * two_to(k),
                two_to(k) > 0,
        ;
        assert(150 - (e + 127) == k);
    }
}

/// Every integer of magnitude at most 2^24 is exactly representable as a
/// single-precision float, so converting it to a float and that float back to
/// `i32` gives the integer back.
pub proof fn lemma_int_float_round_trip(v: int)
    requires
        -0x100_0000 <= v <= 0x100_0000,
    ensures
        i32_of_f32(f32_bits_of(v)) == v,
{
    if v != 0 {
        let m: nat = (if v < 0 { -v } else { v }) as nat;
        let e = top_bit(m);
        lemma_top_bit_bounds(m);
        assert(two_to(23) == 0x80_0000) by {
            reveal_with_fuel(two_to, 24);
        }
        assert(two_to(24) == 0x100_0000) by {
            reveal_with_fuel(two_to, 25);
        }
        if e > 24 {
            lemma_two_to_grows(25, e);
            assert(two_to(25) == 2 * two_to(24));
        }
        if e <= 23 {
            lemma_round_trip_below(v, m, e);
        } else {
            assert(m == 0x100_0000);
            assert(two_to(1) == 2);
            assert(round_shift(m, 1) == 0x80_0000);
            assert(f32_parts(m) == (0x80_0000nat, 24nat));
            let sign: int = if v < 0 { 0x8000_0000 } else { 0 };
            lemma_bit_fields(sign + 151 * 0x80_0000, sign, 151, 0);
            assert(f32_bits_of(v) == sign + 151 * 0x80_0000);
        }
    }
}

/// The single-precision float with bit pattern `bits`, converted to `i32` as
/// `f32 as i32` does.
pub fn i32_of_f32_bits(bits: u32) -> (r: i32)
    ensures
        r == i32_of_f32(bits),
{
    let e: u32 = (bits / 0x80_0000) % 0x100;
    let frac: u32 = bits % 0x80_0000;
    let negative = bits >= 0x8000_0000;
    if e == 255 && frac != 0 {
        return 0;
    }
    let sig: u64 = (frac as u64) + 0x80_0000;
    let mut mag: u64 = 0;
    let mut saturated = false;
    if e == 255 || e >= 158 {
        saturated = true;
        proof {
            if e != 255 {
                lemma_two_to_grows(8, (e - 150) as nat);
                assert(two_to(8) == 256) by {
                    reveal_with_fuel(two_to, 9);
                }
                assert(sig * two_to((e - 150) as nat) >= 0x80_0000 * 256) by (nonlinear_arith)
                    requires
                        sig >= 0x80_0000,
                        two_to((e - 150) as nat) >= 256,
                ;
            }
        }
    } else if e >= 127 {
        let mut p: u64 = 1;
        let mut k: u32 = 0;
        if e >= 150 {
            while k < e - 150
                invariant
                    e >= 150,
                    e < 158,
                    k <= e - 150,
                    p == two_to(k as nat),
                    p <= 128,
                decreases e - 150 - k,
            {
                proof {
                    lemma_two_to_grows((k + 1) as nat, 7);
                    assert(two_to(7) == 128) by {
                        reveal_with_fuel(two_to, 8);
                    }
                }
                p = p * 2;
                k = k + 1;
            }
            proof {
                assert(sig * p < 0x100_0000 * 128) by (nonlinear_arith)
                    requires
                        sig < 0x100_0000,
                        p <= 128,
                ;
            }
            mag = sig * p;
        } else {
            while k < 150 - e
                invariant
                    e >= 127,
                    e < 150,
                    k <= 150 - e,
                    p == two_to(k as nat),
                    p <= 0x80_0000,
                decreases 150 - e - k,
            {
                proof {
                    lemma_two_to_grows((k + 1) as nat, 23);
                    assert(two_to(23) == 0x80_0000) by {
                        reveal_with_fuel(two_to, 24);
                    }
                }
                p = p * 2;
                k = k + 1;
            }
            proof {
                assert(p > 0) by {
                    lemma_two_to_grows(0, k as nat);
                }
                assert(sig / p <= sig) by (nonlinear_arith)
                    requires
                        p > 0,
                ;
            }
            mag = sig / p;
        }
    }
    if negative {
        if saturated || mag >= 0x8000_0000 {
            i32::MIN
        } else {
            -(mag as i32)
        }
    } else {
        if saturated || mag > 0x7fff_ffff {
            i32::MAX
        } else {
            mag as i32
        }
    }
}

} // verus!
