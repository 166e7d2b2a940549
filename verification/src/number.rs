//! Script numbers, held by their bit patterns.
//!
//! A script number is a double; the toolkit works with single precision. Both encodings of a value
//! travel together, and this module answers the questions the rules ask of them: whether a value is
//! finite, whole, negative, how it compares, what it truncates to. A value is stated as an integer
//! multiple of the smallest positive one of its encoding.
use vstd::arithmetic::power2::*;
use vstd::prelude::*;

verus! {

/// A script number: the bits of the double, and the bits of the single it converts to.
#[derive(Clone, Copy, PartialEq, Eq, Structural, Debug)]
pub struct Number {
    pub wide: u64,
    pub narrow: u32,
}

/// The magnitude that an exponent field and a fraction field stand for, in units of the smallest
/// positive value; `hidden` is the weight of the leading bit that normal values leave out.
pub open spec fn scaled(exponent: nat, fraction: nat, hidden: nat) -> nat {
    if exponent == 0 {
        fraction
    } else {
        (hidden + fraction) * pow2((exponent - 1) as nat)
    }
}

/// The exponent field of a double.
pub open spec fn wide_exponent(bits: u64) -> u64 {
    (bits / 0x10_0000_0000_0000) % 2048
}

/// The fraction field of a double.
pub open spec fn wide_fraction(bits: u64) -> u64 {
    bits % 0x10_0000_0000_0000
}

/// The magnitude of a double, in units of two to the minus 1074th.
pub open spec fn wide_size(bits: u64) -> nat {
    scaled(wide_exponent(bits) as nat, wide_fraction(bits) as nat, 0x10_0000_0000_0000)
}

/// Whether a double is neither infinite nor not a number.
pub open spec fn wide_finite(bits: u64) -> bool {
    wide_exponent(bits) < 2047
}

/// A finite double, in units of two to the minus 1074th.
pub open spec fn wide_value(bits: u64) -> int {
    if bits < 0x8000_0000_0000_0000 {
        wide_size(bits) as int
    } else {
        -wide_size(bits)
    }
}

/// The exponent field of a single.
pub open spec fn narrow_exponent(bits: u32) -> u32 {
    (bits / 0x80_0000) % 256
}

/// The fraction field of a single.
pub open spec fn narrow_fraction(bits: u32) -> u32 {
    bits % 0x80_0000
}

/// The magnitude of a single, in units of two to the minus 149th. An infinite one counts as the
/// next value after the largest finite one would.
pub open spec fn narrow_size(bits: u32) -> nat {
    scaled(narrow_exponent(bits) as nat, narrow_fraction(bits) as nat, 0x80_0000)
}

/// Whether a single is neither infinite nor not a number.
pub open spec fn narrow_finite(bits: u32) -> bool {
    narrow_exponent(bits) < 255
}

/// Whether a single is not a number.
pub open spec fn narrow_nan(bits: u32) -> bool {
    narrow_exponent(bits) == 255 && narrow_fraction(bits) != 0
}

/// A single, in units of two to the minus 149th.
pub open spec fn narrow_value(bits: u32) -> int {
    if bits < 0x8000_0000 {
        narrow_size(bits) as int
    } else {
        -narrow_size(bits)
    }
}

/// Whether a finite single has no fractional part.
pub open spec fn narrow_whole(bits: u32) -> bool {
    narrow_finite(bits) && narrow_value(bits) % (pow2(149) as int) == 0
}

/// What a single becomes as an unsigned 32-bit integer: the fractional part is dropped, what lies
/// outside the range is moved to its edge, and what is not a number becomes zero.
pub open spec fn narrow_to_u32(bits: u32) -> u32 {
    if narrow_nan(bits) || bits >= 0x8000_0000 {
        0
    } else if narrow_size(bits) / pow2(149) <= u32::MAX {
        (narrow_size(bits) / pow2(149)) as u32
    } else {
        u32::MAX
    }
}

/// The template parameter that a number stands for: a finite one from 0 up to 65535, its fractional
/// part dropped.
pub open spec fn wide_to_slot(bits: u64) -> Option<u16> {
    if wide_finite(bits) && 0 <= wide_value(bits) <= 65535 * pow2(1074) {
        Some((wide_size(bits) / pow2(1074)) as u16)
    } else {
        None
    }
}

/// What a finite double that is not negative becomes as an index: the fractional part is dropped,
/// and what lies above the range is moved to its edge.
pub open spec fn wide_to_index(bits: u64) -> usize {
    if wide_size(bits) / pow2(1074) <= usize::MAX {
        (wide_size(bits) / pow2(1074)) as usize
    } else {
        usize::MAX
    }
}

/// Two to the `n`th.
pub fn power(n: u32) -> (r: u64)
    requires
        n < 64,
    ensures
        r == pow2(n as nat),
    decreases n,
{
    proof {
        lemma2_to64();
        lemma2_to64_rest();
        if n > 0 {
            lemma_pow2_unfold(n as nat);
            if n < 63 {
                lemma_pow2_strictly_increases(n as nat, 63);
            }
        }
    }
    if n == 0 {
        1
    } else {
        2 * power(n - 1)
    }
}

/// Dropping `unit` binary places of a value that was moved up by `up` of them drops the rest.
proof fn lemma_shifted(m: nat, up: nat, unit: nat)
    requires
        up <= unit,
    ensures
        (m * pow2(up)) / pow2(unit) == m / pow2((unit - up) as nat),
        ((m * pow2(up)) % pow2(unit) == 0) == (m % pow2((unit - up) as nat) == 0),
{
    let b = pow2(up) as int;
    let c = pow2((unit - up) as nat) as int;
    lemma_pow2_pos(up);
    lemma_pow2_pos((unit - up) as nat);
    lemma_pow2_adds(up, (unit - up) as nat);
    assert(pow2(unit) == b * c);
    let q = m as int / c;
    let r = m as int % c;
    assert(m == q * c + r) by {
        vstd::arithmetic::div_mod::lemma_fundamental_div_mod(m as int, c);
        assert(q * c == c * q) by (nonlinear_arith);
    }
    assert(m * b == q * (b * c) + b * r) by (nonlinear_arith)
        requires
            m == q * c + r,
    ;
    assert(0 <= b * r < b * c) by (nonlinear_arith)
        requires
            0 <= r < c,
            b > 0,
    ;
    vstd::arithmetic::div_mod::lemma_fundamental_div_mod_converse(m * b, b * c, q, b * r);
    assert((b * r == 0) == (r == 0)) by (nonlinear_arith)
        requires
            b > 0,
    ;
}

/// A larger exponent field gives a larger magnitude, whatever the fractions; with equal exponent
/// fields the fractions decide.
proof fn lemma_scaled_order(ea: nat, fa: nat, eb: nat, fb: nat, hidden: nat)
    requires
        fa < hidden,
        fb < hidden,
    ensures
        ea < eb ==> scaled(ea, fa, hidden) < scaled(eb, fb, hidden),
        ea == eb ==> (fa < fb) == (scaled(ea, fa, hidden) < scaled(eb, fb, hidden)),
{
    if ea < eb {
        let pb = pow2((eb - 1) as nat);
        lemma_pow2_pos((eb - 1) as nat);
        if ea == 0 {
            assert(hidden + fb <= (hidden + fb) * pb) by (nonlinear_arith)
                requires
                    pb > 0,
            ;
        } else {
            let pa = pow2((ea - 1) as nat);
            lemma_pow2_pos((ea - 1) as nat);
            lemma_pow2_unfold(ea);
            if ea < eb - 1 {
                lemma_pow2_strictly_increases(ea, (eb - 1) as nat);
            }
            assert(2 * pa <= pb);
            assert((hidden + fa) * pa < (hidden + fb) * pb) by (nonlinear_arith)
                requires
                    fa < hidden,
                    2 * pa <= pb,
                    pa > 0,
            ;
        }
    }
    if ea == eb && ea > 0 {
        let p = pow2((ea - 1) as nat);
        lemma_pow2_pos((ea - 1) as nat);
        assert((fa < fb) == ((hidden + fa) * p < (hidden + fb) * p)) by (nonlinear_arith)
            requires
                p > 0,
        ;
    }
}

/// Magnitudes of singles are ordered as their bits without the sign.
proof fn lemma_narrow_order(a: u32, b: u32)
    ensures
        (a % 0x8000_0000 < b % 0x8000_0000) == (narrow_size(a) < narrow_size(b)),
{
    lemma_scaled_order(
        narrow_exponent(a) as nat,
        narrow_fraction(a) as nat,
        narrow_exponent(b) as nat,
        narrow_fraction(b) as nat,
        0x80_0000,
    );
    lemma_scaled_order(
        narrow_exponent(b) as nat,
        narrow_fraction(b) as nat,
        narrow_exponent(a) as nat,
        narrow_fraction(a) as nat,
        0x80_0000,
    );
    assert(a % 0x8000_0000 == narrow_exponent(a) * 0x80_0000 + narrow_fraction(a));
    assert(b % 0x8000_0000 == narrow_exponent(b) * 0x80_0000 + narrow_fraction(b));
}

/// Magnitudes of doubles are ordered as their bits without the sign.
proof fn lemma_wide_order(a: u64, b: u64)
    ensures
        (a % 0x8000_0000_0000_0000 < b % 0x8000_0000_0000_0000) == (wide_size(a) < wide_size(b)),
{
    lemma_scaled_order(
        wide_exponent(a) as nat,
        wide_fraction(a) as nat,
        wide_exponent(b) as nat,
        wide_fraction(b) as nat,
        0x10_0000_0000_0000,
    );
    lemma_scaled_order(
        wide_exponent(b) as nat,
        wide_fraction(b) as nat,
        wide_exponent(a) as nat,
        wide_fraction(a) as nat,
        0x10_0000_0000_0000,
    );
    assert(a % 0x8000_0000_0000_0000 == wide_exponent(a) * 0x10_0000_0000_0000 + wide_fraction(a));
    assert(b % 0x8000_0000_0000_0000 == wide_exponent(b) * 0x10_0000_0000_0000 + wide_fraction(b));
}

/// The single for two to the `n`th, as a magnitude.
proof fn lemma_narrow_power(bits: u32, n: nat)
    requires
        bits == (127 + n) * 0x80_0000,
        n <= 64,
    ensures
        narrow_size(bits) == pow2((149 + n) as nat),
        narrow_fraction(bits) == 0,
        narrow_exponent(bits) == 127 + n,
{
    lemma2_to64();
    lemma_pow2_adds(23, (126 + n) as nat);
}

impl Number {
    /// Whether the number is neither infinite nor not a number.
    pub fn is_finite(self) -> (r: bool)
        ensures
            r == wide_finite(self.wide),
    {
        (self.wide / 0x10_0000_0000_0000) % 2048 < 2047
    }

    /// Whether the number is finite and not below zero. Minus zero is not below zero.
    pub fn is_extent(self) -> (r: bool)
        ensures
            r == (wide_finite(self.wide) && wide_value(self.wide) >= 0),
    {
        proof {
            lemma_wide_order(0, self.wide);
        }
        self.is_finite() && (self.wide < 0x8000_0000_0000_0000 || self.wide
            % 0x8000_0000_0000_0000 == 0)
    }

    /// The template parameter that the number stands for.
    pub fn slot(self) -> (r: Option<u16>)
        ensures
            r == wide_to_slot(self.wide),
    {
        let bits: u64 = self.wide;
        let magnitude: u64 = bits % 0x8000_0000_0000_0000;
        proof {
            let limit: u64 = 0x40EF_FFE0_0000_0000;
            lemma_wide_order(0, bits);
            lemma_wide_order(limit, bits);
            assert(wide_exponent(limit) == 1038);
            assert(wide_fraction(limit) == 0xF_FFE0_0000_0000);
            lemma2_to64();
            lemma2_to64_rest();
            lemma_pow2_adds(37, 1037);
            assert(65535 * pow2(37) == 0x1F_FFE0_0000_0000);
            assert(wide_size(limit) == 65535 * pow2(1074)) by (nonlinear_arith)
                requires
                    wide_size(limit) == 0x1F_FFE0_0000_0000 * pow2(1037),
                    65535 * pow2(37) == 0x1F_FFE0_0000_0000,
                    pow2(1074) == pow2(37) * pow2(1037),
            ;
        }
        if magnitude == 0 {
            assert(wide_size(bits) == 0);
            proof {
                lemma_zero_slot();
            }
            return Some(0);
        }
        if bits >= 0x8000_0000_0000_0000 || magnitude > 0x40EF_FFE0_0000_0000 {
            return None;
        }
        let exponent: u64 = (bits / 0x10_0000_0000_0000) % 2048;
        let fraction: u64 = bits % 0x10_0000_0000_0000;
        assert(wide_size(bits) <= 65535 * pow2(1074));
        if exponent < 1023 {
            proof {
                let one: u64 = 0x3FF0_0000_0000_0000;
                lemma_wide_order(bits, one);
                lemma2_to64();
                lemma2_to64_rest();
                lemma_pow2_adds(52, 1022);
                assert(wide_size(one) == pow2(1074));
                vstd::arithmetic::div_mod::lemma_basic_div(wide_size(bits) as int, pow2(1074) as int);
            }
            return Some(0);
        }
        let m: u64 = 0x10_0000_0000_0000 + fraction;
        let shift: u32 = (1075 - exponent) as u32;
        proof {
            lemma_shifted(m as nat, (exponent - 1) as nat, 1074);
            lemma_pow2_pos(shift as nat);
            lemma_pow2_pos(1074);
        }
        let unit: u64 = power(shift);
        let whole: u64 = m / unit;
        proof {
            assert(whole == wide_size(bits) / pow2(1074));
            let p = pow2(1074) as int;
            let s = wide_size(bits) as int;
            vstd::arithmetic::div_mod::lemma_div_is_ordered(s, 65535 * p, p);
            vstd::arithmetic::div_mod::lemma_div_multiples_vanish(65535, p);
            assert(65535 * p == p * 65535);
        }
        Some(whole as u16)
    }

    /// The number as an index; it is to be finite and not negative.
    pub fn to_index(self) -> (r: usize)
        requires
            wide_finite(self.wide),
            wide_value(self.wide) >= 0,
        ensures
            r == wide_to_index(self.wide),
    {
        let bits: u64 = self.wide;
        let exponent: u64 = (bits / 0x10_0000_0000_0000) % 2048;
        let fraction: u64 = bits % 0x10_0000_0000_0000;
        proof {
            lemma2_to64();
            lemma2_to64_rest();
            lemma_pow2_pos(1074);
        }
        if exponent < 1023 {
            proof {
                let one: u64 = 0x3FF0_0000_0000_0000;
                lemma_wide_order(bits, one);
                lemma_pow2_adds(52, 1022);
                assert(wide_exponent(one) == 1023);
                assert(wide_fraction(one) == 0);
                assert(wide_size(one) == pow2(1074));
                vstd::arithmetic::div_mod::lemma_basic_div(wide_size(bits) as int, pow2(1074) as int);
            }
            return 0;
        }
        let m: u64 = 0x10_0000_0000_0000 + fraction;
        let whole: u64 = if exponent <= 1075 {
            let shift: u32 = (1075 - exponent) as u32;
            proof {
                lemma_shifted(m as nat, (exponent - 1) as nat, 1074);
                lemma_pow2_pos(shift as nat);
            }
            m / power(shift)
        } else {
            proof {
                let up = (exponent - 1075) as nat;
                let k = m * pow2(up);
                lemma_pow2_adds(1074, up);
                assert(wide_size(bits) == k * pow2(1074) + 0) by (nonlinear_arith)
                    requires
                        wide_size(bits) == m * pow2((1074 + up) as nat),
                        pow2((1074 + up) as nat) == pow2(1074) * pow2(up),
                        k == m * pow2(up),
                ;
                vstd::arithmetic::div_mod::lemma_fundamental_div_mod_converse(
                    wide_size(bits) as int,
                    pow2(1074) as int,
                    k,
                    0,
                );
                if exponent < 1087 {
                    if up < 11 {
                        lemma_pow2_strictly_increases(up, 11);
                    }
                    assert(k <= 0x1F_FFFF_FFFF_FFFF * 2048) by (nonlinear_arith)
                        requires
                            m <= 0x1F_FFFF_FFFF_FFFF,
                            pow2(up) <= 2048,
                            k == m * pow2(up),
                            pow2(up) >= 0,
                    ;
                } else {
                    if up > 12 {
                        lemma_pow2_strictly_increases(12, up);
                    }
                    assert(k >= 0x10_0000_0000_0000 * 4096) by (nonlinear_arith)
                        requires
                            m >= 0x10_0000_0000_0000,
                            pow2(up) >= 4096,
                            k == m * pow2(up),
                    ;
                }
            }
            if exponent >= 1087 {
                return usize::MAX;
            }
            let unit: u64 = power((exponent - 1075) as u32);
            m * unit
        };
        if whole <= usize::MAX as u64 {
            whole as usize
        } else {
            usize::MAX
        }
    }

    /// Whether the single is finite.
    pub fn narrow_is_finite(self) -> (r: bool)
        ensures
            r == narrow_finite(self.narrow),
    {
        (self.narrow / 0x80_0000) % 256 < 255
    }

    /// Whether the single is finite and has no fractional part.
    pub fn is_whole(self) -> (r: bool)
        ensures
            r == narrow_whole(self.narrow),
    {
        let bits: u32 = self.narrow;
        let exponent: u32 = (bits / 0x80_0000) % 256;
        let fraction: u32 = bits % 0x80_0000;
        let magnitude: u32 = bits % 0x8000_0000;
        proof {
            lemma_pow2_pos(149);
            lemma_negated_remainder(narrow_size(bits) as int, pow2(149) as int);
        }
        if exponent == 255 {
            return false;
        }
        if magnitude == 0 {
            proof {
                assert(narrow_size(bits) == 0);
                vstd::arithmetic::div_mod::lemma_small_mod(0, pow2(149));
            }
            return true;
        }
        if exponent < 127 {
            proof {
                lemma_narrow_power(0x3F80_0000, 0);
                lemma_narrow_order(bits, 0x3F80_0000);
                lemma_narrow_order(0, bits);
                vstd::arithmetic::div_mod::lemma_small_mod(narrow_size(bits), pow2(149));
            }
            return false;
        }
        let m: u64 = 0x80_0000 + fraction as u64;
        if exponent >= 150 {
            proof {
                let up = (exponent - 1) as nat;
                lemma_pow2_adds(149, (up - 149) as nat);
                let k = (m * pow2((up - 149) as nat)) as int;
                assert(narrow_size(bits) == k * pow2(149) + 0) by (nonlinear_arith)
                    requires
                        narrow_size(bits) == m * pow2(up),
                        pow2(up) == pow2(149) * pow2((up - 149) as nat),
                        k == m * pow2((up - 149) as nat),
                ;
                vstd::arithmetic::div_mod::lemma_fundamental_div_mod_converse(
                    narrow_size(bits) as int,
                    pow2(149) as int,
                    k,
                    0,
                );
            }
            return true;
        }
        let shift: u32 = 150 - exponent;
        proof {
            lemma_shifted(m as nat, (exponent - 1) as nat, 149);
            lemma_pow2_pos(shift as nat);
        }
        let unit: u64 = power(shift);
        m % unit == 0
    }

    /// Whether the single is not below that of `other`; neither is to be infinite or not a number.
    pub fn at_least(self, other: Number) -> (r: bool)
        requires
            narrow_finite(self.narrow),
            narrow_finite(other.narrow),
        ensures
            r == (narrow_value(self.narrow) >= narrow_value(other.narrow)),
    {
        let a: u32 = self.narrow;
        let b: u32 = other.narrow;
        let size_a: u32 = a % 0x8000_0000;
        let size_b: u32 = b % 0x8000_0000;
        proof {
            lemma_narrow_order(a, b);
            lemma_narrow_order(b, a);
            lemma_narrow_order(0, a);
            lemma_narrow_order(0, b);
        }
        if a < 0x8000_0000 && b < 0x8000_0000 {
            size_a >= size_b
        } else if a < 0x8000_0000 {
            true
        } else if b < 0x8000_0000 {
            size_a == 0 && size_b == 0
        } else {
            size_a <= size_b
        }
    }

    /// Whether the single is not below zero. What is not a number is not; infinity is.
    pub fn not_below_zero(self) -> (r: bool)
        ensures
            r == (!narrow_nan(self.narrow) && narrow_value(self.narrow) >= 0),
    {
        let bits: u32 = self.narrow;
        proof {
            lemma_narrow_order(0, bits);
        }
        if (bits / 0x80_0000) % 256 == 255 && bits % 0x80_0000 != 0 {
            return false;
        }
        bits < 0x8000_0000 || bits % 0x8000_0000 == 0
    }

    /// Whether the single is at least one.
    pub fn at_least_one(self) -> (r: bool)
        requires
            narrow_finite(self.narrow),
        ensures
            r == (narrow_value(self.narrow) >= pow2(149)),
    {
        proof {
            lemma_pow2_pos(149);
            lemma_narrow_power(0x3F80_0000, 0);
            lemma_narrow_order(self.narrow, 0x3F80_0000);
        }
        self.narrow < 0x8000_0000 && self.narrow >= 0x3F80_0000
    }

    /// Whether the single is at most the single nearest to the largest index: two to the number of
    /// bits of an index.
    pub fn fits_index(self) -> (r: bool)
        requires
            narrow_finite(self.narrow),
        ensures
            r == (narrow_value(self.narrow) <= pow2((149 + usize::BITS) as nat)),
    {
        proof {
            lemma_pow2_pos((149 + usize::BITS) as nat);
            lemma_narrow_power(0x5F80_0000, 64);
            lemma_narrow_power(0x4F80_0000, 32);
            lemma_narrow_order(0x5F80_0000, self.narrow);
            lemma_narrow_order(0x4F80_0000, self.narrow);
        }
        let limit: u32 = if usize::BITS == 64 {
            0x5F80_0000
        } else {
            0x4F80_0000
        };
        self.narrow >= 0x8000_0000 || self.narrow <= limit
    }

    /// The single as an unsigned 32-bit integer.
    pub fn truncated(self) -> (r: u32)
        ensures
            r == narrow_to_u32(self.narrow),
    {
        let bits: u32 = self.narrow;
        let exponent: u32 = (bits / 0x80_0000) % 256;
        let fraction: u32 = bits % 0x80_0000;
        if bits >= 0x8000_0000 || (exponent == 255 && fraction != 0) {
            return 0;
        }
        proof {
            lemma_pow2_pos(149);
            lemma2_to64();
        }
        if exponent < 127 {
            proof {
                lemma_narrow_power(0x3F80_0000, 0);
                lemma_narrow_order(bits, 0x3F80_0000);
                vstd::arithmetic::div_mod::lemma_basic_div(
                    narrow_size(bits) as int,
                    pow2(149) as int,
                );
            }
            return 0;
        }
        let m: u64 = 0x80_0000 + fraction as u64;
        if exponent <= 150 {
            let shift: u32 = 150 - exponent;
            proof {
                lemma_shifted(m as nat, (exponent - 1) as nat, 149);
                lemma_pow2_pos(shift as nat);
            }
            let unit: u64 = power(shift);
            let whole: u64 = m / unit;
            proof {
                assert(whole <= m) by (nonlinear_arith)
                    requires
                        whole == m / unit,
                        unit > 0,
                ;
            }
            return whole as u32;
        }
        proof {
            let up = (exponent - 150) as nat;
            let k = m * pow2(up);
            lemma_pow2_adds(149, up);
            assert(narrow_size(bits) == k * pow2(149) + 0) by (nonlinear_arith)
                requires
                    narrow_size(bits) == m * pow2((149 + up) as nat),
                    pow2((149 + up) as nat) == pow2(149) * pow2(up),
                    k == m * pow2(up),
            ;
            vstd::arithmetic::div_mod::lemma_fundamental_div_mod_converse(
                narrow_size(bits) as int,
                pow2(149) as int,
                k,
                0,
            );
            if exponent < 159 {
                if up < 8 {
                    lemma_pow2_strictly_increases(up, 8);
                }
                assert(k < 0x100_0000 * 256) by (nonlinear_arith)
                    requires
                        m < 0x100_0000,
                        pow2(up) <= 256,
                        k == m * pow2(up),
                        pow2(up) >= 0,
                ;
            } else {
                if up > 9 {
                    lemma_pow2_strictly_increases(9, up);
                }
                assert(k >= 0x80_0000 * 512) by (nonlinear_arith)
                    requires
                        m >= 0x80_0000,
                        pow2(up) >= 512,
                        k == m * pow2(up),
                ;
            }
        }
        if exponent < 159 {
            let unit: u64 = power(exponent - 150);
            proof {
                if exponent - 150 < 8 {
                    lemma_pow2_strictly_increases((exponent - 150) as nat, 8);
                }
                assert(m * unit < 0x1_0000_0000) by (nonlinear_arith)
                    requires
                        m < 0x100_0000,
                        unit <= 256,
                ;
            }
            (m * unit) as u32
        } else {
            u32::MAX
        }
    }
}

proof fn lemma_zero_slot()
    ensures
        0nat / pow2(1074) == 0,
        0 <= 65535 * pow2(1074),
{
    lemma_pow2_pos(1074);
    vstd::arithmetic::div_mod::lemma_basic_div(0, pow2(1074) as int);
}

/// A value and its negation are multiples alike.
proof fn lemma_negated_remainder(x: int, d: int)
    requires
        d > 0,
    ensures
        ((-x) % d == 0) == (x % d == 0),
{
    let q = x / d;
    vstd::arithmetic::div_mod::lemma_fundamental_div_mod(x, d);
    vstd::arithmetic::div_mod::lemma_fundamental_div_mod(-x, d);
    if x % d == 0 {
        assert(-x == (-q) * d + 0) by (nonlinear_arith)
            requires
                x == d * q,
        ;
        vstd::arithmetic::div_mod::lemma_fundamental_div_mod_converse(-x, d, -q, 0);
    }
    if (-x) % d == 0 {
        let p = (-x) / d;
        assert(x == (-p) * d + 0) by (nonlinear_arith)
            requires
                -x == d * p,
        ;
        vstd::arithmetic::div_mod::lemma_fundamental_div_mod_converse(x, d, -p, 0);
    }
}

/// A double is finite where its bits without the sign lie below those of infinity; it is moreover
/// not below zero where it has no sign or is minus zero.
pub proof fn law_extents_are_read_off_their_bits(bits: u64)
    ensures
        wide_finite(bits) <==> bits % 0x8000_0000_0000_0000 < 0x7FF0_0000_0000_0000,
        wide_finite(bits) && wide_value(bits) >= 0 <==> bits < 0x7FF0_0000_0000_0000 || bits
            == 0x8000_0000_0000_0000,
{
    lemma_wide_order(0, bits);
    assert(bits % 0x8000_0000_0000_0000 == wide_exponent(bits) * 0x10_0000_0000_0000
        + wide_fraction(bits));
}

/// A single is finite where its bits without the sign lie below those of infinity, and not a number
/// where they lie above; it is not below zero where it has no sign or is minus zero.
pub proof fn law_singles_are_read_off_their_bits(bits: u32)
    ensures
        narrow_finite(bits) <==> bits % 0x8000_0000 < 0x7F80_0000,
        narrow_nan(bits) <==> bits % 0x8000_0000 > 0x7F80_0000,
        narrow_value(bits) >= 0 <==> bits <= 0x8000_0000,
{
    lemma_narrow_order(0, bits);
    assert(bits % 0x8000_0000 == narrow_exponent(bits) * 0x80_0000 + narrow_fraction(bits));
}

/// Numbers are ordered as their bits are while neither has a sign; the sign turns a value into its
/// opposite; and the value of one is the unit that whole numbers are counted in.
pub proof fn law_values_are_ordered_as_their_bits(a: u64, b: u64, c: u32, d: u32)
    requires
        a < b < 0x8000_0000_0000_0000,
        c < d < 0x8000_0000,
    ensures
        wide_value(a) < wide_value(b),
        wide_value((a + 0x8000_0000_0000_0000) as u64) == -wide_value(a),
        wide_value(0) == 0,
        wide_value(0x3FF0_0000_0000_0000) == pow2(1074),
        wide_value(0x4000_0000_0000_0000) == 2 * pow2(1074),
        narrow_value(c) < narrow_value(d),
        narrow_value((c + 0x8000_0000) as u32) == -narrow_value(c),
        narrow_value(0) == 0,
        narrow_value(0x3F80_0000) == pow2(149),
        narrow_value(0x4000_0000) == 2 * pow2(149),
{
    lemma_wide_order(a, b);
    lemma_narrow_order(c, d);
    let negative = (a + 0x8000_0000_0000_0000) as u64;
    assert(wide_exponent(negative) == wide_exponent(a));
    assert(wide_fraction(negative) == wide_fraction(a));
    let below = (c + 0x8000_0000) as u32;
    assert(narrow_exponent(below) == narrow_exponent(c));
    assert(narrow_fraction(below) == narrow_fraction(c));
    lemma2_to64();
    lemma2_to64_rest();
    lemma_pow2_adds(52, 1022);
    lemma_pow2_adds(52, 1023);
    lemma_pow2_unfold(1075);
    assert(wide_exponent(0x3FF0_0000_0000_0000) == 1023);
    assert(wide_exponent(0x4000_0000_0000_0000) == 1024);
    assert(wide_fraction(0x3FF0_0000_0000_0000) == 0);
    assert(wide_fraction(0x4000_0000_0000_0000) == 0);
    lemma_narrow_power(0x3F80_0000, 0);
    lemma_narrow_power(0x4000_0000, 1);
    lemma_pow2_unfold(150);
}

/// A template parameter is the whole part of its number, and every number from 0 up to 65535 is
/// one.
pub proof fn law_a_parameter_is_the_whole_part(bits: u64)
    ensures
        match wide_to_slot(bits) {
            Some(slot) => wide_finite(bits) && slot * pow2(1074) <= wide_value(bits) < (slot + 1)
                * pow2(1074),
            None => !wide_finite(bits) || wide_value(bits) < 0 || wide_value(bits) > 65535 * pow2(
                1074,
            ),
        },
{
    let p = pow2(1074) as int;
    let s = wide_size(bits) as int;
    lemma_pow2_pos(1074);
    lemma_wide_order(0, bits);
    vstd::arithmetic::div_mod::lemma_fundamental_div_mod(s, p);
    let q = s / p;
    let rest = s % p;
    assert(q * p == p * q) by (nonlinear_arith);
    assert((q + 1) * p == p * q + p) by (nonlinear_arith);
    if wide_to_slot(bits) is Some {
        vstd::arithmetic::div_mod::lemma_div_is_ordered(s, 65535 * p, p);
        vstd::arithmetic::div_mod::lemma_div_multiples_vanish(65535, p);
        assert(65535 * p == p * 65535);
        assert(0 <= q) by (nonlinear_arith)
            requires
                s >= 0,
                p > 0,
                q == s / p,
        ;
        assert(wide_to_slot(bits)->Some_0 == q);
    }
}

/// An index is the whole part of its number, and the largest one where that lies beyond all
/// indices.
pub proof fn law_an_index_is_the_whole_part(bits: u64)
    requires
        wide_finite(bits),
        wide_value(bits) >= 0,
    ensures
        wide_to_index(bits) * pow2(1074) <= wide_value(bits),
        wide_to_index(bits) < usize::MAX ==> wide_value(bits) < (wide_to_index(bits) + 1) * pow2(
            1074,
        ),
{
    let p = pow2(1074) as int;
    let s = wide_size(bits) as int;
    lemma_pow2_pos(1074);
    lemma_wide_order(0, bits);
    vstd::arithmetic::div_mod::lemma_fundamental_div_mod(s, p);
    let q = s / p;
    assert(q * p == p * q) by (nonlinear_arith);
    assert((q + 1) * p == p * q + p) by (nonlinear_arith);
    assert(0 <= q) by (nonlinear_arith)
        requires
            s >= 0,
            p > 0,
            q == s / p,
    ;
    if q > usize::MAX {
        let top = usize::MAX as int;
        assert(top * p <= q * p) by (nonlinear_arith)
            requires
                top <= q,
                p > 0,
        ;
    }
}

/// A single cut to an unsigned integer is its whole part, the nearest edge where that lies outside
/// the range, and zero where it is not a number.
pub proof fn law_a_cut_single_is_the_whole_part(bits: u32)
    ensures
        bits % 0x8000_0000 > 0x7F80_0000 ==> narrow_to_u32(bits) == 0,
        bits >= 0x8000_0000 ==> narrow_to_u32(bits) == 0,
        bits <= 0x7F80_0000 ==> narrow_to_u32(bits) * pow2(149) <= narrow_value(bits),
        bits <= 0x7F80_0000 && narrow_to_u32(bits) < u32::MAX ==> narrow_value(bits) < (
        narrow_to_u32(bits) + 1) * pow2(149),
{
    law_singles_are_read_off_their_bits(bits);
    let p = pow2(149) as int;
    let s = narrow_size(bits) as int;
    lemma_pow2_pos(149);
    vstd::arithmetic::div_mod::lemma_fundamental_div_mod(s, p);
    let q = s / p;
    assert(q * p == p * q) by (nonlinear_arith);
    assert((q + 1) * p == p * q + p) by (nonlinear_arith);
    assert(0 <= q) by (nonlinear_arith)
        requires
            s >= 0,
            p > 0,
            q == s / p,
    ;
    if q > u32::MAX {
        let top = u32::MAX as int;
        assert(top * p <= q * p) by (nonlinear_arith)
            requires
                top <= q,
                p > 0,
        ;
    }
}

/// A single is whole where it is a whole number of times the value of one.
pub proof fn law_a_whole_single_counts_ones(bits: u32, times: int)
    requires
        bits % 0x8000_0000 < 0x7F80_0000,
    ensures
        narrow_value(bits) == times * pow2(149) ==> narrow_whole(bits),
        narrow_whole(bits) ==> exists|count: int| narrow_value(bits) == #[trigger] (count * pow2(
            149,
        )),
{
    law_singles_are_read_off_their_bits(bits);
    let p = pow2(149) as int;
    let v = narrow_value(bits);
    lemma_pow2_pos(149);
    if v == times * p {
        vstd::arithmetic::div_mod::lemma_fundamental_div_mod_converse(v, p, times, 0);
    }
    if narrow_whole(bits) {
        vstd::arithmetic::div_mod::lemma_fundamental_div_mod(v, p);
        let count = v / p;
        assert(p * count == count * p) by (nonlinear_arith);
        assert(v == count * pow2(149));
    }
}

} // verus!
