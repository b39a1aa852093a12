use vstd::arithmetic::div_mod::{
    lemma_small_mod,
    lemma_div_is_ordered, lemma_div_multiples_vanish, lemma_fundamental_div_mod_converse,
};
use vstd::arithmetic::power2::{
    lemma2_to64, lemma2_to64_rest, lemma_pow2_adds, lemma_pow2_pos, lemma_pow2_strictly_increases,
    lemma_pow2_unfold, pow2,
};
use vstd::prelude::*;
use vstd::string::StringExecFns;

verus! {

/// A wire-format scalar value: a closed union over the seven kinds the
/// generated API exchanges. The `Float` and `Double` variants carry the
/// IEEE-754 bit pattern of the corresponding floating-point value as a
/// plain integer, so that every kind is held as an exact bit-level datum.
#[derive(Debug, Clone, PartialEq)]
pub enum WundergraphScalarValue {
    SmallInt(i16),
    Int(i32),
    BigInt(i64),
    Float(u32),
    Double(u64),
    String(String),
    Boolean(bool),
}

/// The 32-bit integer reading of a value: defined for the 16-bit and
/// 32-bit integer kinds only.
pub open spec fn spec_as_int(v: WundergraphScalarValue) -> Option<i32> {
    match v {
        WundergraphScalarValue::SmallInt(i) => Some(i as i32),
        WundergraphScalarValue::Int(i) => Some(i),
        _ => None,
    }
}

/// The string reading of a value: defined for the string kind only.
pub open spec fn spec_as_string(v: WundergraphScalarValue) -> Option<String> {
    match v {
        WundergraphScalarValue::String(s) => Some(s),
        _ => None,
    }
}

/// The boolean reading of a value: defined for the boolean kind only.
pub open spec fn spec_as_boolean(v: WundergraphScalarValue) -> Option<bool> {
    match v {
        WundergraphScalarValue::Boolean(b) => Some(b),
        _ => None,
    }
}

impl WundergraphScalarValue {
    /// Succeeds exactly on the 16-bit and 32-bit integer kinds, widening
    /// the former; never coerces the 64-bit, float, string or boolean kinds.
    pub fn as_int(&self) -> (r: Option<i32>)
        ensures
            r == spec_as_int(*self),
    {
        match *self {
            WundergraphScalarValue::SmallInt(i) => Some(i as i32),
            WundergraphScalarValue::Int(i) => Some(i),
            _ => None,
        }
    }

    /// Succeeds exactly on the string kind; never renders any other kind.
    pub fn as_string(&self) -> (r: Option<String>)
        ensures
            r == spec_as_string(*self),
    {
        match *self {
            WundergraphScalarValue::String(ref s) => Some(s.clone()),
            _ => None,
        }
    }

    /// Succeeds exactly on the boolean kind.
    pub fn as_boolean(&self) -> (r: Option<bool>)
        ensures
            r == spec_as_boolean(*self),
    {
        match *self {
            WundergraphScalarValue::Boolean(b) => Some(b),
            _ => None,
        }
    }

    /// A typed string source selects the string kind directly.
    pub fn from(s: &str) -> (r: Self)
        ensures
            r matches WundergraphScalarValue::String(t) && t@ == s@,
    {
        WundergraphScalarValue::String(String::from_str(s))
    }
}

/// Narrowest-fit classification of a signed 64-bit input: the smallest
/// signed integer kind that holds the value losslessly.
pub open spec fn spec_ingest_i64(v: int) -> WundergraphScalarValue
    recommends
        -0x8000_0000_0000_0000 <= v <= 0x7FFF_FFFF_FFFF_FFFF,
{
    if -0x8000 <= v <= 0x7FFF {
        WundergraphScalarValue::SmallInt(v as i16)
    } else if -0x8000_0000 <= v <= 0x7FFF_FFFF {
        WundergraphScalarValue::Int(v as i32)
    } else {
        WundergraphScalarValue::BigInt(v as i64)
    }
}

/// Narrowest-fit classification of an unsigned 64-bit input: within the
/// signed 64-bit range it follows the signed rule; beyond it, the value is
/// represented as a 64-bit float, accepting the documented precision loss.
pub open spec fn spec_ingest_u64(v: u64) -> WundergraphScalarValue {
    if v <= 0x7FFF_FFFF_FFFF_FFFF {
        spec_ingest_i64(v as int)
    } else {
        WundergraphScalarValue::Double(spec_double_bits_of_u64_val(v))
    }
}

/// The ingestion visitor: normalizes arbitrary-width wire input into
/// `WundergraphScalarValue` by the narrowest-fit rule.
#[derive(Default, Debug, Clone, Copy)]
pub struct WundergraphScalarVisitor;

impl WundergraphScalarVisitor {
    pub fn visit_bool(self, value: bool) -> (r: WundergraphScalarValue)
        ensures
            r == WundergraphScalarValue::Boolean(value),
    {
        WundergraphScalarValue::Boolean(value)
    }

    /// A 16-bit value is already the narrowest integer kind.
    pub fn visit_i16(self, value: i16) -> (r: WundergraphScalarValue)
        ensures
            r == spec_ingest_i64(value as int),
    {
        WundergraphScalarValue::SmallInt(value)
    }

    /// A 32-bit value that fits the 16-bit signed range is re-classified
    /// as 16-bit; otherwise it keeps the 32-bit kind.
    pub fn visit_i32(self, value: i32) -> (r: WundergraphScalarValue)
        ensures
            r == spec_ingest_i64(value as int),
    {
        if -0x8000 <= value && value <= 0x7FFF {
            self.visit_i16(value as i16)
        } else {
            WundergraphScalarValue::Int(value)
        }
    }

    /// A 64-bit value that fits the 32-bit signed range follows the
    /// 32-bit rule; otherwise it keeps the 64-bit kind.
    pub fn visit_i64(self, value: i64) -> (r: WundergraphScalarValue)
        ensures
            r == spec_ingest_i64(value as int),
    {
        if -0x8000_0000 <= value && value <= 0x7FFF_FFFF {
            self.visit_i32(value as i32)
        } else {
            WundergraphScalarValue::BigInt(value)
        }
    }

    pub fn visit_u32(self, value: u32) -> (r: WundergraphScalarValue)
        ensures
            r == spec_ingest_i64(value as int),
    {
        if value <= 0x7FFF_FFFF {
            self.visit_i32(value as i32)
        } else {
            self.visit_u64(value as u64)
        }
    }

    /// An unsigned value within the signed 64-bit range follows the signed
    /// rule; beyond it, the value lands in the 64-bit float kind rather
    /// than failing, since upstream wire encoders emit all integral-looking
    /// numbers as either integers or floats.
    pub fn visit_u64(self, value: u64) -> (r: WundergraphScalarValue)
        ensures
            r == spec_ingest_u64(value),
    {
        if value <= 0x7FFF_FFFF_FFFF_FFFF {
            self.visit_i64(value as i64)
        } else {
            WundergraphScalarValue::Double(double_bits_of_u64_val(value))
        }
    }

    /// A 32-bit float keeps its kind; the payload is its bit pattern.
    pub fn visit_f32_bits(self, bits: u32) -> (r: WundergraphScalarValue)
        ensures
            r == WundergraphScalarValue::Float(bits),
    {
        WundergraphScalarValue::Float(bits)
    }

    /// A 64-bit float keeps its kind; the payload is its bit pattern.
    pub fn visit_f64_bits(self, bits: u64) -> (r: WundergraphScalarValue)
        ensures
            r == WundergraphScalarValue::Double(bits),
    {
        WundergraphScalarValue::Double(bits)
    }

    pub fn visit_str(self, value: &str) -> (r: WundergraphScalarValue)
        ensures
            r matches WundergraphScalarValue::String(t) && t@ == value@,
    {
        self.visit_string(String::from_str(value))
    }

    pub fn visit_string(self, value: String) -> (r: WundergraphScalarValue)
        ensures
            r == WundergraphScalarValue::String(value),
    {
        WundergraphScalarValue::String(value)
    }
}

/// The position of the most significant set bit: the largest `e` with
/// `pow2(e) <= n`, and `0` for inputs below `2`.
pub open spec fn spec_log2(n: int) -> int
    decreases n,
{
    if n <= 1 {
        0
    } else {
        1 + spec_log2(n / 2)
    }
}

proof fn lemma_log2_identifies(v: int, e: nat)
    requires
        pow2(e) <= v < pow2(e + 1),
    ensures
        spec_log2(v) == e,
    decreases e,
{
    lemma_pow2_pos(e);
    if e == 0 {
        assert(pow2(1) == 2) by {
            lemma2_to64();
        }
        assert(v == 1);
    } else {
        lemma_pow2_unfold(e);
        lemma_pow2_unfold(e + 1);
        assert(v / 2 >= pow2((e - 1) as nat));
        assert(v / 2 < pow2(e));
        assert(v >= 2);
        lemma_log2_identifies(v / 2, (e - 1) as nat);
    }
}

fn pow2_u64(k: usize) -> (r: u64)
    requires
        k <= 63,
    ensures
        r as nat == pow2(k as nat),
{
    let mut p: u64 = 1;
    let mut i: usize = 0;
    proof {
        lemma2_to64();
    }
    while i < k
        invariant
            i <= k <= 63,
            p as nat == pow2(i as nat),
        decreases k - i,
    {
        proof {
            lemma_pow2_unfold((i + 1) as nat);
            lemma_pow2_strictly_increases(i as nat, 63);
            lemma2_to64_rest();
        }
        p = p * 2;
        i = i + 1;
    }
    p
}

/// The IEEE-754 double bit pattern of any unsigned 64-bit value, rounded
/// to nearest with ties to even: with `e` the most significant bit's
/// position, the biased exponent is `1023 + e` and the mantissa is the
/// value's next 52 bits - exact when `e <= 52`, rounded on the bits below
/// them otherwise, a carry out of the mantissa bumping the exponent.
pub open spec fn spec_double_bits_of_u64_val(v: u64) -> u64 {
    if v == 0 {
        0
    } else {
        let e = spec_log2(v as int);
        if e <= 52 {
            ((1022 + e) * 0x10_0000_0000_0000 + (v as int) * pow2((52 - e) as nat)) as u64
        } else {
            let s = (e - 52) as nat;
            let q = v as int / pow2(s) as int;
            let r = v as int % pow2(s) as int;
            let q2 = if 2 * r > pow2(s) || (2 * r == pow2(s) && q % 2 == 1) {
                q + 1
            } else {
                q
            };
            if q2 == 0x20_0000_0000_0000 {
                ((1024 + e) * 0x10_0000_0000_0000) as u64
            } else {
                ((1022 + e) * 0x10_0000_0000_0000 + q2) as u64
            }
        }
    }
}

#[verifier::rlimit(100)]
fn double_bits_of_u64_val(v: u64) -> (r: u64)
    ensures
        r == spec_double_bits_of_u64_val(v),
        r <= 0x43F0_0000_0000_0000,
{
    if v == 0 {
        return 0;
    }
    let mut e: usize = 0;
    let mut p: u64 = 1;
    proof {
        lemma2_to64();
    }
    while v / 2 >= p
        invariant
            v >= 1,
            e <= 63,
            p as nat == pow2(e as nat),
            p <= v,
        decreases 64 - e,
    {
        proof {
            assert(v >= 2 * p);
            if e >= 63 {
                lemma2_to64_rest();
                assert(false);
            }
            lemma_pow2_unfold((e + 1) as nat);
        }
        p = p * 2;
        e = e + 1;
    }
    proof {
        assert(v < 2 * p);
        lemma_pow2_unfold((e + 1) as nat);
        lemma_log2_identifies(v as int, e as nat);
        lemma2_to64_rest();
    }
    if e <= 52 {
        let m = pow2_u64(52 - e);
        proof {
            lemma_pow2_adds((e + 1) as nat, (52 - e) as nat);
            assert((v as int) * (m as int) < 0x20_0000_0000_0000) by (nonlinear_arith)
                requires
                    0 <= v as int,
                    (v as int) < pow2((e + 1) as nat),
                    0 <= m as int,
                    m as nat == pow2((52 - e) as nat),
                    pow2((e + 1) as nat) * pow2((52 - e) as nat) == 0x20_0000_0000_0000,
            ;
        }
        let frac = v * m;
        (1022 + e as u64) * 0x10_0000_0000_0000 + frac
    } else {
        let s = e - 52;
        let ps = pow2_u64(s);
        proof {
            lemma_pow2_pos(s as nat);
            lemma_pow2_adds(52, s as nat);
            lemma_pow2_adds(53, s as nat);
            lemma_pow2_strictly_increases(s as nat, 12);
            lemma2_to64();
        }
        let q = v / ps;
        let rm = v % ps;
        proof {
            lemma_div_multiples_vanish(pow2(52) as int, ps as int);
            lemma_div_is_ordered((ps as int) * (pow2(52) as int), v as int, ps as int);
            assert((ps as int) * (pow2(52) as int) == (pow2(52) as int) * (ps as int));
            lemma_fundamental_div_mod_converse(
                (pow2(53) as int) * (ps as int) - 1,
                ps as int,
                pow2(53) as int - 1,
                ps as int - 1,
            );
            lemma_div_is_ordered(v as int, (pow2(53) as int) * (ps as int) - 1, ps as int);
        }
        let q2: u64 = if 2 * rm > ps || (2 * rm == ps && q % 2 == 1) {
            q + 1
        } else {
            q
        };
        if q2 == 0x20_0000_0000_0000 {
            (1024 + e as u64) * 0x10_0000_0000_0000
        } else {
            (1022 + e as u64) * 0x10_0000_0000_0000 + q2
        }
    }
}

/// The IEEE-754 double bit pattern of a signed 64-bit value: the magnitude
/// encoded as above, with the sign bit set for a negative value.
pub open spec fn spec_double_bits_of_i64(v: int) -> u64
    recommends
        -0x8000_0000_0000_0000 <= v < 0x8000_0000_0000_0000,
{
    if v >= 0 {
        spec_double_bits_of_u64_val(v as u64)
    } else {
        (0x8000_0000_0000_0000 + spec_double_bits_of_u64_val((-v) as u64)) as u64
    }
}

fn double_bits_of_i64(v: i64) -> (r: u64)
    ensures
        r == spec_double_bits_of_i64(v as int),
{
    if v >= 0 {
        double_bits_of_u64_val(v as u64)
    } else {
        let mag: u64 = if v == i64::MIN {
            0x8000_0000_0000_0000
        } else {
            (-v) as u64
        };
        let bits = double_bits_of_u64_val(mag);
        0x8000_0000_0000_0000 + bits
    }
}

/// The exact 64-bit widening of a 32-bit float, on bit patterns: the sign
/// carries over, a normal exponent is re-biased from 127 to 1023, the
/// mantissa gains 29 trailing zero bits, a subnormal is normalized, and an
/// infinity or not-a-number keeps its payload left-aligned.
pub open spec fn spec_widen_f32_bits(b: u32) -> u64 {
    let sign: int = if b >= 0x8000_0000 {
        0x8000_0000_0000_0000
    } else {
        0
    };
    let ab = b as int % 0x8000_0000;
    let exp = ab / 0x80_0000;
    let frac = ab % 0x80_0000;
    if exp == 0xFF {
        (sign + 0x7FF0_0000_0000_0000 + frac * 0x2000_0000) as u64
    } else if exp == 0 && frac == 0 {
        sign as u64
    } else if exp == 0 {
        let l = spec_log2(frac);
        (sign + (873 + l) * 0x10_0000_0000_0000 + frac * pow2((52 - l) as nat)) as u64
    } else {
        (sign + (exp + 896) * 0x10_0000_0000_0000 + frac * 0x2000_0000) as u64
    }
}

#[verifier::rlimit(100)]
fn widen_f32_bits(b: u32) -> (r: u64)
    ensures
        r == spec_widen_f32_bits(b),
{
    let sign: u64 = if b >= 0x8000_0000 {
        0x8000_0000_0000_0000
    } else {
        0
    };
    let ab: u32 = b % 0x8000_0000;
    let exp: u32 = ab / 0x80_0000;
    let frac: u32 = ab % 0x80_0000;
    if exp == 0xFF {
        sign + 0x7FF0_0000_0000_0000 + (frac as u64) * 0x2000_0000
    } else if exp == 0 && frac == 0 {
        sign
    } else if exp == 0 {
        let mut l: usize = 0;
        let mut p: u32 = 1;
        proof {
            lemma2_to64();
        }
        while frac / 2 >= p
            invariant
                1 <= frac < 0x80_0000,
                l <= 22,
                p as nat == pow2(l as nat),
                p <= frac,
            decreases 23 - l,
        {
            proof {
                assert(frac >= 2 * p);
                if l >= 22 {
                    lemma2_to64();
                    assert(false);
                }
                lemma_pow2_unfold((l + 1) as nat);
            }
            p = p * 2;
            l = l + 1;
        }
        proof {
            assert(frac < 2 * p);
            lemma_pow2_unfold((l + 1) as nat);
            lemma_log2_identifies(frac as int, l as nat);
        }
        let m = pow2_u64(52 - l);
        proof {
            lemma_pow2_adds((l + 1) as nat, (52 - l) as nat);
            lemma2_to64_rest();
            assert((frac as int) * (m as int) < 0x20_0000_0000_0000) by (nonlinear_arith)
                requires
                    0 <= frac as int,
                    (frac as int) < pow2((l + 1) as nat),
                    0 <= m as int,
                    m as nat == pow2((52 - l) as nat),
                    pow2((l + 1) as nat) * pow2((52 - l) as nat) == 0x20_0000_0000_0000,
            ;
        }
        sign + (873 + l as u64) * 0x10_0000_0000_0000 + (frac as u64) * m
    } else {
        sign + (exp as u64 + 896) * 0x10_0000_0000_0000 + (frac as u64) * 0x2000_0000
    }
}

/// The 64-bit float reading of a value, as its IEEE-754 bit pattern:
/// defined for every numeric kind, widening integers and 32-bit floats;
/// never coerces the string or boolean kinds.
pub open spec fn spec_as_float_bits(v: WundergraphScalarValue) -> Option<u64> {
    match v {
        WundergraphScalarValue::SmallInt(i) => Some(spec_double_bits_of_i64(i as int)),
        WundergraphScalarValue::Int(i) => Some(spec_double_bits_of_i64(i as int)),
        WundergraphScalarValue::BigInt(i) => Some(spec_double_bits_of_i64(i as int)),
        WundergraphScalarValue::Float(b) => Some(spec_widen_f32_bits(b)),
        WundergraphScalarValue::Double(b) => Some(b),
        _ => None,
    }
}

impl WundergraphScalarValue {
    /// Succeeds on every numeric kind, widening each to the 64-bit float
    /// representation and returning its bit pattern; fails exactly on the
    /// string and boolean kinds.
    pub fn as_float(&self) -> (r: Option<u64>)
        ensures
            r == spec_as_float_bits(*self),
    {
        match *self {
            WundergraphScalarValue::SmallInt(i) => Some(double_bits_of_i64(i as i64)),
            WundergraphScalarValue::Int(i) => Some(double_bits_of_i64(i as i64)),
            WundergraphScalarValue::BigInt(i) => Some(double_bits_of_i64(i)),
            WundergraphScalarValue::Float(b) => Some(widen_f32_bits(b)),
            WundergraphScalarValue::Double(b) => Some(b),
            _ => None,
        }
    }
}

proof fn lemma_log2_bounds(v: int)
    requires
        v >= 1,
    ensures
        spec_log2(v) >= 0,
        pow2(spec_log2(v) as nat) <= v < pow2((spec_log2(v) + 1) as nat),
    decreases v,
{
    if v == 1 {
        lemma2_to64();
    } else {
        lemma_log2_bounds(v / 2);
        let l = spec_log2(v / 2);
        lemma_pow2_unfold((l + 1) as nat);
        lemma_pow2_unfold((l + 2) as nat);
    }
}

/// The numeric value a finite 64-bit float bit pattern stands for, rounded
/// toward zero to an integer: the signed, exponent-scaled mantissa.
pub open spec fn spec_double_truncated_value(bits: u64) -> int {
    let sign: int = if bits >= 0x8000_0000_0000_0000 {
        -1
    } else {
        1
    };
    let ab = bits as int % 0x8000_0000_0000_0000;
    let ef = ab / 0x10_0000_0000_0000;
    let frac = ab % 0x10_0000_0000_0000;
    if ef == 0 && frac == 0 {
        0
    } else {
        let e = ef - 1023;
        if e >= 52 {
            sign * (0x10_0000_0000_0000 + frac) * pow2((e - 52) as nat)
        } else {
            sign * ((0x10_0000_0000_0000 + frac) / pow2((52 - e) as nat) as int)
        }
    }
}

proof fn lemma_double_bits_exact_u64(v: u64)
    requires
        v < 0x20_0000_0000_0000,
    ensures
        spec_double_bits_of_u64_val(v) < 0x8000_0000_0000_0000,
        spec_double_truncated_value(spec_double_bits_of_u64_val(v)) == v,
{
    if v == 0 {
        return ;
    }
    let e = spec_log2(v as int);
    lemma_log2_bounds(v as int);
    assert(e <= 52) by {
        lemma2_to64_rest();
        if e > 53 {
            lemma_pow2_strictly_increases(53, e as nat);
        }
    }
    lemma_pow2_pos((52 - e) as nat);
    lemma_pow2_adds(e as nat, (52 - e) as nat);
    lemma_pow2_adds((e + 1) as nat, (52 - e) as nat);
    lemma2_to64();
    lemma2_to64_rest();
    let m = pow2((52 - e) as nat) as int;
    let pe = pow2(e as nat) as int;
    let pe1 = pow2((e + 1) as nat) as int;
    let scaled = (v as int) * m;
    assert(pe * m == 0x10_0000_0000_0000);
    assert(pe1 * m == 0x20_0000_0000_0000);
    assert(0x10_0000_0000_0000 <= scaled && scaled < 0x20_0000_0000_0000) by (nonlinear_arith)
        requires
            pe <= v as int,
            (v as int) < pe1,
            0 < m,
            pe * m == 0x10_0000_0000_0000,
            pe1 * m == 0x20_0000_0000_0000,
            scaled == (v as int) * m,
    ;
    let bits = spec_double_bits_of_u64_val(v);
    assert(bits == (1022 + e) * 0x10_0000_0000_0000 + scaled);
    assert(bits < 0x8000_0000_0000_0000);
    lemma_small_mod(bits as nat, 0x8000_0000_0000_0000);
    lemma_fundamental_div_mod_converse(
        bits as int,
        0x10_0000_0000_0000,
        1023 + e,
        scaled - 0x10_0000_0000_0000,
    );
    assert(bits as int / 0x10_0000_0000_0000 == 1023 + e);
    assert(bits as int % 0x10_0000_0000_0000 == scaled - 0x10_0000_0000_0000);
    if e == 52 {
        assert(m == 1);
        assert(scaled == v as int) by (nonlinear_arith)
            requires
                scaled == (v as int) * m,
                m == 1,
        ;
        let p0 = pow2(0) as int;
        assert(spec_double_truncated_value(bits) == 1 * scaled * p0);
        assert(1 * scaled * p0 == scaled) by (nonlinear_arith)
            requires
                p0 == 1,
        ;
    } else {
        assert(m * (v as int) == scaled) by (nonlinear_arith)
            requires
                scaled == (v as int) * m,
        ;
        lemma_div_multiples_vanish(v as int, m);
        assert(scaled / m == v as int);
    }
}

proof fn lemma_as_float_exact_i64(v: int)
    requires
        -0x20_0000_0000_0000 < v < 0x20_0000_0000_0000,
    ensures
        spec_double_truncated_value(spec_double_bits_of_i64(v)) == v,
{
    if v >= 0 {
        lemma_double_bits_exact_u64(v as u64);
    } else {
        let mag = (-v) as u64;
        lemma_double_bits_exact_u64(mag);
        let mb = spec_double_bits_of_u64_val(mag);
        let bits = spec_double_bits_of_i64(v);
        assert(bits == 0x8000_0000_0000_0000 + mb);
        if mb == 0 {
            assert(spec_double_truncated_value(mb) == 0);
            assert(false);
        }
        lemma_small_mod(mb as nat, 0x8000_0000_0000_0000);
        lemma_fundamental_div_mod_converse(
            bits as int,
            0x8000_0000_0000_0000,
            1,
            mb as int,
        );
        assert(bits as int % 0x8000_0000_0000_0000 == mb as int);
        let ef = mb as int / 0x10_0000_0000_0000;
        let frac = mb as int % 0x10_0000_0000_0000;
        if ef - 1023 >= 52 {
            let a = 0x10_0000_0000_0000 + frac;
            let p = pow2((ef - 1023 - 52) as nat) as int;
            assert(-1 * a * p == -1 * (1 * a * p)) by (nonlinear_arith);
        }
        assert(spec_double_truncated_value(bits) == -1 * spec_double_truncated_value(mb));
    }
}

/// Widening totality: the 64-bit float reading exists for every numeric
/// kind and for no other, and on the 64-bit float kind it is the identity.
pub proof fn lemma_as_float_total_on_numeric(v: WundergraphScalarValue)
    ensures
        spec_as_float_bits(v) is Some <==> !(v is String || v is Boolean),
        v matches WundergraphScalarValue::Double(b) ==> spec_as_float_bits(v) == Some(b),
{
}

/// Narrowest-fit law at the 16-bit boundary: any value in the 16-bit signed
/// range lands in the 16-bit kind, whichever entry point ingests it.
pub proof fn lemma_narrowest_fit_small(v: int)
    requires
        -0x8000 <= v <= 0x7FFF,
    ensures
        spec_ingest_i64(v) == WundergraphScalarValue::SmallInt(v as i16),
        0 <= v ==> spec_ingest_u64(v as u64) == WundergraphScalarValue::SmallInt(v as i16),
{
}

/// Narrowest-fit law at the 32-bit boundary: a value in the 32-bit signed
/// range but outside the 16-bit range lands in the 32-bit kind.
pub proof fn lemma_narrowest_fit_int(v: int)
    requires
        -0x8000_0000 <= v <= 0x7FFF_FFFF,
        !(-0x8000 <= v <= 0x7FFF),
    ensures
        spec_ingest_i64(v) == WundergraphScalarValue::Int(v as i32),
        0 <= v ==> spec_ingest_u64(v as u64) == WundergraphScalarValue::Int(v as i32),
{
}

/// Narrowest-fit law at the 64-bit boundary: a value in the 64-bit signed
/// range but outside the 32-bit range keeps the 64-bit integer kind.
pub proof fn lemma_narrowest_fit_big(v: int)
    requires
        -0x8000_0000_0000_0000 <= v <= 0x7FFF_FFFF_FFFF_FFFF,
        !(-0x8000_0000 <= v <= 0x7FFF_FFFF),
    ensures
        spec_ingest_i64(v) == WundergraphScalarValue::BigInt(v as i64),
        0 <= v ==> spec_ingest_u64(v as u64) == WundergraphScalarValue::BigInt(v as i64),
{
}

/// Unsigned overflow fallback: an unsigned input beyond the signed 64-bit
/// maximum yields the 64-bit float kind, never an error.
pub proof fn lemma_unsigned_overflow_fallback(v: u64)
    requires
        v > 0x7FFF_FFFF_FFFF_FFFF,
    ensures
        spec_ingest_u64(v) == WundergraphScalarValue::Double(spec_double_bits_of_u64_val(v)),
{
}

} // verus!
