//! Coordinates and rectangles.
//!
//! Coordinates are IEEE 754 numbers of double precision. They are held as bit
//! patterns: everything here compares them, copies them or hands them on.

use vstd::arithmetic::power2::{lemma_pow2_adds, lemma_pow2_pos, lemma_pow2_unfold, pow2};
use vstd::prelude::*;

verus! {

/// The bit that carries the sign.
pub const SIGN_BIT: u64 = 0x8000_0000_0000_0000;

/// The bit pattern of positive infinity. Larger magnitudes are not numbers.
pub const INFINITY_BITS: u64 = 0x7ff0_0000_0000_0000;

/// A number of double precision, held as its bit pattern. `==` compares numbers:
/// the two zeros are equal, and what is not a number equals nothing.
#[derive(Clone, Copy, Debug)]
pub struct CGFloat {
    pub bits: u64,
}

/// The bit pattern of zero.
pub const ZERO_BITS: u64 = 0;

/// The bit pattern of one.
pub const ONE_BITS: u64 = 0x3ff0_0000_0000_0000;

/// The bit pattern of one hundred.
pub const HUNDRED_BITS: u64 = 0x4059_0000_0000_0000;

impl CGFloat {
    /// Whether the sign bit is set.
    pub open spec fn negative(self) -> bool {
        self.bits >= SIGN_BIT
    }

    /// The bits without the sign.
    pub open spec fn magnitude(self) -> int {
        if self.negative() {
            self.bits - SIGN_BIT
        } else {
            self.bits as int
        }
    }

    /// Whether the bits stand for no number.
    pub open spec fn nan(self) -> bool {
        self.magnitude() > INFINITY_BITS
    }

    /// The rank of a number among all numbers: it grows with the value, and
    /// the two zeros share one rank.
    pub open spec fn rank(self) -> int {
        if self.negative() {
            -self.magnitude()
        } else {
            self.magnitude()
        }
    }

    /// Whether `self` is a smaller number than `other`.
    pub open spec fn less(self, other: CGFloat) -> bool {
        !self.nan() && !other.nan() && self.rank() < other.rank()
    }

    /// Whether `self` is a number no larger than `other`.
    pub open spec fn at_most(self, other: CGFloat) -> bool {
        !self.nan() && !other.nan() && self.rank() <= other.rank()
    }

    fn rank_parts(self) -> (parts: (bool, u64))
        ensures
            parts.0 == self.negative(),
            parts.1 == self.magnitude(),
    {
        if self.bits >= SIGN_BIT {
            (true, self.bits - SIGN_BIT)
        } else {
            (false, self.bits)
        }
    }

    /// Compares two numbers; nothing is less than a value that is not one.
    pub fn is_less(self, other: CGFloat) -> (yes: bool)
        ensures
            yes == self.less(other),
    {
        let (neg_a, a) = self.rank_parts();
        let (neg_b, b) = other.rank_parts();
        if a > INFINITY_BITS || b > INFINITY_BITS {
            false
        } else if neg_a {
            if neg_b {
                a > b
            } else {
                a > 0 || b > 0
            }
        } else {
            !neg_b && a < b
        }
    }

    /// Compares two numbers; a value that is not one compares with none.
    pub fn is_at_most(self, other: CGFloat) -> (yes: bool)
        ensures
            yes == self.at_most(other),
    {
        let (neg_a, a) = self.rank_parts();
        let (neg_b, b) = other.rank_parts();
        if a > INFINITY_BITS || b > INFINITY_BITS {
            false
        } else if neg_a {
            !neg_b || a >= b
        } else if neg_b {
            a == 0 && b == 0
        } else {
            a <= b
        }
    }

    /// Whether `self` and `other` are the same number.
    pub open spec fn equals(self, other: CGFloat) -> bool {
        !self.nan() && !other.nan() && self.rank() == other.rank()
    }

    /// Keeps a number between two others. A value that is not a number stays.
    pub open spec fn clamped(self, low: CGFloat, high: CGFloat) -> CGFloat {
        if self.less(low) {
            low
        } else if high.less(self) {
            high
        } else {
            self
        }
    }

    /// Keeps a number between `low` and `high`.
    pub fn clamp_between(self, low: CGFloat, high: CGFloat) -> (kept: CGFloat)
        ensures
            kept == self.clamped(low, high),
    {
        if self.is_less(low) {
            low
        } else if high.is_less(self) {
            high
        } else {
            self
        }
    }
}

impl PartialEq for CGFloat {
    fn eq(&self, other: &CGFloat) -> (same: bool) {
        self.is_at_most(*other) && other.is_at_most(*self)
    }
}

impl vstd::std_specs::cmp::PartialEqSpecImpl for CGFloat {
    open spec fn obeys_eq_spec() -> bool {
        true
    }

    open spec fn eq_spec(&self, other: &CGFloat) -> bool {
        self.equals(*other)
    }
}

/// Of two numbers one is less than the other, or they are equal, and no two of
/// these hold at once. What is not a number is neither less than anything nor
/// equal to anything, itself included.
pub proof fn numbers_compare(a: CGFloat, b: CGFloat)
    ensures
        !a.nan() && !b.nan() ==> a.less(b) || b.less(a) || a.equals(b),
        !(a.less(b) && b.less(a)),
        !(a.less(b) && a.equals(b)),
        a.at_most(b) == (a.less(b) || a.equals(b)),
        a.equals(b) == b.equals(a),
        a.equals(a) == !a.nan(),
        a.nan() ==> !a.less(b) && !b.less(a) && !a.equals(b),
        (CGFloat { bits: ZERO_BITS }).equals(CGFloat { bits: SIGN_BIT }),
{
}

/// Whether `x` is the whole number `n`, not zero: the significand is
/// `n` shifted until it has 53 bits, and the exponent undoes the shift.
pub open spec fn represents(x: CGFloat, n: int, shift: nat) -> bool {
    &&& shift <= 52
    &&& pow2(52) <= n * pow2(shift) < pow2(53)
    &&& x.bits == (1075 - shift) * pow2(52) + (n * pow2(shift) - pow2(52))
}

/// The number that a whole number becomes.
pub open spec fn is_whole(x: CGFloat, n: int) -> bool {
    if n == 0 {
        x.bits == ZERO_BITS
    } else {
        exists|shift: nat| represents(x, n, shift)
    }
}

impl CGFloat {
    /// The whole number `n`, which double precision holds exactly.
    pub fn whole(n: u64) -> (x: CGFloat)
        requires
            n < 0x20_0000_0000_0000,
        ensures
            is_whole(x, n as int),
    {
        if n == 0 {
            return CGFloat { bits: ZERO_BITS };
        }
        proof {
            vstd::arithmetic::power2::lemma2_to64();
            vstd::arithmetic::power2::lemma2_to64_rest();
            assert(n * pow2(0) == n) by (nonlinear_arith)
                requires
                    pow2(0) == 1,
            ;
        }
        let mut m: u64 = n;
        let mut shift: u64 = 0;
        while m < 0x10_0000_0000_0000
            invariant
                0 < n,
                m < 0x20_0000_0000_0000,
                shift <= 52,
                m == n * pow2(shift as nat),
                m >= pow2(shift as nat),
                pow2(52) == 0x10_0000_0000_0000,
            decreases 0x20_0000_0000_0000 - m,
        {
            proof {
                lemma_pow2_unfold((shift + 1) as nat);
                lemma_pow2_pos(shift as nat);
                let p = pow2(shift as nat);
                assert(n * (2 * p) == 2 * (n * p)) by (nonlinear_arith);
                if shift == 52 {
                    assert(false);
                }
            }
            m = m * 2;
            shift = shift + 1;
        }
        proof {
            vstd::arithmetic::power2::lemma2_to64_rest();
        }
        let bits: u64 = (1075 - shift) * 0x10_0000_0000_0000 + (m - 0x10_0000_0000_0000);
        let x = CGFloat { bits };
        assert(represents(x, n as int, shift as nat));
        x
    }
}

/// The named patterns are those of the numbers that they are named after.
pub proof fn named_patterns_are_whole()
    ensures
        is_whole(CGFloat { bits: ZERO_BITS }, 0),
        is_whole(CGFloat { bits: ONE_BITS }, 1),
        is_whole(CGFloat { bits: HUNDRED_BITS }, 100),
{
    vstd::arithmetic::power2::lemma2_to64();
    vstd::arithmetic::power2::lemma2_to64_rest();
    assert(represents(CGFloat { bits: ONE_BITS }, 1, 52));
    assert(represents(CGFloat { bits: HUNDRED_BITS }, 100, 46));
}

/// Whole numbers keep their order as numbers of double precision.
pub proof fn whole_numbers_keep_their_order(a: CGFloat, m: int, b: CGFloat, n: int)
    requires
        0 <= m,
        0 <= n,
        is_whole(a, m),
        is_whole(b, n),
    ensures
        a.less(b) == (m < n),
{
    vstd::arithmetic::power2::lemma2_to64();
    vstd::arithmetic::power2::lemma2_to64_rest();
    if m != 0 {
        whole_is_finite(a, m);
    }
    if n != 0 {
        whole_is_finite(b, n);
    }
    if m != 0 && n != 0 {
        let s = choose|shift: nat| represents(a, m, shift);
        let t = choose|shift: nat| represents(b, n, shift);
        if s == t {
            let p = pow2(s) as int;
            lemma_pow2_pos(s);
            assert((m * p < n * p) == (m < n)) by (nonlinear_arith)
                requires
                    p > 0,
            ;
        } else if s > t {
            smaller_needs_more_shift(m, s, n, t);
        } else {
            smaller_needs_more_shift(n, t, m, s);
        }
    }
}

proof fn smaller_needs_more_shift(m: int, s: nat, n: int, t: nat)
    requires
        0 < m,
        0 < n,
        t < s,
        m * pow2(s) < pow2(53),
        pow2(52) <= n * pow2(t),
    ensures
        m < n,
{
    let d = (s - t) as nat;
    lemma_pow2_adds(t, d);
    lemma_pow2_unfold(53);
    lemma_pow2_pos(t);
    lemma_pow2_pos((d - 1) as nat);
    lemma_pow2_unfold(d);
    let p = pow2(t) as int;
    let q = pow2(d) as int;
    assert(q >= 2);
    assert(m < n) by (nonlinear_arith)
        requires
            m * (p * q) < 2 * (n * p),
            p > 0,
            q >= 2,
            m > 0,
            n > 0,
    ;
}

proof fn whole_is_finite(x: CGFloat, n: int)
    requires
        0 < n,
        is_whole(x, n),
    ensures
        !x.nan(),
        !x.negative(),
        x.bits > 0,
{
    vstd::arithmetic::power2::lemma2_to64();
    vstd::arithmetic::power2::lemma2_to64_rest();
    let s = choose|shift: nat| represents(x, n, shift);
    assert((1075 - s) * pow2(52) <= 1075 * 0x10_0000_0000_0000);
    assert(1023 * 0x10_0000_0000_0000 <= (1075 - s) * pow2(52));
}

/// A point of the screen.
#[derive(Clone, Copy, PartialEq, Debug)]
pub struct CGPoint {
    pub x: CGFloat,
    pub y: CGFloat,
}

/// A width and a height.
#[derive(Clone, Copy, PartialEq, Debug)]
pub struct CGSize {
    pub width: CGFloat,
    pub height: CGFloat,
}

/// A rectangle: its corner and its size.
#[derive(Clone, Copy, PartialEq, Debug)]
pub struct CGRect {
    pub origin: CGPoint,
    pub size: CGSize,
}

/// The empty rectangle at the origin.
pub open spec fn zero_rect() -> CGRect {
    CGRect {
        origin: CGPoint { x: CGFloat { bits: ZERO_BITS }, y: CGFloat { bits: ZERO_BITS } },
        size: CGSize { width: CGFloat { bits: ZERO_BITS }, height: CGFloat { bits: ZERO_BITS } },
    }
}

impl Default for CGRect {
    fn default() -> (rect: CGRect)
        ensures
            rect == zero_rect(),
    {
        CGRect {
            origin: CGPoint { x: CGFloat { bits: ZERO_BITS }, y: CGFloat { bits: ZERO_BITS } },
            size: CGSize { width: CGFloat { bits: ZERO_BITS }, height: CGFloat { bits: ZERO_BITS } },
        }
    }
}

/// Numbers compare as their signs and the rest of their bits say: a positive one
/// is smaller where its bits are, a negative one where they are larger, and a
/// negative number is below a positive one, unless both are zero. What is not a
/// number compares with nothing.
pub proof fn numbers_compare_by_their_bits(
    a: CGFloat,
    b: CGFloat,
    less: bool,
    at_most: bool,
    same: bool,
)
    requires
        call_ensures(CGFloat::is_less, (a, b), less),
        call_ensures(CGFloat::is_at_most, (a, b), at_most),
        call_ensures(<CGFloat as PartialEq>::eq, (&a, &b), same),
    ensures
        ({
            let half: int = 0x8000_0000_0000_0000;
            let (x, y) = (a.bits as int, b.bits as int);
            let zeros = (x == 0 || x == half) && (y == 0 || y == half);
            if x % half > 0x7ff0_0000_0000_0000 || y % half > 0x7ff0_0000_0000_0000 {
                !less && !at_most && !same
            } else {
                &&& same <==> x == y || zeros
                &&& at_most <==> less || same
                &&& less <==> !zeros && if x < half {
                    y < half && x < y
                } else {
                    y < half || x > y
                }
            }
        }),
{
}

/// A number that is kept between two others stays unless it is below the lower or
/// above the upper one, which then takes its place.
pub proof fn numbers_are_kept_between_two_others(
    n: CGFloat,
    low: CGFloat,
    high: CGFloat,
    kept: CGFloat,
    below: bool,
    above: bool,
)
    requires
        call_ensures(CGFloat::clamp_between, (n, low, high), kept),
        call_ensures(CGFloat::is_less, (n, low), below),
        call_ensures(CGFloat::is_less, (high, n), above),
    ensures
        below ==> kept == low,
        !below && above ==> kept == high,
        !below && !above ==> kept == n,
{
}

/// A whole number becomes the bits that stand for it: from the exponent, the upper
/// bits, it follows by how many twos the rest, with its hidden bit, is too large.
/// Two whole numbers compare as what they become does.
pub proof fn whole_numbers_become_what_stands_for_them(
    m: u64,
    n: u64,
    a: CGFloat,
    b: CGFloat,
    less: bool,
)
    requires
        call_ensures(CGFloat::whole, (m,), a),
        call_ensures(CGFloat::whole, (n,), b),
        call_ensures(CGFloat::is_less, (a, b), less),
    ensures
        m == 0 ==> a.bits == 0,
        m > 0 ==> {
            let hidden: int = 0x10_0000_0000_0000;
            let exponent = a.bits as int / hidden;
            &&& 1023 <= exponent <= 1075
            &&& hidden + a.bits as int % hidden == m * pow2((1075 - exponent) as nat)
        },
        less <==> m < n,
{
    whole_numbers_keep_their_order(a, m as int, b, n as int);
    if m > 0 {
        vstd::arithmetic::power2::lemma2_to64();
        vstd::arithmetic::power2::lemma2_to64_rest();
        let s = choose|shift: nat| represents(a, m as int, shift);
        let hidden: int = 0x10_0000_0000_0000;
        let rest = m * pow2(s) - hidden;
        assert(a.bits as int == (1075 - s) * hidden + rest);
        vstd::arithmetic::div_mod::lemma_fundamental_div_mod_converse(
            a.bits as int,
            hidden,
            1075 - s,
            rest,
        );
    }
}

/// The default rectangle is empty and lies at the origin.
pub proof fn the_default_rectangle_is_empty(rect: CGRect)
    requires
        call_ensures(<CGRect as Default>::default, (), rect),
    ensures
        rect.origin.x.bits == 0,
        rect.origin.y.bits == 0,
        rect.size.width.bits == 0,
        rect.size.height.bits == 0,
{
}

} // verus!
