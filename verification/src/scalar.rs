//! The numbers that coordinates are measured in.
use vstd::prelude::*;
use crate::decimal::{parse_whole, parsed_whole, whole_text, write_whole};

verus! {

/// A number type for coordinates, lengths and the entries of a transformation.
///
/// Every operation is total and is a function of its arguments alone: the
/// specification function of the same name says what it returns. A number
/// type says what its arithmetic is by giving these functions; as they stand
/// here they say nothing, so that a type outside verified code has only the
/// operations to give. Nothing here promises that the arithmetic is exact:
/// the library computes with numbers that round as well as with whole
/// numbers.
pub trait Scalar: Sized + Copy {
    /// The number zero.
    open spec fn zero_spec() -> Self {
        arbitrary()
    }

    /// The number one.
    open spec fn one_spec() -> Self {
        arbitrary()
    }

    /// The number that stands for a count.
    open spec fn from_u32_spec(n: u32) -> Self {
        arbitrary()
    }

    /// A number that no coordinate exceeds.
    open spec fn largest_spec() -> Self {
        arbitrary()
    }

    /// A number that no coordinate falls below.
    open spec fn smallest_spec() -> Self {
        arbitrary()
    }

    /// The sum of two numbers.
    open spec fn plus_spec(self, rhs: Self) -> Self {
        arbitrary()
    }

    /// The difference of two numbers.
    open spec fn minus_spec(self, rhs: Self) -> Self {
        arbitrary()
    }

    /// The product of two numbers.
    open spec fn times_spec(self, rhs: Self) -> Self {
        arbitrary()
    }

    /// The quotient of two numbers.
    open spec fn over_spec(self, rhs: Self) -> Self {
        arbitrary()
    }

    /// The number with the opposite sign.
    open spec fn negated_spec(self) -> Self {
        arbitrary()
    }

    /// Whether the first number is strictly less than the second.
    open spec fn less_than_spec(self, rhs: Self) -> bool {
        arbitrary()
    }

    /// The cosine of an angle given in degrees.
    open spec fn cosine_degrees_spec(self) -> Self {
        arbitrary()
    }

    /// The sine of an angle given in degrees.
    open spec fn sine_degrees_spec(self) -> Self {
        arbitrary()
    }

    /// The number that a text denotes, if it denotes one.
    open spec fn parse_spec(text: Seq<char>) -> Option<Self> {
        arbitrary()
    }

    /// The text that a number is written as.
    open spec fn text_spec(self) -> Seq<char> {
        arbitrary()
    }

    fn zero() -> (r: Self)
        ensures
            r == Self::zero_spec(),
    ;

    fn one() -> (r: Self)
        ensures
            r == Self::one_spec(),
    ;

    fn from_u32(n: u32) -> (r: Self)
        ensures
            r == Self::from_u32_spec(n),
    ;

    fn largest() -> (r: Self)
        ensures
            r == Self::largest_spec(),
    ;

    fn smallest() -> (r: Self)
        ensures
            r == Self::smallest_spec(),
    ;

    fn plus(self, rhs: Self) -> (r: Self)
        ensures
            r == self.plus_spec(rhs),
    ;

    fn minus(self, rhs: Self) -> (r: Self)
        ensures
            r == self.minus_spec(rhs),
    ;

    fn times(self, rhs: Self) -> (r: Self)
        ensures
            r == self.times_spec(rhs),
    ;

    fn over(self, rhs: Self) -> (r: Self)
        ensures
            r == self.over_spec(rhs),
    ;

    fn negated(self) -> (r: Self)
        ensures
            r == self.negated_spec(),
    ;

    fn less_than(self, rhs: Self) -> (r: bool)
        ensures
            r == self.less_than_spec(rhs),
    ;

    fn cosine_degrees(self) -> (r: Self)
        ensures
            r == self.cosine_degrees_spec(),
    ;

    fn sine_degrees(self) -> (r: Self)
        ensures
            r == self.sine_degrees_spec(),
    ;

    fn parse(text: &str) -> (r: Option<Self>)
        ensures
            r == Self::parse_spec(text@),
    ;

    fn to_text(self) -> (r: String)
        ensures
            r@ == self.text_spec(),
    ;
}

/// The whole number nearest to `v` that an `i64` can hold.
pub open spec fn clamp(v: int) -> i64 {
    if v > i64::MAX {
        i64::MAX
    } else if v < i64::MIN {
        i64::MIN
    } else {
        v as i64
    }
}

/// An angle in whole degrees brought into the range from 0 to 359.
pub open spec fn within_turn(degrees: int) -> int {
    degrees % 360
}

/// Whole numbers. A result that an `i64` cannot hold is replaced by the
/// nearest bound; a quotient is the Euclidean one, whose remainder is never
/// negative, and is zero where the divisor is zero; a cosine or sine is
/// rounded to the nearest whole number, a half away from zero.
impl Scalar for i64 {
    open spec fn zero_spec() -> Self {
        0
    }

    open spec fn one_spec() -> Self {
        1
    }

    open spec fn from_u32_spec(n: u32) -> Self {
        n as i64
    }

    open spec fn largest_spec() -> Self {
        i64::MAX
    }

    open spec fn smallest_spec() -> Self {
        i64::MIN
    }

    open spec fn plus_spec(self, rhs: Self) -> Self {
        clamp(self + rhs)
    }

    open spec fn minus_spec(self, rhs: Self) -> Self {
        clamp(self - rhs)
    }

    open spec fn times_spec(self, rhs: Self) -> Self {
        clamp(self * rhs)
    }

    open spec fn over_spec(self, rhs: Self) -> Self {
        if rhs == 0 {
            0
        } else {
            clamp(self as int / rhs as int)
        }
    }

    open spec fn negated_spec(self) -> Self {
        clamp(-self)
    }

    open spec fn less_than_spec(self, rhs: Self) -> bool {
        self < rhs
    }

    open spec fn cosine_degrees_spec(self) -> Self {
        let a = within_turn(self as int);
        if a <= 60 || a >= 300 {
            1
        } else if 120 <= a <= 240 {
            -1i64
        } else {
            0
        }
    }

    open spec fn sine_degrees_spec(self) -> Self {
        let a = within_turn(self as int);
        if 30 <= a <= 150 {
            1
        } else if 210 <= a <= 330 {
            -1i64
        } else {
            0
        }
    }

    open spec fn parse_spec(text: Seq<char>) -> Option<Self> {
        parsed_whole(text)
    }

    open spec fn text_spec(self) -> Seq<char> {
        whole_text(self as int)
    }

    fn zero() -> (r: Self) {
        0
    }

    fn one() -> (r: Self) {
        1
    }

    fn from_u32(n: u32) -> (r: Self) {
        n as i64
    }

    fn largest() -> (r: Self) {
        i64::MAX
    }

    fn smallest() -> (r: Self) {
        i64::MIN
    }

    fn plus(self, rhs: Self) -> (r: Self) {
        match self.checked_add(rhs) {
            Some(sum) => sum,
            None => if rhs > 0 {
                i64::MAX
            } else {
                i64::MIN
            },
        }
    }

    fn minus(self, rhs: Self) -> (r: Self) {
        match self.checked_sub(rhs) {
            Some(difference) => difference,
            None => if rhs < 0 {
                i64::MAX
            } else {
                i64::MIN
            },
        }
    }

    fn times(self, rhs: Self) -> (r: Self) {
        match self.checked_mul(rhs) {
            Some(product) => product,
            None => {
                proof {
                    lemma_product_sign(self as int, rhs as int);
                }
                if (self > 0) == (rhs > 0) {
                    i64::MAX
                } else {
                    i64::MIN
                }
            },
        }
    }

    fn over(self, rhs: Self) -> (r: Self) {
        if rhs == 0 {
            0
        } else {
            match self.checked_div_euclid(rhs) {
                Some(quotient) => quotient,
                None => {
                    proof {
                        lemma_quotient_bounds(self as int, rhs as int);
                    }
                    i64::MAX
                },
            }
        }
    }

    fn negated(self) -> (r: Self) {
        match 0i64.checked_sub(self) {
            Some(opposite) => opposite,
            None => i64::MAX,
        }
    }

    fn less_than(self, rhs: Self) -> (r: bool) {
        self < rhs
    }

    fn cosine_degrees(self) -> (r: Self) {
        match self.checked_rem_euclid(360) {
            Some(a) => if a <= 60 || a >= 300 {
                1
            } else if 120 <= a && a <= 240 {
                -1
            } else {
                0
            },
            None => 0,
        }
    }

    fn sine_degrees(self) -> (r: Self) {
        match self.checked_rem_euclid(360) {
            Some(a) => if 30 <= a && a <= 150 {
                1
            } else if 210 <= a && a <= 330 {
                -1
            } else {
                0
            },
            None => 0,
        }
    }

    fn parse(text: &str) -> (r: Option<Self>) {
        parse_whole(text)
    }

    fn to_text(self) -> (r: String) {
        write_whole(self)
    }
}

/// A product lies above the range of `i64` only where the factors have the
/// same sign, and below it only where they differ.
proof fn lemma_product_sign(a: int, b: int)
    ensures
        a * b > 0 ==> (a > 0) == (b > 0),
        a * b < 0 ==> (a > 0) != (b > 0),
{
    assert(a * b > 0 ==> (a > 0) == (b > 0)) by (nonlinear_arith);
    assert(a * b < 0 ==> (a > 0) != (b > 0)) by (nonlinear_arith);
}

/// A quotient of two `i64` leaves the range only upwards.
proof fn lemma_quotient_bounds(a: int, b: int)
    requires
        i64::MIN <= a <= i64::MAX,
        i64::MIN <= b <= i64::MAX,
        b != 0,
    ensures
        a / b >= i64::MIN,
{
    assert(a / b >= i64::MIN) by (nonlinear_arith)
        requires
            i64::MIN <= a <= i64::MAX,
            i64::MIN <= b <= i64::MAX,
            b != 0,
    ;
}

} // verus!
