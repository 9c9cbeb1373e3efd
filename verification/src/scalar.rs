use vstd::arithmetic::div_mod::{lemma_mod_add_multiples_vanish, lemma_small_mod};
use vstd::prelude::*;
use vstd::string::StringExecFns;

verus! {

/// The capability set a scalar type must supply to be usable as a vector or
/// matrix element: the two small constants, total addition, subtraction,
/// negation and multiplication, and a textual rendering.
///
/// The spec functions give the mathematical meaning of each operation, the
/// executable functions are proved to compute exactly those meanings, and the
/// proof obligations pin down the few algebraic laws the vector and matrix
/// contracts rely on. Every operation is total, so a scalar type whose native
/// arithmetic can overflow must supply a total (for example wrapping) variant.
pub trait Numeric: Sized + Copy {
    /// The additive identity, used for zero-extension and empty sums.
    spec fn zero_spec() -> Self;

    /// The multiplicative identity, used on the diagonal of an identity matrix.
    spec fn one_spec() -> Self;

    /// The meaning of addition.
    spec fn add_spec(self, other: Self) -> Self;

    /// The meaning of subtraction.
    spec fn sub_spec(self, other: Self) -> Self;

    /// The meaning of negation.
    spec fn neg_spec(self) -> Self;

    /// The meaning of multiplication.
    spec fn mul_spec(self, other: Self) -> Self;

    /// The textual rendering of the scalar, as a sequence of characters.
    spec fn text_spec(self) -> Seq<char>;

    /// Constructs the additive identity.
    fn zero() -> (r: Self)
        ensures
            r == Self::zero_spec(),
    ;

    /// Constructs the multiplicative identity.
    fn one() -> (r: Self)
        ensures
            r == Self::one_spec(),
    ;

    /// Adds two scalars.
    fn add(self, other: Self) -> (r: Self)
        ensures
            r == self.add_spec(other),
    ;

    /// Subtracts `other` from `self`.
    fn sub(self, other: Self) -> (r: Self)
        ensures
            r == self.sub_spec(other),
    ;

    /// Negates a scalar.
    fn neg(self) -> (r: Self)
        ensures
            r == self.neg_spec(),
    ;

    /// Multiplies two scalars.
    fn mul(self, other: Self) -> (r: Self)
        ensures
            r == self.mul_spec(other),
    ;

    /// Renders the scalar as text.
    fn text(self) -> (r: String)
        ensures
            r@ == self.text_spec(),
    ;

    /// Addition is commutative.
    proof fn add_commutes(a: Self, b: Self)
        ensures
            a.add_spec(b) == b.add_spec(a),
    ;

    /// The additive identity is neutral on either side.
    proof fn add_zero(a: Self)
        ensures
            a.add_spec(Self::zero_spec()) == a,
            Self::zero_spec().add_spec(a) == a,
    ;

    /// Subtraction undoes addition of the same operand.
    proof fn add_sub_cancels(a: Self, b: Self)
        ensures
            a.add_spec(b).sub_spec(b) == a,
    ;

    /// The multiplicative identity is neutral on the left.
    proof fn mul_one(a: Self)
        ensures
            Self::one_spec().mul_spec(a) == a,
    ;

    /// The additive identity annihilates on the left.
    proof fn mul_zero(a: Self)
        ensures
            Self::zero_spec().mul_spec(a) == Self::zero_spec(),
    ;
}

/// The character for a single decimal digit.
pub open spec fn digit_char(d: int) -> char {
    if d == 0 {
        '0'
    } else if d == 1 {
        '1'
    } else if d == 2 {
        '2'
    } else if d == 3 {
        '3'
    } else if d == 4 {
        '4'
    } else if d == 5 {
        '5'
    } else if d == 6 {
        '6'
    } else if d == 7 {
        '7'
    } else if d == 8 {
        '8'
    } else {
        '9'
    }
}

/// The decimal rendering of a natural number, most significant digit first,
/// with no leading zeros (a lone `0` renders as `"0"`).
pub open spec fn dec_digits(n: nat) -> Seq<char>
    decreases n,
{
    if n < 10 {
        seq![digit_char(n as int)]
    } else {
        dec_digits(n / 10) + seq![digit_char((n % 10) as int)]
    }
}

/// The decimal rendering of an integer: a minus sign for negative values,
/// then the digits of the magnitude.
pub open spec fn int_text(n: int) -> Seq<char> {
    if n < 0 {
        seq!['-'] + dec_digits((-n) as nat)
    } else {
        dec_digits(n as nat)
    }
}

/// Appends the character of one decimal digit to `s`.
fn push_digit(s: &mut String, d: u128)
    requires
        d < 10,
    ensures
        final(s)@ == old(s)@ + seq![digit_char(d as int)],
{
    proof {
        reveal_strlit("0");
        reveal_strlit("1");
        reveal_strlit("2");
        reveal_strlit("3");
        reveal_strlit("4");
        reveal_strlit("5");
        reveal_strlit("6");
        reveal_strlit("7");
        reveal_strlit("8");
        reveal_strlit("9");
    }
    if d == 0 {
        s.append("0");
    } else if d == 1 {
        s.append("1");
    } else if d == 2 {
        s.append("2");
    } else if d == 3 {
        s.append("3");
    } else if d == 4 {
        s.append("4");
    } else if d == 5 {
        s.append("5");
    } else if d == 6 {
        s.append("6");
    } else if d == 7 {
        s.append("7");
    } else if d == 8 {
        s.append("8");
    } else {
        s.append("9");
    }
    proof {
        assert(final(s)@ =~= old(s)@ + seq![digit_char(d as int)]);
    }
}

/// Appends the decimal rendering of `n` to `s`.
pub(crate) fn push_dec(s: &mut String, n: u128)
    ensures
        final(s)@ == old(s)@ + dec_digits(n as nat),
    decreases n,
{
    if n < 10 {
        push_digit(s, n);
    } else {
        proof {
            assert(n / 10 < n) by (nonlinear_arith)
                requires
                    n >= 10,
            ;
        }
        push_dec(s, n / 10);
        push_digit(s, n % 10);
        proof {
            assert(dec_digits(n as nat) == dec_digits(n as nat / 10) + seq![
                digit_char((n as nat % 10) as int),
            ]);
            assert(final(s)@ =~= old(s)@ + dec_digits(n as nat));
        }
    }
}

/// `signed_crop` leaves a value that already fits in `i32` unchanged.
proof fn lemma_crop_identity(a: i32)
    ensures
        vstd::wrapping::i32_specs::signed_crop(a as int) == a,
{
    let range: int = 0x1_0000_0000;
    if a >= 0 {
        lemma_small_mod(a as nat, range as nat);
    } else {
        lemma_mod_add_multiples_vanish(a as int, range);
        lemma_small_mod((a + range) as nat, range as nat);
    }
}

impl Numeric for i32 {
    open spec fn zero_spec() -> i32 {
        0
    }

    open spec fn one_spec() -> i32 {
        1
    }

    open spec fn add_spec(self, other: i32) -> i32 {
        vstd::wrapping::i32_specs::wrapping_add(self, other)
    }

    open spec fn sub_spec(self, other: i32) -> i32 {
        vstd::wrapping::i32_specs::wrapping_sub(self, other)
    }

    open spec fn neg_spec(self) -> i32 {
        vstd::wrapping::i32_specs::wrapping_sub(0, self)
    }

    open spec fn mul_spec(self, other: i32) -> i32 {
        vstd::wrapping::i32_specs::wrapping_mul(self, other)
    }

    open spec fn text_spec(self) -> Seq<char> {
        int_text(self as int)
    }

    fn zero() -> (r: i32) {
        0
    }

    fn one() -> (r: i32) {
        1
    }

    fn add(self, other: i32) -> (r: i32) {
        self.wrapping_add(other)
    }

    fn sub(self, other: i32) -> (r: i32) {
        self.wrapping_sub(other)
    }

    fn neg(self) -> (r: i32) {
        0i32.wrapping_sub(self)
    }

    fn mul(self, other: i32) -> (r: i32) {
        self.wrapping_mul(other)
    }

    fn text(self) -> (r: String) {
        let mut s = String::new();
        if self < 0 {
            proof {
                reveal_strlit("-");
            }
            s.append("-");
            let magnitude: u128 = (-(self as i64)) as u128;
            push_dec(&mut s, magnitude);
            proof {
                assert(s@ =~= int_text(self as int));
            }
        } else {
            push_dec(&mut s, self as u128);
        }
        s
    }

    proof fn add_commutes(a: i32, b: i32) {
    }

    proof fn add_zero(a: i32) {
    }

    proof fn add_sub_cancels(a: i32, b: i32) {
    }

    proof fn mul_one(a: i32) {
        lemma_crop_identity(a);
    }

    proof fn mul_zero(a: i32) {
        lemma_crop_identity(0);
    }
}

} // verus!
