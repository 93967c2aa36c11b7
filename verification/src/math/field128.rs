//! The 128-bit prime field in which the machine computes.
//!
//! Elements are carried as plain `u128` values. Every operation accepts any `u128`
//! and answers with the canonical residue, so a value at or above the modulus
//! stands for its remainder.
use crate::math::certificates::lemma_prime_modulus_128;
use crate::math::modular::{
    add_mod, common_divisor, inverse, is_inverse_of, is_unit, lemma_cofactor_step,
    lemma_common_divisor_unwinds, lemma_congruent_by_multiple, lemma_double_and_add,
    lemma_inverse_is, lemma_inverse_of_unit, lemma_multiple_of_congruent,
    lemma_multiple_shares_divisor, lemma_shared_divisor_is_no_unit,
    lemma_square_and_multiply, mul_mod, pow_mod, sub_mod,
};
use crate::math::primes::{is_prime, lemma_order_certificate_proves_prime};
use vstd::arithmetic::div_mod::*;
use vstd::arithmetic::power2::*;
use vstd::arithmetic::power::*;
use vstd::prelude::*;

verus! {

/// The field whose modulus is `2^128 - 45 * 2^40 + 1`.
pub struct F128;

impl F128 {
    /// The modulus of the field.
    pub const MODULUS: u128 = 340282366920938463463374557953744961537;

    /// The additive identity.
    pub const ZERO: u128 = 0;

    /// The multiplicative identity.
    pub const ONE: u128 = 1;

    /// The inverse of two, `(MODULUS + 1) / 2`.
    pub const HALF: u128 = 170141183460469231731687278976872480769;

    /// The modulus as a mathematical integer.
    pub open spec fn modulus() -> int {
        340282366920938463463374557953744961537
    }

    /// `x` is the canonical representative of its residue class.
    pub open spec fn is_canonical(x: u128) -> bool {
        x < Self::modulus()
    }

    /// The field sum.
    pub open spec fn sum(a: u128, b: u128) -> u128 {
        add_mod(a as int, b as int, Self::modulus()) as u128
    }

    /// The field difference.
    pub open spec fn difference(a: u128, b: u128) -> u128 {
        sub_mod(a as int, b as int, Self::modulus()) as u128
    }

    /// The field product.
    pub open spec fn product(a: u128, b: u128) -> u128 {
        mul_mod(a as int, b as int, Self::modulus()) as u128
    }

    /// The field power.
    pub open spec fn power(b: u128, e: u128) -> u128 {
        pow_mod(b as int, e as nat, Self::modulus()) as u128
    }

    /// The multiplicative inverse where there is one, zero where there is none.
    pub open spec fn reciprocal(x: u128) -> u128 {
        inverse(x as int, Self::modulus()) as u128
    }

    /// Half of `x` in the field: the element whose double is `x`.
    pub open spec fn halved(x: u128) -> u128 {
        Self::product(x, Self::HALF)
    }

    /// Brings any `u128` to the canonical representative of its class.
    pub fn reduce(x: u128) -> (r: u128)
        ensures
            r == x % Self::MODULUS,
            Self::is_canonical(r),
    {
        if x >= Self::MODULUS {
            proof {
                lemma_fundamental_div_mod_converse(
                    x as int,
                    Self::modulus(),
                    1,
                    x - Self::modulus(),
                );
            }
            x - Self::MODULUS
        } else {
            proof {
                lemma_small_mod(x as nat, Self::modulus() as nat);
            }
            x
        }
    }

    /// Adds two elements.
    pub fn add(a: u128, b: u128) -> (r: u128)
        ensures
            r == Self::sum(a, b),
            Self::is_canonical(r),
    {
        let a1 = Self::reduce(a);
        let b1 = Self::reduce(b);
        let z = Self::MODULUS - b1;
        proof {
            lemma_add_mod_noop(a as int, b as int, Self::modulus());
        }
        if a1 < z {
            proof {
                lemma_small_mod((a1 + b1) as nat, Self::modulus() as nat);
            }
            a1 + b1
        } else {
            proof {
                lemma_fundamental_div_mod_converse(
                    a1 + b1,
                    Self::modulus(),
                    1,
                    a1 + b1 - Self::modulus(),
                );
            }
            a1 - z
        }
    }

    /// Subtracts `b` from `a`.
    pub fn sub(a: u128, b: u128) -> (r: u128)
        ensures
            r == Self::difference(a, b),
            Self::is_canonical(r),
    {
        let a1 = Self::reduce(a);
        let b1 = Self::reduce(b);
        proof {
            lemma_sub_mod_noop(a as int, b as int, Self::modulus());
        }
        if a1 >= b1 {
            proof {
                lemma_small_mod((a1 - b1) as nat, Self::modulus() as nat);
            }
            a1 - b1
        } else {
            proof {
                lemma_fundamental_div_mod_converse(
                    a1 - b1,
                    Self::modulus(),
                    -1,
                    a1 - b1 + Self::modulus(),
                );
            }
            Self::MODULUS - (b1 - a1)
        }
    }

    /// Multiplies two elements.
    pub fn mul(a: u128, b: u128) -> (r: u128)
        ensures
            r == Self::product(a, b),
            Self::is_canonical(r),
    {
        let mut acc: u128 = 0;
        let mut x: u128 = Self::reduce(a);
        let mut y: u128 = b;
        proof {
            lemma_mul_mod_noop_left(a as int, b as int, Self::modulus());
        }
        while y > 0
            invariant
                acc < Self::modulus(),
                x < Self::modulus(),
                (acc + x * y) % Self::modulus() == (a * b) % Self::modulus(),
            decreases y,
        {
            let ghost acc0 = acc;
            let ghost x0 = x;
            if y % 2 == 1 {
                acc = Self::add(acc, x);
            }
            x = Self::add(x, x);
            proof {
                lemma_small_mod(acc as nat, Self::modulus() as nat);
                lemma_small_mod(x as nat, Self::modulus() as nat);
                lemma_small_mod(acc0 as nat, Self::modulus() as nat);
                lemma_double_and_add(
                    acc0 as int,
                    x0 as int,
                    y as int,
                    Self::modulus(),
                    acc as int,
                    x as int,
                );
            }
            y = y / 2;
        }
        proof {
            assert(x * 0 == 0);
            lemma_small_mod(acc as nat, Self::modulus() as nat);
        }
        acc
    }

    /// Raises `b` to the power `e`.
    pub fn exp(b: u128, e: u128) -> (r: u128)
        ensures
            r == Self::power(b, e),
            Self::is_canonical(r),
    {
        let mut acc: u128 = 1;
        let mut base: u128 = Self::reduce(b);
        let mut k: u128 = e;
        proof {
            lemma_pow_mod_noop(b as int, e as nat, Self::modulus());
            assert(1 * pow(base as int, k as nat) == pow(base as int, k as nat));
        }
        while k > 0
            invariant
                acc < Self::modulus(),
                base < Self::modulus(),
                (acc * pow(base as int, k as nat)) % Self::modulus() == pow(b as int, e as nat)
                    % Self::modulus(),
            decreases k,
        {
            let ghost acc0 = acc;
            let ghost base0 = base;
            if k % 2 == 1 {
                acc = Self::mul(acc, base);
            }
            base = Self::mul(base, base);
            proof {
                lemma_small_mod(acc as nat, Self::modulus() as nat);
                lemma_small_mod(base as nat, Self::modulus() as nat);
                lemma_small_mod(acc0 as nat, Self::modulus() as nat);
                lemma_square_and_multiply(
                    acc0 as int,
                    base0 as int,
                    k as nat,
                    Self::modulus(),
                    acc as int,
                    base as int,
                );
            }
            k = k / 2;
        }
        proof {
            lemma_pow0(base as int);
            assert(acc * 1 == acc);
            lemma_small_mod(acc as nat, Self::modulus() as nat);
        }
        acc
    }

    /// Inverts `x`: the result times `x` is one, but for the multiples of the modulus,
    /// whose inverse is put at zero.
    pub fn inv(x: u128) -> (r: u128)
        ensures
            r == Self::reciprocal(x),
            Self::is_canonical(r),
            x % Self::MODULUS != 0 ==> Self::product(x, r) == 1,
            x % Self::MODULUS == 0 ==> r == 0,
    {
        proof {
            lemma_field(x as int);
            if x % Self::MODULUS == 0 {
                crate::math::modular::lemma_zero_is_no_unit(x as int, Self::modulus());
            }
        }
        let a = Self::reduce(x);
        let mut r0: u128 = Self::MODULUS;
        let mut r1: u128 = a;
        let mut t0: u128 = 0;
        let mut t1: u128 = 1;
        proof {
            assert(0 * a == 0 && 1 * a == a);
            lemma_mod_self_0(Self::modulus());
            lemma_small_mod(0, Self::modulus() as nat);
        }
        while r1 != 0
            invariant
                a < Self::modulus(),
                0 < r0 <= Self::modulus(),
                r1 < Self::modulus(),
                t0 < Self::modulus(),
                t1 < Self::modulus(),
                (t0 * a) % Self::modulus() == (r0 as int) % Self::modulus(),
                (t1 * a) % Self::modulus() == (r1 as int) % Self::modulus(),
                forall|d: int| #[trigger]
                    common_divisor(d, r0 as int, r1 as int) ==> common_divisor(
                        d,
                        Self::modulus(),
                        a as int,
                    ),
            decreases r1,
        {
            let q = r0 / r1;
            let r2 = r0 % r1;
            let t2 = Self::sub(t0, Self::mul(q, t1));
            proof {
                let m = Self::modulus();
                lemma_fundamental_div_mod(r0 as int, r1 as int);
                assert(r2 == r0 - q * r1) by (nonlinear_arith)
                    requires
                        r0 == r1 * q + r2,
                ;
                lemma_sub_mod_noop_right(t0 as int, q * t1, m);
                lemma_small_mod(t2 as nat, m as nat);
                lemma_cofactor_step(
                    a as int,
                    m,
                    r0 as int,
                    r1 as int,
                    t0 as int,
                    t1 as int,
                    q as int,
                    t2 as int,
                );
                assert forall|d: int| #[trigger]
                    common_divisor(d, r1 as int, r2 as int) implies common_divisor(
                    d,
                    m,
                    a as int,
                ) by {
                    lemma_common_divisor_unwinds(d, r0 as int, r1 as int, q as int);
                }
            }
            r0 = r1;
            r1 = r2;
            t0 = t1;
            t1 = t2;
        }
        proof {
            let m = Self::modulus();
            lemma_mul_mod_noop_left(x as int, t0 as int, m);
            assert(a * t0 == t0 * a) by (nonlinear_arith);
            if r0 == 1 {
                lemma_small_mod(1, m as nat);
                assert(is_inverse_of(t0 as int, x as int, m));
                lemma_inverse_is(x as int, t0 as int, m);
            } else {
                lemma_mod_self_0(r0 as int);
                lemma_small_mod(0, r0 as nat);
                assert(common_divisor(r0 as int, r0 as int, r1 as int));
                lemma_multiple_shares_divisor(x as int, a as int, r0 as int, m);
                lemma_shared_divisor_is_no_unit(x as int, r0 as int, m);
            }
        }
        if r0 == 1 {
            t0
        } else {
            0
        }
    }
}

/// The modulus is prime, so the residues form a field: every residue but zero has an
/// inverse, and raised to the modulus less one it gives one.
pub proof fn lemma_field(x: int)
    ensures
        is_prime(F128::modulus()),
        x % F128::modulus() != 0 ==> is_unit(x, F128::modulus()),
        x % F128::modulus() != 0 ==> pow(x, (F128::modulus() - 1) as nat) % F128::modulus() == 1,
{
    let m = F128::modulus();
    lemma_prime_modulus_128();
    lemma_order_certificate_proves_prime(m, 3, seq![(2int, 40nat), (29int, 1nat), (181int, 1nat), (286619int, 1nat), (11394379int, 1nat), (18053749339int, 1nat)]);
    let y = x % m;
    lemma_mod_bound(x, m);
    if y != 0 {
        assert(is_unit(y, m));
        lemma_inverse_of_unit(y, m);
        lemma_mul_mod_noop_left(x, inverse(y, m), m);
        assert(is_inverse_of(inverse(y, m), x, m));
        assert(pow(y, (m - 1) as nat) % m == 1);
        lemma_pow_mod_noop(x, (m - 1) as nat, m);
    }
}

/// Half really is the inverse of two.
pub proof fn lemma_half_is_inverse_of_two()
    ensures
        is_inverse_of(F128::HALF as int, 2, F128::modulus()),
        forall|x: u128| F128::is_canonical(x) ==> F128::sum(F128::halved(x), F128::halved(x)) == x,
{
    let m = F128::modulus();
    lemma_fundamental_div_mod_converse(2 * F128::HALF, m, 1, 1);
    assert forall|x: u128| F128::is_canonical(x) implies F128::sum(
        F128::halved(x),
        F128::halved(x),
    ) == x by {
        let h = F128::halved(x) as int;
        lemma_mod_twice(x * F128::HALF, m);
        let k = lemma_multiple_of_congruent(h, x * F128::HALF, m);
        assert(h + h - x == (2 * k + x) * m) by (nonlinear_arith)
            requires
                h - x * F128::HALF == k * m,
                2 * F128::HALF == m + 1,
        ;
        lemma_congruent_by_multiple(h + h, x as int, 2 * k + x, m);
        lemma_small_mod(x as nat, m as nat);
    }
}

/// Two to the power 127 is below the modulus, and so is every smaller power of two.
pub proof fn lemma_power_of_two_is_canonical(j: nat)
    requires
        j <= 127,
    ensures
        0 < pow2(j) < F128::modulus(),
        pow2(j) <= 0x8000_0000_0000_0000_0000_0000_0000_0000,
{
    lemma2_to64();
    lemma2_to64_rest();
    lemma_pow2_adds(63, 64);
    assert(pow2(127) == 0x8000_0000_0000_0000_0000_0000_0000_0000) by {
        assert(0x8000_0000_0000_0000 * 0x1_0000_0000_0000_0000
            == 0x8000_0000_0000_0000_0000_0000_0000_0000) by (nonlinear_arith);
    }
    lemma_pow2_pos(j);
    if j < 127 {
        lemma_pow2_strictly_increases(j, 127);
    }
}

/// Halving a power of two in the field gives the next smaller power of two, and
/// halving one gives the inverse of two.
pub proof fn lemma_halved_power_of_two(j: nat)
    requires
        j <= 127,
    ensures
        j >= 1 ==> F128::halved(pow2(j) as u128) == pow2((j - 1) as nat),
        j == 0 ==> F128::halved(pow2(j) as u128) == F128::HALF,
{
    let m = F128::modulus();
    lemma_power_of_two_is_canonical(j);
    lemma2_to64();
    if j >= 1 {
        let h = pow2((j - 1) as nat) as int;
        lemma_power_of_two_is_canonical((j - 1) as nat);
        lemma_pow2_unfold(j);
        assert(pow2(j) * F128::HALF == h * m + h) by (nonlinear_arith)
            requires
                pow2(j) == 2 * h,
                2 * F128::HALF == m + 1,
        ;
        lemma_fundamental_div_mod_converse(pow2(j) * F128::HALF, m, h, h);
    } else {
        assert(1 * F128::HALF == F128::HALF as int);
        lemma_small_mod(F128::HALF as nat, m as nat);
    }
}

/// Adding a product to a canonical element is adding in the integers and reducing
/// once.
pub proof fn lemma_sum_with_product(acc: u128, x: u128, y: u128)
    ensures
        F128::sum(acc, F128::product(x, y)) == (acc + x * y) % F128::modulus(),
{
    let m = F128::modulus();
    lemma_mod_bound(x * y, m);
    lemma_add_mod_noop_right(acc as int, x * y, m);
    lemma_mod_bound(acc + x * y, m);
}

} // verus!
