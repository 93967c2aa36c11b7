//! The 64-bit prime field of the sponge, with its roots of unity.
//!
//! Elements are carried as plain `u64` values. Every operation accepts any `u64`
//! and answers with the canonical residue, so a value at or above the modulus
//! stands for its remainder.
use crate::math::certificates::lemma_prime_modulus_64;
use crate::math::modular::{
    add_mod, common_divisor, inverse, is_inverse_of, is_principal_root, is_unit,
    lemma_cofactor_step, lemma_common_divisor_unwinds, lemma_inverse_is,
    lemma_inverse_of_unit, lemma_mul_congruent, lemma_multiple_shares_divisor,
    lemma_pow_square, lemma_shared_divisor_is_no_unit, lemma_square_and_multiply, mul_mod,
    pow_mod, sub_mod,
};
use crate::math::primes::{is_prime, lemma_order_certificate_proves_prime};
use vstd::arithmetic::div_mod::*;
use vstd::arithmetic::power2::*;
use vstd::arithmetic::power::*;
use vstd::prelude::*;

verus! {

/// The field whose modulus is `2^64 - 45 * 2^32 + 1`.
pub struct F64;

impl F64 {
    /// The modulus of the field.
    pub const MODULUS: u64 = 18446743880436023297;

    /// The additive identity.
    pub const ZERO: u64 = 0;

    /// The multiplicative identity.
    pub const ONE: u64 = 1;

    /// The inverse of two, `(MODULUS + 1) / 2`.
    pub const HALF: u64 = 9223371940218011649;

    /// The modulus as a mathematical integer.
    pub open spec fn modulus() -> int {
        18446743880436023297
    }

    /// `x` is the canonical representative of its residue class.
    pub open spec fn is_canonical(x: u64) -> bool {
        x < Self::modulus()
    }

    /// The field sum.
    pub open spec fn sum(a: u64, b: u64) -> u64 {
        add_mod(a as int, b as int, Self::modulus()) as u64
    }

    /// The field difference.
    pub open spec fn difference(a: u64, b: u64) -> u64 {
        sub_mod(a as int, b as int, Self::modulus()) as u64
    }

    /// The field product.
    pub open spec fn product(a: u64, b: u64) -> u64 {
        mul_mod(a as int, b as int, Self::modulus()) as u64
    }

    /// The field power.
    pub open spec fn power(b: u64, e: u64) -> u64 {
        pow_mod(b as int, e as nat, Self::modulus()) as u64
    }

    /// The multiplicative inverse where there is one, zero where there is none.
    pub open spec fn reciprocal(x: u64) -> u64 {
        inverse(x as int, Self::modulus()) as u64
    }

    /// Brings any `u64` to the canonical representative of its class.
    pub fn reduce(x: u64) -> (r: u64)
        ensures
            r == x % Self::MODULUS,
            Self::is_canonical(r),
    {
        if x >= Self::MODULUS {
            proof {
                lemma_fundamental_div_mod_converse(
                    x as int,
                    Self::modulus(),
                    1,
                    x - Self::modulus(),
                );
            }
            x - Self::MODULUS
        } else {
            proof {
                lemma_small_mod(x as nat, Self::modulus() as nat);
            }
            x
        }
    }

    /// Adds two elements.
    pub fn add(a: u64, b: u64) -> (r: u64)
        ensures
            r == Self::sum(a, b),
            Self::is_canonical(r),
    {
        let a1 = Self::reduce(a);
        let b1 = Self::reduce(b);
        let z = Self::MODULUS - b1;
        proof {
            lemma_add_mod_noop(a as int, b as int, Self::modulus());
        }
        if a1 < z {
            proof {
                lemma_small_mod((a1 + b1) as nat, Self::modulus() as nat);
            }
            a1 + b1
        } else {
            proof {
                lemma_fundamental_div_mod_converse(
                    a1 + b1,
                    Self::modulus(),
                    1,
                    a1 + b1 - Self::modulus(),
                );
            }
            a1 - z
        }
    }

    /// Subtracts `b` from `a`.
    pub fn sub(a: u64, b: u64) -> (r: u64)
        ensures
            r == Self::difference(a, b),
            Self::is_canonical(r),
    {
        let a1 = Self::reduce(a);
        let b1 = Self::reduce(b);
        proof {
            lemma_sub_mod_noop(a as int, b as int, Self::modulus());
        }
        if a1 >= b1 {
            proof {
                lemma_small_mod((a1 - b1) as nat, Self::modulus() as nat);
            }
            a1 - b1
        } else {
            proof {
                lemma_fundamental_div_mod_converse(
                    a1 - b1,
                    Self::modulus(),
                    -1,
                    a1 - b1 + Self::modulus(),
                );
            }
            Self::MODULUS - (b1 - a1)
        }
    }

    /// Multiplies two elements.
    pub fn mul(a: u64, b: u64) -> (r: u64)
        ensures
            r == Self::product(a, b),
            Self::is_canonical(r),
    {
        let wide: u128 = a as u128;
        proof {
            assert(a * b <= 0xffff_ffff_ffff_ffff * 0xffff_ffff_ffff_ffff) by (nonlinear_arith)
                requires
                    a <= 0xffff_ffff_ffff_ffff,
                    b <= 0xffff_ffff_ffff_ffff,
            ;
            lemma_mod_bound(a * b, Self::modulus());
        }
        let reduced: u128 = (wide * (b as u128)) % (Self::MODULUS as u128);
        reduced as u64
    }

    /// Raises `b` to the power `e`.
    pub fn exp(b: u64, e: u64) -> (r: u64)
        ensures
            r == Self::power(b, e),
            Self::is_canonical(r),
    {
        let mut acc: u64 = 1;
        let mut base: u64 = Self::reduce(b);
        let mut k: u64 = e;
        proof {
            lemma_pow_mod_noop(b as int, e as nat, Self::modulus());
            assert(1 * pow(base as int, k as nat) == pow(base as int, k as nat));
        }
        while k > 0
            invariant
                acc < Self::modulus(),
                base < Self::modulus(),
                (acc * pow(base as int, k as nat)) % Self::modulus() == pow(b as int, e as nat)
                    % Self::modulus(),
            decreases k,
        {
            let ghost acc0 = acc;
            let ghost base0 = base;
            if k % 2 == 1 {
                acc = Self::mul(acc, base);
            }
            base = Self::mul(base, base);
            proof {
                lemma_small_mod(acc as nat, Self::modulus() as nat);
                lemma_small_mod(base as nat, Self::modulus() as nat);
                lemma_small_mod(acc0 as nat, Self::modulus() as nat);
                lemma_square_and_multiply(
                    acc0 as int,
                    base0 as int,
                    k as nat,
                    Self::modulus(),
                    acc as int,
                    base as int,
                );
            }
            k = k / 2;
        }
        proof {
            lemma_pow0(base as int);
            assert(acc * 1 == acc);
            lemma_small_mod(acc as nat, Self::modulus() as nat);
        }
        acc
    }

    /// Inverts `x`: the result times `x` is one, but for the multiples of the modulus,
    /// whose inverse is put at zero.
    pub fn inv(x: u64) -> (r: u64)
        ensures
            r == Self::reciprocal(x),
            Self::is_canonical(r),
            x % Self::MODULUS != 0 ==> Self::product(x, r) == 1,
            x % Self::MODULUS == 0 ==> r == 0,
    {
        proof {
            lemma_field(x as int);
            if x % Self::MODULUS == 0 {
                crate::math::modular::lemma_zero_is_no_unit(x as int, Self::modulus());
            }
        }
        let a = Self::reduce(x);
        let mut r0: u64 = Self::MODULUS;
        let mut r1: u64 = a;
        let mut t0: u64 = 0;
        let mut t1: u64 = 1;
        proof {
            assert(0 * a == 0 && 1 * a == a);
            lemma_mod_self_0(Self::modulus());
            lemma_small_mod(0, Self::modulus() as nat);
        }
        while r1 != 0
            invariant
                a < Self::modulus(),
                0 < r0 <= Self::modulus(),
                r1 < Self::modulus(),
                t0 < Self::modulus(),
                t1 < Self::modulus(),
                (t0 * a) % Self::modulus() == (r0 as int) % Self::modulus(),
                (t1 * a) % Self::modulus() == (r1 as int) % Self::modulus(),
                forall|d: int| #[trigger]
                    common_divisor(d, r0 as int, r1 as int) ==> common_divisor(
                        d,
                        Self::modulus(),
                        a as int,
                    ),
            decreases r1,
        {
            let q = r0 / r1;
            let r2 = r0 % r1;
            let t2 = Self::sub(t0, Self::mul(q, t1));
            proof {
                let m = Self::modulus();
                lemma_fundamental_div_mod(r0 as int, r1 as int);
                assert(r2 == r0 - q * r1) by (nonlinear_arith)
                    requires
                        r0 == r1 * q + r2,
                ;
                lemma_sub_mod_noop_right(t0 as int, q * t1, m);
                lemma_small_mod(t2 as nat, m as nat);
                lemma_cofactor_step(
                    a as int,
                    m,
                    r0 as int,
                    r1 as int,
                    t0 as int,
                    t1 as int,
                    q as int,
                    t2 as int,
                );
                assert forall|d: int| #[trigger]
                    common_divisor(d, r1 as int, r2 as int) implies common_divisor(
                    d,
                    m,
                    a as int,
                ) by {
                    lemma_common_divisor_unwinds(d, r0 as int, r1 as int, q as int);
                }
            }
            r0 = r1;
            r1 = r2;
            t0 = t1;
            t1 = t2;
        }
        proof {
            let m = Self::modulus();
            lemma_mul_mod_noop_left(x as int, t0 as int, m);
            assert(a * t0 == t0 * a) by (nonlinear_arith);
            if r0 == 1 {
                lemma_small_mod(1, m as nat);
                assert(is_inverse_of(t0 as int, x as int, m));
                lemma_inverse_is(x as int, t0 as int, m);
            } else {
                lemma_mod_self_0(r0 as int);
                lemma_small_mod(0, r0 as nat);
                assert(common_divisor(r0 as int, r0 as int, r1 as int));
                lemma_multiple_shares_divisor(x as int, a as int, r0 as int, m);
                lemma_shared_divisor_is_no_unit(x as int, r0 as int, m);
            }
        }
        if r0 == 1 {
            t0
        } else {
            0
        }
    }
}


/// The element of multiplicative order `2^32` from which every root of unity is drawn.
pub const G: u64 = 8387321423513296549;

/// `order` is a power of two for which the field has a root of unity.
pub open spec fn has_root_of_unity(order: int) -> bool {
    exists|k: nat| k <= 32 && order == #[trigger] pow2(k)
}

/// The root of unity of the given order: `G` raised to `2^32 / order`.
pub open spec fn root_of_unity(order: int) -> u64 {
    pow_mod(G as int, (pow2(32) / (order as nat)) as nat, F64::modulus()) as u64
}

/// Squaring a power of the generator doubles its exponent.
proof fn lemma_generator_squares(j: nat, s: int, t: int)
    requires
        pow(G as int, pow2(j)) % F64::modulus() == s,
        (s * s) % F64::modulus() == t,
    ensures
        pow(G as int, pow2(j + 1)) % F64::modulus() == t,
{
    let m = F64::modulus();
    let p = pow(G as int, pow2(j));
    lemma_pow2_unfold(j + 1);
    lemma_pow_square(G as int, pow2(j));
    lemma_pow_adds(G as int, pow2(j), pow2(j));
    assert(pow(G as int, pow2(j + 1)) == p * p);
    lemma_mod_twice(p, m);
    lemma_mod_bound(p, m);
    lemma_small_mod(s as nat, m as nat);
    lemma_mul_congruent(p, p, s, s, m);
}

/// The generator raised to `2^31` is minus one, so its order is exactly `2^32`.
pub proof fn lemma_generator_order()
    ensures
        pow(G as int, pow2(31)) % F64::modulus() == F64::modulus() - 1,
{
    lemma2_to64();
    lemma_pow1(G as int);
    lemma_small_mod(G as nat, F64::modulus() as nat);
    lemma_generator_squares(0, 8387321423513296549, 5896509461063942767);
    lemma_generator_squares(1, 5896509461063942767, 10288815193268536461);
    lemma_generator_squares(2, 10288815193268536461, 14238805911617396635);
    lemma_generator_squares(3, 14238805911617396635, 7181311732736510435);
    lemma_generator_squares(4, 7181311732736510435, 16049702105596217239);
    lemma_generator_squares(5, 16049702105596217239, 8023577673969915460);
    lemma_generator_squares(6, 8023577673969915460, 3146727914296113240);
    lemma_generator_squares(7, 3146727914296113240, 16067787482948994095);
    lemma_generator_squares(8, 16067787482948994095, 7450050231497124385);
    lemma_generator_squares(9, 7450050231497124385, 8052353888440107888);
    lemma_generator_squares(10, 8052353888440107888, 16288720824018251754);
    lemma_generator_squares(11, 16288720824018251754, 4791871194951134231);
    lemma_generator_squares(12, 4791871194951134231, 7099954031846798441);
    lemma_generator_squares(13, 7099954031846798441, 6978013059548225973);
    lemma_generator_squares(14, 6978013059548225973, 5896950880499322217);
    lemma_generator_squares(15, 5896950880499322217, 14751731473932744865);
    lemma_generator_squares(16, 14751731473932744865, 6295990244963892369);
    lemma_generator_squares(17, 6295990244963892369, 11069288501388530876);
    lemma_generator_squares(18, 11069288501388530876, 3049275975503241398);
    lemma_generator_squares(19, 3049275975503241398, 15694181878484592356);
    lemma_generator_squares(20, 15694181878484592356, 12605344396966569130);
    lemma_generator_squares(21, 12605344396966569130, 5555288384635604246);
    lemma_generator_squares(22, 5555288384635604246, 18323190592631893048);
    lemma_generator_squares(23, 18323190592631893048, 14091326920083884342);
    lemma_generator_squares(24, 14091326920083884342, 908087845658109873);
    lemma_generator_squares(25, 908087845658109873, 5506619188710105479);
    lemma_generator_squares(26, 5506619188710105479, 4194934130384850757);
    lemma_generator_squares(27, 4194934130384850757, 7417386157105942348);
    lemma_generator_squares(28, 7417386157105942348, 10297626966994024018);
    lemma_generator_squares(29, 10297626966994024018, 14732444482215662861);
    lemma_generator_squares(30, 14732444482215662861, 18446743880436023296);
}

/// The root of unity of every supported order is principal, and that of order one is one.
pub proof fn lemma_root_of_unity_is_principal(order: int)
    requires
        has_root_of_unity(order),
    ensures
        order >= 2 ==> is_principal_root(root_of_unity(order) as int, order as nat, F64::modulus()),
        order == 1 ==> root_of_unity(order) == 1,
        root_of_unity(order) < F64::modulus(),
{
    let m = F64::modulus();
    let k = choose|k: nat| k <= 32 && order == #[trigger] pow2(k);
    let e = pow2(32) / (order as nat);
    lemma_pow2_pos(k);
    lemma_pow2_subtracts(k, 32);
    assert(e == pow2((32 - k) as nat));
    let r = pow(G as int, e);
    lemma_mod_bound(r, m);
    lemma_generator_order();
    lemma2_to64();
    if k == 0 {
        lemma_generator_squares(31, m - 1, 1);
    } else {
        let h = pow2((k - 1) as nat);
        lemma_pow2_unfold(k);
        assert(order / 2 == h);
        lemma_pow_mod_noop(r, h, m);
        lemma_pow_multiplies(G as int, e, h);
        lemma_pow2_adds((32 - k) as nat, (k - 1) as nat);
        assert(e * h == pow2(31));
    }
}

/// The root of unity of a domain `k` times as large as another, raised to `k`, is the
/// root of unity of the smaller domain.
pub proof fn lemma_root_of_larger_domain(order: int, k: int)
    requires
        has_root_of_unity(order),
        has_root_of_unity(order * k),
        k >= 1,
    ensures
        pow(root_of_unity(order * k) as int, k as nat) % F64::modulus() == root_of_unity(order),
{
    let m = F64::modulus();
    let a = choose|a: nat| a <= 32 && order == #[trigger] pow2(a);
    let b = choose|b: nat| b <= 32 && order * k == #[trigger] pow2(b);
    lemma_pow2_pos(a);
    lemma_pow2_pos(b);
    assert(order * k >= order) by (nonlinear_arith)
        requires
            order >= 1,
            k >= 1,
    ;
    if b < a {
        lemma_pow2_strictly_increases(b, a);
    }
    lemma_pow2_subtracts(a, b);
    assert(order * k == k * order + 0) by (nonlinear_arith);
    lemma_fundamental_div_mod_converse(order * k, order, k, 0);
    assert(k == pow2((b - a) as nat));
    lemma_pow2_subtracts(a, 32);
    lemma_pow2_subtracts(b, 32);
    lemma_pow2_adds((32 - b) as nat, (b - a) as nat);
    let small = pow2((32 - a) as nat);
    let large = pow2((32 - b) as nat);
    assert(large * k == small);
    let p = pow(G as int, large);
    lemma_pow_mod_noop(p, k as nat, m);
    lemma_pow_multiplies(G as int, large, k as nat);
    lemma_mod_bound(p, m);
    lemma_mod_bound(pow(G as int, small), m);
}

impl F64 {
    /// Tells whether the field has a root of unity of the given order: whether the
    /// order is a power of two not above `2^32`.
    pub fn supports_order(order: usize) -> (r: bool)
        ensures
            r == has_root_of_unity(order as int),
    {
        let mut k: u32 = 0;
        let mut p: u64 = 1;
        proof {
            lemma2_to64();
        }
        while k < 32
            invariant
                k <= 32,
                p == pow2(k as nat),
                p <= 0x1_0000_0000,
                forall|j: nat| j < k ==> order != #[trigger] pow2(j),
            decreases 32 - k,
        {
            if order as u64 == p {
                return true;
            }
            proof {
                lemma2_to64();
                lemma_pow2_unfold((k + 1) as nat);
                if k + 1 <= 32 {
                    lemma_pow2_strictly_increases(k as nat, 32);
                }
                if k + 1 < 32 {
                    lemma_pow2_strictly_increases((k + 1) as nat, 32);
                }
            }
            p = p * 2;
            k = k + 1;
        }
        order as u64 == p
    }

    /// Returns the root of unity of the given order.
    pub fn get_root_of_unity(order: usize) -> (r: u64)
        requires
            has_root_of_unity(order as int),
        ensures
            r == root_of_unity(order as int),
            Self::is_canonical(r),
            order >= 2 ==> is_principal_root(r as int, order as nat, Self::modulus()),
            order == 1 ==> r == 1,
    {
        proof {
            lemma_root_of_unity_is_principal(order as int);
            lemma2_to64();
            let k = choose|k: nat| k <= 32 && order == #[trigger] pow2(k);
            lemma_pow2_pos(k);
        }
        let e: u64 = 0x1_0000_0000u64 / (order as u64);
        Self::exp(G, e)
    }
}

/// The modulus is prime, so the residues form a field: every residue but zero has an
/// inverse, and raised to the modulus less one it gives one.
pub proof fn lemma_field(x: int)
    ensures
        is_prime(F64::modulus()),
        x % F64::modulus() != 0 ==> is_unit(x, F64::modulus()),
        x % F64::modulus() != 0 ==> pow(x, (F64::modulus() - 1) as nat) % F64::modulus() == 1,
{
    let m = F64::modulus();
    lemma_prime_modulus_64();
    lemma_order_certificate_proves_prime(m, 3, seq![(2int, 32nat), (29int, 1nat), (89int, 1nat), (1664071int, 1nat)]);
    let y = x % m;
    lemma_mod_bound(x, m);
    if y != 0 {
        assert(is_unit(y, m));
        lemma_inverse_of_unit(y, m);
        lemma_mul_mod_noop_left(x, inverse(y, m), m);
        assert(is_inverse_of(inverse(y, m), x, m));
        assert(pow(y, (m - 1) as nat) % m == 1);
        lemma_pow_mod_noop(x, (m - 1) as nat, m);
    }
}

} // verus!
