//! The certificates of primality of the two field moduli. A modulus is prime because
//! some element has full order modulo it; that the order is full is read off the
//! prime factors of the modulus less one, which are prime for the same reason, down
//! to primes small enough to be tried against every possible divisor. Each power
//! that a certificate needs is computed here one bit of the exponent at a time.
use crate::math::primes::{
    factored, is_order_certificate, is_prime, lemma_order_certificate_proves_prime,
    lemma_prime_by_trial,
};
use vstd::arithmetic::div_mod::*;
use vstd::arithmetic::power2::*;
use vstd::arithmetic::power::*;
use vstd::prelude::*;

verus! {

/// A small power, written out as a product.
pub open spec fn small_power(g: int, w: int) -> int {
    let p1 = g;
    let p2 = g * p1;
    let p3 = g * p2;
    if w == 0 {
        1
    } else if w == 1 {
        p1
    } else if w == 2 {
        p2
    } else {
        p3
    }
}

/// The written-out power is the power.
pub proof fn lemma_small_power(g: int, w: int)
    requires
        0 <= w < 4,
    ensures
        small_power(g, w) == pow(g, w as nat),
{
    reveal_with_fuel(pow, 5);
}

/// Appending one bit to an exponent: from the residue `r` of `g^e` to the residue of
/// `g^(2 e + bit)`, which is that of `r * r`, times `g` where the bit is set. The
/// caller names the quotient `q` that the division by `n` leaves.
pub proof fn lemma_next_bit(g: int, n: int, e: nat, r: int, bit: int, q: int, t: int) -> (next: nat)
    requires
        n > 0,
        bit == 0 || bit == 1,
        pow(g, e) % n == r,
        0 <= t < n,
        (r * r) * (if bit == 1 {
            g
        } else {
            1
        }) == q * n + t,
    ensures
        next == 2 * e + bit,
        pow(g, next) % n == t,
{
    let p = pow(g, e);
    let gb = if bit == 1 {
        g
    } else {
        1
    };
    lemma_pow_adds(g, e, e);
    lemma_mul_mod_noop(p, p, n);
    if bit == 1 {
        lemma_pow_adds(g, 2 * e, 1);
        lemma_pow1(g);
    } else {
        assert(pow(g, 2 * e) * 1 == pow(g, 2 * e));
    }
    assert(pow(g, (2 * e + bit) as nat) == (p * p) * gb);
    lemma_mul_mod_noop_left(p * p, gb, n);
    lemma_mul_mod_noop_left(r * r, gb, n);
    lemma_mod_bound(p, n);
    lemma_small_mod(r as nat, n as nat);
    lemma_fundamental_div_mod_converse((r * r) * gb, n, q, t);
    (2 * e + bit) as nat
}

/// 2 is prime: nothing from two up to its square root divides it.
pub proof fn lemma_prime_2()
    ensures
        is_prime(2),
{
    lemma_prime_by_trial(2, 1);
}

/// 3 is prime: nothing from two up to its square root divides it.
pub proof fn lemma_prime_3()
    ensures
        is_prime(3),
{
    lemma_prime_by_trial(3, 1);
}

/// 5 is prime: nothing from two up to its square root divides it.
pub proof fn lemma_prime_5()
    ensures
        is_prime(5),
{
    assert forall|d: int| 1 < d <= 2 implies #[trigger] (5int % d) != 0 by {
        if d == 2 {
        }
    }
    lemma_prime_by_trial(5, 2);
}

/// 7 is prime: nothing from two up to its square root divides it.
pub proof fn lemma_prime_7()
    ensures
        is_prime(7),
{
    assert forall|d: int| 1 < d <= 2 implies #[trigger] (7int % d) != 0 by {
        if d == 2 {
        }
    }
    lemma_prime_by_trial(7, 2);
}

/// 17 is prime: nothing from two up to its square root divides it.
pub proof fn lemma_prime_17()
    ensures
        is_prime(17),
{
    assert forall|d: int| 1 < d <= 4 implies #[trigger] (17int % d) != 0 by {
        if d == 2 {
        } else if d == 3 {
        } else if d == 4 {
        }
    }
    lemma_prime_by_trial(17, 4);
}

/// 19 is prime: nothing from two up to its square root divides it.
pub proof fn lemma_prime_19()
    ensures
        is_prime(19),
{
    assert forall|d: int| 1 < d <= 4 implies #[trigger] (19int % d) != 0 by {
        if d == 2 {
        } else if d == 3 {
        } else if d == 4 {
        }
    }
    lemma_prime_by_trial(19, 4);
}

/// 29 is prime: nothing from two up to its square root divides it.
pub proof fn lemma_prime_29()
    ensures
        is_prime(29),
{
    assert forall|d: int| 1 < d <= 5 implies #[trigger] (29int % d) != 0 by {
        if d == 2 {
        } else if d == 3 {
        } else if d == 4 {
        } else if d == 5 {
        }
    }
    lemma_prime_by_trial(29, 5);
}

/// 89 is prime: nothing from two up to its square root divides it.
pub proof fn lemma_prime_89()
    ensures
        is_prime(89),
{
    assert forall|d: int| 1 < d <= 9 implies #[trigger] (89int % d) != 0 by {
        if d == 2 {
        } else if d == 3 {
        } else if d == 4 {
        } else if d == 5 {
        } else if d == 6 {
        } else if d == 7 {
        } else if d == 8 {
        } else if d == 9 {
        }
    }
    lemma_prime_by_trial(89, 9);
}

/// 103 is prime: nothing from two up to its square root divides it.
pub proof fn lemma_prime_103()
    ensures
        is_prime(103),
{
    assert forall|d: int| 1 < d <= 10 implies #[trigger] (103int % d) != 0 by {
        if d == 2 {
        } else if d == 3 {
        } else if d == 4 {
        } else if d == 5 {
        } else if d == 6 {
        } else if d == 7 {
        } else if d == 8 {
        } else if d == 9 {
        } else if d == 10 {
        }
    }
    lemma_prime_by_trial(103, 10);
}

/// 107 is prime: nothing from two up to its square root divides it.
pub proof fn lemma_prime_107()
    ensures
        is_prime(107),
{
    assert forall|d: int| 1 < d <= 10 implies #[trigger] (107int % d) != 0 by {
        if d == 2 {
        } else if d == 3 {
        } else if d == 4 {
        } else if d == 5 {
        } else if d == 6 {
        } else if d == 7 {
        } else if d == 8 {
        } else if d == 9 {
        } else if d == 10 {
        }
    }
    lemma_prime_by_trial(107, 10);
}

/// 139 is prime: nothing from two up to its square root divides it.
pub proof fn lemma_prime_139()
    ensures
        is_prime(139),
{
    assert forall|d: int| 1 < d <= 11 implies #[trigger] (139int % d) != 0 by {
        if d == 2 {
        } else if d == 3 {
        } else if d == 4 {
        } else if d == 5 {
        } else if d == 6 {
        } else if d == 7 {
        } else if d == 8 {
        } else if d == 9 {
        } else if d == 10 {
        } else if d == 11 {
        }
    }
    lemma_prime_by_trial(139, 11);
}

/// 157 is prime: nothing from two up to its square root divides it.
pub proof fn lemma_prime_157()
    ensures
        is_prime(157),
{
    assert forall|d: int| 1 < d <= 12 implies #[trigger] (157int % d) != 0 by {
        if d == 2 {
        } else if d == 3 {
        } else if d == 4 {
        } else if d == 5 {
        } else if d == 6 {
        } else if d == 7 {
        } else if d == 8 {
        } else if d == 9 {
        } else if d == 10 {
        } else if d == 11 {
        } else if d == 12 {
        }
    }
    lemma_prime_by_trial(157, 12);
}

/// 181 is prime: nothing from two up to its square root divides it.
pub proof fn lemma_prime_181()
    ensures
        is_prime(181),
{
    assert forall|d: int| 1 < d <= 13 implies #[trigger] (181int % d) != 0 by {
        if d == 2 {
        } else if d == 3 {
        } else if d == 4 {
        } else if d == 5 {
        } else if d == 6 {
        } else if d == 7 {
        } else if d == 8 {
        } else if d == 9 {
        } else if d == 10 {
        } else if d == 11 {
        } else if d == 12 {
        } else if d == 13 {
        }
    }
    lemma_prime_by_trial(181, 13);
}

/// 283 is prime: nothing from two up to its square root divides it.
pub proof fn lemma_prime_283()
    ensures
        is_prime(283),
{
    assert forall|d: int| 1 < d <= 16 implies #[trigger] (283int % d) != 0 by {
        if d == 2 {
        } else if d == 3 {
        } else if d == 4 {
        } else if d == 5 {
        } else if d == 6 {
        } else if d == 7 {
        } else if d == 8 {
        } else if d == 9 {
        } else if d == 10 {
        } else if d == 11 {
        } else if d == 12 {
        } else if d == 13 {
        } else if d == 14 {
        } else if d == 15 {
        } else if d == 16 {
        }
    }
    lemma_prime_by_trial(283, 16);
}

/// One more bit of an exponent of 14, modulo 1031.
proof fn lemma_next_bit_1031(e: nat, r: int, bit: int, q: int) -> (next: nat)
    requires
        bit == 0 || bit == 1,
        pow(14, e) % 1031 == r,
        0 <= (r * r) * (if bit == 1 {
            14int
        } else {
            1int
        }) - q * 1031 < 1031,
    ensures
        next == 2 * e + bit,
        pow(14, next) % 1031 == (r * r) * (if bit == 1 {
            14int
        } else {
            1int
        }) - q * 1031,
{
    let gb = if bit == 1 {
        14int
    } else {
        1int
    };
    lemma_next_bit(14, 1031, e, r, bit, q, (r * r) * gb - q * 1031)
}

/// 14 raised to 1030 is one modulo 1031: the residue is 1.
proof fn lemma_power_1031_full()
    ensures
        pow(14, 1030) % 1031 == 1,
{
    lemma_pow0(14);
    lemma_small_mod(1, 1031);
    let e0: nat = 0;
    let e1 = lemma_next_bit_1031(e0, 1, 1, 0int);
    let e2 = lemma_next_bit_1031(e1, 14, 0, 0int);
    let e3 = lemma_next_bit_1031(e2, 196, 0, 37int);
    let e4 = lemma_next_bit_1031(e3, 269, 0, 70int);
    let e5 = lemma_next_bit_1031(e4, 191, 0, 35int);
    let e6 = lemma_next_bit_1031(e5, 396, 0, 152int);
    let e7 = lemma_next_bit_1031(e6, 104, 0, 10int);
    let e8 = lemma_next_bit_1031(e7, 506, 0, 248int);
    let e9 = lemma_next_bit_1031(e8, 348, 1, 1644int);
    let e10 = lemma_next_bit_1031(e9, 492, 1, 3286int);
    let e11 = lemma_next_bit_1031(e10, 1030, 0, 1029int);
}

/// 14 raised to 515 is not one modulo 1031: the residue is 1030.
proof fn lemma_power_1031_without_2()
    ensures
        pow(14, 515) % 1031 == 1030,
{
    lemma_pow0(14);
    lemma_small_mod(1, 1031);
    let e0: nat = 0;
    let e1 = lemma_next_bit_1031(e0, 1, 1, 0int);
    let e2 = lemma_next_bit_1031(e1, 14, 0, 0int);
    let e3 = lemma_next_bit_1031(e2, 196, 0, 37int);
    let e4 = lemma_next_bit_1031(e3, 269, 0, 70int);
    let e5 = lemma_next_bit_1031(e4, 191, 0, 35int);
    let e6 = lemma_next_bit_1031(e5, 396, 0, 152int);
    let e7 = lemma_next_bit_1031(e6, 104, 0, 10int);
    let e8 = lemma_next_bit_1031(e7, 506, 0, 248int);
    let e9 = lemma_next_bit_1031(e8, 348, 1, 1644int);
    let e10 = lemma_next_bit_1031(e9, 492, 1, 3286int);
}

/// 14 raised to 206 is not one modulo 1031: the residue is 264.
proof fn lemma_power_1031_without_5()
    ensures
        pow(14, 206) % 1031 == 264,
{
    lemma_pow0(14);
    lemma_small_mod(1, 1031);
    let e0: nat = 0;
    let e1 = lemma_next_bit_1031(e0, 1, 1, 0int);
    let e2 = lemma_next_bit_1031(e1, 14, 1, 2int);
    let e3 = lemma_next_bit_1031(e2, 682, 0, 451int);
    let e4 = lemma_next_bit_1031(e3, 143, 0, 19int);
    let e5 = lemma_next_bit_1031(e4, 860, 1, 10043int);
    let e6 = lemma_next_bit_1031(e5, 67, 1, 60int);
    let e7 = lemma_next_bit_1031(e6, 986, 1, 13201int);
    let e8 = lemma_next_bit_1031(e7, 513, 0, 255int);
}

/// 14 raised to 10 is not one modulo 1031: the residue is 320.
proof fn lemma_power_1031_without_103()
    ensures
        pow(14, 10) % 1031 == 320,
{
    lemma_pow0(14);
    lemma_small_mod(1, 1031);
    let e0: nat = 0;
    let e1 = lemma_next_bit_1031(e0, 1, 1, 0int);
    let e2 = lemma_next_bit_1031(e1, 14, 0, 0int);
    let e3 = lemma_next_bit_1031(e2, 196, 1, 521int);
    let e4 = lemma_next_bit_1031(e3, 673, 0, 439int);
}

/// 1031 is prime: 14 has full order modulo it.
pub proof fn lemma_prime_1031()
    ensures
        is_prime(1031),
        is_order_certificate(1031, 14, seq![(2int, 1nat), (5int, 1nat), (103int, 1nat)]),
{
    lemma_prime_2();
    lemma_prime_5();
    lemma_prime_103();
    lemma2_to64();
    lemma2_to64_rest();
    let f0 = Seq::<(int, nat)>::empty();
    assert(factored(f0) == 1);
    let f1 = f0.push((2int, 1nat));
    assert(f1.drop_last() =~= f0);
    lemma_pow1(2);
    assert(factored(f1) == 2) by {
        assert(factored(f1) == pow(2, 1) * factored(f0));
    }
    let f2 = f1.push((5int, 1nat));
    assert(f2.drop_last() =~= f1);
    lemma_pow1(5);
    assert(factored(f2) == 10) by {
        assert(factored(f2) == pow(5, 1) * factored(f1));
    }
    let f3 = f2.push((103int, 1nat));
    assert(f3.drop_last() =~= f2);
    lemma_pow1(103);
    assert(factored(f3) == 1030) by {
        assert(factored(f3) == pow(103, 1) * factored(f2));
    }
    let factors = seq![(2int, 1nat), (5int, 1nat), (103int, 1nat)];
    assert(factors =~= f3);
    lemma_power_1031_full();
    lemma_power_1031_without_2();
    lemma_power_1031_without_5();
    lemma_power_1031_without_103();
    assert forall|i: int| 0 <= i < factors.len() implies is_prime((#[trigger] factors[i]).0) by {
        if i == 0 {
            assert(factors[0].0 == 2);
        } else if i == 1 {
            assert(factors[1].0 == 5);
        } else if i == 2 {
            assert(factors[2].0 == 103);
        }
    }
    assert forall|i: int| 0 <= i < factors.len() implies pow(
        14,
        ((1031 - 1) / (#[trigger] factors[i]).0) as nat,
    ) % 1031 != 1 by {
        if i == 0 {
            assert(factors[0].0 == 2);
            assert((1031 - 1) / 2 == 515);
        } else if i == 1 {
            assert(factors[1].0 == 5);
            assert((1031 - 1) / 5 == 206);
        } else if i == 2 {
            assert(factors[2].0 == 103);
            assert((1031 - 1) / 103 == 10);
        }
    }
    lemma_order_certificate_proves_prime(1031, 14, factors);
}

/// One more bit of an exponent of 3, modulo 14009.
proof fn lemma_next_bit_14009(e: nat, r: int, bit: int, q: int) -> (next: nat)
    requires
        bit == 0 || bit == 1,
        pow(3, e) % 14009 == r,
        0 <= (r * r) * (if bit == 1 {
            3int
        } else {
            1int
        }) - q * 14009 < 14009,
    ensures
        next == 2 * e + bit,
        pow(3, next) % 14009 == (r * r) * (if bit == 1 {
            3int
        } else {
            1int
        }) - q * 14009,
{
    let gb = if bit == 1 {
        3int
    } else {
        1int
    };
    lemma_next_bit(3, 14009, e, r, bit, q, (r * r) * gb - q * 14009)
}

/// 3 raised to 14008 is one modulo 14009: the residue is 1.
proof fn lemma_power_14009_full()
    ensures
        pow(3, 14008) % 14009 == 1,
{
    lemma_pow0(3);
    lemma_small_mod(1, 14009);
    let e0: nat = 0;
    let e1 = lemma_next_bit_14009(e0, 1, 1, 0int);
    let e2 = lemma_next_bit_14009(e1, 3, 1, 0int);
    let e3 = lemma_next_bit_14009(e2, 27, 0, 0int);
    let e4 = lemma_next_bit_14009(e3, 729, 1, 113int);
    let e5 = lemma_next_bit_14009(e4, 11306, 1, 27373int);
    let e6 = lemma_next_bit_14009(e5, 8551, 0, 5219int);
    let e7 = lemma_next_bit_14009(e6, 6630, 1, 9413int);
    let e8 = lemma_next_bit_14009(e7, 3983, 0, 1132int);
    let e9 = lemma_next_bit_14009(e8, 6101, 1, 7971int);
    let e10 = lemma_next_bit_14009(e9, 864, 1, 159int);
    let e11 = lemma_next_bit_14009(e10, 12057, 1, 31130int);
    let e12 = lemma_next_bit_14009(e11, 13577, 0, 13158int);
    let e13 = lemma_next_bit_14009(e12, 4507, 0, 1449int);
    let e14 = lemma_next_bit_14009(e13, 14008, 0, 14007int);
}

/// 3 raised to 7004 is not one modulo 14009: the residue is 14008.
proof fn lemma_power_14009_without_2()
    ensures
        pow(3, 7004) % 14009 == 14008,
{
    lemma_pow0(3);
    lemma_small_mod(1, 14009);
    let e0: nat = 0;
    let e1 = lemma_next_bit_14009(e0, 1, 1, 0int);
    let e2 = lemma_next_bit_14009(e1, 3, 1, 0int);
    let e3 = lemma_next_bit_14009(e2, 27, 0, 0int);
    let e4 = lemma_next_bit_14009(e3, 729, 1, 113int);
    let e5 = lemma_next_bit_14009(e4, 11306, 1, 27373int);
    let e6 = lemma_next_bit_14009(e5, 8551, 0, 5219int);
    let e7 = lemma_next_bit_14009(e6, 6630, 1, 9413int);
    let e8 = lemma_next_bit_14009(e7, 3983, 0, 1132int);
    let e9 = lemma_next_bit_14009(e8, 6101, 1, 7971int);
    let e10 = lemma_next_bit_14009(e9, 864, 1, 159int);
    let e11 = lemma_next_bit_14009(e10, 12057, 1, 31130int);
    let e12 = lemma_next_bit_14009(e11, 13577, 0, 13158int);
    let e13 = lemma_next_bit_14009(e12, 4507, 0, 1449int);
}

/// 3 raised to 824 is not one modulo 14009: the residue is 12429.
proof fn lemma_power_14009_without_17()
    ensures
        pow(3, 824) % 14009 == 12429,
{
    lemma_pow0(3);
    lemma_small_mod(1, 14009);
    let e0: nat = 0;
    let e1 = lemma_next_bit_14009(e0, 1, 1, 0int);
    let e2 = lemma_next_bit_14009(e1, 3, 1, 0int);
    let e3 = lemma_next_bit_14009(e2, 27, 0, 0int);
    let e4 = lemma_next_bit_14009(e3, 729, 0, 37int);
    let e5 = lemma_next_bit_14009(e4, 13108, 1, 36794int);
    let e6 = lemma_next_bit_14009(e5, 11846, 1, 30050int);
    let e7 = lemma_next_bit_14009(e6, 12698, 1, 34529int);
    let e8 = lemma_next_bit_14009(e7, 851, 0, 51int);
    let e9 = lemma_next_bit_14009(e8, 9742, 0, 6774int);
    let e10 = lemma_next_bit_14009(e9, 9598, 0, 6575int);
}

/// 3 raised to 136 is not one modulo 14009: the residue is 2754.
proof fn lemma_power_14009_without_103()
    ensures
        pow(3, 136) % 14009 == 2754,
{
    lemma_pow0(3);
    lemma_small_mod(1, 14009);
    let e0: nat = 0;
    let e1 = lemma_next_bit_14009(e0, 1, 1, 0int);
    let e2 = lemma_next_bit_14009(e1, 3, 0, 0int);
    let e3 = lemma_next_bit_14009(e2, 9, 0, 0int);
    let e4 = lemma_next_bit_14009(e3, 81, 0, 0int);
    let e5 = lemma_next_bit_14009(e4, 6561, 1, 9218int);
    let e6 = lemma_next_bit_14009(e5, 5201, 0, 1930int);
    let e7 = lemma_next_bit_14009(e6, 13031, 0, 12121int);
    let e8 = lemma_next_bit_14009(e7, 3872, 0, 1070int);
}

/// 14009 is prime: 3 has full order modulo it.
pub proof fn lemma_prime_14009()
    ensures
        is_prime(14009),
        is_order_certificate(14009, 3, seq![(2int, 3nat), (17int, 1nat), (103int, 1nat)]),
{
    lemma_prime_2();
    lemma_prime_17();
    lemma_prime_103();
    lemma2_to64();
    lemma2_to64_rest();
    let f0 = Seq::<(int, nat)>::empty();
    assert(factored(f0) == 1);
    let f1 = f0.push((2int, 3nat));
    assert(f1.drop_last() =~= f0);
    lemma_small_power(2, 3);
    assert(pow(2, 3) == 8);
    assert(factored(f1) == 8) by {
        assert(factored(f1) == pow(2, 3) * factored(f0));
    }
    let f2 = f1.push((17int, 1nat));
    assert(f2.drop_last() =~= f1);
    lemma_pow1(17);
    assert(factored(f2) == 136) by {
        assert(factored(f2) == pow(17, 1) * factored(f1));
    }
    let f3 = f2.push((103int, 1nat));
    assert(f3.drop_last() =~= f2);
    lemma_pow1(103);
    assert(factored(f3) == 14008) by {
        assert(factored(f3) == pow(103, 1) * factored(f2));
    }
    let factors = seq![(2int, 3nat), (17int, 1nat), (103int, 1nat)];
    assert(factors =~= f3);
    lemma_power_14009_full();
    lemma_power_14009_without_2();
    lemma_power_14009_without_17();
    lemma_power_14009_without_103();
    assert forall|i: int| 0 <= i < factors.len() implies is_prime((#[trigger] factors[i]).0) by {
        if i == 0 {
            assert(factors[0].0 == 2);
        } else if i == 1 {
            assert(factors[1].0 == 17);
        } else if i == 2 {
            assert(factors[2].0 == 103);
        }
    }
    assert forall|i: int| 0 <= i < factors.len() implies pow(
        3,
        ((14009 - 1) / (#[trigger] factors[i]).0) as nat,
    ) % 14009 != 1 by {
        if i == 0 {
            assert(factors[0].0 == 2);
            assert((14009 - 1) / 2 == 7004);
        } else if i == 1 {
            assert(factors[1].0 == 17);
            assert((14009 - 1) / 17 == 824);
        } else if i == 2 {
            assert(factors[2].0 == 103);
            assert((14009 - 1) / 103 == 136);
        }
    }
    lemma_order_certificate_proves_prime(14009, 3, factors);
}

/// One more bit of an exponent of 2, modulo 28019.
proof fn lemma_next_bit_28019(e: nat, r: int, bit: int, q: int) -> (next: nat)
    requires
        bit == 0 || bit == 1,
        pow(2, e) % 28019 == r,
        0 <= (r * r) * (if bit == 1 {
            2int
        } else {
            1int
        }) - q * 28019 < 28019,
    ensures
        next == 2 * e + bit,
        pow(2, next) % 28019 == (r * r) * (if bit == 1 {
            2int
        } else {
            1int
        }) - q * 28019,
{
    let gb = if bit == 1 {
        2int
    } else {
        1int
    };
    lemma_next_bit(2, 28019, e, r, bit, q, (r * r) * gb - q * 28019)
}

/// 2 raised to 28018 is one modulo 28019: the residue is 1.
proof fn lemma_power_28019_full()
    ensures
        pow(2, 28018) % 28019 == 1,
{
    lemma_pow0(2);
    lemma_small_mod(1, 28019);
    let e0: nat = 0;
    let e1 = lemma_next_bit_28019(e0, 1, 1, 0int);
    let e2 = lemma_next_bit_28019(e1, 2, 1, 0int);
    let e3 = lemma_next_bit_28019(e2, 8, 0, 0int);
    let e4 = lemma_next_bit_28019(e3, 64, 1, 0int);
    let e5 = lemma_next_bit_28019(e4, 8192, 1, 4790int);
    let e6 = lemma_next_bit_28019(e5, 6718, 0, 1610int);
    let e7 = lemma_next_bit_28019(e6, 20934, 1, 31281int);
    let e8 = lemma_next_bit_28019(e7, 2373, 0, 200int);
    let e9 = lemma_next_bit_28019(e8, 27329, 1, 53311int);
    let e10 = lemma_next_bit_28019(e9, 27573, 1, 54268int);
    let e11 = lemma_next_bit_28019(e10, 5566, 1, 2211int);
    let e12 = lemma_next_bit_28019(e11, 10703, 0, 4088int);
    let e13 = lemma_next_bit_28019(e12, 12537, 0, 5609int);
    let e14 = lemma_next_bit_28019(e13, 17798, 1, 22610int);
    let e15 = lemma_next_bit_28019(e14, 28018, 0, 28017int);
}

/// 2 raised to 14009 is not one modulo 28019: the residue is 28018.
proof fn lemma_power_28019_without_2()
    ensures
        pow(2, 14009) % 28019 == 28018,
{
    lemma_pow0(2);
    lemma_small_mod(1, 28019);
    let e0: nat = 0;
    let e1 = lemma_next_bit_28019(e0, 1, 1, 0int);
    let e2 = lemma_next_bit_28019(e1, 2, 1, 0int);
    let e3 = lemma_next_bit_28019(e2, 8, 0, 0int);
    let e4 = lemma_next_bit_28019(e3, 64, 1, 0int);
    let e5 = lemma_next_bit_28019(e4, 8192, 1, 4790int);
    let e6 = lemma_next_bit_28019(e5, 6718, 0, 1610int);
    let e7 = lemma_next_bit_28019(e6, 20934, 1, 31281int);
    let e8 = lemma_next_bit_28019(e7, 2373, 0, 200int);
    let e9 = lemma_next_bit_28019(e8, 27329, 1, 53311int);
    let e10 = lemma_next_bit_28019(e9, 27573, 1, 54268int);
    let e11 = lemma_next_bit_28019(e10, 5566, 1, 2211int);
    let e12 = lemma_next_bit_28019(e11, 10703, 0, 4088int);
    let e13 = lemma_next_bit_28019(e12, 12537, 0, 5609int);
    let e14 = lemma_next_bit_28019(e13, 17798, 1, 22610int);
}

/// 2 raised to 2 is not one modulo 28019: the residue is 4.
proof fn lemma_power_28019_without_14009()
    ensures
        pow(2, 2) % 28019 == 4,
{
    lemma_pow0(2);
    lemma_small_mod(1, 28019);
    let e0: nat = 0;
    let e1 = lemma_next_bit_28019(e0, 1, 1, 0int);
    let e2 = lemma_next_bit_28019(e1, 2, 0, 0int);
}

/// 28019 is prime: 2 has full order modulo it.
pub proof fn lemma_prime_28019()
    ensures
        is_prime(28019),
        is_order_certificate(28019, 2, seq![(2int, 1nat), (14009int, 1nat)]),
{
    lemma_prime_2();
    lemma_prime_14009();
    lemma2_to64();
    lemma2_to64_rest();
    let f0 = Seq::<(int, nat)>::empty();
    assert(factored(f0) == 1);
    let f1 = f0.push((2int, 1nat));
    assert(f1.drop_last() =~= f0);
    lemma_pow1(2);
    assert(factored(f1) == 2) by {
        assert(factored(f1) == pow(2, 1) * factored(f0));
    }
    let f2 = f1.push((14009int, 1nat));
    assert(f2.drop_last() =~= f1);
    lemma_pow1(14009);
    assert(factored(f2) == 28018) by {
        assert(factored(f2) == pow(14009, 1) * factored(f1));
    }
    let factors = seq![(2int, 1nat), (14009int, 1nat)];
    assert(factors =~= f2);
    lemma_power_28019_full();
    lemma_power_28019_without_2();
    lemma_power_28019_without_14009();
    assert forall|i: int| 0 <= i < factors.len() implies is_prime((#[trigger] factors[i]).0) by {
        if i == 0 {
            assert(factors[0].0 == 2);
        } else if i == 1 {
            assert(factors[1].0 == 14009);
        }
    }
    assert forall|i: int| 0 <= i < factors.len() implies pow(
        2,
        ((28019 - 1) / (#[trigger] factors[i]).0) as nat,
    ) % 28019 != 1 by {
        if i == 0 {
            assert(factors[0].0 == 2);
            assert((28019 - 1) / 2 == 14009);
        } else if i == 1 {
            assert(factors[1].0 == 14009);
            assert((28019 - 1) / 14009 == 2);
        }
    }
    lemma_order_certificate_proves_prime(28019, 2, factors);
}

/// One more bit of an exponent of 2, modulo 55469.
proof fn lemma_next_bit_55469(e: nat, r: int, bit: int, q: int) -> (next: nat)
    requires
        bit == 0 || bit == 1,
        pow(2, e) % 55469 == r,
        0 <= (r * r) * (if bit == 1 {
            2int
        } else {
            1int
        }) - q * 55469 < 55469,
    ensures
        next == 2 * e + bit,
        pow(2, next) % 55469 == (r * r) * (if bit == 1 {
            2int
        } else {
            1int
        }) - q * 55469,
{
    let gb = if bit == 1 {
        2int
    } else {
        1int
    };
    lemma_next_bit(2, 55469, e, r, bit, q, (r * r) * gb - q * 55469)
}

/// 2 raised to 55468 is one modulo 55469: the residue is 1.
proof fn lemma_power_55469_full()
    ensures
        pow(2, 55468) % 55469 == 1,
{
    lemma_pow0(2);
    lemma_small_mod(1, 55469);
    let e0: nat = 0;
    let e1 = lemma_next_bit_55469(e0, 1, 1, 0int);
    let e2 = lemma_next_bit_55469(e1, 2, 1, 0int);
    let e3 = lemma_next_bit_55469(e2, 8, 0, 0int);
    let e4 = lemma_next_bit_55469(e3, 64, 1, 0int);
    let e5 = lemma_next_bit_55469(e4, 8192, 1, 2419int);
    let e6 = lemma_next_bit_55469(e5, 38217, 0, 26330int);
    let e7 = lemma_next_bit_55469(e6, 40319, 0, 29306int);
    let e8 = lemma_next_bit_55469(e7, 47247, 0, 40243int);
    let e9 = lemma_next_bit_55469(e8, 40042, 1, 57811int);
    let e10 = lemma_next_bit_55469(e9, 5169, 0, 481int);
    let e11 = lemma_next_bit_55469(e10, 37972, 1, 51988int);
    let e12 = lemma_next_bit_55469(e11, 23196, 0, 9700int);
    let e13 = lemma_next_bit_55469(e12, 5116, 1, 943int);
    let e14 = lemma_next_bit_55469(e13, 39645, 1, 56670int);
    let e15 = lemma_next_bit_55469(e14, 23820, 0, 10228int);
    let e16 = lemma_next_bit_55469(e15, 55468, 0, 55467int);
}

/// 2 raised to 27734 is not one modulo 55469: the residue is 55468.
proof fn lemma_power_55469_without_2()
    ensures
        pow(2, 27734) % 55469 == 55468,
{
    lemma_pow0(2);
    lemma_small_mod(1, 55469);
    let e0: nat = 0;
    let e1 = lemma_next_bit_55469(e0, 1, 1, 0int);
    let e2 = lemma_next_bit_55469(e1, 2, 1, 0int);
    let e3 = lemma_next_bit_55469(e2, 8, 0, 0int);
    let e4 = lemma_next_bit_55469(e3, 64, 1, 0int);
    let e5 = lemma_next_bit_55469(e4, 8192, 1, 2419int);
    let e6 = lemma_next_bit_55469(e5, 38217, 0, 26330int);
    let e7 = lemma_next_bit_55469(e6, 40319, 0, 29306int);
    let e8 = lemma_next_bit_55469(e7, 47247, 0, 40243int);
    let e9 = lemma_next_bit_55469(e8, 40042, 1, 57811int);
    let e10 = lemma_next_bit_55469(e9, 5169, 0, 481int);
    let e11 = lemma_next_bit_55469(e10, 37972, 1, 51988int);
    let e12 = lemma_next_bit_55469(e11, 23196, 0, 9700int);
    let e13 = lemma_next_bit_55469(e12, 5116, 1, 943int);
    let e14 = lemma_next_bit_55469(e13, 39645, 1, 56670int);
    let e15 = lemma_next_bit_55469(e14, 23820, 0, 10228int);
}

/// 2 raised to 7924 is not one modulo 55469: the residue is 19091.
proof fn lemma_power_55469_without_7()
    ensures
        pow(2, 7924) % 55469 == 19091,
{
    lemma_pow0(2);
    lemma_small_mod(1, 55469);
    let e0: nat = 0;
    let e1 = lemma_next_bit_55469(e0, 1, 1, 0int);
    let e2 = lemma_next_bit_55469(e1, 2, 1, 0int);
    let e3 = lemma_next_bit_55469(e2, 8, 1, 0int);
    let e4 = lemma_next_bit_55469(e3, 128, 1, 0int);
    let e5 = lemma_next_bit_55469(e4, 32768, 0, 19357int);
    let e6 = lemma_next_bit_55469(e5, 28391, 1, 29063int);
    let e7 = lemma_next_bit_55469(e6, 2215, 1, 176int);
    let e8 = lemma_next_bit_55469(e7, 49906, 1, 89801int);
    let e9 = lemma_next_bit_55469(e8, 46003, 1, 76304int);
    let e10 = lemma_next_bit_55469(e9, 45442, 0, 37227int);
    let e11 = lemma_next_bit_55469(e10, 30901, 1, 34429int);
    let e12 = lemma_next_bit_55469(e11, 1401, 0, 35int);
    let e13 = lemma_next_bit_55469(e12, 21386, 0, 8245int);
}

/// 2 raised to 196 is not one modulo 55469: the residue is 35842.
proof fn lemma_power_55469_without_283()
    ensures
        pow(2, 196) % 55469 == 35842,
{
    lemma_pow0(2);
    lemma_small_mod(1, 55469);
    let e0: nat = 0;
    let e1 = lemma_next_bit_55469(e0, 1, 1, 0int);
    let e2 = lemma_next_bit_55469(e1, 2, 1, 0int);
    let e3 = lemma_next_bit_55469(e2, 8, 0, 0int);
    let e4 = lemma_next_bit_55469(e3, 64, 0, 0int);
    let e5 = lemma_next_bit_55469(e4, 4096, 0, 302int);
    let e6 = lemma_next_bit_55469(e5, 25578, 1, 23589int);
    let e7 = lemma_next_bit_55469(e6, 9927, 0, 1776int);
    let e8 = lemma_next_bit_55469(e7, 32385, 0, 18907int);
}

/// 55469 is prime: 2 has full order modulo it.
pub proof fn lemma_prime_55469()
    ensures
        is_prime(55469),
        is_order_certificate(55469, 2, seq![(2int, 2nat), (7int, 2nat), (283int, 1nat)]),
{
    lemma_prime_2();
    lemma_prime_7();
    lemma_prime_283();
    lemma2_to64();
    lemma2_to64_rest();
    let f0 = Seq::<(int, nat)>::empty();
    assert(factored(f0) == 1);
    let f1 = f0.push((2int, 2nat));
    assert(f1.drop_last() =~= f0);
    lemma_small_power(2, 2);
    assert(pow(2, 2) == 4);
    assert(factored(f1) == 4) by {
        assert(factored(f1) == pow(2, 2) * factored(f0));
    }
    let f2 = f1.push((7int, 2nat));
    assert(f2.drop_last() =~= f1);
    lemma_small_power(7, 2);
    assert(pow(7, 2) == 49);
    assert(factored(f2) == 196) by {
        assert(factored(f2) == pow(7, 2) * factored(f1));
    }
    let f3 = f2.push((283int, 1nat));
    assert(f3.drop_last() =~= f2);
    lemma_pow1(283);
    assert(factored(f3) == 55468) by {
        assert(factored(f3) == pow(283, 1) * factored(f2));
    }
    let factors = seq![(2int, 2nat), (7int, 2nat), (283int, 1nat)];
    assert(factors =~= f3);
    lemma_power_55469_full();
    lemma_power_55469_without_2();
    lemma_power_55469_without_7();
    lemma_power_55469_without_283();
    assert forall|i: int| 0 <= i < factors.len() implies is_prime((#[trigger] factors[i]).0) by {
        if i == 0 {
            assert(factors[0].0 == 2);
        } else if i == 1 {
            assert(factors[1].0 == 7);
        } else if i == 2 {
            assert(factors[2].0 == 283);
        }
    }
    assert forall|i: int| 0 <= i < factors.len() implies pow(
        2,
        ((55469 - 1) / (#[trigger] factors[i]).0) as nat,
    ) % 55469 != 1 by {
        if i == 0 {
            assert(factors[0].0 == 2);
            assert((55469 - 1) / 2 == 27734);
        } else if i == 1 {
            assert(factors[1].0 == 7);
            assert((55469 - 1) / 7 == 7924);
        } else if i == 2 {
            assert(factors[2].0 == 283);
            assert((55469 - 1) / 283 == 196);
        }
    }
    lemma_order_certificate_proves_prime(55469, 2, factors);
}

/// One more bit of an exponent of 7, modulo 56039.
proof fn lemma_next_bit_56039(e: nat, r: int, bit: int, q: int) -> (next: nat)
    requires
        bit == 0 || bit == 1,
        pow(7, e) % 56039 == r,
        0 <= (r * r) * (if bit == 1 {
            7int
        } else {
            1int
        }) - q * 56039 < 56039,
    ensures
        next == 2 * e + bit,
        pow(7, next) % 56039 == (r * r) * (if bit == 1 {
            7int
        } else {
            1int
        }) - q * 56039,
{
    let gb = if bit == 1 {
        7int
    } else {
        1int
    };
    lemma_next_bit(7, 56039, e, r, bit, q, (r * r) * gb - q * 56039)
}

/// 7 raised to 56038 is one modulo 56039: the residue is 1.
proof fn lemma_power_56039_full()
    ensures
        pow(7, 56038) % 56039 == 1,
{
    lemma_pow0(7);
    lemma_small_mod(1, 56039);
    let e0: nat = 0;
    let e1 = lemma_next_bit_56039(e0, 1, 1, 0int);
    let e2 = lemma_next_bit_56039(e1, 7, 1, 0int);
    let e3 = lemma_next_bit_56039(e2, 343, 0, 2int);
    let e4 = lemma_next_bit_56039(e3, 5571, 1, 3876int);
    let e5 = lemma_next_bit_56039(e4, 45123, 1, 254333int);
    let e6 = lemma_next_bit_56039(e5, 28916, 0, 14920int);
    let e7 = lemma_next_bit_56039(e6, 33176, 1, 137485int);
    let e8 = lemma_next_bit_56039(e7, 6917, 0, 853int);
    let e9 = lemma_next_bit_56039(e8, 43622, 1, 237694int);
    let e10 = lemma_next_bit_56039(e9, 18122, 1, 41022int);
    let e11 = lemma_next_bit_56039(e10, 16330, 1, 33310int);
    let e12 = lemma_next_bit_56039(e11, 23210, 0, 9613int);
    let e13 = lemma_next_bit_56039(e12, 1193, 0, 25int);
    let e14 = lemma_next_bit_56039(e13, 22274, 1, 61973int);
    let e15 = lemma_next_bit_56039(e14, 12585, 1, 19783int);
    let e16 = lemma_next_bit_56039(e15, 56038, 0, 56037int);
}

/// 7 raised to 28019 is not one modulo 56039: the residue is 56038.
proof fn lemma_power_56039_without_2()
    ensures
        pow(7, 28019) % 56039 == 56038,
{
    lemma_pow0(7);
    lemma_small_mod(1, 56039);
    let e0: nat = 0;
    let e1 = lemma_next_bit_56039(e0, 1, 1, 0int);
    let e2 = lemma_next_bit_56039(e1, 7, 1, 0int);
    let e3 = lemma_next_bit_56039(e2, 343, 0, 2int);
    let e4 = lemma_next_bit_56039(e3, 5571, 1, 3876int);
    let e5 = lemma_next_bit_56039(e4, 45123, 1, 254333int);
    let e6 = lemma_next_bit_56039(e5, 28916, 0, 14920int);
    let e7 = lemma_next_bit_56039(e6, 33176, 1, 137485int);
    let e8 = lemma_next_bit_56039(e7, 6917, 0, 853int);
    let e9 = lemma_next_bit_56039(e8, 43622, 1, 237694int);
    let e10 = lemma_next_bit_56039(e9, 18122, 1, 41022int);
    let e11 = lemma_next_bit_56039(e10, 16330, 1, 33310int);
    let e12 = lemma_next_bit_56039(e11, 23210, 0, 9613int);
    let e13 = lemma_next_bit_56039(e12, 1193, 0, 25int);
    let e14 = lemma_next_bit_56039(e13, 22274, 1, 61973int);
    let e15 = lemma_next_bit_56039(e14, 12585, 1, 19783int);
}

/// 7 raised to 2 is not one modulo 56039: the residue is 49.
proof fn lemma_power_56039_without_28019()
    ensures
        pow(7, 2) % 56039 == 49,
{
    lemma_pow0(7);
    lemma_small_mod(1, 56039);
    let e0: nat = 0;
    let e1 = lemma_next_bit_56039(e0, 1, 1, 0int);
    let e2 = lemma_next_bit_56039(e1, 7, 0, 0int);
}

/// 56039 is prime: 7 has full order modulo it.
pub proof fn lemma_prime_56039()
    ensures
        is_prime(56039),
        is_order_certificate(56039, 7, seq![(2int, 1nat), (28019int, 1nat)]),
{
    lemma_prime_2();
    lemma_prime_28019();
    lemma2_to64();
    lemma2_to64_rest();
    let f0 = Seq::<(int, nat)>::empty();
    assert(factored(f0) == 1);
    let f1 = f0.push((2int, 1nat));
    assert(f1.drop_last() =~= f0);
    lemma_pow1(2);
    assert(factored(f1) == 2) by {
        assert(factored(f1) == pow(2, 1) * factored(f0));
    }
    let f2 = f1.push((28019int, 1nat));
    assert(f2.drop_last() =~= f1);
    lemma_pow1(28019);
    assert(factored(f2) == 56038) by {
        assert(factored(f2) == pow(28019, 1) * factored(f1));
    }
    let factors = seq![(2int, 1nat), (28019int, 1nat)];
    assert(factors =~= f2);
    lemma_power_56039_full();
    lemma_power_56039_without_2();
    lemma_power_56039_without_28019();
    assert forall|i: int| 0 <= i < factors.len() implies is_prime((#[trigger] factors[i]).0) by {
        if i == 0 {
            assert(factors[0].0 == 2);
        } else if i == 1 {
            assert(factors[1].0 == 28019);
        }
    }
    assert forall|i: int| 0 <= i < factors.len() implies pow(
        7,
        ((56039 - 1) / (#[trigger] factors[i]).0) as nat,
    ) % 56039 != 1 by {
        if i == 0 {
            assert(factors[0].0 == 2);
            assert((56039 - 1) / 2 == 28019);
        } else if i == 1 {
            assert(factors[1].0 == 28019);
            assert((56039 - 1) / 28019 == 2);
        }
    }
    lemma_order_certificate_proves_prime(56039, 7, factors);
}

/// One more bit of an exponent of 10, modulo 105503.
proof fn lemma_next_bit_105503(e: nat, r: int, bit: int, q: int) -> (next: nat)
    requires
        bit == 0 || bit == 1,
        pow(10, e) % 105503 == r,
        0 <= (r * r) * (if bit == 1 {
            10int
        } else {
            1int
        }) - q * 105503 < 105503,
    ensures
        next == 2 * e + bit,
        pow(10, next) % 105503 == (r * r) * (if bit == 1 {
            10int
        } else {
            1int
        }) - q * 105503,
{
    let gb = if bit == 1 {
        10int
    } else {
        1int
    };
    lemma_next_bit(10, 105503, e, r, bit, q, (r * r) * gb - q * 105503)
}

/// 10 raised to 105502 is one modulo 105503: the residue is 1.
proof fn lemma_power_105503_full()
    ensures
        pow(10, 105502) % 105503 == 1,
{
    lemma_pow0(10);
    lemma_small_mod(1, 105503);
    let e0: nat = 0;
    let e1 = lemma_next_bit_105503(e0, 1, 1, 0int);
    let e2 = lemma_next_bit_105503(e1, 10, 1, 0int);
    let e3 = lemma_next_bit_105503(e2, 1000, 0, 9int);
    let e4 = lemma_next_bit_105503(e3, 50473, 0, 24146int);
    let e5 = lemma_next_bit_105503(e4, 48291, 1, 221038int);
    let e6 = lemma_next_bit_105503(e5, 34696, 1, 114102int);
    let e7 = lemma_next_bit_105503(e6, 20854, 1, 41220int);
    let e8 = lemma_next_bit_105503(e7, 59500, 0, 33555int);
    let e9 = lemma_next_bit_105503(e8, 96835, 0, 88879int);
    let e10 = lemma_next_bit_105503(e9, 16088, 0, 2453int);
    let e11 = lemma_next_bit_105503(e10, 24885, 0, 5869int);
    let e12 = lemma_next_bit_105503(e11, 66118, 0, 41435int);
    let e13 = lemma_next_bit_105503(e12, 73119, 1, 506752int);
    let e14 = lemma_next_bit_105503(e13, 25354, 1, 60929int);
    let e15 = lemma_next_bit_105503(e14, 60873, 1, 351224int);
    let e16 = lemma_next_bit_105503(e15, 35618, 1, 120246int);
    let e17 = lemma_next_bit_105503(e16, 105502, 0, 105501int);
}

/// 10 raised to 52751 is not one modulo 105503: the residue is 105502.
proof fn lemma_power_105503_without_2()
    ensures
        pow(10, 52751) % 105503 == 105502,
{
    lemma_pow0(10);
    lemma_small_mod(1, 105503);
    let e0: nat = 0;
    let e1 = lemma_next_bit_105503(e0, 1, 1, 0int);
    let e2 = lemma_next_bit_105503(e1, 10, 1, 0int);
    let e3 = lemma_next_bit_105503(e2, 1000, 0, 9int);
    let e4 = lemma_next_bit_105503(e3, 50473, 0, 24146int);
    let e5 = lemma_next_bit_105503(e4, 48291, 1, 221038int);
    let e6 = lemma_next_bit_105503(e5, 34696, 1, 114102int);
    let e7 = lemma_next_bit_105503(e6, 20854, 1, 41220int);
    let e8 = lemma_next_bit_105503(e7, 59500, 0, 33555int);
    let e9 = lemma_next_bit_105503(e8, 96835, 0, 88879int);
    let e10 = lemma_next_bit_105503(e9, 16088, 0, 2453int);
    let e11 = lemma_next_bit_105503(e10, 24885, 0, 5869int);
    let e12 = lemma_next_bit_105503(e11, 66118, 0, 41435int);
    let e13 = lemma_next_bit_105503(e12, 73119, 1, 506752int);
    let e14 = lemma_next_bit_105503(e13, 25354, 1, 60929int);
    let e15 = lemma_next_bit_105503(e14, 60873, 1, 351224int);
    let e16 = lemma_next_bit_105503(e15, 35618, 1, 120246int);
}

/// 10 raised to 6206 is not one modulo 105503: the residue is 82170.
proof fn lemma_power_105503_without_17()
    ensures
        pow(10, 6206) % 105503 == 82170,
{
    lemma_pow0(10);
    lemma_small_mod(1, 105503);
    let e0: nat = 0;
    let e1 = lemma_next_bit_105503(e0, 1, 1, 0int);
    let e2 = lemma_next_bit_105503(e1, 10, 1, 0int);
    let e3 = lemma_next_bit_105503(e2, 1000, 0, 9int);
    let e4 = lemma_next_bit_105503(e3, 50473, 0, 24146int);
    let e5 = lemma_next_bit_105503(e4, 48291, 0, 22103int);
    let e6 = lemma_next_bit_105503(e5, 87872, 0, 73187int);
    let e7 = lemma_next_bit_105503(e6, 40323, 0, 15411int);
    let e8 = lemma_next_bit_105503(e7, 37596, 1, 133973int);
    let e9 = lemma_next_bit_105503(e8, 38741, 1, 142258int);
    let e10 = lemma_next_bit_105503(e9, 5036, 1, 2403int);
    let e11 = lemma_next_bit_105503(e10, 89251, 1, 755025int);
    let e12 = lemma_next_bit_105503(e11, 7435, 1, 5239int);
    let e13 = lemma_next_bit_105503(e12, 62033, 0, 36473int);
}

/// 10 raised to 3638 is not one modulo 105503: the residue is 10057.
proof fn lemma_power_105503_without_29()
    ensures
        pow(10, 3638) % 105503 == 10057,
{
    lemma_pow0(10);
    lemma_small_mod(1, 105503);
    let e0: nat = 0;
    let e1 = lemma_next_bit_105503(e0, 1, 1, 0int);
    let e2 = lemma_next_bit_105503(e1, 10, 1, 0int);
    let e3 = lemma_next_bit_105503(e2, 1000, 1, 94int);
    let e4 = lemma_next_bit_105503(e3, 82718, 0, 64853int);
    let e5 = lemma_next_bit_105503(e4, 81465, 0, 62903int);
    let e6 = lemma_next_bit_105503(e5, 91016, 0, 78518int);
    let e7 = lemma_next_bit_105503(e6, 27702, 1, 72737int);
    let e8 = lemma_next_bit_105503(e7, 36329, 1, 125095int);
    let e9 = lemma_next_bit_105503(e8, 64625, 0, 39585int);
    let e10 = lemma_next_bit_105503(e9, 54370, 1, 280190int);
    let e11 = lemma_next_bit_105503(e10, 83430, 1, 659750int);
    let e12 = lemma_next_bit_105503(e11, 44750, 0, 18981int);
}

/// 10 raised to 986 is not one modulo 105503: the residue is 70051.
proof fn lemma_power_105503_without_107()
    ensures
        pow(10, 986) % 105503 == 70051,
{
    lemma_pow0(10);
    lemma_small_mod(1, 105503);
    let e0: nat = 0;
    let e1 = lemma_next_bit_105503(e0, 1, 1, 0int);
    let e2 = lemma_next_bit_105503(e1, 10, 1, 0int);
    let e3 = lemma_next_bit_105503(e2, 1000, 1, 94int);
    let e4 = lemma_next_bit_105503(e3, 82718, 1, 648537int);
    let e5 = lemma_next_bit_105503(e4, 76129, 0, 54933int);
    let e6 = lemma_next_bit_105503(e5, 28342, 1, 76137int);
    let e7 = lemma_next_bit_105503(e6, 7729, 1, 5662int);
    let e8 = lemma_next_bit_105503(e7, 16424, 0, 2556int);
    let e9 = lemma_next_bit_105503(e8, 82108, 1, 639007int);
    let e10 = lemma_next_bit_105503(e9, 81119, 0, 62370int);
}

/// 105503 is prime: 10 has full order modulo it.
pub proof fn lemma_prime_105503()
    ensures
        is_prime(105503),
        is_order_certificate(105503, 10, seq![(2int, 1nat), (17int, 1nat), (29int, 1nat), (107int, 1nat)]),
{
    lemma_prime_2();
    lemma_prime_17();
    lemma_prime_29();
    lemma_prime_107();
    lemma2_to64();
    lemma2_to64_rest();
    let f0 = Seq::<(int, nat)>::empty();
    assert(factored(f0) == 1);
    let f1 = f0.push((2int, 1nat));
    assert(f1.drop_last() =~= f0);
    lemma_pow1(2);
    assert(factored(f1) == 2) by {
        assert(factored(f1) == pow(2, 1) * factored(f0));
    }
    let f2 = f1.push((17int, 1nat));
    assert(f2.drop_last() =~= f1);
    lemma_pow1(17);
    assert(factored(f2) == 34) by {
        assert(factored(f2) == pow(17, 1) * factored(f1));
    }
    let f3 = f2.push((29int, 1nat));
    assert(f3.drop_last() =~= f2);
    lemma_pow1(29);
    assert(factored(f3) == 986) by {
        assert(factored(f3) == pow(29, 1) * factored(f2));
    }
    let f4 = f3.push((107int, 1nat));
    assert(f4.drop_last() =~= f3);
    lemma_pow1(107);
    assert(factored(f4) == 105502) by {
        assert(factored(f4) == pow(107, 1) * factored(f3));
    }
    let factors = seq![(2int, 1nat), (17int, 1nat), (29int, 1nat), (107int, 1nat)];
    assert(factors =~= f4);
    lemma_power_105503_full();
    lemma_power_105503_without_2();
    lemma_power_105503_without_17();
    lemma_power_105503_without_29();
    lemma_power_105503_without_107();
    assert forall|i: int| 0 <= i < factors.len() implies is_prime((#[trigger] factors[i]).0) by {
        if i == 0 {
            assert(factors[0].0 == 2);
        } else if i == 1 {
            assert(factors[1].0 == 17);
        } else if i == 2 {
            assert(factors[2].0 == 29);
        } else if i == 3 {
            assert(factors[3].0 == 107);
        }
    }
    assert forall|i: int| 0 <= i < factors.len() implies pow(
        10,
        ((105503 - 1) / (#[trigger] factors[i]).0) as nat,
    ) % 105503 != 1 by {
        if i == 0 {
            assert(factors[0].0 == 2);
            assert((105503 - 1) / 2 == 52751);
        } else if i == 1 {
            assert(factors[1].0 == 17);
            assert((105503 - 1) / 17 == 6206);
        } else if i == 2 {
            assert(factors[2].0 == 29);
            assert((105503 - 1) / 29 == 3638);
        } else if i == 3 {
            assert(factors[3].0 == 107);
            assert((105503 - 1) / 107 == 986);
        }
    }
    lemma_order_certificate_proves_prime(105503, 10, factors);
}

/// One more bit of an exponent of 5, modulo 211007.
proof fn lemma_next_bit_211007(e: nat, r: int, bit: int, q: int) -> (next: nat)
    requires
        bit == 0 || bit == 1,
        pow(5, e) % 211007 == r,
        0 <= (r * r) * (if bit == 1 {
            5int
        } else {
            1int
        }) - q * 211007 < 211007,
    ensures
        next == 2 * e + bit,
        pow(5, next) % 211007 == (r * r) * (if bit == 1 {
            5int
        } else {
            1int
        }) - q * 211007,
{
    let gb = if bit == 1 {
        5int
    } else {
        1int
    };
    lemma_next_bit(5, 211007, e, r, bit, q, (r * r) * gb - q * 211007)
}

/// 5 raised to 211006 is one modulo 211007: the residue is 1.
proof fn lemma_power_211007_full()
    ensures
        pow(5, 211006) % 211007 == 1,
{
    lemma_pow0(5);
    lemma_small_mod(1, 211007);
    let e0: nat = 0;
    let e1 = lemma_next_bit_211007(e0, 1, 1, 0int);
    let e2 = lemma_next_bit_211007(e1, 5, 1, 0int);
    let e3 = lemma_next_bit_211007(e2, 125, 0, 0int);
    let e4 = lemma_next_bit_211007(e3, 15625, 0, 1157int);
    let e5 = lemma_next_bit_211007(e4, 5526, 1, 723int);
    let e6 = lemma_next_bit_211007(e5, 125319, 1, 372140int);
    let e7 = lemma_next_bit_211007(e6, 113825, 1, 307007int);
    let e8 = lemma_next_bit_211007(e7, 27076, 0, 3474int);
    let e9 = lemma_next_bit_211007(e8, 71458, 0, 24199int);
    let e10 = lemma_next_bit_211007(e9, 87371, 0, 36177int);
    let e11 = lemma_next_bit_211007(e10, 91402, 0, 39592int);
    let e12 = lemma_next_bit_211007(e11, 136460, 0, 88249int);
    let e13 = lemma_next_bit_211007(e12, 174857, 1, 724501int);
    let e14 = lemma_next_bit_211007(e13, 69738, 1, 115242int);
    let e15 = lemma_next_bit_211007(e14, 74526, 1, 131609int);
    let e16 = lemma_next_bit_211007(e15, 203117, 1, 977610int);
    let e17 = lemma_next_bit_211007(e16, 25175, 1, 15017int);
    let e18 = lemma_next_bit_211007(e17, 211006, 0, 211005int);
}

/// 5 raised to 105503 is not one modulo 211007: the residue is 211006.
proof fn lemma_power_211007_without_2()
    ensures
        pow(5, 105503) % 211007 == 211006,
{
    lemma_pow0(5);
    lemma_small_mod(1, 211007);
    let e0: nat = 0;
    let e1 = lemma_next_bit_211007(e0, 1, 1, 0int);
    let e2 = lemma_next_bit_211007(e1, 5, 1, 0int);
    let e3 = lemma_next_bit_211007(e2, 125, 0, 0int);
    let e4 = lemma_next_bit_211007(e3, 15625, 0, 1157int);
    let e5 = lemma_next_bit_211007(e4, 5526, 1, 723int);
    let e6 = lemma_next_bit_211007(e5, 125319, 1, 372140int);
    let e7 = lemma_next_bit_211007(e6, 113825, 1, 307007int);
    let e8 = lemma_next_bit_211007(e7, 27076, 0, 3474int);
    let e9 = lemma_next_bit_211007(e8, 71458, 0, 24199int);
    let e10 = lemma_next_bit_211007(e9, 87371, 0, 36177int);
    let e11 = lemma_next_bit_211007(e10, 91402, 0, 39592int);
    let e12 = lemma_next_bit_211007(e11, 136460, 0, 88249int);
    let e13 = lemma_next_bit_211007(e12, 174857, 1, 724501int);
    let e14 = lemma_next_bit_211007(e13, 69738, 1, 115242int);
    let e15 = lemma_next_bit_211007(e14, 74526, 1, 131609int);
    let e16 = lemma_next_bit_211007(e15, 203117, 1, 977610int);
    let e17 = lemma_next_bit_211007(e16, 25175, 1, 15017int);
}

/// 5 raised to 2 is not one modulo 211007: the residue is 25.
proof fn lemma_power_211007_without_105503()
    ensures
        pow(5, 2) % 211007 == 25,
{
    lemma_pow0(5);
    lemma_small_mod(1, 211007);
    let e0: nat = 0;
    let e1 = lemma_next_bit_211007(e0, 1, 1, 0int);
    let e2 = lemma_next_bit_211007(e1, 5, 0, 0int);
}

/// 211007 is prime: 5 has full order modulo it.
pub proof fn lemma_prime_211007()
    ensures
        is_prime(211007),
        is_order_certificate(211007, 5, seq![(2int, 1nat), (105503int, 1nat)]),
{
    lemma_prime_2();
    lemma_prime_105503();
    lemma2_to64();
    lemma2_to64_rest();
    let f0 = Seq::<(int, nat)>::empty();
    assert(factored(f0) == 1);
    let f1 = f0.push((2int, 1nat));
    assert(f1.drop_last() =~= f0);
    lemma_pow1(2);
    assert(factored(f1) == 2) by {
        assert(factored(f1) == pow(2, 1) * factored(f0));
    }
    let f2 = f1.push((105503int, 1nat));
    assert(f2.drop_last() =~= f1);
    lemma_pow1(105503);
    assert(factored(f2) == 211006) by {
        assert(factored(f2) == pow(105503, 1) * factored(f1));
    }
    let factors = seq![(2int, 1nat), (105503int, 1nat)];
    assert(factors =~= f2);
    lemma_power_211007_full();
    lemma_power_211007_without_2();
    lemma_power_211007_without_105503();
    assert forall|i: int| 0 <= i < factors.len() implies is_prime((#[trigger] factors[i]).0) by {
        if i == 0 {
            assert(factors[0].0 == 2);
        } else if i == 1 {
            assert(factors[1].0 == 105503);
        }
    }
    assert forall|i: int| 0 <= i < factors.len() implies pow(
        5,
        ((211007 - 1) / (#[trigger] factors[i]).0) as nat,
    ) % 211007 != 1 by {
        if i == 0 {
            assert(factors[0].0 == 2);
            assert((211007 - 1) / 2 == 105503);
        } else if i == 1 {
            assert(factors[1].0 == 105503);
            assert((211007 - 1) / 105503 == 2);
        }
    }
    lemma_order_certificate_proves_prime(211007, 5, factors);
}

/// One more bit of an exponent of 2, modulo 286619.
proof fn lemma_next_bit_286619(e: nat, r: int, bit: int, q: int) -> (next: nat)
    requires
        bit == 0 || bit == 1,
        pow(2, e) % 286619 == r,
        0 <= (r * r) * (if bit == 1 {
            2int
        } else {
            1int
        }) - q * 286619 < 286619,
    ensures
        next == 2 * e + bit,
        pow(2, next) % 286619 == (r * r) * (if bit == 1 {
            2int
        } else {
            1int
        }) - q * 286619,
{
    let gb = if bit == 1 {
        2int
    } else {
        1int
    };
    lemma_next_bit(2, 286619, e, r, bit, q, (r * r) * gb - q * 286619)
}

/// 2 raised to 286618 is one modulo 286619: the residue is 1.
proof fn lemma_power_286619_full()
    ensures
        pow(2, 286618) % 286619 == 1,
{
    lemma_pow0(2);
    lemma_small_mod(1, 286619);
    let e0: nat = 0;
    let e1 = lemma_next_bit_286619(e0, 1, 1, 0int);
    let e2 = lemma_next_bit_286619(e1, 2, 0, 0int);
    let e3 = lemma_next_bit_286619(e2, 4, 0, 0int);
    let e4 = lemma_next_bit_286619(e3, 16, 0, 0int);
    let e5 = lemma_next_bit_286619(e4, 256, 1, 0int);
    let e6 = lemma_next_bit_286619(e5, 131072, 0, 59939int);
    let e7 = lemma_next_bit_286619(e6, 212943, 1, 316411int);
    let e8 = lemma_next_bit_286619(e7, 38089, 1, 10123int);
    let e9 = lemma_next_bit_286619(e8, 99705, 1, 69367int);
    let e10 = lemma_next_bit_286619(e9, 273877, 1, 523402int);
    let e11 = lemma_next_bit_286619(e10, 264420, 1, 487880int);
    let e12 = lemma_next_bit_286619(e11, 195080, 1, 265552int);
    let e13 = lemma_next_bit_286619(e12, 164112, 0, 93967int);
    let e14 = lemma_next_bit_286619(e13, 20971, 0, 1534int);
    let e15 = lemma_next_bit_286619(e14, 109295, 1, 83353int);
    let e16 = lemma_next_bit_286619(e15, 240543, 1, 403748int);
    let e17 = lemma_next_bit_286619(e16, 21686, 0, 1640int);
    let e18 = lemma_next_bit_286619(e17, 227436, 1, 360946int);
    let e19 = lemma_next_bit_286619(e18, 286618, 0, 286617int);
}

/// 2 raised to 143309 is not one modulo 286619: the residue is 286618.
proof fn lemma_power_286619_without_2()
    ensures
        pow(2, 143309) % 286619 == 286618,
{
    lemma_pow0(2);
    lemma_small_mod(1, 286619);
    let e0: nat = 0;
    let e1 = lemma_next_bit_286619(e0, 1, 1, 0int);
    let e2 = lemma_next_bit_286619(e1, 2, 0, 0int);
    let e3 = lemma_next_bit_286619(e2, 4, 0, 0int);
    let e4 = lemma_next_bit_286619(e3, 16, 0, 0int);
    let e5 = lemma_next_bit_286619(e4, 256, 1, 0int);
    let e6 = lemma_next_bit_286619(e5, 131072, 0, 59939int);
    let e7 = lemma_next_bit_286619(e6, 212943, 1, 316411int);
    let e8 = lemma_next_bit_286619(e7, 38089, 1, 10123int);
    let e9 = lemma_next_bit_286619(e8, 99705, 1, 69367int);
    let e10 = lemma_next_bit_286619(e9, 273877, 1, 523402int);
    let e11 = lemma_next_bit_286619(e10, 264420, 1, 487880int);
    let e12 = lemma_next_bit_286619(e11, 195080, 1, 265552int);
    let e13 = lemma_next_bit_286619(e12, 164112, 0, 93967int);
    let e14 = lemma_next_bit_286619(e13, 20971, 0, 1534int);
    let e15 = lemma_next_bit_286619(e14, 109295, 1, 83353int);
    let e16 = lemma_next_bit_286619(e15, 240543, 1, 403748int);
    let e17 = lemma_next_bit_286619(e16, 21686, 0, 1640int);
    let e18 = lemma_next_bit_286619(e17, 227436, 1, 360946int);
}

/// 2 raised to 2062 is not one modulo 286619: the residue is 251416.
proof fn lemma_power_286619_without_139()
    ensures
        pow(2, 2062) % 286619 == 251416,
{
    lemma_pow0(2);
    lemma_small_mod(1, 286619);
    let e0: nat = 0;
    let e1 = lemma_next_bit_286619(e0, 1, 1, 0int);
    let e2 = lemma_next_bit_286619(e1, 2, 0, 0int);
    let e3 = lemma_next_bit_286619(e2, 4, 0, 0int);
    let e4 = lemma_next_bit_286619(e3, 16, 0, 0int);
    let e5 = lemma_next_bit_286619(e4, 256, 0, 0int);
    let e6 = lemma_next_bit_286619(e5, 65536, 0, 14984int);
    let e7 = lemma_next_bit_286619(e6, 268200, 0, 250964int);
    let e8 = lemma_next_bit_286619(e7, 189284, 0, 125003int);
    let e9 = lemma_next_bit_286619(e8, 197799, 1, 273006int);
    let e10 = lemma_next_bit_286619(e9, 182088, 1, 231359int);
    let e11 = lemma_next_bit_286619(e10, 194267, 1, 263343int);
    let e12 = lemma_next_bit_286619(e11, 227261, 0, 180195int);
}

/// 2 raised to 278 is not one modulo 286619: the residue is 280248.
proof fn lemma_power_286619_without_1031()
    ensures
        pow(2, 278) % 286619 == 280248,
{
    lemma_pow0(2);
    lemma_small_mod(1, 286619);
    let e0: nat = 0;
    let e1 = lemma_next_bit_286619(e0, 1, 1, 0int);
    let e2 = lemma_next_bit_286619(e1, 2, 0, 0int);
    let e3 = lemma_next_bit_286619(e2, 4, 0, 0int);
    let e4 = lemma_next_bit_286619(e3, 16, 0, 0int);
    let e5 = lemma_next_bit_286619(e4, 256, 1, 0int);
    let e6 = lemma_next_bit_286619(e5, 131072, 0, 59939int);
    let e7 = lemma_next_bit_286619(e6, 212943, 1, 316411int);
    let e8 = lemma_next_bit_286619(e7, 38089, 1, 10123int);
    let e9 = lemma_next_bit_286619(e8, 99705, 0, 34683int);
}

/// 286619 is prime: 2 has full order modulo it.
pub proof fn lemma_prime_286619()
    ensures
        is_prime(286619),
        is_order_certificate(286619, 2, seq![(2int, 1nat), (139int, 1nat), (1031int, 1nat)]),
{
    lemma_prime_2();
    lemma_prime_139();
    lemma_prime_1031();
    lemma2_to64();
    lemma2_to64_rest();
    let f0 = Seq::<(int, nat)>::empty();
    assert(factored(f0) == 1);
    let f1 = f0.push((2int, 1nat));
    assert(f1.drop_last() =~= f0);
    lemma_pow1(2);
    assert(factored(f1) == 2) by {
        assert(factored(f1) == pow(2, 1) * factored(f0));
    }
    let f2 = f1.push((139int, 1nat));
    assert(f2.drop_last() =~= f1);
    lemma_pow1(139);
    assert(factored(f2) == 278) by {
        assert(factored(f2) == pow(139, 1) * factored(f1));
    }
    let f3 = f2.push((1031int, 1nat));
    assert(f3.drop_last() =~= f2);
    lemma_pow1(1031);
    assert(factored(f3) == 286618) by {
        assert(factored(f3) == pow(1031, 1) * factored(f2));
    }
    let factors = seq![(2int, 1nat), (139int, 1nat), (1031int, 1nat)];
    assert(factors =~= f3);
    lemma_power_286619_full();
    lemma_power_286619_without_2();
    lemma_power_286619_without_139();
    lemma_power_286619_without_1031();
    assert forall|i: int| 0 <= i < factors.len() implies is_prime((#[trigger] factors[i]).0) by {
        if i == 0 {
            assert(factors[0].0 == 2);
        } else if i == 1 {
            assert(factors[1].0 == 139);
        } else if i == 2 {
            assert(factors[2].0 == 1031);
        }
    }
    assert forall|i: int| 0 <= i < factors.len() implies pow(
        2,
        ((286619 - 1) / (#[trigger] factors[i]).0) as nat,
    ) % 286619 != 1 by {
        if i == 0 {
            assert(factors[0].0 == 2);
            assert((286619 - 1) / 2 == 143309);
        } else if i == 1 {
            assert(factors[1].0 == 139);
            assert((286619 - 1) / 139 == 2062);
        } else if i == 2 {
            assert(factors[2].0 == 1031);
            assert((286619 - 1) / 1031 == 278);
        }
    }
    lemma_order_certificate_proves_prime(286619, 2, factors);
}

/// One more bit of an exponent of 13, modulo 1664071.
proof fn lemma_next_bit_1664071(e: nat, r: int, bit: int, q: int) -> (next: nat)
    requires
        bit == 0 || bit == 1,
        pow(13, e) % 1664071 == r,
        0 <= (r * r) * (if bit == 1 {
            13int
        } else {
            1int
        }) - q * 1664071 < 1664071,
    ensures
        next == 2 * e + bit,
        pow(13, next) % 1664071 == (r * r) * (if bit == 1 {
            13int
        } else {
            1int
        }) - q * 1664071,
{
    let gb = if bit == 1 {
        13int
    } else {
        1int
    };
    lemma_next_bit(13, 1664071, e, r, bit, q, (r * r) * gb - q * 1664071)
}

/// 13 raised to 1664070 is one modulo 1664071: the residue is 1.
proof fn lemma_power_1664071_full()
    ensures
        pow(13, 1664070) % 1664071 == 1,
{
    lemma_pow0(13);
    lemma_small_mod(1, 1664071);
    let e0: nat = 0;
    let e1 = lemma_next_bit_1664071(e0, 1, 1, 0int);
    let e2 = lemma_next_bit_1664071(e1, 13, 1, 0int);
    let e3 = lemma_next_bit_1664071(e2, 2197, 0, 2int);
    let e4 = lemma_next_bit_1664071(e3, 1498667, 0, 1349703int);
    let e5 = lemma_next_bit_1664071(e4, 1155976, 1, 10439246int);
    let e6 = lemma_next_bit_1664071(e5, 133022, 0, 10633int);
    let e7 = lemma_next_bit_1664071(e6, 785541, 1, 4820690int);
    let e8 = lemma_next_bit_1664071(e7, 185863, 1, 269871int);
    let e9 = lemma_next_bit_1664071(e8, 1207156, 0, 875699int);
    let e10 = lemma_next_bit_1664071(e9, 297707, 0, 53260int);
    let e11 = lemma_next_bit_1664071(e10, 1036389, 1, 8391065int);
    let e12 = lemma_next_bit_1664071(e11, 145558, 0, 12732int);
    let e13 = lemma_next_bit_1664071(e12, 179392, 0, 19339int);
    let e14 = lemma_next_bit_1664071(e13, 20595, 0, 254int);
    let e15 = lemma_next_bit_1664071(e14, 1479991, 1, 17111561int);
    let e16 = lemma_next_bit_1664071(e15, 1256222, 0, 948333int);
    let e17 = lemma_next_bit_1664071(e16, 269641, 0, 43691int);
    let e18 = lemma_next_bit_1664071(e17, 1342820, 0, 1083586int);
    let e19 = lemma_next_bit_1664071(e18, 1513794, 1, 17902144int);
    let e20 = lemma_next_bit_1664071(e19, 899444, 1, 6320038int);
    let e21 = lemma_next_bit_1664071(e20, 1664070, 0, 1664069int);
}

/// 13 raised to 832035 is not one modulo 1664071: the residue is 1664070.
proof fn lemma_power_1664071_without_2()
    ensures
        pow(13, 832035) % 1664071 == 1664070,
{
    lemma_pow0(13);
    lemma_small_mod(1, 1664071);
    let e0: nat = 0;
    let e1 = lemma_next_bit_1664071(e0, 1, 1, 0int);
    let e2 = lemma_next_bit_1664071(e1, 13, 1, 0int);
    let e3 = lemma_next_bit_1664071(e2, 2197, 0, 2int);
    let e4 = lemma_next_bit_1664071(e3, 1498667, 0, 1349703int);
    let e5 = lemma_next_bit_1664071(e4, 1155976, 1, 10439246int);
    let e6 = lemma_next_bit_1664071(e5, 133022, 0, 10633int);
    let e7 = lemma_next_bit_1664071(e6, 785541, 1, 4820690int);
    let e8 = lemma_next_bit_1664071(e7, 185863, 1, 269871int);
    let e9 = lemma_next_bit_1664071(e8, 1207156, 0, 875699int);
    let e10 = lemma_next_bit_1664071(e9, 297707, 0, 53260int);
    let e11 = lemma_next_bit_1664071(e10, 1036389, 1, 8391065int);
    let e12 = lemma_next_bit_1664071(e11, 145558, 0, 12732int);
    let e13 = lemma_next_bit_1664071(e12, 179392, 0, 19339int);
    let e14 = lemma_next_bit_1664071(e13, 20595, 0, 254int);
    let e15 = lemma_next_bit_1664071(e14, 1479991, 1, 17111561int);
    let e16 = lemma_next_bit_1664071(e15, 1256222, 0, 948333int);
    let e17 = lemma_next_bit_1664071(e16, 269641, 0, 43691int);
    let e18 = lemma_next_bit_1664071(e17, 1342820, 0, 1083586int);
    let e19 = lemma_next_bit_1664071(e18, 1513794, 1, 17902144int);
    let e20 = lemma_next_bit_1664071(e19, 899444, 1, 6320038int);
}

/// 13 raised to 554690 is not one modulo 1664071: the residue is 852360.
proof fn lemma_power_1664071_without_3()
    ensures
        pow(13, 554690) % 1664071 == 852360,
{
    lemma_pow0(13);
    lemma_small_mod(1, 1664071);
    let e0: nat = 0;
    let e1 = lemma_next_bit_1664071(e0, 1, 1, 0int);
    let e2 = lemma_next_bit_1664071(e1, 13, 0, 0int);
    let e3 = lemma_next_bit_1664071(e2, 169, 0, 0int);
    let e4 = lemma_next_bit_1664071(e3, 28561, 0, 490int);
    let e5 = lemma_next_bit_1664071(e4, 335931, 0, 67815int);
    let e6 = lemma_next_bit_1664071(e5, 661896, 1, 3422559int);
    let e7 = lemma_next_bit_1664071(e6, 914919, 1, 6539383int);
    let e8 = lemma_next_bit_1664071(e7, 487100, 1, 1853564int);
    let e9 = lemma_next_bit_1664071(e8, 1230956, 0, 910569int);
    let e10 = lemma_next_bit_1664071(e9, 1207537, 1, 11391276int);
    let e11 = lemma_next_bit_1664071(e10, 838201, 1, 5488679int);
    let e12 = lemma_next_bit_1664071(e11, 361004, 0, 78316int);
    let e13 = lemma_next_bit_1664071(e12, 503580, 1, 1981109int);
    let e14 = lemma_next_bit_1664071(e13, 578461, 1, 2614084int);
    let e15 = lemma_next_bit_1664071(e14, 1294809, 0, 1007487int);
    let e16 = lemma_next_bit_1664071(e15, 446904, 0, 120020int);
    let e17 = lemma_next_bit_1664071(e16, 1383796, 0, 1150726int);
    let e18 = lemma_next_bit_1664071(e17, 1604070, 0, 1546232int);
    let e19 = lemma_next_bit_1664071(e18, 734428, 1, 4213761int);
    let e20 = lemma_next_bit_1664071(e19, 852361, 0, 436591int);
}

/// 13 raised to 332814 is not one modulo 1664071: the residue is 970041.
proof fn lemma_power_1664071_without_5()
    ensures
        pow(13, 332814) % 1664071 == 970041,
{
    lemma_pow0(13);
    lemma_small_mod(1, 1664071);
    let e0: nat = 0;
    let e1 = lemma_next_bit_1664071(e0, 1, 1, 0int);
    let e2 = lemma_next_bit_1664071(e1, 13, 0, 0int);
    let e3 = lemma_next_bit_1664071(e2, 169, 1, 0int);
    let e4 = lemma_next_bit_1664071(e3, 371293, 0, 82844int);
    let e5 = lemma_next_bit_1664071(e4, 193925, 0, 22599int);
    let e6 = lemma_next_bit_1664071(e5, 565096, 0, 191898int);
    let e7 = lemma_next_bit_1664071(e6, 1592458, 1, 19811049int);
    let e8 = lemma_next_bit_1664071(e7, 142453, 0, 12194int);
    let e9 = lemma_next_bit_1664071(e8, 1175435, 1, 10793660int);
    let e10 = lemma_next_bit_1664071(e9, 120065, 0, 8662int);
    let e11 = lemma_next_bit_1664071(e10, 1421223, 0, 1213815int);
    let e12 = lemma_next_bit_1664071(e11, 474864, 0, 135508int);
    let e13 = lemma_next_bit_1664071(e12, 885428, 0, 471123int);
    let e14 = lemma_next_bit_1664071(e13, 621451, 0, 232082int);
    let e15 = lemma_next_bit_1664071(e14, 419579, 0, 105792int);
    let e16 = lemma_next_bit_1664071(e15, 1138009, 1, 10117259int);
    let e17 = lemma_next_bit_1664071(e16, 991664, 1, 7682465int);
    let e18 = lemma_next_bit_1664071(e17, 140633, 1, 154506int);
    let e19 = lemma_next_bit_1664071(e18, 375031, 0, 84520int);
}

/// 13 raised to 30 is not one modulo 1664071: the residue is 510166.
proof fn lemma_power_1664071_without_55469()
    ensures
        pow(13, 30) % 1664071 == 510166,
{
    lemma_pow0(13);
    lemma_small_mod(1, 1664071);
    let e0: nat = 0;
    let e1 = lemma_next_bit_1664071(e0, 1, 1, 0int);
    let e2 = lemma_next_bit_1664071(e1, 13, 1, 0int);
    let e3 = lemma_next_bit_1664071(e2, 2197, 1, 37int);
    let e4 = lemma_next_bit_1664071(e3, 1177890, 1, 10838794int);
    let e5 = lemma_next_bit_1664071(e4, 306926, 0, 56610int);
}

/// 1664071 is prime: 13 has full order modulo it.
pub proof fn lemma_prime_1664071()
    ensures
        is_prime(1664071),
        is_order_certificate(1664071, 13, seq![(2int, 1nat), (3int, 1nat), (5int, 1nat), (55469int, 1nat)]),
{
    lemma_prime_2();
    lemma_prime_3();
    lemma_prime_5();
    lemma_prime_55469();
    lemma2_to64();
    lemma2_to64_rest();
    let f0 = Seq::<(int, nat)>::empty();
    assert(factored(f0) == 1);
    let f1 = f0.push((2int, 1nat));
    assert(f1.drop_last() =~= f0);
    lemma_pow1(2);
    assert(factored(f1) == 2) by {
        assert(factored(f1) == pow(2, 1) * factored(f0));
    }
    let f2 = f1.push((3int, 1nat));
    assert(f2.drop_last() =~= f1);
    lemma_pow1(3);
    assert(factored(f2) == 6) by {
        assert(factored(f2) == pow(3, 1) * factored(f1));
    }
    let f3 = f2.push((5int, 1nat));
    assert(f3.drop_last() =~= f2);
    lemma_pow1(5);
    assert(factored(f3) == 30) by {
        assert(factored(f3) == pow(5, 1) * factored(f2));
    }
    let f4 = f3.push((55469int, 1nat));
    assert(f4.drop_last() =~= f3);
    lemma_pow1(55469);
    assert(factored(f4) == 1664070) by {
        assert(factored(f4) == pow(55469, 1) * factored(f3));
    }
    let factors = seq![(2int, 1nat), (3int, 1nat), (5int, 1nat), (55469int, 1nat)];
    assert(factors =~= f4);
    lemma_power_1664071_full();
    lemma_power_1664071_without_2();
    lemma_power_1664071_without_3();
    lemma_power_1664071_without_5();
    lemma_power_1664071_without_55469();
    assert forall|i: int| 0 <= i < factors.len() implies is_prime((#[trigger] factors[i]).0) by {
        if i == 0 {
            assert(factors[0].0 == 2);
        } else if i == 1 {
            assert(factors[1].0 == 3);
        } else if i == 2 {
            assert(factors[2].0 == 5);
        } else if i == 3 {
            assert(factors[3].0 == 55469);
        }
    }
    assert forall|i: int| 0 <= i < factors.len() implies pow(
        13,
        ((1664071 - 1) / (#[trigger] factors[i]).0) as nat,
    ) % 1664071 != 1 by {
        if i == 0 {
            assert(factors[0].0 == 2);
            assert((1664071 - 1) / 2 == 832035);
        } else if i == 1 {
            assert(factors[1].0 == 3);
            assert((1664071 - 1) / 3 == 554690);
        } else if i == 2 {
            assert(factors[2].0 == 5);
            assert((1664071 - 1) / 5 == 332814);
        } else if i == 3 {
            assert(factors[3].0 == 55469);
            assert((1664071 - 1) / 55469 == 30);
        }
    }
    lemma_order_certificate_proves_prime(1664071, 13, factors);
}

/// One more bit of an exponent of 2, modulo 11394379.
proof fn lemma_next_bit_11394379(e: nat, r: int, bit: int, q: int) -> (next: nat)
    requires
        bit == 0 || bit == 1,
        pow(2, e) % 11394379 == r,
        0 <= (r * r) * (if bit == 1 {
            2int
        } else {
            1int
        }) - q * 11394379 < 11394379,
    ensures
        next == 2 * e + bit,
        pow(2, next) % 11394379 == (r * r) * (if bit == 1 {
            2int
        } else {
            1int
        }) - q * 11394379,
{
    let gb = if bit == 1 {
        2int
    } else {
        1int
    };
    lemma_next_bit(2, 11394379, e, r, bit, q, (r * r) * gb - q * 11394379)
}

/// 2 raised to 11394378 is one modulo 11394379: the residue is 1.
proof fn lemma_power_11394379_full()
    ensures
        pow(2, 11394378) % 11394379 == 1,
{
    lemma_pow0(2);
    lemma_small_mod(1, 11394379);
    let e0: nat = 0;
    let e1 = lemma_next_bit_11394379(e0, 1, 1, 0int);
    let e2 = lemma_next_bit_11394379(e1, 2, 0, 0int);
    let e3 = lemma_next_bit_11394379(e2, 4, 1, 0int);
    let e4 = lemma_next_bit_11394379(e3, 32, 0, 0int);
    let e5 = lemma_next_bit_11394379(e4, 1024, 1, 0int);
    let e6 = lemma_next_bit_11394379(e5, 2097152, 1, 771967int);
    let e7 = lemma_next_bit_11394379(e6, 8448715, 0, 6264561int);
    let e8 = lemma_next_bit_11394379(e7, 2848606, 1, 1424308int);
    let e9 = lemma_next_bit_11394379(e8, 7121740, 1, 8902491int);
    let e10 = lemma_next_bit_11394379(e9, 4757111, 1, 3972152int);
    let e11 = lemma_next_bit_11394379(e10, 4799034, 0, 2021235int);
    let e12 = lemma_next_bit_11394379(e11, 9695091, 1, 16498448int);
    let e13 = lemma_next_bit_11394379(e12, 9572770, 1, 16084759int);
    let e14 = lemma_next_bit_11394379(e13, 10776139, 1, 20382887int);
    let e15 = lemma_next_bit_11394379(e14, 3902469, 0, 1336559int);
    let e16 = lemma_next_bit_11394379(e15, 4494100, 1, 3545069int);
    let e17 = lemma_next_bit_11394379(e16, 9852849, 0, 8519870int);
    let e18 = lemma_next_bit_11394379(e17, 5606071, 1, 5516409int);
    let e19 = lemma_next_bit_11394379(e18, 9249071, 0, 7507676int);
    let e20 = lemma_next_bit_11394379(e19, 8609837, 0, 6505777int);
    let e21 = lemma_next_bit_11394379(e20, 4339086, 1, 3304728int);
    let e22 = lemma_next_bit_11394379(e21, 11306880, 0, 11220052int);
    let e23 = lemma_next_bit_11394379(e22, 10446692, 1, 19155650int);
    let e24 = lemma_next_bit_11394379(e23, 11394378, 0, 11394377int);
}

/// 2 raised to 5697189 is not one modulo 11394379: the residue is 11394378.
proof fn lemma_power_11394379_without_2()
    ensures
        pow(2, 5697189) % 11394379 == 11394378,
{
    lemma_pow0(2);
    lemma_small_mod(1, 11394379);
    let e0: nat = 0;
    let e1 = lemma_next_bit_11394379(e0, 1, 1, 0int);
    let e2 = lemma_next_bit_11394379(e1, 2, 0, 0int);
    let e3 = lemma_next_bit_11394379(e2, 4, 1, 0int);
    let e4 = lemma_next_bit_11394379(e3, 32, 0, 0int);
    let e5 = lemma_next_bit_11394379(e4, 1024, 1, 0int);
    let e6 = lemma_next_bit_11394379(e5, 2097152, 1, 771967int);
    let e7 = lemma_next_bit_11394379(e6, 8448715, 0, 6264561int);
    let e8 = lemma_next_bit_11394379(e7, 2848606, 1, 1424308int);
    let e9 = lemma_next_bit_11394379(e8, 7121740, 1, 8902491int);
    let e10 = lemma_next_bit_11394379(e9, 4757111, 1, 3972152int);
    let e11 = lemma_next_bit_11394379(e10, 4799034, 0, 2021235int);
    let e12 = lemma_next_bit_11394379(e11, 9695091, 1, 16498448int);
    let e13 = lemma_next_bit_11394379(e12, 9572770, 1, 16084759int);
    let e14 = lemma_next_bit_11394379(e13, 10776139, 1, 20382887int);
    let e15 = lemma_next_bit_11394379(e14, 3902469, 0, 1336559int);
    let e16 = lemma_next_bit_11394379(e15, 4494100, 1, 3545069int);
    let e17 = lemma_next_bit_11394379(e16, 9852849, 0, 8519870int);
    let e18 = lemma_next_bit_11394379(e17, 5606071, 1, 5516409int);
    let e19 = lemma_next_bit_11394379(e18, 9249071, 0, 7507676int);
    let e20 = lemma_next_bit_11394379(e19, 8609837, 0, 6505777int);
    let e21 = lemma_next_bit_11394379(e20, 4339086, 1, 3304728int);
    let e22 = lemma_next_bit_11394379(e21, 11306880, 0, 11220052int);
    let e23 = lemma_next_bit_11394379(e22, 10446692, 1, 19155650int);
}

/// 2 raised to 3798126 is not one modulo 11394379: the residue is 1713396.
proof fn lemma_power_11394379_without_3()
    ensures
        pow(2, 3798126) % 11394379 == 1713396,
{
    lemma_pow0(2);
    lemma_small_mod(1, 11394379);
    let e0: nat = 0;
    let e1 = lemma_next_bit_11394379(e0, 1, 1, 0int);
    let e2 = lemma_next_bit_11394379(e1, 2, 1, 0int);
    let e3 = lemma_next_bit_11394379(e2, 8, 1, 0int);
    let e4 = lemma_next_bit_11394379(e3, 128, 0, 0int);
    let e5 = lemma_next_bit_11394379(e4, 16384, 0, 23int);
    let e6 = lemma_next_bit_11394379(e5, 6364739, 1, 7110506int);
    let e7 = lemma_next_bit_11394379(e6, 4830468, 1, 4095602int);
    let e8 = lemma_next_bit_11394379(e7, 776890, 1, 105939int);
    let e9 = lemma_next_bit_11394379(e8, 7027319, 1, 8667995int);
    let e10 = lemma_next_bit_11394379(e9, 4455417, 1, 3484304int);
    let e11 = lemma_next_bit_11394379(e10, 960562, 0, 80976int);
    let e12 = lemma_next_bit_11394379(e11, 8121940, 1, 11578675int);
    let e13 = lemma_next_bit_11394379(e12, 7459375, 0, 4883309int);
    let e14 = lemma_next_bit_11394379(e13, 1870514, 0, 307065int);
    let e15 = lemma_next_bit_11394379(e14, 7636561, 0, 5118055int);
    let e16 = lemma_next_bit_11394379(e15, 5493876, 1, 5297818int);
    let e17 = lemma_next_bit_11394379(e16, 841730, 1, 124361int);
    let e18 = lemma_next_bit_11394379(e17, 2418981, 0, 513539int);
    let e19 = lemma_next_bit_11394379(e18, 11081080, 1, 21552790int);
    let e20 = lemma_next_bit_11394379(e19, 10165390, 1, 18137917int);
    let e21 = lemma_next_bit_11394379(e20, 7135657, 1, 8937319int);
    let e22 = lemma_next_bit_11394379(e21, 1713397, 0, 257647int);
}

/// 2 raised to 54 is not one modulo 11394379: the residue is 6300998.
proof fn lemma_power_11394379_without_211007()
    ensures
        pow(2, 54) % 11394379 == 6300998,
{
    lemma_pow0(2);
    lemma_small_mod(1, 11394379);
    let e0: nat = 0;
    let e1 = lemma_next_bit_11394379(e0, 1, 1, 0int);
    let e2 = lemma_next_bit_11394379(e1, 2, 1, 0int);
    let e3 = lemma_next_bit_11394379(e2, 8, 0, 0int);
    let e4 = lemma_next_bit_11394379(e3, 64, 1, 0int);
    let e5 = lemma_next_bit_11394379(e4, 8192, 1, 11int);
    let e6 = lemma_next_bit_11394379(e5, 8879559, 0, 6919777int);
}

/// 11394379 is prime: 2 has full order modulo it.
pub proof fn lemma_prime_11394379()
    ensures
        is_prime(11394379),
        is_order_certificate(11394379, 2, seq![(2int, 1nat), (3int, 3nat), (211007int, 1nat)]),
{
    lemma_prime_2();
    lemma_prime_3();
    lemma_prime_211007();
    lemma2_to64();
    lemma2_to64_rest();
    let f0 = Seq::<(int, nat)>::empty();
    assert(factored(f0) == 1);
    let f1 = f0.push((2int, 1nat));
    assert(f1.drop_last() =~= f0);
    lemma_pow1(2);
    assert(factored(f1) == 2) by {
        assert(factored(f1) == pow(2, 1) * factored(f0));
    }
    let f2 = f1.push((3int, 3nat));
    assert(f2.drop_last() =~= f1);
    lemma_small_power(3, 3);
    assert(pow(3, 3) == 27);
    assert(factored(f2) == 54) by {
        assert(factored(f2) == pow(3, 3) * factored(f1));
    }
    let f3 = f2.push((211007int, 1nat));
    assert(f3.drop_last() =~= f2);
    lemma_pow1(211007);
    assert(factored(f3) == 11394378) by {
        assert(factored(f3) == pow(211007, 1) * factored(f2));
    }
    let factors = seq![(2int, 1nat), (3int, 3nat), (211007int, 1nat)];
    assert(factors =~= f3);
    lemma_power_11394379_full();
    lemma_power_11394379_without_2();
    lemma_power_11394379_without_3();
    lemma_power_11394379_without_211007();
    assert forall|i: int| 0 <= i < factors.len() implies is_prime((#[trigger] factors[i]).0) by {
        if i == 0 {
            assert(factors[0].0 == 2);
        } else if i == 1 {
            assert(factors[1].0 == 3);
        } else if i == 2 {
            assert(factors[2].0 == 211007);
        }
    }
    assert forall|i: int| 0 <= i < factors.len() implies pow(
        2,
        ((11394379 - 1) / (#[trigger] factors[i]).0) as nat,
    ) % 11394379 != 1 by {
        if i == 0 {
            assert(factors[0].0 == 2);
            assert((11394379 - 1) / 2 == 5697189);
        } else if i == 1 {
            assert(factors[1].0 == 3);
            assert((11394379 - 1) / 3 == 3798126);
        } else if i == 2 {
            assert(factors[2].0 == 211007);
            assert((11394379 - 1) / 211007 == 54);
        }
    }
    lemma_order_certificate_proves_prime(11394379, 2, factors);
}

/// One more bit of an exponent of 3, modulo 19165339.
proof fn lemma_next_bit_19165339(e: nat, r: int, bit: int, q: int) -> (next: nat)
    requires
        bit == 0 || bit == 1,
        pow(3, e) % 19165339 == r,
        0 <= (r * r) * (if bit == 1 {
            3int
        } else {
            1int
        }) - q * 19165339 < 19165339,
    ensures
        next == 2 * e + bit,
        pow(3, next) % 19165339 == (r * r) * (if bit == 1 {
            3int
        } else {
            1int
        }) - q * 19165339,
{
    let gb = if bit == 1 {
        3int
    } else {
        1int
    };
    lemma_next_bit(3, 19165339, e, r, bit, q, (r * r) * gb - q * 19165339)
}

/// 3 raised to 19165338 is one modulo 19165339: the residue is 1.
proof fn lemma_power_19165339_full()
    ensures
        pow(3, 19165338) % 19165339 == 1,
{
    lemma_pow0(3);
    lemma_small_mod(1, 19165339);
    let e0: nat = 0;
    let e1 = lemma_next_bit_19165339(e0, 1, 1, 0int);
    let e2 = lemma_next_bit_19165339(e1, 3, 0, 0int);
    let e3 = lemma_next_bit_19165339(e2, 9, 0, 0int);
    let e4 = lemma_next_bit_19165339(e3, 81, 1, 0int);
    let e5 = lemma_next_bit_19165339(e4, 19683, 0, 20int);
    let e6 = lemma_next_bit_19165339(e5, 4113709, 0, 882979int);
    let e7 = lemma_next_bit_19165339(e6, 9871800, 1, 15254481int);
    let e8 = lemma_next_bit_19165339(e7, 6085941, 0, 1932586int);
    let e9 = lemma_next_bit_19165339(e8, 12018827, 0, 7537158int);
    let e10 = lemma_next_bit_19165339(e9, 14289367, 0, 10653921int);
    let e11 = lemma_next_bit_19165339(e10, 1616470, 1, 409015int);
    let e12 = lemma_next_bit_19165339(e11, 14651615, 1, 33602821int);
    let e13 = lemma_next_bit_19165339(e12, 10503356, 1, 17268750int);
    let e14 = lemma_next_bit_19165339(e13, 13931958, 0, 10127629int);
    let e15 = lemma_next_bit_19165339(e14, 10662533, 0, 5932042int);
    let e16 = lemma_next_bit_19165339(e15, 14083851, 0, 10349666int);
    let e17 = lemma_next_bit_19165339(e16, 1563427, 0, 127537int);
    let e18 = lemma_next_bit_19165339(e17, 14144286, 1, 31316037int);
    let e19 = lemma_next_bit_19165339(e18, 14107845, 0, 10384960int);
    let e20 = lemma_next_bit_19165339(e19, 11642585, 0, 7072652int);
    let e21 = lemma_next_bit_19165339(e20, 12273197, 1, 23578716int);
    let e22 = lemma_next_bit_19165339(e21, 8477703, 1, 11250223int);
    let e23 = lemma_next_bit_19165339(e22, 6848030, 0, 2446892int);
    let e24 = lemma_next_bit_19165339(e23, 204512, 1, 6546int);
    let e25 = lemma_next_bit_19165339(e24, 19165338, 0, 19165337int);
}

/// 3 raised to 9582669 is not one modulo 19165339: the residue is 19165338.
proof fn lemma_power_19165339_without_2()
    ensures
        pow(3, 9582669) % 19165339 == 19165338,
{
    lemma_pow0(3);
    lemma_small_mod(1, 19165339);
    let e0: nat = 0;
    let e1 = lemma_next_bit_19165339(e0, 1, 1, 0int);
    let e2 = lemma_next_bit_19165339(e1, 3, 0, 0int);
    let e3 = lemma_next_bit_19165339(e2, 9, 0, 0int);
    let e4 = lemma_next_bit_19165339(e3, 81, 1, 0int);
    let e5 = lemma_next_bit_19165339(e4, 19683, 0, 20int);
    let e6 = lemma_next_bit_19165339(e5, 4113709, 0, 882979int);
    let e7 = lemma_next_bit_19165339(e6, 9871800, 1, 15254481int);
    let e8 = lemma_next_bit_19165339(e7, 6085941, 0, 1932586int);
    let e9 = lemma_next_bit_19165339(e8, 12018827, 0, 7537158int);
    let e10 = lemma_next_bit_19165339(e9, 14289367, 0, 10653921int);
    let e11 = lemma_next_bit_19165339(e10, 1616470, 1, 409015int);
    let e12 = lemma_next_bit_19165339(e11, 14651615, 1, 33602821int);
    let e13 = lemma_next_bit_19165339(e12, 10503356, 1, 17268750int);
    let e14 = lemma_next_bit_19165339(e13, 13931958, 0, 10127629int);
    let e15 = lemma_next_bit_19165339(e14, 10662533, 0, 5932042int);
    let e16 = lemma_next_bit_19165339(e15, 14083851, 0, 10349666int);
    let e17 = lemma_next_bit_19165339(e16, 1563427, 0, 127537int);
    let e18 = lemma_next_bit_19165339(e17, 14144286, 1, 31316037int);
    let e19 = lemma_next_bit_19165339(e18, 14107845, 0, 10384960int);
    let e20 = lemma_next_bit_19165339(e19, 11642585, 0, 7072652int);
    let e21 = lemma_next_bit_19165339(e20, 12273197, 1, 23578716int);
    let e22 = lemma_next_bit_19165339(e21, 8477703, 1, 11250223int);
    let e23 = lemma_next_bit_19165339(e22, 6848030, 0, 2446892int);
    let e24 = lemma_next_bit_19165339(e23, 204512, 1, 6546int);
}

/// 3 raised to 6388446 is not one modulo 19165339: the residue is 9275901.
proof fn lemma_power_19165339_without_3()
    ensures
        pow(3, 6388446) % 19165339 == 9275901,
{
    lemma_pow0(3);
    lemma_small_mod(1, 19165339);
    let e0: nat = 0;
    let e1 = lemma_next_bit_19165339(e0, 1, 1, 0int);
    let e2 = lemma_next_bit_19165339(e1, 3, 1, 0int);
    let e3 = lemma_next_bit_19165339(e2, 27, 0, 0int);
    let e4 = lemma_next_bit_19165339(e3, 729, 0, 0int);
    let e5 = lemma_next_bit_19165339(e4, 531441, 0, 14736int);
    let e6 = lemma_next_bit_19165339(e5, 9100977, 0, 4321748int);
    let e7 = lemma_next_bit_19165339(e6, 16861957, 1, 44506219int);
    let e8 = lemma_next_bit_19165339(e7, 6866306, 0, 2459969int);
    let e9 = lemma_next_bit_19165339(e8, 18271145, 1, 52256013int);
    let e10 = lemma_next_bit_19165339(e9, 14899668, 1, 34750249int);
    let e11 = lemma_next_bit_19165339(e10, 17111261, 1, 45831996int);
    let e12 = lemma_next_bit_19165339(e11, 18643719, 1, 54408887int);
    let e13 = lemma_next_bit_19165339(e12, 10485190, 0, 5736356int);
    let e14 = lemma_next_bit_19165339(e13, 1971416, 1, 608360int);
    let e15 = lemma_next_bit_19165339(e14, 17501128, 0, 15981427int);
    let e16 = lemma_next_bit_19165339(e15, 15113631, 1, 35755460int);
    let e17 = lemma_next_bit_19165339(e16, 14011543, 1, 30730998int);
    let e18 = lemma_next_bit_19165339(e17, 17244225, 0, 15515681int);
    let e19 = lemma_next_bit_19165339(e18, 9669766, 1, 14636481int);
    let e20 = lemma_next_bit_19165339(e19, 3352209, 1, 1759004int);
    let e21 = lemma_next_bit_19165339(e20, 7576687, 1, 8985938int);
    let e22 = lemma_next_bit_19165339(e21, 9684925, 1, 14682407int);
    let e23 = lemma_next_bit_19165339(e22, 9275902, 0, 4489477int);
}

/// 3 raised to 1008702 is not one modulo 19165339: the residue is 17977479.
proof fn lemma_power_19165339_without_19()
    ensures
        pow(3, 1008702) % 19165339 == 17977479,
{
    lemma_pow0(3);
    lemma_small_mod(1, 19165339);
    let e0: nat = 0;
    let e1 = lemma_next_bit_19165339(e0, 1, 1, 0int);
    let e2 = lemma_next_bit_19165339(e1, 3, 1, 0int);
    let e3 = lemma_next_bit_19165339(e2, 27, 1, 0int);
    let e4 = lemma_next_bit_19165339(e3, 2187, 1, 0int);
    let e5 = lemma_next_bit_19165339(e4, 14348907, 0, 10742890int);
    let e6 = lemma_next_bit_19165339(e5, 3404939, 1, 1814777int);
    let e7 = lemma_next_bit_19165339(e6, 12366760, 1, 23939584int);
    let e8 = lemma_next_bit_19165339(e7, 15813824, 0, 13048401int);
    let e9 = lemma_next_bit_19165339(e8, 930037, 0, 45131int);
    let e10 = lemma_next_bit_19165339(e9, 17906960, 1, 50193615int);
    let e11 = lemma_next_bit_19165339(e10, 2214315, 0, 255836int);
    let e12 = lemma_next_bit_19165339(e11, 7250821, 0, 2743202int);
    let e13 = lemma_next_bit_19165339(e12, 8898563, 0, 4131647int);
    let e14 = lemma_next_bit_19165339(e13, 8081636, 0, 3407862int);
    let e15 = lemma_next_bit_19165339(e14, 9941278, 1, 15469959int);
    let e16 = lemma_next_bit_19165339(e15, 16268751, 1, 41429832int);
    let e17 = lemma_next_bit_19165339(e16, 2306955, 1, 833072int);
    let e18 = lemma_next_bit_19165339(e17, 16824667, 1, 44309587int);
    let e19 = lemma_next_bit_19165339(e18, 3177674, 1, 1580605int);
    let e20 = lemma_next_bit_19165339(e19, 5500733, 0, 1578790int);
}

/// 3 raised to 342 is not one modulo 19165339: the residue is 9226174.
proof fn lemma_power_19165339_without_56039()
    ensures
        pow(3, 342) % 19165339 == 9226174,
{
    lemma_pow0(3);
    lemma_small_mod(1, 19165339);
    let e0: nat = 0;
    let e1 = lemma_next_bit_19165339(e0, 1, 1, 0int);
    let e2 = lemma_next_bit_19165339(e1, 3, 0, 0int);
    let e3 = lemma_next_bit_19165339(e2, 9, 1, 0int);
    let e4 = lemma_next_bit_19165339(e3, 243, 0, 0int);
    let e5 = lemma_next_bit_19165339(e4, 59049, 1, 545int);
    let e6 = lemma_next_bit_19165339(e5, 15243448, 0, 12124111int);
    let e7 = lemma_next_bit_19165339(e6, 9540075, 1, 14246504int);
    let e8 = lemma_next_bit_19165339(e7, 14292019, 1, 31973628int);
    let e9 = lemma_next_bit_19165339(e8, 1609191, 0, 135113int);
}

/// 19165339 is prime: 3 has full order modulo it.
pub proof fn lemma_prime_19165339()
    ensures
        is_prime(19165339),
        is_order_certificate(19165339, 3, seq![(2int, 1nat), (3int, 2nat), (19int, 1nat), (56039int, 1nat)]),
{
    lemma_prime_2();
    lemma_prime_3();
    lemma_prime_19();
    lemma_prime_56039();
    lemma2_to64();
    lemma2_to64_rest();
    let f0 = Seq::<(int, nat)>::empty();
    assert(factored(f0) == 1);
    let f1 = f0.push((2int, 1nat));
    assert(f1.drop_last() =~= f0);
    lemma_pow1(2);
    assert(factored(f1) == 2) by {
        assert(factored(f1) == pow(2, 1) * factored(f0));
    }
    let f2 = f1.push((3int, 2nat));
    assert(f2.drop_last() =~= f1);
    lemma_small_power(3, 2);
    assert(pow(3, 2) == 9);
    assert(factored(f2) == 18) by {
        assert(factored(f2) == pow(3, 2) * factored(f1));
    }
    let f3 = f2.push((19int, 1nat));
    assert(f3.drop_last() =~= f2);
    lemma_pow1(19);
    assert(factored(f3) == 342) by {
        assert(factored(f3) == pow(19, 1) * factored(f2));
    }
    let f4 = f3.push((56039int, 1nat));
    assert(f4.drop_last() =~= f3);
    lemma_pow1(56039);
    assert(factored(f4) == 19165338) by {
        assert(factored(f4) == pow(56039, 1) * factored(f3));
    }
    let factors = seq![(2int, 1nat), (3int, 2nat), (19int, 1nat), (56039int, 1nat)];
    assert(factors =~= f4);
    lemma_power_19165339_full();
    lemma_power_19165339_without_2();
    lemma_power_19165339_without_3();
    lemma_power_19165339_without_19();
    lemma_power_19165339_without_56039();
    assert forall|i: int| 0 <= i < factors.len() implies is_prime((#[trigger] factors[i]).0) by {
        if i == 0 {
            assert(factors[0].0 == 2);
        } else if i == 1 {
            assert(factors[1].0 == 3);
        } else if i == 2 {
            assert(factors[2].0 == 19);
        } else if i == 3 {
            assert(factors[3].0 == 56039);
        }
    }
    assert forall|i: int| 0 <= i < factors.len() implies pow(
        3,
        ((19165339 - 1) / (#[trigger] factors[i]).0) as nat,
    ) % 19165339 != 1 by {
        if i == 0 {
            assert(factors[0].0 == 2);
            assert((19165339 - 1) / 2 == 9582669);
        } else if i == 1 {
            assert(factors[1].0 == 3);
            assert((19165339 - 1) / 3 == 6388446);
        } else if i == 2 {
            assert(factors[2].0 == 19);
            assert((19165339 - 1) / 19 == 1008702);
        } else if i == 3 {
            assert(factors[3].0 == 56039);
            assert((19165339 - 1) / 56039 == 342);
        }
    }
    lemma_order_certificate_proves_prime(19165339, 3, factors);
}

/// One more bit of an exponent of 3, modulo 18053749339.
proof fn lemma_next_bit_18053749339(e: nat, r: int, bit: int, q: int) -> (next: nat)
    requires
        bit == 0 || bit == 1,
        pow(3, e) % 18053749339 == r,
        0 <= (r * r) * (if bit == 1 {
            3int
        } else {
            1int
        }) - q * 18053749339 < 18053749339,
    ensures
        next == 2 * e + bit,
        pow(3, next) % 18053749339 == (r * r) * (if bit == 1 {
            3int
        } else {
            1int
        }) - q * 18053749339,
{
    let gb = if bit == 1 {
        3int
    } else {
        1int
    };
    lemma_next_bit(3, 18053749339, e, r, bit, q, (r * r) * gb - q * 18053749339)
}

/// The residue of 3 raised to the leading 32 bits of 18053749338, modulo 18053749339.
proof fn lemma_power_18053749339_full_part_1()
    ensures
        pow(3, 2256718667) % 18053749339 == 12297769665,
{
    lemma_pow0(3);
    lemma_small_mod(1, 18053749339);
    let e0: nat = 0;
    let e1 = lemma_next_bit_18053749339(e0, 1, 1, 0int);
    let e2 = lemma_next_bit_18053749339(e1, 3, 0, 0int);
    let e3 = lemma_next_bit_18053749339(e2, 9, 0, 0int);
    let e4 = lemma_next_bit_18053749339(e3, 81, 0, 0int);
    let e5 = lemma_next_bit_18053749339(e4, 6561, 0, 0int);
    let e6 = lemma_next_bit_18053749339(e5, 43046721, 1, 307917int);
    let e7 = lemma_next_bit_18053749339(e6, 4231338660, 1, 2975153778int);
    let e8 = lemma_next_bit_18053749339(e7, 13840934058, 0, 10611172892int);
    let e9 = lemma_next_bit_18053749339(e8, 12944628976, 1, 27844092024int);
    let e10 = lemma_next_bit_18053749339(e9, 5551253592, 0, 1706926127int);
    let e11 = lemma_next_bit_18053749339(e10, 5644822411, 0, 1764953055int);
    let e12 = lemma_next_bit_18053749339(e11, 1655572276, 0, 151819963int);
    let e13 = lemma_next_bit_18053749339(e12, 4401565719, 0, 1073116747int);
    let e14 = lemma_next_bit_18053749339(e13, 16854906728, 0, 15735672157int);
    let e15 = lemma_next_bit_18053749339(e14, 6420211761, 1, 6849400357int);
    let e16 = lemma_next_bit_18053749339(e15, 513049340, 0, 14579776int);
    let e17 = lemma_next_bit_18053749339(e16, 3951667536, 1, 2594864261int);
    let e18 = lemma_next_bit_18053749339(e17, 8405460409, 1, 11740236893int);
    let e19 = lemma_next_bit_18053749339(e18, 15097178116, 0, 12624789609int);
    let e20 = lemma_next_bit_18053749339(e19, 7731491005, 0, 3310999396int);
    let e21 = lemma_next_bit_18053749339(e20, 3431510781, 1, 1956701517int);
    let e22 = lemma_next_bit_18053749339(e21, 1198642620, 0, 79581482int);
    let e23 = lemma_next_bit_18053749339(e22, 2426324002, 1, 978253555int);
    let e24 = lemma_next_bit_18053749339(e23, 16088237867, 1, 43010134815int);
    let e25 = lemma_next_bit_18053749339(e24, 8910991782, 0, 4398298272int);
    let e26 = lemma_next_bit_18053749339(e25, 18026693316, 1, 53999033520int);
    let e27 = lemma_next_bit_18053749339(e26, 9018384288, 0, 4504950946int);
    let e28 = lemma_next_bit_18053749339(e27, 2470342250, 0, 338023460int);
    let e29 = lemma_next_bit_18053749339(e28, 14593569560, 1, 35389702466int);
    let e30 = lemma_next_bit_18053749339(e29, 4721610826, 0, 1234846478int);
    let e31 = lemma_next_bit_18053749339(e30, 6241424234, 1, 6473233188int);
    let e32 = lemma_next_bit_18053749339(e31, 17239597536, 1, 49386482157int);
}

/// 3 raised to 18053749338 is one modulo 18053749339: the residue is 1.
proof fn lemma_power_18053749339_full()
    ensures
        pow(3, 18053749338) % 18053749339 == 1,
{
    lemma_power_18053749339_full_part_1();
    let e0: nat = 2256718667;
    let e1 = lemma_next_bit_18053749339(e0, 12297769665, 0, 8376937991int);
    let e2 = lemma_next_bit_18053749339(e1, 15533974276, 1, 40097658210int);
    let e3 = lemma_next_bit_18053749339(e2, 18053749338, 0, 18053749337int);
}

/// The residue of 3 raised to the leading 32 bits of 9026874669, modulo 18053749339.
proof fn lemma_power_18053749339_without_2_part_1()
    ensures
        pow(3, 2256718667) % 18053749339 == 12297769665,
{
    lemma_pow0(3);
    lemma_small_mod(1, 18053749339);
    let e0: nat = 0;
    let e1 = lemma_next_bit_18053749339(e0, 1, 1, 0int);
    let e2 = lemma_next_bit_18053749339(e1, 3, 0, 0int);
    let e3 = lemma_next_bit_18053749339(e2, 9, 0, 0int);
    let e4 = lemma_next_bit_18053749339(e3, 81, 0, 0int);
    let e5 = lemma_next_bit_18053749339(e4, 6561, 0, 0int);
    let e6 = lemma_next_bit_18053749339(e5, 43046721, 1, 307917int);
    let e7 = lemma_next_bit_18053749339(e6, 4231338660, 1, 2975153778int);
    let e8 = lemma_next_bit_18053749339(e7, 13840934058, 0, 10611172892int);
    let e9 = lemma_next_bit_18053749339(e8, 12944628976, 1, 27844092024int);
    let e10 = lemma_next_bit_18053749339(e9, 5551253592, 0, 1706926127int);
    let e11 = lemma_next_bit_18053749339(e10, 5644822411, 0, 1764953055int);
    let e12 = lemma_next_bit_18053749339(e11, 1655572276, 0, 151819963int);
    let e13 = lemma_next_bit_18053749339(e12, 4401565719, 0, 1073116747int);
    let e14 = lemma_next_bit_18053749339(e13, 16854906728, 0, 15735672157int);
    let e15 = lemma_next_bit_18053749339(e14, 6420211761, 1, 6849400357int);
    let e16 = lemma_next_bit_18053749339(e15, 513049340, 0, 14579776int);
    let e17 = lemma_next_bit_18053749339(e16, 3951667536, 1, 2594864261int);
    let e18 = lemma_next_bit_18053749339(e17, 8405460409, 1, 11740236893int);
    let e19 = lemma_next_bit_18053749339(e18, 15097178116, 0, 12624789609int);
    let e20 = lemma_next_bit_18053749339(e19, 7731491005, 0, 3310999396int);
    let e21 = lemma_next_bit_18053749339(e20, 3431510781, 1, 1956701517int);
    let e22 = lemma_next_bit_18053749339(e21, 1198642620, 0, 79581482int);
    let e23 = lemma_next_bit_18053749339(e22, 2426324002, 1, 978253555int);
    let e24 = lemma_next_bit_18053749339(e23, 16088237867, 1, 43010134815int);
    let e25 = lemma_next_bit_18053749339(e24, 8910991782, 0, 4398298272int);
    let e26 = lemma_next_bit_18053749339(e25, 18026693316, 1, 53999033520int);
    let e27 = lemma_next_bit_18053749339(e26, 9018384288, 0, 4504950946int);
    let e28 = lemma_next_bit_18053749339(e27, 2470342250, 0, 338023460int);
    let e29 = lemma_next_bit_18053749339(e28, 14593569560, 1, 35389702466int);
    let e30 = lemma_next_bit_18053749339(e29, 4721610826, 0, 1234846478int);
    let e31 = lemma_next_bit_18053749339(e30, 6241424234, 1, 6473233188int);
    let e32 = lemma_next_bit_18053749339(e31, 17239597536, 1, 49386482157int);
}

/// 3 raised to 9026874669 is not one modulo 18053749339: the residue is 18053749338.
proof fn lemma_power_18053749339_without_2()
    ensures
        pow(3, 9026874669) % 18053749339 == 18053749338,
{
    lemma_power_18053749339_without_2_part_1();
    let e0: nat = 2256718667;
    let e1 = lemma_next_bit_18053749339(e0, 12297769665, 0, 8376937991int);
    let e2 = lemma_next_bit_18053749339(e1, 15533974276, 1, 40097658210int);
}

/// The residue of 3 raised to the leading 32 bits of 6017916446, modulo 18053749339.
proof fn lemma_power_18053749339_without_3_part_1()
    ensures
        pow(3, 3008958223) % 18053749339 == 14274086745,
{
    lemma_pow0(3);
    lemma_small_mod(1, 18053749339);
    let e0: nat = 0;
    let e1 = lemma_next_bit_18053749339(e0, 1, 1, 0int);
    let e2 = lemma_next_bit_18053749339(e1, 3, 0, 0int);
    let e3 = lemma_next_bit_18053749339(e2, 9, 1, 0int);
    let e4 = lemma_next_bit_18053749339(e3, 243, 1, 0int);
    let e5 = lemma_next_bit_18053749339(e4, 177147, 0, 1int);
    let e6 = lemma_next_bit_18053749339(e5, 13327310270, 0, 9838244438int);
    let e7 = lemma_next_bit_18053749339(e6, 13384546418, 1, 29768788651int);
    let e8 = lemma_next_bit_18053749339(e7, 15967940483, 1, 42369335889int);
    let e9 = lemma_next_bit_18053749339(e8, 5988092496, 0, 1986138782int);
    let e10 = lemma_next_bit_18053749339(e9, 17956744918, 1, 53580785131int);
    let e11 = lemma_next_bit_18053749339(e10, 8464201763, 0, 3968300996int);
    let e12 = lemma_next_bit_18053749339(e11, 1284266525, 1, 274071686int);
    let e13 = lemma_next_bit_18053749339(e12, 1745611321, 1, 506347821int);
    let e14 = lemma_next_bit_18053749339(e13, 13327254804, 0, 9838162548int);
    let e15 = lemma_next_bit_18053749339(e14, 12811522644, 0, 9091469554int);
    let e16 = lemma_next_bit_18053749339(e15, 6658625930, 1, 7367549827int);
    let e17 = lemma_next_bit_18053749339(e16, 7754280347, 0, 3330547166int);
    let e18 = lemma_next_bit_18053749339(e17, 3189617135, 0, 563520478int);
    let e19 = lemma_next_bit_18053749339(e18, 10680144183, 0, 6318104767int);
    let e20 = lemma_next_bit_18053749339(e19, 8709738476, 0, 4201872026int);
    let e21 = lemma_next_bit_18053749339(e20, 8354711762, 1, 11598899593int);
    let e22 = lemma_next_bit_18053749339(e21, 18052314905, 1, 54152641754int);
    let e23 = lemma_next_bit_18053749339(e22, 16474176469, 1, 45098414501int);
    let e24 = lemma_next_bit_18053749339(e23, 7883159044, 1, 10326530297int);
    let e25 = lemma_next_bit_18053749339(e24, 15369758125, 0, 13084787009int);
    let e26 = lemma_next_bit_18053749339(e25, 6313978574, 0, 2208202001int);
    let e27 = lemma_next_bit_18053749339(e26, 16998846137, 0, 16005582251int);
    let e28 = lemma_next_bit_18053749339(e27, 5098440680, 0, 1439817119int);
    let e29 = lemma_next_bit_18053749339(e28, 7051728059, 1, 8263137094int);
    let e30 = lemma_next_bit_18053749339(e29, 5394841577, 1, 4836277788int);
    let e31 = lemma_next_bit_18053749339(e30, 4458158655, 1, 3302667753int);
    let e32 = lemma_next_bit_18053749339(e31, 16793861808, 1, 46865687973int);
}

/// 3 raised to 6017916446 is not one modulo 18053749339: the residue is 14274086744.
proof fn lemma_power_18053749339_without_3()
    ensures
        pow(3, 6017916446) % 18053749339 == 14274086744,
{
    lemma_power_18053749339_without_3_part_1();
    let e0: nat = 3008958223;
    let e1 = lemma_next_bit_18053749339(e0, 14274086745, 0, 11285719579int);
}

/// 3 raised to 114992034 is not one modulo 18053749339: the residue is 15854488855.
proof fn lemma_power_18053749339_without_157()
    ensures
        pow(3, 114992034) % 18053749339 == 15854488855,
{
    lemma_pow0(3);
    lemma_small_mod(1, 18053749339);
    let e0: nat = 0;
    let e1 = lemma_next_bit_18053749339(e0, 1, 1, 0int);
    let e2 = lemma_next_bit_18053749339(e1, 3, 1, 0int);
    let e3 = lemma_next_bit_18053749339(e2, 27, 0, 0int);
    let e4 = lemma_next_bit_18053749339(e3, 729, 1, 0int);
    let e5 = lemma_next_bit_18053749339(e4, 1594323, 1, 422int);
    let e6 = lemma_next_bit_18053749339(e5, 6915263929, 0, 2648805758int);
    let e7 = lemma_next_bit_18053749339(e6, 5096623079, 1, 4316372126int);
    let e8 = lemma_next_bit_18053749339(e7, 11535796009, 1, 22113066997int);
    let e9 = lemma_next_bit_18053749339(e8, 3429519260, 0, 651476994int);
    let e10 = lemma_next_bit_18053749339(e9, 4909740634, 1, 4005631069int);
    let e11 = lemma_next_bit_18053749339(e10, 15215552477, 0, 12823543344int);
    let e12 = lemma_next_bit_18053749339(e11, 9962985913, 1, 16494261624int);
    let e13 = lemma_next_bit_18053749339(e12, 16326264171, 0, 14764074585int);
    let e14 = lemma_next_bit_18053749339(e13, 1387867926, 1, 320073799int);
    let e15 = lemma_next_bit_18053749339(e14, 2931155567, 0, 475894109int);
    let e16 = lemma_next_bit_18053749339(e15, 2162347538, 0, 258990350int);
    let e17 = lemma_next_bit_18053749339(e16, 14974782794, 0, 12420916869int);
    let e18 = lemma_next_bit_18053749339(e17, 13995746845, 1, 32549626020int);
    let e19 = lemma_next_bit_18053749339(e18, 4710161295, 1, 3686594791int);
    let e20 = lemma_next_bit_18053749339(e19, 3571137926, 1, 2119176329int);
    let e21 = lemma_next_bit_18053749339(e20, 10638547897, 0, 6268985972int);
    let e22 = lemma_next_bit_18053749339(e21, 8567850101, 1, 12198251007int);
    let e23 = lemma_next_bit_18053749339(e22, 5034796230, 0, 1404094662int);
    let e24 = lemma_next_bit_18053749339(e23, 1646284482, 0, 150121315int);
    let e25 = lemma_next_bit_18053749339(e24, 4222947539, 0, 987788496int);
    let e26 = lemma_next_bit_18053749339(e25, 10414352377, 1, 18022638964int);
    let e27 = lemma_next_bit_18053749339(e26, 13626005591, 0, 10284181134int);
}

/// 3 raised to 942 is not one modulo 18053749339: the residue is 14285594972.
proof fn lemma_power_18053749339_without_19165339()
    ensures
        pow(3, 942) % 18053749339 == 14285594972,
{
    lemma_pow0(3);
    lemma_small_mod(1, 18053749339);
    let e0: nat = 0;
    let e1 = lemma_next_bit_18053749339(e0, 1, 1, 0int);
    let e2 = lemma_next_bit_18053749339(e1, 3, 1, 0int);
    let e3 = lemma_next_bit_18053749339(e2, 27, 1, 0int);
    let e4 = lemma_next_bit_18053749339(e3, 2187, 0, 0int);
    let e5 = lemma_next_bit_18053749339(e4, 4782969, 1, 3801int);
    let e6 = lemma_next_bit_18053749339(e5, 8076127344, 0, 3612758305int);
    let e7 = lemma_next_bit_18053749339(e6, 15643983941, 1, 40667602438int);
    let e8 = lemma_next_bit_18053749339(e7, 5040385961, 1, 4221642301int);
    let e9 = lemma_next_bit_18053749339(e8, 6364491524, 1, 6731026048int);
    let e10 = lemma_next_bit_18053749339(e9, 12331745456, 0, 8423288876int);
}

/// 18053749339 is prime: 3 has full order modulo it.
pub proof fn lemma_prime_18053749339()
    ensures
        is_prime(18053749339),
        is_order_certificate(18053749339, 3, seq![(2int, 1nat), (3int, 1nat), (157int, 1nat), (19165339int, 1nat)]),
{
    lemma_prime_2();
    lemma_prime_3();
    lemma_prime_157();
    lemma_prime_19165339();
    lemma2_to64();
    lemma2_to64_rest();
    let f0 = Seq::<(int, nat)>::empty();
    assert(factored(f0) == 1);
    let f1 = f0.push((2int, 1nat));
    assert(f1.drop_last() =~= f0);
    lemma_pow1(2);
    assert(factored(f1) == 2) by {
        assert(factored(f1) == pow(2, 1) * factored(f0));
    }
    let f2 = f1.push((3int, 1nat));
    assert(f2.drop_last() =~= f1);
    lemma_pow1(3);
    assert(factored(f2) == 6) by {
        assert(factored(f2) == pow(3, 1) * factored(f1));
    }
    let f3 = f2.push((157int, 1nat));
    assert(f3.drop_last() =~= f2);
    lemma_pow1(157);
    assert(factored(f3) == 942) by {
        assert(factored(f3) == pow(157, 1) * factored(f2));
    }
    let f4 = f3.push((19165339int, 1nat));
    assert(f4.drop_last() =~= f3);
    lemma_pow1(19165339);
    assert(factored(f4) == 18053749338) by {
        assert(factored(f4) == pow(19165339, 1) * factored(f3));
    }
    let factors = seq![(2int, 1nat), (3int, 1nat), (157int, 1nat), (19165339int, 1nat)];
    assert(factors =~= f4);
    lemma_power_18053749339_full();
    lemma_power_18053749339_without_2();
    lemma_power_18053749339_without_3();
    lemma_power_18053749339_without_157();
    lemma_power_18053749339_without_19165339();
    assert forall|i: int| 0 <= i < factors.len() implies is_prime((#[trigger] factors[i]).0) by {
        if i == 0 {
            assert(factors[0].0 == 2);
        } else if i == 1 {
            assert(factors[1].0 == 3);
        } else if i == 2 {
            assert(factors[2].0 == 157);
        } else if i == 3 {
            assert(factors[3].0 == 19165339);
        }
    }
    assert forall|i: int| 0 <= i < factors.len() implies pow(
        3,
        ((18053749339 - 1) / (#[trigger] factors[i]).0) as nat,
    ) % 18053749339 != 1 by {
        if i == 0 {
            assert(factors[0].0 == 2);
            assert((18053749339 - 1) / 2 == 9026874669);
        } else if i == 1 {
            assert(factors[1].0 == 3);
            assert((18053749339 - 1) / 3 == 6017916446);
        } else if i == 2 {
            assert(factors[2].0 == 157);
            assert((18053749339 - 1) / 157 == 114992034);
        } else if i == 3 {
            assert(factors[3].0 == 19165339);
            assert((18053749339 - 1) / 19165339 == 942);
        }
    }
    lemma_order_certificate_proves_prime(18053749339, 3, factors);
}

/// One more bit of an exponent of 3, modulo 18446743880436023297.
proof fn lemma_next_bit_modulus_64(e: nat, r: int, bit: int, q: int) -> (next: nat)
    requires
        bit == 0 || bit == 1,
        pow(3, e) % 18446743880436023297 == r,
        0 <= (r * r) * (if bit == 1 {
            3int
        } else {
            1int
        }) - q * 18446743880436023297 < 18446743880436023297,
    ensures
        next == 2 * e + bit,
        pow(3, next) % 18446743880436023297 == (r * r) * (if bit == 1 {
            3int
        } else {
            1int
        }) - q * 18446743880436023297,
{
    let gb = if bit == 1 {
        3int
    } else {
        1int
    };
    lemma_next_bit(3, 18446743880436023297, e, r, bit, q, (r * r) * gb - q * 18446743880436023297)
}

/// The residue of 3 raised to the leading 32 bits of 18446743880436023296, modulo 18446743880436023297.
proof fn lemma_power_modulus_64_full_part_1()
    ensures
        pow(3, 4294967251) % 18446743880436023297 == 8387321423513296549,
{
    lemma_pow0(3);
    lemma_small_mod(1, 18446743880436023297);
    let e0: nat = 0;
    let e1 = lemma_next_bit_modulus_64(e0, 1, 1, 0int);
    let e2 = lemma_next_bit_modulus_64(e1, 3, 1, 0int);
    let e3 = lemma_next_bit_modulus_64(e2, 27, 1, 0int);
    let e4 = lemma_next_bit_modulus_64(e3, 2187, 1, 0int);
    let e5 = lemma_next_bit_modulus_64(e4, 14348907, 1, 0int);
    let e6 = lemma_next_bit_modulus_64(e5, 617673396283947, 1, 62046791609int);
    let e7 = lemma_next_bit_modulus_64(e6, 16827545320321581554, 1, 46051425120255466030int);
    let e8 = lemma_next_bit_modulus_64(e7, 6443601586947063838, 1, 6752411430508566793int);
    let e9 = lemma_next_bit_modulus_64(e8, 11196263627913294211, 1, 20386739259498700680int);
    let e10 = lemma_next_bit_modulus_64(e9, 17968298291828595603, 1, 52506785847427134002int);
    let e11 = lemma_next_bit_modulus_64(e10, 11548273163119956233, 1, 21688805446820838785int);
    let e12 = lemma_next_bit_modulus_64(e11, 12194252272165476722, 1, 24183095310644833561int);
    let e13 = lemma_next_bit_modulus_64(e12, 17343865735288125235, 1, 48920776576086657561int);
    let e14 = lemma_next_bit_modulus_64(e13, 11942832335674217058, 1, 23196165966606511782int);
    let e15 = lemma_next_bit_modulus_64(e14, 17634171175037540838, 1, 50572176051133204345int);
    let e16 = lemma_next_bit_modulus_64(e15, 876196898871601267, 1, 124854718627024901int);
    let e17 = lemma_next_bit_modulus_64(e16, 11717566311272897270, 1, 22329365195669235576int);
    let e18 = lemma_next_bit_modulus_64(e17, 8729619482603144628, 1, 12393448427264083166int);
    let e19 = lemma_next_bit_modulus_64(e18, 12729332191134256850, 1, 26351951176179636807int);
    let e20 = lemma_next_bit_modulus_64(e19, 14086760540465074821, 1, 32271845450436230817int);
    let e21 = lemma_next_bit_modulus_64(e20, 12975258398303202474, 1, 27380007809609976577int);
    let e22 = lemma_next_bit_modulus_64(e21, 8903066101522847659, 1, 12890825587731584526int);
    let e23 = lemma_next_bit_modulus_64(e22, 5292865261504638621, 1, 4555994736743814967int);
    let e24 = lemma_next_bit_modulus_64(e23, 5873713693145058724, 1, 5610829657416636869int);
    let e25 = lemma_next_bit_modulus_64(e24, 8210278261952387435, 1, 10962693943538601216int);
    let e26 = lemma_next_bit_modulus_64(e25, 5229237860069108523, 1, 4447114695322663232int);
    let e27 = lemma_next_bit_modulus_64(e26, 17747254382616408683, 0, 17074289108298311641int);
    let e28 = lemma_next_bit_modulus_64(e27, 16448230495235494112, 1, 43998705925221537952int);
    let e29 = lemma_next_bit_modulus_64(e28, 22180877118337888, 0, 26670902622581int);
    let e30 = lemma_next_bit_modulus_64(e29, 4143889664022030987, 0, 930886321124697738int);
    let e31 = lemma_next_bit_modulus_64(e30, 16464187204536991983, 1, 44084115125628183809int);
    let e32 = lemma_next_bit_modulus_64(e31, 3230385540896618594, 1, 1697111014898627047int);
}

/// 3 raised to 18446743880436023296 is one modulo 18446743880436023297: the residue is 1.
proof fn lemma_power_modulus_64_full()
    ensures
        pow(3, 18446743880436023296) % 18446743880436023297 == 1,
{
    lemma_power_modulus_64_full_part_1();
    let e0: nat = 4294967251;
    let e1 = lemma_next_bit_modulus_64(e0, 8387321423513296549, 0, 3813527260815545322int);
    let e2 = lemma_next_bit_modulus_64(e1, 5896509461063942767, 0, 1884821736007903124int);
    let e3 = lemma_next_bit_modulus_64(e2, 10288815193268536461, 0, 5738666876245005838int);
    let e4 = lemma_next_bit_modulus_64(e3, 14238805911617396635, 0, 10990752357316206070int);
    let e5 = lemma_next_bit_modulus_64(e4, 7181311732736510435, 0, 2795682454150281138int);
    let e6 = lemma_next_bit_modulus_64(e5, 16049702105596217239, 0, 13964141278698718413int);
    let e7 = lemma_next_bit_modulus_64(e6, 8023577673969915460, 0, 3489927496554301880int);
    let e8 = lemma_next_bit_modulus_64(e7, 3146727914296113240, 0, 536782894086363665int);
    let e9 = lemma_next_bit_modulus_64(e8, 16067787482948994095, 0, 13995629595693717120int);
    let e10 = lemma_next_bit_modulus_64(e9, 7450050231497124385, 0, 3008837159098586321int);
    let e11 = lemma_next_bit_modulus_64(e10, 8052353888440107888, 0, 3515005334542754070int);
    let e12 = lemma_next_bit_modulus_64(e11, 16288720824018251754, 0, 14383157689102931405int);
    let e13 = lemma_next_bit_modulus_64(e12, 4791871194951134231, 0, 1244774129127208360int);
    let e14 = lemma_next_bit_modulus_64(e13, 7099954031846798441, 0, 2732696218967945564int);
    let e15 = lemma_next_bit_modulus_64(e14, 6978013059548225973, 0, 2639634754774654096int);
    let e16 = lemma_next_bit_modulus_64(e15, 5896950880499322217, 0, 1885103946388167792int);
    let e17 = lemma_next_bit_modulus_64(e16, 14751731473932744865, 0, 11796856013695260848int);
    let e18 = lemma_next_bit_modulus_64(e17, 6295990244963892369, 0, 2148861252782978405int);
    let e19 = lemma_next_bit_modulus_64(e18, 11069288501388530876, 0, 6642318488355146074int);
    let e20 = lemma_next_bit_modulus_64(e19, 3049275975503241398, 0, 504050147551648384int);
    let e21 = lemma_next_bit_modulus_64(e20, 15694181878484592356, 0, 13352348058357290598int);
    let e22 = lemma_next_bit_modulus_64(e21, 12605344396966569130, 0, 8613699436389675982int);
    let e23 = lemma_next_bit_modulus_64(e22, 5555288384635604246, 0, 1672990595874083244int);
    let e24 = lemma_next_bit_modulus_64(e23, 18323190592631893048, 0, 18200464844637831946int);
    let e25 = lemma_next_bit_modulus_64(e24, 14091326920083884342, 0, 10764257131540295603int);
    let e26 = lemma_next_bit_modulus_64(e25, 908087845658109873, 0, 44702931898271450int);
    let e27 = lemma_next_bit_modulus_64(e26, 5506619188710105479, 0, 1643805274579092972int);
    let e28 = lemma_next_bit_modulus_64(e27, 4194934130384850757, 0, 953960898049382733int);
    let e29 = lemma_next_bit_modulus_64(e28, 7417386157105942348, 0, 2982511046948325438int);
    let e30 = lemma_next_bit_modulus_64(e29, 10297626966994024018, 0, 5748500756484513079int);
    let e31 = lemma_next_bit_modulus_64(e30, 14732444482215662861, 0, 11766028835677446825int);
    let e32 = lemma_next_bit_modulus_64(e31, 18446743880436023296, 0, 18446743880436023295int);
}

/// The residue of 3 raised to the leading 32 bits of 9223371940218011648, modulo 18446743880436023297.
proof fn lemma_power_modulus_64_without_2_part_1()
    ensures
        pow(3, 4294967251) % 18446743880436023297 == 8387321423513296549,
{
    lemma_pow0(3);
    lemma_small_mod(1, 18446743880436023297);
    let e0: nat = 0;
    let e1 = lemma_next_bit_modulus_64(e0, 1, 1, 0int);
    let e2 = lemma_next_bit_modulus_64(e1, 3, 1, 0int);
    let e3 = lemma_next_bit_modulus_64(e2, 27, 1, 0int);
    let e4 = lemma_next_bit_modulus_64(e3, 2187, 1, 0int);
    let e5 = lemma_next_bit_modulus_64(e4, 14348907, 1, 0int);
    let e6 = lemma_next_bit_modulus_64(e5, 617673396283947, 1, 62046791609int);
    let e7 = lemma_next_bit_modulus_64(e6, 16827545320321581554, 1, 46051425120255466030int);
    let e8 = lemma_next_bit_modulus_64(e7, 6443601586947063838, 1, 6752411430508566793int);
    let e9 = lemma_next_bit_modulus_64(e8, 11196263627913294211, 1, 20386739259498700680int);
    let e10 = lemma_next_bit_modulus_64(e9, 17968298291828595603, 1, 52506785847427134002int);
    let e11 = lemma_next_bit_modulus_64(e10, 11548273163119956233, 1, 21688805446820838785int);
    let e12 = lemma_next_bit_modulus_64(e11, 12194252272165476722, 1, 24183095310644833561int);
    let e13 = lemma_next_bit_modulus_64(e12, 17343865735288125235, 1, 48920776576086657561int);
    let e14 = lemma_next_bit_modulus_64(e13, 11942832335674217058, 1, 23196165966606511782int);
    let e15 = lemma_next_bit_modulus_64(e14, 17634171175037540838, 1, 50572176051133204345int);
    let e16 = lemma_next_bit_modulus_64(e15, 876196898871601267, 1, 124854718627024901int);
    let e17 = lemma_next_bit_modulus_64(e16, 11717566311272897270, 1, 22329365195669235576int);
    let e18 = lemma_next_bit_modulus_64(e17, 8729619482603144628, 1, 12393448427264083166int);
    let e19 = lemma_next_bit_modulus_64(e18, 12729332191134256850, 1, 26351951176179636807int);
    let e20 = lemma_next_bit_modulus_64(e19, 14086760540465074821, 1, 32271845450436230817int);
    let e21 = lemma_next_bit_modulus_64(e20, 12975258398303202474, 1, 27380007809609976577int);
    let e22 = lemma_next_bit_modulus_64(e21, 8903066101522847659, 1, 12890825587731584526int);
    let e23 = lemma_next_bit_modulus_64(e22, 5292865261504638621, 1, 4555994736743814967int);
    let e24 = lemma_next_bit_modulus_64(e23, 5873713693145058724, 1, 5610829657416636869int);
    let e25 = lemma_next_bit_modulus_64(e24, 8210278261952387435, 1, 10962693943538601216int);
    let e26 = lemma_next_bit_modulus_64(e25, 5229237860069108523, 1, 4447114695322663232int);
    let e27 = lemma_next_bit_modulus_64(e26, 17747254382616408683, 0, 17074289108298311641int);
    let e28 = lemma_next_bit_modulus_64(e27, 16448230495235494112, 1, 43998705925221537952int);
    let e29 = lemma_next_bit_modulus_64(e28, 22180877118337888, 0, 26670902622581int);
    let e30 = lemma_next_bit_modulus_64(e29, 4143889664022030987, 0, 930886321124697738int);
    let e31 = lemma_next_bit_modulus_64(e30, 16464187204536991983, 1, 44084115125628183809int);
    let e32 = lemma_next_bit_modulus_64(e31, 3230385540896618594, 1, 1697111014898627047int);
}

/// 3 raised to 9223371940218011648 is not one modulo 18446743880436023297: the residue is 18446743880436023296.
proof fn lemma_power_modulus_64_without_2()
    ensures
        pow(3, 9223371940218011648) % 18446743880436023297 == 18446743880436023296,
{
    lemma_power_modulus_64_without_2_part_1();
    let e0: nat = 4294967251;
    let e1 = lemma_next_bit_modulus_64(e0, 8387321423513296549, 0, 3813527260815545322int);
    let e2 = lemma_next_bit_modulus_64(e1, 5896509461063942767, 0, 1884821736007903124int);
    let e3 = lemma_next_bit_modulus_64(e2, 10288815193268536461, 0, 5738666876245005838int);
    let e4 = lemma_next_bit_modulus_64(e3, 14238805911617396635, 0, 10990752357316206070int);
    let e5 = lemma_next_bit_modulus_64(e4, 7181311732736510435, 0, 2795682454150281138int);
    let e6 = lemma_next_bit_modulus_64(e5, 16049702105596217239, 0, 13964141278698718413int);
    let e7 = lemma_next_bit_modulus_64(e6, 8023577673969915460, 0, 3489927496554301880int);
    let e8 = lemma_next_bit_modulus_64(e7, 3146727914296113240, 0, 536782894086363665int);
    let e9 = lemma_next_bit_modulus_64(e8, 16067787482948994095, 0, 13995629595693717120int);
    let e10 = lemma_next_bit_modulus_64(e9, 7450050231497124385, 0, 3008837159098586321int);
    let e11 = lemma_next_bit_modulus_64(e10, 8052353888440107888, 0, 3515005334542754070int);
    let e12 = lemma_next_bit_modulus_64(e11, 16288720824018251754, 0, 14383157689102931405int);
    let e13 = lemma_next_bit_modulus_64(e12, 4791871194951134231, 0, 1244774129127208360int);
    let e14 = lemma_next_bit_modulus_64(e13, 7099954031846798441, 0, 2732696218967945564int);
    let e15 = lemma_next_bit_modulus_64(e14, 6978013059548225973, 0, 2639634754774654096int);
    let e16 = lemma_next_bit_modulus_64(e15, 5896950880499322217, 0, 1885103946388167792int);
    let e17 = lemma_next_bit_modulus_64(e16, 14751731473932744865, 0, 11796856013695260848int);
    let e18 = lemma_next_bit_modulus_64(e17, 6295990244963892369, 0, 2148861252782978405int);
    let e19 = lemma_next_bit_modulus_64(e18, 11069288501388530876, 0, 6642318488355146074int);
    let e20 = lemma_next_bit_modulus_64(e19, 3049275975503241398, 0, 504050147551648384int);
    let e21 = lemma_next_bit_modulus_64(e20, 15694181878484592356, 0, 13352348058357290598int);
    let e22 = lemma_next_bit_modulus_64(e21, 12605344396966569130, 0, 8613699436389675982int);
    let e23 = lemma_next_bit_modulus_64(e22, 5555288384635604246, 0, 1672990595874083244int);
    let e24 = lemma_next_bit_modulus_64(e23, 18323190592631893048, 0, 18200464844637831946int);
    let e25 = lemma_next_bit_modulus_64(e24, 14091326920083884342, 0, 10764257131540295603int);
    let e26 = lemma_next_bit_modulus_64(e25, 908087845658109873, 0, 44702931898271450int);
    let e27 = lemma_next_bit_modulus_64(e26, 5506619188710105479, 0, 1643805274579092972int);
    let e28 = lemma_next_bit_modulus_64(e27, 4194934130384850757, 0, 953960898049382733int);
    let e29 = lemma_next_bit_modulus_64(e28, 7417386157105942348, 0, 2982511046948325438int);
    let e30 = lemma_next_bit_modulus_64(e29, 10297626966994024018, 0, 5748500756484513079int);
    let e31 = lemma_next_bit_modulus_64(e30, 14732444482215662861, 0, 11766028835677446825int);
}

/// The residue of 3 raised to the leading 32 bits of 636094616566759424, modulo 18446743880436023297.
proof fn lemma_power_modulus_64_without_29_part_1()
    ensures
        pow(3, 2369637104) % 18446743880436023297 == 2494319937267281666,
{
    lemma_pow0(3);
    lemma_small_mod(1, 18446743880436023297);
    let e0: nat = 0;
    let e1 = lemma_next_bit_modulus_64(e0, 1, 1, 0int);
    let e2 = lemma_next_bit_modulus_64(e1, 3, 0, 0int);
    let e3 = lemma_next_bit_modulus_64(e2, 9, 0, 0int);
    let e4 = lemma_next_bit_modulus_64(e3, 81, 0, 0int);
    let e5 = lemma_next_bit_modulus_64(e4, 6561, 1, 0int);
    let e6 = lemma_next_bit_modulus_64(e5, 129140163, 1, 0int);
    let e7 = lemma_next_bit_modulus_64(e6, 50031545098999707, 0, 135696333250878int);
    let e8 = lemma_next_bit_modulus_64(e7, 587574073432381083, 1, 56147029634223015int);
    let e9 = lemma_next_bit_modulus_64(e8, 18235357733775178212, 0, 18026393917217127621int);
    let e10 = lemma_next_bit_modulus_64(e9, 12229061522181330507, 0, 8107118886813593447int);
    let e11 = lemma_next_bit_modulus_64(e10, 10414996861590342290, 1, 17640862853087881185int);
    let e12 = lemma_next_bit_modulus_64(e11, 12944719813059365355, 1, 27251276234662660742int);
    let e13 = lemma_next_bit_modulus_64(e12, 11156126446603521701, 1, 20240833520424748491int);
    let e14 = lemma_next_bit_modulus_64(e13, 12161542449292205376, 1, 24053532000755510081int);
    let e15 = lemma_next_bit_modulus_64(e14, 17126708612855547071, 0, 15901134086907868556int);
    let e16 = lemma_next_bit_modulus_64(e15, 2616021031666929909, 1, 1112971386573284143int);
    let e17 = lemma_next_bit_modulus_64(e16, 3389243860407565372, 1, 1868130335591593905int);
    let e18 = lemma_next_bit_modulus_64(e17, 13441609497417290367, 1, 29383537883779855294int);
    let e19 = lemma_next_bit_modulus_64(e18, 10475090097700199749, 0, 5948340436997662988int);
    let e20 = lemma_next_bit_modulus_64(e19, 15624195757177031565, 0, 13233527534227283281int);
    let e21 = lemma_next_bit_modulus_64(e20, 3260348901471751768, 1, 1728740046735576220int);
    let e22 = lemma_next_bit_modulus_64(e21, 4337177369194180132, 0, 1019752193328848548int);
    let e23 = lemma_next_bit_modulus_64(e22, 15353259150550914668, 1, 38335638214282560426int);
    let e24 = lemma_next_bit_modulus_64(e23, 9115426747706406150, 0, 4504372442711953439int);
    let e25 = lemma_next_bit_modulus_64(e24, 10304184868974554117, 1, 17267474384996092105int);
    let e26 = lemma_next_bit_modulus_64(e25, 13446165705147178882, 1, 29403461121725499710int);
    let e27 = lemma_next_bit_modulus_64(e26, 12066490217393565902, 1, 23679005971488518203int);
    let e28 = lemma_next_bit_modulus_64(e27, 1407417134645521, 1, 322141891880int);
    let e29 = lemma_next_bit_modulus_64(e28, 11952699591640955963, 0, 7744837162266544462int);
    let e30 = lemma_next_bit_modulus_64(e29, 17643071543386926155, 0, 16874412931769500740int);
    let e31 = lemma_next_bit_modulus_64(e30, 10495481222724344245, 0, 5971521413781106482int);
    let e32 = lemma_next_bit_modulus_64(e31, 16442439920674908871, 0, 14655910674389088175int);
}

/// 3 raised to 636094616566759424 is not one modulo 18446743880436023297: the residue is 6900821863371237834.
proof fn lemma_power_modulus_64_without_29()
    ensures
        pow(3, 636094616566759424) % 18446743880436023297 == 6900821863371237834,
{
    lemma_power_modulus_64_without_29_part_1();
    let e0: nat = 2369637104;
    let e1 = lemma_next_bit_modulus_64(e0, 2494319937267281666, 0, 337275347333656157int);
    let e2 = lemma_next_bit_modulus_64(e1, 4562879496340245927, 0, 1128647388019684468int);
    let e3 = lemma_next_bit_modulus_64(e2, 9042555912203038333, 0, 4432642311038873023int);
    let e4 = lemma_next_bit_modulus_64(e3, 6901555806014602058, 0, 2582107327572870520int);
    let e5 = lemma_next_bit_modulus_64(e4, 3320511104213330924, 0, 597709496302900853int);
    let e6 = lemma_next_bit_modulus_64(e5, 18431940494545521435, 0, 18417148988271023540int);
    let e7 = lemma_next_bit_modulus_64(e6, 1503490202569047845, 0, 122541018830890049int);
    let e8 = lemma_next_bit_modulus_64(e7, 17785210945289672472, 0, 17147401753863072468int);
    let e9 = lemma_next_bit_modulus_64(e8, 9264667036987303788, 0, 4653073510565283490int);
    let e10 = lemma_next_bit_modulus_64(e9, 2495253064749682414, 0, 337527744598116728int);
    let e11 = lemma_next_bit_modulus_64(e10, 5894587278127455180, 0, 1883593083130113377int);
    let e12 = lemma_next_bit_modulus_64(e11, 1908975028285488431, 0, 197551702470509077int);
    let e13 = lemma_next_bit_modulus_64(e12, 13931952607212874892, 0, 10522144434144857989int);
    let e14 = lemma_next_bit_modulus_64(e13, 12432904931683441931, 0, 8379642827058361715int);
    let e15 = lemma_next_bit_modulus_64(e14, 7292274508656134406, 0, 2882745478240961097int);
    let e16 = lemma_next_bit_modulus_64(e15, 584254876774296027, 0, 18504824658869785int);
    let e17 = lemma_next_bit_modulus_64(e16, 6260056537478603584, 0, 2124402447739861740int);
    let e18 = lemma_next_bit_modulus_64(e17, 14721162692418688276, 0, 11748015390754015007int);
    let e19 = lemma_next_bit_modulus_64(e18, 944581757120234097, 0, 48368140289009058int);
    let e20 = lemma_next_bit_modulus_64(e19, 10280955793749381183, 0, 5729902942119159368int);
    let e21 = lemma_next_bit_modulus_64(e20, 3908194520930683193, 0, 828004362852984063int);
    let e22 = lemma_next_bit_modulus_64(e21, 14239249048294959538, 0, 10991436471040567652int);
    let e23 = lemma_next_bit_modulus_64(e22, 10290917688680584800, 0, 5741012482290491608int);
    let e24 = lemma_next_bit_modulus_64(e23, 14759267167320048424, 0, 11808911574218842882int);
    let e25 = lemma_next_bit_modulus_64(e24, 8701598376770261822, 0, 4104670981577108731int);
    let e26 = lemma_next_bit_modulus_64(e25, 9257011929812653577, 0, 4645387306514080124int);
    let e27 = lemma_next_bit_modulus_64(e26, 4072585989622246101, 0, 899126520667850759int);
    let e28 = lemma_next_bit_modulus_64(e27, 15373808138366569778, 0, 12812774883592057850int);
}

/// The residue of 3 raised to the leading 32 bits of 207266785173438464, modulo 18446743880436023297.
proof fn lemma_power_modulus_64_without_89_part_1()
    ensures
        pow(3, 3088515776) % 18446743880436023297 == 8956815559617956685,
{
    lemma_pow0(3);
    lemma_small_mod(1, 18446743880436023297);
    let e0: nat = 0;
    let e1 = lemma_next_bit_modulus_64(e0, 1, 1, 0int);
    let e2 = lemma_next_bit_modulus_64(e1, 3, 0, 0int);
    let e3 = lemma_next_bit_modulus_64(e2, 9, 1, 0int);
    let e4 = lemma_next_bit_modulus_64(e3, 243, 1, 0int);
    let e5 = lemma_next_bit_modulus_64(e4, 177147, 1, 0int);
    let e6 = lemma_next_bit_modulus_64(e5, 94143178827, 0, 480int);
    let e7 = lemma_next_bit_modulus_64(e6, 8501057043209913369, 0, 3917654590984687440int);
    let e8 = lemma_next_bit_modulus_64(e7, 18157482262381640481, 0, 17872756527961885430int);
    let e9 = lemma_next_bit_modulus_64(e8, 15669063125213048651, 0, 13309641030051965874int);
    let e10 = lemma_next_bit_modulus_64(e9, 15487493115979953223, 0, 13002969227101170296int);
    let e11 = lemma_next_bit_modulus_64(e10, 2663445104247701817, 0, 384563252426605093int);
    let e12 = lemma_next_bit_modulus_64(e11, 13839791682978249868, 1, 31150185919484865039int);
    let e13 = lemma_next_bit_modulus_64(e12, 13678927552821238689, 0, 10143419359433816490int);
    let e14 = lemma_next_bit_modulus_64(e13, 10230809721047671191, 1, 17022429794662948768int);
    let e15 = lemma_next_bit_modulus_64(e14, 17895992127788627347, 1, 52085051374980507905int);
    let e16 = lemma_next_bit_modulus_64(e15, 6375425923836112442, 1, 6610281354873042599int);
    let e17 = lemma_next_bit_modulus_64(e16, 2183140672564181189, 0, 258370974687773982int);
    let e18 = lemma_next_bit_modulus_64(e17, 6970541512798995067, 0, 2633985124777784025int);
    let e19 = lemma_next_bit_modulus_64(e18, 7966752942155904064, 0, 3440669684185453196int);
    let e20 = lemma_next_bit_modulus_64(e19, 17181888111212608884, 0, 16003760933620724170int);
    let e21 = lemma_next_bit_modulus_64(e20, 2837672885424736966, 0, 436520800465757815int);
    let e22 = lemma_next_bit_modulus_64(e21, 6489554252187069101, 0, 2283021581751576802int);
    let e23 = lemma_next_bit_modulus_64(e22, 13818780440392192007, 1, 31055674773414617089int);
    let e24 = lemma_next_bit_modulus_64(e23, 16478967579925741714, 0, 14721100605090903110int);
    let e25 = lemma_next_bit_modulus_64(e24, 15558881174309904126, 1, 39369351843124276579int);
    let e26 = lemma_next_bit_modulus_64(e25, 4398404871220010665, 1, 3146240692107658924int);
    let e27 = lemma_next_bit_modulus_64(e26, 9640180925147274247, 0, 5037912862667051298int);
    let e28 = lemma_next_bit_modulus_64(e27, 12961614493607327503, 0, 9107485384402727511int);
    let e29 = lemma_next_bit_modulus_64(e28, 5599976348761391242, 0, 1700014664373695256int);
    let e30 = lemma_next_bit_modulus_64(e29, 2616804729799923532, 0, 371212775451696323int);
    let e31 = lemma_next_bit_modulus_64(e30, 4232120778050118093, 0, 970948932564687431int);
    let e32 = lemma_next_bit_modulus_64(e31, 2772926571806876642, 0, 416828130886961207int);
}

/// 3 raised to 207266785173438464 is not one modulo 18446743880436023297: the residue is 2144354174302910797.
proof fn lemma_power_modulus_64_without_89()
    ensures
        pow(3, 207266785173438464) % 18446743880436023297 == 2144354174302910797,
{
    lemma_power_modulus_64_without_89_part_1();
    let e0: nat = 3088515776;
    let e1 = lemma_next_bit_modulus_64(e0, 8956815559617956685, 0, 4348981342669244746int);
    let e2 = lemma_next_bit_modulus_64(e1, 17254208939885341663, 0, 16138768341493467236int);
    let e3 = lemma_next_bit_modulus_64(e2, 15950561806041408477, 0, 13792158853475297235int);
    let e4 = lemma_next_bit_modulus_64(e3, 2406162777507775734, 0, 313855895077732568int);
    let e5 = lemma_next_bit_modulus_64(e4, 14501779966455602060, 0, 11400473902526052234int);
    let e6 = lemma_next_bit_modulus_64(e5, 2118539313613348102, 0, 243306290390108072int);
    let e7 = lemma_next_bit_modulus_64(e6, 2036730048487249020, 0, 224878131192051853int);
    let e8 = lemma_next_bit_modulus_64(e7, 15866550898350941059, 0, 13647256070864390033int);
    let e9 = lemma_next_bit_modulus_64(e8, 15568896568809442680, 0, 13140017660642940716int);
    let e10 = lemma_next_bit_modulus_64(e9, 8837061701439721748, 0, 4233465809533797252int);
    let e11 = lemma_next_bit_modulus_64(e10, 6386983840917595660, 0, 2211423482027455283int);
    let e12 = lemma_next_bit_modulus_64(e11, 13639501258237107549, 0, 10085031579516586819int);
    let e13 = lemma_next_bit_modulus_64(e12, 8262955702785665158, 0, 3701273102111520415int);
    let e14 = lemma_next_bit_modulus_64(e13, 4958538579464056709, 0, 1332869638316475786int);
    let e15 = lemma_next_bit_modulus_64(e14, 7322264669535524239, 0, 2906505356080266450int);
    let e16 = lemma_next_bit_modulus_64(e15, 17119307218389043471, 0, 15887393544202009878int);
    let e17 = lemma_next_bit_modulus_64(e16, 11987979957295600075, 0, 7790624968178618383int);
    let e18 = lemma_next_bit_modulus_64(e17, 10086265642079536874, 0, 5514943735435518406int);
    let e19 = lemma_next_bit_modulus_64(e18, 2200946584037387294, 0, 262602760529645463int);
    let e20 = lemma_next_bit_modulus_64(e19, 5417551280734290925, 0, 1591059217259106705int);
    let e21 = lemma_next_bit_modulus_64(e20, 11434180753748449240, 0, 7087456212152990480int);
    let e22 = lemma_next_bit_modulus_64(e21, 13166790927357365040, 0, 9398102150082133052int);
    let e23 = lemma_next_bit_modulus_64(e22, 2377371697688489156, 0, 306389909547367550int);
    let e24 = lemma_next_bit_modulus_64(e23, 14204183805107779986, 0, 10937368615133457578int);
    let e25 = lemma_next_bit_modulus_64(e24, 4014333077212965530, 0, 873588865290041202int);
    let e26 = lemma_next_bit_modulus_64(e25, 6517429550806297906, 0, 2302676733901677687int);
}

/// The residue of 3 raised to the leading 32 bits of 11085310590976, modulo 18446743880436023297.
proof fn lemma_power_modulus_64_without_1664071_part_1()
    ensures
        pow(3, 2706374656) % 18446743880436023297 == 2920663828393003051,
{
    lemma_pow0(3);
    lemma_small_mod(1, 18446743880436023297);
    let e0: nat = 0;
    let e1 = lemma_next_bit_modulus_64(e0, 1, 1, 0int);
    let e2 = lemma_next_bit_modulus_64(e1, 3, 0, 0int);
    let e3 = lemma_next_bit_modulus_64(e2, 9, 1, 0int);
    let e4 = lemma_next_bit_modulus_64(e3, 243, 0, 0int);
    let e5 = lemma_next_bit_modulus_64(e4, 59049, 0, 0int);
    let e6 = lemma_next_bit_modulus_64(e5, 3486784401, 0, 0int);
    let e7 = lemma_next_bit_modulus_64(e6, 12157665459056928801, 0, 8012732782131096902int);
    let e8 = lemma_next_bit_modulus_64(e7, 15782966888946771707, 1, 40511546986096412065int);
    let e9 = lemma_next_bit_modulus_64(e8, 13701473943075203242, 0, 10176884843718630243int);
    let e10 = lemma_next_bit_modulus_64(e9, 10599212200730539393, 1, 18270427562329175690int);
    let e11 = lemma_next_bit_modulus_64(e10, 14519513630528375417, 0, 11428373345102043451int);
    let e12 = lemma_next_bit_modulus_64(e11, 7549406334347645942, 1, 9268877429615162794int);
    let e13 = lemma_next_bit_modulus_64(e12, 5734863428335590274, 0, 1782897770730237676int);
    let e14 = lemma_next_bit_modulus_64(e13, 17516648166920257304, 0, 16633448428212157698int);
    let e15 = lemma_next_bit_modulus_64(e14, 8241361378599458110, 0, 3681952642314527737int);
    let e16 = lemma_next_bit_modulus_64(e15, 17230259530760083211, 0, 16093997153189255706int);
    let e17 = lemma_next_bit_modulus_64(e16, 3376455529737887839, 0, 618019744741427492int);
    let e18 = lemma_next_bit_modulus_64(e17, 11863297537395808797, 0, 7629413048339827635int);
    let e19 = lemma_next_bit_modulus_64(e18, 4599654759958174614, 0, 1146913734366100594int);
    let e20 = lemma_next_bit_modulus_64(e19, 8727520536884510578, 0, 4129163131197573955int);
    let e21 = lemma_next_bit_modulus_64(e20, 16831563424333464449, 0, 15357806729664622973int);
    let e22 = lemma_next_bit_modulus_64(e21, 17444313437797471620, 0, 16496356933694720264int);
    let e23 = lemma_next_bit_modulus_64(e22, 5447910223703433992, 0, 1608941176714102259int);
    let e24 = lemma_next_bit_modulus_64(e23, 9487452399736728141, 0, 4879546960736715415int);
    let e25 = lemma_next_bit_modulus_64(e24, 12385626467542292626, 0, 8316033658177411930int);
    let e26 = lemma_next_bit_modulus_64(e25, 4615171415568242666, 0, 1154664873819168353int);
    let e27 = lemma_next_bit_modulus_64(e26, 15530932100389667715, 0, 13076012410121496716int);
    let e28 = lemma_next_bit_modulus_64(e27, 1618954679428328573, 0, 142085468906121634int);
    let e29 = lemma_next_bit_modulus_64(e28, 14865613442108509031, 0, 11979700289793027991int);
    let e30 = lemma_next_bit_modulus_64(e29, 6560407021559452634, 0, 2333145652559971606int);
    let e31 = lemma_next_bit_modulus_64(e30, 1569387287815032974, 0, 133518222788769379int);
    let e32 = lemma_next_bit_modulus_64(e31, 14917491545503062113, 0, 12063459841612729494int);
}

/// 3 raised to 11085310590976 is not one modulo 18446743880436023297: the residue is 9842505396374291955.
proof fn lemma_power_modulus_64_without_1664071()
    ensures
        pow(3, 11085310590976) % 18446743880436023297 == 9842505396374291955,
{
    lemma_power_modulus_64_without_1664071_part_1();
    let e0: nat = 2706374656;
    let e1 = lemma_next_bit_modulus_64(e0, 2920663828393003051, 0, 462427258369981993int);
    let e2 = lemma_next_bit_modulus_64(e1, 11953026619676817680, 0, 7745260968372348672int);
    let e3 = lemma_next_bit_modulus_64(e2, 1960478460361570816, 0, 208355242445683452int);
    let e4 = lemma_next_bit_modulus_64(e3, 2839305172823524612, 0, 437023136260504783int);
    let e5 = lemma_next_bit_modulus_64(e4, 4666415728201820993, 0, 1180448749630204555int);
    let e6 = lemma_next_bit_modulus_64(e5, 2144624800359988214, 0, 249334818335993696int);
    let e7 = lemma_next_bit_modulus_64(e6, 18079469409117774084, 0, 17719507368554589437int);
    let e8 = lemma_next_bit_modulus_64(e7, 11770501676059925267, 0, 7510523841178562865int);
    let e9 = lemma_next_bit_modulus_64(e8, 2758288475505955384, 0, 412438930329482866int);
    let e10 = lemma_next_bit_modulus_64(e9, 10195015155060258254, 0, 5634508436046631157int);
    let e11 = lemma_next_bit_modulus_64(e10, 15224874874357063887, 0, 12565730648305074780int);
    let e12 = lemma_next_bit_modulus_64(e11, 1930372527992399109, 0, 202005195116293158int);
}

/// 18446743880436023297 is prime: 3 has full order modulo it.
pub proof fn lemma_prime_modulus_64()
    ensures
        is_prime(18446743880436023297),
        is_order_certificate(18446743880436023297, 3, seq![(2int, 32nat), (29int, 1nat), (89int, 1nat), (1664071int, 1nat)]),
{
    lemma_prime_2();
    lemma_prime_29();
    lemma_prime_89();
    lemma_prime_1664071();
    lemma2_to64();
    lemma2_to64_rest();
    let f0 = Seq::<(int, nat)>::empty();
    assert(factored(f0) == 1);
    let f1 = f0.push((2int, 32nat));
    assert(f1.drop_last() =~= f0);
    lemma_pow2(32);
    assert(pow(2, 32) == 4294967296);
    assert(factored(f1) == 4294967296) by {
        assert(factored(f1) == pow(2, 32) * factored(f0));
    }
    let f2 = f1.push((29int, 1nat));
    assert(f2.drop_last() =~= f1);
    lemma_pow1(29);
    assert(factored(f2) == 124554051584) by {
        assert(factored(f2) == pow(29, 1) * factored(f1));
    }
    let f3 = f2.push((89int, 1nat));
    assert(f3.drop_last() =~= f2);
    lemma_pow1(89);
    assert(factored(f3) == 11085310590976) by {
        assert(factored(f3) == pow(89, 1) * factored(f2));
    }
    let f4 = f3.push((1664071int, 1nat));
    assert(f4.drop_last() =~= f3);
    lemma_pow1(1664071);
    assert(factored(f4) == 18446743880436023296) by {
        assert(factored(f4) == pow(1664071, 1) * factored(f3));
    }
    let factors = seq![(2int, 32nat), (29int, 1nat), (89int, 1nat), (1664071int, 1nat)];
    assert(factors =~= f4);
    lemma_power_modulus_64_full();
    lemma_power_modulus_64_without_2();
    lemma_power_modulus_64_without_29();
    lemma_power_modulus_64_without_89();
    lemma_power_modulus_64_without_1664071();
    assert forall|i: int| 0 <= i < factors.len() implies is_prime((#[trigger] factors[i]).0) by {
        if i == 0 {
            assert(factors[0].0 == 2);
        } else if i == 1 {
            assert(factors[1].0 == 29);
        } else if i == 2 {
            assert(factors[2].0 == 89);
        } else if i == 3 {
            assert(factors[3].0 == 1664071);
        }
    }
    assert forall|i: int| 0 <= i < factors.len() implies pow(
        3,
        ((18446743880436023297 - 1) / (#[trigger] factors[i]).0) as nat,
    ) % 18446743880436023297 != 1 by {
        if i == 0 {
            assert(factors[0].0 == 2);
            assert((18446743880436023297 - 1) / 2 == 9223371940218011648);
        } else if i == 1 {
            assert(factors[1].0 == 29);
            assert((18446743880436023297 - 1) / 29 == 636094616566759424);
        } else if i == 2 {
            assert(factors[2].0 == 89);
            assert((18446743880436023297 - 1) / 89 == 207266785173438464);
        } else if i == 3 {
            assert(factors[3].0 == 1664071);
            assert((18446743880436023297 - 1) / 1664071 == 11085310590976);
        }
    }
    lemma_order_certificate_proves_prime(18446743880436023297, 3, factors);
}

/// One more bit of an exponent of 3, modulo 340282366920938463463374557953744961537.
proof fn lemma_next_bit_modulus_128(e: nat, r: int, bit: int, q: int) -> (next: nat)
    requires
        bit == 0 || bit == 1,
        pow(3, e) % 340282366920938463463374557953744961537 == r,
        0 <= (r * r) * (if bit == 1 {
            3int
        } else {
            1int
        }) - q * 340282366920938463463374557953744961537 < 340282366920938463463374557953744961537,
    ensures
        next == 2 * e + bit,
        pow(3, next) % 340282366920938463463374557953744961537 == (r * r) * (if bit == 1 {
            3int
        } else {
            1int
        }) - q * 340282366920938463463374557953744961537,
{
    let gb = if bit == 1 {
        3int
    } else {
        1int
    };
    lemma_next_bit(3, 340282366920938463463374557953744961537, e, r, bit, q, (r * r) * gb - q * 340282366920938463463374557953744961537)
}

/// The residue of 3 raised to the leading 32 bits of 340282366920938463463374557953744961536, modulo 340282366920938463463374557953744961537.
proof fn lemma_power_modulus_128_full_part_1()
    ensures
        pow(3, 4294967295) % 340282366920938463463374557953744961537 == 134911274361503060666225645296798979702,
{
    lemma_pow0(3);
    lemma_small_mod(1, 340282366920938463463374557953744961537);
    let e0: nat = 0;
    let e1 = lemma_next_bit_modulus_128(e0, 1, 1, 0int);
    let e2 = lemma_next_bit_modulus_128(e1, 3, 1, 0int);
    let e3 = lemma_next_bit_modulus_128(e2, 27, 1, 0int);
    let e4 = lemma_next_bit_modulus_128(e3, 2187, 1, 0int);
    let e5 = lemma_next_bit_modulus_128(e4, 14348907, 1, 0int);
    let e6 = lemma_next_bit_modulus_128(e5, 617673396283947, 1, 0int);
    let e7 = lemma_next_bit_modulus_128(e6, 1144561273430837494885949696427, 1, 11549412805236468158373int);
    let e8 = lemma_next_bit_modulus_128(e7, 101746047265036357851885767098260199686, 1, 91267657161303332412296670159778162634int);
    let e9 = lemma_next_bit_modulus_128(e8, 9556357655433913278312995180922887330, 1, 805131095668456959703131041758397295int);
    let e10 = lemma_next_bit_modulus_128(e9, 4769142964746552397436895505083744285, 1, 200522214747695701136089220750862375int);
    let e11 = lemma_next_bit_modulus_128(e10, 301282185802942600523912259761855013300, 1, 800255590410495528928148070677300711274int);
    let e12 = lemma_next_bit_modulus_128(e11, 19140326469519622999872040025658401862, 1, 3229836156437504610173995967753158203int);
    let e13 = lemma_next_bit_modulus_128(e12, 77358006718802743553121604705144163121, 1, 52758489289250061171063890807953108578int);
    let e14 = lemma_next_bit_modulus_128(e13, 278735882768411155931413514422174617537, 1, 684963723325136697231193510190688127908int);
    let e15 = lemma_next_bit_modulus_128(e14, 85453020678113223202690342358687564511, 1, 64377876606612273184935387174508002007int);
    let e16 = lemma_next_bit_modulus_128(e15, 131453114116737142730149996433426202604, 1, 152343373246278890492583764017946738523int);
    let e17 = lemma_next_bit_modulus_128(e16, 317546082952938598472300793837737952597, 1, 888986835061448687565310940690876400172int);
    let e18 = lemma_next_bit_modulus_128(e17, 185889225586824355851263897375096948863, 1, 304642328386922602226249849037071329148int);
    let e19 = lemma_next_bit_modulus_128(e18, 329574308839884176686419063611383997831, 1, 957609640753357524711000984393901370214int);
    let e20 = lemma_next_bit_modulus_128(e19, 81992720972764295329647739325610654765, 1, 59269656138952083523389850285011295368int);
    let e21 = lemma_next_bit_modulus_128(e20, 251168265779117878540415135112345355059, 1, 556174846542785537496361968040147409940int);
    let e22 = lemma_next_bit_modulus_128(e21, 13316425697722173334032854962859202663, 1, 1563353355339941934485982480151207793int);
    let e23 = lemma_next_bit_modulus_128(e22, 212768765575059671917481427005439216866, 1, 399114547256451588405172279882991480826int);
    let e24 = lemma_next_bit_modulus_128(e23, 225257940523745278585589109454093596306, 1, 447344423645569720487258483766851449225int);
    let e25 = lemma_next_bit_modulus_128(e24, 271865390426982563985328100659157078083, 1, 651612875337629538073040843678309700469int);
    let e26 = lemma_next_bit_modulus_128(e25, 319327880087086110683272452774081003814, 1, 898991292939410438470347712820354984474int);
    let e27 = lemma_next_bit_modulus_128(e26, 265343387737088719035978489228285463250, 1, 620723730584783383458908645634743725695int);
    let e28 = lemma_next_bit_modulus_128(e27, 248465141624207088387373964971448094285, 1, 544267931021070264446730379902862614958int);
    let e29 = lemma_next_bit_modulus_128(e28, 55004849004556373801448004561798113229, 1, 26673730772981854383761582730134151906int);
    let e30 = lemma_next_bit_modulus_128(e29, 14436486314709212596133776554829179801, 1, 1837404673659235431835922852411306807int);
    let e31 = lemma_next_bit_modulus_128(e30, 267534104179710593371977094605037916444, 1, 631015625760031781225318076903107682722int);
    let e32 = lemma_next_bit_modulus_128(e31, 32654151031753684987694333227087351694, 1, 9400665593574444060710017726571348438int);
}

/// The residue of 3 raised to the leading 64 bits of 340282366920938463463374557953744961536, modulo 340282366920938463463374557953744961537.
proof fn lemma_power_modulus_128_full_part_2()
    ensures
        pow(3, 18446744073709551615) % 340282366920938463463374557953744961537 == 72418498305896388284944466657679608889,
{
    lemma_power_modulus_128_full_part_1();
    let e0: nat = 4294967295;
    let e1 = lemma_next_bit_modulus_128(e0, 134911274361503060666225645296798979702, 1, 160464253095491161953929921888719443327int);
    let e2 = lemma_next_bit_modulus_128(e1, 294233376426661240424678787350957712813, 1, 763248010058198378674284454323284891411int);
    let e3 = lemma_next_bit_modulus_128(e2, 305635476362390108905523485519136460200, 1, 823548794989152059521490079365883253344int);
    let e4 = lemma_next_bit_modulus_128(e3, 90570229179571119978605508352845490272, 1, 72319055094141165013259965242991107891int);
    let e5 = lemma_next_bit_modulus_128(e4, 164478407342250947747688730529327713485, 1, 238506156460310958849315265177984706918int);
    let e6 = lemma_next_bit_modulus_128(e5, 300015248634063586117564005092624722709, 1, 793539349929393837015317926607529597408int);
    let e7 = lemma_next_bit_modulus_128(e6, 290775673247035292399702010275365999947, 1, 745414694131751877321827577491919205136int);
    let e8 = lemma_next_bit_modulus_128(e7, 237254791616375165071568617687679154395, 1, 496262882978077191975011837784344054022int);
    let e9 = lemma_next_bit_modulus_128(e8, 62739823136579540608367100279703296261, 1, 34703109445490384256268698697824304608int);
    let e10 = lemma_next_bit_modulus_128(e9, 25112444665807208915738377865477877867, 1, 5559808015909486684159727905424914739int);
    let e11 = lemma_next_bit_modulus_128(e10, 38511152728977227869915881108246015224, 1, 13075395865509515056350299736196246712int);
    let e12 = lemma_next_bit_modulus_128(e11, 207262027034296962371216348603116594184, 1, 378722661174621869734556039431724998656int);
    let e13 = lemma_next_bit_modulus_128(e12, 224951141693181252712789159595131183296, 1, 446126697133467949904645094295072380531int);
    let e14 = lemma_next_bit_modulus_128(e13, 95889178776143691350408912721825634701, 1, 81062689403176386239437327080750682591int);
    let e15 = lemma_next_bit_modulus_128(e14, 256131101764815769612987158664695575836, 1, 578370914880529583162910191684364040656int);
    let e16 = lemma_next_bit_modulus_128(e15, 130952606265105964066241544092257048416, 1, 151185486713228858714648241601409742291int);
    let e17 = lemma_next_bit_modulus_128(e16, 318429632426979074088146737989627065901, 1, 893940803266539352089046078795006393915int);
    let e18 = lemma_next_bit_modulus_128(e17, 166637060371636961533213786335844978048, 1, 244807659067613732801879233446250889400int);
    let e19 = lemma_next_bit_modulus_128(e18, 154662113470628499646771940529764663112, 1, 210886942743870541354416769424675533251int);
    let e20 = lemma_next_bit_modulus_128(e19, 85319483772594654393999640332601006845, 1, 64176828001023180584827325509198094844int);
    let e21 = lemma_next_bit_modulus_128(e20, 140047802440707746136304048218752546847, 1, 172915691864472953714199048664373520385int);
    let e22 = lemma_next_bit_modulus_128(e21, 41788089802576283797691325353678492482, 1, 15395253640226713246991645210994803070int);
    let e23 = lemma_next_bit_modulus_128(e22, 310202956675148708496061339516352042382, 1, 848347287583914684979558018354064648567int);
    let e24 = lemma_next_bit_modulus_128(e23, 127606092224989725804673890043335534293, 1, 143557083961825132393993006345085682631int);
    let e25 = lemma_next_bit_modulus_128(e24, 190394989102978248671203420506853065700, 1, 319589747216719209685282732429094662705int);
    let e26 = lemma_next_bit_modulus_128(e25, 309296908841216010097306282153336092415, 1, 843398780997884803595786757659741820254int);
    let e27 = lemma_next_bit_modulus_128(e26, 253655395128654490392897921802664026277, 1, 567244139566211204208421318639660966041int);
    let e28 = lemma_next_bit_modulus_128(e27, 194660083159369597229949883119831277170, 1, 334068570626964152172215420264540413421int);
    let e29 = lemma_next_bit_modulus_128(e28, 251419818403439172135915164386366038623, 1, 557289456324121410016611062235696142506int);
    let e30 = lemma_next_bit_modulus_128(e29, 307468063536888423289071930884342416665, 1, 833454383345306732805533078651589455837int);
    let e31 = lemma_next_bit_modulus_128(e30, 89478851650870938796489848503084025206, 1, 70586656886210023160305809723521205462int);
    let e32 = lemma_next_bit_modulus_128(e31, 235122125292245085633658338854665712214, 1, 487381238430023317004783076637417575027int);
}

/// The residue of 3 raised to the leading 96 bits of 340282366920938463463374557953744961536, modulo 340282366920938463463374557953744961537.
proof fn lemma_power_modulus_128_full_part_3()
    ensures
        pow(3, 79228162514264337593543938816) % 340282366920938463463374557953744961537 == 309289104524954779508682525960258742689,
{
    lemma_power_modulus_128_full_part_2();
    let e0: nat = 18446744073709551615;
    let e1 = lemma_next_bit_modulus_128(e0, 72418498305896388284944466657679608889, 1, 46236062223873176193296796181880121486int);
    let e2 = lemma_next_bit_modulus_128(e1, 146194671365230923023136864154066158981, 1, 188427764820564445513626978193580000134int);
    let e3 = lemma_next_bit_modulus_128(e2, 335493529154910078530111927342016029125, 1, 992316255966632395446429254277335487209int);
    let e4 = lemma_next_bit_modulus_128(e3, 105964272138626079397667393305684316642, 1, 98992143537760487402302669316226939335int);
    let e5 = lemma_next_bit_modulus_128(e4, 79141787542073845333838217636747110597, 1, 55219633553418928084934441613745082972int);
    let e6 = lemma_next_bit_modulus_128(e5, 164851306310388440819742081231435441263, 1, 239588845917681093369556747494874446420int);
    let e7 = lemma_next_bit_modulus_128(e6, 159857734152138202470834290311501757967, 1, 225293735313000061405721614457795177450int);
    let e8 = lemma_next_bit_modulus_128(e7, 218903353238392341556221952720004178617, 1, 422461015179307076862024790852476154401int);
    let e9 = lemma_next_bit_modulus_128(e8, 155149982121173139082139304431101823730, 1, 212219491447758247214126895148015529055int);
    let e10 = lemma_next_bit_modulus_128(e9, 320789344055721217461094474556292381165, 1, 907238927989552125218890604641585389424int);
    let e11 = lemma_next_bit_modulus_128(e10, 78178911680936715564717211782893686987, 1, 53884151743623181977707400201921408504int);
    let e12 = lemma_next_bit_modulus_128(e11, 141951577526939054222542399151854703859, 1, 177648791014801400488579457052903026419int);
    let e13 = lemma_next_bit_modulus_128(e12, 331639530034253259925298009133718629640, 1, 969648638069697632512114145240017498384int);
    let e14 = lemma_next_bit_modulus_128(e13, 253942217194737329815999780943419932592, 1, 568527692962374731805621778200829602924int);
    let e15 = lemma_next_bit_modulus_128(e14, 63939289860734424330306825440108781204, 1, 36042709102627818038577170058890285980int);
    let e16 = lemma_next_bit_modulus_128(e15, 220788931536662844156286991713000717588, 1, 429770305733420146937080990486948567716int);
    let e17 = lemma_next_bit_modulus_128(e16, 31692128597401566911229662215137673740, 1, 8854919731420576918251013829968505032int);
    let e18 = lemma_next_bit_modulus_128(e17, 235322083272133194521673553109825808616, 1, 488210570914504794901111549096232183575int);
    let e19 = lemma_next_bit_modulus_128(e18, 151817223412151041484768292114881351593, 0, 67733363715346690678064259480714416604int);
    let e20 = lemma_next_bit_modulus_128(e19, 2816014053687730537599970571109477301, 1, 69911954789087734739061157380128702int);
    let e21 = lemma_next_bit_modulus_128(e20, 301136160361614754728554442487202998829, 0, 266493347562747883855123470670604677404int);
    let e22 = lemma_next_bit_modulus_128(e21, 258057750284025093216043228760302361293, 0, 195701596542393635118117649253338015352int);
    let e23 = lemma_next_bit_modulus_128(e22, 125113519873290405625706910958349115825, 1, 138003561542651057942166815241304706170int);
    let e24 = lemma_next_bit_modulus_128(e23, 255115544884160683561328857874059708585, 1, 573793539440119187395644780581464017417int);
    let e25 = lemma_next_bit_modulus_128(e24, 23953097886125630542083529559205016746, 0, 1686102349451512992577904068123346632int);
    let e26 = lemma_next_bit_modulus_128(e25, 35350638386970032172984936585581935132, 0, 3672443111507650331396789844224809073int);
    let e27 = lemma_next_bit_modulus_128(e26, 299954005975610588960127445028302232223, 0, 264405136578002319102967849755652032417int);
    let e28 = lemma_next_bit_modulus_128(e27, 268766450299833026803380043897077376800, 0, 212280775699305808600045106713987297451int);
    let e29 = lemma_next_bit_modulus_128(e28, 89174229732314908188995092058605097813, 0, 23368954789829769977892643732864370097int);
    let e30 = lemma_next_bit_modulus_128(e29, 143218246544836534011030291670299423880, 0, 60277781446557399292419920951944013930int);
    let e31 = lemma_next_bit_modulus_128(e30, 57965223245286836778812812814672043990, 0, 9874055879764699872224948784433098001int);
    let e32 = lemma_next_bit_modulus_128(e31, 113786451272006480597838504530998532563, 0, 38048861039234826539439163523037690440int);
}

/// 3 raised to 340282366920938463463374557953744961536 is one modulo 340282366920938463463374557953744961537: the residue is 1.
proof fn lemma_power_modulus_128_full()
    ensures
        pow(3, 340282366920938463463374557953744961536) % 340282366920938463463374557953744961537 == 1,
{
    lemma_power_modulus_128_full_part_3();
    let e0: nat = 79228162514264337593543938816;
    let e1 = lemma_next_bit_modulus_128(e0, 309289104524954779508682525960258742689, 0, 281118739837830276365487367343197029868int);
    let e2 = lemma_next_bit_modulus_128(e1, 288816269265998269031362754590810763605, 0, 245134175324783434557935413263580479084int);
    let e3 = lemma_next_bit_modulus_128(e2, 202477457160817175448865276649579603917, 0, 120479709334559393790030249372571046249int);
    let e4 = lemma_next_bit_modulus_128(e3, 291002859220333128737256428414248618176, 0, 248859983080123203925089655286347129210int);
    let e5 = lemma_next_bit_modulus_128(e4, 262210191456112222089946877103618371206, 0, 202050388697999861801841254803363789527int);
    let e6 = lemma_next_bit_modulus_128(e5, 169373083560288093220735695737231471437, 0, 84304225617972013112818052472229640660int);
    let e7 = lemma_next_bit_modulus_128(e6, 317147576029044052645335895261115550549, 0, 295585651090959213709839342331360541757int);
    let e8 = lemma_next_bit_modulus_128(e7, 171943168142144822891930992597926800892, 0, 86882118924566315143841291568497437410int);
    let e9 = lemma_next_bit_modulus_128(e8, 21541544435346836569580739457897096494, 0, 1363685520524892001180828348423097803int);
    let e10 = lemma_next_bit_modulus_128(e9, 129999756949660917902024189910922888825, 0, 49664450614619886838548446602897371936int);
    let e11 = lemma_next_bit_modulus_128(e10, 282895836292207208096400573424606654993, 0, 235187191495178360676096503325109477072int);
    let e12 = lemma_next_bit_modulus_128(e11, 296306845119133820321445521995708450385, 0, 258014387459733909161988607545862459320int);
    let e13 = lemma_next_bit_modulus_128(e12, 273165856257350751056968870452379473385, 0, 219287251643423532238130131203928242161int);
    let e14 = lemma_next_bit_modulus_128(e13, 283839073377153370490835339938956596768, 0, 236758137968164296433986570517974105205int);
    let e15 = lemma_next_bit_modulus_128(e14, 105008128617997753376638997239831545739, 0, 32404579689596183582375582324811201237int);
    let e16 = lemma_next_bit_modulus_128(e15, 212059004665593815414574723988717234852, 0, 132152076719892117759204761834908305615int);
    let e17 = lemma_next_bit_modulus_128(e16, 58939217512625066836357447684907331649, 0, 10208672851413551887724167944818352728int);
    let e18 = lemma_next_bit_modulus_128(e17, 183662900539509792375083495535218036265, 0, 99129617969370732324867680395014240042int);
    let e19 = lemma_next_bit_modulus_128(e18, 115107371550849943973561963938279885671, 0, 38937389278310353533809834152902788445int);
    let e20 = lemma_next_bit_modulus_128(e19, 143637997944725862918595393408258080276, 0, 60631629667612782957382272877735943725int);
    let e21 = lemma_next_bit_modulus_128(e20, 196934114662940666259486270002338730851, 0, 113973127285455706540697980882291376886int);
    let e22 = lemma_next_bit_modulus_128(e21, 154861683792053392940461127428578350419, 0, 70477178479488966767247227098402156735int);
    let e23 = lemma_next_bit_modulus_128(e22, 246301224039257635126066389490736973866, 0, 178276334187282128774823373070263626402int);
    let e24 = lemma_next_bit_modulus_128(e23, 112446981247494782863319391933539286082, 0, 37158327379955711344589089668493281057int);
    let e25 = lemma_next_bit_modulus_128(e24, 136257249355923752058795611038843206115, 0, 54560681971381829186595716979024151607int);
    let e26 = lemma_next_bit_modulus_128(e25, 317382179358537364646726782080101653266, 0, 296023119522319603170446313356706080260int);
    let e27 = lemma_next_bit_modulus_128(e26, 192007975586228866417180181358753507136, 0, 108342559805009201810260387437193174047int);
    let e28 = lemma_next_bit_modulus_128(e27, 177163815491556666773578150685041292257, 0, 92238154458408431751016968037385413980int);
    let e29 = lemma_next_bit_modulus_128(e28, 207780475876815746145724302740566066789, 0, 126873239263751810723865741054991764016int);
    let e30 = lemma_next_bit_modulus_128(e29, 215461094455166043855249150037908117929, 0, 136426355687728189081710563348995007059int);
    let e31 = lemma_next_bit_modulus_128(e30, 227605400907528469561203326827972759358, 0, 152238915554249110003773541846779319044int);
    let e32 = lemma_next_bit_modulus_128(e31, 340282366920938463463374557953744961536, 0, 340282366920938463463374557953744961535int);
}

/// The residue of 3 raised to the leading 32 bits of 170141183460469231731687278976872480768, modulo 340282366920938463463374557953744961537.
proof fn lemma_power_modulus_128_without_2_part_1()
    ensures
        pow(3, 4294967295) % 340282366920938463463374557953744961537 == 134911274361503060666225645296798979702,
{
    lemma_pow0(3);
    lemma_small_mod(1, 340282366920938463463374557953744961537);
    let e0: nat = 0;
    let e1 = lemma_next_bit_modulus_128(e0, 1, 1, 0int);
    let e2 = lemma_next_bit_modulus_128(e1, 3, 1, 0int);
    let e3 = lemma_next_bit_modulus_128(e2, 27, 1, 0int);
    let e4 = lemma_next_bit_modulus_128(e3, 2187, 1, 0int);
    let e5 = lemma_next_bit_modulus_128(e4, 14348907, 1, 0int);
    let e6 = lemma_next_bit_modulus_128(e5, 617673396283947, 1, 0int);
    let e7 = lemma_next_bit_modulus_128(e6, 1144561273430837494885949696427, 1, 11549412805236468158373int);
    let e8 = lemma_next_bit_modulus_128(e7, 101746047265036357851885767098260199686, 1, 91267657161303332412296670159778162634int);
    let e9 = lemma_next_bit_modulus_128(e8, 9556357655433913278312995180922887330, 1, 805131095668456959703131041758397295int);
    let e10 = lemma_next_bit_modulus_128(e9, 4769142964746552397436895505083744285, 1, 200522214747695701136089220750862375int);
    let e11 = lemma_next_bit_modulus_128(e10, 301282185802942600523912259761855013300, 1, 800255590410495528928148070677300711274int);
    let e12 = lemma_next_bit_modulus_128(e11, 19140326469519622999872040025658401862, 1, 3229836156437504610173995967753158203int);
    let e13 = lemma_next_bit_modulus_128(e12, 77358006718802743553121604705144163121, 1, 52758489289250061171063890807953108578int);
    let e14 = lemma_next_bit_modulus_128(e13, 278735882768411155931413514422174617537, 1, 684963723325136697231193510190688127908int);
    let e15 = lemma_next_bit_modulus_128(e14, 85453020678113223202690342358687564511, 1, 64377876606612273184935387174508002007int);
    let e16 = lemma_next_bit_modulus_128(e15, 131453114116737142730149996433426202604, 1, 152343373246278890492583764017946738523int);
    let e17 = lemma_next_bit_modulus_128(e16, 317546082952938598472300793837737952597, 1, 888986835061448687565310940690876400172int);
    let e18 = lemma_next_bit_modulus_128(e17, 185889225586824355851263897375096948863, 1, 304642328386922602226249849037071329148int);
    let e19 = lemma_next_bit_modulus_128(e18, 329574308839884176686419063611383997831, 1, 957609640753357524711000984393901370214int);
    let e20 = lemma_next_bit_modulus_128(e19, 81992720972764295329647739325610654765, 1, 59269656138952083523389850285011295368int);
    let e21 = lemma_next_bit_modulus_128(e20, 251168265779117878540415135112345355059, 1, 556174846542785537496361968040147409940int);
    let e22 = lemma_next_bit_modulus_128(e21, 13316425697722173334032854962859202663, 1, 1563353355339941934485982480151207793int);
    let e23 = lemma_next_bit_modulus_128(e22, 212768765575059671917481427005439216866, 1, 399114547256451588405172279882991480826int);
    let e24 = lemma_next_bit_modulus_128(e23, 225257940523745278585589109454093596306, 1, 447344423645569720487258483766851449225int);
    let e25 = lemma_next_bit_modulus_128(e24, 271865390426982563985328100659157078083, 1, 651612875337629538073040843678309700469int);
    let e26 = lemma_next_bit_modulus_128(e25, 319327880087086110683272452774081003814, 1, 898991292939410438470347712820354984474int);
    let e27 = lemma_next_bit_modulus_128(e26, 265343387737088719035978489228285463250, 1, 620723730584783383458908645634743725695int);
    let e28 = lemma_next_bit_modulus_128(e27, 248465141624207088387373964971448094285, 1, 544267931021070264446730379902862614958int);
    let e29 = lemma_next_bit_modulus_128(e28, 55004849004556373801448004561798113229, 1, 26673730772981854383761582730134151906int);
    let e30 = lemma_next_bit_modulus_128(e29, 14436486314709212596133776554829179801, 1, 1837404673659235431835922852411306807int);
    let e31 = lemma_next_bit_modulus_128(e30, 267534104179710593371977094605037916444, 1, 631015625760031781225318076903107682722int);
    let e32 = lemma_next_bit_modulus_128(e31, 32654151031753684987694333227087351694, 1, 9400665593574444060710017726571348438int);
}

/// The residue of 3 raised to the leading 64 bits of 170141183460469231731687278976872480768, modulo 340282366920938463463374557953744961537.
proof fn lemma_power_modulus_128_without_2_part_2()
    ensures
        pow(3, 18446744073709551615) % 340282366920938463463374557953744961537 == 72418498305896388284944466657679608889,
{
    lemma_power_modulus_128_without_2_part_1();
    let e0: nat = 4294967295;
    let e1 = lemma_next_bit_modulus_128(e0, 134911274361503060666225645296798979702, 1, 160464253095491161953929921888719443327int);
    let e2 = lemma_next_bit_modulus_128(e1, 294233376426661240424678787350957712813, 1, 763248010058198378674284454323284891411int);
    let e3 = lemma_next_bit_modulus_128(e2, 305635476362390108905523485519136460200, 1, 823548794989152059521490079365883253344int);
    let e4 = lemma_next_bit_modulus_128(e3, 90570229179571119978605508352845490272, 1, 72319055094141165013259965242991107891int);
    let e5 = lemma_next_bit_modulus_128(e4, 164478407342250947747688730529327713485, 1, 238506156460310958849315265177984706918int);
    let e6 = lemma_next_bit_modulus_128(e5, 300015248634063586117564005092624722709, 1, 793539349929393837015317926607529597408int);
    let e7 = lemma_next_bit_modulus_128(e6, 290775673247035292399702010275365999947, 1, 745414694131751877321827577491919205136int);
    let e8 = lemma_next_bit_modulus_128(e7, 237254791616375165071568617687679154395, 1, 496262882978077191975011837784344054022int);
    let e9 = lemma_next_bit_modulus_128(e8, 62739823136579540608367100279703296261, 1, 34703109445490384256268698697824304608int);
    let e10 = lemma_next_bit_modulus_128(e9, 25112444665807208915738377865477877867, 1, 5559808015909486684159727905424914739int);
    let e11 = lemma_next_bit_modulus_128(e10, 38511152728977227869915881108246015224, 1, 13075395865509515056350299736196246712int);
    let e12 = lemma_next_bit_modulus_128(e11, 207262027034296962371216348603116594184, 1, 378722661174621869734556039431724998656int);
    let e13 = lemma_next_bit_modulus_128(e12, 224951141693181252712789159595131183296, 1, 446126697133467949904645094295072380531int);
    let e14 = lemma_next_bit_modulus_128(e13, 95889178776143691350408912721825634701, 1, 81062689403176386239437327080750682591int);
    let e15 = lemma_next_bit_modulus_128(e14, 256131101764815769612987158664695575836, 1, 578370914880529583162910191684364040656int);
    let e16 = lemma_next_bit_modulus_128(e15, 130952606265105964066241544092257048416, 1, 151185486713228858714648241601409742291int);
    let e17 = lemma_next_bit_modulus_128(e16, 318429632426979074088146737989627065901, 1, 893940803266539352089046078795006393915int);
    let e18 = lemma_next_bit_modulus_128(e17, 166637060371636961533213786335844978048, 1, 244807659067613732801879233446250889400int);
    let e19 = lemma_next_bit_modulus_128(e18, 154662113470628499646771940529764663112, 1, 210886942743870541354416769424675533251int);
    let e20 = lemma_next_bit_modulus_128(e19, 85319483772594654393999640332601006845, 1, 64176828001023180584827325509198094844int);
    let e21 = lemma_next_bit_modulus_128(e20, 140047802440707746136304048218752546847, 1, 172915691864472953714199048664373520385int);
    let e22 = lemma_next_bit_modulus_128(e21, 41788089802576283797691325353678492482, 1, 15395253640226713246991645210994803070int);
    let e23 = lemma_next_bit_modulus_128(e22, 310202956675148708496061339516352042382, 1, 848347287583914684979558018354064648567int);
    let e24 = lemma_next_bit_modulus_128(e23, 127606092224989725804673890043335534293, 1, 143557083961825132393993006345085682631int);
    let e25 = lemma_next_bit_modulus_128(e24, 190394989102978248671203420506853065700, 1, 319589747216719209685282732429094662705int);
    let e26 = lemma_next_bit_modulus_128(e25, 309296908841216010097306282153336092415, 1, 843398780997884803595786757659741820254int);
    let e27 = lemma_next_bit_modulus_128(e26, 253655395128654490392897921802664026277, 1, 567244139566211204208421318639660966041int);
    let e28 = lemma_next_bit_modulus_128(e27, 194660083159369597229949883119831277170, 1, 334068570626964152172215420264540413421int);
    let e29 = lemma_next_bit_modulus_128(e28, 251419818403439172135915164386366038623, 1, 557289456324121410016611062235696142506int);
    let e30 = lemma_next_bit_modulus_128(e29, 307468063536888423289071930884342416665, 1, 833454383345306732805533078651589455837int);
    let e31 = lemma_next_bit_modulus_128(e30, 89478851650870938796489848503084025206, 1, 70586656886210023160305809723521205462int);
    let e32 = lemma_next_bit_modulus_128(e31, 235122125292245085633658338854665712214, 1, 487381238430023317004783076637417575027int);
}

/// The residue of 3 raised to the leading 96 bits of 170141183460469231731687278976872480768, modulo 340282366920938463463374557953744961537.
proof fn lemma_power_modulus_128_without_2_part_3()
    ensures
        pow(3, 79228162514264337593543938816) % 340282366920938463463374557953744961537 == 309289104524954779508682525960258742689,
{
    lemma_power_modulus_128_without_2_part_2();
    let e0: nat = 18446744073709551615;
    let e1 = lemma_next_bit_modulus_128(e0, 72418498305896388284944466657679608889, 1, 46236062223873176193296796181880121486int);
    let e2 = lemma_next_bit_modulus_128(e1, 146194671365230923023136864154066158981, 1, 188427764820564445513626978193580000134int);
    let e3 = lemma_next_bit_modulus_128(e2, 335493529154910078530111927342016029125, 1, 992316255966632395446429254277335487209int);
    let e4 = lemma_next_bit_modulus_128(e3, 105964272138626079397667393305684316642, 1, 98992143537760487402302669316226939335int);
    let e5 = lemma_next_bit_modulus_128(e4, 79141787542073845333838217636747110597, 1, 55219633553418928084934441613745082972int);
    let e6 = lemma_next_bit_modulus_128(e5, 164851306310388440819742081231435441263, 1, 239588845917681093369556747494874446420int);
    let e7 = lemma_next_bit_modulus_128(e6, 159857734152138202470834290311501757967, 1, 225293735313000061405721614457795177450int);
    let e8 = lemma_next_bit_modulus_128(e7, 218903353238392341556221952720004178617, 1, 422461015179307076862024790852476154401int);
    let e9 = lemma_next_bit_modulus_128(e8, 155149982121173139082139304431101823730, 1, 212219491447758247214126895148015529055int);
    let e10 = lemma_next_bit_modulus_128(e9, 320789344055721217461094474556292381165, 1, 907238927989552125218890604641585389424int);
    let e11 = lemma_next_bit_modulus_128(e10, 78178911680936715564717211782893686987, 1, 53884151743623181977707400201921408504int);
    let e12 = lemma_next_bit_modulus_128(e11, 141951577526939054222542399151854703859, 1, 177648791014801400488579457052903026419int);
    let e13 = lemma_next_bit_modulus_128(e12, 331639530034253259925298009133718629640, 1, 969648638069697632512114145240017498384int);
    let e14 = lemma_next_bit_modulus_128(e13, 253942217194737329815999780943419932592, 1, 568527692962374731805621778200829602924int);
    let e15 = lemma_next_bit_modulus_128(e14, 63939289860734424330306825440108781204, 1, 36042709102627818038577170058890285980int);
    let e16 = lemma_next_bit_modulus_128(e15, 220788931536662844156286991713000717588, 1, 429770305733420146937080990486948567716int);
    let e17 = lemma_next_bit_modulus_128(e16, 31692128597401566911229662215137673740, 1, 8854919731420576918251013829968505032int);
    let e18 = lemma_next_bit_modulus_128(e17, 235322083272133194521673553109825808616, 1, 488210570914504794901111549096232183575int);
    let e19 = lemma_next_bit_modulus_128(e18, 151817223412151041484768292114881351593, 0, 67733363715346690678064259480714416604int);
    let e20 = lemma_next_bit_modulus_128(e19, 2816014053687730537599970571109477301, 1, 69911954789087734739061157380128702int);
    let e21 = lemma_next_bit_modulus_128(e20, 301136160361614754728554442487202998829, 0, 266493347562747883855123470670604677404int);
    let e22 = lemma_next_bit_modulus_128(e21, 258057750284025093216043228760302361293, 0, 195701596542393635118117649253338015352int);
    let e23 = lemma_next_bit_modulus_128(e22, 125113519873290405625706910958349115825, 1, 138003561542651057942166815241304706170int);
    let e24 = lemma_next_bit_modulus_128(e23, 255115544884160683561328857874059708585, 1, 573793539440119187395644780581464017417int);
    let e25 = lemma_next_bit_modulus_128(e24, 23953097886125630542083529559205016746, 0, 1686102349451512992577904068123346632int);
    let e26 = lemma_next_bit_modulus_128(e25, 35350638386970032172984936585581935132, 0, 3672443111507650331396789844224809073int);
    let e27 = lemma_next_bit_modulus_128(e26, 299954005975610588960127445028302232223, 0, 264405136578002319102967849755652032417int);
    let e28 = lemma_next_bit_modulus_128(e27, 268766450299833026803380043897077376800, 0, 212280775699305808600045106713987297451int);
    let e29 = lemma_next_bit_modulus_128(e28, 89174229732314908188995092058605097813, 0, 23368954789829769977892643732864370097int);
    let e30 = lemma_next_bit_modulus_128(e29, 143218246544836534011030291670299423880, 0, 60277781446557399292419920951944013930int);
    let e31 = lemma_next_bit_modulus_128(e30, 57965223245286836778812812814672043990, 0, 9874055879764699872224948784433098001int);
    let e32 = lemma_next_bit_modulus_128(e31, 113786451272006480597838504530998532563, 0, 38048861039234826539439163523037690440int);
}

/// 3 raised to 170141183460469231731687278976872480768 is not one modulo 340282366920938463463374557953744961537: the residue is 340282366920938463463374557953744961536.
proof fn lemma_power_modulus_128_without_2()
    ensures
        pow(3, 170141183460469231731687278976872480768) % 340282366920938463463374557953744961537 == 340282366920938463463374557953744961536,
{
    lemma_power_modulus_128_without_2_part_3();
    let e0: nat = 79228162514264337593543938816;
    let e1 = lemma_next_bit_modulus_128(e0, 309289104524954779508682525960258742689, 0, 281118739837830276365487367343197029868int);
    let e2 = lemma_next_bit_modulus_128(e1, 288816269265998269031362754590810763605, 0, 245134175324783434557935413263580479084int);
    let e3 = lemma_next_bit_modulus_128(e2, 202477457160817175448865276649579603917, 0, 120479709334559393790030249372571046249int);
    let e4 = lemma_next_bit_modulus_128(e3, 291002859220333128737256428414248618176, 0, 248859983080123203925089655286347129210int);
    let e5 = lemma_next_bit_modulus_128(e4, 262210191456112222089946877103618371206, 0, 202050388697999861801841254803363789527int);
    let e6 = lemma_next_bit_modulus_128(e5, 169373083560288093220735695737231471437, 0, 84304225617972013112818052472229640660int);
    let e7 = lemma_next_bit_modulus_128(e6, 317147576029044052645335895261115550549, 0, 295585651090959213709839342331360541757int);
    let e8 = lemma_next_bit_modulus_128(e7, 171943168142144822891930992597926800892, 0, 86882118924566315143841291568497437410int);
    let e9 = lemma_next_bit_modulus_128(e8, 21541544435346836569580739457897096494, 0, 1363685520524892001180828348423097803int);
    let e10 = lemma_next_bit_modulus_128(e9, 129999756949660917902024189910922888825, 0, 49664450614619886838548446602897371936int);
    let e11 = lemma_next_bit_modulus_128(e10, 282895836292207208096400573424606654993, 0, 235187191495178360676096503325109477072int);
    let e12 = lemma_next_bit_modulus_128(e11, 296306845119133820321445521995708450385, 0, 258014387459733909161988607545862459320int);
    let e13 = lemma_next_bit_modulus_128(e12, 273165856257350751056968870452379473385, 0, 219287251643423532238130131203928242161int);
    let e14 = lemma_next_bit_modulus_128(e13, 283839073377153370490835339938956596768, 0, 236758137968164296433986570517974105205int);
    let e15 = lemma_next_bit_modulus_128(e14, 105008128617997753376638997239831545739, 0, 32404579689596183582375582324811201237int);
    let e16 = lemma_next_bit_modulus_128(e15, 212059004665593815414574723988717234852, 0, 132152076719892117759204761834908305615int);
    let e17 = lemma_next_bit_modulus_128(e16, 58939217512625066836357447684907331649, 0, 10208672851413551887724167944818352728int);
    let e18 = lemma_next_bit_modulus_128(e17, 183662900539509792375083495535218036265, 0, 99129617969370732324867680395014240042int);
    let e19 = lemma_next_bit_modulus_128(e18, 115107371550849943973561963938279885671, 0, 38937389278310353533809834152902788445int);
    let e20 = lemma_next_bit_modulus_128(e19, 143637997944725862918595393408258080276, 0, 60631629667612782957382272877735943725int);
    let e21 = lemma_next_bit_modulus_128(e20, 196934114662940666259486270002338730851, 0, 113973127285455706540697980882291376886int);
    let e22 = lemma_next_bit_modulus_128(e21, 154861683792053392940461127428578350419, 0, 70477178479488966767247227098402156735int);
    let e23 = lemma_next_bit_modulus_128(e22, 246301224039257635126066389490736973866, 0, 178276334187282128774823373070263626402int);
    let e24 = lemma_next_bit_modulus_128(e23, 112446981247494782863319391933539286082, 0, 37158327379955711344589089668493281057int);
    let e25 = lemma_next_bit_modulus_128(e24, 136257249355923752058795611038843206115, 0, 54560681971381829186595716979024151607int);
    let e26 = lemma_next_bit_modulus_128(e25, 317382179358537364646726782080101653266, 0, 296023119522319603170446313356706080260int);
    let e27 = lemma_next_bit_modulus_128(e26, 192007975586228866417180181358753507136, 0, 108342559805009201810260387437193174047int);
    let e28 = lemma_next_bit_modulus_128(e27, 177163815491556666773578150685041292257, 0, 92238154458408431751016968037385413980int);
    let e29 = lemma_next_bit_modulus_128(e28, 207780475876815746145724302740566066789, 0, 126873239263751810723865741054991764016int);
    let e30 = lemma_next_bit_modulus_128(e29, 215461094455166043855249150037908117929, 0, 136426355687728189081710563348995007059int);
    let e31 = lemma_next_bit_modulus_128(e30, 227605400907528469561203326827972759358, 0, 152238915554249110003773541846779319044int);
}

/// The residue of 3 raised to the leading 32 bits of 11733874721411671153909467515646377984, modulo 340282366920938463463374557953744961537.
proof fn lemma_power_modulus_128_without_29_part_1()
    ensures
        pow(3, 2369637128) % 340282366920938463463374557953744961537 == 48357255032990443819835121064985207581,
{
    lemma_pow0(3);
    lemma_small_mod(1, 340282366920938463463374557953744961537);
    let e0: nat = 0;
    let e1 = lemma_next_bit_modulus_128(e0, 1, 1, 0int);
    let e2 = lemma_next_bit_modulus_128(e1, 3, 0, 0int);
    let e3 = lemma_next_bit_modulus_128(e2, 9, 0, 0int);
    let e4 = lemma_next_bit_modulus_128(e3, 81, 0, 0int);
    let e5 = lemma_next_bit_modulus_128(e4, 6561, 1, 0int);
    let e6 = lemma_next_bit_modulus_128(e5, 129140163, 1, 0int);
    let e7 = lemma_next_bit_modulus_128(e6, 50031545098999707, 0, 0int);
    let e8 = lemma_next_bit_modulus_128(e7, 2503155504993241601315571986085849, 1, 55240483415649064870986579567int);
    let e9 = lemma_next_bit_modulus_128(e8, 168536561958725600359005809207189037924, 0, 83473536915496121672901831370194614361int);
    let e10 = lemma_next_bit_modulus_128(e9, 2865680383797362944562908936217396919, 0, 24133263608069983505384853233840833int);
    let e11 = lemma_next_bit_modulus_128(e10, 52944334014625946824997301452025652240, 1, 24712733688932699767903583757848735023int);
    let e12 = lemma_next_bit_modulus_128(e11, 264333409233361506022286771617011242449, 1, 616007392941103494394958674788920555398int);
    let e13 = lemma_next_bit_modulus_128(e12, 223751037285302382420937611561790826077, 1, 441379262222078211482536598943508969270int);
    let e14 = lemma_next_bit_modulus_128(e13, 278149228549396716655468952603524661797, 1, 682083477107704955727577216286572560068int);
    let e15 = lemma_next_bit_modulus_128(e14, 242244893354469898830146507935411703111, 0, 172452627761205341221479878349672533953int);
    let e16 = lemma_next_bit_modulus_128(e15, 11285994159648190663717118472295512560, 1, 1122952670079497747429358143168661581int);
    let e17 = lemma_next_bit_modulus_128(e16, 228329711046367250865378537064738650803, 1, 459628197178643701072793687812389915609int);
    let e18 = lemma_next_bit_modulus_128(e17, 276063501980564384745404041825936703394, 1, 671892503411556678292532452488689814951int);
    let e19 = lemma_next_bit_modulus_128(e18, 287559664292901183669055769079850818021, 0, 243005716918204090706470499355014162056int);
    let e20 = lemma_next_bit_modulus_128(e19, 155090569525101041216204946432853516369, 0, 70685663125203066848736531240775885390int);
    let e21 = lemma_next_bit_modulus_128(e20, 139388936873334126147070853685480699731, 1, 171292528894327423426401754664947638113int);
    let e22 = lemma_next_bit_modulus_128(e21, 126482101519046581464125993901970157402, 0, 47013079606300410685995897567083497783int);
    let e23 = lemma_next_bit_modulus_128(e22, 234550296084442652823315614473895617133, 1, 485013448311428525399389457567606466533int);
    let e24 = lemma_next_bit_modulus_128(e23, 263965927720666390155731903932206677846, 1, 614295812280109682486629439625834226541int);
    let e25 = lemma_next_bit_modulus_128(e24, 112444609475720454034350889143892045631, 0, 37156759883138325089243975322242171751int);
    let e26 = lemma_next_bit_modulus_128(e25, 9883453009578712653376129616943246874, 0, 287063488703327942974187668918808020int);
    let e27 = lemma_next_bit_modulus_128(e26, 317824695291712324157575970022523645136, 0, 296849166329970712825696583281341214860int);
    let e28 = lemma_next_bit_modulus_128(e27, 159623903280270200499867193788903618676, 0, 74878374477596880636714678702152181055int);
    let e29 = lemma_next_bit_modulus_128(e28, 287484143534693235826049861665980911441, 1, 728634282743293759446343603929651133650int);
    let e30 = lemma_next_bit_modulus_128(e29, 124526934610165972752255850507557669393, 0, 45570852182909182605687796986647785499int);
    let e31 = lemma_next_bit_modulus_128(e30, 2590933495524344024380233343907636486, 0, 19727546975096967609151039710843901int);
    let e32 = lemma_next_bit_modulus_128(e31, 191051343673415145348155676425662392359, 0, 107265669537022980492332064121866162900int);
}

/// The residue of 3 raised to the leading 64 bits of 11733874721411671153909467515646377984, modulo 340282366920938463463374557953744961537.
proof fn lemma_power_modulus_128_without_29_part_2()
    ensures
        pow(3, 10177513971701821581) % 340282366920938463463374557953744961537 == 50532732213679171090651519179046794879,
{
    lemma_power_modulus_128_without_29_part_1();
    let e0: nat = 2369637128;
    let e1 = lemma_next_bit_modulus_128(e0, 48357255032990443819835121064985207581, 1, 20616032521623355340852373481753036936int);
    let e2 = lemma_next_bit_modulus_128(e1, 320609161891685520171399083178719284051, 1, 906220051473646279423936451752062546542int);
    let e3 = lemma_next_bit_modulus_128(e2, 170314278433717640775017266988006556749, 0, 85243774753504643657383285064883388826int);
    let e4 = lemma_next_bit_modulus_128(e3, 85289556208959287344198339771371863439, 1, 64131813212742924356259217333068945199int);
    let e5 = lemma_next_bit_modulus_128(e4, 213567288649916835701955342076378909300, 0, 134038643242052555621283461210795891695int);
    let e6 = lemma_next_bit_modulus_128(e5, 246275929341719236715335697052233754785, 0, 178239718742815116573217475470821127255int);
    let e7 = lemma_next_bit_modulus_128(e6, 100238839965548574557697414312553005290, 1, 88583711773464120849937970364996367935int);
    let e8 = lemma_next_bit_modulus_128(e7, 269094206491630283947127125121028836205, 1, 638396511308366099541684245239094168660int);
    let e9 = lemma_next_bit_modulus_128(e8, 314686684577670327699774452057465575655, 1, 873048847754380148620257219621294698615int);
    let e10 = lemma_next_bit_modulus_128(e9, 296071716462064368027460924376403865820, 1, 772815195350627931625557269278582644611int);
    let e11 = lemma_next_bit_modulus_128(e10, 126351480432827598771798243327757490093, 0, 46916026686967499331901867573092026081int);
    let e12 = lemma_next_bit_modulus_128(e11, 172100664516276209086642442278247302152, 1, 261124068769265464908738381281727036423int);
    let e13 = lemma_next_bit_modulus_128(e12, 314743557503751053264611843412018431161, 1, 873364446296450832328770741530307828093int);
    let e14 = lemma_next_bit_modulus_128(e13, 30857351271641229622163361786794364822, 1, 8394582441493550616188358226516792711int);
    let e15 = lemma_next_bit_modulus_128(e14, 320314108673804851413347974325996318245, 0, 301517616513266202834103901090347290804int);
    let e16 = lemma_next_bit_modulus_128(e15, 57047357430371810604967711462186074277, 0, 9563824947017394308105183083064378089int);
    let e17 = lemma_next_bit_modulus_128(e16, 133883597461558603102847219996430509936, 1, 158028914322909927568830822462368200778int);
    let e18 = lemma_next_bit_modulus_128(e17, 138164104746956558813850671005480696502, 0, 56098469083951138355492919123837032027int);
    let e19 = lemma_next_bit_modulus_128(e18, 96042691305371344284404828699682890505, 1, 81322449675936440932971296113708639389int);
    let e20 = lemma_next_bit_modulus_128(e19, 131951411782175842327881110809049284182, 1, 153500534531264704721819711592841073634int);
    let e21 = lemma_next_bit_modulus_128(e20, 216812313603068955158071910606671411914, 0, 138142859870365561020200330194010385861int);
    let e22 = lemma_next_bit_modulus_128(e21, 141189366434629109674599725948287515039, 0, 58582045771544664320681972508104652312int);
    let e23 = lemma_next_bit_modulus_128(e22, 118068226155707399671150904762453047977, 0, 40966289713137344973451201244339821761int);
    let e24 = lemma_next_bit_modulus_128(e23, 118376076415461816080828064015083185872, 0, 41180198651830304753551764640803284049int);
    let e25 = lemma_next_bit_modulus_128(e24, 55736253053533941367380052952509777071, 1, 27387812650039657682067830959137464564int);
    let e26 = lemma_next_bit_modulus_128(e25, 55230728582301283744675292250471542255, 0, 8964418013586265651230420323330793162int);
    let e27 = lemma_next_bit_modulus_128(e26, 66346602081013585701070737578857875031, 0, 12935938019730218337023870218898957712int);
    let e28 = lemma_next_bit_modulus_128(e27, 328249881189878319016175401883983727617, 0, 316642867734029556505197451488179303029int);
    let e29 = lemma_next_bit_modulus_128(e28, 15765616774764755971103595093375903116, 1, 2191309598594275390468172213120497628int);
    let e30 = lemma_next_bit_modulus_128(e29, 93561368536647216253637995222695794132, 1, 77174698427592956116648058784281042507int);
    let e31 = lemma_next_bit_modulus_128(e30, 216024649371317445460589947209399847013, 0, 137140956077936349531450533089816118987int);
    let e32 = lemma_next_bit_modulus_128(e31, 243969486246062507274618622408874619150, 1, 524750466129767537658305747857369718733int);
}

/// The residue of 3 raised to the leading 96 bits of 11733874721411671153909467515646377984, modulo 340282366920938463463374557953744961537.
proof fn lemma_power_modulus_128_without_29_part_3()
    ensures
        pow(3, 43712089663042393155058724864) % 340282366920938463463374557953744961537 == 260848276511661585755101956704512602128,
{
    lemma_power_modulus_128_without_29_part_2();
    let e0: nat = 10177513971701821581;
    let e1 = lemma_next_bit_modulus_128(e0, 50532732213679171090651519179046794879, 0, 7504229643414654351463722519812473294int);
    let e2 = lemma_next_bit_modulus_128(e1, 25626913799766133792328338203830931763, 0, 1929981611575045889489599339253660566int);
    let e3 = lemma_next_bit_modulus_128(e2, 237796572036880185308806158566638638227, 1, 498531941435825686358696885877712158051int);
    let e4 = lemma_next_bit_modulus_128(e3, 291596767033459974352481118338697226200, 1, 749630449386067436861871554745212680338int);
    let e5 = lemma_next_bit_modulus_128(e4, 310426199974670792286164796871413160494, 1, 849568784618543326724069846315604545136int);
    let e6 = lemma_next_bit_modulus_128(e5, 231987402502689549009041374788706538076, 1, 474472028100554370677467983965502725752int);
    let e7 = lemma_next_bit_modulus_128(e6, 16767308649909928763326384276613944504, 0, 826203960861319836436786568815055733int);
    let e8 = lemma_next_bit_modulus_128(e7, 174830497960128563529682551325395464395, 1, 269473584190345511092568124263143886696int);
    let e9 = lemma_next_bit_modulus_128(e8, 27404609337056920164658260939932136323, 1, 6621083129099060821113465325047979093int);
    let e10 = lemma_next_bit_modulus_128(e9, 221663282403166121670325734423102735046, 1, 433180930387395820502082047818266370566int);
    let e11 = lemma_next_bit_modulus_128(e10, 107009750100361743883872170726770946406, 0, 33651719071304176252256497317250718530int);
    let e12 = lemma_next_bit_modulus_128(e11, 78401347833217439775779138892461136226, 0, 18063737470984782996194746569171383977int);
    let e13 = lemma_next_bit_modulus_128(e12, 217605836447879701905488539698006430427, 1, 417467709108623159723669060838083362918int);
    let e14 = lemma_next_bit_modulus_128(e13, 115638933911677790601980393299652122021, 0, 39297843015581032362350428060312310835int);
    let e15 = lemma_next_bit_modulus_128(e14, 277674515327686447649987229153609771046, 1, 679757260067311631562389909961743809592int);
    let e16 = lemma_next_bit_modulus_128(e15, 271700976966599314426120921643728139444, 0, 216941658048817651546054994151742379146int);
    let e17 = lemma_next_bit_modulus_128(e16, 201828115133182259129249697899267721734, 1, 359124586091268615475029631721230020236int);
    let e18 = lemma_next_bit_modulus_128(e17, 82330758994790918188857437663016237536, 1, 59759375174146784598425419182947500490int);
    let e19 = lemma_next_bit_modulus_128(e18, 191849017973758196150126350055387400758, 1, 324489740951345985309810623703888630546int);
    let e20 = lemma_next_bit_modulus_128(e19, 171214483716940800109271748755523614490, 1, 258441831997155960417248797975259622828int);
    let e21 = lemma_next_bit_modulus_128(e20, 61440393098274427865307628422426713664, 0, 11093498432575429278982375420802316579int);
    let e22 = lemma_next_bit_modulus_128(e21, 45830401629891048724506282648191882973, 0, 6172596401520667250433006262512512284int);
    let e23 = lemma_next_bit_modulus_128(e22, 275491629374014455856555582798507298221, 0, 223037233876955519655297864634011254235int);
    let e24 = lemma_next_bit_modulus_128(e23, 237856134574078592685549408815826405646, 0, 166260571379142316548390041008989561322int);
    let e25 = lemma_next_bit_modulus_128(e24, 6877899909507029740353096986347805402, 0, 139018391088680229785892416483542960int);
    let e26 = lemma_next_bit_modulus_128(e25, 115362785935031231849657020162973252084, 0, 39110379121654477260896780861315059383int);
    let e27 = lemma_next_bit_modulus_128(e26, 45537186305272460632372881356804391385, 0, 6093866559600145804294658528024548646int);
    let e28 = lemma_next_bit_modulus_128(e27, 336530525888297755286912074649206789323, 0, 332820051416203738615373932513499501291int);
    let e29 = lemma_next_bit_modulus_128(e28, 49536294003552345157358428024629954062, 0, 7211200644365168152949869238055530193int);
    let e30 = lemma_next_bit_modulus_128(e29, 103816974906263913303753067503303113203, 0, 31673590307404890562070324381827566763int);
    let e31 = lemma_next_bit_modulus_128(e30, 333284412101495756604616006688098324478, 0, 326430371208884114325047910373309885040int);
    let e32 = lemma_next_bit_modulus_128(e31, 261373031832792453034506986574282266004, 0, 200762273953908727918407563017179377024int);
}

/// 3 raised to 11733874721411671153909467515646377984 is not one modulo 340282366920938463463374557953744961537: the residue is 114792961311339977158635919681573159865.
proof fn lemma_power_modulus_128_without_29()
    ensures
        pow(3, 11733874721411671153909467515646377984) % 340282366920938463463374557953744961537 == 114792961311339977158635919681573159865,
{
    lemma_power_modulus_128_without_29_part_3();
    let e0: nat = 43712089663042393155058724864;
    let e1 = lemma_next_bit_modulus_128(e0, 260848276511661585755101956704512602128, 0, 199956947445687554087443812432753290665int);
    let e2 = lemma_next_bit_modulus_128(e1, 190974718273127772831591283865023976279, 0, 107179644215811835529850176769067903927int);
    let e3 = lemma_next_bit_modulus_128(e2, 48644571059224699417327150334128430042, 0, 6953913936086345360815192763548605840int);
    let e4 = lemma_next_bit_modulus_128(e3, 119347996941296406132769669830914545684, 0, 41859190362364995016515045802567726957int);
    let e5 = lemma_next_bit_modulus_128(e4, 22568369789967422970516329806639974947, 0, 1496790208630036821658683043356294878int);
    let e6 = lemma_next_bit_modulus_128(e5, 196705440728647705114325700691847545323, 0, 113708596664491615516630523542755515855int);
    let e7 = lemma_next_bit_modulus_128(e6, 219642497510768089577794490338970505194, 0, 141772925671392640128573129529805393965int);
    let e8 = lemma_next_bit_modulus_128(e7, 160042436813958316281852644231524053431, 0, 75271551133006326575279494494386787160int);
    let e9 = lemma_next_bit_modulus_128(e8, 282913102807079685360612742805337406841, 0, 235215901617746093626515258427720935930int);
    let e10 = lemma_next_bit_modulus_128(e9, 280691923056499062094022758258862274871, 0, 231536992004823041947093084166687368239int);
    let e11 = lemma_next_bit_modulus_128(e10, 50178216036014902302262946580347643298, 0, 7399306015589058125006914548878622197int);
    let e12 = lemma_next_bit_modulus_128(e11, 11089193531819991040129934783324880015, 0, 361376977299353703306331384143045107int);
    let e13 = lemma_next_bit_modulus_128(e12, 76964879723081386932378544232375350766, 0, 17407874420259565571772406546086180812int);
    let e14 = lemma_next_bit_modulus_128(e13, 123010438648042455585741231193369358712, 0, 44467681805855959260289530044382910937int);
    let e15 = lemma_next_bit_modulus_128(e14, 236267549016541048220002629180968668775, 0, 164047156552350675001118882231311112800int);
    let e16 = lemma_next_bit_modulus_128(e15, 113628558946858638466798413678991627025, 0, 37943339601077792739065875314196317736int);
    let e17 = lemma_next_bit_modulus_128(e16, 333904030564305793347804418868359430393, 0, 327645251312692891984348682946584459422int);
    let e18 = lemma_next_bit_modulus_128(e17, 97384787062043500705323769498084882835, 0, 27870373763219502288416231375713375585int);
    let e19 = lemma_next_bit_modulus_128(e18, 12099614858086034549523900503417763080, 0, 430232929900923154499128358484267319int);
    let e20 = lemma_next_bit_modulus_128(e19, 200729157779495545250862019691729977097, 0, 118408118373724445003558953335097333455int);
    let e21 = lemma_next_bit_modulus_128(e20, 80594388104399639958430297425906227074, 0, 19088427803935414093575210255125039174int);
    let e22 = lemma_next_bit_modulus_128(e21, 162985532888496978311821854277402351038, 0, 78065414236169638993947928912024382488int);
    let e23 = lemma_next_bit_modulus_128(e22, 153222959524204225652970516586043313388, 0, 68993511294138433680477411968066231536int);
    let e24 = lemma_next_bit_modulus_128(e23, 232457164306082448136840562214723607712, 0, 158798511148771532064048649814980655067int);
    let e25 = lemma_next_bit_modulus_128(e24, 273267345175343541535018644581886716965, 0, 219450224867309757247593073611059177128int);
    let e26 = lemma_next_bit_modulus_128(e25, 162980337386493269565565416530788685489, 0, 78060437321416522034433157668427445722int);
    let e27 = lemma_next_bit_modulus_128(e26, 216039330317360012950439517736513974407, 0, 137159596796907897691429537865488075970int);
    let e28 = lemma_next_bit_modulus_128(e27, 87636469145394921285011949055267035759, 0, 22569934474612872738528677861149784168int);
}

/// The residue of 3 raised to the leading 32 bits of 1880013076911262229079417447258259456, modulo 340282366920938463463374557953744961537.
proof fn lemma_power_modulus_128_without_181_part_1()
    ensures
        pow(3, 3037324938) % 340282366920938463463374557953744961537 == 12509990402695377790855551078847490582,
{
    lemma_pow0(3);
    lemma_small_mod(1, 340282366920938463463374557953744961537);
    let e0: nat = 0;
    let e1 = lemma_next_bit_modulus_128(e0, 1, 1, 0int);
    let e2 = lemma_next_bit_modulus_128(e1, 3, 0, 0int);
    let e3 = lemma_next_bit_modulus_128(e2, 9, 1, 0int);
    let e4 = lemma_next_bit_modulus_128(e3, 243, 1, 0int);
    let e5 = lemma_next_bit_modulus_128(e4, 177147, 0, 0int);
    let e6 = lemma_next_bit_modulus_128(e5, 31381059609, 1, 0int);
    let e7 = lemma_next_bit_modulus_128(e6, 2954312706550833698643, 0, 25649int);
    let e8 = lemma_next_bit_modulus_128(e7, 61138932561776519303442521122821578936, 1, 32954711482260911715200488072110710164int);
    let e9 = lemma_next_bit_modulus_128(e8, 127936988137718518719692797226301714220, 0, 48100855421502509152802133082738751934int);
    let e10 = lemma_next_bit_modulus_128(e9, 333110384700876478067043098998335845842, 0, 326089563204863518237258514294734120104int);
    let e11 = lemma_next_bit_modulus_128(e10, 335507534520099603737906136830570249116, 0, 330799702430391757559018567574333377272int);
    let e12 = lemma_next_bit_modulus_128(e11, 9713927566050958599469915348794392, 0, 277300259817484122729784212034int);
    let e13 = lemma_next_bit_modulus_128(e12, 109273032354926573911121402210708113406, 1, 105270770049760934048893849483527645828int);
    let e14 = lemma_next_bit_modulus_128(e13, 107777738334025956826678356045252244872, 0, 34136476084570819042455346483670769515int);
    let e15 = lemma_next_bit_modulus_128(e14, 275432033589666453265730405300583151829, 0, 222940747161798094006736559642422713759int);
    let e16 = lemma_next_bit_modulus_128(e15, 196506132616989400874965282883050357658, 1, 340434861543010191567970803760282796049int);
    let e17 = lemma_next_bit_modulus_128(e16, 290341152761133335514164236768837167579, 1, 743188538531439445063535334605205158059int);
    let e18 = lemma_next_bit_modulus_128(e17, 208681571964049272308875200723025587040, 1, 383928196498392110114858178980153487794int);
    let e19 = lemma_next_bit_modulus_128(e18, 6162741085210276696439183164918905422, 1, 334834079358830584049190946234666287int);
    let e20 = lemma_next_bit_modulus_128(e19, 141184394424601379192427160900897391133, 0, 58577919888727802811782424049677574145int);
    let e21 = lemma_next_bit_modulus_128(e20, 156669695871918956934463415071096362824, 0, 72132428802290776679449715747940561046int);
    let e22 = lemma_next_bit_modulus_128(e21, 249983002964289330876000523022378767274, 1, 550938054796972992467850601399615877899int);
    let e23 = lemma_next_bit_modulus_128(e22, 219248671962497368663953909755316802465, 1, 423794925893007607179785746868752895309int);
    let e24 = lemma_next_bit_modulus_128(e23, 161984476718536347101128931215897498742, 0, 77109404566574064847189358196665398860int);
    let e25 = lemma_next_bit_modulus_128(e24, 112851163448420031501178029662427934744, 1, 112277799230963076420059451051793537924int);
    let e26 = lemma_next_bit_modulus_128(e25, 250416142397648536021181953412836207420, 0, 184282967527051095342495070766276753100int);
    let e27 = lemma_next_bit_modulus_128(e26, 32101949080930278265524974872517541700, 0, 3028470573187460736962746486266643923int);
    let e28 = lemma_next_bit_modulus_128(e27, 168144557108001727716562856143529100349, 0, 83085680697686389127788883960672834943int);
    let e29 = lemma_next_bit_modulus_128(e28, 283965800836868563405861700641027334410, 1, 710908797078450587331934233734982708926int);
    let e30 = lemma_next_bit_modulus_128(e29, 313618187764016258784865024381973565038, 0, 289043386486252964386891269488276162629int);
    let e31 = lemma_next_bit_modulus_128(e30, 72986690806006951764785459809654140671, 1, 46964440881969238110600397427608873793int);
    let e32 = lemma_next_bit_modulus_128(e31, 32516514598779099875276672501696690882, 0, 3107195154482612229427178574449430766int);
}

/// The residue of 3 raised to the leading 64 bits of 1880013076911262229079417447258259456, modulo 340282366920938463463374557953744961537.
proof fn lemma_power_modulus_128_without_181_part_2()
    ensures
        pow(3, 13045211278645428767) % 340282366920938463463374557953744961537 == 154128978332221148590535226405952975176,
{
    lemma_power_modulus_128_without_181_part_1();
    let e0: nat = 3037324938;
    let e1 = lemma_next_bit_modulus_128(e0, 12509990402695377790855551078847490582, 1, 1379735258911242295822321118980552959int);
    let e2 = lemma_next_bit_modulus_128(e1, 157386687120425890420469959703289558189, 0, 72794160646290705538373363561917649477int);
    let e3 = lemma_next_bit_modulus_128(e2, 160608763679008052537468552276003793572, 0, 75805206140736444054939419674564040926int);
    let e4 = lemma_next_bit_modulus_128(e3, 325039734501023616880287501924024655922, 1, 931439644908573288552427242810580866957int);
    let e5 = lemma_next_bit_modulus_128(e4, 37791019444926284993858005779389777343, 1, 12590965235221403025763752319276317532int);
    let e6 = lemma_next_bit_modulus_128(e5, 13269225898347770615540038081009652263, 0, 517430149362667454290053137384855088int);
    let e7 = lemma_next_bit_modulus_128(e6, 253484698135614347162174939101302270913, 1, 566480944372581718127096301588864447491int);
    let e8 = lemma_next_bit_modulus_128(e7, 138282487133789873491585171581986407040, 1, 168583930054326882739027997067780672259int);
    let e9 = lemma_next_bit_modulus_128(e8, 162156775970751912375616669373726782717, 1, 231820592684468915490465764926685274397int);
    let e10 = lemma_next_bit_modulus_128(e9, 183505794850835511142934614328133838078, 0, 98960099074604316138238504563958863815int);
    let e11 = lemma_next_bit_modulus_128(e10, 262135303667334853922378995111726650429, 0, 201934993136835528577518240943325784728int);
    let e12 = lemma_next_bit_modulus_128(e11, 294106296490620260895007477817263877105, 1, 762588855997282226114534500496422682701int);
    let e13 = lemma_next_bit_modulus_128(e12, 40272847756943572717821596330029271638, 0, 4766342379506221398017301011191602329int);
    let e14 = lemma_next_bit_modulus_128(e13, 291074226166256749432679411099286583371, 1, 746946183884721446766524234775678907748int);
    let e15 = lemma_next_bit_modulus_128(e14, 105724808952081891291918469281169882247, 0, 32848411538618635239834328358016815337int);
    let e16 = lemma_next_bit_modulus_128(e15, 210059323576091835563385750605549076040, 0, 129671483775406082127945738961656689828int);
    let e17 = lemma_next_bit_modulus_128(e16, 175434253319372981950335339093102935964, 1, 271337984829023445720797051264376931268int);
    let e18 = lemma_next_bit_modulus_128(e17, 165693832259254007008719024881301188972, 0, 80681365588175177368934934766571846473int);
    let e19 = lemma_next_bit_modulus_128(e18, 23171963637449835744535090722400307783, 0, 1577924544471181963489541171372056750int);
    let e20 = lemma_next_bit_modulus_128(e19, 325107328773164762847285684427799150339, 0, 310609027962297769947921254050546857185int);
    let e21 = lemma_next_bit_modulus_128(e20, 139457004482313089823746978046266721576, 0, 57153287944827655407926164859789723984int);
    let e22 = lemma_next_bit_modulus_128(e21, 290491282043987485161057794363177520368, 0, 247985770485620320045940820952878597833int);
    let e23 = lemma_next_bit_modulus_128(e22, 173954433204718436289270723983978306103, 1, 266779719784353559362570665742119017211int);
    let e24 = lemma_next_bit_modulus_128(e23, 73898829175007118936369300206065126520, 0, 16048545220992029795947294162331292920int);
    let e25 = lemma_next_bit_modulus_128(e24, 127055784451414376976388327466726892360, 0, 47440519791361953655945217115501709731int);
    let e26 = lemma_next_bit_modulus_128(e25, 306067516351089470864949091172692753053, 0, 275292914566711890273564173960422308342int);
    let e27 = lemma_next_bit_modulus_128(e26, 252029924008255892106630679106896579155, 0, 186665806901376483116189990738049259741int);
    let e28 = lemma_next_bit_modulus_128(e27, 37511773895263689467683913949812932108, 1, 12405578286367577936127197084183816896int);
    let e29 = lemma_next_bit_modulus_128(e28, 11709647389318281522861554275281241840, 1, 1208841732437103398831811974221523281int);
    let e30 = lemma_next_bit_modulus_128(e29, 173201950277488485128118212762804713903, 1, 264476668462479316120859433329477050028int);
    let e31 = lemma_next_bit_modulus_128(e30, 67952941192297431559460750633959707191, 1, 40709739900422386055455279852773091414int);
    let e32 = lemma_next_bit_modulus_128(e31, 28112035618724491168853833661356388125, 1, 6967330283194342811138238113187924627int);
}

/// The residue of 3 raised to the leading 96 bits of 1880013076911262229079417447258259456, modulo 340282366920938463463374557953744961537.
proof fn lemma_power_modulus_128_without_181_part_3()
    ensures
        pow(3, 56028755811192459734660907008) % 340282366920938463463374557953744961537 == 112096774992415955007587966005507721621,
{
    lemma_power_modulus_128_without_181_part_2();
    let e0: nat = 13045211278645428767;
    let e1 = lemma_next_bit_modulus_128(e0, 154128978332221148590535226405952975176, 0, 69811851189026578442521074121891668020int);
    let e2 = lemma_next_bit_modulus_128(e1, 65579599928840008206855500830399284236, 0, 12638574151642531337891164745472265095int);
    let e3 = lemma_next_bit_modulus_128(e2, 185563547620943096078003476730075452681, 0, 101191932209847376011649552897170163996int);
    let e4 = lemma_next_bit_modulus_128(e3, 122479322883154652694550170858067865909, 1, 132253557564457409315044923956995445854int);
    let e5 = lemma_next_bit_modulus_128(e4, 9289874481026358233866670769417071245, 1, 760854304507140555369462930347015152int);
    let e6 = lemma_next_bit_modulus_128(e5, 19658920245243175674864529493221341451, 1, 3407227492031277213112596920781932496int);
    let e7 = lemma_next_bit_modulus_128(e6, 326178699591191012066371345809741949851, 0, 312659586300925722101751636523290718002int);
    let e8 = lemma_next_bit_modulus_128(e7, 168230122765995770127479179012795433127, 1, 249510791246237955841020678701164773631int);
    let e9 = lemma_next_bit_modulus_128(e8, 78809318916864387433407113925180163540, 1, 54756661101835061341673267062754481232int);
    let e10 = lemma_next_bit_modulus_128(e9, 98128787294210489679849251815207621216, 0, 28297848586640627859567127408544847806int);
    let e11 = lemma_next_bit_modulus_128(e10, 70593420981882686472227822776344480834, 1, 43934963169130388261599542322253204675int);
    let e12 = lemma_next_bit_modulus_128(e11, 111960234147598118552999725306116421193, 1, 110511991648078065936625295059229423884int);
    let e13 = lemma_next_bit_modulus_128(e12, 282983929942129089941059114926289480039, 0, 235333688695358310788183463191843029055int);
    let e14 = lemma_next_bit_modulus_128(e13, 288849837173379263153713089718430983986, 0, 245191160476654679919994969131847666104int);
    let e15 = lemma_next_bit_modulus_128(e14, 120784968121184619425793740989489806348, 1, 128619728280765214224214397429204925804int);
    let e16 = lemma_next_bit_modulus_128(e15, 137258496525667051209147250380704490564, 1, 166096424909938105814141936157688131514int);
    let e17 = lemma_next_bit_modulus_128(e16, 276261618043044565646555551122967537270, 1, 672857212329430708326481250737066551079int);
    let e18 = lemma_next_bit_modulus_128(e17, 16600520777576948145672624696416310277, 0, 809848869279764528780357966125128054int);
    let e19 = lemma_next_bit_modulus_128(e18, 106142487186715647379567033039306157731, 0, 33108467206588173503426420221185829213int);
    let e20 = lemma_next_bit_modulus_128(e19, 196843534004107315900326925292115087980, 0, 113868306576781148448253880247634320706int);
    let e21 = lemma_next_bit_modulus_128(e20, 109961570769027514877271146578047795278, 0, 35533863113163334221247831652357198831int);
    let e22 = lemma_next_bit_modulus_128(e21, 22659071234356916250540180299442734037, 0, 1508845473979416352820883077581521691int);
    let e23 = lemma_next_bit_modulus_128(e22, 32947904031675714078785808388792118302, 0, 3190186990596353350033027485685031804int);
    let e24 = lemma_next_bit_modulus_128(e23, 330368700302388173344881981753761640456, 0, 320743854955163390953845613394349945503int);
    let e25 = lemma_next_bit_modulus_128(e24, 140286896854698390249429337043434769825, 0, 57835537019446416164919498682178595688int);
    let e26 = lemma_next_bit_modulus_128(e25, 137543595658163747136434131934496478169, 0, 55595712695192118677552259524800891008int);
    let e27 = lemma_next_bit_modulus_128(e26, 164026918205767048553688840256004433265, 0, 79066188881695677236951467877075964193int);
    let e28 = lemma_next_bit_modulus_128(e27, 232856155863593996412051037053864315584, 0, 159344105350508422095370302117847597801int);
    let e29 = lemma_next_bit_modulus_128(e28, 284754068495908491555109746390154480919, 0, 238287044546777484878277772638914050696int);
    let e30 = lemma_next_bit_modulus_128(e29, 140852995088319374998738186668947004809, 0, 58303245051659306568937468338349578119int);
    let e31 = lemma_next_bit_modulus_128(e30, 73506571374261657292076222766437317578, 0, 15878624814123300678110958468689145798int);
    let e32 = lemma_next_bit_modulus_128(e31, 260279127376848434024227144237132614558, 0, 199085320703066824902425606568772627439int);
}

/// 3 raised to 1880013076911262229079417447258259456 is not one modulo 340282366920938463463374557953744961537: the residue is 95816247745561154808017863345204159341.
proof fn lemma_power_modulus_128_without_181()
    ensures
        pow(3, 1880013076911262229079417447258259456) % 340282366920938463463374557953744961537 == 95816247745561154808017863345204159341,
{
    lemma_power_modulus_128_without_181_part_3();
    let e0: nat = 56028755811192459734660907008;
    let e1 = lemma_next_bit_modulus_128(e0, 112096774992415955007587966005507721621, 0, 36927235100077504095033745390708884844int);
    let e2 = lemma_next_bit_modulus_128(e1, 309081208873671225894350248749488622413, 0, 280740946241877385114297472373150954052int);
    let e3 = lemma_next_bit_modulus_128(e2, 172316865261663826942980226716891644645, 0, 87260184306009984947600912855053781305int);
    let e4 = lemma_next_bit_modulus_128(e3, 70752853368023293892595310009322510240, 0, 14711212646760789219290568683999568165int);
    let e5 = lemma_next_bit_modulus_128(e4, 93665337383347505792655245322370187995, 0, 25782104158146662219505239959789328804int);
    let e6 = lemma_next_bit_modulus_128(e5, 261431089744848309168037003137615908277, 0, 200851473156287751017663184813766093373int);
    let e7 = lemma_next_bit_modulus_128(e6, 313214559937742263757309879757041514428, 0, 288299865328569820993264880722913992543int);
    let e8 = lemma_next_bit_modulus_128(e7, 166912540122036826160295967957092348593, 0, 81872582179562437974158167366779240910int);
    let e9 = lemma_next_bit_modulus_128(e8, 209026877023010465407010033986622200979, 0, 128399939477746247578962839925259069241int);
    let e10 = lemma_next_bit_modulus_128(e9, 27676635401905563765011893628303775024, 0, 2251060359374967666085017242589681491int);
    let e11 = lemma_next_bit_modulus_128(e10, 231068903700970083009452514502330388909, 0, 156907449365348777434161166756156026632int);
    let e12 = lemma_next_bit_modulus_128(e11, 69446124912697196719079371359602556897, 0, 14172830373283691114715017322119297281int);
    let e13 = lemma_next_bit_modulus_128(e12, 220544425484085967951305059267308587712, 0, 142939653477273998082431662035516855535int);
    let e14 = lemma_next_bit_modulus_128(e13, 91546687296898520536921575440236837649, 0, 24628945751348095104912584813365357326int);
    let e15 = lemma_next_bit_modulus_128(e14, 26113601559295390196879944777852677139, 0, 2003983317055252041704393686065809113int);
    let e16 = lemma_next_bit_modulus_128(e15, 94078476501345690183909057980404138640, 0, 26010045189531220560598575699090546029int);
    let e17 = lemma_next_bit_modulus_128(e16, 290440548088761739649520161131407963027, 0, 247899157212867303505451213401504886765int);
    let e18 = lemma_next_bit_modulus_128(e17, 208590048944206498710932170302933644924, 0, 127863835297277022742836382227558000300int);
    let e19 = lemma_next_bit_modulus_128(e18, 237934081257219408701500909379976504676, 0, 166369558128971523271047955901858421403int);
    let e20 = lemma_next_bit_modulus_128(e19, 246636958495673407460769334966477288565, 0, 178762684197884927399208281150503527652int);
    let e21 = lemma_next_bit_modulus_128(e20, 210495135854291121698461479314723838101, 0, 130210103506806412240845359858918507392int);
    let e22 = lemma_next_bit_modulus_128(e21, 230671367639410337334736104023969104697, 0, 156368019683484505925282291940353843418int);
    let e23 = lemma_next_bit_modulus_128(e22, 290094191774043950275181641105216848343, 0, 247308260085625770161517353518467778478int);
    let e24 = lemma_next_bit_modulus_128(e23, 210774825035152592773859651559915444963, 0, 130556359033793762612118672316399381048int);
    let e25 = lemma_next_bit_modulus_128(e24, 236873178777523131984051226158915320593, 0, 164889245751616721930177464028354933684int);
}

/// The residue of 3 raised to the leading 32 bits of 1187228923835958060921901750943744, modulo 340282366920938463463374557953744961537.
proof fn lemma_power_modulus_128_without_286619_part_1()
    ensures
        pow(3, 3928210993) % 340282366920938463463374557953744961537 == 245778856074931950156450328994010583989,
{
    lemma_pow0(3);
    lemma_small_mod(1, 340282366920938463463374557953744961537);
    let e0: nat = 0;
    let e1 = lemma_next_bit_modulus_128(e0, 1, 1, 0int);
    let e2 = lemma_next_bit_modulus_128(e1, 3, 1, 0int);
    let e3 = lemma_next_bit_modulus_128(e2, 27, 1, 0int);
    let e4 = lemma_next_bit_modulus_128(e3, 2187, 0, 0int);
    let e5 = lemma_next_bit_modulus_128(e4, 4782969, 1, 0int);
    let e6 = lemma_next_bit_modulus_128(e5, 68630377364883, 0, 0int);
    let e7 = lemma_next_bit_modulus_128(e6, 4710128697246244834921603689, 1, 195590319992488749int);
    let e8 = lemma_next_bit_modulus_128(e7, 107603077125692696339412718790824978950, 0, 34025924739167906025679357811717695904int);
    let e9 = lemma_next_bit_modulus_128(e8, 61433854090412209820450635405200658052, 0, 11091137229802269934706806715202806723int);
    let e10 = lemma_next_bit_modulus_128(e9, 247194787967765951160158403591752421453, 0, 179572229238155095545171559545890583185int);
    let e11 = lemma_next_bit_modulus_128(e10, 284850409375424624779023922300610675864, 1, 715344933581578326470674265040410179718int);
    let e12 = lemma_next_bit_modulus_128(e11, 171114272676745898424061446385448932922, 0, 86046463643221082809734278063246392341int);
    let e13 = lemma_next_bit_modulus_128(e12, 116615306155649932211069061087399069967, 0, 39964250139754082509235800372028755228int);
    let e14 = lemma_next_bit_modulus_128(e13, 36309763953167673934669963509713715653, 0, 3874426319131231052519860364391385205int);
    let e15 = lemma_next_bit_modulus_128(e14, 49243926930568838623831931030461356324, 1, 21378989115589008729156033527968352480int);
    let e16 = lemma_next_bit_modulus_128(e15, 317163890592873365620062441502225817168, 1, 886848187928997269998396839953330316820int);
    let e17 = lemma_next_bit_modulus_128(e16, 331541282018040371062520187649166468332, 1, 969074207489316760165936536957182354028int);
    let e18 = lemma_next_bit_modulus_128(e17, 80952669087872853976090469594699565636, 0, 19258519598734463025061394850165076674int);
    let e19 = lemma_next_bit_modulus_128(e18, 321842281551711700026575587102286196558, 1, 913204423123791015368751235721770302828int);
    let e20 = lemma_next_bit_modulus_128(e19, 67746403046987046683390194665730815456, 1, 40462647247935378540320223805319102488int);
    let e21 = lemma_next_bit_modulus_128(e20, 101964870119837583234889732703264459752, 1, 91660653762035438478713604690358896652int);
    let e22 = lemma_next_bit_modulus_128(e21, 244461468067294355600847988729785630388, 1, 526868993333719833710450463043155110271int);
    let e23 = lemma_next_bit_modulus_128(e22, 90880997314220730261369462891758445105, 1, 72816194511304627736839217461560775729int);
    let e24 = lemma_next_bit_modulus_128(e23, 57739275334868147170486431618907247602, 0, 9797227950310740268602259046870609135int);
    let e25 = lemma_next_bit_modulus_128(e24, 151072538472575045783060473606998909909, 0, 67070509962246633017759991899360317126int);
    let e26 = lemma_next_bit_modulus_128(e25, 262366778478727604506930130473306005619, 0, 202291782181294223880394784508534867198int);
    let e27 = lemma_next_bit_modulus_128(e26, 254411183596429772064304245032946609835, 1, 570629482725808519747329652682325851359int);
    let e28 = lemma_next_bit_modulus_128(e27, 31776032139413071663023801768922002892, 1, 8901867831073458958788375467558874685int);
    let e29 = lemma_next_bit_modulus_128(e28, 296545504697509133634091673606241100147, 0, 258430188881142640762113301999873908339int);
    let e30 = lemma_next_bit_modulus_128(e29, 221674927971392464523286658815464864566, 0, 144408815936499055045297067539026232026int);
    let e31 = lemma_next_bit_modulus_128(e30, 294861203023919316138038805573314784394, 0, 255502892598938037073767716249169671617int);
    let e32 = lemma_next_bit_modulus_128(e31, 117658597889036349751153311196120351907, 1, 122047572865540563184116651672665140134int);
}

/// The residue of 3 raised to the leading 64 bits of 1187228923835958060921901750943744, modulo 340282366920938463463374557953744961537.
proof fn lemma_power_modulus_128_without_286619_part_2()
    ensures
        pow(3, 16871537750318425152) % 340282366920938463463374557953744961537 == 74708537581426792026867114615642547493,
{
    lemma_power_modulus_128_without_286619_part_1();
    let e0: nat = 3928210993;
    let e1 = lemma_next_bit_modulus_128(e0, 245778856074931950156450328994010583989, 1, 532562823987325729127113619335102692080int);
    let e2 = lemma_next_bit_modulus_128(e1, 61879083392960678810928466673714929403, 1, 33757443821142403187084094593724926748int);
    let e3 = lemma_next_bit_modulus_128(e2, 248590159627888848925332550638419317551, 0, 181605259252758312367242024397631013674int);
    let e4 = lemma_next_bit_modulus_128(e3, 199866550136711210493095973857125580663, 1, 352177853572104752107606259575315168368int);
    let e5 = lemma_next_bit_modulus_128(e4, 221771427114551279562787488863919497091, 0, 144534570890215583039584563653986788142int);
    let e6 = lemma_next_bit_modulus_128(e5, 188633816646826532708631742768399768027, 1, 313704619237727594036612521902818969041int);
    let e7 = lemma_next_bit_modulus_128(e6, 219182351024623885981351198959695642170, 1, 423538575642768879927184311811201372406int);
    let e8 = lemma_next_bit_modulus_128(e7, 201644021397278032993752887143963778678, 0, 119489915781363356849455533587491192685int);
    let e9 = lemma_next_bit_modulus_128(e8, 232985153454145094501541606566586670839, 0, 159520701061373214189620028266273397004int);
    let e10 = lemma_next_bit_modulus_128(e9, 248357347496547001515909392515021928773, 1, 543795783016741310168725605428260866253int);
    let e11 = lemma_next_bit_modulus_128(e10, 249917438555699424513354228913469545726, 0, 183549699208344576091281175423625058357int);
    let e12 = lemma_next_bit_modulus_128(e11, 307058030738646881058016212058459452367, 1, 831232911898153070773695639409459966922int);
    let e13 = lemma_next_bit_modulus_128(e12, 137208220187550756182744437184443428953, 0, 55324922820374892575909042898549089911int);
    let e14 = lemma_next_bit_modulus_128(e13, 51409396768662889400368228667308923002, 0, 7766861680293490942860236643761871539int);
    let e15 = lemma_next_bit_modulus_128(e14, 66558365572189205653142265138474696561, 1, 39055941109082994860856118546323620429int);
    let e16 = lemma_next_bit_modulus_128(e15, 291158408252841157982670081171883240790, 0, 249126099196390080147739317079146549523int);
    let e17 = lemma_next_bit_modulus_128(e16, 261773720610933671395497073873219127249, 1, 604134866780321035469530249784187587462int);
    let e18 = lemma_next_bit_modulus_128(e17, 52218905543088582118188153777749474909, 0, 8013386414323249638592221028742267823int);
    let e19 = lemma_next_bit_modulus_128(e18, 250941177208239888780175667891932834330, 1, 555169593315613456247986170555177466637int);
    let e20 = lemma_next_bit_modulus_128(e19, 240615905441399122124221864927013905631, 0, 170141093337451540456587462402784934503int);
    let e21 = lemma_next_bit_modulus_128(e20, 222899754811277217938422470993774297050, 0, 146009036978607828005645482788766002250int);
    let e22 = lemma_next_bit_modulus_128(e21, 322115561655206587452600915602133244250, 1, 914755906977894028751288069705820123120int);
    let e23 = lemma_next_bit_modulus_128(e22, 319838116764971771304417922965469752060, 0, 300622162298322577813224646947598298764int);
    let e24 = lemma_next_bit_modulus_128(e23, 147193457098518695352989325600059603332, 0, 63670398230324238992868159051021160763int);
    let e25 = lemma_next_bit_modulus_128(e24, 173544344040041513323306967476656929493, 0, 88507787285039821016457507182700155935int);
    let e26 = lemma_next_bit_modulus_128(e25, 241888823018327235860376646664295964954, 1, 515838095555382863862593995208360119483int);
    let e27 = lemma_next_bit_modulus_128(e26, 105655269835703230656994378339429340977, 0, 32805214519531338640286429112622325453int);
    let e28 = lemma_next_bit_modulus_128(e27, 174324968022758918705575976701550213268, 0, 89305816081844095646995732950757114721int);
    let e29 = lemma_next_bit_modulus_128(e28, 227902312350088295162679380767041753647, 0, 152636366216956735552705188055885292030int);
    let e30 = lemma_next_bit_modulus_128(e29, 92857570604899807288899194228675150499, 0, 25339333614801496349456981703961829579int);
    let e31 = lemma_next_bit_modulus_128(e30, 82381436574366843112110692400796046078, 0, 19944321986079448318938866828372454149int);
    let e32 = lemma_next_bit_modulus_128(e31, 184226449423049010798264048109998115071, 0, 99738887366175940851050434490291882204int);
}

/// The residue of 3 raised to the leading 96 bits of 1187228923835958060921901750943744, modulo 340282366920938463463374557953744961537.
proof fn lemma_power_modulus_128_without_286619_part_3()
    ensures
        pow(3, 72462702870847049616815292416) % 340282366920938463463374557953744961537 == 166397592205457024825863294437425986789,
{
    lemma_power_modulus_128_without_286619_part_2();
    let e0: nat = 16871537750318425152;
    let e1 = lemma_next_bit_modulus_128(e0, 74708537581426792026867114615642547493, 1, 49206477885340199813894148810333533731int);
    let e2 = lemma_next_bit_modulus_128(e1, 324924199557471730368717459598394650600, 0, 310259201537155410169483655811768989569int);
    let e3 = lemma_next_bit_modulus_128(e2, 304053300406396116707051265280821152447, 1, 815044373217567113430151669089077804663int);
    let e4 = lemma_next_bit_modulus_128(e3, 319723866382962792347709788870308016396, 0, 300407428277414439227816259069775358165int);
    let e5 = lemma_next_bit_modulus_128(e4, 273630741476020711714077221831880929211, 0, 220034271414695810467014620755998146957int);
    let e6 = lemma_next_bit_modulus_128(e5, 248365134679808991636218066409554489612, 1, 543829884716168685577005063653889586801int);
    let e7 = lemma_next_bit_modulus_128(e6, 290245030418612710527439435072879858495, 0, 247565509917457248772516929224555649969int);
    let e8 = lemma_next_bit_modulus_128(e7, 22897083783906081089356075651283422672, 0, 1540710000788920456592140663797518162int);
    let e9 = lemma_next_bit_modulus_128(e8, 133922280322073415735699605582254684590, 0, 52706748601026067740393896553139301385int);
    let e10 = lemma_next_bit_modulus_128(e9, 273968076176702600678430305960507639355, 0, 220577126705488931953754080503363555965int);
    let e11 = lemma_next_bit_modulus_128(e10, 252565169627251044796373021348272897820, 0, 187459507485037948976224962547523295088int);
    let e12 = lemma_next_bit_modulus_128(e11, 24163955223955335040293171624099722144, 0, 1715918275015941279723033693898095264int);
    let e13 = lemma_next_bit_modulus_128(e12, 280846332308893463802228481056762095968, 0, 231791800101364736725487411503251810234int);
    let e14 = lemma_next_bit_modulus_128(e13, 42162645305650844417259314628488887366, 0, 5224157440938310805985839794812580611int);
    let e15 = lemma_next_bit_modulus_128(e14, 240289481317046624800052396590727458849, 0, 169679773166237680891175939981233698317int);
    let e16 = lemma_next_bit_modulus_128(e15, 199626032634308769013560374041561771572, 0, 117110249543353581754637347888720914328int);
    let e17 = lemma_next_bit_modulus_128(e16, 283941335394372900081387424317275149048, 0, 236928767937810051357390235001442732417int);
    let e18 = lemma_next_bit_modulus_128(e17, 186225796566368773381760669870767261375, 0, 101915499238419731553660894623539891418int);
    let e19 = lemma_next_bit_modulus_128(e18, 253868199840567313958427571272000501159, 0, 189398773358316212759273255871337613731int);
    let e20 = lemma_next_bit_modulus_128(e19, 329376916073500607069488213133202278734, 0, 318820965728430876929143188860535930290int);
    let e21 = lemma_next_bit_modulus_128(e20, 7004564394961642380972522287665387026, 0, 144185908917707507030276598788140015int);
    let e22 = lemma_next_bit_modulus_128(e21, 315753324749988068443709902400423521621, 0, 292992443284126622009265189181331191236int);
    let e23 = lemma_next_bit_modulus_128(e22, 91486690647594499591050995526242977909, 0, 24596674348375229641668151171855924351int);
    let e24 = lemma_next_bit_modulus_128(e23, 307032476498426409796843154482185324794, 0, 277031520844743928100521712334157410024int);
    let e25 = lemma_next_bit_modulus_128(e24, 94888804132682817320711116051852895548, 0, 26460040322402644966145053386058620513int);
    let e26 = lemma_next_bit_modulus_128(e25, 133760470744018048657967538513334011823, 0, 52579461273755396517737182388141080662int);
    let e27 = lemma_next_bit_modulus_128(e26, 5188499500628566888325727387099285835, 0, 79112318724048458994299858671256025int);
    let e28 = lemma_next_bit_modulus_128(e27, 158540261298975306331593645475927136800, 0, 73865168742602701548285453903456583309int);
    let e29 = lemma_next_bit_modulus_128(e28, 58518169660745210367656870254273054067, 0, 10063337138005108874393122410893588980int);
    let e30 = lemma_next_bit_modulus_128(e29, 219714967742816166140146013029518178229, 0, 141866496013420911612388540122092975669int);
    let e31 = lemma_next_bit_modulus_128(e30, 38410930604978896627024803590727733188, 0, 4335809707951456218935659352841066133int);
    let e32 = lemma_next_bit_modulus_128(e31, 23737934784352132304063673740758316923, 0, 1655946950542625749184263719390599220int);
}

/// 3 raised to 1187228923835958060921901750943744 is not one modulo 340282366920938463463374557953744961537: the residue is 326132099507953641075081897713081089495.
proof fn lemma_power_modulus_128_without_286619()
    ensures
        pow(3, 1187228923835958060921901750943744) % 340282366920938463463374557953744961537 == 326132099507953641075081897713081089495,
{
    lemma_power_modulus_128_without_286619_part_3();
    let e0: nat = 72462702870847049616815292416;
    let e1 = lemma_next_bit_modulus_128(e0, 166397592205457024825863294437425986789, 0, 81368185317127132184305302759093368487int);
    let e2 = lemma_next_bit_modulus_128(e1, 198477065785522124531509886704819646002, 0, 115766050410667088666530733230748211459int);
    let e3 = lemma_next_bit_modulus_128(e2, 2627686302810822192675587689096931521, 0, 20291193365255569849667851355816119int);
    let e4 = lemma_next_bit_modulus_128(e3, 33354229422246837990874124940863758538, 0, 3269357241218311623585496110232145038int);
    let e5 = lemma_next_bit_modulus_128(e4, 52092867877501608773735106843652494038, 0, 7974750229515521657702613117737890990int);
    let e6 = lemma_next_bit_modulus_128(e5, 320634855532765045695268827832576693814, 0, 302121768790926868381499627684372643651int);
    let e7 = lemma_next_bit_modulus_128(e6, 278066505016053708467028436353103615009, 0, 227225941536394256627871295993750488843int);
    let e8 = lemma_next_bit_modulus_128(e7, 194126164714868630976485055482107438390, 0, 110746166978614172002339815633267086507int);
    let e9 = lemma_next_bit_modulus_128(e8, 65837600525734467748313933700879110841, 0, 12738214096157660274016618531142746815int);
    let e10 = lemma_next_bit_modulus_128(e9, 300628794297411891527496866542059472626, 0, 265596107075727579367482635338057422742int);
    let e11 = lemma_next_bit_modulus_128(e10, 274411913160623938837103156211104261422, 0, 221292389511236502078841975765847249009int);
    let e12 = lemma_next_bit_modulus_128(e11, 87038119832164054862370217222151095251, 0, 22262788320378293401146983273498070472int);
    let e13 = lemma_next_bit_modulus_128(e12, 320891993645107338952407577457519317537, 0, 302606545608800667795886365586284926583int);
    let e14 = lemma_next_bit_modulus_128(e13, 52036343253990140450295127896031908298, 0, 7957453228471911028677471771224438157int);
}

/// The residue of 3 raised to the leading 32 bits of 29864055506749289580711204880384, modulo 340282366920938463463374557953744961537.
proof fn lemma_power_modulus_128_without_11394379_part_1()
    ensures
        pow(3, 3161979869) % 340282366920938463463374557953744961537 == 200884568778370695151453941795288214173,
{
    lemma_pow0(3);
    lemma_small_mod(1, 340282366920938463463374557953744961537);
    let e0: nat = 0;
    let e1 = lemma_next_bit_modulus_128(e0, 1, 1, 0int);
    let e2 = lemma_next_bit_modulus_128(e1, 3, 0, 0int);
    let e3 = lemma_next_bit_modulus_128(e2, 9, 1, 0int);
    let e4 = lemma_next_bit_modulus_128(e3, 243, 1, 0int);
    let e5 = lemma_next_bit_modulus_128(e4, 177147, 1, 0int);
    let e6 = lemma_next_bit_modulus_128(e5, 94143178827, 1, 0int);
    let e7 = lemma_next_bit_modulus_128(e6, 26588814358957503287787, 0, 2077583int);
    let e8 = lemma_next_bit_modulus_128(e7, 188300400610759575091600399596118432298, 0, 104198878099406979757242866080794563894int);
    let e9 = lemma_next_bit_modulus_128(e8, 86087448178983473074260895943490615726, 0, 21779114801123548005939264576440274354int);
    let e10 = lemma_next_bit_modulus_128(e9, 156499825231334173243904264893140984978, 1, 215928279085310472352170475415769551890int);
    let e11 = lemma_next_bit_modulus_128(e10, 257014343675693107869936213832289326522, 1, 582366698451890913025094672175153734959int);
    let e12 = lemma_next_bit_modulus_128(e11, 271060103990314421333755004799650577469, 1, 647758336466881851748510463214309222355int);
    let e13 = lemma_next_bit_modulus_128(e12, 59507055273902432797542997521655778248, 0, 10406327131825844957760795208166137715int);
    let e14 = lemma_next_bit_modulus_128(e13, 174799008515399210131345313228029881549, 1, 269376520926801765129160177424495348148int);
    let e15 = lemma_next_bit_modulus_128(e14, 302626399676371212953177682703227734727, 1, 807412431708762561951368715392883281734int);
    let e16 = lemma_next_bit_modulus_128(e15, 333712208862099263655310332879480628429, 1, 981806721441100222940120717158837914410int);
    let e17 = lemma_next_bit_modulus_128(e16, 271280074496289407387908945023540975953, 1, 648810099841091428409148483446326164253int);
    let e18 = lemma_next_bit_modulus_128(e17, 263633229133092884172790506024943437766, 1, 612748290180638085350414187887875362744int);
    let e19 = lemma_next_bit_modulus_128(e18, 49749037242849114810339321832742434740, 1, 21819820365526825228295458870313652349int);
    let e20 = lemma_next_bit_modulus_128(e19, 338648222467599691361412866386481902387, 1, 1011065777091326895160962924420676871780int);
    let e21 = lemma_next_bit_modulus_128(e20, 46180897436117926327446926702208167447, 1, 18802108148913438539899214176098707761int);
    let e22 = lemma_next_bit_modulus_128(e21, 110418127864034562703814764591623104770, 0, 35829546712395546834453159261779506753int);
    let e23 = lemma_next_bit_modulus_128(e22, 173339016276892452403632254379579993539, 1, 264895429366945126845561191334360676360int);
    let e24 = lemma_next_bit_modulus_128(e23, 143542069493327858049862419748340068243, 1, 181652013598588197428069584270888554132int);
    let e25 = lemma_next_bit_modulus_128(e24, 338799553987123009480728342375808900263, 1, 1011969607657126436532302216152832420079int);
    let e26 = lemma_next_bit_modulus_128(e25, 24776291231523490261565621803962906084, 1, 5411957834405451491426231627413596398int);
    let e27 = lemma_next_bit_modulus_128(e26, 196080949178693514565412963690460901442, 0, 112987748906044179193453883362127366936int);
    let e28 = lemma_next_bit_modulus_128(e27, 9479634972043823739744539228832138732, 1, 792255091114450328011840111860635389int);
    let e29 = lemma_next_bit_modulus_128(e28, 275871274057558663933237288397697670579, 1, 670957127800479950164582113789167356232int);
    let e30 = lemma_next_bit_modulus_128(e29, 246382867003049502478643343143589337139, 1, 535183627367443279512080242477773281394int);
    let e31 = lemma_next_bit_modulus_128(e30, 321481385394012790841182983525406373385, 0, 303719179133564348186945301793409867739int);
    let e32 = lemma_next_bit_modulus_128(e31, 23398097502107793997804053769224203382, 1, 4826617714622952471790931060819421327int);
}

/// The residue of 3 raised to the leading 64 bits of 29864055506749289580711204880384, modulo 340282366920938463463374557953744961537.
proof fn lemma_power_modulus_128_without_11394379_part_2()
    ensures
        pow(3, 13580600128420560204) % 340282366920938463463374557953744961537 == 308149142672096890987252648853306532937,
{
    lemma_power_modulus_128_without_11394379_part_1();
    let e0: nat = 3161979869;
    let e1 = lemma_next_bit_modulus_128(e0, 200884568778370695151453941795288214173, 0, 118591540133044788852498435276725456003int);
    let e2 = lemma_next_bit_modulus_128(e1, 311871976877090142822835530589497317318, 0, 285833588267659756216710821929162309087int);
    let e3 = lemma_next_bit_modulus_128(e2, 135449234073090584610242127307862126405, 0, 53915503107010907562738002125269763850int);
    let e4 = lemma_next_bit_modulus_128(e3, 228550351354631684177216115740875186575, 1, 460516925196379495182547011262074116414int);
    let e5 = lemma_next_bit_modulus_128(e4, 101526512124851708673200413509490323557, 1, 90874229753719913661163596053604443820int);
    let e6 = lemma_next_bit_modulus_128(e5, 26046300566806506063880639331470045407, 0, 1993667139896341753364223185929503314int);
    let e7 = lemma_next_bit_modulus_128(e6, 7440468496246817617741512314197762031, 1, 488070292427205684624083683766357630int);
    let e8 = lemma_next_bit_modulus_128(e7, 126386911708796568855052288747779257573, 1, 140827027822441998302660469285944033137int);
    let e9 = lemma_next_bit_modulus_128(e8, 246156895848881425387559265298515099418, 0, 178067461803083509910696716620309114999int);
    let e10 = lemma_next_bit_modulus_128(e9, 90516255525853232162694159766659145261, 0, 24077628789754980500718663143707392366int);
    let e11 = lemma_next_bit_modulus_128(e10, 142351031446158333487007712633861331579, 1, 178650010611569010583234540250848295559int);
    let e12 = lemma_next_bit_modulus_128(e11, 288429577239504778261508158768484985540, 0, 244478201381173168679527320691336481058int);
    let e13 = lemma_next_bit_modulus_128(e12, 160519236344663814724225958626870025454, 0, 75720718266487892642862691589667229458int);
    let e14 = lemma_next_bit_modulus_128(e13, 3087129062512607503533424649044549170, 0, 28007228040776692288651087673890839int);
    let e15 = lemma_next_bit_modulus_128(e14, 12841337676453744368611411247356029357, 0, 484597408948385109949519507027490848int);
    let e16 = lemma_next_bit_modulus_128(e15, 42161640258079697712270917233666320073, 1, 15671725149937641958011529279906395449int);
    let e17 = lemma_next_bit_modulus_128(e16, 207507621100565630553083527906231330874, 1, 379620723851556872653945250640657607402int);
    let e18 = lemma_next_bit_modulus_128(e17, 158961111273469401781665466976860314754, 0, 74257843936906845895344757861692954132int);
    let e19 = lemma_next_bit_modulus_128(e18, 36981927153396539348500840955704859632, 1, 12057600413043668547258844100938275478int);
    let e20 = lemma_next_bit_modulus_128(e19, 265117616787152939325213315286249236586, 1, 619667877888280143046101122562830267007int);
    let e21 = lemma_next_bit_modulus_128(e20, 24050718832468609870515106752747696429, 1, 5099621366741476378375487056381279174int);
    let e22 = lemma_next_bit_modulus_128(e21, 201626309062835971290241907284328925685, 1, 358406774416386209880892623028828447986int);
    let e23 = lemma_next_bit_modulus_128(e22, 333027214115045754615580944979783043193, 0, 325926748261383757840956732830352501252int);
    let e24 = lemma_next_bit_modulus_128(e23, 99587588234979877801063295795619290925, 1, 87436394252813468283391988209381501486int);
    let e25 = lemma_next_bit_modulus_128(e24, 284493544122145048974146186674983722893, 0, 237851221559134666498645689466604122993int);
    let e26 = lemma_next_bit_modulus_128(e25, 152715637442815612024613935529809969208, 1, 205612175534656874242231828945161087891int);
    let e27 = lemma_next_bit_modulus_128(e26, 328153954887686838252076956674852993325, 0, 316457826136638019047709855026745885522int);
    let e28 = lemma_next_bit_modulus_128(e27, 101940228557286173386135552259599388311, 0, 30538785457332224226732550250302650909int);
    let e29 = lemma_next_bit_modulus_128(e28, 8266298352119328508163928632020345588, 1, 602426353130372256823340703939600302int);
    let e30 = lemma_next_bit_modulus_128(e29, 317718784296385485663412887122709613058, 1, 889954070863391288078090397018880988692int);
    let e31 = lemma_next_bit_modulus_128(e30, 119663783684946269877800619700180394488, 0, 42080996601051036329649546357624130877int);
    let e32 = lemma_next_bit_modulus_128(e31, 212560526742395908532139330383881704195, 0, 132777898360811716257222895844519218624int);
}

/// The residue of 3 raised to the leading 96 bits of 29864055506749289580711204880384, modulo 340282366920938463463374557953744961537.
proof fn lemma_power_modulus_128_without_11394379_part_3()
    ensures
        pow(3, 58328233411619706212326572032) % 340282366920938463463374557953744961537 == 327360205378163127302816288425993283839,
{
    lemma_power_modulus_128_without_11394379_part_2();
    let e0: nat = 13580600128420560204;
    let e1 = lemma_next_bit_modulus_128(e0, 308149142672096890987252648853306532937, 1, 837150878449224522732501039925349243762int);
    let e2 = lemma_next_bit_modulus_128(e1, 280068650629091782994441237809670355713, 0, 230509884408511648864443077170543056299int);
    let e3 = lemma_next_bit_modulus_128(e2, 255015117984008020576864320123771166806, 0, 191113959235822801925404669995010878398int);
    let e4 = lemma_next_bit_modulus_128(e3, 92092171888281416212877686921582063910, 0, 24923325295522134235380487375970270548int);
    let e5 = lemma_next_bit_modulus_128(e4, 281015390328986296538598062757580575824, 0, 232070942483188998915583836752302415322int);
    let e6 = lemma_next_bit_modulus_128(e5, 224013328854698668143918590350323809062, 0, 147471560041848125028015672166816322290int);
    let e7 = lemma_next_bit_modulus_128(e6, 131100880718418232319886075488787560114, 0, 50509349281499126900537246360906257097int);
    let e8 = lemma_next_bit_modulus_128(e7, 267975287074691395332391597756265414907, 0, 211032840556936192467930800327353291841int);
    let e9 = lemma_next_bit_modulus_128(e8, 137901432004540899043768969551976899032, 0, 55885366970312040717681410196858780321int);
    let e10 = lemma_next_bit_modulus_128(e9, 144609966162759215747283248509845023647, 0, 61454969009467039516015577808591583147int);
    let e11 = lemma_next_bit_modulus_128(e10, 305569203949533916858077953932536763670, 0, 274397228534754258373153326990250363163int);
    let e12 = lemma_next_bit_modulus_128(e11, 174219386573423981557390236221715207369, 0, 89197671136078141931843640546518728820int);
    let e13 = lemma_next_bit_modulus_128(e12, 298832077316914199841139928997638505821, 0, 262430907724026667060416193671611982204int);
    let e14 = lemma_next_bit_modulus_128(e13, 5044463946985995675733668815142396493, 0, 74780884894790395808618666535549802int);
    let e15 = lemma_next_bit_modulus_128(e14, 11606184344935327126343319399580733375, 0, 395858052438899998346546726587670030int);
    let e16 = lemma_next_bit_modulus_128(e15, 217060934058008352608348416482041254515, 0, 138459860616527037753600304624942644555int);
    let e17 = lemma_next_bit_modulus_128(e16, 245066687949604600200974657455470404190, 0, 176493663441992975160172449812224343566int);
    let e18 = lemma_next_bit_modulus_128(e17, 42623133747176715968495064232226135158, 0, 5338894127452145675983720824164174340int);
    let e19 = lemma_next_bit_modulus_128(e18, 87030633183115976419824298345021324384, 0, 22258958584280434317569401911897142117int);
    let e20 = lemma_next_bit_modulus_128(e19, 183318709632270797304527903610965225627, 0, 98758421146896531732731935089033507447int);
    let e21 = lemma_next_bit_modulus_128(e20, 149428444899546315671178077907799477090, 0, 65618622402155379491257982113430932777int);
    let e22 = lemma_next_bit_modulus_128(e21, 160319870861824438685828723371537269851, 0, 75532744249201133327549785464013037466int);
    let e23 = lemma_next_bit_modulus_128(e22, 285918437025114875815534756658083616959, 0, 240239755502459830030193847238099012075int);
    let e24 = lemma_next_bit_modulus_128(e23, 247787081022458301439529190371258848406, 0, 180433791139979015389292100437698548026int);
    let e25 = lemma_next_bit_modulus_128(e24, 91036301483218147575357765891171464874, 0, 24355091516302217487320292939654290121int);
    let e26 = lemma_next_bit_modulus_128(e25, 50951485335347257649868035140831759899, 0, 7629116610915300027904802255192807365int);
    let e27 = lemma_next_bit_modulus_128(e26, 126742513000208537223774302398609170196, 0, 47206867481735477471206450359472396931int);
    let e28 = lemma_next_bit_modulus_128(e27, 281067362826312567995891346773902835469, 0, 232156791317055534264087182870322496208int);
    let e29 = lemma_next_bit_modulus_128(e28, 107759734246728163216907034273296098265, 0, 34125072156981496420453462162814204623int);
    let e30 = lemma_next_bit_modulus_128(e29, 48234020789223781496453916032153424674, 0, 6837030030521146706333468378056887024int);
    let e31 = lemma_next_bit_modulus_128(e30, 25980238386417283399769628763757610388, 0, 1983566744061980631531626085572824490int);
    let e32 = lemma_next_bit_modulus_128(e31, 220409813474167565608858459760503869414, 0, 142765216767769149670651493432222423461int);
}

/// 3 raised to 29864055506749289580711204880384 is not one modulo 340282366920938463463374557953744961537: the residue is 182699971178315469257055275082973876544.
proof fn lemma_power_modulus_128_without_11394379()
    ensures
        pow(3, 29864055506749289580711204880384) % 340282366920938463463374557953744961537 == 182699971178315469257055275082973876544,
{
    lemma_power_modulus_128_without_11394379_part_3();
    let e0: nat = 58328233411619706212326572032;
    let e1 = lemma_next_bit_modulus_128(e0, 327360205378163127302816288425993283839, 0, 314928760590559470892166768069592068225int);
    let e2 = lemma_next_bit_modulus_128(e1, 154803527351689890987178966401913716096, 0, 70424254707541898521096013992643993489int);
    let e3 = lemma_next_bit_modulus_128(e2, 196886625870074198093789913995706048623, 0, 113918166836746835580561898876964748405int);
    let e4 = lemma_next_bit_modulus_128(e3, 4279022669185426238655814596433097644, 0, 53808356774645749079969472534227776int);
    let e5 = lemma_next_bit_modulus_128(e4, 135389077323026084512657917080121299024, 0, 53867623010390053526659729320886755411int);
    let e6 = lemma_next_bit_modulus_128(e5, 247274311139470394399920976096301725869, 0, 179687785478775645158671891364522738484int);
    let e7 = lemma_next_bit_modulus_128(e6, 110373096373938336393745443563534115253, 0, 35800328160997860034540407851233858272int);
    let e8 = lemma_next_bit_modulus_128(e7, 294733785499929351645668732360737969945, 0, 255282120849069332061020757613629017035int);
    let e9 = lemma_next_bit_modulus_128(e8, 237191963427027254308617186006530520230, 0, 165333361300615803508461675639501900388int);
}

/// The residue of 3 raised to the leading 32 bits of 18848293533457619003191066624, modulo 340282366920938463463374557953744961537.
proof fn lemma_power_modulus_128_without_18053749339_part_1()
    ensures
        pow(3, 4087072159) % 340282366920938463463374557953744961537 == 197299741631699136490027227717841092357,
{
    lemma_pow0(3);
    lemma_small_mod(1, 340282366920938463463374557953744961537);
    let e0: nat = 0;
    let e1 = lemma_next_bit_modulus_128(e0, 1, 1, 0int);
    let e2 = lemma_next_bit_modulus_128(e1, 3, 1, 0int);
    let e3 = lemma_next_bit_modulus_128(e2, 27, 1, 0int);
    let e4 = lemma_next_bit_modulus_128(e3, 2187, 1, 0int);
    let e5 = lemma_next_bit_modulus_128(e4, 14348907, 0, 0int);
    let e6 = lemma_next_bit_modulus_128(e5, 205891132094649, 0, 0int);
    let e7 = lemma_next_bit_modulus_128(e6, 42391158275216203514294433201, 1, 15842815919391588694int);
    let e8 = lemma_next_bit_modulus_128(e7, 208790074157646816908066273213199256525, 1, 384327540635252773409562662787717121360int);
    let e9 = lemma_next_bit_modulus_128(e8, 179300391489165210560052270908704096555, 1, 283429000559738251448183311903839093295int);
    let e10 = lemma_next_bit_modulus_128(e9, 90962740230164580686398795239559009660, 0, 24315747492443069294086315955615027624int);
    let e11 = lemma_next_bit_modulus_128(e10, 164013752042915628963392020848900817512, 0, 79053496373043336521573848692404781251int);
    let e12 = lemma_next_bit_modulus_128(e11, 244051309632852836000019807272032127357, 1, 525102510651241689857641019785807749525int);
    let e13 = lemma_next_bit_modulus_128(e12, 293901607041784456601292062927548396422, 1, 761527745942351501190662742444563901063int);
    let e14 = lemma_next_bit_modulus_128(e13, 298040744673132630715906834001378792421, 0, 261042869453044232975160865633831214005int);
    let e15 = lemma_next_bit_modulus_128(e14, 2940574565020106059464184391466315556, 1, 76233560240154025629020429866772447int);
    let e16 = lemma_next_bit_modulus_128(e15, 283078629509432169119203396470956396369, 1, 706473666649526913050713938845704271508int);
    let e17 = lemma_next_bit_modulus_128(e16, 32503660471396420227784023549844164687, 1, 9314217074479944445648864327021242810int);
    let e18 = lemma_next_bit_modulus_128(e17, 27537875250160838606399343428945624937, 1, 6685635052047346280239423749352420598int);
    let e19 = lemma_next_bit_modulus_128(e18, 195663883417734622657252005883072222781, 0, 112507608373970991655658373343885002407int);
    let e20 = lemma_next_bit_modulus_128(e19, 225641479966805985491256063560727954402, 0, 149623026142403474075372906457245120132int);
    let e21 = lemma_next_bit_modulus_128(e20, 38255179708832435981489940576106814720, 0, 4300718805376966178104556800155165876int);
    let e22 = lemma_next_bit_modulus_128(e21, 285837265603766234165458160786933766988, 1, 720310104344792083114850230569628114734int);
    let e23 = lemma_next_bit_modulus_128(e22, 192318526752340306255622632398982790274, 0, 108693306875886677718479430112023357549int);
    let e24 = lemma_next_bit_modulus_128(e23, 26572119106783941037151731010065402263, 1, 6224925965580487386944253880294831722int);
    let e25 = lemma_next_bit_modulus_128(e24, 275612742375183584398286049229239086793, 1, 669700147382763073907894148835810638260int);
    let e26 = lemma_next_bit_modulus_128(e25, 68857644248812878871660547566640468927, 0, 13933649323056722063036170861926440444int);
    let e27 = lemma_next_bit_modulus_128(e26, 1766885208773180098890776824351328901, 0, 9174390578124742032817911269206139int);
    let e28 = lemma_next_bit_modulus_128(e27, 187096023438476237481368701951598592158, 1, 308610660345711600894984191485690834893int);
    let e29 = lemma_next_bit_modulus_128(e28, 143062415613427074523856727365154780351, 1, 180440041131231155683282490027149737982int);
    let e30 = lemma_next_bit_modulus_128(e29, 74071165358506861561830990178949051269, 1, 48370454107385597175409873027627361985int);
    let e31 = lemma_next_bit_modulus_128(e30, 66393736135903685383918970472970560138, 1, 38862973459111311825072374520750814149int);
    let e32 = lemma_next_bit_modulus_128(e31, 171697293011799671910608389860983350119, 1, 259901452088134750463409584390200523598int);
}

/// The residue of 3 raised to the leading 64 bits of 18848293533457619003191066624, modulo 340282366920938463463374557953744961537.
proof fn lemma_power_modulus_128_without_18053749339_part_2()
    ensures
        pow(3, 17553841260688024576) % 340282366920938463463374557953744961537 == 242845359636927077125196654627085740415,
{
    lemma_power_modulus_128_without_18053749339_part_1();
    let e0: nat = 4087072159;
    let e1 = lemma_next_bit_modulus_128(e0, 197299741631699136490027227717841092357, 0, 114396724109361841310744182825223070922int);
    let e2 = lemma_next_bit_modulus_128(e1, 95593634716466333848836630343090688335, 1, 80563766036355000491660645935155454615int);
    let e3 = lemma_next_bit_modulus_128(e2, 55153502240950607063282553653391073420, 0, 8939366553040650767944854431529972120int);
    let e4 = lemma_next_bit_modulus_128(e3, 175565132419097848112009245287748147960, 1, 271742988038785168238042515248916629148int);
    let e5 = lemma_next_bit_modulus_128(e4, 260755439191792495647817279551203404324, 0, 199814641244405844852918950442354717154int);
    let e6 = lemma_next_bit_modulus_128(e5, 254441678308777981329162104614777791278, 0, 190255428885122178649725993110292025254int);
    let e7 = lemma_next_bit_modulus_128(e6, 45868912079294513760733369942070217886, 1, 18548922599567601994865690718251248682int);
    let e8 = lemma_next_bit_modulus_128(e7, 114506507176504288095854935210230982754, 0, 38531941294534437385040184553939201534int);
    let e9 = lemma_next_bit_modulus_128(e8, 79247796061569687591552382831324026758, 1, 55367663368304572784248079208227750988int);
    let e10 = lemma_next_bit_modulus_128(e9, 119163373607334387370619635421626223136, 1, 125189351460991616468109932179046543948int);
    let e11 = lemma_next_bit_modulus_128(e10, 252667064788310914385312576766144895412, 1, 562832387170740201028258532401039282515int);
    let e12 = lemma_next_bit_modulus_128(e11, 17894056202988456716560553498504323677, 0, 940975138656257804826727390652544759int);
    let e13 = lemma_next_bit_modulus_128(e12, 33998559395444912498995049159556865746, 0, 3396890798147524758516762488022706674int);
    let e14 = lemma_next_bit_modulus_128(e13, 53021477515675386567102296710304938578, 1, 24784802427906398836330587586867504513int);
    let e15 = lemma_next_bit_modulus_128(e14, 160568860752355071275534353822699069771, 1, 227302630547114048926237703048059782411int);
    let e16 = lemma_next_bit_modulus_128(e15, 113620306844976973922815419150393851616, 1, 113813485938395489235630214622751890396int);
    let e17 = lemma_next_bit_modulus_128(e16, 66028162144587183621523192859217735716, 1, 38436180831005302950444416052923798512int);
    let e18 = lemma_next_bit_modulus_128(e17, 36577031713797782382212186570688265024, 0, 3931673748181647346569934188336650355int);
    let e19 = lemma_next_bit_modulus_128(e18, 164568795479974178978083122266369324941, 1, 238768367789289837983623237098577552171int);
    let e20 = lemma_next_bit_modulus_128(e19, 210757492458841217948534400830128113616, 0, 130534887921062338394183179159999837536int);
    let e21 = lemma_next_bit_modulus_128(e20, 311020056419947818079069243960035742624, 0, 284274134950820633839213668042192986703int);
    let e22 = lemma_next_bit_modulus_128(e21, 329434775725147149878102612431282962865, 1, 956798958809640587076181990032655202505int);
    let e23 = lemma_next_bit_modulus_128(e22, 7776986461779903141483680724735974490, 0, 177739208099373047329154168842530116int);
    let e24 = lemma_next_bit_modulus_128(e23, 312045330493253937102758418675746611808, 0, 286151437007218324919294160872317830179int);
    let e25 = lemma_next_bit_modulus_128(e24, 100333741199345155381067842882192203741, 0, 29583841543561719106197965130881858069int);
    let e26 = lemma_next_bit_modulus_128(e25, 51318225570360884757142857492556303028, 0, 7739338066560250872365782263618020772int);
    let e27 = lemma_next_bit_modulus_128(e26, 77298348249551032915469624959754922220, 0, 17559048669416110539515541552736590117int);
    let e28 = lemma_next_bit_modulus_128(e27, 28747953532024303930863718287550398571, 0, 2428703079026853156905797231053225478int);
    let e29 = lemma_next_bit_modulus_128(e28, 135051995244790441698582792826060402355, 0, 53599725382880555557213610156539056354int);
    let e30 = lemma_next_bit_modulus_128(e29, 197094911934190253100298629520484089927, 0, 114159322041426327762166153214224791097int);
    let e31 = lemma_next_bit_modulus_128(e30, 310263130895969939791316698057297829240, 0, 282892150023558713134569142206272650903int);
    let e32 = lemma_next_bit_modulus_128(e31, 157731424658257235830472548999435659689, 0, 73113404464192929701097227376959006738int);
}

/// 3 raised to 18848293533457619003191066624 is not one modulo 340282366920938463463374557953744961537: the residue is 40664971873991271173740595132179155414.
proof fn lemma_power_modulus_128_without_18053749339()
    ensures
        pow(3, 18848293533457619003191066624) % 340282366920938463463374557953744961537 == 40664971873991271173740595132179155414,
{
    lemma_power_modulus_128_without_18053749339_part_2();
    let e0: nat = 17553841260688024576;
    let e1 = lemma_next_bit_modulus_128(e0, 242845359636927077125196654627085740415, 0, 173308623749200900841605934506849097462int);
    let e2 = lemma_next_bit_modulus_128(e1, 71340781690325401527860795870410053131, 0, 14956717205887923950707699648510036213int);
    let e3 = lemma_next_bit_modulus_128(e2, 282991115628021618606673333184080763780, 0, 235345640295840217664321994418637362560int);
    let e4 = lemma_next_bit_modulus_128(e3, 42516063436267877207479123089836033680, 0, 5312104962925503205404932518830074846int);
    let e5 = lemma_next_bit_modulus_128(e4, 297948781462247327796474743116993144098, 0, 260881799953694729199372146898680149597int);
    let e6 = lemma_next_bit_modulus_128(e5, 252602443451963198486012751479221183015, 0, 187514842497635138828332304330602493734int);
    let e7 = lemma_next_bit_modulus_128(e6, 228060589381924400109611023926010981067, 0, 152848450244015029331035325019591308446int);
    let e8 = lemma_next_bit_modulus_128(e7, 17889946458711074057325471378059216987, 0, 940542959047624324630274465558303018int);
    let e9 = lemma_next_bit_modulus_128(e8, 339101138930916103733553333690148339503, 0, 337924011357782922540676772858038838323int);
    let e10 = lemma_next_bit_modulus_128(e9, 205649715111845314832872188126353704558, 0, 124284445615747284635009878041619350454int);
    let e11 = lemma_next_bit_modulus_128(e10, 12547221031605696550017301585196487566, 0, 462653287152391295400028690460054970int);
    let e12 = lemma_next_bit_modulus_128(e11, 45203496133135329586767895386036915466, 0, 6004883770933496628249186398463495606int);
    let e13 = lemma_next_bit_modulus_128(e12, 290270126891577533224221527860591490734, 0, 247608324016474286387103651345359938361int);
    let e14 = lemma_next_bit_modulus_128(e13, 293684461151775303997121767235772037899, 0, 253467623087411277651140882025034153117int);
    let e15 = lemma_next_bit_modulus_128(e14, 102536294182076915077651716362958673372, 0, 30896962777492909512662974408330843775int);
    let e16 = lemma_next_bit_modulus_128(e15, 66286189396968930383262676404050968209, 0, 12912390802170803366343485467018532498int);
    let e17 = lemma_next_bit_modulus_128(e16, 157689657100800687478757333259134138255, 0, 73074688475837179746591392595835933733int);
    let e18 = lemma_next_bit_modulus_128(e17, 24057296276797922203608953618888617404, 0, 1700803686616248683560242370124042514int);
    let e19 = lemma_next_bit_modulus_128(e18, 81280305899140725024887832800808915198, 0, 19414723680327662790540032186358711791int);
    let e20 = lemma_next_bit_modulus_128(e19, 254012050403561395112326952405391996437, 0, 189613474051132797357308303771616100833int);
    let e21 = lemma_next_bit_modulus_128(e20, 239525979969395041199394720877122034648, 0, 168603197395852904575838780831725495047int);
    let e22 = lemma_next_bit_modulus_128(e21, 155941719055892016403256463104013476665, 0, 71463649327902968178490795381697976034int);
    let e23 = lemma_next_bit_modulus_128(e22, 97620761312615812763234793642421717967, 0, 28005603480091209738355643191493531734int);
    let e24 = lemma_next_bit_modulus_128(e23, 278615334747582656295329190443571697931, 0, 228123794538385108941923775386976690518int);
    let e25 = lemma_next_bit_modulus_128(e24, 73361051338742887187401470584847074595, 0, 15815817617067687797115730758528706014int);
    let e26 = lemma_next_bit_modulus_128(e25, 49026578330418385800315612296683830507, 0, 7063561372685248932890173018760033202int);
    let e27 = lemma_next_bit_modulus_128(e26, 263644248282549283144641292631970925575, 0, 204266504554495808911821142694970311529int);
    let e28 = lemma_next_bit_modulus_128(e27, 52275735676020488454720626539176420552, 0, 8030837933791884261181759631985661234int);
    let e29 = lemma_next_bit_modulus_128(e28, 289338007419658849369656496710326028046, 0, 246020630734090692553339771956359760345int);
    let e30 = lemma_next_bit_modulus_128(e29, 241968511316825559826006713830215727851, 0, 172059342947041434694540743134661921251int);
}

/// 340282366920938463463374557953744961537 is prime: 3 has full order modulo it.
pub proof fn lemma_prime_modulus_128()
    ensures
        is_prime(340282366920938463463374557953744961537),
        is_order_certificate(340282366920938463463374557953744961537, 3, seq![(2int, 40nat), (29int, 1nat), (181int, 1nat), (286619int, 1nat), (11394379int, 1nat), (18053749339int, 1nat)]),
{
    lemma_prime_2();
    lemma_prime_29();
    lemma_prime_181();
    lemma_prime_286619();
    lemma_prime_11394379();
    lemma_prime_18053749339();
    lemma2_to64();
    lemma2_to64_rest();
    let f0 = Seq::<(int, nat)>::empty();
    assert(factored(f0) == 1);
    let f1 = f0.push((2int, 40nat));
    assert(f1.drop_last() =~= f0);
    lemma_pow2(40);
    assert(pow(2, 40) == 1099511627776);
    assert(factored(f1) == 1099511627776) by {
        assert(factored(f1) == pow(2, 40) * factored(f0));
    }
    let f2 = f1.push((29int, 1nat));
    assert(f2.drop_last() =~= f1);
    lemma_pow1(29);
    assert(factored(f2) == 31885837205504) by {
        assert(factored(f2) == pow(29, 1) * factored(f1));
    }
    let f3 = f2.push((181int, 1nat));
    assert(f3.drop_last() =~= f2);
    lemma_pow1(181);
    assert(factored(f3) == 5771336534196224) by {
        assert(factored(f3) == pow(181, 1) * factored(f2));
    }
    let f4 = f3.push((286619int, 1nat));
    assert(f4.drop_last() =~= f3);
    lemma_pow1(286619);
    assert(factored(f4) == 1654174706094787526656) by {
        assert(factored(f4) == pow(286619, 1) * factored(f3));
    }
    let f5 = f4.push((11394379int, 1nat));
    assert(f5.drop_last() =~= f4);
    lemma_pow1(11394379);
    assert(factored(f5) == 18848293533457619003191066624) by {
        assert(factored(f5) == pow(11394379, 1) * factored(f4));
    }
    let f6 = f5.push((18053749339int, 1nat));
    assert(f6.drop_last() =~= f5);
    lemma_pow1(18053749339);
    assert(factored(f6) == 340282366920938463463374557953744961536) by {
        assert(factored(f6) == pow(18053749339, 1) * factored(f5));
    }
    let factors = seq![(2int, 40nat), (29int, 1nat), (181int, 1nat), (286619int, 1nat), (11394379int, 1nat), (18053749339int, 1nat)];
    assert(factors =~= f6);
    lemma_power_modulus_128_full();
    lemma_power_modulus_128_without_2();
    lemma_power_modulus_128_without_29();
    lemma_power_modulus_128_without_181();
    lemma_power_modulus_128_without_286619();
    lemma_power_modulus_128_without_11394379();
    lemma_power_modulus_128_without_18053749339();
    assert forall|i: int| 0 <= i < factors.len() implies is_prime((#[trigger] factors[i]).0) by {
        if i == 0 {
            assert(factors[0].0 == 2);
        } else if i == 1 {
            assert(factors[1].0 == 29);
        } else if i == 2 {
            assert(factors[2].0 == 181);
        } else if i == 3 {
            assert(factors[3].0 == 286619);
        } else if i == 4 {
            assert(factors[4].0 == 11394379);
        } else if i == 5 {
            assert(factors[5].0 == 18053749339);
        }
    }
    assert forall|i: int| 0 <= i < factors.len() implies pow(
        3,
        ((340282366920938463463374557953744961537 - 1) / (#[trigger] factors[i]).0) as nat,
    ) % 340282366920938463463374557953744961537 != 1 by {
        if i == 0 {
            assert(factors[0].0 == 2);
            assert((340282366920938463463374557953744961537 - 1) / 2 == 170141183460469231731687278976872480768);
        } else if i == 1 {
            assert(factors[1].0 == 29);
            assert((340282366920938463463374557953744961537 - 1) / 29 == 11733874721411671153909467515646377984);
        } else if i == 2 {
            assert(factors[2].0 == 181);
            assert((340282366920938463463374557953744961537 - 1) / 181 == 1880013076911262229079417447258259456);
        } else if i == 3 {
            assert(factors[3].0 == 286619);
            assert((340282366920938463463374557953744961537 - 1) / 286619 == 1187228923835958060921901750943744);
        } else if i == 4 {
            assert(factors[4].0 == 11394379);
            assert((340282366920938463463374557953744961537 - 1) / 11394379 == 29864055506749289580711204880384);
        } else if i == 5 {
            assert(factors[5].0 == 18053749339);
            assert((340282366920938463463374557953744961537 - 1) / 18053749339 == 18848293533457619003191066624);
        }
    }
    lemma_order_certificate_proves_prime(340282366920938463463374557953744961537, 3, factors);
}

} // verus!
