//! What it takes to know that a modulus is prime: greatest common divisors, units,
//! the order of an element, and the test that concludes from one element of full
//! order that every residue but zero is a unit.
use crate::math::modular::{
    common_divisor, inverse, is_inverse_of, is_unit, lemma_congruent_by_multiple,
    lemma_inverse_of_unit, lemma_mul_congruent, lemma_multiple_stays_multiple,
    lemma_shared_divisor_is_no_unit, lemma_zero_is_no_unit,
};
use vstd::arithmetic::div_mod::*;
use vstd::arithmetic::power::*;
use vstd::prelude::*;
use vstd::relations::injective_on;
use vstd::set_lib::*;

verus! {

/// `n` has no divisor strictly between one and itself.
pub open spec fn is_prime(n: int) -> bool {
    n >= 2 && forall|d: int| 1 < d < n ==> #[trigger] (n % d) != 0
}

/// A number written as a product of powers: the bases with their exponents.
pub open spec fn factored(factors: Seq<(int, nat)>) -> int
    decreases factors.len(),
{
    if factors.len() == 0 {
        1
    } else {
        pow(factors.last().0, factors.last().1) * factored(factors.drop_last())
    }
}

/// Every base of the factorization is prime.
pub open spec fn all_prime(factors: Seq<(int, nat)>) -> bool {
    forall|i: int| 0 <= i < factors.len() ==> is_prime((#[trigger] factors[i]).0)
}

/// What certifies that `g` has order `n - 1` modulo `n`: `n - 1` is the product of
/// the given prime powers, `g` raised to `n - 1` is one, and `g` raised to
/// `(n - 1) / q` is not one for any of the primes `q`.
pub open spec fn is_order_certificate(n: int, g: int, factors: Seq<(int, nat)>) -> bool {
    &&& n > 2
    &&& n - 1 == factored(factors)
    &&& all_prime(factors)
    &&& pow(g, (n - 1) as nat) % n == 1
    &&& forall|i: int|
        0 <= i < factors.len() ==> pow(g, ((n - 1) / (#[trigger] factors[i]).0) as nat) % n != 1
}

/// A number greater than one with no divisor from two up to `bound`, where the
/// square of `bound + 1` exceeds it, is prime.
pub proof fn lemma_prime_by_trial(p: int, bound: int)
    requires
        p >= 2,
        bound >= 1,
        (bound + 1) * (bound + 1) > p,
        forall|d: int| 1 < d <= bound ==> #[trigger] (p % d) != 0,
    ensures
        is_prime(p),
{
    assert forall|d: int| 1 < d < p implies #[trigger] (p % d) != 0 by {
        if p % d == 0 {
            let e = p / d;
            lemma_fundamental_div_mod(p, d);
            assert(p == d * e);
            assert(e > 1 && e < p) by (nonlinear_arith)
                requires
                    p == d * e,
                    1 < d < p,
            ;
            lemma_mod_self_0(e);
            lemma_multiple_stays_multiple(e, d, e);
            assert(e * d == d * e) by (nonlinear_arith);
            assert(p % e == 0);
            if d > bound && e > bound {
                assert(d * e >= (bound + 1) * (bound + 1)) by (nonlinear_arith)
                    requires
                        d >= bound + 1,
                        e >= bound + 1,
                        bound >= 1,
                ;
            }
        }
    }
}

/// Bezout: the greatest common divisor of two numbers is a combination of them.
pub proof fn lemma_bezout(a: int, b: int) -> (r: (int, int, int))
    requires
        a >= 0,
        b >= 0,
        a + b > 0,
    ensures
        r.0 > 0,
        a % r.0 == 0,
        b % r.0 == 0,
        r.1 * a + r.2 * b == r.0,
    decreases b,
{
    if b == 0 {
        lemma_mod_self_0(a);
        lemma_small_mod(0, a as nat);
        assert(1 * a + 0 * b == a);
        (a, 1, 0)
    } else {
        lemma_mod_bound(a, b);
        let (g, u, v) = lemma_bezout(b, a % b);
        let q = a / b;
        lemma_fundamental_div_mod(a, b);
        assert(v * a + (u - v * q) * b == g) by (nonlinear_arith)
            requires
                u * b + v * (a % b) == g,
                a == b * q + a % b,
        ;
        lemma_multiple_stays_multiple(b, q, g);
        lemma_add_mod_noop(b * q, a % b, g);
        lemma_small_mod(0, g as nat);
        (g, v, u - v * q)
    }
}

/// A number that has a combination with the modulus equal to one is a unit.
pub proof fn lemma_combination_is_unit(x: int, m: int, u: int, v: int)
    requires
        m > 1,
        u * x + v * m == 1,
    ensures
        is_unit(x, m),
{
    let y = u % m;
    lemma_mod_bound(u, m);
    lemma_mul_mod_noop_right(x, u, m);
    assert(x * u - 1 == (-v) * m) by (nonlinear_arith)
        requires
            u * x + v * m == 1,
    ;
    lemma_congruent_by_multiple(x * u, 1, -v, m);
    lemma_small_mod(1, m as nat);
    assert(is_inverse_of(y, x, m));
}

/// Every number is a unit or shares a divisor greater than one with the modulus.
pub proof fn lemma_unit_or_shared_divisor(x: int, m: int) -> (g: int)
    requires
        m > 1,
        x >= 0,
    ensures
        g >= 1,
        common_divisor(g, x, m),
        g == 1 ==> is_unit(x, m),
{
    let (g, u, v) = lemma_bezout(x, m);
    if g == 1 {
        lemma_combination_is_unit(x, m, u, v);
    }
    g
}

/// A prime divides a number or is a unit modulo that number.
pub proof fn lemma_prime_divides_or_is_unit(q: int, c: int)
    requires
        is_prime(q),
        c > 1,
    ensures
        c % q == 0 || is_unit(q, c),
{
    let g = lemma_unit_or_shared_divisor(q, c);
    if g != 1 {
        if g > q {
            lemma_small_mod(q as nat, g as nat);
        }
        assert(g == q);
    }
}

/// The product of two units is a unit.
pub proof fn lemma_unit_product(a: int, b: int, m: int)
    requires
        m > 1,
        is_unit(a, m),
        is_unit(b, m),
    ensures
        is_unit(a * b, m),
{
    lemma_inverse_of_unit(a, m);
    lemma_inverse_of_unit(b, m);
    let ya = inverse(a, m);
    let yb = inverse(b, m);
    let y = (ya * yb) % m;
    lemma_mod_bound(ya * yb, m);
    lemma_mul_mod_noop_right(a * b, ya * yb, m);
    lemma_small_mod(1, m as nat);
    lemma_mul_congruent(a * ya, b * yb, 1, 1, m);
    assert((a * b) * (ya * yb) == (a * ya) * (b * yb)) by (nonlinear_arith);
    assert(1 * 1 == 1);
    lemma_small_mod(1, m as nat);
    assert(is_inverse_of(y, a * b, m));
}

/// One is a unit.
pub proof fn lemma_one_is_unit(m: int)
    requires
        m > 1,
    ensures
        is_unit(1, m),
{
    assert(1 * 1 == 1);
    lemma_small_mod(1, m as nat);
    assert(is_inverse_of(1, 1, m));
}

/// Every power of a unit is a unit.
pub proof fn lemma_unit_power(a: int, e: nat, m: int)
    requires
        m > 1,
        is_unit(a, m),
    ensures
        is_unit(pow(a, e), m),
    decreases e,
{
    reveal(pow);
    if e == 0 {
        lemma_one_is_unit(m);
    } else {
        lemma_unit_power(a, (e - 1) as nat, m);
        lemma_unit_product(a, pow(a, (e - 1) as nat), m);
    }
}

/// A product of powers of units is a unit.
pub proof fn lemma_factored_unit(factors: Seq<(int, nat)>, m: int)
    requires
        m > 1,
        forall|i: int| 0 <= i < factors.len() ==> is_unit((#[trigger] factors[i]).0, m),
    ensures
        is_unit(factored(factors), m),
    decreases factors.len(),
{
    if factors.len() == 0 {
        lemma_one_is_unit(m);
    } else {
        let rest = factors.drop_last();
        assert forall|i: int| 0 <= i < rest.len() implies is_unit((#[trigger] rest[i]).0, m) by {
            assert(rest[i] == factors[i]);
        }
        lemma_factored_unit(rest, m);
        assert(is_unit(factors[factors.len() - 1].0, m));
        lemma_unit_power(factors.last().0, factors.last().1, m);
        lemma_unit_product(pow(factors.last().0, factors.last().1), factored(rest), m);
    }
}

/// A divisor greater than one of a factored number is divisible by one of the primes
/// of the factorization.
pub proof fn lemma_divisor_meets_prime(n: int, factors: Seq<(int, nat)>, c: int) -> (i: int)
    requires
        n == factored(factors),
        all_prime(factors),
        c > 1,
        n % c == 0,
    ensures
        0 <= i < factors.len(),
        c % factors[i].0 == 0,
{
    if forall|i: int| 0 <= i < factors.len() ==> c % (#[trigger] factors[i]).0 != 0 {
        assert forall|i: int| 0 <= i < factors.len() implies is_unit(
            (#[trigger] factors[i]).0,
            c,
        ) by {
            lemma_prime_divides_or_is_unit(factors[i].0, c);
        }
        lemma_factored_unit(factors, c);
        lemma_zero_is_no_unit(n, c);
        assert(false);
    }
    choose|i: int| 0 <= i < factors.len() && c % (#[trigger] factors[i]).0 == 0
}

/// Powers of an element congruent to one are congruent to one.
pub proof fn lemma_pow_of_one(x: int, e: nat, m: int)
    requires
        m > 1,
        x % m == 1,
    ensures
        pow(x, e) % m == 1,
{
    lemma_pow_mod_noop(x, e, m);
    lemma1_pow(e);
    lemma_small_mod(1, m as nat);
}

/// If `a * d` is `e` more than `b * n`, and `g` raised to `d` and to `n` is one, then
/// `g` raised to `e` is one.
proof fn lemma_pow_combination(g: int, m: int, d: nat, n: nat, a: nat, b: nat, e: nat)
    requires
        m > 1,
        pow(g, d) % m == 1,
        pow(g, n) % m == 1,
        a * d == e + b * n,
    ensures
        pow(g, e) % m == 1,
{
    lemma_pow_multiplies(g, d, a);
    lemma_pow_multiplies(g, n, b);
    lemma_pow_of_one(pow(g, d), a, m);
    lemma_pow_of_one(pow(g, n), b, m);
    lemma_pow_adds(g, e, b * n);
    assert(d * a == a * d && n * b == b * n) by (nonlinear_arith);
    let x = pow(g, e);
    let y = pow(g, b * n);
    assert((x * y) % m == 1);
    lemma_mul_mod_noop_right(x, y, m);
    assert(x * 1 == x);
}

/// An element with an order certificate has no smaller positive exponent that gives
/// one.
pub proof fn lemma_order_is_full(n: int, g: int, factors: Seq<(int, nat)>, d: int)
    requires
        is_order_certificate(n, g, factors),
        0 < d < n - 1,
    ensures
        pow(g, d as nat) % n != 1,
{
    let big = n - 1;
    if pow(g, d as nat) % n == 1 {
        let (e, u, v) = lemma_bezout(d, big);
        assert(e <= d) by {
            if e > d {
                lemma_small_mod(d as nat, e as nat);
            }
        }
        if v <= 0 {
            assert(u >= 0) by (nonlinear_arith)
                requires
                    u * d + v * big == e,
                    v <= 0,
                    e > 0,
                    d > 0,
                    big > 0,
            ;
            assert(u * d == e + (-v) * big) by (nonlinear_arith)
                requires
                    u * d + v * big == e,
            ;
            lemma_pow_combination(g, n, d as nat, big as nat, u as nat, (-v) as nat, e as nat);
        } else {
            assert(u <= 0) by (nonlinear_arith)
                requires
                    u * d + v * big == e,
                    v >= 1,
                    e <= d,
                    d > 0,
                    big > d,
            ;
            assert(v * big == e + (-u) * d) by (nonlinear_arith)
                requires
                    u * d + v * big == e,
            ;
            lemma_pow_combination(g, n, big as nat, d as nat, v as nat, (-u) as nat, e as nat);
        }
        assert(pow(g, e as nat) % n == 1);
        let c = big / e;
        lemma_fundamental_div_mod(big, e);
        assert(big == e * c);
        assert(c > 1) by (nonlinear_arith)
            requires
                big == e * c,
                0 < e < big,
        ;
        lemma_mod_self_0(c);
        lemma_multiple_stays_multiple(c, e, c);
        assert(big % c == 0);
        let i = lemma_divisor_meets_prime(big, factors, c);
        let q = factors[i].0;
        assert(q >= 2);
        let k = c / q;
        lemma_fundamental_div_mod(c, q);
        assert(big == q * (e * k)) by (nonlinear_arith)
            requires
                big == e * c,
                c == q * k,
        ;
        assert(k >= 1) by (nonlinear_arith)
            requires
                c == q * k,
                c > 1,
                q >= 2,
        ;
        lemma_fundamental_div_mod_converse(big, q, e * k, 0);
        assert(big / q == e * k);
        lemma_pow_multiplies(g, e as nat, k as nat);
        lemma_pow_of_one(pow(g, e as nat), k as nat, n);
        assert(pow(g, (big / q) as nat) % n == 1);
        assert(false);
    }
}

/// The residue of the `k`-th power of `g`.
pub open spec fn power_residue(g: int, n: int) -> spec_fn(int) -> int {
    |k: int| pow(g, k as nat) % n
}

/// An element whose power is one is a unit.
pub proof fn lemma_root_of_one_is_unit(g: int, e: nat, m: int)
    requires
        m > 1,
        e >= 1,
        pow(g, e) % m == 1,
    ensures
        is_unit(g, m),
{
    reveal(pow);
    let y = pow(g, (e - 1) as nat) % m;
    lemma_mod_bound(pow(g, (e - 1) as nat), m);
    lemma_mul_mod_noop_right(g, pow(g, (e - 1) as nat), m);
    assert(is_inverse_of(y, g, m));
}

/// A unit can be cancelled from a congruence.
pub proof fn lemma_unit_cancels(a: int, x: int, y: int, m: int)
    requires
        m > 1,
        is_unit(a, m),
        (a * x) % m == (a * y) % m,
    ensures
        x % m == y % m,
{
    lemma_inverse_of_unit(a, m);
    let b = inverse(a, m);
    lemma_mul_congruent(b, a * x, b, a * y, m);
    assert(b * (a * x) == (a * b) * x && b * (a * y) == (a * b) * y) by (nonlinear_arith);
    lemma_small_mod(1, m as nat);
    lemma_mul_congruent(a * b, x, 1, x, m);
    lemma_mul_congruent(a * b, y, 1, y, m);
    assert(1 * x == x && 1 * y == y);
}

/// The powers of an element of full order, below the order, have distinct residues.
pub proof fn lemma_powers_are_distinct(n: int, g: int, factors: Seq<(int, nat)>, i: int, j: int)
    requires
        is_order_certificate(n, g, factors),
        0 <= i < j < n - 1,
    ensures
        pow(g, i as nat) % n != pow(g, j as nat) % n,
{
    if pow(g, i as nat) % n == pow(g, j as nat) % n {
        let a = pow(g, i as nat);
        let x = pow(g, (j - i) as nat);
        lemma_pow_adds(g, i as nat, (j - i) as nat);
        lemma_root_of_one_is_unit(g, (n - 1) as nat, n);
        lemma_unit_power(g, i as nat, n);
        assert(a * 1 == a);
        lemma_unit_cancels(a, x, 1, n);
        lemma_small_mod(1, n as nat);
        lemma_order_is_full(n, g, factors, j - i);
    }
}

/// The residue of a power of an element whose `n - 1`-st power is one is a unit, and
/// its own `n - 1`-st power is one.
proof fn lemma_power_residue(g: int, k: int, n: int, x: int)
    requires
        n > 2,
        k >= 0,
        pow(g, (n - 1) as nat) % n == 1,
        x == pow(g, k as nat) % n,
    ensures
        is_unit(x, n),
        pow(x, (n - 1) as nat) % n == 1,
{
    let p = pow(g, k as nat);
    lemma_root_of_one_is_unit(g, (n - 1) as nat, n);
    lemma_unit_power(g, k as nat, n);
    lemma_inverse_of_unit(p, n);
    let y = inverse(p, n);
    lemma_mul_mod_noop_left(p, y, n);
    lemma_mod_bound(p, n);
    assert(is_inverse_of(y, x, n));
    lemma_pow_mod_noop(p, (n - 1) as nat, n);
    lemma_pow_multiplies(g, k as nat, (n - 1) as nat);
    lemma_pow_multiplies(g, (n - 1) as nat, k as nat);
    assert(k * (n - 1) == (n - 1) * k) by (nonlinear_arith);
    lemma_pow_of_one(pow(g, (n - 1) as nat), k as nat, n);
}

/// The conclusion of the test. Where some element has an order certificate modulo
/// `n`, every residue from one to `n - 1` is a power of that element; so each of
/// them, raised to `n - 1`, is one, each of them is a unit, and `n` is prime.
pub proof fn lemma_order_certificate_proves_prime(n: int, g: int, factors: Seq<(int, nat)>)
    requires
        is_order_certificate(n, g, factors),
    ensures
        is_prime(n),
        forall|x: int| 0 < x < n ==> #[trigger] is_unit(x, n),
        forall|x: int| 0 < x < n ==> #[trigger] pow(x, (n - 1) as nat) % n == 1,
{
    let f = power_residue(g, n);
    let exponents = set_int_range(0, n - 1);
    let residues = set_int_range(1, n);
    let image = exponents.map(f);
    lemma_int_range(0, n - 1);
    lemma_int_range(1, n);
    lemma_root_of_one_is_unit(g, (n - 1) as nat, n);
    assert(injective_on(f, exponents)) by {
        assert forall|i: int, j: int|
            exponents.contains(i) && exponents.contains(j) && #[trigger] f(i) == #[trigger] f(
                j,
            ) implies i == j by {
            if i < j {
                lemma_powers_are_distinct(n, g, factors, i, j);
            } else if j < i {
                lemma_powers_are_distinct(n, g, factors, j, i);
            }
        }
    }
    lemma_map_size(exponents, image, f);
    assert(image.subset_of(residues)) by {
        assert forall|r: int| image.contains(r) implies residues.contains(r) by {
            let k = choose|k: int| exponents.contains(k) && r == f(k);
            lemma_mod_bound(pow(g, k as nat), n);
            lemma_unit_power(g, k as nat, n);
            if r == 0 {
                lemma_zero_is_no_unit(pow(g, k as nat), n);
            }
        }
    }
    lemma_subset_equality(image, residues);
    assert forall|x: int| 0 < x < n implies #[trigger] is_unit(x, n) by {
        assert(residues.contains(x));
        assert(image.contains(x));
        let k = choose|k: int| exponents.contains(k) && x == f(k);
        lemma_power_residue(g, k, n, x);
    }
    assert forall|x: int| 0 < x < n implies #[trigger] pow(x, (n - 1) as nat) % n == 1 by {
        assert(residues.contains(x));
        assert(image.contains(x));
        let k = choose|k: int| exponents.contains(k) && x == f(k);
        lemma_power_residue(g, k, n, x);
    }
    assert forall|d: int| 1 < d < n implies #[trigger] (n % d) != 0 by {
        if n % d == 0 {
            lemma_mod_self_0(d);
            lemma_shared_divisor_is_no_unit(d, d, n);
            assert(is_unit(d, n));
        }
    }
}

} // verus!
