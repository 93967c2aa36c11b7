//! Arithmetic modulo a positive integer: the vocabulary in which the contracts of the
//! two concrete fields are stated, and the lemmas that their proofs share.
use vstd::arithmetic::div_mod::*;
use vstd::arithmetic::mul::*;
use vstd::arithmetic::power::*;
use vstd::prelude::*;

verus! {

/// The sum of `a` and `b` modulo `m`.
pub open spec fn add_mod(a: int, b: int, m: int) -> int {
    (a + b) % m
}

/// The difference of `a` and `b` modulo `m`, as the residue in `[0, m)`.
pub open spec fn sub_mod(a: int, b: int, m: int) -> int {
    (a - b) % m
}

/// The product of `a` and `b` modulo `m`.
pub open spec fn mul_mod(a: int, b: int, m: int) -> int {
    (a * b) % m
}

/// `b` raised to `e`, modulo `m`.
pub open spec fn pow_mod(b: int, e: nat, m: int) -> int {
    pow(b, e) % m
}

/// `y` is the residue in `[0, m)` whose product with `x` is congruent to one.
pub open spec fn is_inverse_of(y: int, x: int, m: int) -> bool {
    0 <= y < m && (x * y) % m == 1
}

/// `x` has a multiplicative inverse modulo `m`.
pub open spec fn is_unit(x: int, m: int) -> bool {
    exists|y: int| is_inverse_of(y, x, m)
}

/// The multiplicative inverse of `x` modulo `m` where there is one, and zero where
/// there is none.
pub open spec fn inverse(x: int, m: int) -> int {
    if is_unit(x, m) {
        choose|y: int| is_inverse_of(y, x, m)
    } else {
        0
    }
}

/// `w` is a principal root of unity of even order `n` modulo `m`: raised to half its
/// order it gives minus one, so that its `n` powers are pairwise distinct.
pub open spec fn is_principal_root(w: int, n: nat, m: int) -> bool {
    n >= 2 && n % 2 == 0 && pow(w, n / 2) % m == m - 1
}

/// `d` divides both `a` and `b`.
pub open spec fn common_divisor(d: int, a: int, b: int) -> bool {
    d > 0 && a % d == 0 && b % d == 0
}

/// Two integers whose difference is a multiple of `m` leave the same remainder.
pub proof fn lemma_congruent_by_multiple(x: int, y: int, k: int, m: int)
    requires
        m > 0,
        x - y == k * m,
    ensures
        x % m == y % m,
{
    lemma_mod_multiples_vanish(k, y, m);
    assert(m * k + y == x) by (nonlinear_arith)
        requires
            x - y == k * m,
    ;
}

/// Two integers that leave the same remainder differ by a multiple of `m`.
pub proof fn lemma_multiple_of_congruent(x: int, y: int, m: int) -> (k: int)
    requires
        m > 0,
        x % m == y % m,
    ensures
        x - y == k * m,
{
    lemma_fundamental_div_mod(x, m);
    lemma_fundamental_div_mod(y, m);
    let k = x / m - y / m;
    assert(x - y == k * m) by (nonlinear_arith)
        requires
            x == m * (x / m) + x % m,
            y == m * (y / m) + y % m,
            x % m == y % m,
            k == x / m - y / m,
    ;
    k
}

/// Congruent factors give congruent products.
pub proof fn lemma_mul_congruent(a: int, b: int, c: int, d: int, m: int)
    requires
        m > 0,
        a % m == c % m,
        b % m == d % m,
    ensures
        (a * b) % m == (c * d) % m,
{
    lemma_mul_mod_noop(a, b, m);
    lemma_mul_mod_noop(c, d, m);
}

/// Congruent terms give congruent sums.
pub proof fn lemma_add_congruent(a: int, b: int, c: int, d: int, m: int)
    requires
        m > 0,
        a % m == c % m,
        b % m == d % m,
    ensures
        (a + b) % m == (c + d) % m,
{
    lemma_add_mod_noop(a, b, m);
    lemma_add_mod_noop(c, d, m);
}

/// Congruent terms give congruent differences.
pub proof fn lemma_sub_congruent(a: int, b: int, c: int, d: int, m: int)
    requires
        m > 0,
        a % m == c % m,
        b % m == d % m,
    ensures
        (a - b) % m == (c - d) % m,
{
    lemma_sub_mod_noop(a, b, m);
    lemma_sub_mod_noop(c, d, m);
}

/// A multiple of `g` times anything is a multiple of `g`.
pub proof fn lemma_multiple_stays_multiple(x: int, y: int, g: int)
    requires
        g > 0,
        x % g == 0,
    ensures
        (x * y) % g == 0,
        (y * x) % g == 0,
{
    lemma_fundamental_div_mod(x, g);
    let k = (x / g) * y;
    assert(x * y - 0 == k * g && y * x == x * y) by (nonlinear_arith)
        requires
            x == g * (x / g) + x % g,
            x % g == 0,
            k == (x / g) * y,
    ;
    lemma_congruent_by_multiple(x * y, 0, k, g);
}

/// A residue has at most one inverse.
pub proof fn lemma_inverse_unique(x: int, y: int, z: int, m: int)
    requires
        m > 1,
        is_inverse_of(y, x, m),
        is_inverse_of(z, x, m),
    ensures
        y == z,
{
    lemma_mul_mod_noop_right(y, x * z, m);
    lemma_mul_mod_noop_right(z, x * y, m);
    assert(y * (x * z) == z * (x * y)) by (nonlinear_arith);
    assert(y * 1 == y && z * 1 == z);
    lemma_small_mod(y as nat, m as nat);
    lemma_small_mod(z as nat, m as nat);
}

/// Whoever exhibits an inverse of `x` knows the value of `inverse(x, m)`.
pub proof fn lemma_inverse_is(x: int, y: int, m: int)
    requires
        m > 1,
        is_inverse_of(y, x, m),
    ensures
        is_unit(x, m),
        inverse(x, m) == y,
{
    let z = choose|z: int| is_inverse_of(z, x, m);
    lemma_inverse_unique(x, y, z, m);
}

/// The inverse of a unit is what its name says.
pub proof fn lemma_inverse_of_unit(x: int, m: int)
    requires
        m > 1,
        is_unit(x, m),
    ensures
        0 <= inverse(x, m) < m,
        (x * inverse(x, m)) % m == 1,
{
}

/// A residue that shares a divisor greater than one with the modulus has no inverse.
pub proof fn lemma_shared_divisor_is_no_unit(x: int, g: int, m: int)
    requires
        m > 1,
        g > 1,
        common_divisor(g, x, m),
    ensures
        !is_unit(x, m),
{
    if is_unit(x, m) {
        let y = choose|y: int| is_inverse_of(y, x, m);
        let k = (x * y) / m;
        lemma_fundamental_div_mod(x * y, m);
        assert(x * y == m * k + 1);
        lemma_multiple_stays_multiple(x, y, g);
        lemma_multiple_stays_multiple(m, k, g);
        lemma_fundamental_div_mod(m * k, g);
        assert(x * y - 1 == ((m * k) / g) * g) by (nonlinear_arith)
            requires
                x * y == m * k + 1,
                m * k == g * ((m * k) / g) + (m * k) % g,
                (m * k) % g == 0,
        ;
        lemma_congruent_by_multiple(x * y, 1, (m * k) / g, g);
        lemma_small_mod(1, g as nat);
        assert(false);
    }
}

/// A divisor of the modulus that divides `a` divides everything congruent to `a`.
pub proof fn lemma_multiple_shares_divisor(x: int, a: int, g: int, m: int)
    requires
        m > 0,
        a == x % m,
        common_divisor(g, m, a),
    ensures
        common_divisor(g, x, m),
{
    lemma_fundamental_div_mod(x, m);
    lemma_multiple_stays_multiple(m, x / m, g);
    lemma_add_mod_noop(m * (x / m), a, g);
    lemma_small_mod(0, g as nat);
}

/// Zero is no unit.
pub proof fn lemma_zero_is_no_unit(x: int, m: int)
    requires
        m > 1,
        x % m == 0,
    ensures
        !is_unit(x, m),
        inverse(x, m) == 0,
{
    if is_unit(x, m) {
        let y = choose|y: int| is_inverse_of(y, x, m);
        lemma_mul_mod_noop_left(x, y, m);
        assert((x % m) * y == 0);
        assert(false);
    }
}

/// A divisor of a remainder pair also divides the pair that the division started from.
pub proof fn lemma_common_divisor_unwinds(d: int, r0: int, r1: int, q: int)
    requires
        common_divisor(d, r1, r0 - q * r1),
    ensures
        common_divisor(d, r0, r1),
{
    lemma_multiple_stays_multiple(r1, q, d);
    lemma_add_mod_noop(q * r1, r0 - q * r1, d);
    assert(q * r1 + (r0 - q * r1) == r0);
    lemma_small_mod(0, d as nat);
}

/// One step of the extended Euclidean algorithm keeps the cofactor congruence:
/// if `t0 * a` is congruent to `r0` and `t1 * a` to `r1`, then a residue `t2`
/// congruent to `t0 - q * t1` has `t2 * a` congruent to `r0 - q * r1`.
pub proof fn lemma_cofactor_step(a: int, m: int, r0: int, r1: int, t0: int, t1: int, q: int, t2: int)
    requires
        m > 0,
        (t0 * a) % m == r0 % m,
        (t1 * a) % m == r1 % m,
        t2 % m == (t0 - q * t1) % m,
    ensures
        (t2 * a) % m == (r0 - q * r1) % m,
{
    let k0 = lemma_multiple_of_congruent(t0 * a, r0, m);
    let k1 = lemma_multiple_of_congruent(t1 * a, r1, m);
    let k2 = lemma_multiple_of_congruent(t2, t0 - q * t1, m);
    let k = k0 - q * k1 + k2 * a;
    assert(t2 * a - (r0 - q * r1) == k * m) by (nonlinear_arith)
        requires
            t0 * a - r0 == k0 * m,
            t1 * a - r1 == k1 * m,
            t2 - (t0 - q * t1) == k2 * m,
            k == k0 - q * k1 + k2 * a,
    ;
    lemma_congruent_by_multiple(t2 * a, r0 - q * r1, k, m);
}

/// One round of double-and-add keeps `acc + x * y` in its residue class.
pub proof fn lemma_double_and_add(acc: int, x: int, y: int, m: int, acc2: int, x2: int)
    requires
        m > 0,
        y >= 0,
        x2 % m == (x + x) % m,
        acc2 % m == (if y % 2 == 1 { acc + x } else { acc }) % m,
    ensures
        (acc2 + x2 * (y / 2)) % m == (acc + x * y) % m,
{
    let h = y / 2;
    let bit = y % 2;
    let k1 = lemma_multiple_of_congruent(x2, x + x, m);
    let k2 = lemma_multiple_of_congruent(acc2, if bit == 1 { acc + x } else { acc }, m);
    let k = k2 + k1 * h;
    assert(acc2 + x2 * h - (acc + x * y) == k * m) by (nonlinear_arith)
        requires
            x2 - (x + x) == k1 * m,
            acc2 - (if bit == 1 { acc + x } else { acc }) == k2 * m,
            y == 2 * h + bit,
            bit == 0 || bit == 1,
            k == k2 + k1 * h,
    ;
    lemma_congruent_by_multiple(acc2 + x2 * h, acc + x * y, k, m);
}

/// Squaring the base halves an even exponent.
pub proof fn lemma_pow_square(b: int, e: nat)
    ensures
        pow(b * b, e) == pow(b, 2 * e),
{
    lemma_square_is_pow2(b);
    lemma_pow_multiplies(b, 2, e);
}

/// An odd exponent gives one more factor of the base.
pub proof fn lemma_pow_succ(b: int, e: nat)
    ensures
        pow(b, e + 1) == b * pow(b, e),
{
    reveal(pow);
}

/// One round of square-and-multiply keeps `acc * base^e` in its residue class.
pub proof fn lemma_square_and_multiply(acc: int, base: int, e: nat, m: int, acc2: int, base2: int)
    requires
        m > 0,
        base2 % m == (base * base) % m,
        acc2 % m == (if e % 2 == 1 { acc * base } else { acc }) % m,
    ensures
        (acc2 * pow(base2, e / 2)) % m == (acc * pow(base, e)) % m,
{
    let h = e / 2;
    lemma_pow_mod_noop(base2, h, m);
    lemma_pow_mod_noop(base * base, h, m);
    lemma_pow_square(base, h);
    assert(pow(base2, h) % m == pow(base, 2 * h) % m);
    if e % 2 == 1 {
        lemma_pow_succ(base, 2 * h);
        assert(e == 2 * h + 1);
        lemma_mul_congruent(acc2, pow(base2, h), acc * base, pow(base, 2 * h), m);
        assert((acc * base) * pow(base, 2 * h) == acc * (base * pow(base, 2 * h))) by (nonlinear_arith);
    } else {
        assert(e == 2 * h);
        lemma_mul_congruent(acc2, pow(base2, h), acc, pow(base, 2 * h), m);
    }
}

} // verus!
