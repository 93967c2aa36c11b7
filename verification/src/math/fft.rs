//! The fast Fourier transform over the 64-bit field, in both directions: from the
//! coefficients of a polynomial to its values on the powers of a root of unity, and
//! from such values back to coefficients.
use crate::math::field64::{lemma_field, F64};
use crate::math::modular::{
    inverse, is_principal_root, is_unit, lemma_add_congruent, lemma_congruent_by_multiple,
    lemma_inverse_is, lemma_inverse_of_unit, lemma_mul_congruent,
    lemma_multiple_of_congruent, lemma_sub_congruent,
};
use crate::math::polynom::{
    evens, interleave, lemma_interleave_parts, lemma_value_congruent, lemma_value_split,
    odds, value,
};
use vstd::arithmetic::div_mod::*;
use vstd::arithmetic::power2::*;
use vstd::arithmetic::power::*;
use vstd::prelude::*;

verus! {

/// `n` is a power of two.
pub open spec fn is_power_of_two(n: nat) -> bool
    decreases n,
{
    n == 1 || (n >= 2 && n % 2 == 0 && is_power_of_two(n / 2))
}

/// Every power of two, as the exponent form has it, is a power of two.
pub proof fn lemma_pow2_is_power_of_two(k: nat)
    ensures
        is_power_of_two(pow2(k)),
    decreases k,
{
    lemma2_to64();
    if k > 0 {
        lemma_pow2_unfold(k);
        lemma_pow2_pos((k - 1) as nat);
        lemma_pow2_is_power_of_two((k - 1) as nat);
    }
}

/// The root of unity whose powers a table of twiddles holds: its second entry, or
/// minus one where it has one entry only.
pub open spec fn table_root(twiddles: Seq<u64>) -> int {
    if twiddles.len() >= 2 {
        twiddles[1] as int
    } else {
        F64::modulus() - 1
    }
}

/// `twiddles` is the table for a domain of twice its length: the length is a power
/// of two, the entries are the powers of one root, in order and reduced, and the
/// root is a principal root of unity of the order of the domain.
pub open spec fn is_twiddle_table(twiddles: Seq<u64>) -> bool {
    &&& is_power_of_two(twiddles.len())
    &&& is_principal_root(table_root(twiddles), 2 * twiddles.len(), F64::modulus())
    &&& forall|i: int|
        0 <= i < twiddles.len() ==> #[trigger] twiddles[i] == pow(table_root(twiddles), i as nat)
            % F64::modulus()
}

/// Every entry is the canonical representative of its residue class.
pub open spec fn all_canonical(p: Seq<u64>) -> bool {
    forall|i: int| 0 <= i < p.len() ==> F64::is_canonical(#[trigger] p[i])
}

/// `out` holds the values of the polynomial `p` on the first `out.len()` powers of
/// `root`, reduced.
pub open spec fn is_evaluation(out: Seq<u64>, p: Seq<u64>, root: int) -> bool {
    forall|i: int|
        0 <= i < out.len() ==> #[trigger] out[i] == value(p, pow(root, i as nat)) % F64::modulus()
}

/// The polynomial `p` takes the values `v` on the first `v.len()` powers of `root`.
pub open spec fn is_interpolation(p: Seq<u64>, v: Seq<u64>, root: int) -> bool {
    forall|i: int|
        0 <= i < v.len() ==> value(p, pow(root, i as nat)) % F64::modulus() == (#[trigger] v[i])
            % (F64::modulus() as u64)
}

/// `p` is the inverse transform of `v`: its `k`-th entry is `scale` times the value
/// of `v`, read as a polynomial, at the `k`-th power of `inv_root`, reduced. With
/// the inverse of the length of `v` for `scale` and the inverse of a root of unity
/// for `inv_root`, these are the coefficients of the polynomial that takes the
/// values `v` on the powers of that root.
pub open spec fn is_inverse_transform(p: Seq<u64>, v: Seq<u64>, inv_root: int, scale: int) -> bool {
    forall|k: int|
        0 <= k < p.len() ==> #[trigger] p[k] == (scale * value(v, pow(inv_root, k as nat)))
            % F64::modulus()
}

/// The square of a power is the power of the square.
proof fn lemma_pow_of_square(root: int, i: nat)
    ensures
        pow(root * root, i) == pow(root, i) * pow(root, i),
        pow(root * root, i) == pow(root, 2 * i),
{
    lemma_pow_distributes(root, root, i);
    lemma_pow_adds(root, i, i);
}

/// Half a period further on, a principal root of unity has changed its sign, and its
/// square has come back.
proof fn lemma_opposite_point(root: int, i: nat, half: nat, m: int)
    requires
        m > 1,
        pow(root, half) % m == m - 1,
    ensures
        (pow(root, i + half) + pow(root, i)) % m == 0,
        (pow(root, i + half) * pow(root, i + half)) % m == (pow(root, i) * pow(root, i)) % m,
{
    let x = pow(root, i);
    let y = pow(root, i + half);
    let h = pow(root, half);
    lemma_pow_adds(root, i, half);
    lemma_fundamental_div_mod(h, m);
    let q = h / m;
    assert(y + x - 0 == (x * (q + 1)) * m) by (nonlinear_arith)
        requires
            y == x * h,
            h == m * q + (m - 1),
    ;
    lemma_congruent_by_multiple(y + x, 0, x * (q + 1), m);
    lemma_small_mod(0, m as nat);
    let k = x * (q + 1);
    assert(y * y - x * x == (k * (y - x)) * m) by (nonlinear_arith)
        requires
            y + x == k * m,
    ;
    lemma_congruent_by_multiple(y * y, x * x, k * (y - x), m);
}

/// The forward butterfly: from the values of the even and of the odd part at the
/// square of a point to the value of the whole at the point and at its opposite.
proof fn lemma_butterfly(big_e: int, big_o: int, e: int, o: int, t: int, x: int, m: int)
    requires
        m > 0,
        e % m == big_e % m,
        o % m == big_o % m,
        t % m == x % m,
    ensures
        (e + (t * o) % m) % m == (big_e + x * big_o) % m,
        (e - (t * o) % m) % m == (big_e - x * big_o) % m,
{
    lemma_mul_congruent(t, o, x, big_o, m);
    lemma_mod_twice(t * o, m);
    lemma_add_congruent(e, (t * o) % m, big_e, x * big_o, m);
    lemma_sub_congruent(e, (t * o) % m, big_e, x * big_o, m);
}

/// The value of a polynomial at a point of the domain and at the opposite point, from
/// the values of its two parts at the square.
proof fn lemma_forward_point(p: Seq<u64>, root: int, i: nat, half: nat, e: int, o: int, t: int)
    requires
        pow(root, half) % F64::modulus() == F64::modulus() - 1,
        e % F64::modulus() == value(evens(p), pow(root * root, i)) % F64::modulus(),
        o % F64::modulus() == value(odds(p), pow(root * root, i)) % F64::modulus(),
        t % F64::modulus() == pow(root, i) % F64::modulus(),
    ensures
        (e + (t * o) % F64::modulus()) % F64::modulus() == value(p, pow(root, i)) % F64::modulus(),
        (e - (t * o) % F64::modulus()) % F64::modulus() == value(p, pow(root, i + half))
            % F64::modulus(),
{
    let m = F64::modulus();
    let x = pow(root, i);
    let y = pow(root, i + half);
    let big_e = value(evens(p), x * x);
    let big_o = value(odds(p), x * x);
    lemma_pow_of_square(root, i);
    lemma_value_split(p, x);
    lemma_value_split(p, y);
    lemma_butterfly(big_e, big_o, e, o, t, x, m);
    lemma_opposite_point(root, i, half, m);
    lemma_value_congruent(evens(p), y * y, x * x, m);
    lemma_value_congruent(odds(p), y * y, x * x, m);
    let k = lemma_multiple_of_congruent(y + x, 0, m);
    let big_o2 = value(odds(p), y * y);
    let j = lemma_multiple_of_congruent(big_o2, big_o, m);
    assert(y * big_o2 - (-(x * big_o)) == (k * big_o2 - x * j) * m) by (nonlinear_arith)
        requires
            y + x == k * m,
            big_o2 - big_o == j * m,
    ;
    lemma_congruent_by_multiple(y * big_o2, -(x * big_o), k * big_o2 - x * j, m);
    lemma_add_congruent(value(evens(p), y * y), y * big_o2, big_e, -(x * big_o), m);
}

/// The inverse butterfly: the values at a point and at its opposite, `v` and `w`,
/// come back from half their sum and half their difference divided by the point.
proof fn lemma_inverse_butterfly(
    v: int,
    w: int,
    big_e: int,
    big_o: int,
    x: int,
    it: int,
    h: int,
    m: int,
)
    requires
        m > 1,
        big_e % m == ((v + w) * h) % m,
        big_o % m == (((v - w) * h) * it) % m,
        (2 * h) % m == 1,
        (x * it) % m == 1,
    ensures
        (big_e + x * big_o) % m == v % m,
        (big_e - x * big_o) % m == w % m,
{
    let d = (v - w) * h;
    lemma_small_mod(1, m as nat);
    lemma_mul_congruent(x, big_o, x, d * it, m);
    assert(x * (d * it) == (x * it) * d) by (nonlinear_arith);
    lemma_mul_congruent(x * it, d, 1, d, m);
    assert(1 * d == d);
    assert((x * big_o) % m == d % m);
    lemma_add_congruent(big_e, x * big_o, (v + w) * h, d, m);
    lemma_sub_congruent(big_e, x * big_o, (v + w) * h, d, m);
    assert((v + w) * h + (v - w) * h == (2 * h) * v) by (nonlinear_arith);
    assert((v + w) * h - (v - w) * h == (2 * h) * w) by (nonlinear_arith);
    lemma_mul_congruent(2 * h, v, 1, v, m);
    lemma_mul_congruent(2 * h, w, 1, w, m);
    assert(1 * v == v && 1 * w == w);
}

/// The value of an interleaved polynomial at a point of the domain and at the
/// opposite point, when its two parts interpolate the halves of the sum and of the
/// scaled difference.
proof fn lemma_inverse_point(
    ce: Seq<u64>,
    co: Seq<u64>,
    root: int,
    i: nat,
    half: nat,
    v: int,
    w: int,
    e: int,
    o: int,
    it: int,
)
    requires
        ce.len() == co.len(),
        pow(root, half) % F64::modulus() == F64::modulus() - 1,
        value(ce, pow(root * root, i)) % F64::modulus() == e % F64::modulus(),
        value(co, pow(root * root, i)) % F64::modulus() == o % F64::modulus(),
        e % F64::modulus() == ((v + w) * F64::HALF) % F64::modulus(),
        o % F64::modulus() == (((v - w) * F64::HALF) * it) % F64::modulus(),
        (pow(root, i) * it) % F64::modulus() == 1,
    ensures
        value(interleave(ce, co), pow(root, i)) % F64::modulus() == v % F64::modulus(),
        value(interleave(ce, co), pow(root, i + half)) % F64::modulus() == w % F64::modulus(),
{
    let m = F64::modulus();
    let p = interleave(ce, co);
    let x = pow(root, i);
    let y = pow(root, i + half);
    let big_e = value(ce, x * x);
    let big_o = value(co, x * x);
    lemma_interleave_parts(ce, co);
    lemma_pow_of_square(root, i);
    lemma_value_split(p, x);
    lemma_value_split(p, y);
    lemma_fundamental_div_mod_converse(2 * F64::HALF, m, 1, 1);
    lemma_inverse_butterfly(v, w, big_e, big_o, x, it, F64::HALF as int, m);
    lemma_opposite_point(root, i, half, m);
    lemma_value_congruent(ce, y * y, x * x, m);
    lemma_value_congruent(co, y * y, x * x, m);
    let k = lemma_multiple_of_congruent(y + x, 0, m);
    let big_o2 = value(co, y * y);
    let j = lemma_multiple_of_congruent(big_o2, big_o, m);
    assert(y * big_o2 - (-(x * big_o)) == (k * big_o2 - x * j) * m) by (nonlinear_arith)
        requires
            y + x == k * m,
            big_o2 - big_o == j * m,
    ;
    lemma_congruent_by_multiple(y * big_o2, -(x * big_o), k * big_o2 - x * j, m);
    lemma_add_congruent(value(ce, y * y), y * big_o2, big_e, -(x * big_o), m);
}

/// A polynomial is its low half plus the argument raised to the length of that half,
/// times its high half.
proof fn lemma_value_halves(v: Seq<u64>, h: nat, x: int)
    requires
        h <= v.len(),
    ensures
        value(v, x) == value(v.take(h as int), x) + pow(x, h) * value(v.skip(h as int), x),
    decreases h,
{
    reveal(pow);
    if h == 0 {
        assert(v.take(0).len() == 0);
        assert(v.skip(0) =~= v);
        assert(1 * value(v, x) == value(v, x));
    } else {
        let tail = v.drop_first();
        lemma_value_halves(tail, (h - 1) as nat, x);
        assert(v.take(h as int).drop_first() =~= tail.take(h - 1));
        assert(v.skip(h as int) =~= tail.skip(h - 1));
        assert(v.take(h as int)[0] == v[0]);
        let a = value(tail.take(h - 1), x);
        let b = value(v.skip(h as int), x);
        let q = pow(x, (h - 1) as nat);
        assert(v[0] + x * (a + q * b) == (v[0] + x * a) + (x * q) * b) by (nonlinear_arith);
    }
}

/// The value of a combination of two polynomials whose `i`-th coefficient carries the
/// `i`-th power of `t`: where `s[i]` is congruent to `k * (lo[i] + sign * hi[i]) *
/// t^i`, the value of `s` at `y` is congruent to `k` times the value of `lo` plus
/// `sign` times the value of `hi`, both at `t * y`.
proof fn lemma_value_of_combination(
    s: Seq<u64>,
    lo: Seq<u64>,
    hi: Seq<u64>,
    k: int,
    sign: int,
    t: int,
    y: int,
    m: int,
)
    requires
        m > 0,
        sign == 1 || sign == -1,
        s.len() == lo.len(),
        s.len() == hi.len(),
        forall|i: int|
            0 <= i < s.len() ==> (#[trigger] s[i]) as int % m == ((k * (lo[i] + sign * hi[i]))
                * pow(t, i as nat)) % m,
    ensures
        value(s, y) % m == (k * (value(lo, t * y) + sign * value(hi, t * y))) % m,
    decreases s.len(),
{
    reveal(pow);
    if s.len() == 0 {
        assert(k * (0 + sign * 0) == 0) by (nonlinear_arith);
    } else {
        let s1 = s.drop_first();
        let lo1 = lo.drop_first();
        let hi1 = hi.drop_first();
        assert forall|i: int| 0 <= i < s1.len() implies (#[trigger] s1[i]) as int % m == (((k * t)
            * (lo1[i] + sign * hi1[i])) * pow(t, i as nat)) % m by {
            assert(s1[i] == s[i + 1]);
            let x = lo[i + 1] + sign * hi[i + 1];
            let p = pow(t, i as nat);
            assert((k * x) * (t * p) == ((k * t) * x) * p) by (nonlinear_arith);
        }
        lemma_value_of_combination(s1, lo1, hi1, k * t, sign, t, y, m);
        let a = value(lo1, t * y);
        let b = value(hi1, t * y);
        let inner = (k * t) * (a + sign * b);
        let head = k * (lo[0] + sign * hi[0]);
        assert(head * 1 == head);
        lemma_mul_congruent(y, value(s1, y), y, inner, m);
        lemma_add_congruent(s[0] as int, y * value(s1, y), head, y * inner, m);
        let u = t * y;
        let x = a + sign * b;
        assert(y * ((k * t) * x) == k * (u * x)) by (nonlinear_arith)
            requires
                u == t * y,
        ;
        assert(k * (lo[0] + sign * hi[0]) + k * (u * x) == k * ((lo[0] + u * a) + sign * (hi[0]
            + u * b))) by (nonlinear_arith)
            requires
                x == a + sign * b,
                sign == 1 || sign == -1,
        ;
    }
}

/// An odd power of an element congruent to minus one is congruent to minus one.
proof fn lemma_odd_power_of_minus_one(x: int, k: nat, m: int)
    requires
        m > 1,
        x % m == m - 1,
    ensures
        pow(x, 2 * k + 1) % m == m - 1,
{
    lemma_pow_adds(x, 2 * k, 1);
    lemma_pow1(x);
    lemma_pow_of_square(x, k);
    lemma_mul_mod_noop(x, x, m);
    assert((m - 1) * (m - 1) == (m - 2) * m + 1) by (nonlinear_arith);
    lemma_fundamental_div_mod_converse((m - 1) * (m - 1), m, m - 2, 1);
    lemma_pow_mod_noop(x * x, k, m);
    lemma1_pow(k);
    lemma_small_mod(1, m as nat);
    lemma_mul_mod_noop(pow(x, 2 * k), x, m);
    assert(1 * (m - 1) == m - 1);
    lemma_small_mod((m - 1) as nat, m as nat);
}

/// An entry of even index of the inverse transform: the entry of index `k` of the
/// inverse transform of the half sums, at half the scale.
proof fn lemma_inverse_entry_even(
    v: Seq<u64>,
    sums: Seq<u64>,
    inv_root: int,
    r2: int,
    scale: int,
    k: nat,
    c: int,
)
    requires
        v.len() == 2 * sums.len(),
        forall|i: int|
            0 <= i < sums.len() ==> (#[trigger] sums[i]) as int % F64::modulus() == ((v[i] + v[i
                + sums.len()]) * F64::HALF) % F64::modulus(),
        pow(inv_root, sums.len()) % F64::modulus() == F64::modulus() - 1,
        r2 % F64::modulus() == (inv_root * inv_root) % F64::modulus(),
        c % F64::modulus() == ((2 * scale) * value(sums, pow(r2, k))) % F64::modulus(),
    ensures
        c % F64::modulus() == (scale * value(v, pow(inv_root, 2 * k))) % F64::modulus(),
{
    let m = F64::modulus();
    let h = sums.len();
    let lo = v.take(h as int);
    let hi = v.skip(h as int);
    let y = pow(inv_root, 2 * k);
    lemma_pow_of_square(inv_root, k);
    lemma_pow_congruent(r2, inv_root * inv_root, k, m);
    lemma_value_congruent(sums, pow(r2, k), y, m);
    assert forall|i: int| 0 <= i < h implies (#[trigger] sums[i]) as int % m == ((F64::HALF * (lo[i]
        + 1 * hi[i])) * pow(1, i as nat)) % m by {
        lemma1_pow(i as nat);
        assert((F64::HALF * (lo[i] + 1 * hi[i])) * 1 == (v[i] + v[i + h]) * F64::HALF)
            by (nonlinear_arith)
            requires
                lo[i] == v[i],
                hi[i] == v[i + h],
        ;
    }
    lemma_value_of_combination(sums, lo, hi, F64::HALF as int, 1, 1, y, m);
    assert(1 * y == y);
    let l = value(lo, y);
    let r = value(hi, y);
    // c is congruent to 2 * scale * HALF * (l + r), and 2 * HALF to one
    lemma_mul_congruent(2 * scale, value(sums, pow(r2, k)), 2 * scale, F64::HALF * (l + 1 * r), m);
    assert((2 * scale) * (F64::HALF * (l + 1 * r)) == (2 * F64::HALF) * (scale * (l + r)))
        by (nonlinear_arith);
    lemma_fundamental_div_mod_converse(2 * F64::HALF, m, 1, 1);
    lemma_small_mod(1, m as nat);
    lemma_mul_congruent(2 * F64::HALF, scale * (l + r), 1, scale * (l + r), m);
    assert(1 * (scale * (l + r)) == scale * (l + r));
    // the value of v at y is congruent to l + r, since y to the h is congruent to one
    lemma_value_halves(v, h, y);
    lemma_pow_multiplies(inv_root, 2 * k, h);
    lemma_pow_multiplies(inv_root, h, 2 * k);
    assert((2 * k) * h == h * (2 * k)) by (nonlinear_arith);
    lemma_pow_multiplies(pow(inv_root, h), 2, k);
    lemma_square_is_pow2(pow(inv_root, h));
    lemma_mul_mod_noop(pow(inv_root, h), pow(inv_root, h), m);
    assert((m - 1) * (m - 1) == (m - 2) * m + 1) by (nonlinear_arith);
    lemma_fundamental_div_mod_converse((m - 1) * (m - 1), m, m - 2, 1);
    lemma_pow_mod_noop(pow(pow(inv_root, h), 2), k, m);
    lemma1_pow(k);
    assert(pow(y, h) % m == 1);
    lemma_mul_congruent(pow(y, h), r, 1, r, m);
    assert(1 * r == r);
    lemma_add_congruent(l, pow(y, h) * r, l, r, m);
    lemma_mul_congruent(scale, value(v, y), scale, l + r, m);
}

/// An entry of odd index of the inverse transform: the entry of index `k` of the
/// inverse transform of the twisted half differences, at half the scale.
proof fn lemma_inverse_entry_odd(
    v: Seq<u64>,
    differences: Seq<u64>,
    inv_twiddles: Seq<u64>,
    inv_root: int,
    r2: int,
    scale: int,
    k: nat,
    c: int,
)
    requires
        v.len() == 2 * differences.len(),
        inv_twiddles.len() == differences.len(),
        forall|i: int|
            0 <= i < inv_twiddles.len() ==> #[trigger] inv_twiddles[i] == pow(inv_root, i as nat)
                % F64::modulus(),
        forall|i: int|
            0 <= i < differences.len() ==> (#[trigger] differences[i]) as int % F64::modulus() == (((
            v[i] - v[i + differences.len()]) * F64::HALF) * inv_twiddles[i]) % F64::modulus(),
        pow(inv_root, differences.len()) % F64::modulus() == F64::modulus() - 1,
        r2 % F64::modulus() == (inv_root * inv_root) % F64::modulus(),
        c % F64::modulus() == ((2 * scale) * value(differences, pow(r2, k))) % F64::modulus(),
    ensures
        c % F64::modulus() == (scale * value(v, pow(inv_root, 2 * k + 1))) % F64::modulus(),
{
    let m = F64::modulus();
    let h = differences.len();
    let lo = v.take(h as int);
    let hi = v.skip(h as int);
    let y = pow(inv_root, 2 * k);
    let z = pow(inv_root, 2 * k + 1);
    lemma_pow_of_square(inv_root, k);
    lemma_pow_congruent(r2, inv_root * inv_root, k, m);
    lemma_value_congruent(differences, pow(r2, k), y, m);
    lemma_pow_adds(inv_root, 1, 2 * k);
    lemma_pow1(inv_root);
    assert(z == inv_root * y);
    assert forall|i: int| 0 <= i < h implies (#[trigger] differences[i]) as int % m == ((F64::HALF
        * (lo[i] + (-1) * hi[i])) * pow(inv_root, i as nat)) % m by {
        let d = (v[i] - v[i + h]) * F64::HALF;
        lemma_mul_mod_noop_right(d, pow(inv_root, i as nat), m);
        assert(F64::HALF * (lo[i] + (-1) * hi[i]) == d) by (nonlinear_arith)
            requires
                lo[i] == v[i],
                hi[i] == v[i + h],
                d == (v[i] - v[i + h]) * F64::HALF,
        ;
    }
    lemma_value_of_combination(differences, lo, hi, F64::HALF as int, -1, inv_root, y, m);
    let l = value(lo, z);
    let r = value(hi, z);
    lemma_mul_congruent(
        2 * scale,
        value(differences, pow(r2, k)),
        2 * scale,
        F64::HALF * (l + (-1) * r),
        m,
    );
    assert((2 * scale) * (F64::HALF * (l + (-1) * r)) == (2 * F64::HALF) * (scale * (l - r)))
        by (nonlinear_arith);
    lemma_fundamental_div_mod_converse(2 * F64::HALF, m, 1, 1);
    lemma_small_mod(1, m as nat);
    lemma_mul_congruent(2 * F64::HALF, scale * (l - r), 1, scale * (l - r), m);
    assert(1 * (scale * (l - r)) == scale * (l - r));
    // the value of v at z is congruent to l - r, since z to the h is congruent to minus one
    lemma_value_halves(v, h, z);
    lemma_pow_multiplies(inv_root, 2 * k + 1, h);
    lemma_pow_multiplies(inv_root, h, 2 * k + 1);
    assert((2 * k + 1) * h == h * (2 * k + 1)) by (nonlinear_arith);
    lemma_odd_power_of_minus_one(pow(inv_root, h), k, m);
    assert(pow(z, h) % m == m - 1);
    lemma_small_mod((m - 1) as nat, m as nat);
    lemma_mul_congruent(pow(z, h), r, m - 1, r, m);
    assert((m - 1) * r - (-r) == r * m) by (nonlinear_arith);
    lemma_congruent_by_multiple((m - 1) * r, -r, r, m);
    lemma_add_congruent(l, pow(z, h) * r, l, -r, m);
    lemma_mul_congruent(scale, value(v, z), scale, l - r, m);
}

/// The table of twiddles of half a domain: every second entry of the table of the
/// whole. Its root is the square of the root of the whole.
proof fn lemma_half_table(twiddles: Seq<u64>, sub: Seq<u64>)
    requires
        is_twiddle_table(twiddles),
        twiddles.len() >= 2,
        sub.len() * 2 == twiddles.len(),
        forall|i: int| 0 <= i < sub.len() ==> sub[i] == twiddles[2 * i],
    ensures
        is_twiddle_table(sub),
        table_root(sub) % F64::modulus() == (table_root(twiddles) * table_root(twiddles))
            % F64::modulus(),
{
    let m = F64::modulus();
    let root = table_root(twiddles);
    let half = twiddles.len();
    lemma_pow_of_square(root, 1);
    lemma_pow1(root);
    lemma_pow_of_square(root, (half / 2) as nat);
    assert(pow(root * root, (half / 2) as nat) == pow(root, half));
    if sub.len() >= 2 {
        assert(sub[1] == twiddles[2]);
        lemma_mod_twice(pow(root, 2), m);
    } else {
        assert(half == 2);
        lemma_small_mod((m - 1) as nat, m as nat);
    }
    let r2 = table_root(sub);
    assert(r2 % m == (root * root) % m);
    lemma_pow_mod_noop(r2, (half / 2) as nat, m);
    lemma_pow_mod_noop(root * root, (half / 2) as nat, m);
    assert forall|i: int| 0 <= i < sub.len() implies #[trigger] sub[i] == pow(r2, i as nat) % m by {
        lemma_pow_of_square(root, i as nat);
        lemma_pow_mod_noop(r2, i as nat, m);
        lemma_pow_mod_noop(root * root, i as nat, m);
        assert(sub[i] == twiddles[2 * i]);
    }
}

/// A polynomial of one coefficient has that coefficient as its value everywhere.
proof fn lemma_value_constant(p: Seq<u64>, x: int)
    requires
        p.len() == 1,
    ensures
        value(p, x) == p[0],
{
    assert(p.drop_first().len() == 0);
    assert(value(p.drop_first(), x) == 0);
    assert(x * 0 == 0);
}

/// The entries of even index and the entries of odd index of `values`.
fn split(values: &Vec<u64>) -> (parts: (Vec<u64>, Vec<u64>))
    requires
        values@.len() % 2 == 0,
    ensures
        parts.0@ == evens(values@),
        parts.1@ == odds(values@),
{
    let n = values.len();
    let half = n / 2;
    let mut even: Vec<u64> = Vec::new();
    let mut odd: Vec<u64> = Vec::new();
    let mut i: usize = 0;
    while i < half
        invariant
            i <= half,
            n == values@.len(),
            half * 2 == n,
            even@.len() == i,
            odd@.len() == i,
            forall|j: int| 0 <= j < i ==> even@[j] == values@[2 * j],
            forall|j: int| 0 <= j < i ==> odd@[j] == values@[2 * j + 1],
        decreases half - i,
    {
        even.push(values[2 * i]);
        odd.push(values[2 * i + 1]);
        i = i + 1;
    }
    assert(even@ =~= evens(values@));
    assert(odd@ =~= odds(values@));
    (even, odd)
}

/// Every second entry of a table of twiddles.
fn every_second(twiddles: &Vec<u64>) -> (sub: Vec<u64>)
    requires
        twiddles@.len() % 2 == 0,
    ensures
        sub@.len() * 2 == twiddles@.len(),
        forall|i: int| 0 <= i < sub@.len() ==> sub@[i] == twiddles@[2 * i],
{
    let n = twiddles.len();
    let half = n / 2;
    let mut sub: Vec<u64> = Vec::new();
    let mut i: usize = 0;
    while i < half
        invariant
            i <= half,
            n == twiddles@.len(),
            half * 2 == n,
            sub@.len() == i,
            forall|j: int| 0 <= j < i ==> sub@[j] == twiddles@[2 * j],
        decreases half - i,
    {
        sub.push(twiddles[2 * i]);
        i = i + 1;
    }
    sub
}

/// The powers of `root` below `size / 2`: the table of twiddles of a domain of
/// `size` points.
pub fn get_twiddles(root: u64, size: usize) -> (twiddles: Vec<u64>)
    requires
        size >= 2,
        is_power_of_two(size as nat),
        is_principal_root(root as int, size as nat, F64::modulus()),
    ensures
        is_twiddle_table(twiddles@),
        twiddles@.len() * 2 == size,
        table_root(twiddles@) == root % F64::MODULUS,
{
    let m = Ghost(F64::modulus());
    let half = size / 2;
    let mut twiddles: Vec<u64> = Vec::new();
    let mut power: u64 = 1;
    let mut i: usize = 0;
    proof {
        lemma_pow0(root as int);
        lemma_small_mod(1, m@ as nat);
    }
    while i < half
        invariant
            i <= half,
            m@ == F64::modulus(),
            twiddles@.len() == i,
            power == pow(root as int, i as nat) % m@,
            forall|j: int| 0 <= j < i ==> twiddles@[j] == pow(root as int, j as nat) % m@,
        decreases half - i,
    {
        twiddles.push(power);
        proof {
            reveal(pow);
            lemma_mul_mod_noop_left(pow(root as int, i as nat), root as int, m@);
            assert(pow(root as int, (i + 1) as nat) == root * pow(root as int, i as nat));
            assert(pow(root as int, i as nat) * root == root * pow(root as int, i as nat))
                by (nonlinear_arith);
        }
        power = F64::mul(power, root);
        i = i + 1;
    }
    proof {
        let table = twiddles@;
        let r = table_root(table);
        lemma_pow1(root as int);
        if half == 1 {
            assert(pow(root as int, 1) % m@ == m@ - 1);
        }
        assert(r == root % F64::MODULUS);
        assert(r % m@ == (root as int) % m@) by {
            lemma_mod_twice(root as int, m@);
        }
        lemma_pow_mod_noop(r, half as nat, m@);
        lemma_pow_mod_noop(root as int, half as nat, m@);
        assert forall|j: int| 0 <= j < table.len() implies #[trigger] table[j] == pow(r, j as nat)
            % m@ by {
            lemma_pow_mod_noop(r, j as nat, m@);
            lemma_pow_mod_noop(root as int, j as nat, m@);
        }
    }
    twiddles
}

/// The table of twiddles of the inverse of `root`, for a domain of `size` points.
pub fn get_inv_twiddles(root: u64, size: usize) -> (twiddles: Vec<u64>)
    requires
        size >= 2,
        is_power_of_two(size as nat),
        is_principal_root(root as int, size as nat, F64::modulus()),
    ensures
        is_twiddle_table(twiddles@),
        twiddles@.len() * 2 == size,
        (root * table_root(twiddles@)) % F64::modulus() == 1,
        table_root(twiddles@) == F64::reciprocal(root),
{
    let inverse = F64::inv(root);
    proof {
        lemma_root_has_inverse(root as int, size as nat);
        lemma_inverse_of_unit(root as int, F64::modulus());
        lemma_inverse_root_is_principal(root as int, inverse as int, size as nat);
        lemma_small_mod(inverse as nat, F64::modulus() as nat);
    }
    get_twiddles(inverse, size)
}

/// A principal root of unity has an inverse.
pub proof fn lemma_root_has_inverse(root: int, n: nat)
    requires
        is_principal_root(root, n, F64::modulus()),
    ensures
        is_unit(root, F64::modulus()),
{
    let m = F64::modulus();
    let h = (n / 2) as nat;
    let p = pow(root, h);
    lemma_pow_adds(root, h, h);
    lemma_mul_mod_noop(p, p, m);
    assert((m - 1) * (m - 1) == (m - 2) * m + 1) by (nonlinear_arith);
    lemma_fundamental_div_mod_converse((m - 1) * (m - 1), m, m - 2, 1);
    assert(pow(root, n) % m == 1);
    assert(n >= 1);
    reveal(pow);
    assert(pow(root, n) == root * pow(root, (n - 1) as nat));
    let y = pow(root, (n - 1) as nat) % m;
    lemma_mul_mod_noop_right(root, pow(root, (n - 1) as nat), m);
    lemma_mod_bound(pow(root, (n - 1) as nat), m);
    lemma_inverse_is(root, y, m);
}

/// The inverse of a principal root of unity is a principal root of unity of the same
/// order.
pub proof fn lemma_inverse_root_is_principal(root: int, inverse: int, n: nat)
    requires
        is_principal_root(root, n, F64::modulus()),
        (root * inverse) % F64::modulus() == 1,
    ensures
        is_principal_root(inverse, n, F64::modulus()),
{
    let m = F64::modulus();
    let h = (n / 2) as nat;
    let a = pow(root, h);
    let b = pow(inverse, h);
    lemma_pow_distributes(root, inverse, h);
    lemma_pow_mod_noop(root * inverse, h, m);
    lemma1_pow(h);
    lemma_small_mod(1, m as nat);
    assert((a * b) % m == 1);
    lemma_small_mod((m - 1) as nat, m as nat);
    lemma_mul_congruent(a, b, m - 1, b, m);
    assert(((m - 1) * b) % m == 1);
    lemma_mod_bound(b, m);
    let r = b % m;
    lemma_mul_mod_noop_right(m - 1, b, m);
    assert(((m - 1) * r) % m == 1);
    assert((m - 1) * r == (r - 1) * m + (m - r)) by (nonlinear_arith);
    if r > 0 {
        lemma_fundamental_div_mod_converse((m - 1) * r, m, r - 1, m - r);
    } else {
        assert((m - 1) * 0 == 0);
        lemma_small_mod(0, m as nat);
    }
}

/// Powers of congruent bases are congruent.
pub proof fn lemma_pow_congruent(a: int, b: int, e: nat, m: int)
    requires
        m > 0,
        a % m == b % m,
    ensures
        pow(a, e) % m == pow(b, e) % m,
{
    lemma_pow_mod_noop(a, e, m);
    lemma_pow_mod_noop(b, e, m);
}

/// The values of `p` on the powers of `root`, when its two halves were evaluated on
/// the powers of a root congruent to the square of `root`.
proof fn lemma_half_evaluation(part: Seq<u64>, out: Seq<u64>, r2: int, root: int)
    requires
        is_evaluation(out, part, r2),
        r2 % F64::modulus() == (root * root) % F64::modulus(),
    ensures
        is_evaluation(out, part, root * root),
{
    let m = F64::modulus();
    assert forall|i: int| 0 <= i < out.len() implies #[trigger] out[i] == value(
        part,
        pow(root * root, i as nat),
    ) % m by {
        lemma_pow_congruent(r2, root * root, i as nat, m);
        lemma_value_congruent(part, pow(r2, i as nat), pow(root * root, i as nat), m);
    }
}

/// Evaluates the polynomial with coefficients `p` on the domain of `twiddles`: the
/// result holds, at index `i`, the value of `p` at the `i`-th power of the root of
/// the table.
pub fn eval_fft_twiddles(p: &Vec<u64>, twiddles: &Vec<u64>) -> (out: Vec<u64>)
    requires
        is_twiddle_table(twiddles@),
        p@.len() == 2 * twiddles@.len(),
    ensures
        out@.len() == p@.len(),
        all_canonical(out@),
        is_evaluation(out@, p@, table_root(twiddles@)),
    decreases p@.len(),
{
    let m = Ghost(F64::modulus());
    let root = Ghost(table_root(twiddles@));
    let half = twiddles.len();
    let (even, odd) = split(p);
    let (e, o) = if half == 1 {
        proof {
            lemma_value_constant(even@, pow(root@ * root@, 0));
            lemma_value_constant(odd@, pow(root@ * root@, 0));
        }
        (vec![F64::reduce(even[0])], vec![F64::reduce(odd[0])])
    } else {
        let sub = every_second(twiddles);
        proof {
            lemma_half_table(twiddles@, sub@);
        }
        let e = eval_fft_twiddles(&even, &sub);
        let o = eval_fft_twiddles(&odd, &sub);
        proof {
            lemma_half_evaluation(even@, e@, table_root(sub@), root@);
            lemma_half_evaluation(odd@, o@, table_root(sub@), root@);
        }
        (e, o)
    };
    assert(is_evaluation(e@, evens(p@), root@ * root@));
    assert(is_evaluation(o@, odds(p@), root@ * root@));
    let mut low: Vec<u64> = Vec::new();
    let mut high: Vec<u64> = Vec::new();
    let mut i: usize = 0;
    while i < half
        invariant
            i <= half,
            half == twiddles@.len(),
            p@.len() == 2 * half,
            e@.len() == half,
            o@.len() == half,
            m@ == F64::modulus(),
            root@ == table_root(twiddles@),
            is_twiddle_table(twiddles@),
            is_evaluation(e@, evens(p@), root@ * root@),
            is_evaluation(o@, odds(p@), root@ * root@),
            low@.len() == i,
            high@.len() == i,
            forall|j: int| 0 <= j < i ==> low@[j] == value(p@, pow(root@, j as nat)) % m@,
            forall|j: int|
                0 <= j < i ==> high@[j] == value(p@, pow(root@, (j + half) as nat)) % m@,
        decreases half - i,
    {
        let t = F64::mul(twiddles[i], o[i]);
        low.push(F64::add(e[i], t));
        high.push(F64::sub(e[i], t));
        proof {
            assert(e@[i as int] == value(evens(p@), pow(root@ * root@, i as nat)) % m@);
            assert(o@[i as int] == value(odds(p@), pow(root@ * root@, i as nat)) % m@);
            assert(twiddles@[i as int] == pow(root@, i as nat) % m@);
            lemma_mod_twice(value(evens(p@), pow(root@ * root@, i as nat)), m@);
            lemma_mod_twice(value(odds(p@), pow(root@ * root@, i as nat)), m@);
            lemma_mod_twice(pow(root@, i as nat), m@);
            lemma_forward_point(
                p@,
                root@,
                i as nat,
                half as nat,
                e@[i as int] as int,
                o@[i as int] as int,
                twiddles@[i as int] as int,
            );
            lemma_mod_bound(twiddles@[i as int] * o@[i as int], m@);
        }
        i = i + 1;
    }
    let ghost first = low@;
    let ghost second = high@;
    low.append(&mut high);
    proof {
        assert(low@ =~= first + second);
        assert forall|j: int| 0 <= j < low@.len() implies #[trigger] low@[j] == value(
            p@,
            pow(root@, j as nat),
        ) % m@ by {
            if j >= half {
                assert(low@[j] == second[j - half]);
            }
        }
        assert forall|j: int| 0 <= j < low@.len() implies F64::is_canonical(#[trigger] low@[j]) by {
            lemma_mod_bound(value(p@, pow(root@, j as nat)), m@);
        }
    }
    low
}

/// The interpolation behind [`interpolate_fft_twiddles`], with the root of the
/// domain named.
fn interpolate_recurse(
    v: &Vec<u64>,
    inv_twiddles: &Vec<u64>,
    Ghost(root): Ghost<int>,
    Ghost(scale): Ghost<int>,
) -> (p: Vec<u64>)
    requires
        is_twiddle_table(inv_twiddles@),
        v@.len() == 2 * inv_twiddles@.len(),
        (root * table_root(inv_twiddles@)) % F64::modulus() == 1,
        pow(root, inv_twiddles@.len()) % F64::modulus() == F64::modulus() - 1,
        (v@.len() * scale) % F64::modulus() == 1,
    ensures
        p@.len() == v@.len(),
        all_canonical(p@),
        is_interpolation(p@, v@, root),
        is_inverse_transform(p@, v@, table_root(inv_twiddles@), scale),
    decreases v@.len(),
{
    let m = Ghost(F64::modulus());
    let inv_root = Ghost(table_root(inv_twiddles@));
    let half = inv_twiddles.len();
    let n = v.len();
    let mut sums: Vec<u64> = Vec::new();
    let mut differences: Vec<u64> = Vec::new();
    let mut i: usize = 0;
    while i < half
        invariant
            i <= half,
            half == inv_twiddles@.len(),
            n == v@.len(),
            n == 2 * half,
            m@ == F64::modulus(),
            sums@.len() == i,
            differences@.len() == i,
            all_canonical(sums@),
            all_canonical(differences@),
            forall|j: int|
                0 <= j < i ==> (#[trigger] sums@[j]) as int % m@ == ((v@[j] + v@[j + half])
                    * F64::HALF) % m@,
            forall|j: int|
                0 <= j < i ==> (#[trigger] differences@[j]) as int % m@ == (((v@[j] - v@[j + half])
                    * F64::HALF) * inv_twiddles@[j]) % m@,
        decreases half - i,
    {
        let a = v[i];
        let b = v[i + half];
        let s = F64::mul(F64::add(a, b), F64::HALF);
        let d = F64::mul(F64::mul(F64::sub(a, b), F64::HALF), inv_twiddles[i]);
        proof {
            lemma_mul_mod_noop_left(a + b, F64::HALF as int, m@);
            lemma_mul_mod_noop_left(a - b, F64::HALF as int, m@);
            lemma_mul_mod_noop_left((a - b) * F64::HALF, inv_twiddles@[i as int] as int, m@);
            lemma_small_mod(s as nat, m@ as nat);
            lemma_small_mod(d as nat, m@ as nat);
        }
        sums.push(s);
        differences.push(d);
        i = i + 1;
    }
    let ghost sums_before = sums@;
    let ghost differences_before = differences@;
    let ghost mut r2 = inv_root@ * inv_root@;
    let (ce, co) = if half == 1 {
        proof {
            lemma_value_constant(sums@, pow(root * root, 0));
            lemma_value_constant(differences@, pow(root * root, 0));
        }
        (sums, differences)
    } else {
        let sub = every_second(inv_twiddles);
        proof {
            lemma_half_table(inv_twiddles@, sub@);
            let r = table_root(sub@);
            lemma_mul_congruent(root * root, r, root * root, inv_root@ * inv_root@, m@);
            assert((root * root) * (inv_root@ * inv_root@) == (root * inv_root@) * (root
                * inv_root@)) by (nonlinear_arith);
            lemma_mul_mod_noop(root * inv_root@, root * inv_root@, m@);
            assert(1 * 1 == 1);
            lemma_small_mod(1, m@ as nat);
            lemma_pow_of_square(root, (half / 2) as nat);
        }
        proof {
            assert((sums@.len() * (2 * scale)) == v@.len() * scale) by (nonlinear_arith)
                requires
                    v@.len() == 2 * sums@.len(),
            ;
        }
        let ce = interpolate_recurse(&sums, &sub, Ghost(root * root), Ghost(2 * scale));
        let co = interpolate_recurse(&differences, &sub, Ghost(root * root), Ghost(2 * scale));
        proof {
            r2 = table_root(sub@);
        }
        (ce, co)
    };
    assert(is_inverse_transform(ce@, sums@, r2, 2 * scale) && is_inverse_transform(
        co@,
        differences@,
        r2,
        2 * scale,
    )) by {
        if half == 1 {
            lemma_value_constant(sums@, pow(r2, 0));
            lemma_value_constant(differences@, pow(r2, 0));
            lemma_mul_congruent(2 * scale, sums@[0] as int, 1, sums@[0] as int, m@);
            lemma_mul_congruent(2 * scale, differences@[0] as int, 1, differences@[0] as int, m@);
            lemma_small_mod(1, m@ as nat);
            lemma_small_mod(sums@[0] as nat, m@ as nat);
            lemma_small_mod(differences@[0] as nat, m@ as nat);
            assert(1 * sums@[0] == sums@[0] && 1 * differences@[0] == differences@[0]);
        }
    }
    let ghost es = ce@;
    let ghost os = co@;
    assert(es.len() == half && os.len() == half);
    assert(all_canonical(es) && all_canonical(os));
    let mut p: Vec<u64> = Vec::new();
    let mut k: usize = 0;
    while k < half
        invariant
            k <= half,
            ce@ == es,
            co@ == os,
            es.len() == half,
            os.len() == half,
            p@.len() == 2 * k,
            all_canonical(es),
            all_canonical(os),
            all_canonical(p@),
            forall|j: int| 0 <= j < k ==> p@[2 * j] == es[j] && p@[2 * j + 1] == os[j],
        decreases half - k,
    {
        p.push(ce[k]);
        p.push(co[k]);
        k = k + 1;
    }
    proof {
        assert(p@ =~= interleave(es, os)) by {
            assert forall|j: int| 0 <= j < 2 * half implies p@[j] == interleave(es, os)[j] by {
                let q = j / 2;
                if j % 2 == 0 {
                    assert(p@[2 * q] == es[q]);
                } else {
                    assert(p@[2 * q + 1] == os[q]);
                }
            }
        }
        assert forall|j: int| 0 <= j < v@.len() implies value(p@, pow(root, j as nat)) % m@ == (
        #[trigger] v@[j]) % (F64::modulus() as u64) by {
            let q: int = if j < half {
                j
            } else {
                j - half
            };
            let e = sums@[q] as int;
            let o = differences@[q] as int;
            if half == 1 {
                assert(q == 0);
                assert(value(es, pow(root * root, 0)) == es[0]);
                assert(value(os, pow(root * root, 0)) == os[0]);
            } else {
                assert(value(es, pow(root * root, q as nat)) % m@ == sums@[q] % (
                F64::modulus() as u64));
                assert(value(os, pow(root * root, q as nat)) % m@ == differences@[q] % (
                F64::modulus() as u64));
            }
            assert(inv_twiddles@[q] == pow(inv_root@, q as nat) % m@);
            lemma_pow_distributes(root, inv_root@, q as nat);
            lemma_small_mod(1, m@ as nat);
            lemma_pow_congruent(root * inv_root@, 1, q as nat, m@);
            lemma1_pow(q as nat);
            lemma_mul_mod_noop_right(pow(root, q as nat), pow(inv_root@, q as nat), m@);
            lemma_inverse_point(
                es,
                os,
                root,
                q as nat,
                half as nat,
                v@[q] as int,
                v@[q + half] as int,
                e,
                o,
                inv_twiddles@[q] as int,
            );
        }
        assert forall|j: int| 0 <= j < p@.len() implies #[trigger] p@[j] == (scale * value(
            v@,
            pow(inv_root@, j as nat),
        )) % m@ by {
            let q = j / 2;
            lemma_small_mod(p@[j] as nat, m@ as nat);
            if j % 2 == 0 {
                assert(p@[j] == es[q]);
                lemma_mod_twice((2 * scale) * value(sums_before, pow(r2, q as nat)), m@);
                lemma_inverse_entry_even(
                    v@,
                    sums_before,
                    inv_root@,
                    r2,
                    scale,
                    q as nat,
                    es[q] as int,
                );
            } else {
                assert(p@[j] == os[q]);
                lemma_mod_twice((2 * scale) * value(differences_before, pow(r2, q as nat)), m@);
                lemma_inverse_entry_odd(
                    v@,
                    differences_before,
                    inv_twiddles@,
                    inv_root@,
                    r2,
                    scale,
                    q as nat,
                    os[q] as int,
                );
            }
        }
    }
    p
}

/// Interpolates the values `v`, given on the domain of the root whose inverse the
/// table `inv_twiddles` holds: the result holds the coefficients of the polynomial
/// that takes the value `v[i]` at the `i`-th power of that root. Coefficient `k` is
/// the value of `v`, read as a polynomial, at the `k`-th power of the inverse root,
/// divided by the number of values.
pub fn interpolate_fft_twiddles(v: &Vec<u64>, inv_twiddles: &Vec<u64>) -> (p: Vec<u64>)
    requires
        is_twiddle_table(inv_twiddles@),
        v@.len() == 2 * inv_twiddles@.len(),
    ensures
        p@.len() == v@.len(),
        all_canonical(p@),
        is_interpolation(p@, v@, domain_root(inv_twiddles@)),
        is_inverse_transform(
            p@,
            v@,
            table_root(inv_twiddles@),
            inverse(v@.len() as int, F64::modulus()),
        ),
{
    let n = v.len();
    proof {
        lemma_domain_root(inv_twiddles@);
        if n < F64::modulus() {
            lemma_small_mod(n as nat, F64::modulus() as nat);
        } else {
            lemma_fundamental_div_mod_converse(
                n as int,
                F64::modulus(),
                1,
                n - F64::modulus(),
            );
        }
        lemma_field(n as int);
        lemma_inverse_of_unit(n as int, F64::modulus());
    }
    interpolate_recurse(
        v,
        inv_twiddles,
        Ghost(domain_root(inv_twiddles@)),
        Ghost(inverse(n as int, F64::modulus())),
    )
}

/// The root of the domain to which a table of inverse twiddles belongs: the inverse
/// of the root of the table.
pub open spec fn domain_root(inv_twiddles: Seq<u64>) -> int {
    inverse(table_root(inv_twiddles), F64::modulus())
}

/// The root of the domain of a table of inverse twiddles is the inverse of the root
/// of the table, and a principal root of unity of the same order.
pub proof fn lemma_domain_root(inv_twiddles: Seq<u64>)
    requires
        is_twiddle_table(inv_twiddles),
    ensures
        (domain_root(inv_twiddles) * table_root(inv_twiddles)) % F64::modulus() == 1,
        is_principal_root(domain_root(inv_twiddles), 2 * inv_twiddles.len(), F64::modulus()),
        pow(domain_root(inv_twiddles), inv_twiddles.len()) % F64::modulus() == F64::modulus() - 1,
        0 <= domain_root(inv_twiddles) < F64::modulus(),
{
    let m = F64::modulus();
    let r = table_root(inv_twiddles);
    let w = domain_root(inv_twiddles);
    lemma_root_has_inverse(r, 2 * inv_twiddles.len());
    lemma_inverse_of_unit(r, m);
    assert(w * r == r * w) by (nonlinear_arith);
    lemma_inverse_root_is_principal(r, w, 2 * inv_twiddles.len());
}

} // verus!
