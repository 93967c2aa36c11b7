//! Polynomials over the 64-bit field, given by their coefficients, lowest degree
//! first.
use crate::math::field64::F64;
use crate::math::modular::{lemma_add_congruent, lemma_mul_congruent};
use vstd::arithmetic::div_mod::*;
use vstd::prelude::*;

verus! {

/// The value of the polynomial with coefficients `p` at `x`, in the integers.
pub open spec fn value(p: Seq<u64>, x: int) -> int
    decreases p.len(),
{
    if p.len() == 0 {
        0
    } else {
        p[0] + x * value(p.drop_first(), x)
    }
}

/// The coefficients of even index.
pub open spec fn evens(p: Seq<u64>) -> Seq<u64> {
    Seq::new(((p.len() + 1) / 2) as nat, |i: int| p[2 * i])
}

/// The coefficients of odd index.
pub open spec fn odds(p: Seq<u64>) -> Seq<u64> {
    Seq::new(p.len() / 2, |i: int| p[2 * i + 1])
}

/// The coefficients that have `e` at the even indices and `o` at the odd ones.
pub open spec fn interleave(e: Seq<u64>, o: Seq<u64>) -> Seq<u64> {
    Seq::new(
        2 * e.len(),
        |i: int|
            if i % 2 == 0 {
                e[i / 2]
            } else {
                o[i / 2]
            },
    )
}

/// Congruent arguments give congruent values.
pub proof fn lemma_value_congruent(p: Seq<u64>, x: int, y: int, m: int)
    requires
        m > 0,
        x % m == y % m,
    ensures
        value(p, x) % m == value(p, y) % m,
    decreases p.len(),
{
    if p.len() > 0 {
        let q = p.drop_first();
        lemma_value_congruent(q, x, y, m);
        lemma_mul_congruent(x, value(q, x), y, value(q, y), m);
        lemma_add_congruent(p[0] as int, x * value(q, x), p[0] as int, y * value(q, y), m);
    }
}

/// A polynomial is its even part at the square, plus the argument times its odd part
/// at the square.
pub proof fn lemma_value_split(p: Seq<u64>, x: int)
    ensures
        value(p, x) == value(evens(p), x * x) + x * value(odds(p), x * x),
    decreases p.len(),
{
    if p.len() == 0 {
        assert(evens(p).len() == 0 && odds(p).len() == 0);
        assert(x * 0 == 0);
    } else if p.len() == 1 {
        assert(evens(p).len() == 1 && odds(p).len() == 0);
        assert(p.drop_first().len() == 0);
        assert(evens(p).drop_first().len() == 0);
        assert(value(p.drop_first(), x) == 0);
        assert(value(evens(p).drop_first(), x * x) == 0);
        assert(value(odds(p), x * x) == 0);
        assert(evens(p)[0] == p[0]);
        assert(x * 0 == 0 && (x * x) * 0 == 0);
    } else {
        let q = p.drop_first().drop_first();
        lemma_value_split(q, x);
        assert(evens(p).drop_first() =~= evens(q));
        assert(odds(p).drop_first() =~= odds(q));
        let a = value(evens(q), x * x);
        let b = value(odds(q), x * x);
        let p1 = p.drop_first();
        assert(p1[0] == p[1]);
        assert(p1.drop_first() =~= q);
        assert(value(p1, x) == p[1] + x * value(q, x));
        assert(evens(p)[0] == p[0] && odds(p)[0] == p[1]);
        assert(value(p, x) == p[0] + x * (p[1] + x * value(q, x)));
        assert(value(evens(p), x * x) == p[0] + (x * x) * a);
        assert(value(odds(p), x * x) == p[1] + (x * x) * b);
        assert(p[0] + x * (p[1] + x * (a + x * b)) == (p[0] + (x * x) * a) + x * (p[1] + (x * x)
            * b)) by (nonlinear_arith);
    }
}

/// Interleaving puts its first argument at the even indices and its second at the
/// odd ones.
pub proof fn lemma_interleave_parts(e: Seq<u64>, o: Seq<u64>)
    requires
        e.len() == o.len(),
    ensures
        evens(interleave(e, o)) == e,
        odds(interleave(e, o)) == o,
{
    assert(evens(interleave(e, o)) =~= e);
    assert(odds(interleave(e, o)) =~= o);
}

/// Zero coefficients at the high end do not change a value.
pub proof fn lemma_value_padded(p: Seq<u64>, q: Seq<u64>, x: int)
    requires
        p.len() <= q.len(),
        q.take(p.len() as int) == p,
        forall|i: int| p.len() <= i < q.len() ==> q[i] == 0,
    ensures
        value(q, x) == value(p, x),
    decreases q.len(),
{
    if q.len() > 0 {
        if p.len() == 0 {
            assert(q.drop_first().take(0) =~= p);
            lemma_value_padded(p, q.drop_first(), x);
            assert(x * 0 == 0);
        } else {
            assert(q.take(p.len() as int)[0] == q[0]);
            assert(q.drop_first().take(p.len() - 1) =~= p.drop_first());
            lemma_value_padded(p.drop_first(), q.drop_first(), x);
        }
    }
}

/// Evaluates the polynomial with coefficients `p` at `x`.
pub fn eval(p: &[u64], x: u64) -> (y: u64)
    ensures
        y == value(p@, x as int) % F64::modulus(),
        F64::is_canonical(y),
{
    let m = Ghost(F64::modulus());
    let mut y: u64 = 0;
    let mut i: usize = p.len();
    proof {
        assert(p@.skip(p@.len() as int).len() == 0);
        lemma_small_mod(0, m@ as nat);
    }
    while i > 0
        invariant
            i <= p@.len(),
            m@ == F64::modulus(),
            y == value(p@.skip(i as int), x as int) % m@,
        decreases i,
    {
        i = i - 1;
        let ghost tail = p@.skip(i + 1);
        let ghost here = p@.skip(i as int);
        proof {
            assert(here.drop_first() =~= tail);
            assert(here[0] == p@[i as int]);
            lemma_mul_mod_noop_right(x as int, value(tail, x as int), m@);
            lemma_add_mod_noop_right(p@[i as int] as int, x * value(tail, x as int), m@);
        }
        y = F64::add(p[i], F64::mul(x, y));
        proof {
            lemma_mod_bound(x * (y as int), m@);
        }
    }
    proof {
        assert(p@.skip(0) =~= p@);
    }
    y
}

} // verus!
