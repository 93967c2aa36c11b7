//! What holds of the machine whatever the operands: the laws of the equality gadget,
//! of the comparison, of the binary accumulation, of the two comparison programs, of
//! the depth bookkeeping and of the rows that a program leaves alone, each proved
//! from the definitions of the machine.
use crate::math::field128::{
    lemma_field, lemma_halved_power_of_two, lemma_power_of_two_is_canonical,
    lemma_sum_with_product, F128,
};
use crate::math::modular::lemma_inverse_of_unit;
use crate::stack::machine::{
    apply, compare_row, effect, equality_flag, equality_witness, is_bit, larger,
    lemma_apply_effect, lemma_apply_shape, lemma_apply_unfold, lemma_depth_fits,
    lemma_run_step, lemma_run_two_parts, lemma_run_unfold, not_set, run, run_from,
    running_max, ExecutionHint, Op, StackError, StackView,
};
use crate::stack::programs::{
    accumulate_program, compare_program, comparison_preamble, gt_finale_program, gt_program,
    lt_finale_program, lt_program,
};
use vstd::arithmetic::div_mod::*;
use vstd::arithmetic::power2::*;
use vstd::prelude::*;

verus! {

/// The number that a sequence of bits spells, most significant bit first.
pub open spec fn bits_value(bits: Seq<u128>) -> nat
    decreases bits.len(),
{
    if bits.len() == 0 {
        0
    } else {
        2 * bits_value(bits.drop_last()) + bits.last() as nat
    }
}

/// The `width` low bits of `x`, most significant first.
pub open spec fn bits_of(x: nat, width: nat) -> Seq<u128>
    decreases width,
{
    if width == 0 {
        Seq::empty()
    } else {
        bits_of(x / 2, (width - 1) as nat).push((x % 2) as u128)
    }
}

/// Every member of the sequence is zero or one.
pub open spec fn all_bits(bits: Seq<u128>) -> bool {
    forall|i: int| 0 <= i < bits.len() ==> is_bit(#[trigger] bits[i])
}

/// One for true, zero for false.
pub open spec fn flag(b: bool) -> u128 {
    if b {
        1
    } else {
        0
    }
}

/// The power of two on top of the stack after `k` of `width` steps: `2^(width-1-k)`
/// while bits are left, and the inverse of two once the last bit is taken.
pub open spec fn power_after(width: nat, k: nat) -> u128 {
    if k < width {
        pow2((width - 1 - k) as nat) as u128
    } else {
        F128::HALF
    }
}

/// An accumulator that started at `start` after the bits `taken`, when `left` bits
/// are still to come: `start + value(taken) * 2^left`, reduced.
pub open spec fn accumulated(start: u128, taken: Seq<u128>, left: nat) -> u128 {
    ((start + bits_value(taken) * pow2(left)) % F128::modulus()) as u128
}

/// One more bit doubles the value and adds the bit.
pub proof fn lemma_bits_value_take(bits: Seq<u128>, k: int)
    requires
        0 <= k < bits.len(),
    ensures
        bits_value(bits.take(k + 1)) == 2 * bits_value(bits.take(k)) + bits[k],
{
    assert(bits.take(k + 1).drop_last() =~= bits.take(k));
}

/// The bits of a number spell the number: a number below `2^width` has `width` bits,
/// and they spell it.
pub proof fn lemma_bits_of(x: nat, width: nat)
    requires
        x < pow2(width),
    ensures
        bits_of(x, width).len() == width,
        all_bits(bits_of(x, width)),
        bits_value(bits_of(x, width)) == x,
    decreases width,
{
    if width == 0 {
        lemma2_to64();
    } else {
        let upper = bits_of(x / 2, (width - 1) as nat);
        lemma_pow2_unfold(width);
        lemma_bits_of(x / 2, (width - 1) as nat);
        let bits = bits_of(x, width);
        assert(bits.drop_last() =~= upper);
        assert forall|i: int| 0 <= i < bits.len() implies is_bit(#[trigger] bits[i]) by {
            if i < width - 1 {
                assert(bits[i] == upper[i]);
                assert(is_bit(upper[i]));
            }
        }
    }
}

/// A sequence of `n` bits spells a number below `2^n`.
pub proof fn lemma_bits_value_bound(bits: Seq<u128>)
    requires
        all_bits(bits),
    ensures
        bits_value(bits) < pow2(bits.len()),
    decreases bits.len(),
{
    if bits.len() == 0 {
        lemma2_to64();
    } else {
        lemma_bits_value_bound(bits.drop_last());
        lemma_pow2_unfold(bits.len());
        assert(is_bit(bits[bits.len() - 1]));
    }
}

/// Two sequences of bits of one length that spell the same number are the same.
pub proof fn lemma_bits_value_injective(a: Seq<u128>, b: Seq<u128>)
    requires
        a.len() == b.len(),
        all_bits(a),
        all_bits(b),
        bits_value(a) == bits_value(b),
    ensures
        a == b,
    decreases a.len(),
{
    if a.len() > 0 {
        assert(is_bit(a[a.len() - 1]) && is_bit(b[b.len() - 1]));
        lemma_bits_value_injective(a.drop_last(), b.drop_last());
        assert(a =~= a.drop_last().push(a.last()));
        assert(b =~= b.drop_last().push(b.last()));
    } else {
        assert(a =~= b);
    }
}

/// The state before a binary accumulation of `width` bits: there is room for `width`
/// steps, the top operand is `2^(width-1)`, the accumulator below it is canonical,
/// and the first tape starts with `width` bits.
pub open spec fn accumulation_ready(v: StackView, width: nat, step: int) -> bool {
    &&& v.wf()
    &&& 0 <= step
    &&& step + width < v.trace.len()
    &&& 1 <= width <= 128
    &&& v.depth >= 2
    &&& v.live(step)[0] == pow2((width - 1) as nat)
    &&& F128::is_canonical(v.live(step)[1])
    &&& v.tape_a.len() >= width
    &&& all_bits(v.tape_a.take(width as int))
}

/// The state `k` steps into a binary accumulation of `width` bits that started in
/// `v` at `step`.
pub open spec fn accumulation_after(v: StackView, width: nat, step: int, k: nat, mid: StackView) -> bool {
    &&& mid.wf()
    &&& mid.trace.len() == v.trace.len()
    &&& mid.depth == v.depth
    &&& mid.live(step + k) == seq![
        power_after(width, k),
        accumulated(v.live(step)[1], v.tape_a.take(k as int), (width - k) as nat),
    ] + v.live(step).skip(2)
    &&& mid.tape_a == v.tape_a.skip(k as int)
    &&& mid.tape_b == v.tape_b
    &&& forall|j: int| 0 <= j < k ==> mid.aux[step + j] == v.tape_a[j]
}

/// One accumulation step in the integers: the accumulator after one more bit.
proof fn lemma_accumulate_arith(start: u128, taken: nat, bit: u128, left: nat)
    requires
        is_bit(bit),
        left <= 127,
    ensures
        F128::sum(
            ((start + taken * pow2(left + 1)) % F128::modulus()) as u128,
            F128::product(bit, pow2(left) as u128),
        ) == (start + (2 * taken + bit) * pow2(left)) % F128::modulus(),
{
    let m = F128::modulus();
    let p = pow2(left) as int;
    lemma_power_of_two_is_canonical(left);
    lemma_pow2_unfold(left + 1);
    let acc = ((start + taken * pow2(left + 1)) % m) as u128;
    lemma_mod_bound(start + taken * pow2(left + 1), m);
    lemma_sum_with_product(acc, bit, pow2(left) as u128);
    lemma_add_mod_noop_right(bit * p, start + taken * pow2(left + 1), m);
    assert(start + taken * pow2(left + 1) + bit * p == start + (2 * taken + bit) * p)
        by (nonlinear_arith)
        requires
            pow2(left + 1) == 2 * p,
    ;
}

/// One accumulation step that reads its bit from the tape.
proof fn lemma_accumulate_step(v: StackView, step: int, rest: Seq<u128>) -> (next: StackView)
    requires
        v.wf(),
        0 <= step,
        step + 1 < v.trace.len(),
        v.depth >= 2,
        v.live(step).skip(2) == rest,
        v.tape_a.len() > 0,
        is_bit(v.tape_a[0]),
    ensures
        apply(v, Op::BinAcc(ExecutionHint::NoHint), step) == Ok::<StackView, StackError>(next),
        next.wf(),
        next.trace.len() == v.trace.len(),
        next.depth == v.depth,
        next.live(step + 1) == seq![
            F128::halved(v.live(step)[0]),
            F128::sum(v.live(step)[1], F128::product(v.tape_a[0], v.live(step)[0])),
        ] + rest,
        next.tape_a == v.tape_a.skip(1),
        next.tape_b == v.tape_b,
        next.aux == v.aux.update(step, v.tape_a[0]),
{
    let op = Op::BinAcc(ExecutionHint::NoHint);
    lemma_depth_fits(v);
    let e = effect(v, op, step).unwrap();
    assert(e.stack =~= seq![
        F128::halved(v.live(step)[0]),
        F128::sum(v.live(step)[1], F128::product(v.tape_a[0], v.live(step)[0])),
    ] + rest);
    lemma_apply_effect(v, op, step);
    v.install(step, e)
}

/// The first `k` steps of a binary accumulation.
proof fn lemma_accumulate_prefix(v: StackView, width: nat, step: int, k: nat) -> (mid: StackView)
    requires
        accumulation_ready(v, width, step),
        k <= width,
    ensures
        accumulation_after(v, width, step, k, mid),
        run(v, accumulate_program(width), step) == run_from(
            mid,
            accumulate_program(width),
            k as int,
            step + k,
        ),
    decreases k,
{
    let m = F128::modulus();
    let program = accumulate_program(width);
    if k == 0 {
        let s = v.live(step);
        lemma_depth_fits(v);
        assert(bits_value(v.tape_a.take(0)) == 0);
        assert(0 * pow2(width) == 0);
        lemma_small_mod(s[1] as nat, m as nat);
        assert(s =~= seq![s[0], s[1]] + s.skip(2));
        assert(v.tape_a.skip(0) =~= v.tape_a);
        v
    } else {
        let j = (k - 1) as nat;
        let before = lemma_accumulate_prefix(v, width, step, j);
        let rest = v.live(step).skip(2);
        let start = v.live(step)[1];
        let bit = v.tape_a[j as int];
        let s = before.live(step + j);
        assert(s[0] == power_after(width, j));
        assert(s[1] == accumulated(start, v.tape_a.take(j as int), (width - j) as nat));
        assert(s.skip(2) =~= rest);
        assert(is_bit(v.tape_a.take(width as int)[j as int]));
        assert(before.tape_a[0] == bit);
        let next = lemma_accumulate_step(before, step + j, rest);
        assert(program[j as int] == Op::BinAcc(ExecutionHint::NoHint));
        lemma_run_step(before, program, j as int, step + j, next);
        lemma_halved_power_of_two((width - 1 - j) as nat);
        lemma_bits_value_take(v.tape_a, j as int);
        lemma_accumulate_arith(
            start,
            bits_value(v.tape_a.take(j as int)),
            bit,
            (width - k) as nat,
        );
        assert(next.tape_a =~= v.tape_a.skip(k as int));
        assert forall|i: int| 0 <= i < k implies next.aux[step + i] == v.tape_a[i] by {
            if i < j {
                assert(before.aux[step + i] == v.tape_a[i]);
            }
        }
        next
    }
}

/// Binary accumulation rebuilds the number that its bits spell. From a state whose
/// top operand is `2^(width-1)`, `width` accumulation steps that read from the tape
/// all succeed; they leave the inverse of two on top and below it the accumulator
/// plus the number that the `width` bits spell, most significant first, reduced;
/// the operands below are untouched, the tape is shorter by `width`, and the
/// witness of each step is the bit that it took.
pub proof fn lemma_binary_accumulation(v: StackView, width: nat, step: int)
    requires
        accumulation_ready(v, width, step),
    ensures
        ({
            let (end, error) = run(v, accumulate_program(width), step);
            let bits = v.tape_a.take(width as int);
            &&& error is None
            &&& end.wf()
            &&& end.trace.len() == v.trace.len()
            &&& end.depth == v.depth
            &&& end.live(step + width) == seq![
                F128::HALF,
                ((v.live(step)[1] + bits_value(bits)) % F128::modulus()) as u128,
            ] + v.live(step).skip(2)
            &&& end.tape_a == v.tape_a.skip(width as int)
            &&& end.tape_b == v.tape_b
            &&& forall|j: int| 0 <= j < width ==> end.aux[step + j] == bits[j]
        }),
{
    let end = lemma_accumulate_prefix(v, width, step, width);
    lemma_run_unfold(end, accumulate_program(width), width as int, step + width);
    lemma2_to64();
    assert(bits_value(v.tape_a.take(width as int)) * 1 == bits_value(v.tape_a.take(width as int)));
}

/// No two different sequences of bits rebuild the same number: where two sequences
/// of one length differ anywhere, and the numbers they spell are below the modulus,
/// as the numbers of at most 127 bits all are, an accumulator that starts at zero
/// ends in two different values, each the number that its bits spell.
pub proof fn lemma_accumulation_is_faithful(a: Seq<u128>, b: Seq<u128>)
    requires
        a.len() == b.len(),
        all_bits(a),
        all_bits(b),
        a != b,
        bits_value(a) < F128::modulus(),
        bits_value(b) < F128::modulus(),
    ensures
        accumulated(0, a, 0) != accumulated(0, b, 0),
        accumulated(0, a, 0) == bits_value(a),
        accumulated(0, b, 0) == bits_value(b),
{
    lemma2_to64();
    assert(bits_value(a) * 1 == bits_value(a));
    assert(bits_value(b) * 1 == bits_value(b));
    lemma_small_mod(bits_value(a), F128::modulus() as nat);
    lemma_small_mod(bits_value(b), F128::modulus() as nat);
    if bits_value(a) == bits_value(b) {
        lemma_bits_value_injective(a, b);
    }
}

/// The bit taken last by a comparison operand after `k` steps: the `k`-th of its
/// tape, or what the register held at the start while none is taken.
pub open spec fn last_taken(start: u128, tape: Seq<u128>, k: nat) -> u128 {
    if k == 0 {
        start
    } else {
        tape[k - 1]
    }
}

/// The state before a comparison of two operands of `width` bits: there is room for
/// `width` steps, the top operand is `2^(width-1)`, the two flags and the two
/// accumulators are zero, and each tape starts with `width` bits.
pub open spec fn comparison_ready(v: StackView, width: nat, step: int) -> bool {
    &&& v.wf()
    &&& 0 <= step
    &&& step + width < v.trace.len()
    &&& 1 <= width <= 128
    &&& v.depth >= 7
    &&& v.live(step)[0] == pow2((width - 1) as nat)
    &&& v.live(step)[3] == 0
    &&& v.live(step)[4] == 0
    &&& v.live(step)[5] == 0
    &&& v.live(step)[6] == 0
    &&& v.tape_a.len() >= width
    &&& v.tape_b.len() >= width
    &&& all_bits(v.tape_a.take(width as int))
    &&& all_bits(v.tape_b.take(width as int))
}

/// The comparison registers after the bits `a` of the first operand and `b` of the
/// second, when `left` bits of each are still to come and `power` is on top.
pub open spec fn comparison_registers(
    power: u128,
    a_last: u128,
    b_last: u128,
    a: Seq<u128>,
    b: Seq<u128>,
    left: nat,
) -> Seq<u128> {
    seq![
        power,
        a_last,
        b_last,
        flag(bits_value(a) > bits_value(b)),
        flag(bits_value(a) < bits_value(b)),
        accumulated(0, b, left),
        accumulated(0, a, left),
    ]
}

/// The state `k` steps into a comparison of `width` bits that started in `v` at
/// `step`.
pub open spec fn comparison_after(v: StackView, width: nat, step: int, k: nat, mid: StackView) -> bool {
    &&& mid.wf()
    &&& mid.trace.len() == v.trace.len()
    &&& mid.depth == v.depth
    &&& mid.live(step + k) == comparison_registers(
        power_after(width, k),
        last_taken(v.live(step)[1], v.tape_a, k),
        last_taken(v.live(step)[2], v.tape_b, k),
        v.tape_a.take(k as int),
        v.tape_b.take(k as int),
        (width - k) as nat,
    ) + v.live(step).skip(7)
    &&& mid.tape_a == v.tape_a.skip(k as int)
    &&& mid.tape_b == v.tape_b.skip(k as int)
    &&& forall|j: int|
        0 <= j < k ==> mid.aux[step + j] == flag(v.tape_a.take(j) == v.tape_b.take(j))
}

/// The flags of a comparison step in the field: with bits for flags and for advice,
/// and the two flags never both set, the witness is one exactly where no flag is
/// set, and each new flag is set exactly where it was set or where no flag was set
/// and its operand has the larger bit.
proof fn lemma_flags_arith(gt: u128, lt: u128, a: u128, b: u128)
    requires
        is_bit(gt),
        is_bit(lt),
        is_bit(a),
        is_bit(b),
        !(gt == 1 && lt == 1),
    ensures
        not_set(gt, lt) == flag(gt == 0 && lt == 0),
        F128::sum(gt, F128::product(F128::product(a, F128::difference(1, b)), not_set(gt, lt)))
            == flag(gt == 1 || (lt == 0 && a == 1 && b == 0)),
        F128::sum(lt, F128::product(F128::product(b, F128::difference(1, a)), not_set(gt, lt)))
            == flag(lt == 1 || (gt == 0 && b == 1 && a == 0)),
{
    let m = F128::modulus();
    assert(0 * 0 == 0 && 0 * 1 == 0 && 1 * 0 == 0 && 1 * 1 == 1);
    assert(0int % m == 0 && 1int % m == 1);
    assert(F128::difference(1, 0) == 1);
    assert(F128::difference(1, 1) == 0);
    assert(F128::product(0, 0) == 0 && F128::product(0, 1) == 0 && F128::product(1, 0) == 0
        && F128::product(1, 1) == 1);
    assert(F128::sum(0, 0) == 0 && F128::sum(0, 1) == 1 && F128::sum(1, 0) == 1);
}

/// One comparison step that reads its bits from the tapes.
proof fn lemma_compare_step(v: StackView, step: int, rest: Seq<u128>) -> (next: StackView)
    requires
        v.wf(),
        0 <= step,
        step + 1 < v.trace.len(),
        v.depth >= 7,
        v.live(step).skip(7) == rest,
        v.tape_a.len() > 0,
        v.tape_b.len() > 0,
        is_bit(v.tape_a[0]),
        is_bit(v.tape_b[0]),
    ensures
        apply(v, Op::Compare(ExecutionHint::NoHint), step) == Ok::<StackView, StackError>(next),
        next.wf(),
        next.trace.len() == v.trace.len(),
        next.depth == v.depth,
        next.live(step + 1) == compare_row(v.live(step), v.tape_a[0], v.tape_b[0]) + rest,
        next.tape_a == v.tape_a.skip(1),
        next.tape_b == v.tape_b.skip(1),
        next.aux == v.aux.update(step, not_set(v.live(step)[3], v.live(step)[4])),
{
    let op = Op::Compare(ExecutionHint::NoHint);
    lemma_depth_fits(v);
    let e = effect(v, op, step).unwrap();
    assert(e.stack =~= compare_row(v.live(step), v.tape_a[0], v.tape_b[0]) + rest);
    lemma_apply_effect(v, op, step);
    v.install(step, e)
}

/// How the order of two numbers follows from the order of their upper parts and
/// their last bits.
proof fn lemma_order_of_prefixes(p: nat, q: nat, a: u128, b: u128)
    requires
        is_bit(a),
        is_bit(b),
    ensures
        (2 * p + a > 2 * q + b) == (p > q || (p == q && a == 1 && b == 0)),
        (2 * p + a < 2 * q + b) == (p < q || (p == q && b == 1 && a == 0)),
{
}

/// A prefix of a sequence of bits is a sequence of bits.
proof fn lemma_all_bits_take(bits: Seq<u128>, width: int, j: int)
    requires
        0 <= j <= width <= bits.len(),
        all_bits(bits.take(width)),
    ensures
        all_bits(bits.take(j)),
{
    assert forall|i: int| 0 <= i < j implies is_bit(#[trigger] bits.take(j)[i]) by {
        assert(is_bit(bits.take(width)[i]));
    }
}

/// One comparison step on the registers: from the registers after `j` bits of each
/// operand to those after one more, with the witness of the step.
proof fn lemma_compare_row_advances(
    tape_a: Seq<u128>,
    tape_b: Seq<u128>,
    width: nat,
    j: nat,
    s: Seq<u128>,
)
    requires
        j < width <= 128,
        tape_a.len() >= width,
        tape_b.len() >= width,
        all_bits(tape_a.take(width as int)),
        all_bits(tape_b.take(width as int)),
        s.len() >= 7,
        s[0] == power_after(width, j),
        s[3] == flag(bits_value(tape_a.take(j as int)) > bits_value(tape_b.take(j as int))),
        s[4] == flag(bits_value(tape_a.take(j as int)) < bits_value(tape_b.take(j as int))),
        s[5] == accumulated(0, tape_b.take(j as int), (width - j) as nat),
        s[6] == accumulated(0, tape_a.take(j as int), (width - j) as nat),
    ensures
        compare_row(s, tape_a[j as int], tape_b[j as int]) == comparison_registers(
            power_after(width, j + 1),
            tape_a[j as int],
            tape_b[j as int],
            tape_a.take(j as int + 1),
            tape_b.take(j as int + 1),
            (width - j - 1) as nat,
        ),
        not_set(s[3], s[4]) == flag(tape_a.take(j as int) == tape_b.take(j as int)),
{
    let a_bit = tape_a[j as int];
    let b_bit = tape_b[j as int];
    let p = bits_value(tape_a.take(j as int));
    let q = bits_value(tape_b.take(j as int));
    assert(is_bit(tape_a.take(width as int)[j as int]));
    assert(is_bit(tape_b.take(width as int)[j as int]));
    lemma_halved_power_of_two((width - 1 - j) as nat);
    lemma_bits_value_take(tape_a, j as int);
    lemma_bits_value_take(tape_b, j as int);
    lemma_accumulate_arith(0, p, a_bit, (width - j - 1) as nat);
    lemma_accumulate_arith(0, q, b_bit, (width - j - 1) as nat);
    lemma_flags_arith(s[3], s[4], a_bit, b_bit);
    lemma_order_of_prefixes(p, q, a_bit, b_bit);
    let row = compare_row(s, a_bit, b_bit);
    let target = comparison_registers(
        power_after(width, j + 1),
        a_bit,
        b_bit,
        tape_a.take(j as int + 1),
        tape_b.take(j as int + 1),
        (width - j - 1) as nat,
    );
    assert(row[0] == target[0]);
    assert(row[3] == target[3]);
    assert(row[4] == target[4]);
    assert(row[5] == target[5]);
    assert(row[6] == target[6]);
    assert(row =~= target);
    if p == q {
        lemma_all_bits_take(tape_a, width as int, j as int);
        lemma_all_bits_take(tape_b, width as int, j as int);
        lemma_bits_value_injective(tape_a.take(j as int), tape_b.take(j as int));
    }
}

/// Before the first step of a comparison the state is the one after no step.
proof fn lemma_compare_base(v: StackView, width: nat, step: int)
    requires
        comparison_ready(v, width, step),
    ensures
        comparison_after(v, width, step, 0, v),
{
    let s = v.live(step);
    lemma_depth_fits(v);
    assert(bits_value(v.tape_a.take(0)) == 0);
    assert(bits_value(v.tape_b.take(0)) == 0);
    assert(0 * pow2(width) == 0);
    lemma_small_mod(0, F128::modulus() as nat);
    assert(s =~= seq![s[0], s[1], s[2], s[3], s[4], s[5], s[6]] + s.skip(7));
    assert(v.tape_a.skip(0) =~= v.tape_a);
    assert(v.tape_b.skip(0) =~= v.tape_b);
}

/// The step of a comparison that follows the first `j`.
proof fn lemma_compare_advance(v: StackView, width: nat, step: int, j: nat, before: StackView) -> (next:
    StackView)
    requires
        comparison_ready(v, width, step),
        j < width,
        comparison_after(v, width, step, j, before),
    ensures
        comparison_after(v, width, step, j + 1, next),
        apply(before, Op::Compare(ExecutionHint::NoHint), step + j) == Ok::<StackView, StackError>(
            next,
        ),
{
    let rest = v.live(step).skip(7);
    let s = before.live(step + j);
    let registers = comparison_registers(
        power_after(width, j),
        last_taken(v.live(step)[1], v.tape_a, j),
        last_taken(v.live(step)[2], v.tape_b, j),
        v.tape_a.take(j as int),
        v.tape_b.take(j as int),
        (width - j) as nat,
    );
    assert(s == registers + rest);
    assert(s[0] == registers[0] && s[3] == registers[3] && s[4] == registers[4] && s[5]
        == registers[5] && s[6] == registers[6]);
    assert(s.skip(7) =~= rest);
    assert(is_bit(v.tape_a.take(width as int)[j as int]));
    assert(is_bit(v.tape_b.take(width as int)[j as int]));
    assert(before.tape_a[0] == v.tape_a[j as int]);
    assert(before.tape_b[0] == v.tape_b[j as int]);
    let next = lemma_compare_step(before, step + j, rest);
    lemma_compare_row_advances(v.tape_a, v.tape_b, width, j, s);
    assert(next.tape_a =~= v.tape_a.skip(j as int + 1));
    assert(next.tape_b =~= v.tape_b.skip(j as int + 1));
    assert forall|i: int| 0 <= i < j + 1 implies next.aux[step + i] == flag(
        v.tape_a.take(i) == v.tape_b.take(i),
    ) by {
        if i < j {
            assert(before.aux[step + i] == flag(v.tape_a.take(i) == v.tape_b.take(i)));
        }
    }
    next
}

/// The first `k` steps of a comparison.
proof fn lemma_compare_prefix(v: StackView, width: nat, step: int, k: nat) -> (mid: StackView)
    requires
        comparison_ready(v, width, step),
        k <= width,
    ensures
        comparison_after(v, width, step, k, mid),
        run(v, compare_program(width), step) == run_from(
            mid,
            compare_program(width),
            k as int,
            step + k,
        ),
    decreases k,
{
    if k == 0 {
        lemma_compare_base(v, width, step);
        v
    } else {
        let j = (k - 1) as nat;
        let before = lemma_compare_prefix(v, width, step, j);
        let next = lemma_compare_advance(v, width, step, j, before);
        assert(compare_program(width)[j as int] == Op::Compare(ExecutionHint::NoHint));
        lemma_run_step(before, compare_program(width), j as int, step + j, next);
        next
    }
}

/// The comparison decides the order of the numbers that its bits spell. From a state
/// whose top operand is `2^(width-1)` and whose flags and accumulators are zero,
/// `width` comparison steps that read from the tapes all succeed. They leave, from
/// the top: the inverse of two, the last bit of each operand, `gt`, `lt`, and the
/// two numbers rebuilt, the second above the first, each reduced. `gt` is one
/// exactly where the first number is the larger and `lt` exactly where it is the
/// smaller, and never both. The witness of each step is one exactly where the bits
/// taken before it were the same for both operands: one up to the first bit that
/// differs, and zero from then on.
pub proof fn lemma_comparison(v: StackView, width: nat, step: int)
    requires
        comparison_ready(v, width, step),
    ensures
        ({
            let (end, error) = run(v, compare_program(width), step);
            let a = v.tape_a.take(width as int);
            let b = v.tape_b.take(width as int);
            &&& error is None
            &&& end.wf()
            &&& end.trace.len() == v.trace.len()
            &&& end.depth == v.depth
            &&& end.live(step + width) == seq![
                F128::HALF,
                a[width - 1],
                b[width - 1],
                flag(bits_value(a) > bits_value(b)),
                flag(bits_value(a) < bits_value(b)),
                (bits_value(b) % (F128::modulus() as nat)) as u128,
                (bits_value(a) % (F128::modulus() as nat)) as u128,
            ] + v.live(step).skip(7)
            &&& end.tape_a == v.tape_a.skip(width as int)
            &&& end.tape_b == v.tape_b.skip(width as int)
            &&& forall|j: int| 0 <= j < width ==> end.aux[step + j] == flag(a.take(j) == b.take(j))
            &&& forall|s: int, t: int|
                step <= s <= t < step + width && #[trigger] end.aux[s] == 0 ==> #[trigger] end.aux[t]
                    == 0
        }),
{
    let end = lemma_compare_prefix(v, width, step, width);
    lemma_run_unfold(end, compare_program(width), width as int, step + width);
    let a = v.tape_a.take(width as int);
    let b = v.tape_b.take(width as int);
    lemma2_to64();
    assert(bits_value(a) * 1 == bits_value(a));
    assert(bits_value(b) * 1 == bits_value(b));
    assert(end.live(step + width) =~= seq![
        F128::HALF,
        a[width - 1],
        b[width - 1],
        flag(bits_value(a) > bits_value(b)),
        flag(bits_value(a) < bits_value(b)),
        (bits_value(b) % (F128::modulus() as nat)) as u128,
        (bits_value(a) % (F128::modulus() as nat)) as u128,
    ] + v.live(step).skip(7));
    assert forall|j: int| 0 <= j < width implies end.aux[step + j] == flag(
        a.take(j) == b.take(j),
    ) by {
        assert(a.take(j) =~= v.tape_a.take(j));
        assert(b.take(j) =~= v.tape_b.take(j));
    }
    assert forall|s: int, t: int|
        step <= s <= t < step + width && #[trigger] end.aux[s] == 0 implies #[trigger] end.aux[t]
            == 0 by {
        let i = s - step;
        let j = t - step;
        assert(end.aux[step + i] == flag(a.take(i) == b.take(i)));
        assert(end.aux[step + j] == flag(a.take(j) == b.take(j)));
        if a.take(j) == b.take(j) {
            assert(a.take(i) =~= a.take(j).take(i));
            assert(b.take(i) =~= b.take(j).take(i));
        }
    }
}

/// A step whose effect on the operands is known and which reads no tape.
proof fn lemma_known_step(v: StackView, program: Seq<Op>, from: int, step: int, expected: Seq<u128>) -> (next:
    StackView)
    requires
        v.wf(),
        0 <= step,
        step + 1 < v.trace.len(),
        0 <= from < program.len(),
        effect(v, program[from], step) matches Ok(e) && e.stack == expected && e.tape_a == v.tape_a
            && e.tape_b == v.tape_b,
    ensures
        next.wf(),
        next.trace.len() == v.trace.len(),
        next.depth == expected.len(),
        next.live(step + 1) == expected,
        next.tape_a == v.tape_a,
        next.tape_b == v.tape_b,
        run_from(v, program, from, step) == run_from(next, program, from + 1, step + 1),
{
    lemma_apply_effect(v, program[from], step);
    let next = v.install(step, effect(v, program[from], step).unwrap());
    lemma_run_step(v, program, from, step, next);
    next
}

/// The first four operations of a finale: they drop the power of two, bring the
/// second operand above its accumulator, and compare the two.
proof fn lemma_finale_first_check(v: StackView, program: Seq<Op>, step: int) -> (next: StackView)
    requires
        v.wf(),
        0 <= step,
        step + 4 < v.trace.len(),
        v.depth >= 9,
        program.len() >= 4,
        program[0] == Op::Drop,
        program[1] == Op::Swap4,
        program[2] == Op::Roll4,
        program[3] == Op::Eq,
    ensures
        next.wf(),
        next.trace.len() == v.trace.len(),
        next.tape_a == v.tape_a,
        next.tape_b == v.tape_b,
        ({
            let s = v.live(step);
            next.live(step + 4) == seq![
                equality_flag(s[8], s[5]),
                s[6],
                s[7],
                s[1],
                s[2],
                s[3],
                s[4],
            ] + s.skip(9)
        }),
        next.depth == v.depth - 2,
        run_from(v, program, 0, step) == run_from(next, program, 4, step + 4),
{
    lemma_depth_fits(v);
    let s = v.live(step);
    let rest = s.skip(9);
    assert(s.len() == v.depth);
    let s1 = seq![s[1], s[2], s[3], s[4], s[5], s[6], s[7], s[8]] + rest;
    assert(s.skip(1) =~= s1);
    let v1 = lemma_known_step(v, program, 0, step, s1);
    let s2 = seq![s[5], s[6], s[7], s[8], s[1], s[2], s[3], s[4]] + rest;
    assert(s1.subrange(4, 8) + s1.take(4) + s1.skip(8) =~= s2);
    let v2 = lemma_known_step(v1, program, 1, step + 1, s2);
    let s3 = seq![s[8], s[5], s[6], s[7], s[1], s[2], s[3], s[4]] + rest;
    assert(seq![s2[3], s2[0], s2[1], s2[2]] + s2.skip(4) =~= s3);
    let v3 = lemma_known_step(v2, program, 2, step + 2, s3);
    let s4 = seq![equality_flag(s[8], s[5]), s[6], s[7], s[1], s[2], s[3], s[4]] + rest;
    assert(seq![equality_flag(s3[0], s3[1])] + s3.skip(2) =~= s4);
    let v4 = lemma_known_step(v3, program, 3, step + 3, s4);
    v4
}

/// The next two operations of a finale, after a first check that found its two
/// operands equal: they consume the flag and compare the first operand with its
/// accumulator.
proof fn lemma_finale_second_check(v: StackView, program: Seq<Op>, step: int, s: Seq<u128>) -> (next:
    StackView)
    requires
        v.wf(),
        0 <= step,
        step + 2 < v.trace.len(),
        program.len() >= 6,
        program[4] == Op::Assert,
        program[5] == Op::Eq,
        s.len() >= 7,
        s[0] == 1,
        v.depth == s.len(),
        v.live(step) == s,
    ensures
        next.wf(),
        next.trace.len() == v.trace.len(),
        next.tape_a == v.tape_a,
        next.tape_b == v.tape_b,
        next.live(step + 2) == seq![equality_flag(s[1], s[2]), s[3], s[4], s[5], s[6]] + s.skip(7),
        next.depth == v.depth - 2,
        run_from(v, program, 4, step) == run_from(next, program, 6, step + 2),
{
    let rest = s.skip(7);
    let s1 = seq![s[1], s[2], s[3], s[4], s[5], s[6]] + rest;
    assert(s.skip(1) =~= s1);
    let v1 = lemma_known_step(v, program, 4, step, s1);
    let s2 = seq![equality_flag(s[1], s[2]), s[3], s[4], s[5], s[6]] + rest;
    assert(seq![equality_flag(s1[0], s1[1])] + s1.skip(2) =~= s2);
    let v2 = lemma_known_step(v1, program, 5, step + 1, s2);
    v2
}

/// The three operations of a finale that follow a second check that found its
/// operands equal: they consume the flag and drop the two last bits.
proof fn lemma_finale_clears(v: StackView, program: Seq<Op>, step: int, s: Seq<u128>) -> (next: StackView)
    requires
        v.wf(),
        0 <= step,
        step + 3 < v.trace.len(),
        program.len() >= 9,
        program[6] == Op::Assert,
        program[7] == Op::Drop,
        program[8] == Op::Drop,
        s.len() >= 5,
        s[0] == 1,
        v.depth == s.len(),
        v.live(step) == s,
    ensures
        next.wf(),
        next.trace.len() == v.trace.len(),
        next.tape_a == v.tape_a,
        next.tape_b == v.tape_b,
        next.live(step + 3) == seq![s[3], s[4]] + s.skip(5),
        next.depth == v.depth - 3,
        run_from(v, program, 6, step) == run_from(next, program, 9, step + 3),
{
    let rest = s.skip(5);
    let s1 = seq![s[1], s[2], s[3], s[4]] + rest;
    assert(s.skip(1) =~= s1);
    let v1 = lemma_known_step(v, program, 6, step, s1);
    let s2 = seq![s[2], s[3], s[4]] + rest;
    assert(s1.skip(1) =~= s2);
    let v2 = lemma_known_step(v1, program, 7, step + 1, s2);
    let s3 = seq![s[3], s[4]] + rest;
    assert(s2.skip(1) =~= s3);
    let v3 = lemma_known_step(v2, program, 8, step + 2, s3);
    v3
}

/// An assertion that meets a flag other than one ends the program.
proof fn lemma_assertion_fails(v: StackView, program: Seq<Op>, from: int, step: int)
    requires
        v.wf(),
        0 <= step < v.trace.len(),
        0 <= from < program.len(),
        program[from] == Op::Assert,
        v.depth >= 1,
        v.live(step)[0] != 1,
    ensures
        run_from(v, program, from, step) == (v, Some(StackError::AssertionFailure)),
{
    lemma_run_unfold(v, program, from, step);
    lemma_apply_unfold(v, program[from], step);
}

/// The first nine operations of a finale, which the two finales share. Where each
/// accumulator equals its operand they leave the two flags on top of what lay
/// below the comparison; where one does not, the program ends in an assertion
/// failure.
proof fn lemma_finale_checks(v: StackView, program: Seq<Op>, step: int) -> (next: StackView)
    requires
        v.wf(),
        0 <= step,
        step + 9 < v.trace.len(),
        v.depth >= 9,
        program.len() >= 9,
        forall|i: int| 0 <= i < 9 ==> program[i] == lt_finale_program()[i],
    ensures
        ({
            let s = v.live(step);
            if s[5] == s[8] && s[6] == s[7] {
                &&& next.wf()
                &&& next.trace.len() == v.trace.len()
                &&& next.tape_a == v.tape_a
                &&& next.tape_b == v.tape_b
                &&& next.depth == v.depth - 7
                &&& next.live(step + 9) == seq![s[3], s[4]] + s.skip(9)
                &&& run_from(v, program, 0, step) == run_from(next, program, 9, step + 9)
            } else {
                run_from(v, program, 0, step).1 == Some(StackError::AssertionFailure)
            }
        }),
{
    let s = v.live(step);
    let rest = s.skip(9);
    let v4 = lemma_finale_first_check(v, program, step);
    let s4 = v4.live(step + 4);
    if s[5] == s[8] {
        let v6 = lemma_finale_second_check(v4, program, step + 4, s4);
        let s6 = v6.live(step + 6);
        assert(s4.skip(7) =~= rest);
        if s[6] == s[7] {
            let v9 = lemma_finale_clears(v6, program, step + 6, s6);
            assert(s6.skip(5) =~= rest);
            v9
        } else {
            lemma_assertion_fails(v6, program, 6, step + 6);
            v
        }
    } else {
        lemma_assertion_fails(v4, program, 4, step + 4);
        v
    }
}

/// The closing sequence of a less-than program selects `lt`. On the registers that a
/// comparison leaves, with the two compared operands below them, it succeeds
/// exactly where each accumulator equals its operand, and then leaves `lt` on top
/// of what lay below the two operands; otherwise it ends in an assertion failure.
pub proof fn lemma_lt_finale(v: StackView, step: int)
    requires
        v.wf(),
        0 <= step,
        step + 10 < v.trace.len(),
        v.depth >= 9,
    ensures
        ({
            let (end, error) = run(v, lt_finale_program(), step);
            let s = v.live(step);
            if s[5] == s[8] && s[6] == s[7] {
                &&& error is None
                &&& end.wf()
                &&& end.trace.len() == v.trace.len()
                &&& end.depth == v.depth - 8
                &&& end.live(step + 10) == seq![s[4]] + s.skip(9)
                &&& end.tape_a == v.tape_a
                &&& end.tape_b == v.tape_b
            } else {
                error == Some(StackError::AssertionFailure)
            }
        }),
{
    let program = lt_finale_program();
    let s = v.live(step);
    let v9 = lemma_finale_checks(v, program, step);
    if s[5] == s[8] && s[6] == s[7] {
        let s9 = v9.live(step + 9);
        let s10 = seq![s[4]] + s.skip(9);
        assert(s9.skip(1) =~= s10);
        let v10 = lemma_known_step(v9, program, 9, step + 9, s10);
        lemma_run_unfold(v10, program, 10, step + 10);
    }
}

/// The closing sequence of a greater-than program selects `gt`. On the registers
/// that a comparison leaves, with the two compared operands below them, it succeeds
/// exactly where each accumulator equals its operand, and then leaves `gt` on top
/// of what lay below the two operands; otherwise it ends in an assertion failure.
pub proof fn lemma_gt_finale(v: StackView, step: int)
    requires
        v.wf(),
        0 <= step,
        step + 11 < v.trace.len(),
        v.depth >= 9,
    ensures
        ({
            let (end, error) = run(v, gt_finale_program(), step);
            let s = v.live(step);
            if s[5] == s[8] && s[6] == s[7] {
                &&& error is None
                &&& end.wf()
                &&& end.trace.len() == v.trace.len()
                &&& end.depth == v.depth - 8
                &&& end.live(step + 11) == seq![s[3]] + s.skip(9)
                &&& end.tape_a == v.tape_a
                &&& end.tape_b == v.tape_b
            } else {
                error == Some(StackError::AssertionFailure)
            }
        }),
{
    let program = gt_finale_program();
    let s = v.live(step);
    let v9 = lemma_finale_checks(v, program, step);
    if s[5] == s[8] && s[6] == s[7] {
        let s9 = v9.live(step + 9);
        let s10 = seq![s[4], s[3]] + s.skip(9);
        assert(seq![s9[1], s9[0]] + s9.skip(2) =~= s10);
        let v10 = lemma_known_step(v9, program, 9, step + 9, s10);
        let s11 = seq![s[3]] + s.skip(9);
        assert(s10.skip(1) =~= s11);
        let v11 = lemma_known_step(v10, program, 10, step + 10, s11);
        lemma_run_unfold(v11, program, 11, step + 11);
    }
}

/// The state before a comparison program of `length` operations on operands of
/// `width` bits: there is room for the program, the six top operands are four zeros
/// and the two operands, both canonical, and each tape starts with the `width` bits
/// that spell its operand, most significant first.
pub open spec fn operands_ready(v: StackView, width: nat, step: int, length: nat) -> bool {
    &&& v.wf()
    &&& 0 <= step
    &&& step + length < v.trace.len()
    &&& 1 <= width <= 128
    &&& v.depth >= 6
    &&& v.live(step).take(4) == seq![0u128, 0u128, 0u128, 0u128]
    &&& F128::is_canonical(v.live(step)[4])
    &&& F128::is_canonical(v.live(step)[5])
    &&& v.tape_a.len() >= width
    &&& v.tape_b.len() >= width
    &&& all_bits(v.tape_a.take(width as int))
    &&& all_bits(v.tape_b.take(width as int))
    &&& bits_value(v.tape_a.take(width as int)) == v.live(step)[4]
    &&& bits_value(v.tape_b.take(width as int)) == v.live(step)[5]
}

/// The part that the two comparison programs share: the preamble and the comparison
/// steps. It leaves the registers of a finished comparison on top of the two
/// operands, each accumulator equal to its operand.
proof fn lemma_comparison_part(v: StackView, width: nat, step: int, length: nat) -> (end: StackView)
    requires
        operands_ready(v, width, step, length),
        length >= width + 2,
    ensures
        run(v, comparison_preamble(width) + compare_program(width), step) == (end, None::<StackError>),
        end.wf(),
        end.trace.len() == v.trace.len(),
        end.depth == v.depth + 3,
        ({
            let s = v.live(step);
            let t = end.live(step + 2 + width);
            &&& t[3] == flag(s[4] > s[5])
            &&& t[4] == flag(s[4] < s[5])
            &&& t[5] == s[5]
            &&& t[6] == s[4]
            &&& t[7] == s[4]
            &&& t[8] == s[5]
            &&& t.skip(9) == s.skip(6)
        }),
{
    let s = v.live(step);
    let rest = s.skip(6);
    let preamble = comparison_preamble(width);
    let power = pow2((width - 1) as nat) as u128;
    lemma_depth_fits(v);
    lemma_power_of_two_is_canonical((width - 1) as nat);
    assert(s.take(4)[0] == 0 && s.take(4)[1] == 0 && s.take(4)[2] == 0 && s.take(4)[3] == 0);
    let s1 = seq![0u128, 0u128, 0u128, 0u128, 0u128, 0u128, s[4], s[5]] + rest;
    assert(seq![0u128, 0u128] + s =~= s1);
    let v1 = lemma_known_step(v, preamble, 0, step, s1);
    let s2 = seq![power, 0u128, 0u128, 0u128, 0u128, 0u128, 0u128, s[4], s[5]] + rest;
    assert(seq![power] + s1 =~= s2);
    let v2 = lemma_known_step(v1, preamble, 1, step + 1, s2);
    lemma_run_unfold(v2, preamble, 2, step + 2);
    lemma_run_two_parts(v, preamble, compare_program(width), 0, step);
    lemma_comparison(v2, width, step + 2);
    let end = run(v2, compare_program(width), step + 2).0;
    let t = end.live(step + 2 + width);
    assert(s2.skip(7) =~= seq![s[4], s[5]] + rest);
    lemma_small_mod(s[4] as nat, F128::modulus() as nat);
    lemma_small_mod(s[5] as nat, F128::modulus() as nat);
    assert(t.skip(9) =~= rest);
    end
}

/// The less-than program answers with the order of its operands. Run on two
/// canonical operands below four zeros, with the bits of each operand on its tape,
/// it succeeds and leaves, in place of the six, one where the first operand is less
/// than the second and zero where it is not; what lay below the operands is
/// untouched.
pub proof fn lemma_less_than(v: StackView, width: nat, step: int)
    requires
        operands_ready(v, width, step, width + 12),
    ensures
        ({
            let (end, error) = run(v, lt_program(width), step);
            let s = v.live(step);
            &&& error is None
            &&& end.wf()
            &&& end.trace.len() == v.trace.len()
            &&& end.depth == v.depth - 5
            &&& end.live(step + width + 12) == seq![flag(s[4] < s[5])] + s.skip(6)
        }),
{
    let first = comparison_preamble(width) + compare_program(width);
    let mid = lemma_comparison_part(v, width, step, width + 12);
    lemma_run_two_parts(v, first, lt_finale_program(), 0, step);
    lemma_lt_finale(mid, step + 2 + width);
}

/// The greater-than program answers with the order of its operands. Run on two
/// canonical operands below four zeros, with the bits of each operand on its tape,
/// it succeeds and leaves, in place of the six, one where the first operand is
/// greater than the second and zero where it is not; what lay below the operands is
/// untouched.
pub proof fn lemma_greater_than(v: StackView, width: nat, step: int)
    requires
        operands_ready(v, width, step, width + 13),
    ensures
        ({
            let (end, error) = run(v, gt_program(width), step);
            let s = v.live(step);
            &&& error is None
            &&& end.wf()
            &&& end.trace.len() == v.trace.len()
            &&& end.depth == v.depth - 5
            &&& end.live(step + width + 13) == seq![flag(s[4] > s[5])] + s.skip(6)
        }),
{
    let first = comparison_preamble(width) + compare_program(width);
    let mid = lemma_comparison_part(v, width, step, width + 13);
    lemma_run_two_parts(v, first, gt_finale_program(), 0, step);
    lemma_gt_finale(mid, step + 2 + width);
}

/// What the equality operation writes. On a state with two live operands or more it
/// succeeds; the row of the next step holds the flag of the top two operands in
/// their place, one where they are equal and zero where they differ; the witness of
/// the step is the inverse of their difference where they differ, and one where
/// they are equal; the depth is one less.
pub proof fn lemma_equality_step(v: StackView, step: int)
    requires
        v.wf(),
        0 <= step,
        step + 1 < v.trace.len(),
        v.depth >= 2,
    ensures
        ({
            let s = v.live(step);
            &&& apply(v, Op::Eq, step) matches Ok(next) && {
                &&& next.live(step + 1) == seq![flag(s[0] == s[1])] + s.skip(2)
                &&& next.aux[step] == (if s[0] == s[1] {
                    1
                } else {
                    F128::reciprocal(F128::difference(s[0], s[1]))
                })
                &&& next.depth == v.depth - 1
                &&& next.max_depth == v.max_depth
            }
        }),
{
    lemma_depth_fits(v);
    lemma_apply_effect(v, Op::Eq, step);
}

/// The equality gadget meets its constraints. For canonical operands `a` and `b`
/// the flag `f` is a bit, `f * (1 - f) = 0`, and one exactly where the operands are
/// equal; and the witness `w` has `(a - b) * w = 1 - f`, being the inverse of the
/// difference wherever the operands differ.
pub proof fn lemma_equality_gadget(a: u128, b: u128)
    requires
        F128::is_canonical(a),
        F128::is_canonical(b),
    ensures
        ({
            let f = equality_flag(a, b);
            let w = equality_witness(a, b);
            let d = F128::difference(a, b);
            &&& f == flag(a == b)
            &&& F128::product(f, F128::difference(1, f)) == 0
            &&& F128::product(d, w) == F128::difference(1, f)
            &&& a != b ==> w == F128::reciprocal(d) && F128::product(d, w) == 1
        }),
{
    let m = F128::modulus();
    let d = F128::difference(a, b);
    assert(0 * 0 == 0 && 0 * 1 == 0 && 1 * 0 == 0 && 1 * 1 == 1);
    assert(0int % m == 0 && 1int % m == 1);
    assert(F128::difference(1, 0) == 1);
    assert(F128::difference(1, 1) == 0);
    lemma_mod_bound(a - b, m);
    if a == b {
        assert(d * 1 == 0);
    } else {
        if a > b {
            lemma_small_mod((a - b) as nat, m as nat);
        } else {
            lemma_fundamental_div_mod_converse(a - b, m, -1, a - b + m);
        }
        lemma_small_mod(d as nat, m as nat);
        lemma_field(d as int);
        lemma_inverse_of_unit(d as int, m);
    }
}

/// The depth bookkeeping holds along every program: the state that a program
/// reaches is well formed, so its depth is the last entry of its depth history and
/// its maximum depth the largest entry; the history has grown by one entry for
/// each operation that ran, and what it held before is still its beginning.
pub proof fn lemma_depth_bookkeeping(v: StackView, program: Seq<Op>, from: int, step: int)
    requires
        v.wf(),
        0 <= step,
        0 <= from <= program.len(),
        step + (program.len() - from) < v.trace.len(),
    ensures
        ({
            let (end, error) = run_from(v, program, from, step);
            &&& end.wf()
            &&& end.depth == end.depths.last()
            &&& end.max_depth == running_max(end.depths)
            &&& end.max_depth >= v.max_depth
            &&& end.trace.len() == v.trace.len()
            &&& v.depths.len() <= end.depths.len() <= v.depths.len() + (program.len() - from)
            &&& end.depths.take(v.depths.len() as int) == v.depths
            &&& error is None ==> end.depths.len() == v.depths.len() + (program.len() - from)
        }),
    decreases program.len() - from,
{
    lemma_run_unfold(v, program, from, step);
    assert(v.depths.take(v.depths.len() as int) =~= v.depths);
    if from < program.len() {
        lemma_apply_shape(v, program[from], step);
        match apply(v, program[from], step) {
            Ok(next) => {
                lemma_depth_bookkeeping(next, program, from + 1, step + 1);
                let end = run_from(next, program, from + 1, step + 1).0;
                assert(end.depths.take(v.depths.len() as int) =~= end.depths.take(
                    next.depths.len() as int,
                ).take(v.depths.len() as int));
                assert(next.depths.take(v.depths.len() as int) =~= v.depths);
            },
            Err(_) => {},
        }
    }
}

/// A program writes each row once. Run from `step` on, it leaves what the rows up to
/// `step` held and the witnesses of the steps before `step` as they were: an
/// operation writes the row after its own step and the witness of its own step,
/// and nothing else.
pub proof fn lemma_earlier_rows_stay(v: StackView, program: Seq<Op>, from: int, step: int)
    requires
        v.wf(),
        0 <= step,
        0 <= from <= program.len(),
        step + (program.len() - from) < v.trace.len(),
    ensures
        ({
            let end = run_from(v, program, from, step).0;
            &&& end.wf()
            &&& end.width() >= v.width()
            &&& forall|s: int, i: int|
                0 <= s <= step && 0 <= i < v.width() ==> end.trace[s][i] == v.trace[s][i]
            &&& forall|s: int| 0 <= s < step ==> end.aux[s] == v.aux[s]
        }),
    decreases program.len() - from,
{
    lemma_run_unfold(v, program, from, step);
    if from < program.len() {
        lemma_apply_unfold(v, program[from], step);
        match effect(v, program[from], step) {
            Ok(e) => {
                let next = v.install(step, e);
                lemma_apply_effect(v, program[from], step);
                lemma_earlier_rows_stay(next, program, from + 1, step + 1);
                let end = run_from(next, program, from + 1, step + 1).0;
                assert forall|s: int, i: int| 0 <= s <= step && 0 <= i < v.width() implies end.trace[s][i]
                    == v.trace[s][i] by {
                    assert(next.trace[s][i] == v.trace[s][i]);
                }
            },
            Err(_) => {},
        }
    }
}

} // verus!
