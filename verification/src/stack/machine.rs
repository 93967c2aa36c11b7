//! The machine as mathematics: the abstract state of a trace under construction and
//! the transition that each operation makes on it.
//!
//! Every contract of the executable stack is stated over the definitions of this
//! file. A state is the whole table built so far; an operation at step `s` reads the
//! live operands of row `s`, writes row `s + 1`, and records one witness value for
//! step `s`.
use crate::math::field128::F128;
use vstd::prelude::*;

verus! {

/// The least number of register columns that a trace has.
pub const MIN_STACK_DEPTH: usize = 8;

/// Why an operation refused to extend the trace.
#[derive(Debug, Clone, Copy, PartialEq, Eq, Structural)]
pub enum StackError {
    /// The operation needs more operands than are live.
    StackUnderflow,
    /// An assertion met a value other than one.
    AssertionFailure,
    /// The advice that the operation needs is absent, of the wrong shape, or not a bit.
    MissingOrInvalidHint,
}

/// Advice handed to one invocation of a hinted operation.
#[derive(Debug, Clone, Copy, PartialEq, Eq, Structural)]
pub enum ExecutionHint {
    /// Nothing travels with the call: the operation draws its bits from the input tapes.
    NoHint,
    /// One bit, for the binary accumulation.
    Bit(u128),
    /// The next bit of the first operand and the next bit of the second, for the comparison.
    BitPair(u128, u128),
}

/// An operation of the machine.
#[derive(Debug, Clone, Copy, PartialEq, Eq, Structural)]
pub enum Op {
    /// Put a value on top.
    Push(u128),
    /// Put two zeros on top.
    Pad2,
    /// Remove the top operand.
    Drop,
    /// Exchange the top two operands.
    Swap,
    /// Exchange the top four operands with the four below them.
    Swap4,
    /// Bring the fourth operand to the top.
    Roll4,
    /// Remove the top operand, which must be one.
    Assert,
    /// Replace the top two operands by the flag that says whether they are equal.
    Eq,
    /// Take one bit of each compared operand into the comparison registers.
    Compare(ExecutionHint),
    /// Take one bit into the binary accumulator.
    BinAcc(ExecutionHint),
}

/// The abstract state of a stack: the table, the witness column, what is left of the
/// two input tapes, and the depth bookkeeping.
pub struct StackView {
    /// The register table, one row per step; position zero of a row is the top.
    pub trace: Seq<Seq<u128>>,
    /// The witness column, one value per step.
    pub aux: Seq<u128>,
    /// What is left of the first input tape, next value first.
    pub tape_a: Seq<u128>,
    /// What is left of the second input tape, next value first.
    pub tape_b: Seq<u128>,
    /// The number of live operands.
    pub depth: nat,
    /// The largest depth reached so far.
    pub max_depth: nat,
    /// The depth at construction followed by the depth after each operation.
    pub depths: Seq<nat>,
}

/// The larger of two naturals.
pub open spec fn larger(a: nat, b: nat) -> nat {
    if a >= b {
        a
    } else {
        b
    }
}

/// The largest member of a sequence of naturals, zero for the empty one.
pub open spec fn running_max(s: Seq<nat>) -> nat
    decreases s.len(),
{
    if s.len() == 0 {
        0
    } else {
        larger(running_max(s.drop_last()), s.last())
    }
}

/// The number of register columns of a table whose depth never exceeded `max_depth`.
pub open spec fn width_for(max_depth: nat) -> nat {
    larger(MIN_STACK_DEPTH as nat, max_depth)
}

/// `s` cut or filled with zeros to `width` entries.
pub open spec fn pad(s: Seq<u128>, width: nat) -> Seq<u128> {
    Seq::new(
        width,
        |i: int|
            if i < s.len() {
                s[i]
            } else {
                0u128
            },
    )
}

/// `x` is zero or one.
pub open spec fn is_bit(x: u128) -> bool {
    x == 0 || x == 1
}

/// One where the operands are equal, zero where they differ.
pub open spec fn equality_flag(a: u128, b: u128) -> u128 {
    if a == b {
        1
    } else {
        0
    }
}

/// The witness of an equality test: the inverse of the difference where the operands
/// differ, and the placeholder one where they are equal.
pub open spec fn equality_witness(a: u128, b: u128) -> u128 {
    if a == b {
        1
    } else {
        F128::reciprocal(F128::difference(a, b))
    }
}

/// The witness of a comparison step, `(1 - gt) * (1 - lt)`: one as long as neither
/// flag is set.
pub open spec fn not_set(gt: u128, lt: u128) -> u128 {
    F128::product(F128::difference(1, gt), F128::difference(1, lt))
}

/// The seven comparison registers after one more bit of each operand. Before the
/// step they hold, from the top: the power of two of the bit, the two bits taken
/// last, the flags `gt` and `lt`, and the accumulators of the second and of the
/// first operand.
pub open spec fn compare_row(s: Seq<u128>, a_bit: u128, b_bit: u128) -> Seq<u128> {
    let pending = not_set(s[3], s[4]);
    let bit_gt = F128::product(a_bit, F128::difference(1, b_bit));
    let bit_lt = F128::product(b_bit, F128::difference(1, a_bit));
    seq![
        F128::halved(s[0]),
        a_bit,
        b_bit,
        F128::sum(s[3], F128::product(bit_gt, pending)),
        F128::sum(s[4], F128::product(bit_lt, pending)),
        F128::sum(s[5], F128::product(b_bit, s[0])),
        F128::sum(s[6], F128::product(a_bit, s[0])),
    ]
}

/// The two accumulation registers after one more bit: the halved power of two on
/// top, and below it the accumulator plus the bit times the power.
pub open spec fn accumulate_row(s: Seq<u128>, bit: u128) -> Seq<u128> {
    seq![F128::halved(s[0]), F128::sum(s[1], F128::product(bit, s[0]))]
}

impl StackView {
    /// The number of steps that the table has room for.
    pub open spec fn trace_length(self) -> nat {
        self.trace.len()
    }

    /// The number of register columns.
    pub open spec fn width(self) -> nat {
        width_for(self.max_depth)
    }

    /// The live operands in the row of `step`, top first.
    pub open spec fn live(self, step: int) -> Seq<u128> {
        self.trace[step].take(self.depth as int)
    }

    /// The table is rectangular, the witness column is as long as the table, and the
    /// depth bookkeeping is consistent: the depth is the last entry of its history
    /// and the maximum depth is the largest entry.
    pub open spec fn wf(self) -> bool {
        &&& self.trace.len() >= 1
        &&& self.aux.len() == self.trace.len()
        &&& forall|s: int| 0 <= s < self.trace.len() ==> (#[trigger] self.trace[s]).len() == self.width()
        &&& self.depths.len() >= 1
        &&& self.depths.last() == self.depth
        &&& running_max(self.depths) == self.max_depth
    }

    /// The state after an operation at `step` that leaves `stack` as the live
    /// operands and records `aux`. The row of `step + 1` becomes `stack` filled with
    /// zeros; a table that was too narrow for it gains zero columns.
    pub open spec fn advance(self, step: int, stack: Seq<u128>, aux: u128) -> StackView {
        let max_depth = larger(self.max_depth, stack.len());
        let width = width_for(max_depth);
        StackView {
            trace: Seq::new(
                self.trace.len(),
                |s: int|
                    if s == step + 1 {
                        pad(stack, width)
                    } else {
                        pad(self.trace[s], width)
                    },
            ),
            aux: self.aux.update(step, aux),
            tape_a: self.tape_a,
            tape_b: self.tape_b,
            depth: stack.len(),
            max_depth,
            depths: self.depths.push(stack.len()),
        }
    }

    /// The same state with other tapes.
    pub open spec fn with_tapes(self, tape_a: Seq<u128>, tape_b: Seq<u128>) -> StackView {
        StackView { tape_a, tape_b, ..self }
    }

    /// The state after an operation at `step` with the given effect.
    pub open spec fn install(self, step: int, e: Effect) -> StackView {
        self.advance(step, e.stack, e.aux).with_tapes(e.tape_a, e.tape_b)
    }
}

/// The advice of one step: the bits it works on and the tapes it leaves.
pub struct Advice {
    /// The bit of the first operand, or the only bit.
    pub a_bit: u128,
    /// The bit of the second operand.
    pub b_bit: u128,
    /// The first tape after the step.
    pub tape_a: Seq<u128>,
    /// The second tape after the step.
    pub tape_b: Seq<u128>,
}

/// The two bits of a comparison step: the pair that the hint carries, or, without a
/// hint, the next value of each tape. No advice where the hint has another shape,
/// where a tape that would be read is empty, or where a value is not a bit.
pub open spec fn compare_advice(v: StackView, hint: ExecutionHint) -> Option<Advice> {
    match hint {
        ExecutionHint::NoHint => if v.tape_a.len() > 0 && v.tape_b.len() > 0 && is_bit(v.tape_a[0])
            && is_bit(v.tape_b[0]) {
            Some(
                Advice {
                    a_bit: v.tape_a[0],
                    b_bit: v.tape_b[0],
                    tape_a: v.tape_a.skip(1),
                    tape_b: v.tape_b.skip(1),
                },
            )
        } else {
            None
        },
        ExecutionHint::BitPair(a_bit, b_bit) => if is_bit(a_bit) && is_bit(b_bit) {
            Some(Advice { a_bit, b_bit, tape_a: v.tape_a, tape_b: v.tape_b })
        } else {
            None
        },
        ExecutionHint::Bit(_) => None,
    }
}

/// The bit of an accumulation step: the one that the hint carries, or, without a
/// hint, the next value of the first tape. No advice where the hint has another
/// shape, where the tape is empty, or where the value is not a bit.
pub open spec fn accumulate_advice(v: StackView, hint: ExecutionHint) -> Option<Advice> {
    match hint {
        ExecutionHint::NoHint => if v.tape_a.len() > 0 && is_bit(v.tape_a[0]) {
            Some(
                Advice {
                    a_bit: v.tape_a[0],
                    b_bit: 0,
                    tape_a: v.tape_a.skip(1),
                    tape_b: v.tape_b,
                },
            )
        } else {
            None
        },
        ExecutionHint::Bit(bit) => if is_bit(bit) {
            Some(Advice { a_bit: bit, b_bit: 0, tape_a: v.tape_a, tape_b: v.tape_b })
        } else {
            None
        },
        ExecutionHint::BitPair(_, _) => None,
    }
}

/// The state of a new stack: the public inputs are the live operands of row zero,
/// first input on top; every other cell and every witness is zero.
pub open spec fn initial_state(
    inputs: Seq<u128>,
    tape_a: Seq<u128>,
    tape_b: Seq<u128>,
    trace_length: nat,
) -> StackView {
    let width = width_for(inputs.len());
    StackView {
        trace: Seq::new(
            trace_length,
            |s: int|
                if s == 0 {
                    pad(inputs, width)
                } else {
                    pad(Seq::empty(), width)
                },
        ),
        aux: Seq::new(trace_length, |s: int| 0u128),
        tape_a,
        tape_b,
        depth: inputs.len(),
        max_depth: inputs.len(),
        depths: seq![inputs.len()],
    }
}

/// What an operation does to the live operands and the tapes, and the witness it
/// records.
pub struct Effect {
    /// The live operands after the operation, top first.
    pub stack: Seq<u128>,
    /// The witness of the step.
    pub aux: u128,
    /// The first tape after the operation.
    pub tape_a: Seq<u128>,
    /// The second tape after the operation.
    pub tape_b: Seq<u128>,
}

/// The effect of an operation that reads no tape and records no witness: the given
/// operands, the witness zero, the tapes of `v`.
pub open spec fn plain(v: StackView, stack: Seq<u128>) -> Effect {
    Effect { stack, aux: 0, tape_a: v.tape_a, tape_b: v.tape_b }
}

/// What `op` does when it runs at `step` on the state `v`, or the reason why it
/// cannot run.
pub open spec fn effect(v: StackView, op: Op, step: int) -> Result<Effect, StackError> {
    let s = v.live(step);
    match op {
        Op::Push(value) => Ok(plain(v, seq![value] + s)),
        Op::Pad2 => Ok(plain(v, seq![0u128, 0u128] + s)),
        Op::Drop => if v.depth < 1 {
            Err(StackError::StackUnderflow)
        } else {
            Ok(plain(v, s.skip(1)))
        },
        Op::Swap => if v.depth < 2 {
            Err(StackError::StackUnderflow)
        } else {
            Ok(plain(v, seq![s[1], s[0]] + s.skip(2)))
        },
        Op::Swap4 => if v.depth < 8 {
            Err(StackError::StackUnderflow)
        } else {
            Ok(plain(v, s.subrange(4, 8) + s.take(4) + s.skip(8)))
        },
        Op::Roll4 => if v.depth < 4 {
            Err(StackError::StackUnderflow)
        } else {
            Ok(plain(v, seq![s[3], s[0], s[1], s[2]] + s.skip(4)))
        },
        Op::Assert => if v.depth < 1 {
            Err(StackError::StackUnderflow)
        } else if s[0] != 1 {
            Err(StackError::AssertionFailure)
        } else {
            Ok(plain(v, s.skip(1)))
        },
        Op::Eq => if v.depth < 2 {
            Err(StackError::StackUnderflow)
        } else {
            Ok(
                Effect {
                    stack: seq![equality_flag(s[0], s[1])] + s.skip(2),
                    aux: equality_witness(s[0], s[1]),
                    tape_a: v.tape_a,
                    tape_b: v.tape_b,
                },
            )
        },
        Op::Compare(hint) => if v.depth < 7 {
            Err(StackError::StackUnderflow)
        } else {
            match compare_advice(v, hint) {
                Some(advice) => Ok(
                    Effect {
                        stack: compare_row(s, advice.a_bit, advice.b_bit) + s.skip(7),
                        aux: not_set(s[3], s[4]),
                        tape_a: advice.tape_a,
                        tape_b: advice.tape_b,
                    },
                ),
                None => Err(StackError::MissingOrInvalidHint),
            }
        },
        Op::BinAcc(hint) => if v.depth < 2 {
            Err(StackError::StackUnderflow)
        } else {
            match accumulate_advice(v, hint) {
                Some(advice) => Ok(
                    Effect {
                        stack: accumulate_row(s, advice.a_bit) + s.skip(2),
                        aux: advice.a_bit,
                        tape_a: advice.tape_a,
                        tape_b: advice.tape_b,
                    },
                ),
                None => Err(StackError::MissingOrInvalidHint),
            }
        },
    }
}

/// What `op` makes of the state `v` when it runs at `step`: the next state, in which
/// the effect of the operation is written into the table, or the reason why there
/// is none.
#[verifier::opaque]
pub open spec fn apply(v: StackView, op: Op, step: int) -> Result<StackView, StackError> {
    match effect(v, op, step) {
        Ok(e) => Ok(v.install(step, e)),
        Err(error) => Err(error),
    }
}

/// `post` and `result` are what `op` at `step` makes of `pre`: on success the next
/// state, on failure the error and an untouched state.
pub open spec fn follows(
    pre: StackView,
    op: Op,
    step: usize,
    post: StackView,
    result: Result<(), StackError>,
) -> bool {
    match effect(pre, op, step as int) {
        Ok(e) => result is Ok && post == pre.install(step as int, e),
        Err(error) => result == Err::<(), StackError>(error) && post == pre,
    }
}

/// What a program makes of a state: the operations from index `from` on run at the
/// steps from `step` on, one step each, until the program ends or one of them fails.
/// The answer holds the state reached and, after a failure, the error; the state
/// then is the one that the failing operation met.
#[verifier::opaque]
pub open spec fn run_from(v: StackView, program: Seq<Op>, from: int, step: int) -> (
    StackView,
    Option<StackError>,
)
    decreases program.len() - from,
{
    if from < 0 || from >= program.len() {
        (v, None)
    } else {
        match apply(v, program[from], step) {
            Ok(next) => run_from(next, program, from + 1, step + 1),
            Err(e) => (v, Some(e)),
        }
    }
}

/// What a whole program makes of a state when its first operation runs at `step`.
pub open spec fn run(v: StackView, program: Seq<Op>, step: int) -> (StackView, Option<StackError>) {
    run_from(v, program, 0, step)
}

/// What `advance` leaves in place: the length of the table, and well-formedness. The
/// depth history gains the new depth.
pub proof fn lemma_advance_shape(v: StackView, step: int, stack: Seq<u128>, aux: u128)
    requires
        v.wf(),
        0 <= step < v.trace.len(),
    ensures
        v.advance(step, stack, aux).wf(),
        v.advance(step, stack, aux).trace.len() == v.trace.len(),
        v.advance(step, stack, aux).depth == stack.len(),
        v.advance(step, stack, aux).depths == v.depths.push(stack.len()),
{
    lemma_running_max_push(v.depths, stack.len());
}

/// In a well-formed state the depth is no more than the maximum depth, which is no
/// more than the width.
pub proof fn lemma_depth_fits(v: StackView)
    requires
        v.wf(),
    ensures
        v.depth <= v.max_depth <= v.width(),
{
    assert(v.depths.drop_last().push(v.depths.last()) =~= v.depths);
}

/// An operation never lengthens the live operands by more than two.
pub proof fn lemma_effect_grows_by_two(v: StackView, op: Op, step: int)
    requires
        v.wf(),
        0 <= step < v.trace.len(),
    ensures
        effect(v, op, step) matches Ok(e) ==> e.stack.len() <= v.depth + 2,
{
    lemma_depth_fits(v);
    assert(v.live(step).len() == v.depth);
}

/// What `apply` is: the effect of the operation written into the table.
pub proof fn lemma_apply_unfold(v: StackView, op: Op, step: int)
    ensures
        apply(v, op, step) == match effect(v, op, step) {
            Ok(e) => Ok::<StackView, StackError>(v.install(step, e)),
            Err(error) => Err::<StackView, StackError>(error),
        },
{
    reveal(apply);
}

/// The shape of what a successful operation at `step` leaves: a well-formed state
/// with a table as long as before, a depth that has grown by two at most, and a
/// depth history with one more entry.
pub proof fn lemma_apply_shape(v: StackView, op: Op, step: int)
    requires
        v.wf(),
        0 <= step,
        step + 1 < v.trace.len(),
    ensures
        apply(v, op, step) matches Ok(next) ==> {
            &&& next.wf()
            &&& next.trace.len() == v.trace.len()
            &&& next.depth <= v.depth + 2
            &&& next.max_depth == larger(v.max_depth, next.depth)
            &&& next.depths == v.depths.push(next.depth)
        },
{
    reveal(apply);
    match effect(v, op, step) {
        Ok(e) => {
            lemma_advance_shape(v, step, e.stack, e.aux);
            lemma_effect_grows_by_two(v, op, step);
        },
        Err(_) => {},
    }
}

/// What a successful operation at `step` writes: the row of `step + 1` holds the new
/// live operands, every other row holds what it held, the witness of `step` is the
/// one of the operation, and the tapes are those that the operation leaves.
pub proof fn lemma_apply_effect(v: StackView, op: Op, step: int)
    requires
        v.wf(),
        0 <= step,
        step + 1 < v.trace.len(),
        effect(v, op, step) is Ok,
    ensures
        ({
            let e = effect(v, op, step).unwrap();
            let next = v.install(step, e);
            &&& apply(v, op, step) == Ok::<StackView, StackError>(next)
            &&& next.wf()
            &&& next.trace.len() == v.trace.len()
            &&& next.depth == e.stack.len()
            &&& next.max_depth == larger(v.max_depth, next.depth)
            &&& next.live(step + 1) == e.stack
            &&& next.aux == v.aux.update(step, e.aux)
            &&& next.tape_a == e.tape_a
            &&& next.tape_b == e.tape_b
            &&& forall|s: int, i: int|
                0 <= s < v.trace.len() && s != step + 1 && 0 <= i < v.width() ==> next.trace[s][i]
                    == v.trace[s][i]
        }),
{
    reveal(apply);
    let e = effect(v, op, step).unwrap();
    let next = v.install(step, e);
    lemma_advance_shape(v, step, e.stack, e.aux);
    lemma_depth_fits(next);
    assert(next.live(step + 1) =~= e.stack);
}

/// Running a program from one of its operations on is applying that operation and
/// running on from the next; running it from its end on changes nothing.
pub proof fn lemma_run_unfold(v: StackView, program: Seq<Op>, from: int, step: int)
    ensures
        0 <= from < program.len() ==> run_from(v, program, from, step) == match apply(
            v,
            program[from],
            step,
        ) {
            Ok(next) => run_from(next, program, from + 1, step + 1),
            Err(e) => (v, Some(e)),
        },
        from >= program.len() ==> run_from(v, program, from, step) == (v, None::<StackError>),
{
    reveal_with_fuel(run_from, 1);
}

/// Where the operation at `from` leads to `next`, running on from there is running
/// from `from`.
pub proof fn lemma_run_step(v: StackView, program: Seq<Op>, from: int, step: int, next: StackView)
    requires
        0 <= from < program.len(),
        apply(v, program[from], step) == Ok::<StackView, StackError>(next),
    ensures
        run_from(v, program, from, step) == run_from(next, program, from + 1, step + 1),
{
    lemma_run_unfold(v, program, from, step);
}

/// The second part of a program runs as it would alone.
pub proof fn lemma_run_second_part(v: StackView, p: Seq<Op>, q: Seq<Op>, i: int, step: int)
    requires
        0 <= i <= q.len(),
    ensures
        run_from(v, p + q, p.len() + i, step) == run_from(v, q, i, step),
    decreases q.len() - i,
{
    lemma_run_unfold(v, p + q, p.len() + i, step);
    lemma_run_unfold(v, q, i, step);
    if i < q.len() {
        assert((p + q)[p.len() + i] == q[i]);
        match apply(v, q[i], step) {
            Ok(next) => {
                lemma_run_second_part(next, p, q, i + 1, step + 1);
            },
            Err(_) => {},
        }
    }
}

/// A program made of two parts runs its first part and, where that succeeds, its
/// second part from the state and the step that the first part reached.
pub proof fn lemma_run_two_parts(v: StackView, p: Seq<Op>, q: Seq<Op>, from: int, step: int)
    requires
        0 <= from <= p.len(),
    ensures
        ({
            let (mid, error) = run_from(v, p, from, step);
            run_from(v, p + q, from, step) == if error is Some {
                (mid, error)
            } else {
                run_from(mid, q, 0, step + p.len() - from)
            }
        }),
    decreases p.len() - from,
{
    lemma_run_unfold(v, p, from, step);
    lemma_run_unfold(v, p + q, from, step);
    if from < p.len() {
        assert((p + q)[from] == p[from]);
        match apply(v, p[from], step) {
            Ok(next) => {
                lemma_run_two_parts(next, p, q, from + 1, step + 1);
            },
            Err(_) => {},
        }
    } else {
        lemma_run_second_part(v, p, q, 0, step);
    }
}

/// Appending a value to a sequence gives the larger of the old maximum and the value.
pub proof fn lemma_running_max_push(s: Seq<nat>, x: nat)
    ensures
        running_max(s.push(x)) == larger(running_max(s), x),
{
    assert(s.push(x).drop_last() =~= s);
}

} // verus!
