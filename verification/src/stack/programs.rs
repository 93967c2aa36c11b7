//! Programs: sequences of operations run at consecutive steps, and the two closing
//! sequences that turn the registers of a finished comparison into one flag.
use crate::stack::Stack;
use crate::stack::machine::{
    lemma_apply_shape, lemma_apply_unfold, lemma_run_unfold, run, run_from, ExecutionHint,
    Op, StackError,
};
use vstd::arithmetic::power2::pow2;
use vstd::prelude::*;

verus! {

/// The closing sequence of a less-than program. It runs on the registers that the
/// comparison steps leave: the spent power of two, the two last bits, the flags `gt`
/// and `lt`, the accumulators of the second and of the first operand, and below them
/// the two operands themselves. It drops the power, asserts that each accumulator
/// has rebuilt its operand, and leaves `lt` in place of all nine.
pub open spec fn lt_finale_program() -> Seq<Op> {
    seq![
        Op::Drop,
        Op::Swap4,
        Op::Roll4,
        Op::Eq,
        Op::Assert,
        Op::Eq,
        Op::Assert,
        Op::Drop,
        Op::Drop,
        Op::Drop,
    ]
}

/// The closing sequence of a greater-than program: that of less-than, but for its
/// end, which exchanges the two flags before it drops one, and so leaves `gt`.
pub open spec fn gt_finale_program() -> Seq<Op> {
    seq![
        Op::Drop,
        Op::Swap4,
        Op::Roll4,
        Op::Eq,
        Op::Assert,
        Op::Eq,
        Op::Assert,
        Op::Drop,
        Op::Drop,
        Op::Swap,
        Op::Drop,
    ]
}

/// The two operations that open a comparison of operands of `width` bits: they put
/// two more zeros on the four that the caller left above the operands, and on top
/// of them the power of two of the most significant bit.
pub open spec fn comparison_preamble(width: nat) -> Seq<Op> {
    seq![Op::Pad2, Op::Push(pow2((width - 1) as nat) as u128)]
}

/// The comparison steps of operands of `width` bits, each reading its bits from the
/// tapes.
pub open spec fn compare_program(width: nat) -> Seq<Op> {
    Seq::new(width, |i: int| Op::Compare(ExecutionHint::NoHint))
}

/// The accumulation steps of a number of `width` bits, each reading its bit from the
/// first tape.
pub open spec fn accumulate_program(width: nat) -> Seq<Op> {
    Seq::new(width, |i: int| Op::BinAcc(ExecutionHint::NoHint))
}

/// The program that decides whether the first of two operands of `width` bits is
/// less than the second.
pub open spec fn lt_program(width: nat) -> Seq<Op> {
    comparison_preamble(width) + compare_program(width) + lt_finale_program()
}

/// The program that decides whether the first of two operands of `width` bits is
/// greater than the second.
pub open spec fn gt_program(width: nat) -> Seq<Op> {
    comparison_preamble(width) + compare_program(width) + gt_finale_program()
}

/// Runs `program` from `step` on, one operation per step, until it ends or an
/// operation fails. Answers with the step after the last operation, or with the
/// error of the operation that failed; the stack then is as that operation met it.
pub fn run_program(stack: &mut Stack, program: &[Op], step: usize) -> (r: Result<usize, StackError>)
    requires
        old(stack).wf(),
        step + program@.len() < old(stack)@.trace_length(),
        old(stack)@.depth + 2 * program@.len() <= usize::MAX,
    ensures
        final(stack).wf(),
        final(stack)@ == run(old(stack)@, program@, step as int).0,
        match run(old(stack)@, program@, step as int).1 {
            None => r == Ok::<usize, StackError>((step + program@.len()) as usize),
            Some(e) => r == Err::<usize, StackError>(e),
        },
{
    let length = stack.trace_length();
    let mut i: usize = 0;
    while i < program.len()
        invariant
            i <= program@.len(),
            stack.wf(),
            stack@.trace_length() == length,
            step + program@.len() < length,
            stack@.depth + 2 * (program@.len() - i) <= usize::MAX,
            run(old(stack)@, program@, step as int) == run_from(
                stack@,
                program@,
                i as int,
                step + i,
            ),
        decreases program@.len() - i,
    {
        proof {
            lemma_run_unfold(stack@, program@, i as int, step + i);
            lemma_apply_unfold(stack@, program@[i as int], step + i);
            lemma_apply_shape(stack@, program@[i as int], step + i);
        }
        match stack.execute(program[i], step + i) {
            Ok(()) => {},
            Err(e) => {
                return Err(e);
            },
        }
        i = i + 1;
    }
    proof {
        lemma_run_unfold(stack@, program@, i as int, step + i);
    }
    Ok(step + i)
}

/// Runs the closing sequence of a less-than program from `step` on.
pub fn lt_finale(stack: &mut Stack, step: usize) -> (r: Result<usize, StackError>)
    requires
        old(stack).wf(),
        step + 10 < old(stack)@.trace_length(),
        old(stack)@.depth + 20 <= usize::MAX,
    ensures
        final(stack).wf(),
        final(stack)@ == run(old(stack)@, lt_finale_program(), step as int).0,
        match run(old(stack)@, lt_finale_program(), step as int).1 {
            None => r == Ok::<usize, StackError>((step + 10) as usize),
            Some(e) => r == Err::<usize, StackError>(e),
        },
{
    let program = vec![
        Op::Drop,
        Op::Swap4,
        Op::Roll4,
        Op::Eq,
        Op::Assert,
        Op::Eq,
        Op::Assert,
        Op::Drop,
        Op::Drop,
        Op::Drop,
    ];
    assert(program@ =~= lt_finale_program());
    run_program(stack, program.as_slice(), step)
}

/// Runs the closing sequence of a greater-than program from `step` on.
pub fn gt_finale(stack: &mut Stack, step: usize) -> (r: Result<usize, StackError>)
    requires
        old(stack).wf(),
        step + 11 < old(stack)@.trace_length(),
        old(stack)@.depth + 22 <= usize::MAX,
    ensures
        final(stack).wf(),
        final(stack)@ == run(old(stack)@, gt_finale_program(), step as int).0,
        match run(old(stack)@, gt_finale_program(), step as int).1 {
            None => r == Ok::<usize, StackError>((step + 11) as usize),
            Some(e) => r == Err::<usize, StackError>(e),
        },
{
    let program = vec![
        Op::Drop,
        Op::Swap4,
        Op::Roll4,
        Op::Eq,
        Op::Assert,
        Op::Eq,
        Op::Assert,
        Op::Drop,
        Op::Drop,
        Op::Swap,
        Op::Drop,
    ];
    assert(program@ =~= gt_finale_program());
    run_program(stack, program.as_slice(), step)
}

} // verus!
