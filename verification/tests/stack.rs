use distaff::math::field128::F128;
use distaff::stack::machine::{ExecutionHint, Op, StackError};
use distaff::stack::programs::{gt_finale, lt_finale, run_program};
use distaff::stack::Stack;

const M128: u128 = 340282366920938463463374557953744961537;

fn bits_of(x: u128, size: usize) -> Vec<u128> {
    let mut bits = Vec::new();
    for i in 0..size {
        bits.push((x >> i) & 1);
    }
    bits.reverse();
    bits
}

#[test]
fn new_stack_holds_the_public_inputs() {
    let stack = Stack::new(&[3, 4], &[1, 0], &[0], 4);
    assert_eq!(4, stack.trace_length());
    assert_eq!(2, stack.depth());
    assert_eq!(2, stack.max_depth());
    assert_eq!(vec![3, 4, 0, 0, 0, 0, 0, 0], stack.get_stack_state(0));
    assert_eq!(vec![0; 8], stack.get_stack_state(1));
    assert_eq!(vec![0], stack.get_aux_state(0));

    let wide = Stack::new(&[1, 2, 3, 4, 5, 6, 7, 8, 9, 10], &[], &[], 2);
    assert_eq!(10, wide.depth());
    assert_eq!(vec![1, 2, 3, 4, 5, 6, 7, 8, 9, 10], wide.get_stack_state(0));

    let empty = Stack::new(&[], &[], &[], 1);
    assert_eq!(0, empty.depth());
    assert_eq!(vec![0; 8], empty.get_stack_state(0));
}

#[test]
fn push_and_pad2_grow_the_stack() {
    let mut stack = Stack::new(&[1, 2, 3, 4, 5, 6, 7], &[], &[], 8);
    stack.op_push(0, 9).unwrap();
    assert_eq!(vec![9, 1, 2, 3, 4, 5, 6, 7], stack.get_stack_state(1));
    assert_eq!(8, stack.depth());
    stack.op_pad2(1).unwrap();
    // the table has grown by two columns, in every row
    assert_eq!(vec![0, 0, 9, 1, 2, 3, 4, 5, 6, 7], stack.get_stack_state(2));
    assert_eq!(vec![9, 1, 2, 3, 4, 5, 6, 7, 0, 0], stack.get_stack_state(1));
    assert_eq!(10, stack.depth());
    assert_eq!(10, stack.max_depth());
    assert_eq!(vec![0], stack.get_aux_state(0));
    assert_eq!(vec![0], stack.get_aux_state(1));
}

#[test]
fn drop_swap_and_rolls_reorder_the_stack() {
    let mut stack = Stack::new(&[1, 2, 3, 4, 5, 6, 7, 8, 9], &[], &[], 8);
    stack.op_swap(0).unwrap();
    assert_eq!(vec![2, 1, 3, 4, 5, 6, 7, 8, 9], stack.get_stack_state(1));
    stack.op_swap4(1).unwrap();
    assert_eq!(vec![5, 6, 7, 8, 2, 1, 3, 4, 9], stack.get_stack_state(2));
    stack.op_roll4(2).unwrap();
    assert_eq!(vec![8, 5, 6, 7, 2, 1, 3, 4, 9], stack.get_stack_state(3));
    stack.op_drop(3).unwrap();
    assert_eq!(vec![5, 6, 7, 2, 1, 3, 4, 9, 0], stack.get_stack_state(4));
    assert_eq!(8, stack.depth());
    assert_eq!(9, stack.max_depth());
}

#[test]
fn assert_consumes_a_one_and_rejects_anything_else() {
    let mut stack = Stack::new(&[1, 5, 0], &[], &[], 8);
    assert_eq!(Ok(()), stack.op_assert(0));
    assert_eq!(vec![5, 0, 0, 0, 0, 0, 0, 0], stack.get_stack_state(1));
    assert_eq!(2, stack.depth());

    assert_eq!(Err(StackError::AssertionFailure), stack.op_assert(1));
    // nothing has changed
    assert_eq!(2, stack.depth());
    assert_eq!(vec![0; 8], stack.get_stack_state(2));

    stack.op_drop(1).unwrap();
    assert_eq!(Err(StackError::AssertionFailure), stack.op_assert(2));
}

#[test]
fn operations_underflow_on_a_shallow_stack() {
    let mut stack = Stack::new(&[], &[1], &[1], 8);
    assert_eq!(Err(StackError::StackUnderflow), stack.op_drop(0));
    assert_eq!(Err(StackError::StackUnderflow), stack.op_assert(0));
    assert_eq!(Err(StackError::StackUnderflow), stack.op_swap(0));
    assert_eq!(Err(StackError::StackUnderflow), stack.op_eq(0));
    assert_eq!(Err(StackError::StackUnderflow), stack.op_binacc(0, ExecutionHint::NoHint));

    let mut stack = Stack::new(&[1], &[1], &[1], 8);
    assert_eq!(Err(StackError::StackUnderflow), stack.op_swap(0));
    assert_eq!(Err(StackError::StackUnderflow), stack.op_eq(0));
    assert_eq!(Err(StackError::StackUnderflow), stack.op_binacc(0, ExecutionHint::NoHint));
    assert_eq!(Ok(()), stack.op_drop(0));

    let mut stack = Stack::new(&[1, 2, 3], &[1], &[1], 8);
    assert_eq!(Err(StackError::StackUnderflow), stack.op_roll4(0));
    let mut stack = Stack::new(&[1, 2, 3, 4, 5, 6], &[1], &[1], 8);
    assert_eq!(Err(StackError::StackUnderflow), stack.op_cmp(0, ExecutionHint::NoHint));
    let mut stack = Stack::new(&[1, 2, 3, 4, 5, 6, 7], &[1], &[1], 8);
    assert_eq!(Err(StackError::StackUnderflow), stack.op_swap4(0));
    assert_eq!(Ok(()), stack.op_cmp(0, ExecutionHint::NoHint));

    // an error leaves the stack as it was
    let mut stack = Stack::new(&[4], &[], &[], 8);
    assert_eq!(Err(StackError::StackUnderflow), stack.op_eq(0));
    assert_eq!(1, stack.depth());
    assert_eq!(1, stack.max_depth());
    assert_eq!(vec![4, 0, 0, 0, 0, 0, 0, 0], stack.get_stack_state(0));
    assert_eq!(vec![0; 8], stack.get_stack_state(1));
}

#[test]
fn equality_records_the_inverse_of_the_difference() {
    for (a, b) in [(1u128, 4u128), (4, 1), (0, M128 - 1), (7, 8), (1 << 100, 3)] {
        let mut stack = Stack::new(&[a, b, 9], &[], &[], 4);
        stack.op_eq(0).unwrap();
        assert_eq!(vec![0, 9, 0, 0, 0, 0, 0, 0], stack.get_stack_state(1));
        let aux = stack.get_aux_state(0)[0];
        let difference = F128::sub(a, b);
        assert_eq!(F128::inv(difference), aux);
        // the constraint of the gadget: (a - b) * aux = 1 - result
        assert_eq!(1, F128::mul(difference, aux));
        assert_eq!(2, stack.depth());
    }
    for a in [0u128, 1, 77, M128 - 1] {
        let mut stack = Stack::new(&[a, a], &[], &[], 4);
        stack.op_eq(0).unwrap();
        assert_eq!(vec![1, 0, 0, 0, 0, 0, 0, 0], stack.get_stack_state(1));
        assert_eq!(vec![1], stack.get_aux_state(0));
    }
}

#[test]
fn comparison_step_by_step() {
    // a = 0b10, b = 0b11
    let mut stack = Stack::new(&[2, 0, 0, 0, 0, 0, 0, 2, 3], &[1, 0], &[1, 1], 8);
    stack.op_cmp(0, ExecutionHint::NoHint).unwrap();
    assert_eq!(vec![1], stack.get_aux_state(0));
    assert_eq!(vec![1, 1, 1, 0, 0, 2, 2, 2, 3], stack.get_stack_state(1));
    stack.op_cmp(1, ExecutionHint::NoHint).unwrap();
    assert_eq!(vec![1], stack.get_aux_state(1));
    assert_eq!(vec![F128::HALF, 0, 1, 0, 1, 3, 2, 2, 3], stack.get_stack_state(2));
    assert_eq!(9, stack.depth());
    // the tapes are spent
    assert_eq!(Err(StackError::MissingOrInvalidHint), stack.op_cmp(2, ExecutionHint::NoHint));
}

#[test]
fn comparison_flags_latch_at_the_first_difference() {
    // the operands differ in their second bit; the later bits are the other way round
    let a_bits = [1u128, 1, 0, 0];
    let b_bits = [1u128, 0, 1, 1];
    let mut stack = Stack::new(&[8, 0, 0, 0, 0, 0, 0], &a_bits, &b_bits, 8);
    for i in 0..4 {
        stack.op_cmp(i, ExecutionHint::NoHint).unwrap();
    }
    assert_eq!(vec![1], stack.get_aux_state(0));
    assert_eq!(vec![1], stack.get_aux_state(1));
    assert_eq!(vec![0], stack.get_aux_state(2));
    assert_eq!(vec![0], stack.get_aux_state(3));
    let state = stack.get_stack_state(4);
    assert_eq!([F128::HALF, 0, 1, 1, 0, 11, 12], state[0..7]);
}

#[test]
fn comparison_of_equal_operands_sets_no_flag() {
    let a = 0xdead_beef_u128;
    let bits = bits_of(a, 64);
    let mut stack = Stack::new(&[0, 0, 0, 0, 0, 0, a, a], &bits, &bits, 256);
    stack.op_push(0, 1 << 63).unwrap();
    for i in 1..65 {
        stack.op_cmp(i, ExecutionHint::NoHint).unwrap();
        assert_eq!(vec![1], stack.get_aux_state(i));
    }
    let state = stack.get_stack_state(65);
    assert_eq!([0, 0, a, a], state[3..7]);
}

#[test]
fn hints_carry_bits_in_place_of_the_tapes() {
    let mut stack = Stack::new(&[2, 0, 0, 0, 0, 0, 0], &[], &[], 8);
    stack.op_cmp(0, ExecutionHint::BitPair(1, 0)).unwrap();
    stack.op_cmp(1, ExecutionHint::BitPair(0, 1)).unwrap();
    assert_eq!(vec![F128::HALF, 0, 1, 1, 0, 1, 2, 0], stack.get_stack_state(2));

    let mut stack = Stack::new(&[2, 5, 9], &[0, 0], &[], 8);
    stack.op_binacc(0, ExecutionHint::Bit(1)).unwrap();
    stack.op_binacc(1, ExecutionHint::Bit(1)).unwrap();
    assert_eq!(vec![F128::HALF, 8, 9, 0, 0, 0, 0, 0], stack.get_stack_state(2));
    assert_eq!(vec![1], stack.get_aux_state(0));
    // the tape was not touched
    stack.op_binacc(2, ExecutionHint::NoHint).unwrap();
    assert_eq!(vec![0], stack.get_aux_state(2));
}

#[test]
fn missing_or_invalid_hints_are_rejected() {
    let seven = [4u128, 0, 0, 0, 0, 0, 0];
    // an empty tape
    let mut stack = Stack::new(&seven, &[], &[1], 8);
    assert_eq!(Err(StackError::MissingOrInvalidHint), stack.op_cmp(0, ExecutionHint::NoHint));
    let mut stack = Stack::new(&seven, &[1], &[], 8);
    assert_eq!(Err(StackError::MissingOrInvalidHint), stack.op_cmp(0, ExecutionHint::NoHint));
    assert_eq!(Err(StackError::MissingOrInvalidHint), stack.op_binacc(
        0,
        ExecutionHint::BitPair(1, 1)
    ));
    // a value that is no bit
    let mut stack = Stack::new(&seven, &[2], &[1], 8);
    assert_eq!(Err(StackError::MissingOrInvalidHint), stack.op_cmp(0, ExecutionHint::NoHint));
    assert_eq!(Err(StackError::MissingOrInvalidHint), stack.op_binacc(0, ExecutionHint::NoHint));
    let mut stack = Stack::new(&seven, &[1], &[M128], 8);
    assert_eq!(Err(StackError::MissingOrInvalidHint), stack.op_cmp(0, ExecutionHint::NoHint));
    assert_eq!(Err(StackError::MissingOrInvalidHint), stack.op_cmp(
        0,
        ExecutionHint::BitPair(1, 2)
    ));
    assert_eq!(Err(StackError::MissingOrInvalidHint), stack.op_binacc(0, ExecutionHint::Bit(2)));
    // a hint of the wrong shape
    assert_eq!(Err(StackError::MissingOrInvalidHint), stack.op_cmp(0, ExecutionHint::Bit(1)));
    // the rejected advice is still on the tape, and nothing was written
    assert_eq!(vec![0; 8], stack.get_stack_state(1));
    assert_eq!(Ok(()), stack.op_binacc(0, ExecutionHint::NoHint));
    assert_eq!(vec![1], stack.get_aux_state(0));
}

#[test]
fn binary_accumulation_rebuilds_only_from_the_right_bits() {
    let x = 0b1011_0110u128;
    let mut bits = bits_of(x, 8);
    let mut stack = Stack::new(&[128, 0, x], &bits, &[], 16);
    for i in 0..8 {
        stack.op_binacc(i, ExecutionHint::NoHint).unwrap();
        assert_eq!(vec![bits[i]], stack.get_aux_state(i));
    }
    assert_eq!(vec![F128::HALF, x, x, 0, 0, 0, 0, 0], stack.get_stack_state(8));

    // one forged bit gives another number
    bits[5] = 1 - bits[5];
    let mut stack = Stack::new(&[128, 0, x], &bits, &[], 16);
    for i in 0..8 {
        stack.op_binacc(i, ExecutionHint::NoHint).unwrap();
    }
    let forged = stack.get_stack_state(8)[1];
    assert_ne!(x, forged);
    assert_eq!(x ^ 0b100, forged);
}

#[test]
fn depth_bookkeeping_follows_the_operations() {
    let mut stack = Stack::new(&[1, 1], &[], &[], 16);
    let mut depths = vec![stack.depth()];
    let mut largest = stack.depth();
    let program = [
        Op::Push(3),
        Op::Pad2,
        Op::Drop,
        Op::Swap,
        Op::Drop,
        Op::Drop,
        Op::Eq,
        Op::Assert,
        Op::Push(1),
        Op::Push(1),
    ];
    for (step, op) in program.iter().enumerate() {
        stack.execute(*op, step).unwrap();
        depths.push(stack.depth());
        largest = largest.max(stack.depth());
        assert_eq!(largest, stack.max_depth());
    }
    assert_eq!(vec![2, 3, 5, 4, 4, 3, 2, 1, 0, 1, 2], depths);
    assert_eq!(5, stack.max_depth());
    assert_eq!(vec![1, 1, 0, 0, 0, 0, 0, 0], stack.get_stack_state(10));
}

#[test]
fn programs_stop_at_the_first_failure() {
    let mut stack = Stack::new(&[1, 2], &[], &[], 16);
    let program = [Op::Drop, Op::Drop, Op::Drop, Op::Push(1)];
    assert_eq!(Err(StackError::StackUnderflow), run_program(&mut stack, &program, 0));
    assert_eq!(0, stack.depth());
    assert_eq!(vec![0; 8], stack.get_stack_state(3));

    let mut stack = Stack::new(&[1, 2], &[], &[], 16);
    assert_eq!(Ok(3), run_program(&mut stack, &[Op::Swap, Op::Eq, Op::Push(9)], 0));
    assert_eq!(vec![9, 0, 0, 0, 0, 0, 0, 0], stack.get_stack_state(3));
    assert_eq!(Ok(7), run_program(&mut stack, &[], 7));
}

fn run_comparison(a: u128, b: u128, width: usize, greater: bool) -> Vec<u128> {
    let mut stack =
        Stack::new(&[0, 0, 0, 0, a, b, 7, 11], &bits_of(a, width), &bits_of(b, width), 256);
    stack.op_pad2(0).unwrap();
    stack.op_push(1, 1 << (width - 1)).unwrap();
    for i in 0..width {
        stack.op_cmp(2 + i, ExecutionHint::NoHint).unwrap();
    }
    let step = if greater {
        gt_finale(&mut stack, 2 + width).unwrap()
    } else {
        lt_finale(&mut stack, 2 + width).unwrap()
    };
    assert_eq!(width + if greater { 13 } else { 12 }, step);
    assert_eq!(3, stack.depth());
    stack.get_stack_state(step)
}

#[test]
fn comparison_programs_decide_the_order() {
    let cases = [
        (0u128, 0u128),
        (0, 1),
        (1, 0),
        (5, 5),
        (u128::from(u64::MAX), u128::from(u64::MAX) - 1),
        (1 << 63, (1 << 63) - 1),
        (0x1234_5678_9abc_def0, 0x1234_5678_9abc_def1),
    ];
    for (a, b) in cases {
        let less = run_comparison(a, b, 64, false);
        let expected = if a < b { 1 } else { 0 };
        assert_eq!(vec![expected, 7, 11, 0, 0, 0, 0, 0, 0, 0, 0], less);
        let greater = run_comparison(a, b, 64, true);
        let expected = if a > b { 1 } else { 0 };
        assert_eq!(vec![expected, 7, 11, 0, 0, 0, 0, 0, 0, 0, 0], greater);
    }
    let large = run_comparison(M128 - 1, M128 - 2, 128, true);
    assert_eq!(vec![1, 7, 11, 0, 0, 0, 0, 0, 0, 0, 0], large);
    let large = run_comparison(M128 - 1, M128 - 2, 128, false);
    assert_eq!(vec![0, 7, 11, 0, 0, 0, 0, 0, 0, 0, 0], large);
}

#[test]
fn finale_rejects_bits_that_spell_another_operand() {
    let (a, b) = (9u128, 12u128);
    // the bits of the second operand are forged
    let mut stack = Stack::new(&[0, 0, 0, 0, a, b, 7, 11], &bits_of(a, 8), &bits_of(13, 8), 64);
    stack.op_pad2(0).unwrap();
    stack.op_push(1, 128).unwrap();
    for i in 0..8 {
        stack.op_cmp(2 + i, ExecutionHint::NoHint).unwrap();
    }
    assert_eq!(Err(StackError::AssertionFailure), lt_finale(&mut stack, 10));

    // the bits of the first operand are forged
    let mut stack = Stack::new(&[0, 0, 0, 0, a, b, 7, 11], &bits_of(8, 8), &bits_of(b, 8), 64);
    stack.op_pad2(0).unwrap();
    stack.op_push(1, 128).unwrap();
    for i in 0..8 {
        stack.op_cmp(2 + i, ExecutionHint::NoHint).unwrap();
    }
    assert_eq!(Err(StackError::AssertionFailure), gt_finale(&mut stack, 10));

    // too few operands
    let mut stack = Stack::new(&[1, 2, 3], &[], &[], 64);
    assert_eq!(Err(StackError::StackUnderflow), lt_finale(&mut stack, 0));
}
