use distaff::math::field128::F128;
use distaff::stack::machine::ExecutionHint;
use distaff::stack::programs::{gt_finale, lt_finale};
use distaff::stack::Stack;
use std::collections::hash_map::RandomState;
use std::hash::{BuildHasher, Hasher};

const TRACE_LENGTH: usize = 16;

// HELPER FUNCTIONS
// ================================================================================================

fn random_u64() -> u64 {
    let mut hasher = RandomState::new().build_hasher();
    hasher.write_u64(0x9e37_79b9_7f4a_7c15);
    hasher.finish()
}

/// A random field element.
fn random_element() -> u128 {
    let wide = (u128::from(random_u64()) << 64) | u128::from(random_u64());
    F128::reduce(wide)
}

/// A random field element of at most 64 bits.
fn random_small_element() -> u128 {
    u128::from(random_u64())
}

fn init_stack(
    public_inputs: &[u128],
    secret_inputs_a: &[u128],
    secret_inputs_b: &[u128],
    trace_length: usize,
) -> Stack {
    Stack::new(public_inputs, secret_inputs_a, secret_inputs_b, trace_length)
}

fn get_stack_state(stack: &Stack, step: usize) -> Vec<u128> {
    stack.get_stack_state(step)
}

fn get_aux_state(stack: &Stack, step: usize) -> Vec<u128> {
    stack.get_aux_state(step)
}

fn bits_of(x: u128, size: usize) -> Vec<u128> {
    let mut bits = Vec::new();
    for i in 0..size {
        bits.push((x >> i) & 1);
    }
    bits.reverse();
    bits
}

fn build_inputs_for_cmp(a: u128, b: u128, size: usize) -> (Vec<u128>, Vec<u128>) {
    (bits_of(a, size), bits_of(b, size))
}

// EQUALITY OPERATION
// ================================================================================================

#[test]
fn eq() {
    let mut stack = init_stack(&[3, 3, 4, 5], &[], &[], TRACE_LENGTH);

    stack.op_eq(0).unwrap();
    assert_eq!(vec![1], get_aux_state(&stack, 0));
    assert_eq!(vec![1, 4, 5, 0, 0, 0, 0, 0], get_stack_state(&stack, 1));

    assert_eq!(3, stack.depth());
    assert_eq!(4, stack.max_depth());

    stack.op_eq(1).unwrap();
    let inv_diff = F128::inv(F128::sub(1, 4));
    assert_eq!(vec![inv_diff], get_aux_state(&stack, 1));
    assert_eq!(vec![0, 5, 0, 0, 0, 0, 0, 0], get_stack_state(&stack, 2));

    assert_eq!(2, stack.depth());
    assert_eq!(4, stack.max_depth());
}

// COMPARISON OPERATION
// ================================================================================================

#[test]
fn cmp_128() {
    let a: u128 = random_element();
    let b: u128 = random_element();
    let p127: u128 = F128::exp(2, 127);

    // initialize the stack
    let (inputs_a, inputs_b) = build_inputs_for_cmp(a, b, 128);
    let mut stack = init_stack(&[0, 0, 0, 0, 0, 0, a, b], &inputs_a, &inputs_b, 256);
    stack.op_push(0, p127).unwrap();

    // execute CMP operations
    for i in 1..129 {
        stack.op_cmp(i, ExecutionHint::NoHint).unwrap();

        let state = get_stack_state(&stack, i);

        let gt = state[3];
        let lt = state[4];
        let not_set = F128::mul(F128::sub(F128::ONE, gt), F128::sub(F128::ONE, lt));
        assert_eq!(vec![not_set], get_aux_state(&stack, i));
    }

    // check the result
    let lt = if a < b { F128::ONE } else { F128::ZERO };
    let gt = if a < b { F128::ZERO } else { F128::ONE };

    let state = get_stack_state(&stack, 129);
    assert_eq!([gt, lt, b, a], state[3..7]);
}

#[test]
fn cmp_64() {
    let a: u128 = random_small_element();
    let b: u128 = random_small_element();
    let p63: u128 = F128::exp(2, 63);

    // initialize the stack
    let (inputs_a, inputs_b) = build_inputs_for_cmp(a, b, 64);
    let mut stack = init_stack(&[0, 0, 0, 0, 0, 0, a, b], &inputs_a, &inputs_b, 256);
    stack.op_push(0, p63).unwrap();

    // execute CMP operations
    for i in 1..65 {
        stack.op_cmp(i, ExecutionHint::NoHint).unwrap();

        let state = get_stack_state(&stack, i);

        let gt = state[3];
        let lt = state[4];
        let not_set = F128::mul(F128::sub(F128::ONE, gt), F128::sub(F128::ONE, lt));
        assert_eq!(vec![not_set], get_aux_state(&stack, i));
    }

    // check the result
    let lt = if a < b { F128::ONE } else { F128::ZERO };
    let gt = if a < b { F128::ZERO } else { F128::ONE };

    let state = get_stack_state(&stack, 65);
    assert_eq!([gt, lt, b, a], state[3..7]);
}

// COMPARISON PROGRAMS
// ================================================================================================

#[test]
fn lt() {
    let a: u128 = random_element();
    let b: u128 = random_element();
    let p127: u128 = F128::exp(2, 127);

    // initialize the stack
    let (inputs_a, inputs_b) = build_inputs_for_cmp(a, b, 128);
    let mut stack = init_stack(&[0, 0, 0, 0, a, b, 7, 11], &inputs_a, &inputs_b, 256);
    stack.op_pad2(0).unwrap();
    stack.op_push(1, p127).unwrap();

    // execute CMP operations
    for i in 2..130 {
        stack.op_cmp(i, ExecutionHint::NoHint).unwrap();
    }

    // execute program finale
    let step = lt_finale(&mut stack, 130).unwrap();

    // check the result
    let state = get_stack_state(&stack, step);
    let expected = if a < b { F128::ONE } else { F128::ZERO };
    assert_eq!(vec![expected, 7, 11, 0, 0, 0, 0, 0, 0, 0, 0], state);
}

#[test]
fn gt() {
    let a: u128 = random_element();
    let b: u128 = random_element();
    let p127: u128 = F128::exp(2, 127);

    // initialize the stack
    let (inputs_a, inputs_b) = build_inputs_for_cmp(a, b, 128);
    let mut stack = init_stack(&[0, 0, 0, 0, a, b, 7, 11], &inputs_a, &inputs_b, 256);
    stack.op_pad2(0).unwrap();
    stack.op_push(1, p127).unwrap();

    // execute CMP operations
    for i in 2..130 {
        stack.op_cmp(i, ExecutionHint::NoHint).unwrap();
    }

    // execute program finale
    let step = gt_finale(&mut stack, 130).unwrap();

    // check the result
    let state = get_stack_state(&stack, step);
    let expected = if a > b { F128::ONE } else { F128::ZERO };
    assert_eq!(vec![expected, 7, 11, 0, 0, 0, 0, 0, 0, 0, 0], state);
}

// BINARY DECOMPOSITION
// ================================================================================================

#[test]
fn binacc_128() {
    let x: u128 = random_element();
    let p127: u128 = F128::exp(2, 127);

    // initialize the stack
    let mut inputs_a = Vec::new();
    for i in 0..128 {
        inputs_a.push((x >> i) & 1);
    }
    inputs_a.reverse();

    let mut stack = init_stack(&[p127, 0, x, 7, 11], &inputs_a, &[], 256);

    // execute binary aggregation operations
    for i in 0..128 {
        stack.op_binacc(i, ExecutionHint::NoHint).unwrap();
    }

    // check the result
    stack.op_drop(128).unwrap();
    let state = get_stack_state(&stack, 129);
    assert_eq!(vec![x, x, 7, 11, 0, 0, 0, 0], state);
}

#[test]
fn binacc_64() {
    let x: u128 = random_small_element();
    let p127: u128 = F128::exp(2, 63);

    // initialize the stack
    let mut inputs_a = Vec::new();
    for i in 0..64 {
        inputs_a.push((x >> i) & 1);
    }
    inputs_a.reverse();

    let mut stack = init_stack(&[p127, 0, x, 7, 11], &inputs_a, &[], 256);

    // execute binary aggregation operations
    for i in 0..64 {
        stack.op_binacc(i, ExecutionHint::NoHint).unwrap();
    }

    // check the result
    stack.op_drop(64).unwrap();
    let state = get_stack_state(&stack, 65);
    assert_eq!(vec![x, x, 7, 11, 0, 0, 0, 0], state);
}
