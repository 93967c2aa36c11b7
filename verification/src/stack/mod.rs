//! The operand stack of the machine and the trace that its operations write.
//!
//! A [`Stack`] owns the register table, the witness column and the two input tapes
//! of one execution. Each operation reads the row of the step it is given, writes
//! the row of the next step and the witness of its own step, and answers with an
//! error, leaving everything as it was, where it cannot run.
pub mod laws;
pub mod machine;
pub mod programs;

use crate::math::field128::F128;
use crate::stack::machine::{
    accumulate_advice, accumulate_row, compare_advice, compare_row, equality_flag, follows,
    initial_state, larger, lemma_depth_fits, lemma_running_max_push, width_for,
    ExecutionHint, Op, StackError, StackView, MIN_STACK_DEPTH,
};
use vstd::prelude::*;

verus! {

/// The stack of one execution together with the trace written so far.
pub struct Stack {
    /// The register table, one column per stack position, one entry per step.
    registers: Vec<Vec<u128>>,
    /// The witness column, one entry per step.
    aux_trace: Vec<u128>,
    /// The first input tape.
    tape_a: Vec<u128>,
    /// The second input tape.
    tape_b: Vec<u128>,
    /// How much of the first tape has been read.
    read_a: usize,
    /// How much of the second tape has been read.
    read_b: usize,
    /// The number of live operands.
    depth: usize,
    /// The largest depth reached so far.
    max_depth: usize,
    /// The depth at construction followed by the depth after each operation.
    depths: Ghost<Seq<nat>>,
}

impl View for Stack {
    type V = StackView;

    closed spec fn view(&self) -> StackView {
        StackView {
            trace: Seq::new(
                self.aux_trace@.len(),
                |s: int| Seq::new(self.registers@.len(), |r: int| self.registers@[r]@[s]),
            ),
            aux: self.aux_trace@,
            tape_a: self.tape_a@.skip(self.read_a as int),
            tape_b: self.tape_b@.skip(self.read_b as int),
            depth: self.depth as nat,
            max_depth: self.max_depth as nat,
            depths: self.depths@,
        }
    }
}

/// A vector of `n` zeros.
fn zeros(n: usize) -> (v: Vec<u128>)
    ensures
        v@.len() == n,
        forall|i: int| 0 <= i < n ==> v@[i] == 0,
{
    let mut v: Vec<u128> = Vec::new();
    let mut i: usize = 0;
    while i < n
        invariant
            i <= n,
            v@.len() == i,
            forall|j: int| 0 <= j < i ==> v@[j] == 0,
        decreases n - i,
    {
        v.push(0);
        i = i + 1;
    }
    v
}

/// A vector with the contents of a slice.
fn copy_of(s: &[u128]) -> (v: Vec<u128>)
    ensures
        v@ == s@,
{
    let mut v: Vec<u128> = Vec::new();
    let mut i: usize = 0;
    while i < s.len()
        invariant
            i <= s.len(),
            v@ == s@.take(i as int),
        decreases s.len() - i,
    {
        v.push(s[i]);
        assert(s@.take(i + 1) =~= s@.take(i as int).push(s@[i as int]));
        i = i + 1;
    }
    assert(s@.take(s.len() as int) =~= s@);
    v
}

impl Stack {
    /// What holds of the representation: one register column per unit of width, each
    /// as long as the witness column, and read positions inside the tapes.
    pub closed spec fn inv(&self) -> bool {
        &&& self.registers@.len() == width_for(self.max_depth as nat)
        &&& self.aux_trace@.len() >= 1
        &&& forall|r: int|
            0 <= r < self.registers@.len() ==> (#[trigger] self.registers@[r])@.len()
                == self.aux_trace@.len()
        &&& self.read_a <= self.tape_a@.len()
        &&& self.read_b <= self.tape_b@.len()
    }

    /// The stack is well formed: its representation is sound and its abstract state
    /// is well formed.
    pub open spec fn wf(&self) -> bool {
        self.inv() && self@.wf()
    }

    /// Creates the stack of an execution of at most `trace_length` steps. The public
    /// inputs become the live operands of step zero, the first of them on top; the
    /// secret inputs become the two tapes, to be read front to back.
    pub fn new(
        public_inputs: &[u128],
        secret_inputs_a: &[u128],
        secret_inputs_b: &[u128],
        trace_length: usize,
    ) -> (stack: Stack)
        requires
            trace_length >= 1,
        ensures
            stack.wf(),
            stack@ == initial_state(
                public_inputs@,
                secret_inputs_a@,
                secret_inputs_b@,
                trace_length as nat,
            ),
    {
        let depth = public_inputs.len();
        let width = if depth > MIN_STACK_DEPTH {
            depth
        } else {
            MIN_STACK_DEPTH
        };
        let mut registers: Vec<Vec<u128>> = Vec::new();
        let mut r: usize = 0;
        while r < width
            invariant
                r <= width,
                depth == public_inputs@.len(),
                trace_length >= 1,
                registers@.len() == r,
                forall|j: int| 0 <= j < r ==> (#[trigger] registers@[j])@.len() == trace_length,
                forall|j: int, s: int|
                    0 <= j < r && 0 <= s < trace_length ==> #[trigger] registers@[j]@[s] == (if s
                        == 0 && j < depth {
                        public_inputs@[j]
                    } else {
                        0u128
                    }),
            decreases width - r,
        {
            let mut register = zeros(trace_length);
            if r < depth {
                register[0] = public_inputs[r];
            }
            registers.push(register);
            r = r + 1;
        }
        let depths: Ghost<Seq<nat>> = Ghost(Seq::<nat>::empty().push(depth as nat));
        let stack = Stack {
            registers,
            aux_trace: zeros(trace_length),
            tape_a: copy_of(secret_inputs_a),
            tape_b: copy_of(secret_inputs_b),
            read_a: 0,
            read_b: 0,
            depth,
            max_depth: depth,
            depths,
        };
        proof {
            let target = initial_state(
                public_inputs@,
                secret_inputs_a@,
                secret_inputs_b@,
                trace_length as nat,
            );
            assert(stack@.trace =~~= target.trace);
            assert(stack@.aux =~= target.aux);
            assert(stack@.tape_a =~= target.tape_a);
            assert(stack@.tape_b =~= target.tape_b);
            assert(stack@.depths =~= target.depths);
            lemma_running_max_push(Seq::<nat>::empty(), depth as nat);
        }
        stack
    }

    /// The number of steps that the trace has room for.
    pub fn trace_length(&self) -> (n: usize)
        requires
            self.wf(),
        ensures
            n == self@.trace_length(),
    {
        self.aux_trace.len()
    }

    /// The number of live operands.
    pub fn depth(&self) -> (d: usize)
        ensures
            d == self@.depth,
    {
        self.depth
    }

    /// The largest depth that the stack has had.
    pub fn max_depth(&self) -> (d: usize)
        ensures
            d == self@.max_depth,
    {
        self.max_depth
    }

    /// The row of `step`: every register column, top first.
    pub fn get_stack_state(&self, step: usize) -> (row: Vec<u128>)
        requires
            self.wf(),
            step < self@.trace_length(),
        ensures
            row@ == self@.trace[step as int],
    {
        let mut row: Vec<u128> = Vec::new();
        let mut r: usize = 0;
        while r < self.registers.len()
            invariant
                self.wf(),
                step < self@.trace_length(),
                r <= self.registers@.len(),
                row@ == self@.trace[step as int].take(r as int),
            decreases self.registers@.len() - r,
        {
            row.push(self.registers[r][step]);
            assert(self@.trace[step as int].take(r + 1) =~= self@.trace[step as int].take(
                r as int,
            ).push(self@.trace[step as int][r as int]));
            r = r + 1;
        }
        assert(self@.trace[step as int].take(r as int) =~= self@.trace[step as int]);
        row
    }

    /// The witness column at `step`, as a row of one value.
    pub fn get_aux_state(&self, step: usize) -> (row: Vec<u128>)
        requires
            self.wf(),
            step < self@.trace_length(),
        ensures
            row@ == seq![self@.aux[step as int]],
    {
        let mut row: Vec<u128> = Vec::new();
        row.push(self.aux_trace[step]);
        assert(row@ =~= seq![self@.aux[step as int]]);
        row
    }

    /// Appends to `head` the live operands of `step` from position `from` down.
    fn live_tail(&self, step: usize, from: usize, head: Vec<u128>) -> (next: Vec<u128>)
        requires
            self.wf(),
            step < self@.trace_length(),
            from <= self@.depth,
            head@.len() + self@.depth - from <= usize::MAX,
        ensures
            next@ == head@ + self@.live(step as int).skip(from as int),
    {
        let mut next = head;
        let mut r: usize = from;
        proof {
            lemma_depth_fits(self@);
            assert(head@ + self@.live(step as int).subrange(from as int, from as int) =~= head@);
        }
        while r < self.depth
            invariant
                self.wf(),
                step < self@.trace_length(),
                from <= r <= self.depth,
                self.depth <= self.registers@.len(),
                head@.len() + self@.depth - from <= usize::MAX,
                next@ == head@ + self@.live(step as int).subrange(from as int, r as int),
            decreases self.depth - r,
        {
            next.push(self.registers[r][step]);
            assert(head@ + self@.live(step as int).subrange(from as int, r + 1) =~= (head@
                + self@.live(step as int).subrange(from as int, r as int)).push(
                self@.live(step as int)[r as int],
            ));
            r = r + 1;
        }
        assert(self@.live(step as int).subrange(from as int, r as int) =~= self@.live(
            step as int,
        ).skip(from as int));
        next
    }

    /// Makes `stack` the live operands of the row after `step` and records `aux` as
    /// the witness of `step`.
    fn commit(&mut self, step: usize, stack: &Vec<u128>, aux: u128)
        requires
            old(self).wf(),
            step + 1 < old(self)@.trace_length(),
        ensures
            final(self).wf(),
            final(self)@ == old(self)@.advance(step as int, stack@, aux),
            final(self).tape_a == old(self).tape_a,
            final(self).tape_b == old(self).tape_b,
            final(self).read_a == old(self).read_a,
            final(self).read_b == old(self).read_b,
    {
        let n = stack.len();
        let length = self.aux_trace.len();
        let max_depth = if n > self.max_depth {
            n
        } else {
            self.max_depth
        };
        let width = if max_depth > MIN_STACK_DEPTH {
            max_depth
        } else {
            MIN_STACK_DEPTH
        };
        let ghost before = self.registers@;
        while self.registers.len() < width
            invariant
                length == self.aux_trace@.len(),
                before.len() <= self.registers@.len() <= width,
                forall|r: int| 0 <= r < before.len() ==> self.registers@[r] == before[r],
                forall|r: int|
                    before.len() <= r < self.registers@.len() ==> (#[trigger] self.registers@[r])@.len()
                        == length,
                forall|r: int, s: int|
                    before.len() <= r < self.registers@.len() && 0 <= s < length
                        ==> #[trigger] self.registers@[r]@[s] == 0,
                self.aux_trace == old(self).aux_trace,
                self.tape_a == old(self).tape_a,
                self.tape_b == old(self).tape_b,
                self.read_a == old(self).read_a,
                self.read_b == old(self).read_b,
                self.depth == old(self).depth,
                self.max_depth == old(self).max_depth,
                self.depths == old(self).depths,
            decreases width - self.registers@.len(),
        {
            let column = zeros(length);
            self.registers.push(column);
        }
        let ghost grown = self.registers@;
        assert forall|j: int| 0 <= j < width implies (#[trigger] grown[j])@.len() == length by {
            if j < before.len() {
                assert(grown[j] == before[j]);
            }
        }
        let mut r: usize = 0;
        while r < width
            invariant
                r <= width,
                n == stack@.len(),
                length == self.aux_trace@.len(),
                step + 1 < length,
                self.registers@.len() == width,
                grown.len() == width,
                forall|j: int| 0 <= j < width ==> (#[trigger] grown[j])@.len() == length,
                forall|j: int| 0 <= j < width ==> (#[trigger] self.registers@[j])@.len() == length,
                forall|j: int, s: int|
                    0 <= j < width && 0 <= s < length ==> #[trigger] self.registers@[j]@[s] == (if s
                        == step + 1 && j < r {
                        if j < n {
                            stack@[j]
                        } else {
                            0u128
                        }
                    } else {
                        grown[j]@[s]
                    }),
                self.aux_trace == old(self).aux_trace,
                self.tape_a == old(self).tape_a,
                self.tape_b == old(self).tape_b,
                self.read_a == old(self).read_a,
                self.read_b == old(self).read_b,
                self.depth == old(self).depth,
                self.max_depth == old(self).max_depth,
                self.depths == old(self).depths,
            decreases width - r,
        {
            let value = if r < n {
                stack[r]
            } else {
                0
            };
            self.registers[r][step + 1] = value;
            r = r + 1;
        }
        self.aux_trace[step] = aux;
        self.depth = n;
        self.max_depth = max_depth;
        let depths: Ghost<Seq<nat>> = Ghost(self.depths@.push(n as nat));
        self.depths = depths;
        proof {
            let target = old(self)@.advance(step as int, stack@, aux);
            lemma_running_max_push(old(self).depths@, n as nat);
            assert(self@.trace =~~= target.trace);
            assert(self@.aux =~= target.aux);
        }
    }
    /// The live operand at position `i` of the row of `step`.
    fn top(&self, step: usize, i: usize) -> (x: u128)
        requires
            self.wf(),
            step < self@.trace_length(),
            i < self@.depth,
        ensures
            x == self@.live(step as int)[i as int],
    {
        proof {
            lemma_depth_fits(self@);
        }
        self.registers[i][step]
    }

    /// Replaces the top `consumed` operands by `head`, and records `aux`.
    fn replace_top(&mut self, step: usize, consumed: usize, head: Vec<u128>, aux: u128)
        requires
            old(self).wf(),
            step + 1 < old(self)@.trace_length(),
            consumed <= old(self)@.depth,
            head@.len() + old(self)@.depth - consumed <= usize::MAX,
        ensures
            final(self).wf(),
            final(self)@ == old(self)@.advance(
                step as int,
                head@ + old(self)@.live(step as int).skip(consumed as int),
                aux,
            ),
            final(self).tape_a == old(self).tape_a,
            final(self).tape_b == old(self).tape_b,
            final(self).read_a == old(self).read_a,
            final(self).read_b == old(self).read_b,
    {
        let next = self.live_tail(step, consumed, head);
        self.commit(step, &next, aux);
    }

    /// Puts `value` on top of the stack. Never fails.
    pub fn op_push(&mut self, step: usize, value: u128) -> (r: Result<(), StackError>)
        requires
            old(self).wf(),
            step + 1 < old(self)@.trace_length(),
            old(self)@.depth < usize::MAX,
        ensures
            final(self).wf(),
            follows(old(self)@, Op::Push(value), step, final(self)@, r),
    {
        let head = vec![value];
        proof {
            assert(head@ =~= seq![value]);
            assert(self@.live(step as int).skip(0) =~= self@.live(step as int));
        }
        self.replace_top(step, 0, head, 0);
        Ok(())
    }

    /// Puts two zeros on top of the stack. Never fails.
    pub fn op_pad2(&mut self, step: usize) -> (r: Result<(), StackError>)
        requires
            old(self).wf(),
            step + 1 < old(self)@.trace_length(),
            old(self)@.depth + 2 <= usize::MAX,
        ensures
            final(self).wf(),
            follows(old(self)@, Op::Pad2, step, final(self)@, r),
    {
        let head = vec![F128::ZERO, F128::ZERO];
        proof {
            assert(head@ =~= seq![0u128, 0u128]);
            assert(self@.live(step as int).skip(0) =~= self@.live(step as int));
        }
        self.replace_top(step, 0, head, 0);
        Ok(())
    }

    /// Removes the top operand. Underflows on an empty stack.
    pub fn op_drop(&mut self, step: usize) -> (r: Result<(), StackError>)
        requires
            old(self).wf(),
            step + 1 < old(self)@.trace_length(),
        ensures
            final(self).wf(),
            follows(old(self)@, Op::Drop, step, final(self)@, r),
    {
        if self.depth < 1 {
            return Err(StackError::StackUnderflow);
        }
        let head: Vec<u128> = Vec::new();
        proof {
            assert(head@ + self@.live(step as int).skip(1) =~= self@.live(step as int).skip(1));
        }
        self.replace_top(step, 1, head, 0);
        Ok(())
    }

    /// Exchanges the top two operands. Underflows where fewer than two are live.
    pub fn op_swap(&mut self, step: usize) -> (r: Result<(), StackError>)
        requires
            old(self).wf(),
            step + 1 < old(self)@.trace_length(),
        ensures
            final(self).wf(),
            follows(old(self)@, Op::Swap, step, final(self)@, r),
    {
        if self.depth < 2 {
            return Err(StackError::StackUnderflow);
        }
        let head = vec![self.top(step, 1), self.top(step, 0)];
        proof {
            let s = self@.live(step as int);
            assert(head@ =~= seq![s[1], s[0]]);
        }
        self.replace_top(step, 2, head, 0);
        Ok(())
    }

    /// Exchanges the top four operands with the four below them. Underflows where
    /// fewer than eight are live.
    pub fn op_swap4(&mut self, step: usize) -> (r: Result<(), StackError>)
        requires
            old(self).wf(),
            step + 1 < old(self)@.trace_length(),
        ensures
            final(self).wf(),
            follows(old(self)@, Op::Swap4, step, final(self)@, r),
    {
        if self.depth < 8 {
            return Err(StackError::StackUnderflow);
        }
        let head = vec![
            self.top(step, 4),
            self.top(step, 5),
            self.top(step, 6),
            self.top(step, 7),
            self.top(step, 0),
            self.top(step, 1),
            self.top(step, 2),
            self.top(step, 3),
        ];
        proof {
            let s = self@.live(step as int);
            assert(head@ =~= s.subrange(4, 8) + s.take(4));
        }
        self.replace_top(step, 8, head, 0);
        Ok(())
    }

    /// Brings the fourth operand to the top, moving the three above it one down.
    /// Underflows where fewer than four are live.
    pub fn op_roll4(&mut self, step: usize) -> (r: Result<(), StackError>)
        requires
            old(self).wf(),
            step + 1 < old(self)@.trace_length(),
        ensures
            final(self).wf(),
            follows(old(self)@, Op::Roll4, step, final(self)@, r),
    {
        if self.depth < 4 {
            return Err(StackError::StackUnderflow);
        }
        let head = vec![
            self.top(step, 3),
            self.top(step, 0),
            self.top(step, 1),
            self.top(step, 2),
        ];
        proof {
            let s = self@.live(step as int);
            assert(head@ =~= seq![s[3], s[0], s[1], s[2]]);
        }
        self.replace_top(step, 4, head, 0);
        Ok(())
    }

    /// Removes the top operand, which must be one: any other value there makes the
    /// program invalid, and the operation fails with `AssertionFailure`. Underflows
    /// on an empty stack.
    pub fn op_assert(&mut self, step: usize) -> (r: Result<(), StackError>)
        requires
            old(self).wf(),
            step + 1 < old(self)@.trace_length(),
        ensures
            final(self).wf(),
            follows(old(self)@, Op::Assert, step, final(self)@, r),
    {
        if self.depth < 1 {
            return Err(StackError::StackUnderflow);
        }
        if self.top(step, 0) != F128::ONE {
            return Err(StackError::AssertionFailure);
        }
        let head: Vec<u128> = Vec::new();
        proof {
            assert(head@ + self@.live(step as int).skip(1) =~= self@.live(step as int).skip(1));
        }
        self.replace_top(step, 1, head, 0);
        Ok(())
    }

    /// Replaces the top two operands by one where they are equal and by zero where
    /// they differ. The witness of the step is the inverse of their difference where
    /// they differ, and one where they are equal. Underflows where fewer than two
    /// operands are live.
    pub fn op_eq(&mut self, step: usize) -> (r: Result<(), StackError>)
        requires
            old(self).wf(),
            step + 1 < old(self)@.trace_length(),
        ensures
            final(self).wf(),
            follows(old(self)@, Op::Eq, step, final(self)@, r),
    {
        if self.depth < 2 {
            return Err(StackError::StackUnderflow);
        }
        let x = self.top(step, 0);
        let y = self.top(step, 1);
        let (flag, witness) = if x == y {
            (F128::ONE, F128::ONE)
        } else {
            (F128::ZERO, F128::inv(F128::sub(x, y)))
        };
        let head = vec![flag];
        proof {
            assert(head@ =~= seq![equality_flag(x, y)]);
        }
        self.replace_top(step, 2, head, witness);
        Ok(())
    }

    /// The comparison step behind [`Stack::op_cmp`].
    fn compare(&mut self, step: usize, hint: ExecutionHint) -> (r: Result<(), StackError>)
        requires
            old(self).wf(),
            step + 1 < old(self)@.trace_length(),
        ensures
            final(self).wf(),
            follows(old(self)@, Op::Compare(hint), step, final(self)@, r),
    {
        if self.depth < 7 {
            return Err(StackError::StackUnderflow);
        }
        let (a_bit, b_bit, from_tapes) = match hint {
            ExecutionHint::NoHint => {
                if self.read_a >= self.tape_a.len() || self.read_b >= self.tape_b.len() {
                    return Err(StackError::MissingOrInvalidHint);
                }
                (self.tape_a[self.read_a], self.tape_b[self.read_b], true)
            },
            ExecutionHint::BitPair(a_bit, b_bit) => (a_bit, b_bit, false),
            ExecutionHint::Bit(_) => {
                return Err(StackError::MissingOrInvalidHint);
            },
        };
        if a_bit > 1 || b_bit > 1 {
            return Err(StackError::MissingOrInvalidHint);
        }
        let power = self.top(step, 0);
        let gt = self.top(step, 3);
        let lt = self.top(step, 4);
        let b_acc = self.top(step, 5);
        let a_acc = self.top(step, 6);
        let pending = F128::mul(F128::sub(F128::ONE, gt), F128::sub(F128::ONE, lt));
        let bit_gt = F128::mul(a_bit, F128::sub(F128::ONE, b_bit));
        let bit_lt = F128::mul(b_bit, F128::sub(F128::ONE, a_bit));
        let head = vec![
            F128::mul(power, F128::HALF),
            a_bit,
            b_bit,
            F128::add(gt, F128::mul(bit_gt, pending)),
            F128::add(lt, F128::mul(bit_lt, pending)),
            F128::add(b_acc, F128::mul(b_bit, power)),
            F128::add(a_acc, F128::mul(a_bit, power)),
        ];
        proof {
            assert(head@ =~= compare_row(self@.live(step as int), a_bit, b_bit));
        }
        self.replace_top(step, 7, head, pending);
        if from_tapes {
            self.read_a = self.read_a + 1;
            self.read_b = self.read_b + 1;
        }
        proof {
            let advice = compare_advice(old(self)@, hint).unwrap();
            assert(self@.tape_a =~= advice.tape_a);
            assert(self@.tape_b =~= advice.tape_b);
        }
        Ok(())
    }

    /// Takes one more bit of each compared operand, most significant first. The top
    /// seven operands are, from the top: the power of two of the bit, the two bits
    /// taken last, the flags `gt` and `lt`, and the accumulators of the second and
    /// of the first operand. The flag of the operand whose bit is the larger is set
    /// if no flag was set before; each accumulator gains its bit times the power;
    /// the power is halved. The witness of the step is one if no flag was set before
    /// it and zero otherwise.
    ///
    /// The two bits are the pair that the hint carries or, without a hint, the next
    /// value of each tape. The operation underflows where fewer than seven operands
    /// are live, and fails with `MissingOrInvalidHint` where the hint has another
    /// shape, where a tape that it would read is empty, or where a value is no bit.
    pub fn op_cmp(&mut self, step: usize, hint: ExecutionHint) -> (r: Result<(), StackError>)
        requires
            old(self).wf(),
            step + 1 < old(self)@.trace_length(),
        ensures
            final(self).wf(),
            follows(old(self)@, Op::Compare(hint), step, final(self)@, r),
    {
        self.compare(step, hint)
    }

    /// Takes one more bit into the binary accumulator, most significant first. The
    /// top operand is the power of two of the bit and the one below it the
    /// accumulator, which gains the bit times the power; the power is halved. The
    /// witness of the step is the bit.
    ///
    /// The bit is the one that the hint carries or, without a hint, the next value
    /// of the first tape. The operation underflows where fewer than two operands are
    /// live, and fails with `MissingOrInvalidHint` where the hint has another shape,
    /// where the tape is empty, or where the value is no bit.
    pub fn op_binacc(&mut self, step: usize, hint: ExecutionHint) -> (r: Result<(), StackError>)
        requires
            old(self).wf(),
            step + 1 < old(self)@.trace_length(),
        ensures
            final(self).wf(),
            follows(old(self)@, Op::BinAcc(hint), step, final(self)@, r),
    {
        if self.depth < 2 {
            return Err(StackError::StackUnderflow);
        }
        let (bit, from_tape) = match hint {
            ExecutionHint::NoHint => {
                if self.read_a >= self.tape_a.len() {
                    return Err(StackError::MissingOrInvalidHint);
                }
                (self.tape_a[self.read_a], true)
            },
            ExecutionHint::Bit(bit) => (bit, false),
            ExecutionHint::BitPair(_, _) => {
                return Err(StackError::MissingOrInvalidHint);
            },
        };
        if bit > 1 {
            return Err(StackError::MissingOrInvalidHint);
        }
        let power = self.top(step, 0);
        let acc = self.top(step, 1);
        let head = vec![F128::mul(power, F128::HALF), F128::add(acc, F128::mul(bit, power))];
        proof {
            assert(head@ =~= accumulate_row(self@.live(step as int), bit));
        }
        self.replace_top(step, 2, head, bit);
        if from_tape {
            self.read_a = self.read_a + 1;
        }
        proof {
            let advice = accumulate_advice(old(self)@, hint).unwrap();
            assert(self@.tape_a =~= advice.tape_a);
            assert(self@.tape_b =~= advice.tape_b);
        }
        Ok(())
    }
    /// Runs one operation at `step`.
    pub fn execute(&mut self, op: Op, step: usize) -> (r: Result<(), StackError>)
        requires
            old(self).wf(),
            step + 1 < old(self)@.trace_length(),
            old(self)@.depth + 2 <= usize::MAX,
        ensures
            final(self).wf(),
            follows(old(self)@, op, step, final(self)@, r),
    {
        match op {
            Op::Push(value) => self.op_push(step, value),
            Op::Pad2 => self.op_pad2(step),
            Op::Drop => self.op_drop(step),
            Op::Swap => self.op_swap(step),
            Op::Swap4 => self.op_swap4(step),
            Op::Roll4 => self.op_roll4(step),
            Op::Assert => self.op_assert(step),
            Op::Eq => self.op_eq(step),
            Op::Compare(hint) => self.compare(step, hint),
            Op::BinAcc(hint) => self.op_binacc(step, hint),
        }
    }
}

} // verus!
