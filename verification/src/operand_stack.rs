//! The operand stack of a frame.
use vstd::prelude::*;
use crate::jvm_error::{VmError, VmExecResult};
use crate::jvm_values::Value;

verus! {

/// A stack of values with a fixed capacity. The last value is the top.
#[derive(Debug)]
pub struct OperandStack {
    stack: Vec<Value>,
    max_size: usize,
}

impl View for OperandStack {
    type V = Seq<Value>;

    closed spec fn view(&self) -> Seq<Value> {
        self.stack@
    }
}

/// The stack after a duplication that looks at the top `taken` values
/// and leaves `left` in their place.
pub open spec fn replaced_top(stack: Seq<Value>, taken: int, left: Seq<Value>) -> Seq<Value> {
    stack.subrange(0, stack.len() - taken) + left
}

/// What `dup_x2` leaves in place of the values it looks at, the top
/// value last: below a wide second value the copy of the top goes under
/// two values, else under three.
pub open spec fn dup_x2_form(stack: Seq<Value>) -> Option<(int, Seq<Value>)> {
    let n = stack.len() as int;
    if n >= 2 && stack[n - 2].is_wide() {
        Some((2, seq![stack[n - 1], stack[n - 2], stack[n - 1]]))
    } else if n >= 3 {
        Some((3, seq![stack[n - 1], stack[n - 3], stack[n - 2], stack[n - 1]]))
    } else {
        None
    }
}

/// What `dup2` leaves: a wide top value once more, else the top two
/// values once more.
pub open spec fn dup2_form(stack: Seq<Value>) -> Option<(int, Seq<Value>)> {
    let n = stack.len() as int;
    if n >= 1 && stack[n - 1].is_wide() {
        Some((1, seq![stack[n - 1], stack[n - 1]]))
    } else if n >= 2 {
        Some((2, seq![stack[n - 2], stack[n - 1], stack[n - 2], stack[n - 1]]))
    } else {
        None
    }
}

/// What `dup2_x1` leaves: a wide top value also under the value below
/// it, else the top two values also under the third.
pub open spec fn dup2_x1_form(stack: Seq<Value>) -> Option<(int, Seq<Value>)> {
    let n = stack.len() as int;
    if n >= 2 && stack[n - 1].is_wide() {
        Some((2, seq![stack[n - 1], stack[n - 2], stack[n - 1]]))
    } else if n >= 3 {
        Some(
            (3, seq![stack[n - 2], stack[n - 1], stack[n - 3], stack[n - 2], stack[n - 1]]),
        )
    } else {
        None
    }
}

/// What `dup2_x2` leaves, by the widths of the values at the top.
pub open spec fn dup2_x2_form(stack: Seq<Value>) -> Option<(int, Seq<Value>)> {
    let n = stack.len() as int;
    if n >= 2 && stack[n - 1].is_wide() && stack[n - 2].is_wide() {
        Some((2, seq![stack[n - 1], stack[n - 2], stack[n - 1]]))
    } else if n >= 3 && stack[n - 1].is_wide() {
        Some((3, seq![stack[n - 1], stack[n - 3], stack[n - 2], stack[n - 1]]))
    } else if n >= 3 && stack[n - 3].is_wide() {
        Some(
            (3, seq![stack[n - 2], stack[n - 1], stack[n - 3], stack[n - 2], stack[n - 1]]),
        )
    } else if n >= 4 {
        Some(
            (
                4,
                seq![
                    stack[n - 2],
                    stack[n - 1],
                    stack[n - 4],
                    stack[n - 3],
                    stack[n - 2],
                    stack[n - 1],
                ],
            ),
        )
    } else {
        None
    }
}

/// What a duplication does to a stack of capacity `capacity`: without
/// the values it looks at the stack is unchanged and the result is
/// `PopFromEmptyStack`; where the outcome does not fit, the stack is
/// unchanged and the result is `StackOverFlow`.
pub open spec fn rearranged(
    before: Seq<Value>,
    capacity: int,
    form: Option<(int, Seq<Value>)>,
    after: Seq<Value>,
    r: VmExecResult<()>,
) -> bool {
    match form {
        None => r == Err::<(), _>(VmError::PopFromEmptyStack) && after == before,
        Some((taken, left)) => if before.len() - taken + left.len() > capacity {
            r == Err::<(), _>(VmError::StackOverFlow) && after == before
        } else {
            r is Ok && after == replaced_top(before, taken, left)
        },
    }
}

impl OperandStack {
    /// The invariant of the stack: it holds no more than its capacity.
    pub closed spec fn wf(&self) -> bool {
        self.stack@.len() <= self.max_size
    }

    /// The number of values that the stack can hold.
    pub closed spec fn capacity(&self) -> int {
        self.max_size as int
    }

    pub proof fn lemma_depth(&self)
        requires
            self.wf(),
        ensures
            self@.len() <= self.capacity() <= usize::MAX,
    {
    }

    pub fn new(max_size: usize) -> (r: OperandStack)
        ensures
            r.wf(),
            r@ == Seq::<Value>::empty(),
            r.capacity() == max_size,
    {
        OperandStack { stack: Vec::new(), max_size }
    }

    pub fn len(&self) -> (r: usize)
        ensures
            r == self@.len(),
    {
        self.stack.len()
    }

    /// The value `below` places under the top, without taking it.
    pub fn peek(&self, below: usize) -> (r: VmExecResult<Value>)
        ensures
            below < self@.len() ==> r == Ok::<_, VmError>(self@[self@.len() - 1 - below]),
            below >= self@.len() ==> r == Err::<Value, _>(VmError::PopFromEmptyStack),
    {
        let n = self.stack.len();
        if below < n {
            Ok(self.stack[n - 1 - below])
        } else {
            Err(VmError::PopFromEmptyStack)
        }
    }

    /// Takes the top `n` values; the result has them bottom first. A
    /// stack with fewer values is left as it is.
    pub fn pop_n(&mut self, n: usize) -> (r: VmExecResult<Vec<Value>>)
        requires
            old(self).wf(),
        ensures
            final(self).wf(),
            final(self).capacity() == old(self).capacity(),
            n <= old(self)@.len() ==> r is Ok && r->Ok_0@ == old(self)@.subrange(
                old(self)@.len() - n,
                old(self)@.len() as int,
            ) && final(self)@ == old(self)@.subrange(0, old(self)@.len() - n),
            n > old(self)@.len() ==> r == Err::<Vec<Value>, _>(VmError::PopFromEmptyStack) && final(self)@ == old(self)@,
    {
        let len = self.stack.len();
        if n > len {
            return Err(VmError::PopFromEmptyStack);
        }
        let start: usize = len - n;
        let mut values: Vec<Value> = Vec::new();
        let mut i: usize = start;
        while i < len
            invariant
                start <= i <= len,
                len == self.stack@.len(),
                self.stack@ == old(self).stack@,
                values@ == self.stack@.subrange(start as int, i as int),
            decreases len - i,
        {
            values.push(self.stack[i]);
            assert(values@ =~= self.stack@.subrange(start as int, i + 1));
            i += 1;
        }
        self.stack.truncate(start);
        Ok(values)
    }

    /// Takes the top value. An empty stack gives `PopFromEmptyStack`.
    pub fn pop(&mut self) -> (r: VmExecResult<Value>)
        requires
            old(self).wf(),
        ensures
            final(self).wf(),
            final(self).capacity() == old(self).capacity(),
            old(self)@.len() > 0 ==> r == Ok::<_, VmError>(old(self)@.last()) && final(self)@
                == old(self)@.drop_last(),
            old(self)@.len() == 0 ==> r == Err::<Value, _>(VmError::PopFromEmptyStack) && final(self)@ == old(self)@,
    {
        match self.stack.pop() {
            Some(v) => Ok(v),
            None => Err(VmError::PopFromEmptyStack),
        }
    }

    /// Puts `value` on top. A full stack gives `StackOverFlow`.
    pub fn push(&mut self, value: Value) -> (r: VmExecResult<()>)
        requires
            old(self).wf(),
        ensures
            final(self).wf(),
            final(self).capacity() == old(self).capacity(),
            old(self)@.len() < old(self).capacity() ==> r is Ok && final(self)@ == old(self)@.push(
                value,
            ),
            old(self)@.len() >= old(self).capacity() ==> r == Err::<(), _>(VmError::StackOverFlow)
                && final(self)@ == old(self)@,
    {
        if self.stack.len() < self.max_size {
            self.stack.push(value);
            Ok(())
        } else {
            Err(VmError::StackOverFlow)
        }
    }

    /// Empties the stack.
    pub fn clear(&mut self)
        requires
            old(self).wf(),
        ensures
            final(self).wf(),
            final(self).capacity() == old(self).capacity(),
            final(self)@ == Seq::<Value>::empty(),
    {
        self.stack.clear();
    }

    /// Replaces the top `taken` values by `left`, which holds the new
    /// values bottom first.
    fn rearrange(&mut self, taken: usize, left: Vec<Value>) -> (r: VmExecResult<()>)
        requires
            old(self).wf(),
            taken <= old(self)@.len(),
        ensures
            final(self).wf(),
            final(self).capacity() == old(self).capacity(),
            rearranged(
                old(self)@,
                old(self).capacity(),
                Some((taken as int, left@)),
                final(self)@,
                r,
            ),
    {
        let rest: usize = self.stack.len() - taken;
        if left.len() > self.max_size - rest {
            return Err(VmError::StackOverFlow);
        }
        self.stack.truncate(rest);
        let ghost base = self.stack@;
        let mut i: usize = 0;
        while i < left.len()
            invariant
                i <= left.len(),
                rest + left.len() <= self.max_size,
                base.len() == rest,
                self.max_size == old(self).max_size,
                self.stack@ == base + left@.subrange(0, i as int),
            decreases left.len() - i,
        {
            self.stack.push(left[i]);
            assert(self.stack@ =~= base + left@.subrange(0, i + 1));
            i += 1;
        }
        assert(left@.subrange(0, left@.len() as int) =~= left@);
        Ok(())
    }

    /// Copies the top value. It must not be wide.
    pub fn dup(&mut self) -> (r: VmExecResult<()>)
        requires
            old(self).wf(),
        ensures
            final(self).wf(),
            final(self).capacity() == old(self).capacity(),
            rearranged(
                old(self)@,
                old(self).capacity(),
                if old(self)@.len() >= 1 {
                    Some((1int, seq![old(self)@.last(), old(self)@.last()]))
                } else {
                    None
                },
                final(self)@,
                r,
            ),
    {
        let n = self.stack.len();
        if n < 1 {
            return Err(VmError::PopFromEmptyStack);
        }
        let v1 = self.stack[n - 1];
        self.rearrange(1, vec![v1, v1])
    }

    /// Puts a copy of the top value under the value below it.
    pub fn dup_x1(&mut self) -> (r: VmExecResult<()>)
        requires
            old(self).wf(),
        ensures
            final(self).wf(),
            final(self).capacity() == old(self).capacity(),
            rearranged(
                old(self)@,
                old(self).capacity(),
                if old(self)@.len() >= 2 {
                    Some(
                        (
                            2int,
                            seq![
                                old(self)@[old(self)@.len() - 1],
                                old(self)@[old(self)@.len() - 2],
                                old(self)@[old(self)@.len() - 1],
                            ],
                        ),
                    )
                } else {
                    None
                },
                final(self)@,
                r,
            ),
    {
        let n = self.stack.len();
        if n < 2 {
            return Err(VmError::PopFromEmptyStack);
        }
        let v1 = self.stack[n - 1];
        let v2 = self.stack[n - 2];
        self.rearrange(2, vec![v1, v2, v1])
    }

    /// Puts a copy of the top value under the two values below it, or
    /// under the one value below it where that one is wide.
    pub fn dup_x2(&mut self) -> (r: VmExecResult<()>)
        requires
            old(self).wf(),
        ensures
            final(self).wf(),
            final(self).capacity() == old(self).capacity(),
            rearranged(
                old(self)@,
                old(self).capacity(),
                dup_x2_form(old(self)@),
                final(self)@,
                r,
            ),
    {
        let n = self.stack.len();
        if n >= 2 && self.stack[n - 2].wide() {
            let v1 = self.stack[n - 1];
            let v2 = self.stack[n - 2];
            self.rearrange(2, vec![v1, v2, v1])
        } else if n >= 3 {
            let v1 = self.stack[n - 1];
            let v2 = self.stack[n - 2];
            let v3 = self.stack[n - 3];
            self.rearrange(3, vec![v1, v3, v2, v1])
        } else {
            Err(VmError::PopFromEmptyStack)
        }
    }

    /// Copies the top two values, or the top value where it is wide.
    pub fn dup2(&mut self) -> (r: VmExecResult<()>)
        requires
            old(self).wf(),
        ensures
            final(self).wf(),
            final(self).capacity() == old(self).capacity(),
            rearranged(old(self)@, old(self).capacity(), dup2_form(old(self)@), final(self)@, r),
    {
        let n = self.stack.len();
        if n >= 1 && self.stack[n - 1].wide() {
            let v1 = self.stack[n - 1];
            self.rearrange(1, vec![v1, v1])
        } else if n >= 2 {
            let v1 = self.stack[n - 1];
            let v2 = self.stack[n - 2];
            self.rearrange(2, vec![v2, v1, v2, v1])
        } else {
            Err(VmError::PopFromEmptyStack)
        }
    }

    /// Puts a copy of the top two values, or of a wide top value, under
    /// the value below them.
    pub fn dup2_x1(&mut self) -> (r: VmExecResult<()>)
        requires
            old(self).wf(),
        ensures
            final(self).wf(),
            final(self).capacity() == old(self).capacity(),
            rearranged(
                old(self)@,
                old(self).capacity(),
                dup2_x1_form(old(self)@),
                final(self)@,
                r,
            ),
    {
        let n = self.stack.len();
        if n >= 2 && self.stack[n - 1].wide() {
            let v1 = self.stack[n - 1];
            let v2 = self.stack[n - 2];
            self.rearrange(2, vec![v1, v2, v1])
        } else if n >= 3 {
            let v1 = self.stack[n - 1];
            let v2 = self.stack[n - 2];
            let v3 = self.stack[n - 3];
            self.rearrange(3, vec![v2, v1, v3, v2, v1])
        } else {
            Err(VmError::PopFromEmptyStack)
        }
    }

    /// Puts a copy of the top two values, or of a wide top value, under
    /// the two values, or the one wide value, below them.
    pub fn dup2_x2(&mut self) -> (r: VmExecResult<()>)
        requires
            old(self).wf(),
        ensures
            final(self).wf(),
            final(self).capacity() == old(self).capacity(),
            rearranged(
                old(self)@,
                old(self).capacity(),
                dup2_x2_form(old(self)@),
                final(self)@,
                r,
            ),
    {
        let n = self.stack.len();
        if n >= 2 && self.stack[n - 1].wide() && self.stack[n - 2].wide() {
            let v1 = self.stack[n - 1];
            let v2 = self.stack[n - 2];
            self.rearrange(2, vec![v1, v2, v1])
        } else if n >= 3 && self.stack[n - 1].wide() {
            let v1 = self.stack[n - 1];
            let v2 = self.stack[n - 2];
            let v3 = self.stack[n - 3];
            self.rearrange(3, vec![v1, v3, v2, v1])
        } else if n >= 3 && self.stack[n - 3].wide() {
            let v1 = self.stack[n - 1];
            let v2 = self.stack[n - 2];
            let v3 = self.stack[n - 3];
            self.rearrange(3, vec![v2, v1, v3, v2, v1])
        } else if n >= 4 {
            let v1 = self.stack[n - 1];
            let v2 = self.stack[n - 2];
            let v3 = self.stack[n - 3];
            let v4 = self.stack[n - 4];
            self.rearrange(4, vec![v2, v1, v4, v3, v2, v1])
        } else {
            Err(VmError::PopFromEmptyStack)
        }
    }

    /// Exchanges the top two values.
    pub fn swap(&mut self) -> (r: VmExecResult<()>)
        requires
            old(self).wf(),
        ensures
            final(self).wf(),
            final(self).capacity() == old(self).capacity(),
            rearranged(
                old(self)@,
                old(self).capacity(),
                if old(self)@.len() >= 2 {
                    Some(
                        (
                            2int,
                            seq![
                                old(self)@[old(self)@.len() - 1],
                                old(self)@[old(self)@.len() - 2],
                            ],
                        ),
                    )
                } else {
                    None
                },
                final(self)@,
                r,
            ),
    {
        let n = self.stack.len();
        if n < 2 {
            return Err(VmError::PopFromEmptyStack);
        }
        let v1 = self.stack[n - 1];
        let v2 = self.stack[n - 2];
        self.rearrange(2, vec![v1, v2])
    }
}

} // verus!
