//! The call stack: the frames of the invocations that are under way.
use vstd::prelude::*;
use crate::access_flags::{has_flag, ACC_NATIVE};
use crate::jvm_error::{VmError, VmExecResult};
use crate::jvm_values::Value;
use crate::loaded_class::{ClassRef, MethodRef};
use crate::runtime_method_info::RuntimeMethodInfo;
use crate::stack_frame::{initial_locals, laid_locals, LocalValue, Pending, StackFrame};
use crate::stack_trace_element::StackTraceElement;

verus! {

/// The largest number of frames on a call stack.
pub const MAX_STACK_DEPTH: usize = 1024;

/// The call of a native method that the host implements.
pub struct HostCall {
    /// The number under which the host has registered the method.
    pub id: u32,
    pub receiver: Option<Value>,
    pub args: Vec<Value>,
}

pub struct CallStack {
    pub frames: Vec<StackFrame>,
    /// The call that the host was asked last to compute.
    pub host_call: Option<HostCall>,
    /// Where the frames stood that the last uncaught exception left, the
    /// frame that threw first.
    pub trace: Vec<StackTraceElement>,
}

/// The receiver, if there is one, followed by the arguments.
pub open spec fn receiver_and_arguments(object: Option<Value>, args: Seq<Value>) -> Seq<Value> {
    match object {
        Some(receiver) => seq![receiver] + args,
        None => args,
    }
}

/// Whether `frame` is the frame with which the invocation of `method`
/// on `class_ref` starts: an empty operand stack with room for
/// `max_stack` values, and `max_locals` local variables that hold the
/// receiver and the arguments, wide values in two variables, and are
/// uninitialized behind them.
pub open spec fn is_entry_frame(
    frame: StackFrame,
    class_ref: ClassRef,
    method_ref: MethodRef,
    method: RuntimeMethodInfo,
    object: Option<Value>,
    args: Seq<Value>,
) -> bool {
    &&& method.code matches Some(code)
    &&& frame.wf()
    &&& frame.class_ref == class_ref
    &&& frame.method_ref == method_ref
    &&& frame.pc == 0
    &&& frame.next_pc == 0
    &&& frame.op_stack@ == Seq::<Value>::empty()
    &&& frame.op_stack.capacity() == code.max_stack
    &&& frame.local_var_table@ == initial_locals(
        receiver_and_arguments(object, args),
        code.max_locals as int,
    )
    &&& frame.local_var_table@.len() == code.max_locals
    &&& frame.pending is Nothing
}

/// The local variables at entry fill exactly `max_locals` variables.
pub proof fn lemma_initial_locals_len(values: Seq<Value>, max_locals: int)
    requires
        laid_locals(values, 0).len() <= max_locals,
    ensures
        initial_locals(values, max_locals).len() == max_locals,
{
}

impl CallStack {
    /// The invariant of the call stack: every frame is sound, and there
    /// are no more frames than the stack may hold.
    pub open spec fn wf(&self) -> bool {
        &&& self.frames@.len() <= MAX_STACK_DEPTH
        &&& forall|i: int| 0 <= i < self.frames@.len() ==> (#[trigger] self.frames@[i]).wf()
    }

    pub fn new() -> (r: CallStack)
        ensures
            r.wf(),
            r.frames@.len() == 0,
    {
        CallStack { frames: Vec::new(), host_call: None, trace: Vec::new() }
    }

    pub fn depth(&self) -> (r: usize)
        ensures
            r == self.frames@.len(),
    {
        self.frames.len()
    }

    /// The frame with which the invocation of `method`, the method
    /// `method_ref` of `class_ref`, starts. A native method and a method
    /// without code are refused with `NotImplemented`, and a receiver
    /// and arguments that need more local variables than the method has
    /// with `IndexOutOfBounds`.
    pub fn make_frame(
        class_ref: ClassRef,
        method_ref: MethodRef,
        method: &RuntimeMethodInfo,
        object: Option<Value>,
        args: &Vec<Value>,
    ) -> (r: VmExecResult<StackFrame>)
        ensures
            r matches Ok(frame) ==> is_entry_frame(
                frame,
                class_ref,
                method_ref,
                *method,
                object,
                args@,
            ) && frame.initializes is None && !frame.host,
            r is Ok <==> !has_flag(method@.access_flags, ACC_NATIVE) && method.code is Some
                && laid_locals(receiver_and_arguments(object, args@), 0).len()
                <= method.code->0.max_locals,
            r is Err ==> r->Err_0 == (if has_flag(method@.access_flags, ACC_NATIVE) || method.code
                is None {
                VmError::NotImplemented
            } else {
                VmError::IndexOutOfBounds
            }),
    {
        if method.is_native() {
            return Err(VmError::NotImplemented);
        }
        let code = match &method.code {
            Some(code) => code,
            None => {
                return Err(VmError::NotImplemented);
            },
        };
        let mut locals: Vec<Value> = Vec::new();
        if let Some(receiver) = object {
            locals.push(receiver);
        }
        let mut i: usize = 0;
        while i < args.len()
            invariant
                i <= args.len(),
                locals@ == receiver_and_arguments(object, args@.subrange(0, i as int)),
            decreases args.len() - i,
        {
            locals.push(args[i]);
            assert(locals@ =~= receiver_and_arguments(object, args@.subrange(0, i + 1)));
            i += 1;
        }
        assert(args@.subrange(0, args@.len() as int) =~= args@);
        match StackFrame::new(class_ref, method_ref, code, locals) {
            None => Err(VmError::IndexOutOfBounds),
            Some(frame) => {
                proof {
                    lemma_initial_locals_len(
                        receiver_and_arguments(object, args@),
                        code.max_locals as int,
                    );
                }
                Ok(frame)
            },
        }
    }

    /// Puts a frame on top of the stack. A full stack gives
    /// `StackOverFlow`, and the frame back.
    pub fn push_frame(&mut self, frame: StackFrame) -> (r: Result<(), StackFrame>)
        requires
            old(self).wf(),
            frame.wf(),
        ensures
            final(self).wf(),
            final(self).trace == old(self).trace,
            final(self).host_call == old(self).host_call,
            old(self).frames@.len() < MAX_STACK_DEPTH ==> r is Ok && final(self).frames@ == old(self).frames@.push(frame),
            old(self).frames@.len() >= MAX_STACK_DEPTH ==> r == Err::<(), _>(frame) && final(self).frames@ == old(self).frames@,
    {
        if self.frames.len() >= MAX_STACK_DEPTH {
            return Err(frame);
        }
        self.frames.push(frame);
        Ok(())
    }

    /// Starts the invocation of `method`, which is the method
    /// `method_ref` of `class_ref`: a frame for it comes on top of the
    /// stack. A native method and a method without code are refused with
    /// `NotImplemented`, a full stack with `StackOverFlow`, and a
    /// receiver and arguments that need more local variables than the
    /// method has with `IndexOutOfBounds`; then nothing changes.
    pub fn new_frame(
        &mut self,
        class_ref: ClassRef,
        method_ref: MethodRef,
        method: &RuntimeMethodInfo,
        object: Option<Value>,
        args: Vec<Value>,
    ) -> (r: VmExecResult<()>)
        requires
            old(self).wf(),
        ensures
            final(self).wf(),
            final(self).trace == old(self).trace,
            final(self).host_call == old(self).host_call,
            r is Ok ==> final(self).frames@.len() == old(self).frames@.len() + 1 && final(self).frames@.drop_last() == old(self).frames@ && is_entry_frame(
                final(self).frames@.last(),
                class_ref,
                method_ref,
                *method,
                object,
                args@,
            ) && final(self).frames@.last().initializes is None && !final(self).frames@.last().host,
            r is Err ==> final(self).frames@ == old(self).frames@,
            r is Ok <==> !has_flag(method@.access_flags, ACC_NATIVE) && method.code is Some
                && old(self).frames@.len() < MAX_STACK_DEPTH && laid_locals(
                receiver_and_arguments(object, args@),
                0,
            ).len() <= method.code->0.max_locals,
            r is Err ==> r->Err_0 == (if has_flag(method@.access_flags, ACC_NATIVE) || method.code
                is None {
                VmError::NotImplemented
            } else if old(self).frames@.len() >= MAX_STACK_DEPTH {
                VmError::StackOverFlow
            } else {
                VmError::IndexOutOfBounds
            }),
    {
        if method.is_native() || method.code.is_none() {
            return Err(VmError::NotImplemented);
        }
        if self.frames.len() >= MAX_STACK_DEPTH {
            return Err(VmError::StackOverFlow);
        }
        let frame = CallStack::make_frame(class_ref, method_ref, method, object, &args)?;
        let ghost before = self.frames@;
        self.frames.push(frame);
        assert(self.frames@.drop_last() =~= before);
        Ok(())
    }

    /// Takes the top frame off the stack.
    pub fn pop_frame(&mut self) -> (r: Option<StackFrame>)
        requires
            old(self).wf(),
        ensures
            final(self).wf(),
            final(self).trace == old(self).trace,
            final(self).host_call == old(self).host_call,
            old(self).frames@.len() > 0 ==> r == Some(old(self).frames@.last()) && final(self).frames@ == old(self).frames@.drop_last(),
            old(self).frames@.len() == 0 ==> r is None && final(self).frames@ == old(self).frames@,
            r matches Some(frame) ==> frame.wf(),
    {
        self.frames.pop()
    }
}

} // verus!
