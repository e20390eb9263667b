//! The interpreter: one step of the machine at a time.
//!
//! A step takes the top frame off the call stack, lets it execute one
//! instruction, and puts it back, with a new frame above it where the
//! instruction invokes a method or needs a class initialized, or
//! unwinds frames where it throws. Floating-point operations are left to
//! the host: a step that needs one says so, and the host hands the
//! answer back.
use vstd::prelude::*;
use crate::byte_buffer::ByteBuffer;
use crate::instruction::{parse_instruction, read_one_instruction, Instruction};
use crate::java_exception::{InvokeMethodResult, MethodCallError};
use crate::jvm_error::{VmError, VmExecResult};
use crate::stack_trace_element::StackTraceElement;
use crate::access_flags::{has_flag, ACC_INTERFACE, ACC_NATIVE};
use crate::class_file_version::ClassFileVersion;
use crate::jvm_values::{ArrayElement, ArrayReference, ObjectReference, PrimaryType, Value};
use crate::runtime_constant_pool::{
    runtime_constant_at, RuntimeConstantPoolEntry, RuntimeConstantView,
};
use crate::native_method_area::NativeMethod;
use crate::stack::receiver_and_arguments;
use crate::stack_frame::{laid_locals, Shape};
use vstd::string::StrSliceExecFns;
use crate::text::{begins_with, chars_of, starts_with_char, str_eq};
use crate::loaded_class::{Class, ClassRef, ClassStatus, MethodRef};
use crate::loaded_class::method_position;
use crate::method_area::{class_position, method_site, subclass_of};
use crate::runtime_attribute_info::{ExceptionTable, ExceptionTableView};
use crate::runtime_method_info::RuntimeMethodInfo;
use crate::seq_view::views;
use crate::stack::{is_entry_frame, CallStack, HostCall};
use crate::stack_frame::{
    local_step, Effect, FloatRequest, FrameState, InstructionResult, JavaException, Pending,
    StackFrame,
};
use crate::virtual_machine::{canonical, canonical_name, mirrors, Prepared, VirtualMachine};

verus! {

/// What the execution of one instruction leaves to do.
pub enum Step {
    /// The frame goes on with its next instruction.
    Continue,
    /// The frame goes on once this frame, which comes above it, has
    /// returned: an invocation, or the initializer of a class.
    Enter(StackFrame),
    /// The frame returns, with this value where it has one.
    Return(Option<Value>),
    /// The instruction raises this exception.
    Raise(JavaException),
    /// The instruction throws this object.
    Throw(ObjectReference),
    /// The frame goes on once the host has computed this operation.
    NeedFloat(FloatRequest),
    /// The frame goes on once the host has run this call of a native
    /// method of its own.
    NeedHost(HostCall),
    /// The frame still waits for the host to run the native method
    /// with this number.
    AwaitHost(u32),
}

/// How far a run of the machine has come.
#[derive(Debug, Clone, Copy, PartialEq, Eq, Structural)]
pub enum Progress {
    /// There is more to execute.
    Running,
    /// The frame that the host started has returned, with this value
    /// where it has one.
    Returned(Option<Value>),
    /// No frame down to the one that the host started caught this
    /// exception.
    Thrown(ObjectReference),
    /// The host is to compute this operation and hand the answer back.
    NeedFloat(FloatRequest),
    /// The host is to run the native method with this number, whose
    /// call the call stack holds, and hand the result back.
    NeedHost(u32),
    /// The call stack is empty.
    Idle,
}

/// Whether `r` is the error `e`.
pub open spec fn fails<T>(r: VmExecResult<T>, e: VmError) -> bool {
    r matches Err(f) && f == e
}

/// Whether a frame goes on in the state `state`, or the instruction
/// fails with the error that stands in its place.
pub open spec fn goes_on_in(after: StackFrame, state: Result<FrameState, VmError>, r: VmExecResult<
    Step,
>) -> bool {
    match state {
        Ok(s) => r matches Ok(Step::Continue) && after.state() == s,
        Err(e) => fails(r, e),
    }
}

/// Whether an instruction of the frame `before` has left it to the
/// initializer of a class to run first: the frame stands before the
/// instruction again, with its operands and local variables as they
/// were.
pub open spec fn waits_for_class(before: StackFrame, after: StackFrame, entered: StackFrame) -> bool {
    &&& entered.initializes is Some
    &&& !entered.host
    &&& after.state() == (FrameState { next_pc: before.pc as int, ..before.state() })
}

/// A copy of values.
fn copy_values(values: &Vec<Value>) -> (r: Vec<Value>)
    ensures
        r@ == values@,
{
    let mut copy: Vec<Value> = Vec::new();
    let mut i: usize = 0;
    while i < values.len()
        invariant
            i <= values.len(),
            copy@ == values@.subrange(0, i as int),
        decreases values.len() - i,
    {
        copy.push(values[i]);
        assert(copy@ =~= values@.subrange(0, i + 1));
        i += 1;
    }
    assert(values@.subrange(0, values@.len() as int) =~= values@);
    copy
}

/// The step that the result of a frame-local instruction stands for.
pub open spec fn step_for(result: InstructionResult) -> Step {
    match result {
        InstructionResult::ContinueMethodExecution => Step::Continue,
        InstructionResult::ReturnFromMethod(value) => Step::Return(value),
        InstructionResult::Raise(exception) => Step::Raise(exception),
        InstructionResult::NeedFloat(request) => Step::NeedFloat(request),
    }
}

pub fn step_of(result: InstructionResult) -> (r: Step)
    ensures
        r == step_for(result),
{
    match result {
        InstructionResult::ContinueMethodExecution => Step::Continue,
        InstructionResult::ReturnFromMethod(value) => Step::Return(value),
        InstructionResult::Raise(exception) => Step::Raise(exception),
        InstructionResult::NeedFloat(request) => Step::NeedFloat(request),
    }
}

/// The handler for an exception of the class `thrown` that was thrown
/// by the instruction at `pc`: the handler of the first row, from row
/// `from` on, that covers `pc` and that catches everything or a class
/// that `thrown` is.
pub open spec fn handler_at(
    table: Seq<ExceptionTableView>,
    pc: int,
    classes: Seq<Class>,
    thrown: int,
    from: int,
) -> Option<u16>
    decreases table.len() - from,
{
    if from < 0 || from >= table.len() {
        None
    } else {
        let row = table[from];
        if row.start_pc <= pc < row.end_pc && (match row.catch_type {
            None => true,
            Some(name) => subclass_of(classes, thrown, name),
        }) {
            Some(row.handler_pc)
        } else {
            handler_at(table, pc, classes, thrown, from + 1)
        }
    }
}

/// A handler that covers the position and catches the class is found
/// unless an earlier row is.
pub proof fn lemma_handler_found(
    table: Seq<ExceptionTableView>,
    pc: int,
    classes: Seq<Class>,
    thrown: int,
    row: int,
)
    requires
        0 <= row < table.len(),
        table[row].start_pc <= pc < table[row].end_pc,
        table[row].catch_type matches Some(name) ==> subclass_of(classes, thrown, name),
    ensures
        handler_at(table, pc, classes, thrown, 0) is Some,
{
    lemma_handler_from(table, pc, classes, thrown, row, 0);
}

/// A division of integers by zero, and a remainder, raises
/// `ArithmeticException` and takes both operands off the stack.
pub proof fn lemma_division_by_zero_raises(
    s: FrameState,
    code: Seq<u8>,
    instruction: Instruction,
    dividend: i32,
)
    requires
        instruction is Idiv || instruction is Irem,
        s.stack.len() >= 2,
        s.stack[s.stack.len() - 2] == Value::Int(dividend),
        s.stack[s.stack.len() - 1] == Value::Int(0),
    ensures
        local_step(s, code, instruction) == Some(
            Ok::<_, VmError>(
                (
                    InstructionResult::Raise(JavaException::ArithmeticException),
                    FrameState { stack: s.stack.subrange(0, s.stack.len() - 2), ..s },
                ),
            ),
        ),
{
    assert(s.stack.drop_last().drop_last() =~= s.stack.subrange(0, s.stack.len() - 2));
}

/// A division of longs by zero, and a remainder, raises
/// `ArithmeticException` and takes both operands off the stack.
pub proof fn lemma_long_division_by_zero_raises(
    s: FrameState,
    code: Seq<u8>,
    instruction: Instruction,
    dividend: i64,
)
    requires
        instruction is Ldiv || instruction is Lrem,
        s.stack.len() >= 2,
        s.stack[s.stack.len() - 2] == Value::Long(dividend),
        s.stack[s.stack.len() - 1] == Value::Long(0),
    ensures
        local_step(s, code, instruction) == Some(
            Ok::<_, VmError>(
                (
                    InstructionResult::Raise(JavaException::ArithmeticException),
                    FrameState { stack: s.stack.subrange(0, s.stack.len() - 2), ..s },
                ),
            ),
        ),
{
    assert(s.stack.drop_last().drop_last() =~= s.stack.subrange(0, s.stack.len() - 2));
}

/// `invokevirtual` and `invokeinterface` on a null receiver raise
/// `NullPointerException`: where the class that the method reference
/// names is initialized and has the method, and the value below the
/// arguments is null, the arguments and the receiver are taken off the
/// stack, no method is invoked, and nothing but the frame changes.
pub proof fn lemma_call_on_null_raises(
    vm: VirtualMachine,
    frame: StackFrame,
    index: u16,
    interface: bool,
    after: VirtualMachine,
    after_frame: StackFrame,
    r: VmExecResult<Step>,
)
    requires
        vm.invoke_virtual_done(frame, index, interface, &after, after_frame, r),
        vm.method_constant(frame, index, !interface, true) is Some,
        ({
            let named = vm.method_constant(frame, index, !interface, true)->0;
            let class = vm.ready(named.0)->0;
            let site = method_site(vm.method_area@, class as int, named.1, named.2)->0;
            let count = vm.method_area@[site.class as int].methods@[site.method as int].descriptor_args_ret.args@.len() as int;
            let stack = frame.state().stack;
            &&& vm.ready(named.0) is Some
            &&& has_flag(vm.method_area@[class as int].access_flags@, ACC_INTERFACE) == interface
            &&& method_site(vm.method_area@, class as int, named.1, named.2) is Some
            &&& count + 1 <= stack.len()
            &&& stack[stack.len() - count - 1] is Null
        }),
    ensures
        r matches Ok(Step::Raise(e)) && e == JavaException::NullPointerException,
        vm.unchanged(&after),
        after_frame.state().stack.len() < frame.state().stack.len(),
{
}

/// An exception is caught in the frame that throws it where a row of
/// the exception table of its method covers the instruction and catches
/// the class of the exception: the search for a handler ends in that
/// frame, and the frames below stay.
pub proof fn lemma_caught_where_thrown(
    vm: VirtualMachine,
    below: Seq<StackFrame>,
    frame: StackFrame,
    thrown: int,
    row: int,
)
    requires
        vm.frame_fits(frame),
        ({
            let table = vm.method_area@[frame.class_ref as int].methods@[frame.method_ref as int].code->0@.exception_table;
            &&& 0 <= row < table.len()
            &&& table[row].start_pc <= frame.pc < table[row].end_pc
            &&& table[row].catch_type matches Some(name) ==> subclass_of(
                vm.method_area@,
                thrown,
                name,
            )
        }),
    ensures
        vm.unwound(below, frame, thrown).0 == below,
        vm.unwound(below, frame, thrown).1 matches Some((catcher, handler_pc)) && catcher == frame
            && Some(handler_pc) == vm.handler_of(frame, thrown),
{
    let table = vm.method_area@[frame.class_ref as int].methods@[frame.method_ref as int].code->0@.exception_table;
    lemma_handler_found(table, frame.pc as int, vm.method_area@, thrown, row);
}

proof fn lemma_handler_from(
    table: Seq<ExceptionTableView>,
    pc: int,
    classes: Seq<Class>,
    thrown: int,
    row: int,
    from: int,
)
    requires
        0 <= from <= row < table.len(),
        table[row].start_pc <= pc < table[row].end_pc,
        table[row].catch_type matches Some(name) ==> subclass_of(classes, thrown, name),
    ensures
        handler_at(table, pc, classes, thrown, from) is Some,
    decreases row - from,
{
    if from < row {
        lemma_handler_from(table, pc, classes, thrown, row, from + 1);
    }
}

impl VirtualMachine {
    /// The method that a frame executes. A frame of no method of the
    /// machine is refused with `ClassFormatError`.
    pub fn method_of_frame(&self, frame: &StackFrame) -> (r: VmExecResult<&RuntimeMethodInfo>)
        ensures
            frame.class_ref < self.method_area@.len() && frame.method_ref
                < self.method_area@[frame.class_ref as int].methods@.len() ==> r is Ok && *r->Ok_0
                == self.method_area@[frame.class_ref as int].methods@[frame.method_ref as int],
            !(frame.class_ref < self.method_area@.len() && frame.method_ref
                < self.method_area@[frame.class_ref as int].methods@.len()) ==> r is Err && r->Err_0
                == VmError::ClassFormatError,
    {
        match self.method_area.get(frame.class_ref) {
            None => Err(VmError::ClassFormatError),
            Some(class) => {
                if frame.method_ref < class.methods.len() {
                    Ok(&class.methods[frame.method_ref])
                } else {
                    Err(VmError::ClassFormatError)
                }
            },
        }
    }

    /// Looks for the handler of an exception of the class `thrown` that
    /// was thrown at `pc`.
    pub fn find_handler(&self, table: &Vec<ExceptionTable>, pc: usize, thrown: ClassRef) -> (r:
        Option<u16>)
        requires
            self.wf(),
        ensures
            r == handler_at(views(table@), pc as int, self.method_area@, thrown as int, 0),
    {
        let mut i: usize = 0;
        while i < table.len()
            invariant
                i <= table.len(),
                self.wf(),
                handler_at(views(table@), pc as int, self.method_area@, thrown as int, 0)
                    == handler_at(
                    views(table@),
                    pc as int,
                    self.method_area@,
                    thrown as int,
                    i as int,
                ),
            decreases table.len() - i,
        {
            let row = &table[i];
            assert(views(table@)[i as int] == row@);
            if row.start_pc as usize <= pc && pc < row.end_pc as usize {
                let caught = match &row.catch_type {
                    None => true,
                    Some(name) => self.method_area.is_subclass_of(thrown, name.as_str()),
                };
                if caught {
                    return Some(row.handler_pc);
                }
            }
            i += 1;
        }
        None
    }

    /// The class called `name`, where it is loaded and is initialized
    /// or is being initialized: the instructions use such a class as it
    /// is.
    pub open spec fn ready(&self, name: Seq<char>) -> Option<ClassRef> {
        match class_position(self.method_area@, canonical_name(name), 0) {
            Some(c) => if self.method_area@[c].status == ClassStatus::Initialized
                || self.method_area@[c].status == ClassStatus::Initializing {
                Some(c as usize)
            } else {
                None
            },
            None => None,
        }
    }

    /// What preparing the class under `class`, which is `Linked`, comes
    /// to. A class without an initializer becomes `Initialized`. For a
    /// class with one, the frame that runs the initializer is made, for
    /// the host where `host` says so, and the class becomes
    /// `Initializing`; an initializer without code is refused with
    /// `NotImplemented`, and then nothing changes. Nothing but the
    /// status of the class changes.
    pub open spec fn initialization_begun(
        &self,
        class: ClassRef,
        host: bool,
        after: &VirtualMachine,
        r: VmExecResult<Prepared>,
    ) -> bool {
        let before = self.method_area@[class as int];
        &&& after.method_area.class_paths() == self.method_area.class_paths()
        &&& after.object_heap == self.object_heap
        &&& after.static_area == self.static_area
        &&& after.native_method_area == self.native_method_area
        &&& match method_position(views(before.methods@), "<clinit>"@, "()V"@, 0) {
            None => (r matches Ok(Prepared::Ready(c)) && c == class) && after.method_area@
                == self.method_area@.update(
                class as int,
                Class { status: ClassStatus::Initialized, ..before },
            ),
            Some(m) => match r {
                Ok(Prepared::Started(frame)) => is_entry_frame(
                    frame,
                    class,
                    m as usize,
                    before.methods@[m],
                    None,
                    Seq::empty(),
                ) && frame.initializes == Some(class) && frame.host == host && after.method_area@
                    == self.method_area@.update(
                    class as int,
                    Class { status: ClassStatus::Initializing, ..before },
                ),
                Ok(Prepared::Ready(_)) => false,
                Err(e) => e == VmError::NotImplemented && (has_flag(
                    before.methods@[m]@.access_flags,
                    ACC_NATIVE,
                ) || before.methods@[m].code is None) && after.method_area@ == self.method_area@,
            },
        }
    }

    /// Prepares the class called `name` for use: it is loaded and linked,
    /// and where it has an initializer that has not run, the frame that
    /// runs it is made and the class becomes `Initializing`. A class
    /// that is `Initialized`, or `Initializing` further down, is left as
    /// it is, and so is everything else.
    pub fn ensure_initialized(&mut self, name: &str, host: bool) -> (r: VmExecResult<Prepared>)
        requires
            old(self).wf(),
        ensures
            old(self).advances(final(self)),
            r matches Ok(Prepared::Ready(c)) ==> final(self).usable(c) && final(self).method_area@[c as int].name@ == canonical_name(name@) && final(self).method_area@[c as int].status.rank() >= 4,
            r matches Ok(Prepared::Started(frame)) ==> final(self).frame_fits(frame) && final(self).method_area@[frame.class_ref as int].name@ == canonical_name(name@)
                && frame.initializes is Some && frame.host == host && frame.pending is Nothing && final(self).usable(
                frame.initializes->0,
            ) && frame.class_ref == frame.initializes->0 && final(self).method_area@[frame.class_ref as int].status == ClassStatus::Initializing,
            old(self).ready(name@) matches Some(c) ==> (r matches Ok(Prepared::Ready(d)) && d == c)
                && old(self).unchanged(final(self)) && *final(self) == *old(self),
            class_position(old(self).method_area@, canonical_name(name@), 0) matches Some(c) ==> (
            old(self).method_area@[c].status == ClassStatus::Linked
                ==> old(self).initialization_begun(c as usize, host, final(self), r)),
            r matches Ok(Prepared::Ready(c)) ==> final(self).ready(name@) == Some(c),
            r matches Ok(Prepared::Started(frame)) ==> final(self).ready(name@) == Some(
                frame.class_ref,
            ),
            r matches Ok(Prepared::Ready(c)) ==> final(self).method_area@[c as int].status
                == ClassStatus::Initialized || (c < old(self).method_area@.len()
                && old(self).method_area@[c as int].status == ClassStatus::Initializing),
    {
        proof {
            crate::method_area::lemma_class_position(
                self.method_area@,
                canonical_name(name@),
                0,
            );
        }
        let class_ref = self.linked_class(canonical(name))?;
        let ghost linked = *self;
        match self.method_area.class(class_ref).status {
            ClassStatus::Initializing | ClassStatus::Initialized => {
                proof {
                    crate::method_area::lemma_class_found(self.method_area@, class_ref as int);
                }
                Ok(Prepared::Ready(class_ref))
            },
            ClassStatus::Linked => {
                let class = self.method_area.class(class_ref);
                match class.get_method("<clinit>", "()V") {
                    Err(_) => {
                        self.method_area.advance_status(class_ref, ClassStatus::Initialized);
                        proof {
                            old(self).lemma_advances_transitive(&linked, self);
                            assert(self.method_area@ =~= linked.method_area@.update(
                                class_ref as int,
                                Class {
                                    status: ClassStatus::Initialized,
                                    ..linked.method_area@[class_ref as int]
                                },
                            ));
                            crate::method_area::lemma_class_found(
                                self.method_area@,
                                class_ref as int,
                            );
                        }
                        Ok(Prepared::Ready(class_ref))
                    },
                    Ok(method_ref) => {
                        let args: Vec<Value> = Vec::new();
                        let made = CallStack::make_frame(
                            class_ref,
                            method_ref,
                            &class.methods[method_ref],
                            None,
                            &args,
                        );
                        let mut frame = match made {
                            Ok(frame) => frame,
                            Err(e) => {
                                return Err(e);
                            },
                        };
                        frame.initializes = Some(class_ref);
                        frame.host = host;
                        self.method_area.advance_status(class_ref, ClassStatus::Initializing);
                        proof {
                            old(self).lemma_advances_transitive(&linked, self);
                            assert(self.method_area@ =~= linked.method_area@.update(
                                class_ref as int,
                                Class {
                                    status: ClassStatus::Initializing,
                                    ..linked.method_area@[class_ref as int]
                                },
                            ));
                            crate::method_area::lemma_class_found(
                                self.method_area@,
                                class_ref as int,
                            );
                        }
                        Ok(Prepared::Started(frame))
                    },
                }
            },
            _ => Err(VmError::ClassFormatError),
        }
    }

    /// The state of a frame once it has fetched the instruction that
    /// ends at `next`.
    pub open spec fn fetched(frame: StackFrame, next: int) -> FrameState {
        FrameState { pc: frame.next_pc as int, next_pc: next, ..frame.state() }
    }

    /// What the next instruction of a frame does where it touches
    /// nothing but the frame; `None` where the frame waits, has no code
    /// to execute, or stands before another instruction.
    pub open spec fn local_effect(&self, frame: StackFrame) -> Option<Effect> {
        if frame.pending is Nothing && frame.class_ref < self.method_area@.len()
            && frame.method_ref < self.method_area@[frame.class_ref as int].methods@.len() {
            match self.method_area@[frame.class_ref as int].methods@[frame.method_ref as int].code {
                Some(code) => if frame.next_pc <= code.code@.len() {
                    match parse_instruction(code.code@, frame.next_pc as int) {
                        Ok((instruction, next)) => local_step(
                            VirtualMachine::fetched(frame, next),
                            code.code@,
                            instruction,
                        ),
                        Err(_) => None,
                    }
                } else {
                    None
                },
                None => None,
            }
        } else {
            None
        }
    }

    /// The instruction that a frame executes next, and the position
    /// behind it; `None` where the frame waits, is no frame of a method
    /// with code, or stands where no instruction can be decoded.
    pub open spec fn next_instruction(&self, frame: StackFrame) -> Option<(Instruction, int)> {
        if frame.pending is Nothing && frame.class_ref < self.method_area@.len()
            && frame.method_ref < self.method_area@[frame.class_ref as int].methods@.len() {
            match self.method_area@[frame.class_ref as int].methods@[frame.method_ref as int].code {
                Some(code) => if frame.next_pc <= code.code@.len() {
                    match parse_instruction(code.code@, frame.next_pc as int) {
                        Ok(found) => Some(found),
                        Err(_) => None,
                    }
                } else {
                    None
                },
                None => None,
            }
        } else {
            None
        }
    }

    /// Whether `r` is the step that stands for the effect `effect` of an
    /// instruction of `frame`, and `after` the frame as the effect
    /// leaves it.
    pub open spec fn stepped(after: StackFrame, effect: Effect, r: VmExecResult<Step>) -> bool {
        match effect {
            Ok((result, state)) => (r matches Ok(step) && step == step_for(result))
                && after.state() == state,
            Err(e) => fails(r, e),
        }
    }

    /// Whether `r` is the step that stands for the result `done` of an
    /// instruction.
    pub open spec fn step_stands_for(r: VmExecResult<Step>, done: VmExecResult<InstructionResult>) -> bool {
        match done {
            Ok(result) => r matches Ok(step) && step == step_for(result),
            Err(e) => fails(r, e),
        }
    }

    /// The code of the method that a frame executes, where it executes
    /// a method of the machine that has code.
    pub open spec fn code_of(&self, frame: StackFrame) -> Option<Seq<u8>> {
        if frame.class_ref < self.method_area@.len() && frame.method_ref
            < self.method_area@[frame.class_ref as int].methods@.len() {
            match self.method_area@[frame.class_ref as int].methods@[frame.method_ref as int].code {
                Some(code) => Some(code.code@),
                None => None,
            }
        } else {
            None
        }
    }

    /// What an instruction does to the machine and to the frame that
    /// executes it, which has fetched it. A frame of no method with
    /// code is refused with `ClassFormatError`. An instruction that
    /// touches nothing but the frame does what `local_step` says, and
    /// nothing but the frame changes; any other does what
    /// `performs_on_machine` says.
    pub open spec fn performs(
        &self,
        frame: StackFrame,
        instruction: Instruction,
        after: &VirtualMachine,
        after_frame: StackFrame,
        r: VmExecResult<Step>,
    ) -> bool {
        match self.code_of(frame) {
            None => fails(r, VmError::ClassFormatError) && self.unchanged(after) && after_frame
                == frame,
            Some(code) => match local_step(frame.state(), code, instruction) {
                Some(effect) => self.unchanged(after) && VirtualMachine::stepped(
                    after_frame,
                    effect,
                    r,
                ),
                None => self.performs_on_machine(frame, instruction, after, after_frame, r),
            },
        }
    }

    /// What an instruction that needs the heap or the classes does to
    /// the machine and to the frame that executes it. Each kind of
    /// instruction does what the function named for it says;
    /// `invokedynamic` is refused with `NotImplemented`.
    pub open spec fn performs_on_machine(
        &self,
        frame: StackFrame,
        instruction: Instruction,
        after: &VirtualMachine,
        after_frame: StackFrame,
        r: VmExecResult<Step>,
    ) -> bool {
        if array_load_of(instruction) is Some {
            self.unchanged(after) && VirtualMachine::stepped(
                after_frame,
                self.array_load_effect(frame.state(), array_load_of(instruction)->0),
                r,
            )
        } else if array_store_of(instruction) is Some {
            exists|done: VmExecResult<InstructionResult>|
                VirtualMachine::step_stands_for(r, done) && #[trigger] self.array_stored(
                    frame,
                    array_store_of(instruction)->0,
                    after,
                    after_frame,
                    done,
                )
        } else {
            match instruction {
                Instruction::Arraylength => self.unchanged(after) && VirtualMachine::stepped(
                    after_frame,
                    self.array_length_effect(frame.state()),
                    r,
                ),
                Instruction::Newarray(a_type) => self.new_array_done(
                    frame,
                    a_type,
                    after,
                    after_frame,
                    r,
                ),
                Instruction::Anewarray(index) => self.anewarray_done(
                    frame,
                    index,
                    after,
                    after_frame,
                    r,
                ),
                Instruction::Multianewarray(index, dimensions) => self.multianewarray_done(
                    frame,
                    index,
                    dimensions,
                    after,
                    after_frame,
                    r,
                ),
                Instruction::New(index) => self.new_object_done(
                    frame,
                    index,
                    after,
                    after_frame,
                    r,
                ),
                Instruction::Getfield(index) => self.get_field_done(
                    frame,
                    index,
                    after,
                    after_frame,
                    r,
                ),
                Instruction::Putfield(index) => self.put_field_done(
                    frame,
                    index,
                    after,
                    after_frame,
                    r,
                ),
                Instruction::Getstatic(index) => self.get_static_done(
                    frame,
                    index,
                    after,
                    after_frame,
                    r,
                ),
                Instruction::Putstatic(index) => self.put_static_done(
                    frame,
                    index,
                    after,
                    after_frame,
                    r,
                ),
                Instruction::Invokevirtual(index) => self.invoke_virtual_done(
                    frame,
                    index,
                    false,
                    after,
                    after_frame,
                    r,
                ),
                Instruction::Invokeinterface(index, _) => self.invoke_virtual_done(
                    frame,
                    index,
                    true,
                    after,
                    after_frame,
                    r,
                ),
                Instruction::Invokespecial(index) => self.invoke_special_done(
                    frame,
                    index,
                    after,
                    after_frame,
                    r,
                ),
                Instruction::Invokestatic(index) => self.invoke_static_done(
                    frame,
                    index,
                    after,
                    after_frame,
                    r,
                ),
                Instruction::Checkcast(index) => self.checkcast_done(
                    frame,
                    index,
                    after,
                    after_frame,
                    r,
                ),
                Instruction::Instanceof(index) => self.instanceof_done(
                    frame,
                    index,
                    after,
                    after_frame,
                    r,
                ),
                Instruction::Athrow => self.unchanged(after) && self.athrow_done(
                    frame,
                    after_frame,
                    r,
                ),
                Instruction::Ldc(index) => self.ldc_done(
                    frame,
                    index as u16,
                    after,
                    after_frame,
                    r,
                ),
                Instruction::Ldc_w(index) => self.ldc_done(frame, index, after, after_frame, r),
                Instruction::Ldc2_w(index) => self.unchanged(after) && self.ldc2_done(
                    frame,
                    index,
                    after_frame,
                    r,
                ),
                _ => fails(r, VmError::NotImplemented) && self.unchanged(after) && after_frame
                    == frame,
            }
        }
    }

    /// What a frame does when it is let go on: a frame that waits for
    /// the host or for the class of an exception says so again, and
    /// nothing changes. Any other frame fetches its next instruction
    /// and executes it, as `performs` says. Where there is no
    /// instruction to fetch the result is `ClassFormatError`.
    pub open spec fn advanced(
        &self,
        frame: StackFrame,
        after: &VirtualMachine,
        after_frame: StackFrame,
        r: VmExecResult<Step>,
    ) -> bool {
        match frame.pending {
            Pending::Float(request) => (r matches Ok(Step::NeedFloat(q)) && q == request)
                && after_frame == frame && self.unchanged(after),
            Pending::Throw(exception) => (r matches Ok(Step::Raise(e)) && e == exception)
                && after_frame == frame && self.unchanged(after),
            Pending::Host(id) => (r matches Ok(Step::AwaitHost(i)) && i == id) && after_frame
                == frame && self.unchanged(after),
            Pending::Nothing => match self.next_instruction(frame) {
                None => fails(r, VmError::ClassFormatError) && after_frame == frame
                    && self.unchanged(after),
                Some((instruction, next)) => {
                    let fetched = StackFrame {
                        pc: frame.next_pc,
                        next_pc: next as usize,
                        ..frame
                    };
                    self.performs(fetched, instruction, after, after_frame, r)
                },
            },
        }
    }

    /// Lets a frame execute its next instruction. A frame that waits for
    /// the host or for the class of an exception says so again.
    pub fn advance(&mut self, frame: &mut StackFrame) -> (r: VmExecResult<Step>)
        requires
            old(self).wf(),
            old(frame).wf(),
        ensures
            old(self).advances(final(self)),
            final(frame).wf(),
            final(frame).class_ref == old(frame).class_ref,
            final(frame).method_ref == old(frame).method_ref,
            final(frame).initializes == old(frame).initializes,
            final(frame).host == old(frame).host,
            final(frame).pending == old(frame).pending,
            final(frame).op_stack.capacity() == old(frame).op_stack.capacity(),
            final(frame).local_var_table@.len() == old(frame).local_var_table@.len(),
            r matches Ok(Step::Enter(entered)) ==> final(self).frame_fits(entered),
            old(self).advanced(*old(frame), final(self), *final(frame), r),
            old(self).local_effect(*old(frame)) matches Some(effect) ==> (old(self).unchanged(
                final(self),
            ) && (match effect {
                Ok((result, state)) => r matches Ok(step) && step == step_for(result) && final(frame).state() == state,
                Err(e) => r matches Err(f) && f == e,
            })),
    {
        match frame.pending {
            Pending::Float(request) => {
                return Ok(Step::NeedFloat(request));
            },
            Pending::Throw(exception) => {
                return Ok(Step::Raise(exception));
            },
            Pending::Host(id) => {
                return Ok(Step::AwaitHost(id));
            },
            Pending::Nothing => {},
        }
        let method = match self.method_of_frame(frame) {
            Ok(method) => method,
            Err(_) => {
                return Err(VmError::ClassFormatError);
            },
        };
        let code = match &method.code {
            Some(code) => code,
            None => {
                return Err(VmError::ClassFormatError);
            },
        };
        if frame.next_pc > code.code.len() {
            return Err(VmError::ClassFormatError);
        }
        let mut buffer = ByteBuffer::new(code.code.as_slice());
        buffer.jump_to(frame.next_pc);
        let instruction = match read_one_instruction(&mut buffer) {
            Ok(instruction) => instruction,
            Err(_) => {
                return Err(VmError::ClassFormatError);
            },
        };
        frame.pc = frame.next_pc;
        frame.next_pc = buffer.position();
        self.execute_instruction(frame, instruction)
    }

    /// Executes an instruction for a frame that has fetched it.
    pub fn execute_instruction(&mut self, frame: &mut StackFrame, instruction: Instruction) -> (r:
        VmExecResult<Step>)
        requires
            old(self).wf(),
            old(frame).wf(),
        ensures
            old(self).advances(final(self)),
            final(frame).wf(),
            old(frame).same_invocation(final(frame)),
            r matches Ok(Step::Enter(entered)) ==> final(self).frame_fits(entered),
            old(self).performs(*old(frame), instruction, final(self), *final(frame), r),
    {
        let local = match self.method_of_frame(frame) {
            Err(_) => {
                return Err(VmError::ClassFormatError);
            },
            Ok(method) => match &method.code {
                None => {
                    return Err(VmError::ClassFormatError);
                },
                Some(code) => frame.execute_local(&code.code, instruction),
            },
        };
        if let Some(result) = local {
            return match result {
                Ok(result) => Ok(step_of(result)),
                Err(e) => Err(e),
            };
        }
        if let Some(shape) = array_load_for(instruction) {
            return match self.exec_array_load(frame, shape) {
                Ok(result) => Ok(step_of(result)),
                Err(e) => Err(e),
            };
        }
        if let Some(shape) = array_store_for(instruction) {
            let done = self.exec_array_store(frame, shape);
            let ghost stored = done;
            let r = match done {
                Ok(result) => Ok(step_of(result)),
                Err(e) => Err(e),
            };
            assert(VirtualMachine::step_stands_for(r, stored));
            return r;
        }
        match instruction {
            Instruction::Arraylength => match self.exec_arraylength(frame) {
                Ok(result) => Ok(step_of(result)),
                Err(e) => Err(e),
            },
            Instruction::Newarray(a_type) => self.exec_new_array(frame, a_type),
            Instruction::Anewarray(index) => self.exec_anewarray(frame, index),
            Instruction::Multianewarray(index, dimensions) => self.exec_multianewarray(
                frame,
                index,
                dimensions,
            ),
            Instruction::New(index) => self.exec_new_object(frame, index),
            Instruction::Getfield(index) => self.exec_get_field(frame, index),
            Instruction::Putfield(index) => self.exec_put_field(frame, index),
            Instruction::Getstatic(index) => self.exec_get_static(frame, index),
            Instruction::Putstatic(index) => self.exec_put_static(frame, index),
            Instruction::Invokevirtual(index) => self.exec_invoke_virtual(frame, index, false),
            Instruction::Invokeinterface(index, _) => self.exec_invoke_virtual(frame, index, true),
            Instruction::Invokespecial(index) => self.exec_invoke_special(frame, index),
            Instruction::Invokestatic(index) => self.exec_invoke_static(frame, index),
            Instruction::Invokedynamic(_) => Err(VmError::NotImplemented),
            Instruction::Checkcast(index) => self.exec_checkcast(frame, index),
            Instruction::Instanceof(index) => self.exec_instanceof(frame, index),
            Instruction::Athrow => self.exec_athrow(frame),
            Instruction::Ldc(index) => self.exec_ldc(frame, index as u16),
            Instruction::Ldc_w(index) => self.exec_ldc(frame, index),
            Instruction::Ldc2_w(index) => self.exec_ldc2(frame, index),
            _ => Err(VmError::NotImplemented),
        }
    }
}

/// The tag of the primitive type that a letter stands for in
/// descriptors, and 0 for any other character.
pub open spec fn tag_of_letter(c: char) -> u8 {
    if c == 'Z' {
        4
    } else if c == 'C' {
        5
    } else if c == 'F' {
        6
    } else if c == 'D' {
        7
    } else if c == 'B' {
        8
    } else if c == 'S' {
        9
    } else if c == 'I' {
        10
    } else if c == 'J' {
        11
    } else {
        0
    }
}

fn letter_tag(c: char) -> (r: u8)
    ensures
        r == tag_of_letter(c),
{
    if c == 'Z' {
        4
    } else if c == 'C' {
        5
    } else if c == 'F' {
        6
    } else if c == 'D' {
        7
    } else if c == 'B' {
        8
    } else if c == 'S' {
        9
    } else if c == 'I' {
        10
    } else if c == 'J' {
        11
    } else {
        0
    }
}

/// The number of brackets with which `name[from..]` starts.
pub open spec fn brackets(name: Seq<char>, from: int) -> int
    decreases name.len() - from,
{
    if 0 <= from < name.len() && name[from] == '[' {
        1 + brackets(name, from + 1)
    } else {
        0
    }
}

/// The name of the class that the type called `name` rests on: the
/// name itself where it is not the name of an array type, and else the
/// class of the elements at the bottom of the array type, where they
/// have one.
pub open spec fn base_name(name: Seq<char>) -> Option<Seq<char>> {
    let depth = brackets(name, 0);
    if depth == 0 {
        Some(name)
    } else if name.len() - depth >= 3 && name[depth] == 'L' && name.last() == ';' {
        Some(name.subrange(depth + 1, name.len() - 1))
    } else {
        None
    }
}

proof fn lemma_brackets_from(name: Seq<char>, from: int, upto: int)
    requires
        0 <= from <= upto <= name.len(),
        forall|i: int| from <= i < upto ==> name[i] == '[',
        upto < name.len() ==> name[upto] != '[',
    ensures
        brackets(name, from) == upto - from,
    decreases upto - from,
{
    if from < upto {
        lemma_brackets_from(name, from + 1, upto);
    }
}

/// The name of the class that the elements at the bottom of the array
/// type called `name` have, where they have one; the name itself where
/// it is not the name of an array type.
fn base_class_name(name: &str) -> (r: Option<String>)
    ensures
        match base_name(name@) {
            Some(base) => r matches Some(found) && found@ == base,
            None => r is None,
        },
{
    let chars = chars_of(name);
    let mut depth: usize = 0;
    while depth < chars.len() && chars[depth] == '['
        invariant
            depth <= chars.len(),
            chars@ == name@,
            forall|i: int| 0 <= i < depth ==> name@[i] == '[',
        decreases chars.len() - depth,
    {
        depth += 1;
    }
    proof {
        lemma_brackets_from(name@, 0, depth as int);
    }
    if depth == 0 {
        return Some(name.to_owned());
    }
    let end = chars.len();
    if end - depth >= 3 && chars[depth] == 'L' && chars[end - 1] == ';' {
        Some(name.substring_char(depth + 1, end - 1).to_owned())
    } else {
        None
    }
}

/// Whether arrays with elements of type `element` are arrays with
/// elements of type `target`: the same primitive type, a class that
/// is the target class or has it as a super class or a declared
/// interface, or arrays of which the same holds in turn.
pub open spec fn element_matches(classes: Seq<Class>, element: ArrayElement, target: ArrayElement) -> bool
    decreases element,
{
    match (element, target) {
        (ArrayElement::PrimaryValue(a), ArrayElement::PrimaryValue(b)) => a == b,
        (ArrayElement::ClassReference(a), ArrayElement::ClassReference(b)) => b < classes.len()
            && subclass_of(classes, a as int, classes[b as int].name@),
        (ArrayElement::Array(a), ArrayElement::Array(b)) => element_matches(classes, *a, *b),
        _ => false,
    }
}

/// The element type that the descriptor `text[from..]` names, where
/// it names one whose class, if it has one, is among `classes`: a
/// bracket for each dimension, and then the letter of a primitive
/// type, or `L`, the name of a class and a semicolon.
pub open spec fn named_element(classes: Seq<Class>, text: Seq<char>, from: int) -> Option<
    ArrayElement,
>
    decreases text.len() - from,
{
    if from < 0 || from >= text.len() {
        None
    } else if text[from] == '[' {
        match named_element(classes, text, from + 1) {
            Some(inner) => Some(ArrayElement::Array(Box::new(inner))),
            None => None,
        }
    } else if text[from] == 'L' {
        if text.len() - from < 3 || text.last() != ';' {
            None
        } else {
            match class_position(classes, text.subrange(from + 1, text.len() - 1), 0) {
                Some(c) => Some(ArrayElement::ClassReference(c as usize)),
                None => None,
            }
        }
    } else if text.len() - from == 1 {
        match crate::jvm_values::primary_of_tag(tag_of_letter(text[from]) as int) {
            Some(t) => Some(ArrayElement::PrimaryValue(t)),
            None => None,
        }
    } else {
        None
    }
}

/// The element types of the arrays of a `multianewarray` for the array
/// type called `name`, for each of `dimensions` dimensions: the arrays
/// of dimension `k` have the element type that the name gives behind
/// `k + 1` brackets.
pub open spec fn nested_types(classes: Seq<Class>, name: Seq<char>, dimensions: nat) -> Seq<
    ArrayElement,
> {
    Seq::new(dimensions, |k: int| named_element(classes, name, k + 1)->0)
}

/// The lengths of the arrays of a `multianewarray`, as numbers.
pub open spec fn nested_counts(lengths: Seq<Value>) -> Seq<usize> {
    Seq::new(lengths.len(), |k: int| lengths[k]->Int_0 as usize)
}

/// What is wrong with the lengths of a `multianewarray` for the array
/// type called `name`, from the length at position `from` on, if
/// anything is: the first length that is no integer, or for whose
/// dimension the name gives no element type, is refused with
/// `ValueTypeMissMatch`, and the first negative length raises
/// `NegativeArraySizeException`.
pub open spec fn lengths_fault(classes: Seq<Class>, name: Seq<char>, lengths: Seq<Value>, from: int) -> Option<
    Result<JavaException, VmError>,
>
    decreases lengths.len() - from,
{
    if from < 0 || from >= lengths.len() {
        None
    } else {
        match lengths[from] {
            Value::Int(count) => if count < 0 {
                Some(Ok(JavaException::NegativeArraySizeException))
            } else if named_element(classes, name, from + 1) is None {
                Some(Err(VmError::ValueTypeMissMatch))
            } else {
                lengths_fault(classes, name, lengths, from + 1)
            },
            _ => Some(Err(VmError::ValueTypeMissMatch)),
        }
    }
}

/// What a native method leaves to do.
pub enum NativeOutcome {
    /// The method has returned, with this value where it has one.
    Value(Option<Value>),
    /// The method goes on in this frame.
    Enter(StackFrame),
    /// The host runs the method, which it has registered under this
    /// number.
    Host(u32),
}

/// What `String::from_utf16_lossy` makes of UTF-16 code units: the text
/// they encode, with U+FFFD in place of every unit that is not part of
/// a well-formed pair.
pub uninterp spec fn utf16_lossy_text(units: Seq<u16>) -> Seq<char>;

/// Calls `String::from_utf16_lossy`, which decodes UTF-16 and never
/// fails.
#[verifier::external_body]
fn decode_utf16_lossy(units: &Vec<u16>) -> (r: String)
    ensures
        r@ == utf16_lossy_text(units@),
{
    String::from_utf16_lossy(units)
}

/// The shape of the elements that an array load pushes.
pub open spec fn array_load_of(instruction: Instruction) -> Option<Shape> {
    match instruction {
        Instruction::Iaload | Instruction::Baload | Instruction::Caload | Instruction::Saload => {
            Some(Shape::Int)
        },
        Instruction::Laload => Some(Shape::Long),
        Instruction::Faload => Some(Shape::Float),
        Instruction::Daload => Some(Shape::Double),
        Instruction::Aaload => Some(Shape::Reference),
        _ => None,
    }
}

pub fn array_load_for(instruction: Instruction) -> (r: Option<Shape>)
    ensures
        r == array_load_of(instruction),
{
    match instruction {
        Instruction::Iaload | Instruction::Baload | Instruction::Caload | Instruction::Saload => {
            Some(Shape::Int)
        },
        Instruction::Laload => Some(Shape::Long),
        Instruction::Faload => Some(Shape::Float),
        Instruction::Daload => Some(Shape::Double),
        Instruction::Aaload => Some(Shape::Reference),
        _ => None,
    }
}

/// The shape of the values that an array store takes.
pub open spec fn array_store_of(instruction: Instruction) -> Option<Shape> {
    match instruction {
        Instruction::Iastore | Instruction::Bastore | Instruction::Castore
        | Instruction::Sastore => Some(Shape::Int),
        Instruction::Lastore => Some(Shape::Long),
        Instruction::Fastore => Some(Shape::Float),
        Instruction::Dastore => Some(Shape::Double),
        Instruction::Aastore => Some(Shape::Reference),
        _ => None,
    }
}

pub fn array_store_for(instruction: Instruction) -> (r: Option<Shape>)
    ensures
        r == array_store_of(instruction),
{
    match instruction {
        Instruction::Iastore | Instruction::Bastore | Instruction::Castore
        | Instruction::Sastore => Some(Shape::Int),
        Instruction::Lastore => Some(Shape::Long),
        Instruction::Fastore => Some(Shape::Float),
        Instruction::Dastore => Some(Shape::Double),
        Instruction::Aastore => Some(Shape::Reference),
        _ => None,
    }
}

impl VirtualMachine {
    /// The class of the frame.
    fn class_of_frame(&self, frame: &StackFrame) -> (r: VmExecResult<&Class>)
        ensures
            frame.class_ref < self.method_area@.len() ==> r is Ok && *r->Ok_0
                == self.method_area@[frame.class_ref as int],
            frame.class_ref >= self.method_area@.len() ==> r is Err && r->Err_0
                == VmError::ClassFormatError,
    {
        match self.method_area.get(frame.class_ref) {
            Some(class) => Ok(class),
            None => Err(VmError::ClassFormatError),
        }
    }

    /// Prepares the class called `name` for an instruction of `frame`.
    /// Where the class has to be initialized first, the frame is set
    /// back to the instruction, which is executed again later, and the
    /// frame of the initializer is returned as `Err`.
    fn prepare(&mut self, frame: &mut StackFrame, name: &str) -> (r: VmExecResult<
        Result<ClassRef, StackFrame>,
    >)
        requires
            old(self).wf(),
            old(frame).wf(),
        ensures
            old(self).advances(final(self)),
            final(frame).wf(),
            old(frame).same_invocation(final(frame)),
            final(frame).state().stack == old(frame).state().stack,
            final(frame).state().locals == old(frame).state().locals,
            r matches Ok(Ok(c)) ==> (final(self).usable(c) && final(self).method_area@[c as int].name@ == canonical_name(name@) && *final(frame) == *old(frame)),
            r matches Ok(Err(entered)) ==> (final(self).frame_fits(entered) && final(frame).next_pc == final(frame).pc
                && waits_for_class(*old(frame), *final(frame), entered)),
            r is Err ==> *final(frame) == *old(frame),
            old(self).ready(name@) matches Some(c) ==> (r matches Ok(Ok(d)) && d == c) && old(self).unchanged(
                final(self),
            ) && *final(self) == *old(self),
            r matches Ok(Ok(c)) ==> final(self).ready(name@) == Some(c),
            r matches Ok(Err(entered)) ==> final(self).ready(name@) == Some(entered.class_ref)
                && entered.initializes == Some(entered.class_ref),
            class_position(old(self).method_area@, canonical_name(name@), 0) matches Some(c) ==> (
            old(self).method_area@[c].status == ClassStatus::Linked
                ==> old(self).initialization_begun(
                c as usize,
                false,
                final(self),
                match r {
                    Ok(Ok(class)) => Ok(Prepared::Ready(class)),
                    Ok(Err(entered)) => Ok(Prepared::Started(entered)),
                    Err(e) => Err(e),
                },
            )),
    {
        match self.ensure_initialized(name, false) {
            Err(e) => Err(e),
            Ok(Prepared::Ready(class)) => Ok(Ok(class)),
            Ok(Prepared::Started(entered)) => {
                frame.next_pc = frame.pc;
                Ok(Err(entered))
            },
        }
    }

    /// The UTF-16 code units that the elements of an array of `length`
    /// elements hold from position `from` on, behind the units `units`:
    /// the low 16 bits of each element. `None` where an element is no
    /// integer.
    pub open spec fn units_from(
        &self,
        array: ArrayReference,
        from: int,
        length: int,
        units: Seq<u16>,
    ) -> Option<Seq<u16>>
        decreases length - from,
    {
        if from >= length {
            Some(units)
        } else {
            match self.element_at(array, from) {
                Ok(Value::Int(unit)) => self.units_from(
                    array,
                    from + 1,
                    length,
                    units.push(unit as u16),
                ),
                _ => None,
            }
        }
    }

    /// The UTF-16 code units of a string object: those that the array
    /// in the field `value` of an object of the class
    /// `java/lang/String` holds. `None` for every other value.
    pub open spec fn string_units(&self, value: Value) -> Option<Seq<u16>> {
        match value {
            Value::ObjectRef(object) => match self.heap_of(object.address).class_word(object) {
                Some(c) => if c < self.method_area@.len() && self.method_area@[c as int].name@
                    == "java/lang/String"@ {
                    match self.field_value(object, "value"@) {
                        Some(Value::ArrayRef(array)) => match self.heap_of(
                            array.address,
                        ).array_shape(array) {
                            Some((_, length)) => self.units_from(
                                array,
                                0,
                                length as int,
                                Seq::empty(),
                            ),
                            None => None,
                        },
                        _ => None,
                    }
                } else {
                    None
                },
                None => None,
            },
            _ => None,
        }
    }

    /// The text of a string object: the UTF-16 code units of its `value`
    /// array, decoded. Every value that is no string object with such
    /// units is refused.
    pub fn get_string(&self, value: &Value) -> (r: VmExecResult<String>)
        requires
            self.wf(),
        ensures
            match self.string_units(*value) {
                Some(units) => r matches Ok(text) && text@ == utf16_lossy_text(units),
                None => r is Err,
            },
    {
        let object = value.get_object()?;
        let class = self.get_class_of(&object)?;
        match self.method_area.get(class) {
            Some(class) => {
                if !str_eq(class.name.as_str(), "java/lang/String") {
                    return Err(VmError::ValueTypeMissMatch);
                }
            },
            None => {
                return Err(VmError::ClassFormatError);
            },
        }
        let read = self.get_field_by_name(&object, "value");
        proof {
            self.lemma_field_read(object, "value"@, read);
        }
        let array = read?.get_array()?;
        let header = self.get_array_header(&array)?;
        let mut units: Vec<u16> = Vec::new();
        let mut i: usize = 0;
        while i < header.array_size
            invariant
                self.wf(),
                i <= header.array_size,
                self.string_units(*value) == self.units_from(
                    array,
                    0,
                    header.array_size as int,
                    Seq::empty(),
                ),
                self.units_from(array, 0, header.array_size as int, Seq::empty())
                    == self.units_from(array, i as int, header.array_size as int, units@),
            decreases header.array_size - i,
        {
            let unit = self.array_get(&array, i)?.get_int()?;
            units.push(#[verifier::truncate] (unit as u16));
            i += 1;
        }
        Ok(decode_utf16_lossy(&units))
    }

    /// Whether `r` and the machine `after` are what copying one element
    /// comes to: the element at position `source` of the array `from`
    /// is read, as `element_at` says, and written to position `target`
    /// of the array `to`, as `element_written` says. An element that
    /// cannot be read leaves everything as it is.
    pub open spec fn element_copied(
        &self,
        from: ArrayReference,
        source: int,
        to: ArrayReference,
        target: int,
        after: &VirtualMachine,
        r: VmExecResult<()>,
    ) -> bool {
        match self.element_at(from, source) {
            Err(e) => r == Err::<(), _>(e) && *after == *self,
            Ok(value) => self.element_written(to, target, value, after, r),
        }
    }

    /// Whether `r` and the machine `after` are what copying goes on to
    /// once all but the last of `count` elements are dealt with, which
    /// left the machine `middle` and the result `earlier`: an error
    /// ends the copying and is the result; else the last element is
    /// copied, as `element_copied` says.
    pub open spec fn copy_ended(
        middle: VirtualMachine,
        earlier: VmExecResult<()>,
        from: ArrayReference,
        from_start: int,
        to: ArrayReference,
        to_start: int,
        count: nat,
        after: &VirtualMachine,
        r: VmExecResult<()>,
    ) -> bool {
        match earlier {
            Err(e) => r == Err::<(), _>(e) && *after == middle,
            Ok(_) => middle.element_copied(
                from,
                from_start + count - 1,
                to,
                to_start + count - 1,
                after,
                r,
            ),
        }
    }

    /// Whether `r` and the machine `after` are what copying the first
    /// `count` of the elements that follow position `from_start` of the
    /// array `from` to the positions that follow `to_start` of the
    /// array `to` comes to. The elements are copied one after the
    /// other, the one at the lowest position first, each as
    /// `element_copied` says; the first error ends the copying and is
    /// the result.
    pub open spec fn copied(
        &self,
        from: ArrayReference,
        from_start: int,
        to: ArrayReference,
        to_start: int,
        count: nat,
        after: &VirtualMachine,
        r: VmExecResult<()>,
    ) -> bool
        decreases count,
    {
        if count == 0 {
            r is Ok && *after == *self
        } else {
            exists|middle: VirtualMachine, earlier: VmExecResult<()>|
                #![trigger VirtualMachine::copy_ended(middle, earlier, from, from_start, to, to_start, count, after, r)]
                self.copied(
                    from,
                    from_start,
                    to,
                    to_start,
                    (count - 1) as nat,
                    &middle,
                    earlier,
                ) && VirtualMachine::copy_ended(
                    middle,
                    earlier,
                    from,
                    from_start,
                    to,
                    to_start,
                    count,
                    after,
                    r,
                )
        }
    }

    /// Copying that has failed stays failed however many elements were
    /// to be copied.
    pub proof fn lemma_copy_failed(
        &self,
        from: ArrayReference,
        from_start: int,
        to: ArrayReference,
        to_start: int,
        count: nat,
        more: nat,
        after: &VirtualMachine,
        e: VmError,
    )
        requires
            self.copied(from, from_start, to, to_start, count, after, Err(e)),
            count <= more,
        ensures
            self.copied(from, from_start, to, to_start, more, after, Err(e)),
        decreases more - count,
    {
        if count < more {
            let next = (count + 1) as nat;
            assert(VirtualMachine::copy_ended(
                *after,
                Err(e),
                from,
                from_start,
                to,
                to_start,
                next,
                after,
                Err(e),
            ));
            assert(self.copied(from, from_start, to, to_start, next, after, Err(e)));
            self.lemma_copy_failed(from, from_start, to, to_start, next, more, after, e);
        }
    }

    /// Copies `length` elements of one array, from position
    /// `from_start` on, to another array, from position `to_start` on,
    /// as `copied` says. A negative position and a negative length are
    /// refused with `IndexOutOfBounds`, and nothing changes.
    fn array_copy(
        &mut self,
        from: &ArrayReference,
        from_start: i32,
        to: &ArrayReference,
        to_start: i32,
        length: i32,
    ) -> (r: VmExecResult<()>)
        requires
            old(self).wf(),
        ensures
            old(self).advances(final(self)),
            final(self).method_area == old(self).method_area,
            old(self).same_interned(final(self)),
            if from_start < 0 || to_start < 0 || length < 0 {
                fails(r, VmError::IndexOutOfBounds) && *final(self) == *old(self)
            } else {
                old(self).copied(
                    *from,
                    from_start as int,
                    *to,
                    to_start as int,
                    length as nat,
                    final(self),
                    r,
                )
            },
    {
        if from_start < 0 || to_start < 0 || length < 0 {
            return Err(VmError::IndexOutOfBounds);
        }
        let mut copied: VmExecResult<()> = Ok(());
        let mut offset: i32 = 0;
        while offset < length
            invariant
                0 <= offset <= length,
                0 <= from_start,
                0 <= to_start,
                self.wf(),
                old(self).advances(self),
                self.method_area == old(self).method_area,
                old(self).same_interned(self),
                copied is Ok,
                old(self).copied(
                    *from,
                    from_start as int,
                    *to,
                    to_start as int,
                    offset as nat,
                    self,
                    copied,
                ),
            decreases length - offset,
        {
            let source: i64 = offset as i64 + from_start as i64;
            let target: i64 = offset as i64 + to_start as i64;
            let ghost before = *self;
            let ghost earlier = copied;
            let ghost next = (offset + 1) as nat;
            let value = match self.array_get(from, source as usize) {
                Ok(value) => value,
                Err(e) => {
                    proof {
                        assert(VirtualMachine::copy_ended(
                            before,
                            earlier,
                            *from,
                            from_start as int,
                            *to,
                            to_start as int,
                            next,
                            self,
                            Err(e),
                        ));
                        assert(old(self).copied(
                            *from,
                            from_start as int,
                            *to,
                            to_start as int,
                            next,
                            self,
                            Err(e),
                        ));
                        old(self).lemma_copy_failed(
                            *from,
                            from_start as int,
                            *to,
                            to_start as int,
                            next,
                            length as nat,
                            self,
                            e,
                        );
                    }
                    return Err(e);
                },
            };
            let done = self.array_set(to, target as usize, &value);
            proof {
                old(self).lemma_advances_transitive(&before, self);
                assert(VirtualMachine::copy_ended(
                    before,
                    earlier,
                    *from,
                    from_start as int,
                    *to,
                    to_start as int,
                    next,
                    self,
                    done,
                ));
                assert(old(self).copied(
                    *from,
                    from_start as int,
                    *to,
                    to_start as int,
                    next,
                    self,
                    done,
                ));
            }
            match done {
                Err(e) => {
                    proof {
                        old(self).lemma_copy_failed(
                            *from,
                            from_start as int,
                            *to,
                            to_start as int,
                            next,
                            length as nat,
                            self,
                            e,
                        );
                    }
                    return Err(e);
                },
                Ok(_) => {
                    copied = done;
                },
            }
            offset += 1;
        }
        copied
    }

    /// What copying between arrays for the native method `ArrayCopy`
    /// comes to. The arguments are the array to copy from, the position
    /// to start at, the array to copy to, the position to start at, and
    /// the number of elements; anything else is refused with
    /// `ValueTypeMissMatch`, and a negative number among them with
    /// `IndexOutOfBounds`. The elements are copied as `copied` says,
    /// and nothing is returned.
    pub open spec fn arrays_copied(
        &self,
        args: Seq<Value>,
        after: &VirtualMachine,
        r: VmExecResult<NativeOutcome>,
    ) -> bool {
        if args.len() != 5 {
            fails(r, VmError::ValueTypeMissMatch) && *after == *self
        } else {
            match (args[0], args[1], args[2], args[3], args[4]) {
                (
                    Value::ArrayRef(from),
                    Value::Int(from_start),
                    Value::ArrayRef(to),
                    Value::Int(to_start),
                    Value::Int(length),
                ) => if from_start < 0 || to_start < 0 || length < 0 {
                    fails(r, VmError::IndexOutOfBounds) && *after == *self
                } else {
                    exists|done: VmExecResult<()>| #[trigger]
                        self.copied(
                            from,
                            from_start as int,
                            to,
                            to_start as int,
                            length as nat,
                            after,
                            done,
                        ) && (match done {
                            Ok(_) => r matches Ok(NativeOutcome::Value(None)),
                            Err(e) => fails(r, e),
                        })
                },
                _ => fails(r, VmError::ValueTypeMissMatch) && *after == *self,
            }
        }
    }

    /// What the native method `GetPrimitiveClass` comes to: its first
    /// argument is a string object with the name of a primitive type,
    /// and its result is the mirror of the class that stands for the
    /// type, made as `mirrors` says. No argument is refused with
    /// `ValueTypeMissMatch`, and an argument that is no string object
    /// with an error; then nothing changes.
    pub open spec fn primitive_class_got(
        &self,
        args: Seq<Value>,
        after: &VirtualMachine,
        r: VmExecResult<NativeOutcome>,
    ) -> bool {
        if args.len() < 1 {
            fails(r, VmError::ValueTypeMissMatch) && *after == *self
        } else {
            match self.string_units(args[0]) {
                None => r is Err && *after == *self,
                Some(units) => exists|made: VmExecResult<ObjectReference>| #[trigger]
                    mirrors(
                        *self,
                        wrapper_class_name(utf16_lossy_text(units)),
                        *after,
                        made,
                    ) && (match made {
                        Ok(mirror) => r matches Ok(NativeOutcome::Value(Some(Value::ObjectRef(m))))
                            && m == mirror,
                        Err(e) => fails(r, e),
                    }),
            }
        }
    }

    /// What the native method `SystemRegisterNative` comes to where the
    /// class `java/lang/System` is linked: the frame of the method that
    /// sets the class up is returned, which is `initializeSystemClass`
    /// for a class file of version `Jdk8` and `initPhase1` for one of
    /// version `Jdk17`; any other version is refused with
    /// `ClassVersionNotSupport`. Nothing changes.
    pub open spec fn system_entered(
        &self,
        after: &VirtualMachine,
        r: VmExecResult<NativeOutcome>,
    ) -> bool {
        class_position(self.method_area@, "java/lang/System"@, 0) matches Some(c) ==> (
        self.method_area@[c].status.is_linked() ==> *after == *self && (
        match self.method_area@[c].version {
            ClassFileVersion::Jdk8 => self.set_up_entered(
                c as usize,
                "initializeSystemClass"@,
                r,
            ),
            ClassFileVersion::Jdk17 => self.set_up_entered(c as usize, "initPhase1"@, r),
            _ => fails(r, VmError::ClassVersionNotSupport),
        }))
    }

    /// Whether `r` is the frame with which the method called `name`
    /// that takes and returns nothing starts in the class under
    /// `class`. A class without the method gives
    /// `MethodNotFoundException`, and a method without code
    /// `NotImplemented`.
    pub open spec fn set_up_entered(
        &self,
        class: ClassRef,
        name: Seq<char>,
        r: VmExecResult<NativeOutcome>,
    ) -> bool {
        let methods = self.method_area@[class as int].methods@;
        match method_position(views(methods), name, "()V"@, 0) {
            None => (r matches Err(VmError::MethodNotFoundException(n, d)) && n@ == name && d@
                == "()V"@),
            Some(m) => match r {
                Ok(NativeOutcome::Enter(frame)) => is_entry_frame(
                    frame,
                    class,
                    m as usize,
                    methods[m],
                    None,
                    Seq::empty(),
                ) && frame.initializes is None && !frame.host,
                Ok(_) => false,
                Err(e) => e == VmError::NotImplemented && (has_flag(
                    methods[m]@.access_flags,
                    ACC_NATIVE,
                ) || methods[m].code is None),
            },
        }
    }

    /// What the native methods come to. `Nop` returns nothing,
    /// `DesiredAssertionStatus0` returns 1, `HashCode` returns the low
    /// 32 bits of the address of the receiver, or -1 where it is no
    /// reference, and `ArrayBaseOffset` is refused with
    /// `NotImplemented`; these leave the machine as it is. `ArrayCopy`
    /// copies as `arrays_copied` says, `GetPrimitiveClass` returns a
    /// mirror as `primitive_class_got` says, and
    /// `SystemRegisterNative` enters a method as `system_entered` says.
    /// A method of the host is handed to the host, and nothing changes.
    pub open spec fn native_ran(
        &self,
        native: NativeMethod,
        receiver: Option<Value>,
        args: Seq<Value>,
        after: &VirtualMachine,
        r: VmExecResult<NativeOutcome>,
    ) -> bool {
        match native {
            NativeMethod::ArrayCopy => self.arrays_copied(args, after, r),
            NativeMethod::GetPrimitiveClass => self.primitive_class_got(args, after, r),
            NativeMethod::SystemRegisterNative => self.system_entered(after, r),
            NativeMethod::Host(id) => (r matches Ok(NativeOutcome::Host(i)) && i == id) && *after
                == *self,
            NativeMethod::Nop => r matches Ok(NativeOutcome::Value(None)) && self.unchanged(after),
            NativeMethod::DesiredAssertionStatus0 => r matches Ok(
                NativeOutcome::Value(Some(Value::Int(1))),
            ) && self.unchanged(after),
            NativeMethod::ArrayBaseOffset => fails(r, VmError::NotImplemented) && self.unchanged(
                after,
            ),
            NativeMethod::HashCode => (r matches Ok(NativeOutcome::Value(Some(Value::Int(code))))
                && code == (match receiver {
                Some(Value::ObjectRef(object)) => object.address as i32,
                Some(Value::ArrayRef(array)) => array.address as i32,
                _ => -1i32,
            })) && self.unchanged(after),
        }
    }

    /// Runs a native method.
    pub fn run_native(
        &mut self,
        native: NativeMethod,
        receiver: Option<Value>,
        args: &Vec<Value>,
    ) -> (r: VmExecResult<NativeOutcome>)
        requires
            old(self).wf(),
        ensures
            old(self).advances(final(self)),
            r matches Ok(NativeOutcome::Enter(entered)) ==> final(self).frame_fits(entered)
                && entered.initializes is None && !entered.host,
            old(self).native_ran(native, receiver, args@, final(self), r),
    {
        match native {
            NativeMethod::Host(id) => Ok(NativeOutcome::Host(id)),
            NativeMethod::Nop => Ok(NativeOutcome::Value(None)),
            NativeMethod::ArrayBaseOffset => Err(VmError::NotImplemented),
            NativeMethod::HashCode => {
                let code = match receiver {
                    Some(Value::ObjectRef(object)) => object.hash_code(),
                    Some(Value::ArrayRef(array)) => array.hash_code(),
                    _ => -1,
                };
                Ok(NativeOutcome::Value(Some(Value::Int(code))))
            },
            NativeMethod::DesiredAssertionStatus0 => Ok(
                NativeOutcome::Value(Some(Value::Int(1))),
            ),
            NativeMethod::ArrayCopy => {
                if args.len() != 5 {
                    return Err(VmError::ValueTypeMissMatch);
                }
                let from = args[0].get_array()?;
                let from_start = args[1].get_int()?;
                let to = args[2].get_array()?;
                let to_start = args[3].get_int()?;
                let length = args[4].get_int()?;
                let done = self.array_copy(&from, from_start, &to, to_start, length);
                proof {
                    if from_start >= 0 && to_start >= 0 && length >= 0 {
                        assert(old(self).copied(
                            from,
                            from_start as int,
                            to,
                            to_start as int,
                            length as nat,
                            self,
                            done,
                        ));
                    }
                }
                match done {
                    Ok(_) => Ok(NativeOutcome::Value(None)),
                    Err(e) => Err(e),
                }
            },
            NativeMethod::GetPrimitiveClass => {
                if args.len() < 1 {
                    return Err(VmError::ValueTypeMissMatch);
                }
                let class_name = match self.get_string(&args[0]) {
                    Ok(class_name) => class_name,
                    Err(e) => {
                        return Err(e);
                    },
                };
                let wrapped = wrapper_class(class_name.as_str());
                let made = self.new_java_lang_class_object(wrapped);
                proof {
                    assert(mirrors(
                        *old(self),
                        wrapper_class_name(utf16_lossy_text(old(self).string_units(args@[0])->0)),
                        *self,
                        made,
                    ));
                }
                match made {
                    Ok(mirror) => Ok(NativeOutcome::Value(Some(Value::ObjectRef(mirror)))),
                    Err(e) => Err(e),
                }
            },
            NativeMethod::SystemRegisterNative => {
                proof {
                    crate::method_area::lemma_class_position(
                        self.method_area@,
                        "java/lang/System"@,
                        0,
                    );
                }
                let class_ref = self.linked_class("java/lang/System")?;
                let class = self.method_area.class(class_ref);
                let method_ref = match class.version {
                    ClassFileVersion::Jdk8 => match class.get_method(
                        "initializeSystemClass",
                        "()V",
                    ) {
                        Ok(method_ref) => method_ref,
                        Err(e) => {
                            return Err(e);
                        },
                    },
                    ClassFileVersion::Jdk17 => match class.get_method("initPhase1", "()V") {
                        Ok(method_ref) => method_ref,
                        Err(e) => {
                            return Err(e);
                        },
                    },
                    _ => {
                        return Err(VmError::ClassVersionNotSupport);
                    },
                };
                let none: Vec<Value> = Vec::new();
                match CallStack::make_frame(
                    class_ref,
                    method_ref,
                    &class.methods[method_ref],
                    None,
                    &none,
                ) {
                    Ok(frame) => Ok(NativeOutcome::Enter(frame)),
                    Err(e) => Err(e),
                }
            },
        }
    }

    /// Whether `r` and the machine `after` are what starting the
    /// invocation of the method `method_ref` of the class under
    /// `class_ref` comes to. The class must be linked. A native method
    /// runs at once, as `native_ran` says, and one that is not
    /// registered is refused with `NotImplemented`. For any other
    /// method the machine stays as it is and the frame that executes
    /// the method is returned; a method without code is refused with
    /// `NotImplemented`, and a receiver and arguments that need more
    /// local variables than the method has with `IndexOutOfBounds`.
    pub open spec fn method_entered(
        &self,
        class_ref: ClassRef,
        method_ref: MethodRef,
        receiver: Option<Value>,
        args: Seq<Value>,
        after: &VirtualMachine,
        r: VmExecResult<NativeOutcome>,
    ) -> bool {
        if !self.usable(class_ref) {
            r is Err && self.unchanged(after)
        } else if method_ref >= self.method_area@[class_ref as int].methods@.len() {
            fails(r, VmError::ClassFormatError) && self.unchanged(after)
        } else {
            let class = self.method_area@[class_ref as int];
            let method = class.methods@[method_ref as int];
            if has_flag(method@.access_flags, ACC_NATIVE) {
                match self.native_method_area.method_of(
                    class.name@,
                    method.name@,
                    method.descriptor@,
                ) {
                    None => fails(r, VmError::NotImplemented) && self.unchanged(after),
                    Some(native) => self.native_ran(native, receiver, args, after, r),
                }
            } else {
                self.unchanged(after) && (match r {
                    Ok(NativeOutcome::Enter(entered)) => is_entry_frame(
                        entered,
                        class_ref,
                        method_ref,
                        method,
                        receiver,
                        args,
                    ) && entered.initializes is None && !entered.host,
                    Ok(_) => false,
                    Err(e) => if method.code is None {
                        e == VmError::NotImplemented
                    } else {
                        e == VmError::IndexOutOfBounds && laid_locals(
                            receiver_and_arguments(receiver, args),
                            0,
                        ).len() > method.code->0.max_locals
                    },
                })
            }
        }
    }

    /// Starts the invocation of a method of a class that is linked. A
    /// native method runs at once and its result is what is returned;
    /// for another method the frame that executes it is returned.
    pub fn enter_method(
        &mut self,
        class_ref: ClassRef,
        method_ref: MethodRef,
        receiver: Option<Value>,
        args: &Vec<Value>,
    ) -> (r: VmExecResult<NativeOutcome>)
        requires
            old(self).wf(),
        ensures
            old(self).advances(final(self)),
            r matches Ok(NativeOutcome::Enter(entered)) ==> final(self).frame_fits(entered)
                && entered.initializes is None && !entered.host,
            old(self).method_entered(class_ref, method_ref, receiver, args@, final(self), r),
    {
        let class = match self.usable_class(class_ref) {
            Ok(class) => class,
            Err(e) => {
                return Err(e);
            },
        };
        if method_ref >= class.methods.len() {
            return Err(VmError::ClassFormatError);
        }
        let method = &class.methods[method_ref];
        if method.is_native() {
            let native = self.native_method_area.get_method(
                class.name.as_str(),
                method.name.as_str(),
                method.descriptor.as_str(),
            );
            match native {
                Some(native) => self.run_native(native, receiver, args),
                None => Err(VmError::NotImplemented),
            }
        } else {
            match CallStack::make_frame(class_ref, method_ref, method, receiver, args) {
                Ok(frame) => Ok(NativeOutcome::Enter(frame)),
                Err(e) => Err(e),
            }
        }
    }

    /// Whether an instruction that has taken its operands, which left
    /// its frame in the state `state`, has invoked the method
    /// `method_ref` of the class under `class_ref`: the invocation
    /// starts as `method_entered` says; the frame of the method is
    /// entered, or else the value that a native method has returned is
    /// pushed.
    pub open spec fn invoked(
        &self,
        class_ref: ClassRef,
        method_ref: MethodRef,
        receiver: Option<Value>,
        args: Seq<Value>,
        state: FrameState,
        after: &VirtualMachine,
        after_frame: StackFrame,
        r: VmExecResult<Step>,
    ) -> bool {
        match r {
            Ok(Step::Enter(entered)) => after_frame.state() == state && self.method_entered(
                class_ref,
                method_ref,
                receiver,
                args,
                after,
                Ok(NativeOutcome::Enter(entered)),
            ),
            Ok(Step::Continue) => if after_frame.state().stack.len() == state.stack.len() {
                after_frame.state() == state && self.method_entered(
                    class_ref,
                    method_ref,
                    receiver,
                    args,
                    after,
                    Ok(NativeOutcome::Value(None)),
                )
            } else {
                after_frame.state().stack.len() > 0 && state.push(after_frame.state().stack.last())
                    == Ok::<_, VmError>(after_frame.state()) && self.method_entered(
                    class_ref,
                    method_ref,
                    receiver,
                    args,
                    after,
                    Ok(NativeOutcome::Value(Some(after_frame.state().stack.last()))),
                )
            },
            Ok(Step::NeedHost(call)) => after_frame.state() == state && call.receiver == receiver
                && call.args@ == args && self.method_entered(
                class_ref,
                method_ref,
                receiver,
                args,
                after,
                Ok(NativeOutcome::Host(call.id)),
            ),
            Ok(_) => false,
            Err(e) => self.method_entered(class_ref, method_ref, receiver, args, after, Err(e)) || (
            e == VmError::StackOverFlow && state.stack.len() >= state.capacity),
        }
    }

    /// What an invocation leaves the invoking frame to do: the result of
    /// a native method is pushed, and the frame of another method is
    /// entered.
    fn after_invocation(frame: &mut StackFrame, outcome: NativeOutcome) -> (r: VmExecResult<Step>)
        requires
            old(frame).wf(),
        ensures
            final(frame).wf(),
            old(frame).same_invocation(final(frame)),
            r matches Ok(Step::Enter(entered)) ==> outcome == NativeOutcome::Enter(entered),
            outcome matches NativeOutcome::Enter(entered) ==> (r matches Ok(Step::Enter(f)) && f
                == entered && *final(frame) == *old(frame)),
            outcome matches NativeOutcome::Value(None) ==> (r matches Ok(Step::Continue) && *final(frame) == *old(frame)),
            outcome matches NativeOutcome::Value(Some(value)) ==> (match old(frame).state().push(
                value,
            ) {
                Ok(state) => r matches Ok(Step::Continue) && final(frame).state() == state,
                Err(e) => r matches Err(f) && f == e,
            }),
    {
        match outcome {
            NativeOutcome::Enter(entered) => Ok(Step::Enter(entered)),
            NativeOutcome::Value(None) => Ok(Step::Continue),
            NativeOutcome::Value(Some(value)) => {
                frame.push(value)?;
                Ok(Step::Continue)
            },
            NativeOutcome::Host(_) => Err(VmError::NotImplemented),
        }
    }
}

/// The class that stands for a primitive type name in class mirrors;
/// any other name stands for itself.
pub open spec fn wrapper_class_name(name: Seq<char>) -> Seq<char> {
    if name == "long"@ {
        "java/lang/Long"@
    } else if name == "boolean"@ {
        "java/lang/Boolean"@
    } else if name == "int"@ {
        "java/lang/Integer"@
    } else if name == "short"@ {
        "java/lang/Short"@
    } else if name == "byte"@ {
        "java/lang/Byte"@
    } else if name == "double"@ {
        "java/lang/Double"@
    } else if name == "float"@ {
        "java/lang/Float"@
    } else {
        name
    }
}

pub fn wrapper_class(name: &str) -> (r: &str)
    ensures
        r@ == wrapper_class_name(name@),
{
    if str_eq(name, "long") {
        "java/lang/Long"
    } else if str_eq(name, "boolean") {
        "java/lang/Boolean"
    } else if str_eq(name, "int") {
        "java/lang/Integer"
    } else if str_eq(name, "short") {
        "java/lang/Short"
    } else if str_eq(name, "byte") {
        "java/lang/Byte"
    } else if str_eq(name, "double") {
        "java/lang/Double"
    } else if str_eq(name, "float") {
        "java/lang/Float"
    } else {
        name
    }
}

impl VirtualMachine {
    /// What `arraylength` does: the reference on top of the stack is
    /// replaced by the length of the array it refers to. A null
    /// reference raises `NullPointerException`.
    pub open spec fn array_length_effect(&self, s: FrameState) -> Effect {
        match s.pop_shaped(Shape::Reference) {
            Err(e) => Err(e),
            Ok((Value::Null, s1)) => Ok(
                (InstructionResult::Raise(JavaException::NullPointerException), s1),
            ),
            Ok((Value::ArrayRef(array), s1)) => match self.heap_of(array.address).array_shape(
                array,
            ) {
                None => Err(VmError::IndexOutOfBounds),
                Some((_, length)) => crate::stack_frame::goes_on(
                    s1.push(Value::Int(length as i32)),
                ),
            },
            Ok(_) => Err(VmError::ValueTypeMissMatch),
        }
    }

    pub fn exec_arraylength(&self, frame: &mut StackFrame) -> (r: VmExecResult<InstructionResult>)
        requires
            self.wf(),
            old(frame).wf(),
        ensures
            old(frame).follows(final(frame), self.array_length_effect(old(frame).state()), r),
    {
        match frame.pop_reference_or_null()? {
            Value::Null => Ok(InstructionResult::Raise(JavaException::NullPointerException)),
            Value::ArrayRef(array) => {
                let header = self.get_array_header(&array)?;
                frame.push(Value::Int(#[verifier::truncate] (header.array_size as i32)))?;
                Ok(InstructionResult::ContinueMethodExecution)
            },
            _ => Err(VmError::ValueTypeMissMatch),
        }
    }

    /// What an array load does: the index and the array reference on
    /// top of the stack are replaced by the element. A null reference
    /// raises `NullPointerException`, an index outside the array
    /// `ArrayIndexOutOfBoundsException`.
    pub open spec fn array_load_effect(&self, s: FrameState, shape: Shape) -> Effect {
        match s.pop_shaped(Shape::Int) {
            Err(e) => Err(e),
            Ok((index, s1)) => match s1.pop_shaped(Shape::Reference) {
                Err(e) => Err(e),
                Ok((Value::Null, s2)) => Ok(
                    (InstructionResult::Raise(JavaException::NullPointerException), s2),
                ),
                Ok((Value::ArrayRef(array), s2)) => match self.heap_of(
                    array.address,
                ).array_shape(array) {
                    None => Err(VmError::IndexOutOfBounds),
                    Some((element, length)) => if index->Int_0 < 0 || index->Int_0 >= length {
                        Ok(
                            (
                                InstructionResult::Raise(
                                    JavaException::ArrayIndexOutOfBoundsException,
                                ),
                                s2,
                            ),
                        )
                    } else {
                        match self.heap_of(array.address).slot_position(
                            array.address,
                            crate::jvm_values::ReferenceValueType::Array,
                            index->Int_0 as int,
                        ) {
                            None => Err(VmError::IndexOutOfBounds),
                            Some(p) => match crate::object_heap::slot_value(
                                crate::object_heap::element_kind(element),
                                self.heap_of(array.address).words()[p],
                            ) {
                                Err(e) => Err(e),
                                Ok(value) => if crate::stack_frame::has_shape(shape, value) {
                                    crate::stack_frame::goes_on(s2.push(value))
                                } else {
                                    Err(VmError::ValueTypeMissMatch)
                                },
                            },
                        }
                    },
                },
                Ok(_) => Err(VmError::ValueTypeMissMatch),
            },
        }
    }

    pub fn exec_array_load(&self, frame: &mut StackFrame, shape: Shape) -> (r: VmExecResult<
        InstructionResult,
    >)
        requires
            self.wf(),
            old(frame).wf(),
        ensures
            old(frame).follows(final(frame), self.array_load_effect(old(frame).state(), shape), r),
    {
        let index = frame.pop_int()?;
        match frame.pop_reference_or_null()? {
            Value::Null => Ok(InstructionResult::Raise(JavaException::NullPointerException)),
            Value::ArrayRef(array) => {
                let header = self.get_array_header(&array)?;
                if index < 0 || index as u64 >= header.array_size as u64 {
                    return Ok(
                        InstructionResult::Raise(JavaException::ArrayIndexOutOfBoundsException),
                    );
                }
                let value = self.array_get(&array, index as usize)?;
                if !crate::stack_frame::shape_matches(shape, &value) {
                    return Err(VmError::ValueTypeMissMatch);
                }
                frame.push(value)?;
                Ok(InstructionResult::ContinueMethodExecution)
            },
            _ => Err(VmError::ValueTypeMissMatch),
        }
    }

    /// What an array store does: the value, the index and the array
    /// reference are taken from the stack, and the value is written to
    /// the element, as the element type of the array says; no other
    /// word of a heap changes. A null reference raises
    /// `NullPointerException`, an index outside the array
    /// `ArrayIndexOutOfBoundsException`; then nothing but the frame
    /// changes.
    pub open spec fn array_stored(
        &self,
        frame: StackFrame,
        shape: Shape,
        after: &VirtualMachine,
        after_frame: StackFrame,
        r: VmExecResult<InstructionResult>,
    ) -> bool {
        match frame.state().pop_shaped(shape) {
            Err(e) => fails(r, e),
            Ok((value, s1)) => match s1.pop_shaped(Shape::Int) {
                Err(e) => fails(r, e),
                Ok((index, s2)) => match s2.pop_shaped(Shape::Reference) {
                    Err(e) => fails(r, e),
                    Ok((Value::Null, s3)) => r == Ok::<_, VmError>(
                        InstructionResult::Raise(JavaException::NullPointerException),
                    ) && after_frame.state() == s3 && self.unchanged(after),
                    Ok((Value::ArrayRef(array), s3)) => match self.heap_of(
                        array.address,
                    ).array_shape(array) {
                        None => fails(r, VmError::IndexOutOfBounds),
                        Some((element, length)) => if index->Int_0 < 0 || index->Int_0 >= length {
                            r == Ok::<_, VmError>(
                                InstructionResult::Raise(
                                    JavaException::ArrayIndexOutOfBoundsException,
                                ),
                            ) && after_frame.state() == s3 && self.unchanged(after)
                        } else {
                            match self.heap_of(array.address).slot_position(
                                array.address,
                                crate::jvm_values::ReferenceValueType::Array,
                                index->Int_0 as int,
                            ) {
                                None => fails(r, VmError::IndexOutOfBounds),
                                Some(p) => match crate::object_heap::slot_word(
                                    crate::object_heap::element_kind(element),
                                    value,
                                ) {
                                    Err(e) => fails(r, e),
                                    Ok(word) => r == Ok::<_, VmError>(
                                        InstructionResult::ContinueMethodExecution,
                                    ) && after_frame.state() == s3 && after.heap_of(
                                        array.address,
                                    ).words() == self.heap_of(array.address).words().update(
                                        p,
                                        word,
                                    ) && after.other_heap_of(array.address) == self.other_heap_of(
                                        array.address,
                                    ),
                                },
                            }
                        },
                    },
                    Ok(_) => fails(r, VmError::ValueTypeMissMatch),
                },
            },
        }
    }

    /// An array store: the value, the index and the array reference are
    /// taken from the stack, and the value is written to the element. A
    /// null reference raises `NullPointerException`, an index outside
    /// the array `ArrayIndexOutOfBoundsException`.
    pub fn exec_array_store(&mut self, frame: &mut StackFrame, shape: Shape) -> (r: VmExecResult<
        InstructionResult,
    >)
        requires
            old(self).wf(),
            old(frame).wf(),
        ensures
            old(self).advances(final(self)),
            final(self).method_area == old(self).method_area,
            old(self).same_interned(final(self)),
            final(frame).wf(),
            old(frame).same_invocation(final(frame)),
            r is Err ==> final(self).object_heap.words() == old(self).object_heap.words()
                && final(self).static_area.static_object_heap.words()
                == old(self).static_area.static_object_heap.words(),
            old(self).array_stored(*old(frame), shape, final(self), *final(frame), r),
    {
        let value = frame.pop_shaped(shape)?;
        let index = frame.pop_int()?;
        match frame.pop_reference_or_null()? {
            Value::Null => Ok(InstructionResult::Raise(JavaException::NullPointerException)),
            Value::ArrayRef(array) => {
                let header = self.get_array_header(&array)?;
                if index < 0 || index as u64 >= header.array_size as u64 {
                    return Ok(
                        InstructionResult::Raise(JavaException::ArrayIndexOutOfBoundsException),
                    );
                }
                self.array_set(&array, index as usize, &value)?;
                Ok(InstructionResult::ContinueMethodExecution)
            },
            _ => Err(VmError::ValueTypeMissMatch),
        }
    }

    /// The resolved constant at `index` of the constant pool of the
    /// class of a frame.
    pub open spec fn constant_of(&self, frame: StackFrame, index: u16) -> Option<
        RuntimeConstantView,
    > {
        if frame.class_ref < self.method_area@.len() {
            runtime_constant_at(
                self.method_area@[frame.class_ref as int].constant_pool@,
                index as int,
            )
        } else {
            None
        }
    }

    /// Whether `r` is what reading the field `field_name` of the object
    /// `object` through a reference to the class called `owner` comes
    /// to: the object must be of that class, and the field is read as
    /// `field_read` says.
    pub open spec fn object_field_read(
        &self,
        object: ObjectReference,
        owner: Seq<char>,
        field_name: Seq<char>,
        r: VmExecResult<Value>,
    ) -> bool {
        match self.heap_of(object.address).class_word(object) {
            None => fails(r, VmError::IndexOutOfBounds),
            Some(c) => if subclass_of(self.method_area@, c as int, owner) {
                self.field_read(object, field_name, r)
            } else {
                fails(r, VmError::ValueTypeMissMatch)
            },
        }
    }

    /// What reading a field of `receiver` comes to: null raises
    /// `NullPointerException`; an object must be of the class called
    /// `owner`, and its field called `field_name` is read. Anything
    /// else is refused with `ValueTypeMissMatch`.
    pub fn read_field_of(&self, receiver: &Value, owner: &str, field_name: &str) -> (r:
        VmExecResult<Result<Value, JavaException>>)
        requires
            self.wf(),
        ensures
            match *receiver {
                Value::Null => r matches Ok(Err(e)) && e == JavaException::NullPointerException,
                Value::ObjectRef(object) => match r {
                    Ok(Ok(value)) => self.object_field_read(
                        object,
                        owner@,
                        field_name@,
                        Ok(value),
                    ),
                    Ok(Err(_)) => false,
                    Err(e) => self.object_field_read(object, owner@, field_name@, Err(e)),
                },
                _ => fails(r, VmError::ValueTypeMissMatch),
            },
    {
        match receiver {
            Value::Null => Ok(Err(JavaException::NullPointerException)),
            Value::ObjectRef(object) => {
                let class = match self.get_class_of(object) {
                    Ok(class) => class,
                    Err(e) => {
                        return Err(e);
                    },
                };
                if !self.method_area.is_subclass_of(class, owner) {
                    return Err(VmError::ValueTypeMissMatch);
                }
                match self.get_field_by_name(object, field_name) {
                    Ok(value) => Ok(Ok(value)),
                    Err(e) => Err(e),
                }
            },
            _ => Err(VmError::ValueTypeMissMatch),
        }
    }

    /// Whether `r` and the machine `after` are what writing `value` to
    /// the field `field_name` of the object `object` through a
    /// reference to the class called `owner` comes to: the object must
    /// be of that class, and the field is written as `field_written`
    /// says.
    pub open spec fn object_field_written(
        &self,
        object: ObjectReference,
        owner: Seq<char>,
        field_name: Seq<char>,
        value: Value,
        after: &VirtualMachine,
        r: VmExecResult<()>,
    ) -> bool {
        match self.heap_of(object.address).class_word(object) {
            None => fails(r, VmError::IndexOutOfBounds) && self.unchanged(after),
            Some(c) => if subclass_of(self.method_area@, c as int, owner) {
                self.field_written(object, field_name, value, after, r)
            } else {
                fails(r, VmError::ValueTypeMissMatch) && self.unchanged(after)
            },
        }
    }

    /// What writing a field of `receiver` comes to: null raises
    /// `NullPointerException`; an object must be of the class called
    /// `owner`, and its field called `field_name` is written. Anything
    /// else is refused with `ValueTypeMissMatch`.
    pub fn write_field_of(&mut self, receiver: &Value, owner: &str, field_name: &str, value: &Value) -> (r:
        VmExecResult<Option<JavaException>>)
        requires
            old(self).wf(),
        ensures
            old(self).advances(final(self)),
            final(self).method_area == old(self).method_area,
            old(self).same_interned(final(self)),
            match *receiver {
                Value::Null => (r matches Ok(Some(e)) && e == JavaException::NullPointerException)
                    && old(self).unchanged(final(self)),
                Value::ObjectRef(object) => match r {
                    Ok(None) => old(self).object_field_written(
                        object,
                        owner@,
                        field_name@,
                        *value,
                        final(self),
                        Ok(()),
                    ),
                    Ok(Some(_)) => false,
                    Err(e) => old(self).object_field_written(
                        object,
                        owner@,
                        field_name@,
                        *value,
                        final(self),
                        Err(e),
                    ),
                },
                _ => fails(r, VmError::ValueTypeMissMatch) && old(self).unchanged(final(self)),
            },
    {
        match receiver {
            Value::Null => Ok(Some(JavaException::NullPointerException)),
            Value::ObjectRef(object) => {
                let class = match self.get_class_of(object) {
                    Ok(class) => class,
                    Err(e) => {
                        return Err(e);
                    },
                };
                if !self.method_area.is_subclass_of(class, owner) {
                    return Err(VmError::ValueTypeMissMatch);
                }
                match self.set_field_by_name(object, field_name, value) {
                    Ok(()) => Ok(None),
                    Err(e) => Err(e),
                }
            },
            _ => Err(VmError::ValueTypeMissMatch),
        }
    }

    /// The class name, the name and the descriptor of the field
    /// reference at `index` of the constant pool of the frame's class.
    fn field_reference(&self, frame: &StackFrame, index: u16) -> (r: VmExecResult<
        (String, String, String),
    >)
        ensures
            match self.constant_of(*frame, index) {
                Some(RuntimeConstantView::FieldReference(owner, name, descriptor)) => (r matches Ok(
                    found,
                ) && found.0@ == owner && found.1@ == name && found.2@ == descriptor),
                _ => r is Err,
            },
    {
        let class = self.class_of_frame(frame)?;
        let (owner, name, descriptor) = class.constant_pool.get_field_name(index)?;
        Ok((owner.to_owned(), name.to_owned(), descriptor.to_owned()))
    }

    /// The class name, the name and the descriptor of the method
    /// reference at `index` of the constant pool of the class of a
    /// frame; class method references count where `plain` says so, and
    /// interface method references where `interface` says so.
    pub open spec fn method_constant(
        &self,
        frame: StackFrame,
        index: u16,
        plain: bool,
        interface: bool,
    ) -> Option<(Seq<char>, Seq<char>, Seq<char>)> {
        match self.constant_of(frame, index) {
            Some(RuntimeConstantView::MethodReference(owner, name, descriptor)) => if plain {
                Some((owner, name, descriptor))
            } else {
                None
            },
            Some(
                RuntimeConstantView::InterfaceMethodReference(owner, name, descriptor),
            ) => if interface {
                Some((owner, name, descriptor))
            } else {
                None
            },
            _ => None,
        }
    }

    /// The class name, the name and the descriptor of the method
    /// reference at `index`; interface method references count where
    /// `interface` says so, and class method references where `class`
    /// says so.
    fn method_reference(&self, frame: &StackFrame, index: u16, plain: bool, interface: bool) -> (r:
        VmExecResult<(String, String, String)>)
        ensures
            match self.method_constant(*frame, index, plain, interface) {
                Some(named) => (r matches Ok(found) && found.0@ == named.0 && found.1@ == named.1
                    && found.2@ == named.2),
                None => r is Err,
            },
    {
        let class = self.class_of_frame(frame)?;
        match class.constant_pool.get(index)? {
            RuntimeConstantPoolEntry::MethodReference(owner, name, descriptor) => {
                if plain {
                    Ok((owner.clone(), name.clone(), descriptor.clone()))
                } else {
                    Err(VmError::ValueTypeMissMatch)
                }
            },
            RuntimeConstantPoolEntry::InterfaceMethodReference(owner, name, descriptor) => {
                if interface {
                    Ok((owner.clone(), name.clone(), descriptor.clone()))
                } else {
                    Err(VmError::ValueTypeMissMatch)
                }
            },
            _ => Err(VmError::ValueTypeMissMatch),
        }
    }

    /// The name of the class reference at `index`.
    fn class_reference(&self, frame: &StackFrame, index: u16) -> (r: VmExecResult<String>)
        ensures
            match self.constant_of(*frame, index) {
                Some(RuntimeConstantView::ClassReference(name)) => r matches Ok(found) && found@
                    == name,
                _ => r is Err,
            },
    {
        let class = self.class_of_frame(frame)?;
        Ok(class.constant_pool.get_class_name(index)?.to_owned())
    }

    /// What `getfield` does with the field reference at `index` where
    /// the class that the reference names is initialized: the receiver
    /// is taken off the stack; null raises `NullPointerException`; the
    /// field of an object is read as `object_field_read` says, and its
    /// value is pushed. Nothing but the frame changes.
    pub open spec fn get_field_done(
        &self,
        frame: StackFrame,
        index: u16,
        after: &VirtualMachine,
        after_frame: StackFrame,
        r: VmExecResult<Step>,
    ) -> bool {
        &&& r matches Ok(Step::Enter(entered)) ==> waits_for_class(frame, after_frame, entered)
        &&& match self.constant_of(frame, index) {
            Some(RuntimeConstantView::FieldReference(owner, name, _)) => self.ready(owner) is Some
                ==> self.unchanged(after) && (match frame.state().pop() {
                Err(e) => fails(r, e),
                Ok((receiver, s1)) => match receiver {
                    Value::Null => (r matches Ok(Step::Raise(e)) && e
                        == JavaException::NullPointerException) && after_frame.state() == s1,
                    Value::ObjectRef(object) => match r {
                        Ok(step) => step is Continue && after_frame.state().stack.len() > 0
                            && self.object_field_read(
                            object,
                            owner,
                            name,
                            Ok(after_frame.state().stack.last()),
                        ) && s1.push(after_frame.state().stack.last()) == Ok::<_, VmError>(
                            after_frame.state(),
                        ),
                        Err(e) => self.object_field_read(object, owner, name, Err(e)),
                    },
                    _ => fails(r, VmError::ValueTypeMissMatch),
                },
            }),
            _ => r is Err,
        }
    }

    fn exec_get_field(&mut self, frame: &mut StackFrame, index: u16) -> (r: VmExecResult<Step>)
        requires
            old(self).wf(),
            old(frame).wf(),
        ensures
            old(self).advances(final(self)),
            final(frame).wf(),
            old(frame).same_invocation(final(frame)),
            r matches Ok(Step::Enter(entered)) ==> final(self).frame_fits(entered),
            old(self).get_field_done(*old(frame), index, final(self), *final(frame), r),
    {
        let (owner, name, _descriptor) = self.field_reference(frame, index)?;
        match self.prepare(frame, owner.as_str())? {
            Ok(_) => {},
            Err(entered) => {
                return Ok(Step::Enter(entered));
            },
        }
        let receiver = frame.pop()?;
        let ghost s1 = frame.state();
        match self.read_field_of(&receiver, owner.as_str(), name.as_str()) {
            Err(e) => Err(e),
            Ok(Ok(value)) => {
                let pushed = frame.push(value);
                proof {
                    old(frame).op_stack.lemma_depth();
                }
                assert(s1.push(value) is Ok);
                assert(frame.state().stack.last() == value);
                pushed?;
                Ok(Step::Continue)
            },
            Ok(Err(exception)) => Ok(Step::Raise(exception)),
        }
    }

    /// What `putfield` does with the field reference at `index` where
    /// the class that the reference names is initialized: the value and
    /// below it the receiver are taken off the stack; null raises
    /// `NullPointerException`; the field of an object is written as
    /// `object_field_written` says.
    pub open spec fn put_field_done(
        &self,
        frame: StackFrame,
        index: u16,
        after: &VirtualMachine,
        after_frame: StackFrame,
        r: VmExecResult<Step>,
    ) -> bool {
        &&& r matches Ok(Step::Enter(entered)) ==> waits_for_class(frame, after_frame, entered)
        &&& match self.constant_of(frame, index) {
            Some(RuntimeConstantView::FieldReference(owner, name, _)) => self.ready(owner) is Some
                ==> (match frame.state().pop() {
                Err(e) => fails(r, e) && self.unchanged(after),
                Ok((value, s1)) => match s1.pop() {
                    Err(e) => fails(r, e) && self.unchanged(after),
                    Ok((receiver, s2)) => after_frame.state() == s2 && (match receiver {
                        Value::Null => (r matches Ok(Step::Raise(e)) && e
                            == JavaException::NullPointerException) && self.unchanged(after),
                        Value::ObjectRef(object) => match r {
                            Ok(step) => step is Continue && self.object_field_written(
                                object,
                                owner,
                                name,
                                value,
                                after,
                                Ok(()),
                            ),
                            Err(e) => self.object_field_written(
                                object,
                                owner,
                                name,
                                value,
                                after,
                                Err(e),
                            ),
                        },
                        _ => fails(r, VmError::ValueTypeMissMatch) && self.unchanged(after),
                    }),
                },
            }),
            _ => r is Err,
        }
    }

    fn exec_put_field(&mut self, frame: &mut StackFrame, index: u16) -> (r: VmExecResult<Step>)
        requires
            old(self).wf(),
            old(frame).wf(),
        ensures
            old(self).advances(final(self)),
            final(frame).wf(),
            old(frame).same_invocation(final(frame)),
            r matches Ok(Step::Enter(entered)) ==> final(self).frame_fits(entered),
            old(self).put_field_done(*old(frame), index, final(self), *final(frame), r),
    {
        let (owner, name, _descriptor) = self.field_reference(frame, index)?;
        match self.prepare(frame, owner.as_str())? {
            Ok(_) => {},
            Err(entered) => {
                return Ok(Step::Enter(entered));
            },
        }
        let ghost prepared = *self;
        let value = frame.pop()?;
        let receiver = frame.pop()?;
        let done = self.write_field_of(&receiver, owner.as_str(), name.as_str(), &value);
        proof {
            old(self).lemma_advances_transitive(&prepared, self);
        }
        match done {
            Err(e) => Err(e),
            Ok(None) => Ok(Step::Continue),
            Ok(Some(exception)) => Ok(Step::Raise(exception)),
        }
    }

    /// The class that holds the static field `name` as seen from the
    /// class called `owner`, where that class is initialized and so is
    /// the class that declares the field: the class itself, or the
    /// super class that declares the field.
    pub open spec fn static_home(&self, owner: Seq<char>, name: Seq<char>) -> Option<ClassRef> {
        match self.ready(owner) {
            None => None,
            Some(c) => match crate::method_area::field_site(self.method_area@, c as int, name) {
                None => None,
                Some(site) => if site.class == c {
                    Some(c)
                } else {
                    self.ready(self.method_area@[site.class as int].name@)
                },
            },
        }
    }

    /// Prepares the class that declares the static field `name` as seen
    /// from the class called `owner`, and returns its handle. A class
    /// without such a field is refused with `FieldNotFoundException`.
    fn static_owner(&mut self, frame: &mut StackFrame, owner: &str, name: &str) -> (r:
        VmExecResult<Result<ClassRef, StackFrame>>)
        requires
            old(self).wf(),
            old(frame).wf(),
        ensures
            old(self).advances(final(self)),
            final(frame).wf(),
            old(frame).same_invocation(final(frame)),
            final(frame).state().stack == old(frame).state().stack,
            r matches Ok(Ok(c)) ==> final(self).usable(c) && *final(frame) == *old(frame),
            r matches Ok(Err(entered)) ==> final(self).frame_fits(entered) && waits_for_class(
                *old(frame),
                *final(frame),
                entered,
            ),
            old(self).static_home(owner@, name@) matches Some(home) ==> (r matches Ok(Ok(c)) && c
                == home) && old(self).unchanged(final(self)),
            old(self).ready(owner@) matches Some(c) && crate::method_area::field_site(
                old(self).method_area@,
                c as int,
                name@,
            ) is None ==> (r matches Err(VmError::FieldNotFoundException(n)) && n@ == name@),
    {
        let class = match self.prepare(frame, owner)? {
            Ok(class) => class,
            Err(entered) => {
                return Ok(Err(entered));
            },
        };
        let ghost prepared = *self;
        let (declaring, _field) = self.method_area.get_field_by_name(class, name)?;
        if declaring == class {
            return Ok(Ok(class));
        }
        let declaring_name = self.method_area.class(declaring).name.clone();
        let r = self.prepare(frame, declaring_name.as_str());
        proof {
            old(self).lemma_advances_transitive(&prepared, self);
        }
        r
    }

    /// What `getstatic` does with the field reference at `index` where
    /// the class that holds the field is initialized: the value of the
    /// field is pushed, and nothing but the frame changes.
    pub open spec fn get_static_done(
        &self,
        frame: StackFrame,
        index: u16,
        after: &VirtualMachine,
        after_frame: StackFrame,
        r: VmExecResult<Step>,
    ) -> bool {
        &&& r matches Ok(Step::Enter(entered)) ==> waits_for_class(frame, after_frame, entered)
        &&& match self.constant_of(frame, index) {
            Some(RuntimeConstantView::FieldReference(owner, name, _)) => self.static_home(
                owner,
                name,
            ) matches Some(home) ==> self.unchanged(after) && (match self.static_area.value_of(
                home,
                name,
            ) {
                Some(value) => goes_on_in(after_frame, frame.state().push(value), r),
                None => r matches Err(VmError::FieldNotFoundException(n)) && n@ == name,
            }),
            _ => r is Err,
        }
    }

    fn exec_get_static(&mut self, frame: &mut StackFrame, index: u16) -> (r: VmExecResult<Step>)
        requires
            old(self).wf(),
            old(frame).wf(),
        ensures
            old(self).advances(final(self)),
            final(frame).wf(),
            old(frame).same_invocation(final(frame)),
            r matches Ok(Step::Enter(entered)) ==> final(self).frame_fits(entered),
            old(self).get_static_done(*old(frame), index, final(self), *final(frame), r),
    {
        let (owner, name, _descriptor) = self.field_reference(frame, index)?;
        let class = match self.static_owner(frame, owner.as_str(), name.as_str())? {
            Ok(class) => class,
            Err(entered) => {
                return Ok(Step::Enter(entered));
            },
        };
        match self.get_static(class, name.as_str()) {
            Some(value) => {
                frame.push(value)?;
                Ok(Step::Continue)
            },
            None => Err(VmError::FieldNotFoundException(name)),
        }
    }

    /// What `putstatic` does with the field reference at `index` where
    /// the class that holds the field is initialized: the value on top
    /// of the stack becomes the value of the field, and nothing else
    /// changes.
    pub open spec fn put_static_done(
        &self,
        frame: StackFrame,
        index: u16,
        after: &VirtualMachine,
        after_frame: StackFrame,
        r: VmExecResult<Step>,
    ) -> bool {
        &&& r matches Ok(Step::Enter(entered)) ==> waits_for_class(frame, after_frame, entered)
        &&& match self.constant_of(frame, index) {
            Some(RuntimeConstantView::FieldReference(owner, name, _)) => self.static_home(
                owner,
                name,
            ) matches Some(home) ==> (match frame.state().pop() {
                Err(e) => fails(r, e) && self.unchanged(after),
                Ok((value, s1)) => r matches Ok(Step::Continue) && after_frame.state() == s1
                    && self.static_written(home, name, value, after),
            }),
            _ => r is Err,
        }
    }

    fn exec_put_static(&mut self, frame: &mut StackFrame, index: u16) -> (r: VmExecResult<Step>)
        requires
            old(self).wf(),
            old(frame).wf(),
        ensures
            old(self).advances(final(self)),
            final(frame).wf(),
            old(frame).same_invocation(final(frame)),
            r matches Ok(Step::Enter(entered)) ==> final(self).frame_fits(entered),
            old(self).put_static_done(*old(frame), index, final(self), *final(frame), r),
    {
        let (owner, name, _descriptor) = self.field_reference(frame, index)?;
        let class = match self.static_owner(frame, owner.as_str(), name.as_str())? {
            Ok(class) => class,
            Err(entered) => {
                return Ok(Step::Enter(entered));
            },
        };
        let ghost prepared = *self;
        let value = frame.pop()?;
        let done = self.set_static(class, name.as_str(), value);
        proof {
            old(self).lemma_advances_transitive(&prepared, self);
        }
        done?;
        Ok(Step::Continue)
    }

    /// What `new` does with the class reference at `index` where the
    /// class is initialized: an object of the class is allocated and a
    /// reference to it is pushed. A full heap gives `OutOfMemory`.
    pub open spec fn new_object_done(
        &self,
        frame: StackFrame,
        index: u16,
        after: &VirtualMachine,
        after_frame: StackFrame,
        r: VmExecResult<Step>,
    ) -> bool {
        &&& r matches Ok(Step::Enter(entered)) ==> waits_for_class(frame, after_frame, entered)
        &&& match self.constant_of(frame, index) {
            Some(RuntimeConstantView::ClassReference(name)) => self.ready(name) matches Some(class)
                ==> (if self.object_heap.object_fits(
                self.method_area@[class as int].total_num_of_fields as int,
            ) {
                self.object_allocated(class, after) && goes_on_in(
                    after_frame,
                    frame.state().push(
                        Value::ObjectRef(ObjectReference { address: self.next_address() }),
                    ),
                    r,
                )
            } else {
                fails(r, VmError::OutOfMemory) && self.nothing_allocated(after)
            }),
            _ => r is Err,
        }
    }

    fn exec_new_object(&mut self, frame: &mut StackFrame, index: u16) -> (r: VmExecResult<Step>)
        requires
            old(self).wf(),
            old(frame).wf(),
        ensures
            old(self).advances(final(self)),
            final(frame).wf(),
            old(frame).same_invocation(final(frame)),
            r matches Ok(Step::Enter(entered)) ==> final(self).frame_fits(entered),
            old(self).new_object_done(*old(frame), index, final(self), *final(frame), r),
    {
        let name = self.class_reference(frame, index)?;
        let class = match self.prepare(frame, name.as_str())? {
            Ok(class) => class,
            Err(entered) => {
                return Ok(Step::Enter(entered));
            },
        };
        let ghost prepared = *self;
        let made = self.new_object(class);
        proof {
            old(self).lemma_advances_transitive(&prepared, self);
        }
        let object = made?;
        frame.push(Value::ObjectRef(object))?;
        Ok(Step::Continue)
    }

    /// What allocating an array of `length` elements of the type
    /// `element` for an instruction comes to, where the frame is in the
    /// state `state` after it has given its operands: a reference to
    /// the new array is pushed. A full heap, and an element type that
    /// no array header can record, give `OutOfMemory`.
    pub open spec fn array_pushed(
        &self,
        element: ArrayElement,
        length: int,
        state: FrameState,
        after: &VirtualMachine,
        after_frame: StackFrame,
        r: VmExecResult<Step>,
    ) -> bool {
        if self.object_heap.array_fits(element, length) {
            self.array_allocated(element, length, after) && goes_on_in(
                after_frame,
                state.push(Value::ArrayRef(ArrayReference { address: self.next_address() })),
                r,
            )
        } else {
            fails(r, VmError::OutOfMemory) && self.nothing_allocated(after)
        }
    }

    /// What `newarray` does: the length is taken off the stack, and an
    /// array of the primitive type with the tag `a_type` is allocated. A
    /// negative length raises `NegativeArraySizeException`, and a tag of
    /// no primitive type is refused with `ValueTypeMissMatch`.
    pub open spec fn new_array_done(
        &self,
        frame: StackFrame,
        a_type: u8,
        after: &VirtualMachine,
        after_frame: StackFrame,
        r: VmExecResult<Step>,
    ) -> bool {
        match frame.state().pop_shaped(Shape::Int) {
            Err(e) => fails(r, e) && self.unchanged(after),
            Ok((count, s1)) => if count->Int_0 < 0 {
                (r matches Ok(Step::Raise(e)) && e == JavaException::NegativeArraySizeException)
                    && after_frame.state() == s1 && self.unchanged(after)
            } else {
                match crate::jvm_values::primary_of_tag(a_type as int) {
                    None => fails(r, VmError::ValueTypeMissMatch) && self.unchanged(after),
                    Some(t) => self.array_pushed(
                        ArrayElement::PrimaryValue(t),
                        count->Int_0 as int,
                        s1,
                        after,
                        after_frame,
                        r,
                    ),
                }
            },
        }
    }

    /// `newarray`: an array of a primitive type, of the length on top of
    /// the stack.
    fn exec_new_array(&mut self, frame: &mut StackFrame, a_type: u8) -> (r: VmExecResult<Step>)
        requires
            old(self).wf(),
            old(frame).wf(),
        ensures
            old(self).advances(final(self)),
            final(frame).wf(),
            old(frame).same_invocation(final(frame)),
            !(r matches Ok(Step::Enter(_))),
            old(self).new_array_done(*old(frame), a_type, final(self), *final(frame), r),
    {
        let count = frame.pop_int()?;
        if count < 0 {
            return Ok(Step::Raise(JavaException::NegativeArraySizeException));
        }
        let primary_type = match PrimaryType::from_tag(a_type) {
            Some(t) => t,
            None => {
                return Err(VmError::ValueTypeMissMatch);
            },
        };
        let array = self.new_array(&ArrayElement::PrimaryValue(primary_type), count as usize)?;
        frame.push(Value::ArrayRef(array))?;
        Ok(Step::Continue)
    }

    /// What `anewarray` does with the class reference at `index` where
    /// the class is initialized: the length is taken off the stack, and
    /// an array of references to objects of the class is allocated. A
    /// negative length raises `NegativeArraySizeException`.
    pub open spec fn anewarray_done(
        &self,
        frame: StackFrame,
        index: u16,
        after: &VirtualMachine,
        after_frame: StackFrame,
        r: VmExecResult<Step>,
    ) -> bool {
        &&& r matches Ok(Step::Enter(entered)) ==> waits_for_class(frame, after_frame, entered)
        &&& match self.constant_of(frame, index) {
            Some(RuntimeConstantView::ClassReference(name)) => self.ready(name) matches Some(class)
                ==> (match frame.state().pop_shaped(Shape::Int) {
                Err(e) => fails(r, e) && self.unchanged(after),
                Ok((count, s1)) => if count->Int_0 < 0 {
                    (r matches Ok(Step::Raise(e)) && e
                        == JavaException::NegativeArraySizeException) && after_frame.state() == s1
                        && self.unchanged(after)
                } else {
                    self.array_pushed(
                        ArrayElement::ClassReference(class),
                        count->Int_0 as int,
                        s1,
                        after,
                        after_frame,
                        r,
                    )
                },
            }),
            _ => r is Err,
        }
    }

    fn exec_anewarray(&mut self, frame: &mut StackFrame, index: u16) -> (r: VmExecResult<Step>)
        requires
            old(self).wf(),
            old(frame).wf(),
        ensures
            old(self).advances(final(self)),
            final(frame).wf(),
            old(frame).same_invocation(final(frame)),
            r matches Ok(Step::Enter(entered)) ==> final(self).frame_fits(entered),
            old(self).anewarray_done(*old(frame), index, final(self), *final(frame), r),
    {
        let name = self.class_reference(frame, index)?;
        let class = match self.prepare(frame, name.as_str())? {
            Ok(class) => class,
            Err(entered) => {
                return Ok(Step::Enter(entered));
            },
        };
        let ghost prepared = *self;
        let count = frame.pop_int()?;
        if count < 0 {
            return Ok(Step::Raise(JavaException::NegativeArraySizeException));
        }
        let made = self.new_array(&ArrayElement::ClassReference(class), count as usize);
        proof {
            old(self).lemma_advances_transitive(&prepared, self);
        }
        let array = made?;
        frame.push(Value::ArrayRef(array))?;
        Ok(Step::Continue)
    }
}

/// A constant as `ldc` sees it.
enum Loadable {
    Value(Value),
    Text(String),
    Class(String),
    NotImplemented,
    Mismatch,
}

impl VirtualMachine {
    /// The constant at `index` as `ldc` sees it.
    fn loadable(&self, frame: &StackFrame, index: u16) -> (r: VmExecResult<Loadable>)
        ensures
            match self.constant_of(*frame, index) {
                None => r is Err,
                Some(RuntimeConstantView::Integer(v)) => r matches Ok(Loadable::Value(value))
                    && value == Value::Int(v),
                Some(RuntimeConstantView::Float(v)) => r matches Ok(Loadable::Value(value))
                    && value == Value::Float(v),
                Some(RuntimeConstantView::StringReference(text)) => r matches Ok(
                    Loadable::Text(found),
                ) && found@ == text,
                Some(RuntimeConstantView::ClassReference(name)) => r matches Ok(
                    Loadable::Class(found),
                ) && found@ == name,
                Some(RuntimeConstantView::MethodReference(_, _, _)) => r matches Ok(
                    Loadable::NotImplemented,
                ),
                Some(RuntimeConstantView::MethodHandler(_, _, _, _)) => r matches Ok(
                    Loadable::NotImplemented,
                ),
                Some(RuntimeConstantView::MethodType(_)) => r matches Ok(Loadable::NotImplemented),
                Some(_) => r matches Ok(Loadable::Mismatch),
            },
    {
        let class = self.class_of_frame(frame)?;
        Ok(
            match class.constant_pool.get(index)? {
                RuntimeConstantPoolEntry::Integer(i) => Loadable::Value(Value::Int(*i)),
                RuntimeConstantPoolEntry::Float(f) => Loadable::Value(Value::Float(*f)),
                RuntimeConstantPoolEntry::StringReference(text) => Loadable::Text(text.clone()),
                RuntimeConstantPoolEntry::ClassReference(name) => Loadable::Class(name.clone()),
                RuntimeConstantPoolEntry::MethodReference(_, _, _) => Loadable::NotImplemented,
                RuntimeConstantPoolEntry::MethodHandler(_, _, _, _) => Loadable::NotImplemented,
                RuntimeConstantPoolEntry::MethodType(_) => Loadable::NotImplemented,
                _ => Loadable::Mismatch,
            },
        )
    }

    /// Whether an instruction has pushed the object that is interned
    /// under a key, where `known` is the object that was interned under
    /// the key before, if there was one, and `interned` the one that is
    /// now. An object that was interned is the one that is pushed, and
    /// nothing but the frame changes. Where the instruction goes on, the
    /// object that it has pushed is the one that is interned.
    pub open spec fn interned_pushed(
        &self,
        frame: StackFrame,
        known: Option<ObjectReference>,
        interned: Option<ObjectReference>,
        after: &VirtualMachine,
        after_frame: StackFrame,
        r: VmExecResult<Step>,
    ) -> bool {
        &&& known matches Some(object) ==> self.unchanged(after) && goes_on_in(
            after_frame,
            frame.state().push(Value::ObjectRef(object)),
            r,
        )
        &&& r is Ok ==> (r matches Ok(Step::Continue)) && (interned matches Some(object)
            && frame.state().push(Value::ObjectRef(object)) == Ok::<_, VmError>(
            after_frame.state(),
        ))
    }

    /// What `ldc` and `ldc_w` do with the constant at `index`. An
    /// integer and a single-precision constant are pushed, and nothing
    /// but the frame changes. For a string constant the interned string
    /// object of the text is pushed, where `java/lang/String` is
    /// initialized, and for a class constant the interned mirror of the
    /// class, where `java/lang/Class` is initialized. References to
    /// methods, method handles and method types are refused with
    /// `NotImplemented`, and any other constant with
    /// `ValueTypeMissMatch`.
    pub open spec fn ldc_done(
        &self,
        frame: StackFrame,
        index: u16,
        after: &VirtualMachine,
        after_frame: StackFrame,
        r: VmExecResult<Step>,
    ) -> bool {
        &&& r matches Ok(Step::Enter(entered)) ==> waits_for_class(frame, after_frame, entered)
        &&& match self.constant_of(frame, index) {
            None => r is Err,
            Some(RuntimeConstantView::Integer(v)) => self.unchanged(after) && goes_on_in(
                after_frame,
                frame.state().push(Value::Int(v)),
                r,
            ),
            Some(RuntimeConstantView::Float(v)) => self.unchanged(after) && goes_on_in(
                after_frame,
                frame.state().push(Value::Float(v)),
                r,
            ),
            Some(RuntimeConstantView::StringReference(text)) => self.ready("java/lang/String"@)
                is Some ==> self.interned_pushed(
                frame,
                self.static_area.string_of(text),
                after.static_area.string_of(text),
                after,
                after_frame,
                r,
            ),
            Some(RuntimeConstantView::ClassReference(name)) => self.ready("java/lang/Class"@)
                is Some ==> self.interned_pushed(
                frame,
                self.static_area.mirror_of(name),
                after.static_area.mirror_of(name),
                after,
                after_frame,
                r,
            ),
            Some(RuntimeConstantView::MethodReference(_, _, _)) => fails(
                r,
                VmError::NotImplemented,
            ),
            Some(RuntimeConstantView::MethodHandler(_, _, _, _)) => fails(
                r,
                VmError::NotImplemented,
            ),
            Some(RuntimeConstantView::MethodType(_)) => fails(r, VmError::NotImplemented),
            Some(_) => fails(r, VmError::ValueTypeMissMatch),
        }
    }

    /// `ldc` and `ldc_w`: pushes an integer or a floating-point
    /// constant, the interned string of a string constant, or the
    /// mirror of a class constant.
    fn exec_ldc(&mut self, frame: &mut StackFrame, index: u16) -> (r: VmExecResult<Step>)
        requires
            old(self).wf(),
            old(frame).wf(),
        ensures
            old(self).advances(final(self)),
            final(frame).wf(),
            old(frame).same_invocation(final(frame)),
            r matches Ok(Step::Enter(entered)) ==> final(self).frame_fits(entered),
            old(self).ldc_done(*old(frame), index, final(self), *final(frame), r),
    {
        match self.loadable(frame, index)? {
            Loadable::Value(value) => {
                frame.push(value)?;
                Ok(Step::Continue)
            },
            Loadable::Text(text) => {
                match self.prepare(frame, "java/lang/String")? {
                    Ok(_) => {},
                    Err(entered) => {
                        return Ok(Step::Enter(entered));
                    },
                }
                let ghost prepared = *self;
                let made = self.new_java_lang_string_object(text.as_str());
                proof {
                    old(self).lemma_advances_transitive(&prepared, self);
                }
                frame.push(Value::ObjectRef(made?))?;
                Ok(Step::Continue)
            },
            Loadable::Class(name) => {
                match self.prepare(frame, "java/lang/Class")? {
                    Ok(_) => {},
                    Err(entered) => {
                        return Ok(Step::Enter(entered));
                    },
                }
                let ghost prepared = *self;
                let made = self.new_java_lang_class_object(name.as_str());
                proof {
                    old(self).lemma_advances_transitive(&prepared, self);
                }
                frame.push(Value::ObjectRef(made?))?;
                Ok(Step::Continue)
            },
            Loadable::NotImplemented => Err(VmError::NotImplemented),
            Loadable::Mismatch => Err(VmError::ValueTypeMissMatch),
        }
    }

    /// What `ldc2_w` does with the constant at `index`: a long and a
    /// double-precision constant are pushed; any other constant is
    /// refused with `ValueTypeMissMatch`.
    pub open spec fn ldc2_done(&self, frame: StackFrame, index: u16, after_frame: StackFrame, r: VmExecResult<
        Step,
    >) -> bool {
        match self.constant_of(frame, index) {
            None => r is Err,
            Some(RuntimeConstantView::Long(v)) => goes_on_in(
                after_frame,
                frame.state().push(Value::Long(v)),
                r,
            ),
            Some(RuntimeConstantView::Double(v)) => goes_on_in(
                after_frame,
                frame.state().push(Value::Double(v)),
                r,
            ),
            Some(_) => fails(r, VmError::ValueTypeMissMatch),
        }
    }

    /// `ldc2_w`: pushes a long or a double-precision constant.
    fn exec_ldc2(&self, frame: &mut StackFrame, index: u16) -> (r: VmExecResult<Step>)
        requires
            self.wf(),
            old(frame).wf(),
        ensures
            final(frame).wf(),
            old(frame).same_invocation(final(frame)),
            self.ldc2_done(*old(frame), index, *final(frame), r),
    {
        let class = self.class_of_frame(frame)?;
        let value = match class.constant_pool.get(index)? {
            RuntimeConstantPoolEntry::Long(v) => Value::Long(*v),
            RuntimeConstantPoolEntry::Double(v) => Value::Double(*v),
            _ => {
                return Err(VmError::ValueTypeMissMatch);
            },
        };
        frame.push(value)?;
        Ok(Step::Continue)
    }

    /// The operand stack without its top `count` values.
    pub open spec fn below_top(state: FrameState, count: int) -> FrameState {
        FrameState { stack: state.stack.subrange(0, state.stack.len() - count), ..state }
    }

    /// The top `count` values of the operand stack, the lowest first.
    pub open spec fn top_values(state: FrameState, count: int) -> Seq<Value> {
        state.stack.subrange(state.stack.len() - count, state.stack.len() as int)
    }

    /// What invoking a method on a receiver comes to, where the
    /// instruction names the method `target` as seen from the class
    /// `declared`, and has taken the receiver and the arguments off the
    /// stack, which left the frame in the state `state`. A null
    /// receiver raises `NullPointerException`. For an object the method
    /// is looked up anew from the class of the object, which must be
    /// the declared class or have it as a super class or an interface;
    /// for an array the method is `target`. The method is invoked as
    /// `invoked` says.
    pub open spec fn dispatched(
        &self,
        declared: ClassRef,
        target: (ClassRef, MethodRef),
        name: Seq<char>,
        descriptor: Seq<char>,
        receiver: Value,
        args: Seq<Value>,
        state: FrameState,
        after: &VirtualMachine,
        after_frame: StackFrame,
        r: VmExecResult<Step>,
    ) -> bool {
        match receiver {
            Value::Null => (r matches Ok(Step::Raise(e)) && e
                == JavaException::NullPointerException) && self.unchanged(after)
                && after_frame.state() == state,
            Value::ObjectRef(object) => match self.heap_of(object.address).class_word(object) {
                None => fails(r, VmError::IndexOutOfBounds),
                Some(c) => if declared >= self.method_area@.len() {
                    fails(r, VmError::ClassFormatError)
                } else if !subclass_of(
                    self.method_area@,
                    c as int,
                    self.method_area@[declared as int].name@,
                ) {
                    fails(r, VmError::ValueTypeMissMatch)
                } else {
                    match method_site(self.method_area@, c as int, name, descriptor) {
                        None => (r matches Err(VmError::MethodNotFoundException(n, d)) && n@
                            == name && d@ == descriptor),
                        Some(site) => self.invoked(
                            site.class,
                            site.method,
                            Some(receiver),
                            args,
                            state,
                            after,
                            after_frame,
                            r,
                        ),
                    }
                },
            },
            Value::ArrayRef(_) => self.invoked(
                target.0,
                target.1,
                Some(receiver),
                args,
                state,
                after,
                after_frame,
                r,
            ),
            _ => fails(r, VmError::ValueTypeMissMatch),
        }
    }

    /// Invokes a method on a receiver that was taken from the stack,
    /// where the method is looked up in the class of the receiver.
    /// `declared` is the class that the instruction names and `target`
    /// the method that it names.
    pub fn dispatch_on(
        &mut self,
        frame: &mut StackFrame,
        declared: ClassRef,
        target: (ClassRef, MethodRef),
        name: &str,
        descriptor: &str,
        receiver: Value,
        args: &Vec<Value>,
    ) -> (r: VmExecResult<Step>)
        requires
            old(self).wf(),
            old(frame).wf(),
        ensures
            old(self).advances(final(self)),
            final(frame).wf(),
            old(frame).same_invocation(final(frame)),
            r matches Ok(Step::Enter(entered)) ==> final(self).frame_fits(entered)
                && entered.initializes is None && !entered.host,
            old(self).dispatched(
                declared,
                target,
                name@,
                descriptor@,
                receiver,
                args@,
                old(frame).state(),
                final(self),
                *final(frame),
                r,
            ),
    {
        match receiver {
            Value::ObjectRef(object) => {
                let class = self.get_class_of(&object)?;
                let declared_name = match self.method_area.get(declared) {
                    Some(c) => c.name.clone(),
                    None => {
                        return Err(VmError::ClassFormatError);
                    },
                };
                if !self.method_area.is_subclass_of(class, declared_name.as_str()) {
                    return Err(VmError::ValueTypeMissMatch);
                }
                let (owner, method) = self.method_area.get_method_by_checking_super(
                    class,
                    name,
                    descriptor,
                )?;
                self.invoke(frame, owner, method, Some(receiver), args)
            },
            Value::ArrayRef(_) => self.invoke(frame, target.0, target.1, Some(receiver), args),
            Value::Null => Ok(Step::Raise(JavaException::NullPointerException)),
            _ => Err(VmError::ValueTypeMissMatch),
        }
    }

    /// Invokes a method for an instruction that has taken its operands.
    fn invoke(
        &mut self,
        frame: &mut StackFrame,
        class_ref: ClassRef,
        method_ref: MethodRef,
        receiver: Option<Value>,
        args: &Vec<Value>,
    ) -> (r: VmExecResult<Step>)
        requires
            old(self).wf(),
            old(frame).wf(),
        ensures
            old(self).advances(final(self)),
            final(frame).wf(),
            old(frame).same_invocation(final(frame)),
            r matches Ok(Step::Enter(entered)) ==> final(self).frame_fits(entered)
                && entered.initializes is None && !entered.host,
            old(self).invoked(
                class_ref,
                method_ref,
                receiver,
                args@,
                old(frame).state(),
                final(self),
                *final(frame),
                r,
            ),
    {
        match self.enter_method(class_ref, method_ref, receiver, args) {
            Err(e) => Err(e),
            Ok(NativeOutcome::Host(id)) => Ok(
                Step::NeedHost(HostCall { id, receiver, args: copy_values(args) }),
            ),
            Ok(outcome) => {
                let ghost returned = outcome;
                let r = VirtualMachine::after_invocation(frame, outcome);
                proof {
                    if returned matches NativeOutcome::Value(Some(value)) && r is Ok {
                        assert(frame.state().stack.last() == returned->Value_0->0);
                    }
                }
                r
            },
        }
    }

    /// What `invokevirtual`, and `invokeinterface` where `interface`
    /// says so, does with the method reference at `index` where the
    /// class that the reference names is initialized. The class must be
    /// an interface for `invokeinterface` and must not be one for
    /// `invokevirtual`. The method is looked up from that class, its
    /// arguments and below them the receiver are taken off the stack,
    /// and the method is dispatched on the receiver as `dispatched`
    /// says.
    pub open spec fn invoke_virtual_done(
        &self,
        frame: StackFrame,
        index: u16,
        interface: bool,
        after: &VirtualMachine,
        after_frame: StackFrame,
        r: VmExecResult<Step>,
    ) -> bool {
        &&& r matches Ok(Step::Enter(entered)) ==> (entered.initializes is Some
            ==> waits_for_class(frame, after_frame, entered))
        &&& match self.method_constant(frame, index, !interface, true) {
            None => r is Err,
            Some((owner, name, descriptor)) => self.ready(owner) matches Some(class) ==> (
            if has_flag(self.method_area@[class as int].access_flags@, ACC_INTERFACE)
                != interface {
                fails(r, VmError::ValueTypeMissMatch)
            } else {
                match method_site(self.method_area@, class as int, name, descriptor) {
                    None => (r matches Err(VmError::MethodNotFoundException(n, d)) && n@ == name
                        && d@ == descriptor),
                    Some(site) => {
                        let count = self.method_area@[site.class as int].methods@[site.method as int].descriptor_args_ret.args@.len() as int;
                        let stack = frame.state().stack;
                        if count + 1 > stack.len() {
                            fails(r, VmError::PopFromEmptyStack)
                        } else {
                            self.dispatched(
                                class,
                                (site.class, site.method),
                                name,
                                descriptor,
                                stack[stack.len() - count - 1],
                                VirtualMachine::top_values(frame.state(), count),
                                VirtualMachine::below_top(frame.state(), count + 1),
                                after,
                                after_frame,
                                r,
                            )
                        }
                    },
                }
            }),
        }
    }

    /// Looks up the method that an instruction names as seen from
    /// `class_or_interface_ref`, takes the arguments and the receiver
    /// from the stack, and dispatches on the receiver.
    fn invoke_virtual_on_receiver(
        &mut self,
        frame: &mut StackFrame,
        class_or_interface_ref: ClassRef,
        method_name: &str,
        descriptor: &str,
    ) -> (r: VmExecResult<Step>)
        requires
            old(self).wf(),
            old(frame).wf(),
        ensures
            old(self).advances(final(self)),
            final(frame).wf(),
            old(frame).same_invocation(final(frame)),
            r matches Ok(Step::Enter(entered)) ==> final(self).frame_fits(entered)
                && entered.initializes is None && !entered.host,
            match method_site(
                old(self).method_area@,
                class_or_interface_ref as int,
                method_name@,
                descriptor@,
            ) {
                None => (r matches Err(VmError::MethodNotFoundException(n, d)) && n@
                    == method_name@ && d@ == descriptor@),
                Some(site) => {
                    let count = old(self).method_area@[site.class as int].methods@[site.method as int].descriptor_args_ret.args@.len() as int;
                    let stack = old(frame).state().stack;
                    if count + 1 > stack.len() {
                        fails(r, VmError::PopFromEmptyStack)
                    } else {
                        old(self).dispatched(
                            class_or_interface_ref,
                            (site.class, site.method),
                            method_name@,
                            descriptor@,
                            stack[stack.len() - count - 1],
                            VirtualMachine::top_values(old(frame).state(), count),
                            VirtualMachine::below_top(old(frame).state(), count + 1),
                            final(self),
                            *final(frame),
                            r,
                        )
                    }
                },
            },
    {
        let (owner, method) = self.method_area.get_method_by_checking_super(
            class_or_interface_ref,
            method_name,
            descriptor,
        )?;
        let count = self.method_area.class(owner).methods[method].descriptor_args_ret.args.len();
        let args = frame.pop_n(count)?;
        let receiver = frame.pop()?;
        assert(frame.state().stack =~= VirtualMachine::below_top(
            old(frame).state(),
            count + 1,
        ).stack);
        self.dispatch_on(
            frame,
            class_or_interface_ref,
            (owner, method),
            method_name,
            descriptor,
            receiver,
            &args,
        )
    }

    fn exec_invoke_virtual(&mut self, frame: &mut StackFrame, index: u16, interface: bool) -> (r:
        VmExecResult<Step>)
        requires
            old(self).wf(),
            old(frame).wf(),
        ensures
            old(self).advances(final(self)),
            final(frame).wf(),
            old(frame).same_invocation(final(frame)),
            r matches Ok(Step::Enter(entered)) ==> final(self).frame_fits(entered),
            old(self).invoke_virtual_done(
                *old(frame),
                index,
                interface,
                final(self),
                *final(frame),
                r,
            ),
    {
        let (owner, name, descriptor) = self.method_reference(frame, index, !interface, true)?;
        let class = match self.prepare(frame, owner.as_str())? {
            Ok(class) => class,
            Err(entered) => {
                return Ok(Step::Enter(entered));
            },
        };
        let ghost prepared = *self;
        if self.method_area.class(class).is_interface() != interface {
            return Err(VmError::ValueTypeMissMatch);
        }
        let r = self.invoke_virtual_on_receiver(frame, class, name.as_str(), descriptor.as_str());
        proof {
            old(self).lemma_advances_transitive(&prepared, self);
        }
        r
    }

    /// What `invokespecial` does with the method reference at `index`
    /// where the class that the reference names is initialized. The
    /// method is one of that class itself. Its arguments and below them
    /// the receiver are taken off the stack. A null receiver raises
    /// `NullPointerException`; an object must be of the class that the
    /// reference names, and the method is invoked as `invoked` says.
    pub open spec fn invoke_special_done(
        &self,
        frame: StackFrame,
        index: u16,
        after: &VirtualMachine,
        after_frame: StackFrame,
        r: VmExecResult<Step>,
    ) -> bool {
        &&& r matches Ok(Step::Enter(entered)) ==> (entered.initializes is Some
            ==> waits_for_class(frame, after_frame, entered))
        &&& match self.method_constant(frame, index, true, true) {
            None => r is Err,
            Some((owner, name, descriptor)) => self.ready(owner) matches Some(class) ==> (
            match method_position(
                views(self.method_area@[class as int].methods@),
                name,
                descriptor,
                0,
            ) {
                None => (r matches Err(VmError::MethodNotFoundException(n, d)) && n@ == name && d@
                    == descriptor),
                Some(m) => {
                    let count = self.method_area@[class as int].methods@[m].descriptor_args_ret.args@.len() as int;
                    let stack = frame.state().stack;
                    let state = VirtualMachine::below_top(frame.state(), count + 1);
                    if count + 1 > stack.len() {
                        fails(r, VmError::PopFromEmptyStack)
                    } else {
                        match stack[stack.len() - count - 1] {
                            Value::Null => (r matches Ok(Step::Raise(e)) && e
                                == JavaException::NullPointerException) && self.unchanged(after)
                                && after_frame.state() == state,
                            Value::ObjectRef(object) => match self.heap_of(
                                object.address,
                            ).class_word(object) {
                                None => fails(r, VmError::IndexOutOfBounds),
                                Some(c) => if subclass_of(self.method_area@, c as int, owner) {
                                    self.invoked(
                                        class,
                                        m as usize,
                                        Some(Value::ObjectRef(object)),
                                        VirtualMachine::top_values(frame.state(), count),
                                        state,
                                        after,
                                        after_frame,
                                        r,
                                    )
                                } else {
                                    fails(r, VmError::ValueTypeMissMatch)
                                },
                            },
                            _ => fails(r, VmError::ValueTypeMissMatch),
                        }
                    }
                },
            }),
        }
    }

    fn exec_invoke_special(&mut self, frame: &mut StackFrame, index: u16) -> (r: VmExecResult<Step>)
        requires
            old(self).wf(),
            old(frame).wf(),
        ensures
            old(self).advances(final(self)),
            final(frame).wf(),
            old(frame).same_invocation(final(frame)),
            r matches Ok(Step::Enter(entered)) ==> final(self).frame_fits(entered),
            old(self).invoke_special_done(*old(frame), index, final(self), *final(frame), r),
    {
        let (owner, name, descriptor) = self.method_reference(frame, index, true, true)?;
        let class = match self.prepare(frame, owner.as_str())? {
            Ok(class) => class,
            Err(entered) => {
                return Ok(Step::Enter(entered));
            },
        };
        let ghost prepared = *self;
        let method = self.method_area.class(class).get_method(name.as_str(), descriptor.as_str())?;
        let count = self.method_area.class(class).methods[method].descriptor_args_ret.args.len();
        let args = frame.pop_n(count)?;
        let receiver = frame.pop()?;
        assert(frame.state().stack =~= VirtualMachine::below_top(
            old(frame).state(),
            count + 1,
        ).stack);
        match receiver {
            Value::Null => Ok(Step::Raise(JavaException::NullPointerException)),
            Value::ObjectRef(object) => {
                let runtime_class = self.get_class_of(&object)?;
                if !self.method_area.is_subclass_of(runtime_class, owner.as_str()) {
                    return Err(VmError::ValueTypeMissMatch);
                }
                let r = self.invoke(frame, class, method, Some(receiver), &args);
                proof {
                    old(self).lemma_advances_transitive(&prepared, self);
                }
                r
            },
            _ => Err(VmError::ValueTypeMissMatch),
        }
    }

    /// What `invokestatic` does with the method reference at `index`
    /// where the class that the reference names is initialized. The
    /// method is one of that class itself and must be static. Its
    /// arguments are taken off the stack, and the method is invoked as
    /// `invoked` says.
    pub open spec fn invoke_static_done(
        &self,
        frame: StackFrame,
        index: u16,
        after: &VirtualMachine,
        after_frame: StackFrame,
        r: VmExecResult<Step>,
    ) -> bool {
        &&& r matches Ok(Step::Enter(entered)) ==> (entered.initializes is Some
            ==> waits_for_class(frame, after_frame, entered))
        &&& match self.method_constant(frame, index, true, true) {
            None => r is Err,
            Some((owner, name, descriptor)) => self.ready(owner) matches Some(class) ==> (
            match method_position(
                views(self.method_area@[class as int].methods@),
                name,
                descriptor,
                0,
            ) {
                None => (r matches Err(VmError::MethodNotFoundException(n, d)) && n@ == name && d@
                    == descriptor),
                Some(m) => {
                    let method = self.method_area@[class as int].methods@[m];
                    let count = method.descriptor_args_ret.args@.len() as int;
                    if !has_flag(method@.access_flags, crate::access_flags::ACC_STATIC) {
                        fails(r, VmError::ValueTypeMissMatch)
                    } else if count > frame.state().stack.len() {
                        fails(r, VmError::PopFromEmptyStack)
                    } else {
                        self.invoked(
                            class,
                            m as usize,
                            None,
                            VirtualMachine::top_values(frame.state(), count),
                            VirtualMachine::below_top(frame.state(), count),
                            after,
                            after_frame,
                            r,
                        )
                    }
                },
            }),
        }
    }

    fn exec_invoke_static(&mut self, frame: &mut StackFrame, index: u16) -> (r: VmExecResult<Step>)
        requires
            old(self).wf(),
            old(frame).wf(),
        ensures
            old(self).advances(final(self)),
            final(frame).wf(),
            old(frame).same_invocation(final(frame)),
            r matches Ok(Step::Enter(entered)) ==> final(self).frame_fits(entered),
            old(self).invoke_static_done(*old(frame), index, final(self), *final(frame), r),
    {
        let (owner, name, descriptor) = self.method_reference(frame, index, true, true)?;
        let class = match self.prepare(frame, owner.as_str())? {
            Ok(class) => class,
            Err(entered) => {
                return Ok(Step::Enter(entered));
            },
        };
        let ghost prepared = *self;
        let method = self.method_area.class(class).get_method(name.as_str(), descriptor.as_str())?;
        let info = &self.method_area.class(class).methods[method];
        if !info.is_static() {
            return Err(VmError::ValueTypeMissMatch);
        }
        let count = info.descriptor_args_ret.args.len();
        let args = frame.pop_n(count)?;
        assert(frame.state().stack =~= VirtualMachine::below_top(
            old(frame).state(),
            count as int,
        ).stack);
        let r = self.invoke(frame, class, method, None, &args);
        proof {
            old(self).lemma_advances_transitive(&prepared, self);
        }
        r
    }

    pub fn element_is_subclass_of(&self, element: &ArrayElement, target: &ArrayElement) -> (r: bool)
        requires
            self.wf(),
        ensures
            r == element_matches(self.method_area@, *element, *target),
        decreases *element,
    {
        match (element, target) {
            (ArrayElement::PrimaryValue(a), ArrayElement::PrimaryValue(b)) => a.tag() == b.tag(),
            (ArrayElement::ClassReference(a), ArrayElement::ClassReference(b)) => {
                match self.method_area.get(*b) {
                    Some(class) => self.method_area.is_subclass_of(*a, class.name.as_str()),
                    None => false,
                }
            },
            (ArrayElement::Array(a), ArrayElement::Array(b)) => self.element_is_subclass_of(a, b),
            _ => false,
        }
    }

    /// The element type that the descriptor `text[from..]` names, where
    /// it names one whose class, if it has one, is loaded.
    fn element_named(&self, text: &str, chars: &Vec<char>, from: usize) -> (r: Option<ArrayElement>)
        requires
            chars@ == text@,
        ensures
            r == named_element(self.method_area@, text@, from as int),
        decreases chars@.len() - from,
    {
        if from >= chars.len() {
            return None;
        }
        let c = chars[from];
        if c == '[' {
            match self.element_named(text, chars, from + 1) {
                Some(inner) => Some(ArrayElement::Array(Box::new(inner))),
                None => None,
            }
        } else if c == 'L' {
            let end = chars.len();
            if end - from < 3 || chars[end - 1] != ';' {
                return None;
            }
            let name = text.substring_char(from + 1, end - 1);
            match self.method_area.find_loaded(name) {
                Some(class) => Some(ArrayElement::ClassReference(class)),
                None => None,
            }
        } else if chars.len() - from == 1 {
            let tag: u8 = letter_tag(c);
            match PrimaryType::from_tag(tag) {
                Some(t) => Some(ArrayElement::PrimaryValue(t)),
                None => None,
            }
        } else {
            None
        }
    }

    /// Whether `value` is an instance of the type called `name`, whose
    /// classes are loaded. An object is an instance of its class, of
    /// the super classes of its class and of the interfaces that they
    /// declare. An array is an instance of `java/lang/Object` and of
    /// the array types whose elements its own elements are, as
    /// `element_matches` says. Nothing else is an instance of anything.
    pub open spec fn instance_of(&self, name: Seq<char>, value: Value) -> Result<bool, VmError> {
        match value {
            Value::ObjectRef(object) => if begins_with(name, '[') {
                Ok(false)
            } else {
                match self.heap_of(object.address).class_word(object) {
                    Some(c) => Ok(subclass_of(self.method_area@, c as int, name)),
                    None => Err(VmError::IndexOutOfBounds),
                }
            },
            Value::ArrayRef(array) => if begins_with(name, '[') {
                match self.heap_of(array.address).array_shape(array) {
                    None => Err(VmError::IndexOutOfBounds),
                    Some((element, _)) => match named_element(self.method_area@, name, 1) {
                        Some(target) => Ok(element_matches(self.method_area@, element, target)),
                        None => Ok(false),
                    },
                }
            } else {
                Ok(name == "java/lang/Object"@)
            },
            _ => Ok(false),
        }
    }

    /// Whether `value` is an instance of the type called `name`, whose
    /// classes are loaded. Null is an instance of nothing.
    pub fn check_instance_of(&self, name: &str, value: &Value) -> (r: VmExecResult<bool>)
        requires
            self.wf(),
        ensures
            r == self.instance_of(name@, *value),
    {
        let array_type = starts_with_char(name, '[');
        match value {
            Value::ObjectRef(object) => {
                if array_type {
                    Ok(false)
                } else {
                    let class = self.get_class_of(object)?;
                    Ok(self.method_area.is_subclass_of(class, name))
                }
            },
            Value::ArrayRef(array) => {
                if array_type {
                    let header = self.get_array_header(array)?;
                    let chars = chars_of(name);
                    match self.element_named(name, &chars, 1) {
                        Some(target) => Ok(self.element_is_subclass_of(&header.element, &target)),
                        None => Ok(false),
                    }
                } else {
                    Ok(str_eq(name, "java/lang/Object"))
                }
            },
            _ => Ok(false),
        }
    }

    /// Whether the class that the type called `name` rests on, if it
    /// rests on one, is initialized.
    pub open spec fn type_ready(&self, name: Seq<char>) -> bool {
        match base_name(name) {
            None => true,
            Some(base) => self.ready(base) is Some,
        }
    }

    /// Prepares the class that the type called `name` rests on, where it
    /// rests on one: as `prepare` does for that class. A type that rests
    /// on no class needs nothing, and nothing changes. After success
    /// the class is initialized or is being initialized; where it had
    /// to be initialized first, the frame of its initializer is
    /// returned.
    fn prepare_type(&mut self, frame: &mut StackFrame, name: &str) -> (r: VmExecResult<
        Option<StackFrame>,
    >)
        requires
            old(self).wf(),
            old(frame).wf(),
        ensures
            old(self).advances(final(self)),
            final(frame).wf(),
            old(frame).same_invocation(final(frame)),
            final(frame).state().stack == old(frame).state().stack,
            r matches Ok(Some(entered)) ==> final(self).frame_fits(entered) && waits_for_class(
                *old(frame),
                *final(frame),
                entered,
            ),
            r matches Ok(None) ==> *final(frame) == *old(frame),
            old(self).type_ready(name@) ==> (r matches Ok(None)) && old(self).unchanged(final(self))
                && *final(self) == *old(self),
            r is Ok ==> final(self).type_ready(name@),
            r matches Ok(Some(entered)) ==> base_name(name@) is Some && final(self).ready(
                base_name(name@)->0,
            ) == Some(entered.class_ref) && entered.initializes == Some(entered.class_ref),
            base_name(name@) matches Some(base) ==> (class_position(
                old(self).method_area@,
                canonical_name(base),
                0,
            ) matches Some(c) ==> (old(self).method_area@[c].status == ClassStatus::Linked
                ==> old(self).initialization_begun(
                c as usize,
                false,
                final(self),
                match r {
                    Ok(None) => Ok(Prepared::Ready(c as usize)),
                    Ok(Some(entered)) => Ok(Prepared::Started(entered)),
                    Err(e) => Err(e),
                },
            ))),
    {
        match base_class_name(name) {
            None => Ok(None),
            Some(base) => match self.prepare(frame, base.as_str()) {
                Err(e) => Err(e),
                Ok(Ok(_)) => Ok(None),
                Ok(Err(entered)) => Ok(Some(entered)),
            },
        }
    }

    /// What `checkcast` does with the class reference at `index` where
    /// the class that the type rests on is initialized: the reference
    /// on top of the stack stays where it is null or an instance of the
    /// type, and else `ClassCastException` is raised. Nothing changes.
    pub open spec fn checkcast_done(
        &self,
        frame: StackFrame,
        index: u16,
        after: &VirtualMachine,
        after_frame: StackFrame,
        r: VmExecResult<Step>,
    ) -> bool {
        &&& r matches Ok(Step::Enter(entered)) ==> waits_for_class(frame, after_frame, entered)
        &&& match self.constant_of(frame, index) {
            Some(RuntimeConstantView::ClassReference(name)) => self.type_ready(name) ==> (
            self.unchanged(after) && after_frame.state() == frame.state() && (
            if frame.state().stack.len() == 0 {
                fails(r, VmError::PopFromEmptyStack)
            } else if frame.state().stack.last() is Null {
                r matches Ok(Step::Continue)
            } else {
                match self.instance_of(name, frame.state().stack.last()) {
                    Err(e) => fails(r, e),
                    Ok(true) => r matches Ok(Step::Continue),
                    Ok(false) => r matches Ok(Step::Raise(e)) && e
                        == JavaException::ClassCastException,
                }
            })),
            _ => r is Err,
        }
    }

    /// `checkcast`: the reference on top of the stack stays where it is
    /// null or an instance of the type; else `ClassCastException` is
    /// raised.
    fn exec_checkcast(&mut self, frame: &mut StackFrame, index: u16) -> (r: VmExecResult<Step>)
        requires
            old(self).wf(),
            old(frame).wf(),
        ensures
            old(self).advances(final(self)),
            final(frame).wf(),
            old(frame).same_invocation(final(frame)),
            final(frame).state().stack == old(frame).state().stack,
            r matches Ok(Step::Enter(entered)) ==> final(self).frame_fits(entered),
            old(self).checkcast_done(*old(frame), index, final(self), *final(frame), r),
    {
        let name = self.class_reference(frame, index)?;
        if let Some(entered) = self.prepare_type(frame, name.as_str())? {
            return Ok(Step::Enter(entered));
        }
        let value = frame.peek(0)?;
        match value {
            Value::Null => Ok(Step::Continue),
            _ => {
                if self.check_instance_of(name.as_str(), &value)? {
                    Ok(Step::Continue)
                } else {
                    Ok(Step::Raise(JavaException::ClassCastException))
                }
            },
        }
    }

    /// What `instanceof` does with the class reference at `index` where
    /// the class that the type rests on is initialized: the value on
    /// top of the stack is replaced by 1 where it is an instance of the
    /// type, and by 0 where it is not. Nothing else changes.
    pub open spec fn instanceof_done(
        &self,
        frame: StackFrame,
        index: u16,
        after: &VirtualMachine,
        after_frame: StackFrame,
        r: VmExecResult<Step>,
    ) -> bool {
        &&& r matches Ok(Step::Enter(entered)) ==> waits_for_class(frame, after_frame, entered)
        &&& match self.constant_of(frame, index) {
            Some(RuntimeConstantView::ClassReference(name)) => self.type_ready(name) ==> (
            self.unchanged(after) && (match frame.state().pop() {
                Err(e) => fails(r, e),
                Ok((value, s1)) => match self.instance_of(name, value) {
                    Err(e) => fails(r, e),
                    Ok(is) => goes_on_in(
                        after_frame,
                        s1.push(
                            Value::Int(
                                if is {
                                    1
                                } else {
                                    0
                                },
                            ),
                        ),
                        r,
                    ),
                },
            })),
            _ => r is Err,
        }
    }

    /// `instanceof`: the reference on top of the stack is replaced by 1
    /// where it is an instance of the type, and by 0 where it is not or
    /// is null.
    fn exec_instanceof(&mut self, frame: &mut StackFrame, index: u16) -> (r: VmExecResult<Step>)
        requires
            old(self).wf(),
            old(frame).wf(),
        ensures
            old(self).advances(final(self)),
            final(frame).wf(),
            old(frame).same_invocation(final(frame)),
            r matches Ok(Step::Enter(entered)) ==> final(self).frame_fits(entered),
            old(self).instanceof_done(*old(frame), index, final(self), *final(frame), r),
    {
        let name = self.class_reference(frame, index)?;
        if let Some(entered) = self.prepare_type(frame, name.as_str())? {
            return Ok(Step::Enter(entered));
        }
        let value = frame.pop()?;
        let result = if self.check_instance_of(name.as_str(), &value)? {
            1
        } else {
            0
        };
        frame.push(Value::Int(result))?;
        Ok(Step::Continue)
    }

    /// What `athrow` does: the reference on top of the stack is taken
    /// off; null raises `NullPointerException`; an object of a class
    /// that is a `java/lang/Throwable` is thrown; anything else is
    /// refused with `ValueTypeMissMatch`.
    pub open spec fn athrow_done(&self, frame: StackFrame, after_frame: StackFrame, r: VmExecResult<
        Step,
    >) -> bool {
        match frame.state().pop_shaped(Shape::Reference) {
            Err(e) => fails(r, e),
            Ok((Value::Null, s1)) => (r matches Ok(Step::Raise(e)) && e
                == JavaException::NullPointerException) && after_frame.state() == s1,
            Ok((Value::ObjectRef(object), s1)) => match self.heap_of(object.address).class_word(
                object,
            ) {
                None => fails(r, VmError::IndexOutOfBounds),
                Some(c) => if subclass_of(self.method_area@, c as int, "java/lang/Throwable"@) {
                    (r matches Ok(Step::Throw(thrown)) && thrown == object) && after_frame.state()
                        == s1
                } else {
                    fails(r, VmError::ValueTypeMissMatch)
                },
            },
            Ok(_) => fails(r, VmError::ValueTypeMissMatch),
        }
    }

    /// `athrow`: throws the object on top of the stack, which must be a
    /// `java/lang/Throwable`. A null reference raises
    /// `NullPointerException`.
    fn exec_athrow(&self, frame: &mut StackFrame) -> (r: VmExecResult<Step>)
        requires
            self.wf(),
            old(frame).wf(),
        ensures
            final(frame).wf(),
            old(frame).same_invocation(final(frame)),
            self.athrow_done(*old(frame), *final(frame), r),
    {
        match frame.pop_reference_or_null()? {
            Value::Null => Ok(Step::Raise(JavaException::NullPointerException)),
            Value::ObjectRef(object) => {
                let class = self.get_class_of(&object)?;
                if self.method_area.is_subclass_of(class, "java/lang/Throwable") {
                    Ok(Step::Throw(object))
                } else {
                    Err(VmError::ValueTypeMissMatch)
                }
            },
            _ => Err(VmError::ValueTypeMissMatch),
        }
    }

    /// Whether the machine `after` and `failed` are what making one
    /// element of the array `parent` comes to: an array of `length`
    /// elements of the type `element` is allocated, behind everything
    /// else on the heap, and a reference to it is written to position
    /// `index` of `parent`, as `element_written` says. A full heap
    /// gives `OutOfMemory`, and then nothing is allocated.
    pub open spec fn child_made(
        &self,
        parent: ArrayReference,
        index: int,
        element: ArrayElement,
        length: int,
        after: &VirtualMachine,
        failed: Option<VmError>,
    ) -> bool {
        if self.object_heap.array_fits(element, length) {
            exists|middle: VirtualMachine|
                #![trigger self.array_allocated(element, length, &middle)]
                self.array_allocated(element, length, &middle) && self.advances(&middle)
                    && middle.element_written(
                    parent,
                    index,
                    Value::ArrayRef(ArrayReference { address: self.next_address() }),
                    after,
                    match failed {
                        None => Ok(()),
                        Some(e) => Err(e),
                    },
                )
        } else {
            failed == Some(VmError::OutOfMemory) && self.nothing_allocated(after)
        }
    }

    /// How making the elements of an array goes on once all but the
    /// last of `count` elements are dealt with, which left the machine
    /// `middle`, the arrays `so_far` and the failure `earlier`: a
    /// failure ends the making and is the result; else the last element
    /// is made, as `child_made` says, and comes behind the others.
    pub open spec fn children_ended(
        middle: VirtualMachine,
        earlier: Option<VmError>,
        so_far: Seq<ArrayReference>,
        parent: ArrayReference,
        element: ArrayElement,
        length: int,
        count: nat,
        after: &VirtualMachine,
        made: Seq<ArrayReference>,
        failed: Option<VmError>,
    ) -> bool {
        match earlier {
            Some(e) => failed == Some(e) && *after == middle,
            None => middle.child_made(parent, count - 1, element, length, after, failed) && (
            failed is None ==> made == so_far.push(
                ArrayReference { address: middle.next_address() },
            )),
        }
    }

    /// Whether the machine `after`, the arrays `made` and `failed` are
    /// what making the first `count` elements of the array `parent`
    /// comes to: each is an array of `length` elements of the type
    /// `element`, made as `child_made` says, the one at the lowest
    /// position first. The first failure ends the making.
    pub open spec fn children_made(
        &self,
        parent: ArrayReference,
        element: ArrayElement,
        length: int,
        count: nat,
        after: &VirtualMachine,
        made: Seq<ArrayReference>,
        failed: Option<VmError>,
    ) -> bool
        decreases count,
    {
        if count == 0 {
            failed is None && *after == *self && made == Seq::<ArrayReference>::empty()
        } else {
            exists|middle: VirtualMachine, earlier: Option<VmError>, so_far: Seq<ArrayReference>|
                #![trigger VirtualMachine::children_ended(middle, earlier, so_far, parent, element, length, count, after, made, failed)]
                self.children_made(
                    parent,
                    element,
                    length,
                    (count - 1) as nat,
                    &middle,
                    so_far,
                    earlier,
                ) && VirtualMachine::children_ended(
                    middle,
                    earlier,
                    so_far,
                    parent,
                    element,
                    length,
                    count,
                    after,
                    made,
                    failed,
                )
        }
    }

    /// Making elements that has failed stays failed however many
    /// elements were to be made.
    pub proof fn lemma_children_failed(
        &self,
        parent: ArrayReference,
        element: ArrayElement,
        length: int,
        count: nat,
        more: nat,
        after: &VirtualMachine,
        made: Seq<ArrayReference>,
        e: VmError,
    )
        requires
            self.children_made(parent, element, length, count, after, made, Some(e)),
            count <= more,
        ensures
            self.children_made(parent, element, length, more, after, made, Some(e)),
        decreases more - count,
    {
        if count < more {
            let next = (count + 1) as nat;
            assert(VirtualMachine::children_ended(
                *after,
                Some(e),
                made,
                parent,
                element,
                length,
                next,
                after,
                made,
                Some(e),
            ));
            assert(self.children_made(parent, element, length, next, after, made, Some(e)));
            self.lemma_children_failed(parent, element, length, next, more, after, made, e);
        }
    }

    /// How filling the arrays of one dimension goes on once all but the
    /// last of `upto` arrays are filled: a failure ends the filling;
    /// else the elements of the last array are made, as `children_made`
    /// says, and come behind the others.
    pub open spec fn level_ended(
        middle: VirtualMachine,
        earlier: Option<VmError>,
        so_far: Seq<ArrayReference>,
        parents: Seq<ArrayReference>,
        per_parent: nat,
        element: ArrayElement,
        length: int,
        upto: nat,
        after: &VirtualMachine,
        made: Seq<ArrayReference>,
        failed: Option<VmError>,
    ) -> bool {
        match earlier {
            Some(e) => failed == Some(e) && *after == middle,
            None => exists|children: Seq<ArrayReference>| #[trigger]
                middle.children_made(
                    parents[upto - 1],
                    element,
                    length,
                    per_parent,
                    after,
                    children,
                    failed,
                ) && (failed is None ==> made == so_far + children),
        }
    }

    /// Whether the machine `after`, the arrays `made` and `failed` are
    /// what filling the first `upto` of the arrays `parents` comes to:
    /// each gets `per_parent` elements, which are arrays of `length`
    /// elements of the type `element`, made as `children_made` says.
    /// The arrays are filled in order, and the first failure ends the
    /// filling.
    pub open spec fn level_made(
        &self,
        parents: Seq<ArrayReference>,
        per_parent: nat,
        element: ArrayElement,
        length: int,
        upto: nat,
        after: &VirtualMachine,
        made: Seq<ArrayReference>,
        failed: Option<VmError>,
    ) -> bool
        decreases upto,
    {
        if upto == 0 {
            failed is None && *after == *self && made == Seq::<ArrayReference>::empty()
        } else {
            exists|middle: VirtualMachine, earlier: Option<VmError>, so_far: Seq<ArrayReference>|
                #![trigger VirtualMachine::level_ended(middle, earlier, so_far, parents, per_parent, element, length, upto, after, made, failed)]
                self.level_made(
                    parents,
                    per_parent,
                    element,
                    length,
                    (upto - 1) as nat,
                    &middle,
                    so_far,
                    earlier,
                ) && VirtualMachine::level_ended(
                    middle,
                    earlier,
                    so_far,
                    parents,
                    per_parent,
                    element,
                    length,
                    upto,
                    after,
                    made,
                    failed,
                )
        }
    }

    /// Filling that has failed stays failed however many arrays were to
    /// be filled.
    pub proof fn lemma_level_failed(
        &self,
        parents: Seq<ArrayReference>,
        per_parent: nat,
        element: ArrayElement,
        length: int,
        upto: nat,
        more: nat,
        after: &VirtualMachine,
        made: Seq<ArrayReference>,
        e: VmError,
    )
        requires
            self.level_made(parents, per_parent, element, length, upto, after, made, Some(e)),
            upto <= more,
        ensures
            self.level_made(parents, per_parent, element, length, more, after, made, Some(e)),
        decreases more - upto,
    {
        if upto < more {
            let next = (upto + 1) as nat;
            assert(VirtualMachine::level_ended(
                *after,
                Some(e),
                made,
                parents,
                per_parent,
                element,
                length,
                next,
                after,
                made,
                Some(e),
            ));
            assert(self.level_made(parents, per_parent, element, length, next, after, made, Some(e)));
            self.lemma_level_failed(parents, per_parent, element, length, next, more, after, made, e);
        }
    }

    /// How making nested arrays goes on once all but the last of
    /// `depth` dimensions below the first are made, which left the
    /// arrays `parents` of the dimension before: a failure ends the
    /// making; else these arrays are filled, as `level_made` says.
    pub open spec fn nested_ended(
        middle: VirtualMachine,
        earlier: Option<VmError>,
        parents: Seq<ArrayReference>,
        types: Seq<ArrayElement>,
        counts: Seq<usize>,
        depth: nat,
        after: &VirtualMachine,
        level: Seq<ArrayReference>,
        failed: Option<VmError>,
    ) -> bool {
        match earlier {
            Some(e) => failed == Some(e) && *after == middle,
            None => middle.level_made(
                parents,
                counts[depth - 1] as nat,
                types[depth as int],
                counts[depth as int] as int,
                parents.len(),
                after,
                level,
                failed,
            ),
        }
    }

    /// Whether the machine `after`, the arrays `level` and `failed` are
    /// what making the arrays of `depth` dimensions below the array
    /// `outer` comes to, where `types[k]` is the element type and
    /// `counts[k]` the length of the arrays of dimension `k`. The
    /// dimensions are made one after the other: the arrays of a
    /// dimension are the elements of the arrays of the dimension
    /// before, made as `level_made` says. `level` is the arrays of the
    /// last dimension that is made. The first failure ends the making.
    pub open spec fn nested_made(
        &self,
        outer: ArrayReference,
        types: Seq<ArrayElement>,
        counts: Seq<usize>,
        depth: nat,
        after: &VirtualMachine,
        level: Seq<ArrayReference>,
        failed: Option<VmError>,
    ) -> bool
        decreases depth,
    {
        if depth == 0 {
            failed is None && *after == *self && level == seq![outer]
        } else {
            exists|middle: VirtualMachine, earlier: Option<VmError>, parents: Seq<ArrayReference>|
                #![trigger VirtualMachine::nested_ended(middle, earlier, parents, types, counts, depth, after, level, failed)]
                self.nested_made(
                    outer,
                    types,
                    counts,
                    (depth - 1) as nat,
                    &middle,
                    parents,
                    earlier,
                ) && VirtualMachine::nested_ended(
                    middle,
                    earlier,
                    parents,
                    types,
                    counts,
                    depth,
                    after,
                    level,
                    failed,
                )
        }
    }

    /// Making nested arrays that has failed stays failed however many
    /// dimensions were to be made.
    pub proof fn lemma_nested_failed(
        &self,
        outer: ArrayReference,
        types: Seq<ArrayElement>,
        counts: Seq<usize>,
        depth: nat,
        more: nat,
        after: &VirtualMachine,
        level: Seq<ArrayReference>,
        e: VmError,
    )
        requires
            self.nested_made(outer, types, counts, depth, after, level, Some(e)),
            depth <= more,
        ensures
            self.nested_made(outer, types, counts, more, after, level, Some(e)),
        decreases more - depth,
    {
        if depth < more {
            let next = (depth + 1) as nat;
            assert(VirtualMachine::nested_ended(
                *after,
                Some(e),
                level,
                types,
                counts,
                next,
                after,
                level,
                Some(e),
            ));
            assert(self.nested_made(outer, types, counts, next, after, level, Some(e)));
            self.lemma_nested_failed(outer, types, counts, next, more, after, level, e);
        }
    }

    /// What holds of allocating nested arrays on a machine holds of it
    /// on a machine with the same classes, heaps and static area.
    pub proof fn lemma_nested_allocated_same(
        &self,
        other: &VirtualMachine,
        types: Seq<ArrayElement>,
        counts: Seq<usize>,
        after: &VirtualMachine,
        r: VmExecResult<ArrayReference>,
    )
        requires
            self.unchanged(other),
            other.nested_allocated(types, counts, after, r),
        ensures
            self.nested_allocated(types, counts, after, r),
    {
        let outer = ArrayReference { address: self.next_address() };
        let depth = (counts.len() - 1) as nat;
        if self.object_heap.array_fits(types[0], counts[0] as int) {
            let (middle, level, failed) = choose|
                middle: VirtualMachine,
                level: Seq<ArrayReference>,
                failed: Option<VmError>,
            |
                #![trigger middle.nested_made(outer, types, counts, depth, after, level, failed)]
                other.array_allocated(types[0], counts[0] as int, &middle) && other.advances(
                    &middle,
                ) && middle.nested_made(outer, types, counts, depth, after, level, failed) && (
                match failed {
                    None => r == Ok::<_, VmError>(outer),
                    Some(e) => r == Err::<ArrayReference, _>(e),
                });
            assert(self.array_allocated(types[0], counts[0] as int, &middle));
            assert(self.advances(&middle));
            assert(middle.nested_made(outer, types, counts, depth, after, level, failed));
        }
    }

    /// Whether `r` and the machine `after` are what allocating the
    /// arrays of a `multianewarray` comes to. The array of the first
    /// dimension is allocated first, behind everything else on the
    /// heap; a full heap gives `OutOfMemory`, and then nothing is
    /// allocated. Then the arrays of the other dimensions are made, as
    /// `nested_made` says. The result is a reference to the array of
    /// the first dimension, or the first failure.
    pub open spec fn nested_allocated(
        &self,
        types: Seq<ArrayElement>,
        counts: Seq<usize>,
        after: &VirtualMachine,
        r: VmExecResult<ArrayReference>,
    ) -> bool {
        let outer = ArrayReference { address: self.next_address() };
        let depth = (counts.len() - 1) as nat;
        if self.object_heap.array_fits(types[0], counts[0] as int) {
            exists|middle: VirtualMachine, level: Seq<ArrayReference>, failed: Option<VmError>|
                #![trigger middle.nested_made(outer, types, counts, depth, after, level, failed)]
                self.array_allocated(types[0], counts[0] as int, &middle) && self.advances(&middle)
                    && middle.nested_made(outer, types, counts, depth, after, level, failed) && (
                match failed {
                    None => r == Ok::<_, VmError>(outer),
                    Some(e) => r == Err::<ArrayReference, _>(e),
                })
        } else {
            fails(r, VmError::OutOfMemory) && self.nothing_allocated(after)
        }
    }

    /// Makes one element of the array `parent`: an array of `length`
    /// elements of the type `element`.
    fn make_child(
        &mut self,
        parent: &ArrayReference,
        index: usize,
        element: &ArrayElement,
        length: usize,
    ) -> (r: VmExecResult<ArrayReference>)
        requires
            old(self).wf(),
        ensures
            old(self).advances(final(self)),
            final(self).method_area == old(self).method_area,
            old(self).same_interned(final(self)),
            old(self).child_made(
                *parent,
                index as int,
                *element,
                length as int,
                final(self),
                match r {
                    Ok(_) => None,
                    Err(e) => Some(e),
                },
            ),
            r matches Ok(child) ==> child.address == old(self).next_address(),
    {
        let child = match self.new_array(element, length) {
            Ok(child) => child,
            Err(e) => {
                return Err(e);
            },
        };
        let ghost allocated = *self;
        let stored = self.array_set(parent, index, &Value::ArrayRef(child));
        proof {
            old(self).lemma_advances_transitive(&allocated, self);
            assert(old(self).array_allocated(*element, length as int, &allocated));
        }
        match stored {
            Ok(_) => Ok(child),
            Err(e) => Err(e),
        }
    }

    /// Allocates the arrays of a `multianewarray`: one array of the
    /// first length, whose elements are arrays of the second length,
    /// and so on, as `nested_allocated` says. `types[k]` is the element
    /// type of the arrays of dimension `k`. The array of the first
    /// dimension is allocated first.
    fn allocate_nested(&mut self, types: &Vec<ArrayElement>, counts: &Vec<usize>) -> (r:
        VmExecResult<ArrayReference>)
        requires
            old(self).wf(),
            types@.len() == counts@.len(),
            counts@.len() >= 1,
        ensures
            old(self).advances(final(self)),
            final(self).method_area == old(self).method_area,
            old(self).same_interned(final(self)),
            r matches Ok(array) ==> array.address == old(self).next_address(),
            old(self).nested_allocated(types@, counts@, final(self), r),
    {
        let outer = match self.new_array(&types[0], counts[0]) {
            Ok(outer) => outer,
            Err(e) => {
                return Err(e);
            },
        };
        let ghost base = *self;
        let ghost depth = (counts@.len() - 1) as nat;
        let mut level: Vec<ArrayReference> = Vec::new();
        level.push(outer);
        assert(level@ =~= seq![outer]);
        let mut k: usize = 1;
        while k < counts.len()
            invariant
                1 <= k <= counts.len(),
                types@.len() == counts@.len(),
                depth == counts@.len() - 1,
                self.wf(),
                old(self).advances(self),
                self.method_area == old(self).method_area,
                old(self).same_interned(self),
                outer.address == old(self).next_address(),
                old(self).object_heap.array_fits(types@[0], counts@[0] as int),
                old(self).array_allocated(types@[0], counts@[0] as int, &base),
                old(self).advances(&base),
                base.nested_made(outer, types@, counts@, (k - 1) as nat, self, level@, None),
            decreases counts.len() - k,
        {
            let ghost level_start = *self;
            let ghost made_levels = (k - 1) as nat;
            let ghost this_level = k as nat;
            let mut next: Vec<ArrayReference> = Vec::new();
            let mut j: usize = 0;
            while j < level.len()
                invariant
                    1 <= k < counts.len(),
                    types@.len() == counts@.len(),
                    depth == counts@.len() - 1,
                    made_levels == k - 1,
                    this_level == k,
                    j <= level.len(),
                    self.wf(),
                    old(self).advances(self),
                    self.method_area == old(self).method_area,
                    old(self).same_interned(self),
                    outer.address == old(self).next_address(),
                    old(self).object_heap.array_fits(types@[0], counts@[0] as int),
                    old(self).array_allocated(types@[0], counts@[0] as int, &base),
                    old(self).advances(&base),
                    base.nested_made(
                        outer,
                        types@,
                        counts@,
                        made_levels,
                        &level_start,
                        level@,
                        None,
                    ),
                    level_start.level_made(
                        level@,
                        counts@[k - 1] as nat,
                        types@[k as int],
                        counts@[k as int] as int,
                        j as nat,
                        self,
                        next@,
                        None,
                    ),
                decreases level.len() - j,
            {
                let parent = level[j];
                let ghost parent_start = *self;
                let ghost filled = next@;
                let ghost parents_done = j as nat;
                let ghost mut children: Seq<ArrayReference> = Seq::empty();
                let mut i: usize = 0;
                while i < counts[k - 1]
                    invariant
                        1 <= k < counts.len(),
                        types@.len() == counts@.len(),
                        depth == counts@.len() - 1,
                        made_levels == k - 1,
                        this_level == k,
                        j < level.len(),
                        parents_done == j,
                        parent == level@[j as int],
                        i <= counts@[k - 1],
                        self.wf(),
                        old(self).advances(self),
                        self.method_area == old(self).method_area,
                        old(self).same_interned(self),
                        outer.address == old(self).next_address(),
                        old(self).object_heap.array_fits(types@[0], counts@[0] as int),
                        old(self).array_allocated(types@[0], counts@[0] as int, &base),
                        old(self).advances(&base),
                        base.nested_made(
                            outer,
                            types@,
                            counts@,
                            made_levels,
                            &level_start,
                            level@,
                            None,
                        ),
                        level_start.level_made(
                            level@,
                            counts@[k - 1] as nat,
                            types@[k as int],
                            counts@[k as int] as int,
                            parents_done,
                            &parent_start,
                            filled,
                            None,
                        ),
                        next@ == filled + children,
                        parent_start.children_made(
                            parent,
                            types@[k as int],
                            counts@[k as int] as int,
                            i as nat,
                            self,
                            children,
                            None,
                        ),
                    decreases counts[k - 1] - i,
                {
                    let ghost before = *self;
                    let ghost so_far = children;
                    let ghost step = (i + 1) as nat;
                    let made = self.make_child(&parent, i, &types[k], counts[k]);
                    proof {
                        old(self).lemma_advances_transitive(&before, self);
                    }
                    let child = match made {
                        Ok(child) => child,
                        Err(e) => {
                            proof {
                                assert(VirtualMachine::children_ended(
                                    before,
                                    None,
                                    so_far,
                                    parent,
                                    types@[k as int],
                                    counts@[k as int] as int,
                                    step,
                                    self,
                                    so_far,
                                    Some(e),
                                ));
                                assert(parent_start.children_made(
                                    parent,
                                    types@[k as int],
                                    counts@[k as int] as int,
                                    step,
                                    self,
                                    so_far,
                                    Some(e),
                                ));
                                parent_start.lemma_children_failed(
                                    parent,
                                    types@[k as int],
                                    counts@[k as int] as int,
                                    step,
                                    counts@[k - 1] as nat,
                                    self,
                                    so_far,
                                    e,
                                );
                                let parents_next = (parents_done + 1) as nat;
                                assert(level@[parents_next - 1] == parent);
                                assert(parent_start.children_made(
                                    level@[parents_next - 1],
                                    types@[k as int],
                                    counts@[k as int] as int,
                                    counts@[k - 1] as nat,
                                    self,
                                    so_far,
                                    Some(e),
                                ));
                                assert(VirtualMachine::level_ended(
                                    parent_start,
                                    None,
                                    filled,
                                    level@,
                                    counts@[k - 1] as nat,
                                    types@[k as int],
                                    counts@[k as int] as int,
                                    parents_next,
                                    self,
                                    filled,
                                    Some(e),
                                ));
                                assert(level_start.level_made(
                                    level@,
                                    counts@[k - 1] as nat,
                                    types@[k as int],
                                    counts@[k as int] as int,
                                    parents_next,
                                    self,
                                    filled,
                                    Some(e),
                                ));
                                level_start.lemma_level_failed(
                                    level@,
                                    counts@[k - 1] as nat,
                                    types@[k as int],
                                    counts@[k as int] as int,
                                    parents_next,
                                    level@.len(),
                                    self,
                                    filled,
                                    e,
                                );
                                assert(VirtualMachine::nested_ended(
                                    level_start,
                                    None,
                                    level@,
                                    types@,
                                    counts@,
                                    this_level,
                                    self,
                                    filled,
                                    Some(e),
                                ));
                                assert(base.nested_made(
                                    outer,
                                    types@,
                                    counts@,
                                    this_level,
                                    self,
                                    filled,
                                    Some(e),
                                ));
                                base.lemma_nested_failed(
                                    outer,
                                    types@,
                                    counts@,
                                    this_level,
                                    depth,
                                    self,
                                    filled,
                                    e,
                                );
                                assert(outer == ArrayReference {
                                    address: old(self).next_address(),
                                });
                                assert(base.nested_made(
                                    outer,
                                    types@,
                                    counts@,
                                    depth,
                                    self,
                                    filled,
                                    Some(e),
                                ));
                                assert(depth == (counts@.len() - 1) as nat);
                                assert(old(self).object_heap.array_fits(
                                    types@[0],
                                    counts@[0] as int,
                                ));
                                assert(exists|
                                    middle: VirtualMachine,
                                    level: Seq<ArrayReference>,
                                    failed: Option<VmError>,
                                |
                                    #![trigger middle.nested_made(outer, types@, counts@, depth, self, level, failed)]
                                    old(self).array_allocated(
                                        types@[0],
                                        counts@[0] as int,
                                        &middle,
                                    ) && old(self).advances(&middle) && middle.nested_made(
                                        outer,
                                        types@,
                                        counts@,
                                        depth,
                                        self,
                                        level,
                                        failed,
                                    ) && (match failed {
                                        None => Err::<ArrayReference, VmError>(e) == Ok::<
                                            _,
                                            VmError,
                                        >(outer),
                                        Some(f) => Err::<ArrayReference, VmError>(e) == Err::<
                                            ArrayReference,
                                            _,
                                        >(f),
                                    }));
                                assert(old(self).nested_allocated(
                                    types@,
                                    counts@,
                                    self,
                                    Err(e),
                                ));
                            }
                            return Err(e);
                        },
                    };
                    next.push(child);
                    proof {
                        children = so_far.push(child);
                        assert(next@ =~= filled + children);
                        assert(VirtualMachine::children_ended(
                            before,
                            None,
                            so_far,
                            parent,
                            types@[k as int],
                            counts@[k as int] as int,
                            step,
                            self,
                            children,
                            None,
                        ));
                    }
                    i += 1;
                }
                proof {
                    let parents_next = (parents_done + 1) as nat;
                    assert(level@[parents_next - 1] == parent);
                    assert(parent_start.children_made(
                        level@[parents_next - 1],
                        types@[k as int],
                        counts@[k as int] as int,
                        counts@[k - 1] as nat,
                        self,
                        children,
                        None,
                    ));
                    assert(VirtualMachine::level_ended(
                        parent_start,
                        None,
                        filled,
                        level@,
                        counts@[k - 1] as nat,
                        types@[k as int],
                        counts@[k as int] as int,
                        parents_next,
                        self,
                        next@,
                        None,
                    ));
                }
                j += 1;
            }
            proof {
                assert(VirtualMachine::nested_ended(
                    level_start,
                    None,
                    level@,
                    types@,
                    counts@,
                    this_level,
                    self,
                    next@,
                    None,
                ));
            }
            level = next;
            k += 1;
        }
        Ok(outer)
    }

    /// What `multianewarray` does with the class reference at `index`
    /// where the class that the type rests on is initialized. It takes
    /// one length for each of `dimensions` dimensions off the stack,
    /// the length of the first dimension lowest. No dimension at all is
    /// refused with `ValueTypeMissMatch`. The lengths are looked at in
    /// order, as `lengths_fault` says. Where they are in order, the
    /// arrays are allocated, as `nested_allocated` says, with the
    /// element types that the name of the type gives and with these
    /// lengths, and a reference to the array of the first dimension is
    /// pushed.
    pub open spec fn multianewarray_done(
        &self,
        frame: StackFrame,
        index: u16,
        dimensions: u8,
        after: &VirtualMachine,
        after_frame: StackFrame,
        r: VmExecResult<Step>,
    ) -> bool {
        &&& r matches Ok(Step::Enter(entered)) ==> waits_for_class(frame, after_frame, entered)
        &&& match self.constant_of(frame, index) {
            Some(RuntimeConstantView::ClassReference(name)) => if dimensions == 0 {
                fails(r, VmError::ValueTypeMissMatch)
            } else {
                self.type_ready(name) ==> (if dimensions > frame.state().stack.len() {
                    fails(r, VmError::PopFromEmptyStack) && self.unchanged(after)
                } else {
                    let lengths = VirtualMachine::top_values(frame.state(), dimensions as int);
                    let state = VirtualMachine::below_top(frame.state(), dimensions as int);
                    match lengths_fault(self.method_area@, name, lengths, 0) {
                        Some(Err(e)) => fails(r, e) && self.unchanged(after),
                        Some(Ok(exception)) => (r matches Ok(Step::Raise(e)) && e == exception)
                            && after_frame.state() == state && self.unchanged(after),
                        None => exists|made: VmExecResult<ArrayReference>| #[trigger]
                            self.nested_allocated(
                                nested_types(self.method_area@, name, dimensions as nat),
                                nested_counts(lengths),
                                after,
                                made,
                            ) && (match made {
                                Ok(array) => goes_on_in(
                                    after_frame,
                                    state.push(Value::ArrayRef(array)),
                                    r,
                                ),
                                Err(e) => fails(r, e),
                            }),
                    }
                })
            },
            _ => r is Err,
        }
    }

    /// `multianewarray`: takes one length for each of `dimensions`
    /// dimensions from the stack and pushes an array of arrays with
    /// these lengths. A negative length raises
    /// `NegativeArraySizeException`.
    fn exec_multianewarray(&mut self, frame: &mut StackFrame, index: u16, dimensions: u8) -> (r:
        VmExecResult<Step>)
        requires
            old(self).wf(),
            old(frame).wf(),
        ensures
            old(self).advances(final(self)),
            final(frame).wf(),
            old(frame).same_invocation(final(frame)),
            r matches Ok(Step::Enter(entered)) ==> final(self).frame_fits(entered),
            old(self).multianewarray_done(
                *old(frame),
                index,
                dimensions,
                final(self),
                *final(frame),
                r,
            ),
    {
        let name = self.class_reference(frame, index)?;
        if dimensions == 0 {
            return Err(VmError::ValueTypeMissMatch);
        }
        if let Some(entered) = self.prepare_type(frame, name.as_str())? {
            return Ok(Step::Enter(entered));
        }
        let ghost prepared = *self;
        let lengths = frame.pop_n(dimensions as usize)?;
        let ghost popped = frame.state();
        assert(popped.stack =~= VirtualMachine::below_top(
            old(frame).state(),
            dimensions as int,
        ).stack);
        assert(popped == VirtualMachine::below_top(old(frame).state(), dimensions as int));
        let chars = chars_of(name.as_str());
        let mut types: Vec<ArrayElement> = Vec::new();
        let mut counts: Vec<usize> = Vec::new();
        let mut k: usize = 0;
        while k < lengths.len()
            invariant
                k <= lengths.len(),
                lengths@.len() == dimensions,
                types@.len() == k,
                counts@.len() == k,
                chars@ == name@,
                self.wf(),
                old(self).advances(self),
                *self == prepared,
                frame.wf(),
                old(frame).same_invocation(frame),
                frame.state() == popped,
                dimensions > 0,
                dimensions <= old(frame).state().stack.len(),
                old(self).constant_of(*old(frame), index) == Some(
                    RuntimeConstantView::ClassReference(name@),
                ),
                lengths@ == VirtualMachine::top_values(old(frame).state(), dimensions as int),
                popped == VirtualMachine::below_top(old(frame).state(), dimensions as int),
                old(self).type_ready(name@) ==> old(self).unchanged(&prepared),
                lengths_fault(self.method_area@, name@, lengths@, 0) == lengths_fault(
                    self.method_area@,
                    name@,
                    lengths@,
                    k as int,
                ),
                forall|j: int|
                    0 <= j < k ==> #[trigger] types@[j] == named_element(
                        self.method_area@,
                        name@,
                        j + 1,
                    )->0,
                forall|j: int| 0 <= j < k ==> #[trigger] counts@[j] == lengths@[j]->Int_0 as usize,
            decreases lengths.len() - k,
        {
            let count = lengths[k].get_int()?;
            if count < 0 {
                return Ok(Step::Raise(JavaException::NegativeArraySizeException));
            }
            match self.element_named(name.as_str(), &chars, k + 1) {
                Some(element) => types.push(element),
                None => {
                    return Err(VmError::ValueTypeMissMatch);
                },
            }
            counts.push(count as usize);
            k += 1;
        }
        proof {
            assert(types@ =~= nested_types(prepared.method_area@, name@, dimensions as nat));
            assert(counts@ =~= nested_counts(lengths@));
        }
        let made = self.allocate_nested(&types, &counts);
        proof {
            old(self).lemma_advances_transitive(&prepared, self);
            if old(self).type_ready(name@) {
                old(self).lemma_nested_allocated_same(&prepared, types@, counts@, self, made);
                assert(old(self).nested_allocated(
                    nested_types(old(self).method_area@, name@, dimensions as nat),
                    nested_counts(lengths@),
                    self,
                    made,
                ));
            }
        }
        match made {
            Err(e) => Err(e),
            Ok(array) => match frame.push(Value::ArrayRef(array)) {
                Err(e) => Err(e),
                Ok(_) => Ok(Step::Continue),
            },
        }
    }
}

impl VirtualMachine {
    /// The source line of the instruction that a frame executes, and 0
    /// where it is not known.
    pub fn get_line_number(&self, frame: &StackFrame) -> (r: u16)
        ensures
            self.frame_fits(*frame) ==> r == crate::runtime_attribute_info::line_for(
                self.method_area@[frame.class_ref as int].methods@[frame.method_ref as int].code->0@.line_numbers,
                frame.pc as u16,
                0,
                0,
            ),
            !(frame.class_ref < self.method_area@.len() && frame.method_ref
                < self.method_area@[frame.class_ref as int].methods@.len()) ==> r == 0,
    {
        match self.method_of_frame(frame) {
            Ok(method) => match &method.code {
                Some(code) => code.line_number_at(#[verifier::truncate] (frame.pc as u16)),
                None => 0,
            },
            Err(_) => 0,
        }
    }

    /// The source line of the instruction at which a frame that fits
    /// stands.
    pub open spec fn line_of(&self, frame: StackFrame) -> u16 {
        crate::runtime_attribute_info::line_for(
            self.method_area@[frame.class_ref as int].methods@[frame.method_ref as int].code->0@.line_numbers,
            frame.pc as u16,
            0,
            0,
        )
    }

    /// Whether `element` says where `frame` stands: its class, its
    /// method, the source file of the class and the line of the
    /// instruction.
    pub open spec fn stands_at(&self, frame: StackFrame, element: StackTraceElement) -> bool {
        let class = self.method_area@[frame.class_ref as int];
        &&& element.declaring_class@ == class.name@
        &&& element.method_name@ == class.methods@[frame.method_ref as int].name@
        &&& match class.source_file {
            Some(name) => element.file_name matches Some(file) && file@ == name@,
            None => element.file_name is None,
        }
        &&& element.line_number == self.line_of(frame)
    }

    /// Where a frame stands: its class, its method, the source file of
    /// the class and the line of the instruction. A frame of no method
    /// of the machine is refused with `ClassFormatError`.
    pub fn to_stack_trace(&self, frame: &StackFrame) -> (r: VmExecResult<StackTraceElement>)
        ensures
            self.frame_fits(*frame) ==> (r matches Ok(element) && self.stands_at(*frame, element)),
            !(frame.class_ref < self.method_area@.len() && frame.method_ref
                < self.method_area@[frame.class_ref as int].methods@.len()) ==> (r matches Err(e)
                && e == VmError::ClassFormatError),
    {
        let class = self.class_of_frame(frame)?;
        let method = self.method_of_frame(frame)?;
        let file_name = match &class.source_file {
            Some(name) => Some(name.clone()),
            None => None,
        };
        Ok(
            StackTraceElement {
                declaring_class: class.name.clone(),
                method_name: method.name.clone(),
                file_name,
                line_number: self.get_line_number(frame),
            },
        )
    }

    /// What the return of the frame `frame`, which was above the frames
    /// `before`, comes to. The frame of an initializer leaves its class
    /// `Initialized` and the frames as they are. Any other frame leaves
    /// the machine as it is: where the host started it the run ends
    /// with the value, and else the value, if there is one, goes on the
    /// operand stack of the frame below.
    pub open spec fn finished(
        &self,
        before: Seq<StackFrame>,
        frame: StackFrame,
        value: Option<Value>,
        after: &VirtualMachine,
        stack: &CallStack,
        r: VmExecResult<Progress>,
    ) -> bool {
        match frame.initializes {
            Some(class) => {
                &&& r == Ok::<_, VmError>(
                    if frame.host {
                        Progress::Returned(None)
                    } else {
                        Progress::Running
                    },
                )
                &&& stack.frames@ == before
                &&& after.object_heap == self.object_heap
                &&& after.static_area == self.static_area
                &&& after.method_area@ == (if class < self.method_area@.len() {
                    self.method_area@.update(
                        class as int,
                        Class { status: ClassStatus::Initialized, ..self.method_area@[class as int] },
                    )
                } else {
                    self.method_area@
                })
            },
            None => {
                &&& self.unchanged(after)
                &&& if frame.host {
                    r == Ok::<_, VmError>(Progress::Returned(value)) && stack.frames@ == before
                } else {
                    match value {
                        None => r == Ok::<_, VmError>(Progress::Running) && stack.frames@ == before,
                        Some(v) => if before.len() == 0 {
                            r == Err::<Progress, _>(VmError::PopFromEmptyStack)
                        } else {
                            match before.last().state().push(v) {
                                Ok(state) => {
                                    &&& r == Ok::<_, VmError>(Progress::Running)
                                    &&& stack.frames@.len() == before.len()
                                    &&& stack.frames@.drop_last() == before.drop_last()
                                    &&& stack.frames@.last().state() == state
                                    &&& before.last().same_invocation(&stack.frames@.last())
                                },
                                Err(e) => r == Err::<Progress, _>(e),
                            }
                        },
                    }
                }
            },
        }
    }

    /// A frame has returned: the class whose initializer it ran is
    /// `Initialized`; a frame that the host started ends the run; and
    /// the value of any other frame goes on the operand stack of the
    /// frame below.
    fn finish(&mut self, stack: &mut CallStack, frame: StackFrame, value: Option<Value>) -> (r:
        VmExecResult<Progress>)
        requires
            old(self).wf(),
            old(self).stack_fits(old(stack)),
            old(self).frame_fits(frame),
        ensures
            old(self).advances(final(self)),
            final(self).stack_fits(final(stack)),
            final(stack).frames@.len() <= old(stack).frames@.len(),
            old(self).finished(old(stack).frames@, frame, value, final(self), final(stack), r),
    {
        if let Some(class) = frame.initializes {
            if class < self.method_area.num_of_classes() {
                self.method_area.advance_status(class, ClassStatus::Initialized);
                assert(self.method_area@ =~= old(self).method_area@.update(
                    class as int,
                    Class {
                        status: ClassStatus::Initialized,
                        ..old(self).method_area@[class as int]
                    },
                ));
            }
            proof {
                old(self).lemma_stack_fits_preserved(self, stack);
            }
            return Ok(if frame.host {
                Progress::Returned(None)
            } else {
                Progress::Running
            });
        }
        if frame.host {
            return Ok(Progress::Returned(value));
        }
        if let Some(value) = value {
            let mut caller = match stack.pop_frame() {
                Some(caller) => caller,
                None => {
                    return Err(VmError::PopFromEmptyStack);
                },
            };
            let ghost below = stack.frames@;
            let pushed = caller.push(value);
            let back = stack.push_frame(caller);
            assert(stack.frames@.len() == old(stack).frames@.len());
            assert(stack.frames@.drop_last() =~= old(stack).frames@.drop_last());
            assert forall|i: int| 0 <= i < stack.frames@.len() implies self.frame_fits(
                #[trigger] stack.frames@[i],
            ) by {
                if i < below.len() {
                    assert(stack.frames@[i] == old(stack).frames@[i]);
                } else {
                    assert(self.frame_fits(old(stack).frames@[i]));
                }
            }
            pushed?;
        }
        Ok(Progress::Running)
    }

    /// The handler in the method of `frame` for an exception of the
    /// class `thrown` that was thrown where the frame stands.
    pub open spec fn handler_of(&self, frame: StackFrame, thrown: int) -> Option<u16> {
        if frame.class_ref < self.method_area@.len() && frame.method_ref
            < self.method_area@[frame.class_ref as int].methods@.len() {
            match self.method_area@[frame.class_ref as int].methods@[frame.method_ref as int].code {
                Some(code) => handler_at(
                    code@.exception_table,
                    frame.pc as int,
                    self.method_area@,
                    thrown,
                    0,
                ),
                None => None,
            }
        } else {
            None
        }
    }

    /// Where the search for a handler ends. The frame `current` is
    /// asked first and then the frames `below`, the last one first, down
    /// to the first frame that the host started. The result is the
    /// frames that are left below the frame at which the search ends,
    /// and the frame that has a handler with the position of the
    /// handler, if there is one.
    pub open spec fn unwound(&self, below: Seq<StackFrame>, current: StackFrame, thrown: int) -> (
        Seq<StackFrame>,
        Option<(StackFrame, u16)>,
    )
        decreases below.len(),
    {
        match self.handler_of(current, thrown) {
            Some(handler_pc) => (below, Some((current, handler_pc))),
            None => if current.host || below.len() == 0 {
                (below, None)
            } else {
                self.unwound(below.drop_last(), below.last(), thrown)
            },
        }
    }

    /// The frames that a search which finds no handler has asked, the
    /// one that threw first.
    pub open spec fn passed(&self, below: Seq<StackFrame>, current: StackFrame, thrown: int) -> Seq<
        StackFrame,
    >
        decreases below.len(),
    {
        if self.handler_of(current, thrown) is Some || current.host || below.len() == 0 {
            seq![current]
        } else {
            seq![current] + self.passed(below.drop_last(), below.last(), thrown)
        }
    }

    /// Whether `after` is the frame `catcher` as it goes on at the
    /// handler at `handler_pc`: the thrown object is its only operand,
    /// its local variables are as they were, and it waits for nothing.
    pub open spec fn catches(
        catcher: StackFrame,
        after: StackFrame,
        exception: ObjectReference,
        handler_pc: u16,
    ) -> bool {
        &&& after.class_ref == catcher.class_ref
        &&& after.method_ref == catcher.method_ref
        &&& after.initializes == catcher.initializes
        &&& after.host == catcher.host
        &&& after.pending is Nothing
        &&& after.state() == (FrameState {
            stack: seq![Value::ObjectRef(exception)],
            next_pc: handler_pc as int,
            ..catcher.state()
        })
    }

    /// Whether `trace` says where each of `frames` stands.
    pub open spec fn traces(&self, frames: Seq<StackFrame>, trace: Seq<StackTraceElement>) -> bool {
        &&& trace.len() == frames.len()
        &&& forall|i: int| 0 <= i < frames.len() ==> self.stands_at(frames[i], #[trigger] trace[i])
    }

    /// What throwing `exception`, an object of the class `thrown`, in
    /// the frame `frame` above the frames `before` comes to. The first
    /// frame with a handler goes on at the handler, above the frames
    /// that were below it; a frame whose operand stack holds nothing is
    /// refused with `StackOverFlow`. Where no frame down to one that the
    /// host started has a handler, the run ends with the exception, the
    /// frames that were asked are gone, and the trace says where they
    /// stood.
    pub open spec fn thrown_in(
        &self,
        before: Seq<StackFrame>,
        frame: StackFrame,
        exception: ObjectReference,
        thrown: int,
        after: &CallStack,
        r: VmExecResult<Progress>,
    ) -> bool {
        let (rest, caught) = self.unwound(before, frame, thrown);
        match caught {
            Some((catcher, handler_pc)) => if catcher.op_stack.capacity() == 0 {
                r == Err::<Progress, _>(VmError::StackOverFlow)
            } else {
                &&& r == Ok::<_, VmError>(Progress::Running)
                &&& after.frames@.len() == rest.len() + 1
                &&& after.frames@.drop_last() == rest
                &&& VirtualMachine::catches(catcher, after.frames@.last(), exception, handler_pc)
            },
            None => {
                &&& r == Ok::<_, VmError>(Progress::Thrown(exception))
                &&& after.frames@ == rest
                &&& self.traces(self.passed(before, frame, thrown), after.trace@)
            },
        }
    }

    /// An object was thrown in a frame. The frames are searched from
    /// that one down for a handler; the first frame with a handler gets
    /// the object as its only operand and goes on at the handler. The
    /// frames above it are gone. Where no frame down to one that the
    /// host started has a handler, the run ends, and the trace of the
    /// call stack is where the frames stood. What is thrown must be an
    /// object on a heap, else the result is `IndexOutOfBounds`.
    fn throw_object(&mut self, stack: &mut CallStack, frame: StackFrame, exception: ObjectReference) -> (r:
        VmExecResult<Progress>)
        requires
            old(self).wf(),
            old(self).stack_fits(old(stack)),
            old(self).frame_fits(frame),
            old(stack).frames@.len() < crate::stack::MAX_STACK_DEPTH,
        ensures
            old(self).unchanged(final(self)),
            *final(self) == *old(self),
            final(self).wf(),
            final(self).stack_fits(final(stack)),
            final(stack).frames@.len() <= old(stack).frames@.len() + 1,
            match old(self).heap_of(exception.address).class_word(exception) {
                None => r == Err::<Progress, _>(VmError::IndexOutOfBounds),
                Some(thrown) => old(self).thrown_in(
                    old(stack).frames@,
                    frame,
                    exception,
                    thrown as int,
                    final(stack),
                    r,
                ),
            },
    {
        let thrown_class = self.get_class_of(&exception)?;
        let ghost thrown = thrown_class as int;
        let mut trace: Vec<StackTraceElement> = Vec::new();
        let ghost mut asked: Seq<StackFrame> = Seq::empty();
        let mut current = frame;
        loop
            invariant
                self.wf(),
                *self == *old(self),
                self.stack_fits(stack),
                self.frame_fits(current),
                stack.frames@.len() <= old(stack).frames@.len(),
                stack.frames@.len() < crate::stack::MAX_STACK_DEPTH,
                thrown == thrown_class,
                old(self).heap_of(exception.address).class_word(exception) matches Some(c) && c
                    == thrown,
                self.unwound(old(stack).frames@, frame, thrown) == self.unwound(
                    stack.frames@,
                    current,
                    thrown,
                ),
                self.unwound(old(stack).frames@, frame, thrown).1 is None ==> self.passed(
                    old(stack).frames@,
                    frame,
                    thrown,
                ) == asked + self.passed(stack.frames@, current, thrown),
                self.traces(asked, trace@),
            decreases stack.frames@.len(),
        {
            let method = self.method_of_frame(&current)?;
            let handler = match &method.code {
                Some(code) => self.find_handler(&code.exception_table, current.pc, thrown_class),
                None => None,
            };
            assert(handler == self.handler_of(current, thrown));
            if let Some(handler_pc) = handler {
                let ghost rest = stack.frames@;
                current.op_stack.clear();
                let pushed = current.push(Value::ObjectRef(exception));
                current.next_pc = handler_pc as usize;
                current.pending = Pending::Nothing;
                let back = stack.push_frame(current);
                assert(stack.frames@.drop_last() =~= rest);
                assert forall|i: int| 0 <= i < stack.frames@.len() implies self.frame_fits(
                    #[trigger] stack.frames@[i],
                ) by {
                    if i < rest.len() {
                        assert(stack.frames@[i] == rest[i]);
                    }
                }
                pushed?;
                return Ok(Progress::Running);
            }
            let element = self.to_stack_trace(&current)?;
            trace.push(element);
            proof {
                let ghost longer = asked.push(current);
                assert forall|i: int| 0 <= i < longer.len() implies self.stands_at(
                    longer[i],
                    #[trigger] trace@[i],
                ) by {
                    if i < asked.len() {
                        assert(longer[i] == asked[i]);
                    }
                }
                if !current.host && stack.frames@.len() > 0 {
                    assert(asked + (seq![current] + self.passed(
                        stack.frames@.drop_last(),
                        stack.frames@.last(),
                        thrown,
                    )) =~= longer + self.passed(
                        stack.frames@.drop_last(),
                        stack.frames@.last(),
                        thrown,
                    ));
                } else {
                    assert(asked + seq![current] =~= longer);
                }
                asked = longer;
            }
            if current.host {
                stack.trace = trace;
                return Ok(Progress::Thrown(exception));
            }
            match stack.pop_frame() {
                Some(below) => {
                    assert forall|i: int| 0 <= i < stack.frames@.len() implies self.frame_fits(
                        #[trigger] stack.frames@[i],
                    ) by {
                    }
                    current = below;
                },
                None => {
                    stack.trace = trace;
                    return Ok(Progress::Thrown(exception));
                },
            }
        }
    }

    /// What raising `exception` in the frame `frame` above the frames
    /// `before` comes to where the class of the exception is
    /// initialized: an object of the class is allocated, and thrown in
    /// the frame, which waits for nothing any more. A full heap gives
    /// `OutOfMemory`.
    pub open spec fn raised_in(
        &self,
        before: Seq<StackFrame>,
        frame: StackFrame,
        class: ClassRef,
        after: &VirtualMachine,
        stack: &CallStack,
        r: VmExecResult<Progress>,
    ) -> bool {
        let slots = self.method_area@[class as int].total_num_of_fields;
        if self.object_heap.object_fits(slots as int) {
            let object = ObjectReference {
                address: (8 * self.object_heap.words().len() + 8) as u64,
            };
            &&& after.method_area@ == self.method_area@
            &&& after.static_area == self.static_area
            &&& after.object_heap.words() == self.object_heap.words() + seq![
                crate::jvm_values::header_word(
                    crate::jvm_values::ReferenceValueType::Object,
                    16 + 8 * slots,
                ),
                class as u64,
            ] + crate::object_heap::zeros(slots as int)
            &&& after.thrown_in(
                before,
                StackFrame { pending: Pending::Nothing, ..frame },
                object,
                class as int,
                stack,
                r,
            )
        } else {
            &&& r == Err::<Progress, _>(VmError::OutOfMemory)
            &&& after.method_area@ == self.method_area@
            &&& after.static_area == self.static_area
            &&& after.object_heap.words() == self.object_heap.words()
        }
    }

    /// An instruction of a frame raises an exception: an object of the
    /// class of the exception is made and thrown. Where the class has
    /// to be initialized first, the frame waits for that.
    fn raise(&mut self, stack: &mut CallStack, frame: StackFrame, exception: JavaException) -> (r:
        VmExecResult<Progress>)
        requires
            old(self).wf(),
            old(self).stack_fits(old(stack)),
            old(self).frame_fits(frame),
            old(stack).frames@.len() < crate::stack::MAX_STACK_DEPTH,
        ensures
            old(self).advances(final(self)),
            final(self).stack_fits(final(stack)),
            final(stack).frames@.len() <= old(stack).frames@.len() + 2,
            old(self).ready(exception.class_name()) matches Some(class) ==> old(self).raised_in(
                old(stack).frames@,
                frame,
                class,
                final(self),
                final(stack),
                r,
            ),
    {
        let mut frame = frame;
        proof {
            crate::method_area::lemma_class_position(
                self.method_area@,
                canonical_name(exception.class_name()),
                0,
            );
        }
        match self.ensure_initialized(exception.name(), false) {
            Err(e) => {
                proof {
                    old(self).lemma_stack_fits_preserved(self, stack);
                    old(self).lemma_fits_preserved(self, frame);
                }
                let back = stack.push_frame(frame);
                Err(e)
            },
            Ok(Prepared::Started(initializer)) => {
                proof {
                    old(self).lemma_stack_fits_preserved(self, stack);
                    old(self).lemma_fits_preserved(self, frame);
                }
                frame.pending = Pending::Throw(exception);
                if stack.push_frame(frame).is_err() {
                    return Err(VmError::StackOverFlow);
                }
                if stack.push_frame(initializer).is_err() {
                    return Err(VmError::StackOverFlow);
                }
                Ok(Progress::Running)
            },
            Ok(Prepared::Ready(class)) => {
                let ghost prepared = *self;
                frame.pending = Pending::Nothing;
                let made = self.new_object(class);
                proof {
                    old(self).lemma_advances_transitive(&prepared, self);
                    old(self).lemma_stack_fits_preserved(self, stack);
                    old(self).lemma_fits_preserved(self, frame);
                }
                match made {
                    Err(e) => {
                        let back = stack.push_frame(frame);
                        Err(e)
                    },
                    Ok(object) => self.throw_object(stack, frame, object),
                }
            },
        }
    }

    /// How the call stack takes what the top frame has left to do, once
    /// the frame has advanced. `self` is the machine as the frame has
    /// left it, `below` the frames under the frame, `frame` the frame
    /// as it is now and `outcome` what it has left to do.
    ///
    /// After an error, and where the frame goes on, the frame is back
    /// on the stack. A frame that needs the host waits for it; the call
    /// of a native method of the host is put on the call stack for the
    /// host. A frame
    /// that was entered comes above the frame, unless the stack is
    /// full, which gives `StackOverFlow`. A return is taken as
    /// `finished` says, an exception that is raised as `raised_in` says
    /// where its class is initialized, and an object that is thrown as
    /// `thrown_in` says.
    pub open spec fn settled(
        &self,
        below: Seq<StackFrame>,
        frame: StackFrame,
        outcome: VmExecResult<Step>,
        after: &VirtualMachine,
        stack: &CallStack,
        r: VmExecResult<Progress>,
    ) -> bool {
        match outcome {
            Err(e) => fails(r, e) && *after == *self && stack.frames@ == below.push(frame),
            Ok(Step::Continue) => r == Ok::<_, VmError>(Progress::Running) && *after == *self
                && stack.frames@ == below.push(frame),
            Ok(Step::NeedFloat(request)) => r == Ok::<_, VmError>(Progress::NeedFloat(request))
                && *after == *self && stack.frames@ == below.push(
                StackFrame { pending: Pending::Float(request), ..frame },
            ),
            Ok(Step::NeedHost(call)) => r == Ok::<_, VmError>(Progress::NeedHost(call.id)) && *after
                == *self && stack.frames@ == below.push(
                StackFrame { pending: Pending::Host(call.id), ..frame },
            ) && stack.host_call == Some(call),
            Ok(Step::AwaitHost(id)) => r == Ok::<_, VmError>(Progress::NeedHost(id)) && *after
                == *self && stack.frames@ == below.push(frame),
            Ok(Step::Enter(entered)) => *after == *self && (if below.len() + 1
                >= crate::stack::MAX_STACK_DEPTH {
                fails(r, VmError::StackOverFlow) && stack.frames@ == below.push(frame)
            } else {
                r == Ok::<_, VmError>(Progress::Running) && stack.frames@ == below.push(
                    frame,
                ).push(entered)
            }),
            Ok(Step::Return(value)) => self.finished(below, frame, value, after, stack, r),
            Ok(Step::Raise(exception)) => self.ready(exception.class_name()) matches Some(class)
                ==> self.raised_in(below, frame, class, after, stack, r),
            Ok(Step::Throw(object)) => *after == *self && (match self.heap_of(
                object.address,
            ).class_word(object) {
                None => fails(r, VmError::IndexOutOfBounds),
                Some(thrown) => self.thrown_in(below, frame, object, thrown as int, stack, r),
            }),
        }
    }

    /// Whether a step has taken the machine and a call stack with the
    /// frame `top` above the frames `below` to the machine `after`, the
    /// call stack `stack` and the result `r`: the frame advances, as
    /// `advanced` says, and the call stack takes what that leaves to
    /// do, as `settled` says.
    pub open spec fn stepped_from(
        &self,
        below: Seq<StackFrame>,
        top: StackFrame,
        after: &VirtualMachine,
        stack: &CallStack,
        r: VmExecResult<Progress>,
    ) -> bool {
        exists|middle: VirtualMachine, frame: StackFrame, outcome: VmExecResult<Step>|
            #![trigger self.advanced(top, &middle, frame, outcome)]
            self.advanced(top, &middle, frame, outcome) && middle.settled(
                below,
                frame,
                outcome,
                after,
                stack,
                r,
            )
    }

    /// One step of the machine: the top frame of the call stack executes
    /// one instruction, and the call stack takes what that leaves to
    /// do, as `stepped_from` says.
    ///
    /// Every frame stays within the limits of its method. On an empty
    /// call stack nothing happens. A frame that waits for the host says
    /// so again. An instruction that touches nothing but the frame and
    /// goes on does to the top frame what `local_step` says and changes
    /// nothing else.
    #[verifier::spinoff_prover]
    #[verifier::rlimit(100)]
    pub fn step(&mut self, stack: &mut CallStack) -> (r: VmExecResult<Progress>)
        requires
            old(self).wf(),
            old(self).stack_fits(old(stack)),
        ensures
            old(self).advances(final(self)),
            final(self).stack_fits(final(stack)),
            old(stack).frames@.len() == 0 ==> r == Ok::<_, VmError>(Progress::Idle) && old(self).unchanged(final(self)) && final(stack).frames@ == old(stack).frames@,
            old(stack).frames@.len() > 0 ==> old(self).stepped_from(
                old(stack).frames@.drop_last(),
                old(stack).frames@.last(),
                final(self),
                final(stack),
                r,
            ),
            old(stack).frames@.len() > 0 ==> ({
                let top = old(stack).frames@.last();
                &&& top.pending matches Pending::Float(request) ==> r == Ok::<_, VmError>(
                    Progress::NeedFloat(request),
                ) && final(stack).frames@ == old(stack).frames@ && old(self).unchanged(final(self))
                &&& old(self).local_effect(top) matches Some(
                    Ok((InstructionResult::ContinueMethodExecution, state)),
                ) ==> r == Ok::<_, VmError>(Progress::Running) && old(self).unchanged(final(self))
                    && final(stack).frames@.len() == old(stack).frames@.len() && final(stack).frames@.drop_last() == old(stack).frames@.drop_last() && final(stack).frames@.last().state() == state && top.same_invocation_but_pc(
                    final(stack).frames@.last(),
                )
                &&& old(self).local_effect(top) matches Some(Err(e)) ==> (r matches Err(f) && f == e)
                    && final(stack).frames@.len() == old(stack).frames@.len()
                &&& old(self).local_effect(top) matches Some(
                    Ok((InstructionResult::NeedFloat(request), state)),
                ) ==> r == Ok::<_, VmError>(Progress::NeedFloat(request)) && final(stack).frames@.len() == old(stack).frames@.len() && final(stack).frames@.last().state()
                    == state && final(stack).frames@.last().pending == Pending::Float(request)
                &&& old(self).local_effect(top) matches Some(
                    Ok((InstructionResult::ReturnFromMethod(value), state)),
                ) ==> old(self).finished(
                    old(stack).frames@.drop_last(),
                    top,
                    value,
                    final(self),
                    final(stack),
                    r,
                )
                &&& old(self).local_effect(top) matches Some(
                    Ok((InstructionResult::Raise(exception), state)),
                ) ==> (old(self).ready(exception.class_name()) matches Some(class) ==> exists|
                    thrower: StackFrame,
                |
                    thrower.state() == state && top.same_invocation_but_pc(thrower)
                        && #[trigger] old(self).raised_in(
                        old(stack).frames@.drop_last(),
                        thrower,
                        class,
                        final(self),
                        final(stack),
                        r,
                    ))
            }),
    {
        let mut frame = match stack.pop_frame() {
            Some(frame) => frame,
            None => {
                return Ok(Progress::Idle);
            },
        };
        let ghost below = stack.frames@;
        let ghost top = frame;
        assert(old(self).stack_fits(stack)) by {
            assert forall|i: int| 0 <= i < stack.frames@.len() implies old(self).frame_fits(
                #[trigger] stack.frames@[i],
            ) by {
                assert(stack.frames@[i] == old(stack).frames@[i]);
            }
        }
        assert(old(self).frame_fits(frame));
        let outcome = self.advance(&mut frame);
        let ghost middle = *self;
        let ghost moved = frame;
        let ghost left = outcome;
        proof {
            old(self).lemma_stack_fits_preserved(self, stack);
            old(self).lemma_fits_preserved(self, top);
            assert(self.frame_fits(frame));
            assert(below =~= old(stack).frames@.drop_last());
            assert(old(self).advanced(top, &middle, moved, left));
        }
        match outcome {
            Err(e) => {
                let back = stack.push_frame(frame);
                assert(middle.settled(below, moved, left, self, stack, Err(e)));
                Err(e)
            },
            Ok(Step::Continue) => {
                let back = stack.push_frame(frame);
                assert(stack.frames@.drop_last() =~= below);
                assert(middle.settled(below, moved, left, self, stack, Ok(Progress::Running)));
                Ok(Progress::Running)
            },
            Ok(Step::NeedFloat(request)) => {
                frame.pending = Pending::Float(request);
                let back = stack.push_frame(frame);
                assert(old(stack).frames@ =~= below.push(top));
                assert(middle.settled(
                    below,
                    moved,
                    left,
                    self,
                    stack,
                    Ok(Progress::NeedFloat(request)),
                ));
                Ok(Progress::NeedFloat(request))
            },
            Ok(Step::NeedHost(call)) => {
                let id = call.id;
                frame.pending = Pending::Host(id);
                let ghost waiting = frame;
                stack.host_call = Some(call);
                let back = stack.push_frame(frame);
                assert(stack.frames@ =~= below.push(waiting));
                assert(middle.settled(
                    below,
                    moved,
                    left,
                    self,
                    stack,
                    Ok(Progress::NeedHost(id)),
                ));
                Ok(Progress::NeedHost(id))
            },
            Ok(Step::AwaitHost(id)) => {
                let back = stack.push_frame(frame);
                assert(middle.settled(
                    below,
                    moved,
                    left,
                    self,
                    stack,
                    Ok(Progress::NeedHost(id)),
                ));
                Ok(Progress::NeedHost(id))
            },
            Ok(Step::Enter(entered)) => {
                if stack.push_frame(frame).is_err() {
                    return Err(VmError::StackOverFlow);
                }
                if stack.push_frame(entered).is_err() {
                    assert(middle.settled(
                        below,
                        moved,
                        left,
                        self,
                        stack,
                        Err(VmError::StackOverFlow),
                    ));
                    return Err(VmError::StackOverFlow);
                }
                assert(middle.settled(below, moved, left, self, stack, Ok(Progress::Running)));
                Ok(Progress::Running)
            },
            Ok(Step::Return(value)) => {
                let r = self.finish(stack, frame, value);
                proof {
                    old(self).lemma_advances_transitive(&middle, self);
                    assert(middle.settled(below, moved, left, self, stack, r));
                }
                r
            },
            Ok(Step::Raise(exception)) => {
                let ghost thrower = frame;
                let r = self.raise(stack, frame, exception);
                proof {
                    old(self).lemma_advances_transitive(&middle, self);
                    assert(middle.settled(below, moved, left, self, stack, r));
                    if old(self).local_effect(top) is Some {
                        assert(old(self).unchanged(&middle));
                        assert(middle.ready(exception.class_name()) == old(self).ready(
                            exception.class_name(),
                        ));
                        if old(self).ready(exception.class_name()) is Some {
                            let class = old(self).ready(exception.class_name())->0;
                            assert(old(self).raised_in(
                                old(stack).frames@.drop_last(),
                                thrower,
                                class,
                                self,
                                stack,
                                r,
                            ));
                        }
                    }
                }
                r
            },
            Ok(Step::Throw(object)) => {
                let r = self.throw_object(stack, frame, object);
                assert(middle.settled(below, moved, left, self, stack, r));
                r
            },
        }
    }

    /// Hands the answer of the host to the frame that waits for it: the
    /// value that the answer stands for is pushed, and the frame goes
    /// on. Without a frame that waits the result is `ValueTypeMissMatch`.
    pub fn provide_float(&self, stack: &mut CallStack, answer: u64) -> (r: VmExecResult<()>)
        requires
            self.stack_fits(old(stack)),
        ensures
            self.stack_fits(final(stack)),
            final(stack).frames@.len() == old(stack).frames@.len(),
            final(stack).trace == old(stack).trace,
            match (if old(stack).frames@.len() > 0 {
                old(stack).frames@.last().pending
            } else {
                Pending::Nothing
            }) {
                Pending::Float(request) => match old(stack).frames@.last().state().push(
                    crate::stack_frame::answer_value(request.op, answer),
                ) {
                    Ok(state) => r is Ok && final(stack).frames@.drop_last() == old(stack).frames@.drop_last() && final(stack).frames@.last().state() == state && final(stack).frames@.last().pending is Nothing,
                    Err(e) => r matches Err(f) && f == e,
                },
                _ => r == Err::<(), _>(VmError::ValueTypeMissMatch) && final(stack).frames@ == old(stack).frames@,
            },
    {
        let depth = stack.frames.len();
        if depth == 0 {
            return Err(VmError::ValueTypeMissMatch);
        }
        let request = match stack.frames[depth - 1].pending {
            Pending::Float(request) => request,
            _ => {
                return Err(VmError::ValueTypeMissMatch);
            },
        };
        let mut frame = match stack.pop_frame() {
            Some(frame) => frame,
            None => {
                return Err(VmError::ValueTypeMissMatch);
            },
        };
        let ghost below = stack.frames@;
        assert(self.frame_fits(frame));
        let value = crate::stack_frame::value_of_answer(request.op, answer);
        let pushed = frame.push(value);
        if pushed.is_ok() {
            frame.pending = Pending::Nothing;
        }
        let back = stack.push_frame(frame);
        assert(stack.frames@.drop_last() =~= below);
        assert(below =~= old(stack).frames@.drop_last());
        assert forall|i: int| 0 <= i < stack.frames@.len() implies self.frame_fits(
            #[trigger] stack.frames@[i],
        ) by {
            if i < below.len() {
                assert(stack.frames@[i] == old(stack).frames@[i]);
            }
        }
        pushed
    }

    /// Hands the result of a native method of the host to the frame
    /// that waits for it: the value, where the method has returned one,
    /// is pushed, and the frame goes on. Without a frame that waits for
    /// the host the result is `ValueTypeMissMatch`.
    pub fn provide_native(&self, stack: &mut CallStack, value: Option<Value>) -> (r: VmExecResult<
        (),
    >)
        requires
            self.stack_fits(old(stack)),
        ensures
            self.stack_fits(final(stack)),
            final(stack).frames@.len() == old(stack).frames@.len(),
            final(stack).trace == old(stack).trace,
            match (if old(stack).frames@.len() > 0 {
                old(stack).frames@.last().pending
            } else {
                Pending::Nothing
            }) {
                Pending::Host(_) => match (match value {
                    Some(v) => old(stack).frames@.last().state().push(v),
                    None => Ok(old(stack).frames@.last().state()),
                }) {
                    Ok(state) => r is Ok && final(stack).frames@.drop_last() == old(stack).frames@.drop_last() && final(stack).frames@.last().state() == state && final(stack).frames@.last().pending is Nothing
                        && final(stack).host_call is None,
                    Err(e) => r matches Err(f) && f == e,
                },
                _ => r == Err::<(), _>(VmError::ValueTypeMissMatch) && final(stack).frames@ == old(stack).frames@,
            },
    {
        let depth = stack.frames.len();
        if depth == 0 {
            return Err(VmError::ValueTypeMissMatch);
        }
        match stack.frames[depth - 1].pending {
            Pending::Host(_) => {},
            _ => {
                return Err(VmError::ValueTypeMissMatch);
            },
        }
        let mut frame = match stack.pop_frame() {
            Some(frame) => frame,
            None => {
                return Err(VmError::ValueTypeMissMatch);
            },
        };
        let ghost below = stack.frames@;
        assert(self.frame_fits(frame));
        let pushed = match value {
            Some(v) => frame.push(v),
            None => Ok(()),
        };
        if pushed.is_ok() {
            frame.pending = Pending::Nothing;
            stack.host_call = None;
        }
        let back = stack.push_frame(frame);
        assert(stack.frames@.drop_last() =~= below);
        assert(below =~= old(stack).frames@.drop_last());
        assert forall|i: int| 0 <= i < stack.frames@.len() implies self.frame_fits(
            #[trigger] stack.frames@[i],
        ) by {
            if i < below.len() {
                assert(stack.frames@[i] == old(stack).frames@[i]);
            }
        }
        pushed
    }

    /// Whether at most `max_steps` steps take the machine, with the
    /// frames `frames` on the call stack, to the machine `after`, the
    /// call stack `stack` and the result `r`. Without steps nothing
    /// happens and the result is `Running`. On an empty call stack the
    /// result is `Idle`. Else the machine takes a step, as
    /// `stepped_from` says; where the step leaves more to execute, the
    /// run goes on with one step less, and else it ends with what the
    /// step has come to.
    pub open spec fn ran(
        &self,
        frames: Seq<StackFrame>,
        max_steps: nat,
        after: &VirtualMachine,
        stack: &CallStack,
        r: VmExecResult<Progress>,
    ) -> bool
        decreases max_steps,
    {
        if max_steps == 0 {
            r == Ok::<_, VmError>(Progress::Running) && *after == *self && stack.frames@ == frames
        } else if frames.len() == 0 {
            r == Ok::<_, VmError>(Progress::Idle) && self.unchanged(after) && stack.frames@
                == frames
        } else {
            exists|middle: VirtualMachine, between: CallStack, progress: VmExecResult<Progress>|
                #![trigger self.stepped_from(frames.drop_last(), frames.last(), &middle, &between, progress)]
                self.stepped_from(frames.drop_last(), frames.last(), &middle, &between, progress)
                    && (match progress {
                    Ok(Progress::Running) => middle.ran(
                        between.frames@,
                        (max_steps - 1) as nat,
                        after,
                        stack,
                        r,
                    ),
                    _ => r == progress && *after == middle && *stack == between,
                })
        }
    }

    /// A run that has ended would have ended in the same way with more
    /// steps to take.
    pub proof fn lemma_ran_with_more_steps(
        &self,
        frames: Seq<StackFrame>,
        steps: nat,
        more: nat,
        after: &VirtualMachine,
        stack: &CallStack,
        r: VmExecResult<Progress>,
    )
        requires
            self.ran(frames, steps, after, stack, r),
            !(r matches Ok(Progress::Running)),
            steps <= more,
        ensures
            self.ran(frames, more, after, stack, r),
        decreases steps,
    {
        if steps > 0 && frames.len() > 0 {
            let (middle, between, progress) = choose|
                middle: VirtualMachine,
                between: CallStack,
                progress: VmExecResult<Progress>,
            |
                #![trigger self.stepped_from(frames.drop_last(), frames.last(), &middle, &between, progress)]
                self.stepped_from(frames.drop_last(), frames.last(), &middle, &between, progress)
                    && (match progress {
                    Ok(Progress::Running) => middle.ran(
                        between.frames@,
                        (steps - 1) as nat,
                        after,
                        stack,
                        r,
                    ),
                    _ => r == progress && *after == middle && *stack == between,
                });
            if progress matches Ok(Progress::Running) {
                middle.lemma_ran_with_more_steps(
                    between.frames@,
                    (steps - 1) as nat,
                    (more - 1) as nat,
                    after,
                    stack,
                    r,
                );
            }
            assert(self.stepped_from(
                frames.drop_last(),
                frames.last(),
                &middle,
                &between,
                progress,
            ));
        }
    }

    /// A run that has more to execute after `steps` steps, followed by
    /// one more step, is a run of one step more.
    pub proof fn lemma_ran_one_more_step(
        &self,
        frames: Seq<StackFrame>,
        steps: nat,
        reached: &VirtualMachine,
        reached_stack: &CallStack,
        after: &VirtualMachine,
        stack: &CallStack,
        r: VmExecResult<Progress>,
    )
        requires
            self.ran(frames, steps, reached, reached_stack, Ok(Progress::Running)),
            reached_stack.frames@.len() > 0,
            reached.stepped_from(
                reached_stack.frames@.drop_last(),
                reached_stack.frames@.last(),
                after,
                stack,
                r,
            ),
        ensures
            self.ran(frames, steps + 1, after, stack, r),
        decreases steps,
    {
        if steps == 0 {
            assert(self.stepped_from(frames.drop_last(), frames.last(), after, stack, r));
            if r matches Ok(Progress::Running) {
                assert(after.ran(stack.frames@, 0, after, stack, r));
            }
        } else if frames.len() > 0 {
            let (middle, between, progress) = choose|
                middle: VirtualMachine,
                between: CallStack,
                progress: VmExecResult<Progress>,
            |
                #![trigger self.stepped_from(frames.drop_last(), frames.last(), &middle, &between, progress)]
                self.stepped_from(frames.drop_last(), frames.last(), &middle, &between, progress)
                    && (match progress {
                    Ok(Progress::Running) => middle.ran(
                        between.frames@,
                        (steps - 1) as nat,
                        reached,
                        reached_stack,
                        Ok(Progress::Running),
                    ),
                    _ => Ok::<_, VmError>(Progress::Running) == progress && *reached == middle
                        && *reached_stack == between,
                });
            middle.lemma_ran_one_more_step(
                between.frames@,
                (steps - 1) as nat,
                reached,
                reached_stack,
                after,
                stack,
                r,
            );
            assert(self.stepped_from(
                frames.drop_last(),
                frames.last(),
                &middle,
                &between,
                progress,
            ));
        }
    }

    /// A run that has more to execute after `steps` steps, but no frame
    /// to execute it in, is idle after one more step.
    pub proof fn lemma_ran_idle(
        &self,
        frames: Seq<StackFrame>,
        steps: nat,
        reached: &VirtualMachine,
        reached_stack: &CallStack,
        after: &VirtualMachine,
        stack: &CallStack,
    )
        requires
            self.ran(frames, steps, reached, reached_stack, Ok(Progress::Running)),
            reached_stack.frames@.len() == 0,
            reached.unchanged(after),
            stack.frames@ == reached_stack.frames@,
        ensures
            self.ran(frames, steps + 1, after, stack, Ok(Progress::Idle)),
        decreases steps,
    {
        if steps > 0 && frames.len() > 0 {
            let (middle, between, progress) = choose|
                middle: VirtualMachine,
                between: CallStack,
                progress: VmExecResult<Progress>,
            |
                #![trigger self.stepped_from(frames.drop_last(), frames.last(), &middle, &between, progress)]
                self.stepped_from(frames.drop_last(), frames.last(), &middle, &between, progress)
                    && (match progress {
                    Ok(Progress::Running) => middle.ran(
                        between.frames@,
                        (steps - 1) as nat,
                        reached,
                        reached_stack,
                        Ok(Progress::Running),
                    ),
                    _ => Ok::<_, VmError>(Progress::Running) == progress && *reached == middle
                        && *reached_stack == between,
                });
            middle.lemma_ran_idle(
                between.frames@,
                (steps - 1) as nat,
                reached,
                reached_stack,
                after,
                stack,
            );
            assert(self.stepped_from(
                frames.drop_last(),
                frames.last(),
                &middle,
                &between,
                progress,
            ));
        }
    }

    /// Takes steps until the run ends or waits for the host, and at
    /// most `max_steps` of them, as `ran` says. `Running` says that the
    /// steps are used up.
    #[verifier::spinoff_prover]
    #[verifier::rlimit(60)]
    pub fn run(&mut self, stack: &mut CallStack, max_steps: u64) -> (r: VmExecResult<Progress>)
        requires
            old(self).wf(),
            old(self).stack_fits(old(stack)),
        ensures
            old(self).advances(final(self)),
            final(self).stack_fits(final(stack)),
            old(self).ran(old(stack).frames@, max_steps as nat, final(self), final(stack), r),
            max_steps == 0 ==> r == Ok::<_, VmError>(Progress::Running) && old(self).unchanged(
                final(self),
            ) && final(stack).frames@ == old(stack).frames@,
            max_steps > 0 && old(stack).frames@.len() == 0 ==> r == Ok::<_, VmError>(
                Progress::Idle,
            ),
    {
        let mut steps = max_steps;
        while steps > 0
            invariant
                old(self).advances(self),
                self.stack_fits(stack),
                steps <= max_steps,
                steps == max_steps ==> old(self).unchanged(self) && stack.frames@ == old(stack).frames@,
                steps < max_steps ==> old(stack).frames@.len() > 0,
                old(self).ran(
                    old(stack).frames@,
                    (max_steps - steps) as nat,
                    self,
                    stack,
                    Ok(Progress::Running),
                ),
            decreases steps,
        {
            let ghost before = *self;
            let ghost stack_before = *stack;
            let progress = self.step(stack);
            proof {
                old(self).lemma_advances_transitive(&before, self);
                if stack_before.frames@.len() > 0 {
                    old(self).lemma_ran_one_more_step(
                        old(stack).frames@,
                        (max_steps - steps) as nat,
                        &before,
                        &stack_before,
                        self,
                        stack,
                        progress,
                    );
                } else {
                    old(self).lemma_ran_idle(
                        old(stack).frames@,
                        (max_steps - steps) as nat,
                        &before,
                        &stack_before,
                        self,
                        stack,
                    );
                }
                if !(progress matches Ok(Progress::Running)) {
                    old(self).lemma_ran_with_more_steps(
                        old(stack).frames@,
                        (max_steps - steps + 1) as nat,
                        max_steps as nat,
                        self,
                        stack,
                        progress,
                    );
                }
            }
            match progress {
                Err(e) => {
                    return Err(e);
                },
                Ok(Progress::Running) => {},
                Ok(other) => {
                    return Ok(other);
                },
            }
            steps -= 1;
        }
        Ok(Progress::Running)
    }

    /// What a run comes to for the host.
    pub open spec fn outcome_for(progress: VmExecResult<Progress>) -> InvokeMethodResult {
        match progress {
            Err(e) => Err(MethodCallError::InternalError(e)),
            Ok(Progress::Returned(value)) => Ok(value),
            Ok(Progress::Thrown(exception)) => Err(MethodCallError::ExceptionThrown(exception)),
            Ok(Progress::NeedFloat(request)) => Err(MethodCallError::FloatNeeded(request)),
            Ok(Progress::NeedHost(id)) => Err(MethodCallError::HostNeeded(id)),
            Ok(Progress::Running) => Err(MethodCallError::OutOfSteps),
            Ok(Progress::Idle) => Err(MethodCallError::InternalError(VmError::PopFromEmptyStack)),
        }
    }

    pub fn outcome_of(progress: VmExecResult<Progress>) -> (r: InvokeMethodResult)
        ensures
            r == VirtualMachine::outcome_for(progress),
    {
        match progress {
            Err(e) => Err(MethodCallError::InternalError(e)),
            Ok(Progress::Returned(value)) => Ok(value),
            Ok(Progress::Thrown(exception)) => Err(MethodCallError::ExceptionThrown(exception)),
            Ok(Progress::NeedFloat(request)) => Err(MethodCallError::FloatNeeded(request)),
            Ok(Progress::NeedHost(id)) => Err(MethodCallError::HostNeeded(id)),
            Ok(Progress::Running) => Err(MethodCallError::OutOfSteps),
            Ok(Progress::Idle) => Err(MethodCallError::InternalError(VmError::PopFromEmptyStack)),
        }
    }

    /// Whether `r` is what a run of at most `max_steps` steps comes to
    /// for the host, where the run takes the machine, with the frames
    /// `frames` on the call stack, to the machine `after` and the call
    /// stack `stack`.
    pub open spec fn resumed(
        &self,
        frames: Seq<StackFrame>,
        max_steps: nat,
        after: &VirtualMachine,
        stack: &CallStack,
        r: InvokeMethodResult,
    ) -> bool {
        exists|progress: VmExecResult<Progress>| #[trigger]
            self.ran(frames, max_steps, after, stack, progress) && r == VirtualMachine::outcome_for(
                progress,
            )
    }

    /// Goes on with a run that used up its steps, or that waited for the
    /// host and has its answer.
    pub fn resume(&mut self, stack: &mut CallStack, max_steps: u64) -> (r: InvokeMethodResult)
        requires
            old(self).wf(),
            old(self).stack_fits(old(stack)),
        ensures
            old(self).advances(final(self)),
            final(self).stack_fits(final(stack)),
            old(self).resumed(old(stack).frames@, max_steps as nat, final(self), final(stack), r),
            max_steps == 0 ==> (r matches Err(MethodCallError::OutOfSteps)) && old(self).unchanged(
                final(self),
            ) && final(stack).frames@ == old(stack).frames@,
    {
        let progress = self.run(stack, max_steps);
        let ghost ran = progress;
        let r = VirtualMachine::outcome_of(progress);
        assert(old(self).ran(old(stack).frames@, max_steps as nat, self, stack, ran));
        r
    }

    /// Whether `r`, the machine `after` and the call stack `stack` are
    /// what the invocation of a method by the host comes to, where the
    /// frames `frames` are on the call stack. The invocation starts as
    /// `method_entered` says. An error ends it, and so does the result
    /// of a native method; a native method of the host is refused with
    /// `NotImplemented`, for the host can run it itself. The frame of any other method is put on the
    /// call stack as a frame that the host has started, unless the call
    /// stack is full, which gives `StackOverFlow`; then the machine
    /// runs for at most `max_steps` steps, as `resumed` says.
    pub open spec fn invoked_by_host(
        &self,
        class_ref: ClassRef,
        method_ref: MethodRef,
        object: Option<Value>,
        args: Seq<Value>,
        frames: Seq<StackFrame>,
        max_steps: nat,
        after: &VirtualMachine,
        stack: &CallStack,
        r: InvokeMethodResult,
    ) -> bool {
        exists|middle: VirtualMachine, entered: VmExecResult<NativeOutcome>|
            #![trigger self.method_entered(class_ref, method_ref, object, args, &middle, entered)]
            self.method_entered(class_ref, method_ref, object, args, &middle, entered) && (
            match entered {
                Err(e) => r == Err::<Option<Value>, _>(MethodCallError::InternalError(e))
                    && *after == middle && stack.frames@ == frames,
                Ok(NativeOutcome::Value(value)) => r == Ok::<_, MethodCallError>(value) && *after
                    == middle && stack.frames@ == frames,
                Ok(NativeOutcome::Host(_)) => r == Err::<Option<Value>, _>(
                    MethodCallError::InternalError(VmError::NotImplemented),
                ) && *after == middle && stack.frames@ == frames,
                Ok(NativeOutcome::Enter(frame)) => if frames.len()
                    >= crate::stack::MAX_STACK_DEPTH {
                    r == Err::<Option<Value>, _>(
                        MethodCallError::InternalError(VmError::StackOverFlow),
                    ) && *after == middle && stack.frames@ == frames
                } else {
                    middle.resumed(
                        frames.push(StackFrame { host: true, ..frame }),
                        max_steps,
                        after,
                        stack,
                        r,
                    )
                },
            })
    }

    /// Invokes a method of a linked class and runs it for at most
    /// `max_steps` steps, as `invoked_by_host` says. The frame of the
    /// method starts with an empty operand stack and with the receiver
    /// and the arguments in its first local variables. A native method
    /// runs at once.
    pub fn invoke_method(
        &mut self,
        stack: &mut CallStack,
        class_ref: ClassRef,
        method_ref: MethodRef,
        object: Option<Value>,
        args: Vec<Value>,
        max_steps: u64,
    ) -> (r: InvokeMethodResult)
        requires
            old(self).wf(),
            old(self).stack_fits(old(stack)),
        ensures
            old(self).advances(final(self)),
            final(self).stack_fits(final(stack)),
            old(self).invoked_by_host(
                class_ref,
                method_ref,
                object,
                args@,
                old(stack).frames@,
                max_steps as nat,
                final(self),
                final(stack),
                r,
            ),
            !old(self).usable(class_ref) ==> (r matches Err(MethodCallError::InternalError(_)))
                && final(stack).frames@ == old(stack).frames@,
            old(self).usable(class_ref) && method_ref < old(self).method_area@[class_ref as int].methods@.len() && max_steps == 0 ==> ({
                let method = old(self).method_area@[class_ref as int].methods@[method_ref as int];
                !has_flag(method@.access_flags, ACC_NATIVE) && method.code is Some && laid_locals(
                    receiver_and_arguments(object, args@),
                    0,
                ).len() <= method.code->0.max_locals && old(stack).frames@.len()
                    < crate::stack::MAX_STACK_DEPTH ==> (r matches Err(MethodCallError::OutOfSteps))
                    && final(stack).frames@.len() == old(stack).frames@.len() + 1 && final(stack).frames@.drop_last() == old(stack).frames@ && is_entry_frame(
                    final(stack).frames@.last(),
                    class_ref,
                    method_ref,
                    method,
                    object,
                    args@,
                ) && final(stack).frames@.last().host
            }),
    {
        let outcome = self.enter_method(class_ref, method_ref, object, &args);
        let ghost middle = *self;
        let ghost entered = outcome;
        proof {
            old(self).lemma_stack_fits_preserved(self, stack);
            assert(old(self).method_entered(
                class_ref,
                method_ref,
                object,
                args@,
                &middle,
                entered,
            ));
        }
        match outcome {
            Err(e) => Err(MethodCallError::InternalError(e)),
            Ok(NativeOutcome::Value(value)) => Ok(value),
            Ok(NativeOutcome::Host(_)) => Err(
                MethodCallError::InternalError(VmError::NotImplemented),
            ),
            Ok(NativeOutcome::Enter(frame)) => {
                let mut frame = frame;
                frame.host = true;
                let ghost before = stack.frames@;
                if stack.push_frame(frame).is_err() {
                    return Err(MethodCallError::InternalError(VmError::StackOverFlow));
                }
                assert(stack.frames@.drop_last() =~= before);
                let r = self.resume(stack, max_steps);
                proof {
                    old(self).lemma_advances_transitive(&middle, self);
                }
                r
            },
        }
    }

    /// Whether `r`, the machine `after` and the call stack `stack` are
    /// what initializing the class under `class`, which is `Linked`,
    /// for the host comes to, where the frames `frames` are on the call
    /// stack. The initialization begins as `initialization_begun` says.
    /// A class without an initializer is returned at once. For a class
    /// with one, the frame of the initializer is put on the call stack,
    /// unless the call stack is full, which gives `StackOverFlow`; then
    /// the machine runs for at most `max_steps` steps, as `resumed`
    /// says, and the class is returned once the run has ended and has
    /// left it `Initialized`.
    pub open spec fn initialized_by_host(
        &self,
        class: ClassRef,
        frames: Seq<StackFrame>,
        max_steps: nat,
        after: &VirtualMachine,
        stack: &CallStack,
        r: Result<ClassRef, MethodCallError>,
    ) -> bool {
        exists|middle: VirtualMachine, begun: VmExecResult<Prepared>|
            #![trigger self.initialization_begun(class, true, &middle, begun)]
            self.initialization_begun(class, true, &middle, begun) && (match begun {
                Err(e) => r == Err::<ClassRef, _>(MethodCallError::InternalError(e)) && *after
                    == middle && stack.frames@ == frames,
                Ok(Prepared::Ready(c)) => r == Ok::<_, MethodCallError>(c) && *after == middle
                    && stack.frames@ == frames,
                Ok(Prepared::Started(frame)) => if frames.len() >= crate::stack::MAX_STACK_DEPTH {
                    r == Err::<ClassRef, _>(
                        MethodCallError::InternalError(VmError::StackOverFlow),
                    ) && *after == middle && stack.frames@ == frames
                } else {
                    exists|run: InvokeMethodResult| #[trigger]
                        middle.resumed(frames.push(frame), max_steps, after, stack, run) && (
                        match run {
                            Ok(_) => if after.method_area@[class as int].status
                                == ClassStatus::Initialized {
                                r == Ok::<_, MethodCallError>(class)
                            } else {
                                r == Err::<ClassRef, _>(
                                    MethodCallError::InternalError(VmError::ClassFormatError),
                                )
                            },
                            Err(e) => r == Err::<ClassRef, _>(e),
                        })
                },
            })
    }

    /// Loads, links and initializes the class called `class_name`, and
    /// returns its handle. The initializer of the class runs for at
    /// most `max_steps` steps. A class that is initialized is returned
    /// under the handle it has; it is not initialized again, and
    /// nothing changes. A class that is returned is `Initialized`,
    /// unless it was being initialized before the call. For a class
    /// that is `Linked` the outcome is what `initialized_by_host` says.
    pub fn lookup_class_and_initialize(
        &mut self,
        stack: &mut CallStack,
        class_name: &str,
        max_steps: u64,
    ) -> (r: Result<ClassRef, MethodCallError>)
        requires
            old(self).wf(),
            old(self).stack_fits(old(stack)),
        ensures
            old(self).advances(final(self)),
            final(self).stack_fits(final(stack)),
            r matches Ok(c) ==> final(self).usable(c) && final(self).method_area@[c as int].name@
                == canonical_name(class_name@) && (final(self).method_area@[c as int].status
                == ClassStatus::Initialized || (c < old(self).method_area@.len()
                && old(self).method_area@[c as int].status == ClassStatus::Initializing
                && final(self).method_area@[c as int].status == ClassStatus::Initializing)),
            old(self).ready(class_name@) matches Some(c) ==> (r matches Ok(d) && d == c)
                && old(self).unchanged(final(self)) && final(stack).frames@ == old(stack).frames@,
            r matches Ok(c) ==> final(self).ready(class_name@) == Some(c),
            class_position(old(self).method_area@, canonical_name(class_name@), 0) matches Some(
                c,
            ) ==> (old(self).method_area@[c].status == ClassStatus::Linked
                ==> old(self).initialized_by_host(
                c as usize,
                old(stack).frames@,
                max_steps as nat,
                final(self),
                final(stack),
                r,
            )),
    {
        let prepared = self.ensure_initialized(class_name, true);
        let ghost middle = *self;
        let ghost begun = prepared;
        proof {
            old(self).lemma_stack_fits_preserved(self, stack);
            crate::method_area::lemma_class_position(
                old(self).method_area@,
                canonical_name(class_name@),
                0,
            );
        }
        match prepared {
            Err(e) => Err(MethodCallError::InternalError(e)),
            Ok(Prepared::Ready(class)) => Ok(class),
            Ok(Prepared::Started(frame)) => {
                let class = frame.class_ref;
                let ghost before = stack.frames@;
                if stack.push_frame(frame).is_err() {
                    return Err(MethodCallError::InternalError(VmError::StackOverFlow));
                }
                assert(stack.frames@ =~= before.push(frame));
                let run = self.resume(stack, max_steps);
                let ghost resumed = run;
                proof {
                    old(self).lemma_advances_transitive(&middle, self);
                    assert(middle.advances(self));
                    assert(self.method_area@[class as int] == (Class {
                        status: self.method_area@[class as int].status,
                        ..middle.method_area@[class as int]
                    }) && self.method_area@[class as int].status.rank()
                        >= middle.method_area@[class as int].status.rank());
                    assert(middle.resumed(
                        old(stack).frames@.push(frame),
                        max_steps as nat,
                        self,
                        stack,
                        resumed,
                    ));
                    crate::method_area::lemma_class_found(self.method_area@, class as int);
                }
                match run {
                    Ok(_) => {
                        match self.method_area.class(class).status {
                            ClassStatus::Initialized => Ok(class),
                            _ => Err(MethodCallError::InternalError(VmError::ClassFormatError)),
                        }
                    },
                    Err(e) => Err(e),
                }
            },
        }
    }

    /// Prepares the class called `class_name` and looks up a method as
    /// seen from it.
    pub fn lookup_method(
        &mut self,
        stack: &mut CallStack,
        class_name: &str,
        method_name: &str,
        descriptor: &str,
        max_steps: u64,
    ) -> (r: Result<(ClassRef, MethodRef), MethodCallError>)
        requires
            old(self).wf(),
            old(self).stack_fits(old(stack)),
        ensures
            old(self).advances(final(self)),
            final(self).stack_fits(final(stack)),
            r matches Ok(found) ==> crate::method_area::method_site(
                final(self).method_area@,
                class_position(final(self).method_area@, canonical_name(class_name@), 0)->0,
                method_name@,
                descriptor@,
            ) == Some(crate::method_area::MethodSite { class: found.0, method: found.1 }),
            old(self).ready(class_name@) matches Some(class) ==> old(self).unchanged(final(self))
                && final(stack).frames@ == old(stack).frames@ && (match method_site(
                old(self).method_area@,
                class as int,
                method_name@,
                descriptor@,
            ) {
                Some(site) => r matches Ok(found) && found.0 == site.class && found.1
                    == site.method,
                None => (r matches Err(
                    MethodCallError::InternalError(VmError::MethodNotFoundException(n, d)),
                ) && n@ == method_name@ && d@ == descriptor@),
            }),
    {
        let class = self.lookup_class_and_initialize(stack, class_name, max_steps)?;
        proof {
            crate::method_area::lemma_class_position(
                self.method_area@,
                canonical_name(class_name@),
                0,
            );
        }
        match self.method_area.get_method_by_checking_super(class, method_name, descriptor) {
            Ok(found) => Ok(found),
            Err(e) => Err(MethodCallError::InternalError(e)),
        }
    }

    /// Prepares the class called `class_name` and allocates an object of
    /// it.
    pub fn new_object_by_class_name(
        &mut self,
        stack: &mut CallStack,
        class_name: &str,
        max_steps: u64,
    ) -> (r: Result<ObjectReference, MethodCallError>)
        requires
            old(self).wf(),
            old(self).stack_fits(old(stack)),
        ensures
            old(self).advances(final(self)),
            final(self).stack_fits(final(stack)),
            old(self).ready(class_name@) matches Some(class) ==> final(stack).frames@ == old(stack).frames@
                && (if old(self).object_heap.object_fits(
                old(self).method_area@[class as int].total_num_of_fields as int,
            ) {
                (r matches Ok(object) && object.address == old(self).next_address())
                    && old(self).object_allocated(class, final(self))
            } else {
                (r matches Err(MethodCallError::InternalError(e)) && e == VmError::OutOfMemory)
                    && old(self).nothing_allocated(final(self))
            }),
    {
        let class = match self.lookup_class_and_initialize(stack, class_name, max_steps) {
            Ok(class) => class,
            Err(e) => {
                return Err(e);
            },
        };
        let ghost prepared = *self;
        let made = self.new_object(class);
        proof {
            old(self).lemma_advances_transitive(&prepared, self);
            prepared.lemma_stack_fits_preserved(self, stack);
        }
        match made {
            Ok(object) => Ok(object),
            Err(e) => Err(MethodCallError::InternalError(e)),
        }
    }

    /// The handle of the class called `class_name`, which is prepared
    /// as `lookup_class_and_initialize` prepares it: a handle that is
    /// returned is that of a class that can be used.
    pub fn get_class_by_name(&mut self, stack: &mut CallStack, class_name: &str, max_steps: u64) -> (r:
        Result<ClassRef, MethodCallError>)
        requires
            old(self).wf(),
            old(self).stack_fits(old(stack)),
        ensures
            old(self).advances(final(self)),
            final(self).stack_fits(final(stack)),
            r matches Ok(c) ==> final(self).usable(c) && final(self).method_area@[c as int].name@
                == canonical_name(class_name@) && (final(self).method_area@[c as int].status
                == ClassStatus::Initialized || (c < old(self).method_area@.len()
                && old(self).method_area@[c as int].status == ClassStatus::Initializing
                && final(self).method_area@[c as int].status == ClassStatus::Initializing)),
            old(self).ready(class_name@) matches Some(c) ==> (r matches Ok(d) && d == c)
                && old(self).unchanged(final(self)) && final(stack).frames@ == old(stack).frames@,
            r matches Ok(c) ==> final(self).ready(class_name@) == Some(c),
            class_position(old(self).method_area@, canonical_name(class_name@), 0) matches Some(
                c,
            ) ==> (old(self).method_area@[c].status == ClassStatus::Linked
                ==> old(self).initialized_by_host(
                c as usize,
                old(stack).frames@,
                max_steps as nat,
                final(self),
                final(stack),
                r,
            )),
    {
        self.lookup_class_and_initialize(stack, class_name, max_steps)
    }

    /// The value of a static field of the class called `class_name`.
    pub fn get_static_field_by_class_name(
        &mut self,
        stack: &mut CallStack,
        class_name: &str,
        field_name: &str,
        max_steps: u64,
    ) -> (r: Result<Option<Value>, MethodCallError>)
        requires
            old(self).wf(),
            old(self).stack_fits(old(stack)),
        ensures
            old(self).advances(final(self)),
            final(self).stack_fits(final(stack)),
            old(self).ready(class_name@) matches Some(class) ==> r == Ok::<_, MethodCallError>(
                old(self).static_area.value_of(class, field_name@),
            ) && old(self).unchanged(final(self)) && final(stack).frames@ == old(stack).frames@,
            r matches Ok(value) ==> (final(self).ready(class_name@) matches Some(class) && value
                == final(self).static_area.value_of(class, field_name@)),
    {
        proof {
            crate::method_area::lemma_class_position(
                self.method_area@,
                canonical_name(class_name@),
                0,
            );
        }
        let class = match self.get_class_by_name(stack, class_name, max_steps) {
            Ok(class) => class,
            Err(e) => {
                return Err(e);
            },
        };
        Ok(self.get_static(class, field_name))
    }

    /// Gives a static field of the class called `class_name` a value.
    pub fn set_static_field_by_class_name(
        &mut self,
        stack: &mut CallStack,
        class_name: &str,
        field_name: &str,
        value: Value,
        max_steps: u64,
    ) -> (r: Result<(), MethodCallError>)
        requires
            old(self).wf(),
            old(self).stack_fits(old(stack)),
        ensures
            old(self).advances(final(self)),
            final(self).stack_fits(final(stack)),
            old(self).ready(class_name@) matches Some(class) ==> final(stack).frames@
                == old(stack).frames@ && r is Ok && old(self).static_written(
                class,
                field_name@,
                value,
                final(self),
            ),
            r is Ok ==> (final(self).ready(class_name@) matches Some(class)
                && final(self).static_area.value_of(class, field_name@) == Some(value)),
    {
        proof {
            crate::method_area::lemma_class_position(
                self.method_area@,
                canonical_name(class_name@),
                0,
            );
        }
        let class = match self.get_class_by_name(stack, class_name, max_steps) {
            Ok(class) => class,
            Err(e) => {
                return Err(e);
            },
        };
        let ghost prepared = *self;
        let done = self.set_static(class, field_name, value);
        proof {
            old(self).lemma_advances_transitive(&prepared, self);
            prepared.lemma_stack_fits_preserved(self, stack);
        }
        match done {
            Ok(()) => Ok(()),
            Err(e) => Err(MethodCallError::InternalError(e)),
        }
    }
}

} // verus!
