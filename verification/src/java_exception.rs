//! How the invocation of a method can fail.
use vstd::prelude::*;
use crate::jvm_error::VmError;
use crate::jvm_values::{ObjectReference, Value};
use crate::stack_frame::FloatRequest;

verus! {

#[derive(Debug)]
pub enum MethodCallError {
    /// The machine met an error of its own.
    InternalError(VmError),
    /// No frame caught this exception.
    ExceptionThrown(ObjectReference),
    /// The run waits for the host to compute this operation.
    FloatNeeded(FloatRequest),
    /// The run waits for the host to run the native method with this
    /// number; the call stack holds the call.
    HostNeeded(u32),
    /// The run has used up its steps and can be resumed.
    OutOfSteps,
}

impl vstd::std_specs::convert::FromSpecImpl<VmError> for MethodCallError {
    open spec fn obeys_from_spec() -> bool {
        true
    }

    open spec fn from_spec(value: VmError) -> MethodCallError {
        MethodCallError::InternalError(value)
    }
}

impl From<VmError> for MethodCallError {
    fn from(value: VmError) -> (r: MethodCallError) {
        MethodCallError::InternalError(value)
    }
}

pub type InvokeMethodResult = Result<Option<Value>, MethodCallError>;

} // verus!
