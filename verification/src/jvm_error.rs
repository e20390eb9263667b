//! Errors of the running machine.
use vstd::prelude::*;
use crate::class_file_error::ClassFileError;

verus! {

#[derive(Debug, Clone, PartialEq)]
pub enum VmError {
    ClassFormatError,
    ClassNotFoundException(String),
    MethodNotFoundException(String, String),
    FieldNotFoundException(String),
    InvalidAttribute(String),
    InvalidOffset(usize),
    NoClassDefFoundError(String),
    ClassPathNotExist(String),
    JarFileNotExist(String),
    /// The bytes of a class or of one of its attributes could not be decoded.
    ReadClassBytesError(ClassFileError),
    ExecuteCodeError(String),
    ValueTypeMissMatch,
    ReadJarFileError(String),
    ClassVersionNotSupport,
    IndexOutOfBounds,
    PopFromEmptyStack,
    StackOverFlow,
    ArithmeticException,
    NotImplemented,
    /// The managed heap has no room for the allocation.
    OutOfMemory,
}

pub type VmExecResult<T> = Result<T, VmError>;

impl vstd::std_specs::convert::FromSpecImpl<ClassFileError> for VmError {
    open spec fn obeys_from_spec() -> bool {
        true
    }

    open spec fn from_spec(value: ClassFileError) -> VmError {
        VmError::ReadClassBytesError(value)
    }
}

impl From<ClassFileError> for VmError {
    fn from(value: ClassFileError) -> (r: VmError) {
        VmError::ReadClassBytesError(value)
    }
}

} // verus!
