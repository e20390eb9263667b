//! Errors reported while decoding a class file.
use vstd::prelude::*;

verus! {

/// What was wrong with class data that is otherwise long enough to read.
#[derive(Debug, Clone, Copy, PartialEq, Eq, Structural)]
pub enum ClassDataFault {
    /// The first four bytes are not `0xCAFEBABE`; the payload is what was read.
    BadMagicNumber(u32),
    /// An access mask of a class has bits outside the class flags.
    BadClassFlags(u16),
    /// An access mask of a field has bits outside the field flags.
    BadFieldFlags(u16),
    /// An access mask of a method has bits outside the method flags.
    BadMethodFlags(u16),
    /// The constant at this index should be a Utf8 string and is not.
    NotUtf8(u16),
    /// The constant at this index should be a class reference and is not.
    NotClassReference(u16),
    /// The constant at this index should be a name-and-type pair and is not.
    NotNameAndType(u16),
    /// The constant at this index should be a field or method reference and is not.
    NotMemberReference(u16),
    /// The constant pool count is zero, which leaves no room for index 0.
    EmptyConstantPoolCount,
    /// Bytes remain after the last class attribute.
    TrailingBytes,
}

/// The errors returned when reading a class file.
#[derive(Debug, Clone, Copy, PartialEq, Eq, Structural)]
pub enum ClassFileError {
    InvalidClassData(ClassDataFault),
    UnsupportedVersion(u16, u16),
    ConstantPoolTagNotSupport(u8),
    InvalidConstantPoolIndexError(u16),
    InvalidMethodHandlerKind(u8),
    UnexpectedEndOfData,
    InvalidCesu8String,
    /// An opcode byte that names no instruction.
    InvalidCode(u8),
}

} // verus!
