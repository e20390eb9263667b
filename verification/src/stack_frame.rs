//! A frame: the activation record of one method invocation, and what
//! the instructions that touch nothing but the frame do to it.
use vstd::prelude::*;
use crate::arithmetic::{
    compare_doubles, compare_longs, compare_singles, double_comparison, double_division_is_nan,
    int_math, int_result, is_double_division_returning_nan, is_single_division_returning_nan,
    long_comparison, long_math, long_result, sign_of_comparison, single_comparison, single_division_is_nan, IntOp,
    DOUBLE_NAN, DOUBLE_ONE, SINGLE_NAN, SINGLE_ONE, SINGLE_TWO,
};
use crate::byte_buffer::be_u32;
use crate::instruction::{switch_padding, Instruction, WideKind};
use crate::jvm_error::{VmError, VmExecResult};
use crate::jvm_values::Value;
use crate::loaded_class::{ClassRef, MethodRef};
use crate::operand_stack::OperandStack;
use crate::runtime_attribute_info::{CodeAttribute, ExceptionTableView};

verus! {

/// A local variable: a value, or the second half of the wide value in
/// the variable before it.
#[derive(Debug, Clone, Copy, PartialEq, Eq, Structural)]
pub enum LocalValue {
    Entry(Value),
    PlaceHolder,
}

/// The exceptions that instructions raise by themselves.
#[derive(Debug, Clone, Copy, PartialEq, Eq, Structural)]
pub enum JavaException {
    ArithmeticException,
    NullPointerException,
    ClassCastException,
    ArrayIndexOutOfBoundsException,
    NegativeArraySizeException,
}

impl JavaException {
    /// The name of the class of the exception.
    pub open spec fn class_name(self) -> Seq<char> {
        match self {
            JavaException::ArithmeticException => "java/lang/ArithmeticException"@,
            JavaException::NullPointerException => "java/lang/NullPointerException"@,
            JavaException::ClassCastException => "java/lang/ClassCastException"@,
            JavaException::ArrayIndexOutOfBoundsException => {
                "java/lang/ArrayIndexOutOfBoundsException"@
            },
            JavaException::NegativeArraySizeException => "java/lang/NegativeArraySizeException"@,
        }
    }

    pub fn name(&self) -> (r: &'static str)
        ensures
            r@ == self.class_name(),
    {
        match self {
            JavaException::ArithmeticException => "java/lang/ArithmeticException",
            JavaException::NullPointerException => "java/lang/NullPointerException",
            JavaException::ClassCastException => "java/lang/ClassCastException",
            JavaException::ArrayIndexOutOfBoundsException => {
                "java/lang/ArrayIndexOutOfBoundsException"
            },
            JavaException::NegativeArraySizeException => "java/lang/NegativeArraySizeException",
        }
    }
}

/// The floating-point operations, which the host computes.
#[derive(Debug, Clone, Copy, PartialEq, Eq, Structural)]
pub enum FloatOp {
    Fadd,
    Fsub,
    Fmul,
    Fdiv,
    Frem,
    Dadd,
    Dsub,
    Dmul,
    Ddiv,
    Drem,
    I2f,
    I2d,
    L2f,
    L2d,
    F2i,
    F2l,
    F2d,
    D2i,
    D2l,
    D2f,
}

/// A floating-point operation that the machine asks the host to
/// compute. The operands are bit patterns: of a single-precision value
/// in the low 32 bits, of a double-precision value, or of an integer in
/// two's complement. Operations on one operand leave `second` zero.
#[derive(Debug, Clone, Copy, PartialEq, Eq, Structural)]
pub struct FloatRequest {
    pub op: FloatOp,
    pub first: u64,
    pub second: u64,
}

/// The value that the answer of the host to a floating-point operation
/// stands for: by the result type of the operation, the low 32 bits as a
/// single-precision pattern or as an integer, or all 64 bits as a
/// double-precision pattern or as a long.
pub open spec fn answer_value(op: FloatOp, answer: u64) -> Value {
    match op {
        FloatOp::Fadd | FloatOp::Fsub | FloatOp::Fmul | FloatOp::Fdiv | FloatOp::Frem
        | FloatOp::I2f | FloatOp::L2f | FloatOp::D2f => Value::Float(answer as u32),
        FloatOp::Dadd | FloatOp::Dsub | FloatOp::Dmul | FloatOp::Ddiv | FloatOp::Drem
        | FloatOp::I2d | FloatOp::L2d | FloatOp::F2d => Value::Double(answer),
        FloatOp::F2i | FloatOp::D2i => Value::Int((answer as u32) as i32),
        FloatOp::F2l | FloatOp::D2l => Value::Long(answer as i64),
    }
}

/// Turns the answer of the host into the value it stands for.
pub fn value_of_answer(op: FloatOp, answer: u64) -> (r: Value)
    ensures
        r == answer_value(op, answer),
{
    match op {
        FloatOp::Fadd | FloatOp::Fsub | FloatOp::Fmul | FloatOp::Fdiv | FloatOp::Frem
        | FloatOp::I2f | FloatOp::L2f | FloatOp::D2f => Value::Float(
            #[verifier::truncate] (answer as u32),
        ),
        FloatOp::Dadd | FloatOp::Dsub | FloatOp::Dmul | FloatOp::Ddiv | FloatOp::Drem
        | FloatOp::I2d | FloatOp::L2d | FloatOp::F2d => Value::Double(answer),
        FloatOp::F2i | FloatOp::D2i => {
            let low: u32 = #[verifier::truncate] (answer as u32);
            Value::Int(#[verifier::truncate] (low as i32))
        },
        FloatOp::F2l | FloatOp::D2l => Value::Long(#[verifier::truncate] (answer as i64)),
    }
}

/// What the frame waits for before it decodes its next instruction.
#[derive(Debug, Clone, Copy, PartialEq, Eq, Structural)]
pub enum Pending {
    Nothing,
    /// The answer of the host to this request.
    Float(FloatRequest),
    /// The class of this exception, which is to be thrown.
    Throw(JavaException),
    /// The result of the native method with this number, which the
    /// host computes.
    Host(u32),
}

/// What an instruction leaves to do.
#[derive(Debug, Clone, Copy, PartialEq, Eq, Structural)]
pub enum InstructionResult {
    ContinueMethodExecution,
    ReturnFromMethod(Option<Value>),
    /// The instruction raises this exception.
    Raise(JavaException),
    /// The instruction needs this operation computed.
    NeedFloat(FloatRequest),
}

/// The kinds of values that loads, stores and returns tell apart.
#[derive(Debug, Clone, Copy, PartialEq, Eq, Structural)]
pub enum Shape {
    Int,
    Long,
    Float,
    Double,
    Reference,
}

/// Whether `value` has the shape `shape`; null and both kinds of
/// references have the shape of a reference.
pub open spec fn has_shape(shape: Shape, value: Value) -> bool {
    match shape {
        Shape::Int => value is Int,
        Shape::Long => value is Long,
        Shape::Float => value is Float,
        Shape::Double => value is Double,
        Shape::Reference => value.is_reference(),
    }
}

pub fn shape_matches(shape: Shape, value: &Value) -> (r: bool)
    ensures
        r == has_shape(shape, *value),
{
    match (shape, value) {
        (Shape::Int, Value::Int(_)) => true,
        (Shape::Long, Value::Long(_)) => true,
        (Shape::Float, Value::Float(_)) => true,
        (Shape::Double, Value::Double(_)) => true,
        (Shape::Reference, Value::ObjectRef(_)) => true,
        (Shape::Reference, Value::ArrayRef(_)) => true,
        (Shape::Reference, Value::Null) => true,
        _ => false,
    }
}

/// The conditions of the conditional branches.
#[derive(Debug, Clone, Copy, PartialEq, Eq, Structural)]
pub enum Condition {
    Eq,
    Ne,
    Lt,
    Ge,
    Gt,
    Le,
}

/// Whether the condition holds of `a` and `b`.
pub open spec fn condition_holds(condition: Condition, a: int, b: int) -> bool {
    match condition {
        Condition::Eq => a == b,
        Condition::Ne => a != b,
        Condition::Lt => a < b,
        Condition::Ge => a >= b,
        Condition::Gt => a > b,
        Condition::Le => a <= b,
    }
}

pub fn holds(condition: Condition, a: i32, b: i32) -> (r: bool)
    ensures
        r == condition_holds(condition, a as int, b as int),
{
    match condition {
        Condition::Eq => a == b,
        Condition::Ne => a != b,
        Condition::Lt => a < b,
        Condition::Ge => a >= b,
        Condition::Gt => a > b,
        Condition::Le => a <= b,
    }
}

/// The constant that an instruction pushes, if that is all it does.
/// `bipush` and `sipush` push their operand with its sign.
pub open spec fn constant_of(instruction: Instruction) -> Option<Value> {
    match instruction {
        Instruction::Aconst_null => Some(Value::Null),
        Instruction::Iconst_m1 => Some(Value::Int(-1i32)),
        Instruction::Iconst_0 => Some(Value::Int(0)),
        Instruction::Iconst_1 => Some(Value::Int(1)),
        Instruction::Iconst_2 => Some(Value::Int(2)),
        Instruction::Iconst_3 => Some(Value::Int(3)),
        Instruction::Iconst_4 => Some(Value::Int(4)),
        Instruction::Iconst_5 => Some(Value::Int(5)),
        Instruction::Lconst_0 => Some(Value::Long(0)),
        Instruction::Lconst_1 => Some(Value::Long(1)),
        Instruction::Fconst_0 => Some(Value::Float(0)),
        Instruction::Fconst_1 => Some(Value::Float(SINGLE_ONE)),
        Instruction::Fconst_2 => Some(Value::Float(SINGLE_TWO)),
        Instruction::Dconst_0 => Some(Value::Double(0)),
        Instruction::Dconst_1 => Some(Value::Double(DOUBLE_ONE)),
        Instruction::Bipush(b) => Some(Value::Int((b as i8) as i32)),
        Instruction::Sipush(s) => Some(Value::Int(s as i32)),
        _ => None,
    }
}

pub fn constant_for(instruction: Instruction) -> (r: Option<Value>)
    ensures
        r == constant_of(instruction),
{
    match instruction {
        Instruction::Aconst_null => Some(Value::Null),
        Instruction::Iconst_m1 => Some(Value::Int(-1i32)),
        Instruction::Iconst_0 => Some(Value::Int(0)),
        Instruction::Iconst_1 => Some(Value::Int(1)),
        Instruction::Iconst_2 => Some(Value::Int(2)),
        Instruction::Iconst_3 => Some(Value::Int(3)),
        Instruction::Iconst_4 => Some(Value::Int(4)),
        Instruction::Iconst_5 => Some(Value::Int(5)),
        Instruction::Lconst_0 => Some(Value::Long(0)),
        Instruction::Lconst_1 => Some(Value::Long(1)),
        Instruction::Fconst_0 => Some(Value::Float(0)),
        Instruction::Fconst_1 => Some(Value::Float(SINGLE_ONE)),
        Instruction::Fconst_2 => Some(Value::Float(SINGLE_TWO)),
        Instruction::Dconst_0 => Some(Value::Double(0)),
        Instruction::Dconst_1 => Some(Value::Double(DOUBLE_ONE)),
        Instruction::Bipush(b) => Some(Value::Int((#[verifier::truncate] (b as i8)) as i32)),
        Instruction::Sipush(s) => Some(Value::Int(s as i32)),
        _ => None,
    }
}

/// The shape and the local variable of a load instruction.
pub open spec fn load_of(instruction: Instruction) -> Option<(Shape, int)> {
    match instruction {
        Instruction::Iload(n) => Some((Shape::Int, n as int)),
        Instruction::Wide(WideKind::Iload, n, _) => Some((Shape::Int, n as int)),
        Instruction::Lload(n) => Some((Shape::Long, n as int)),
        Instruction::Wide(WideKind::Lload, n, _) => Some((Shape::Long, n as int)),
        Instruction::Fload(n) => Some((Shape::Float, n as int)),
        Instruction::Wide(WideKind::Fload, n, _) => Some((Shape::Float, n as int)),
        Instruction::Dload(n) => Some((Shape::Double, n as int)),
        Instruction::Wide(WideKind::Dload, n, _) => Some((Shape::Double, n as int)),
        Instruction::Aload(n) => Some((Shape::Reference, n as int)),
        Instruction::Wide(WideKind::Aload, n, _) => Some((Shape::Reference, n as int)),
        Instruction::Iload_0 => Some((Shape::Int, 0)),
        Instruction::Iload_1 => Some((Shape::Int, 1)),
        Instruction::Iload_2 => Some((Shape::Int, 2)),
        Instruction::Iload_3 => Some((Shape::Int, 3)),
        Instruction::Lload_0 => Some((Shape::Long, 0)),
        Instruction::Lload_1 => Some((Shape::Long, 1)),
        Instruction::Lload_2 => Some((Shape::Long, 2)),
        Instruction::Lload_3 => Some((Shape::Long, 3)),
        Instruction::Fload_0 => Some((Shape::Float, 0)),
        Instruction::Fload_1 => Some((Shape::Float, 1)),
        Instruction::Fload_2 => Some((Shape::Float, 2)),
        Instruction::Fload_3 => Some((Shape::Float, 3)),
        Instruction::Dload_0 => Some((Shape::Double, 0)),
        Instruction::Dload_1 => Some((Shape::Double, 1)),
        Instruction::Dload_2 => Some((Shape::Double, 2)),
        Instruction::Dload_3 => Some((Shape::Double, 3)),
        Instruction::Aload_0 => Some((Shape::Reference, 0)),
        Instruction::Aload_1 => Some((Shape::Reference, 1)),
        Instruction::Aload_2 => Some((Shape::Reference, 2)),
        Instruction::Aload_3 => Some((Shape::Reference, 3)),
        _ => None,
    }
}

pub fn load_for(instruction: Instruction) -> (r: Option<(Shape, usize)>)
    ensures
        match r {
            Some((shape, index)) => load_of(instruction) == Some((shape, index as int)),
            None => load_of(instruction) is None,
        },
{
    match instruction {
        Instruction::Iload(n) => Some((Shape::Int, n as usize)),
        Instruction::Wide(WideKind::Iload, n, _) => Some((Shape::Int, n as usize)),
        Instruction::Lload(n) => Some((Shape::Long, n as usize)),
        Instruction::Wide(WideKind::Lload, n, _) => Some((Shape::Long, n as usize)),
        Instruction::Fload(n) => Some((Shape::Float, n as usize)),
        Instruction::Wide(WideKind::Fload, n, _) => Some((Shape::Float, n as usize)),
        Instruction::Dload(n) => Some((Shape::Double, n as usize)),
        Instruction::Wide(WideKind::Dload, n, _) => Some((Shape::Double, n as usize)),
        Instruction::Aload(n) => Some((Shape::Reference, n as usize)),
        Instruction::Wide(WideKind::Aload, n, _) => Some((Shape::Reference, n as usize)),
        Instruction::Iload_0 => Some((Shape::Int, 0)),
        Instruction::Iload_1 => Some((Shape::Int, 1)),
        Instruction::Iload_2 => Some((Shape::Int, 2)),
        Instruction::Iload_3 => Some((Shape::Int, 3)),
        Instruction::Lload_0 => Some((Shape::Long, 0)),
        Instruction::Lload_1 => Some((Shape::Long, 1)),
        Instruction::Lload_2 => Some((Shape::Long, 2)),
        Instruction::Lload_3 => Some((Shape::Long, 3)),
        Instruction::Fload_0 => Some((Shape::Float, 0)),
        Instruction::Fload_1 => Some((Shape::Float, 1)),
        Instruction::Fload_2 => Some((Shape::Float, 2)),
        Instruction::Fload_3 => Some((Shape::Float, 3)),
        Instruction::Dload_0 => Some((Shape::Double, 0)),
        Instruction::Dload_1 => Some((Shape::Double, 1)),
        Instruction::Dload_2 => Some((Shape::Double, 2)),
        Instruction::Dload_3 => Some((Shape::Double, 3)),
        Instruction::Aload_0 => Some((Shape::Reference, 0)),
        Instruction::Aload_1 => Some((Shape::Reference, 1)),
        Instruction::Aload_2 => Some((Shape::Reference, 2)),
        Instruction::Aload_3 => Some((Shape::Reference, 3)),
        _ => None,
    }
}

/// The shape and the local variable of a store instruction.
pub open spec fn store_of(instruction: Instruction) -> Option<(Shape, int)> {
    match instruction {
        Instruction::Istore(n) => Some((Shape::Int, n as int)),
        Instruction::Wide(WideKind::Istore, n, _) => Some((Shape::Int, n as int)),
        Instruction::Lstore(n) => Some((Shape::Long, n as int)),
        Instruction::Wide(WideKind::Lstore, n, _) => Some((Shape::Long, n as int)),
        Instruction::Fstore(n) => Some((Shape::Float, n as int)),
        Instruction::Wide(WideKind::Fstore, n, _) => Some((Shape::Float, n as int)),
        Instruction::Dstore(n) => Some((Shape::Double, n as int)),
        Instruction::Wide(WideKind::Dstore, n, _) => Some((Shape::Double, n as int)),
        Instruction::Astore(n) => Some((Shape::Reference, n as int)),
        Instruction::Wide(WideKind::Astore, n, _) => Some((Shape::Reference, n as int)),
        Instruction::Istore_0 => Some((Shape::Int, 0)),
        Instruction::Istore_1 => Some((Shape::Int, 1)),
        Instruction::Istore_2 => Some((Shape::Int, 2)),
        Instruction::Istore_3 => Some((Shape::Int, 3)),
        Instruction::Lstore_0 => Some((Shape::Long, 0)),
        Instruction::Lstore_1 => Some((Shape::Long, 1)),
        Instruction::Lstore_2 => Some((Shape::Long, 2)),
        Instruction::Lstore_3 => Some((Shape::Long, 3)),
        Instruction::Fstore_0 => Some((Shape::Float, 0)),
        Instruction::Fstore_1 => Some((Shape::Float, 1)),
        Instruction::Fstore_2 => Some((Shape::Float, 2)),
        Instruction::Fstore_3 => Some((Shape::Float, 3)),
        Instruction::Dstore_0 => Some((Shape::Double, 0)),
        Instruction::Dstore_1 => Some((Shape::Double, 1)),
        Instruction::Dstore_2 => Some((Shape::Double, 2)),
        Instruction::Dstore_3 => Some((Shape::Double, 3)),
        Instruction::Astore_0 => Some((Shape::Reference, 0)),
        Instruction::Astore_1 => Some((Shape::Reference, 1)),
        Instruction::Astore_2 => Some((Shape::Reference, 2)),
        Instruction::Astore_3 => Some((Shape::Reference, 3)),
        _ => None,
    }
}

pub fn store_for(instruction: Instruction) -> (r: Option<(Shape, usize)>)
    ensures
        match r {
            Some((shape, index)) => store_of(instruction) == Some((shape, index as int)),
            None => store_of(instruction) is None,
        },
{
    match instruction {
        Instruction::Istore(n) => Some((Shape::Int, n as usize)),
        Instruction::Wide(WideKind::Istore, n, _) => Some((Shape::Int, n as usize)),
        Instruction::Lstore(n) => Some((Shape::Long, n as usize)),
        Instruction::Wide(WideKind::Lstore, n, _) => Some((Shape::Long, n as usize)),
        Instruction::Fstore(n) => Some((Shape::Float, n as usize)),
        Instruction::Wide(WideKind::Fstore, n, _) => Some((Shape::Float, n as usize)),
        Instruction::Dstore(n) => Some((Shape::Double, n as usize)),
        Instruction::Wide(WideKind::Dstore, n, _) => Some((Shape::Double, n as usize)),
        Instruction::Astore(n) => Some((Shape::Reference, n as usize)),
        Instruction::Wide(WideKind::Astore, n, _) => Some((Shape::Reference, n as usize)),
        Instruction::Istore_0 => Some((Shape::Int, 0)),
        Instruction::Istore_1 => Some((Shape::Int, 1)),
        Instruction::Istore_2 => Some((Shape::Int, 2)),
        Instruction::Istore_3 => Some((Shape::Int, 3)),
        Instruction::Lstore_0 => Some((Shape::Long, 0)),
        Instruction::Lstore_1 => Some((Shape::Long, 1)),
        Instruction::Lstore_2 => Some((Shape::Long, 2)),
        Instruction::Lstore_3 => Some((Shape::Long, 3)),
        Instruction::Fstore_0 => Some((Shape::Float, 0)),
        Instruction::Fstore_1 => Some((Shape::Float, 1)),
        Instruction::Fstore_2 => Some((Shape::Float, 2)),
        Instruction::Fstore_3 => Some((Shape::Float, 3)),
        Instruction::Dstore_0 => Some((Shape::Double, 0)),
        Instruction::Dstore_1 => Some((Shape::Double, 1)),
        Instruction::Dstore_2 => Some((Shape::Double, 2)),
        Instruction::Dstore_3 => Some((Shape::Double, 3)),
        Instruction::Astore_0 => Some((Shape::Reference, 0)),
        Instruction::Astore_1 => Some((Shape::Reference, 1)),
        Instruction::Astore_2 => Some((Shape::Reference, 2)),
        Instruction::Astore_3 => Some((Shape::Reference, 3)),
        _ => None,
    }
}

/// The operation of an instruction on two integers.
pub open spec fn int_op_of(instruction: Instruction) -> Option<IntOp> {
    match instruction {
        Instruction::Iadd => Some(IntOp::Add),
        Instruction::Isub => Some(IntOp::Sub),
        Instruction::Imul => Some(IntOp::Mul),
        Instruction::Idiv => Some(IntOp::Div),
        Instruction::Irem => Some(IntOp::Rem),
        Instruction::Iand => Some(IntOp::And),
        Instruction::Ior => Some(IntOp::Or),
        Instruction::Ixor => Some(IntOp::Xor),
        Instruction::Ishl => Some(IntOp::Shl),
        Instruction::Ishr => Some(IntOp::Shr),
        Instruction::Iushr => Some(IntOp::Ushr),
        _ => None,
    }
}

pub fn int_op_for(instruction: Instruction) -> (r: Option<IntOp>)
    ensures
        r == int_op_of(instruction),
{
    match instruction {
        Instruction::Iadd => Some(IntOp::Add),
        Instruction::Isub => Some(IntOp::Sub),
        Instruction::Imul => Some(IntOp::Mul),
        Instruction::Idiv => Some(IntOp::Div),
        Instruction::Irem => Some(IntOp::Rem),
        Instruction::Iand => Some(IntOp::And),
        Instruction::Ior => Some(IntOp::Or),
        Instruction::Ixor => Some(IntOp::Xor),
        Instruction::Ishl => Some(IntOp::Shl),
        Instruction::Ishr => Some(IntOp::Shr),
        Instruction::Iushr => Some(IntOp::Ushr),
        _ => None,
    }
}

/// The operation of an instruction on two longs, or on a long and a
/// shift count.
pub open spec fn long_op_of(instruction: Instruction) -> Option<IntOp> {
    match instruction {
        Instruction::Ladd => Some(IntOp::Add),
        Instruction::Lsub => Some(IntOp::Sub),
        Instruction::Lmul => Some(IntOp::Mul),
        Instruction::Ldiv => Some(IntOp::Div),
        Instruction::Lrem => Some(IntOp::Rem),
        Instruction::Land => Some(IntOp::And),
        Instruction::Lor => Some(IntOp::Or),
        Instruction::Lxor => Some(IntOp::Xor),
        Instruction::Lshl => Some(IntOp::Shl),
        Instruction::Lshr => Some(IntOp::Shr),
        Instruction::Lushr => Some(IntOp::Ushr),
        _ => None,
    }
}

pub fn long_op_for(instruction: Instruction) -> (r: Option<IntOp>)
    ensures
        r == long_op_of(instruction),
{
    match instruction {
        Instruction::Ladd => Some(IntOp::Add),
        Instruction::Lsub => Some(IntOp::Sub),
        Instruction::Lmul => Some(IntOp::Mul),
        Instruction::Ldiv => Some(IntOp::Div),
        Instruction::Lrem => Some(IntOp::Rem),
        Instruction::Land => Some(IntOp::And),
        Instruction::Lor => Some(IntOp::Or),
        Instruction::Lxor => Some(IntOp::Xor),
        Instruction::Lshl => Some(IntOp::Shl),
        Instruction::Lshr => Some(IntOp::Shr),
        Instruction::Lushr => Some(IntOp::Ushr),
        _ => None,
    }
}

/// Whether the operation takes a 32-bit shift count as second operand.
pub open spec fn is_shift(op: IntOp) -> bool {
    op is Shl || op is Shr || op is Ushr
}

/// The floating-point operation of an instruction.
pub open spec fn float_op_of(instruction: Instruction) -> Option<FloatOp> {
    match instruction {
        Instruction::Fadd => Some(FloatOp::Fadd),
        Instruction::Fsub => Some(FloatOp::Fsub),
        Instruction::Fmul => Some(FloatOp::Fmul),
        Instruction::Fdiv => Some(FloatOp::Fdiv),
        Instruction::Frem => Some(FloatOp::Frem),
        Instruction::Dadd => Some(FloatOp::Dadd),
        Instruction::Dsub => Some(FloatOp::Dsub),
        Instruction::Dmul => Some(FloatOp::Dmul),
        Instruction::Ddiv => Some(FloatOp::Ddiv),
        Instruction::Drem => Some(FloatOp::Drem),
        Instruction::I2f => Some(FloatOp::I2f),
        Instruction::I2d => Some(FloatOp::I2d),
        Instruction::L2f => Some(FloatOp::L2f),
        Instruction::L2d => Some(FloatOp::L2d),
        Instruction::F2i => Some(FloatOp::F2i),
        Instruction::F2l => Some(FloatOp::F2l),
        Instruction::F2d => Some(FloatOp::F2d),
        Instruction::D2i => Some(FloatOp::D2i),
        Instruction::D2l => Some(FloatOp::D2l),
        Instruction::D2f => Some(FloatOp::D2f),
        _ => None,
    }
}

pub fn float_op_for(instruction: Instruction) -> (r: Option<FloatOp>)
    ensures
        r == float_op_of(instruction),
{
    match instruction {
        Instruction::Fadd => Some(FloatOp::Fadd),
        Instruction::Fsub => Some(FloatOp::Fsub),
        Instruction::Fmul => Some(FloatOp::Fmul),
        Instruction::Fdiv => Some(FloatOp::Fdiv),
        Instruction::Frem => Some(FloatOp::Frem),
        Instruction::Dadd => Some(FloatOp::Dadd),
        Instruction::Dsub => Some(FloatOp::Dsub),
        Instruction::Dmul => Some(FloatOp::Dmul),
        Instruction::Ddiv => Some(FloatOp::Ddiv),
        Instruction::Drem => Some(FloatOp::Drem),
        Instruction::I2f => Some(FloatOp::I2f),
        Instruction::I2d => Some(FloatOp::I2d),
        Instruction::L2f => Some(FloatOp::L2f),
        Instruction::L2d => Some(FloatOp::L2d),
        Instruction::F2i => Some(FloatOp::F2i),
        Instruction::F2l => Some(FloatOp::F2l),
        Instruction::F2d => Some(FloatOp::F2d),
        Instruction::D2i => Some(FloatOp::D2i),
        Instruction::D2l => Some(FloatOp::D2l),
        Instruction::D2f => Some(FloatOp::D2f),
        _ => None,
    }
}

/// The shape of the operands of a floating-point operation, and whether
/// it takes two of them.
pub open spec fn float_operands(op: FloatOp) -> (Shape, bool) {
    match op {
        FloatOp::Fadd | FloatOp::Fsub | FloatOp::Fmul | FloatOp::Fdiv | FloatOp::Frem => (
            Shape::Float,
            true,
        ),
        FloatOp::Dadd | FloatOp::Dsub | FloatOp::Dmul | FloatOp::Ddiv | FloatOp::Drem => (
            Shape::Double,
            true,
        ),
        FloatOp::I2f | FloatOp::I2d => (Shape::Int, false),
        FloatOp::L2f | FloatOp::L2d => (Shape::Long, false),
        FloatOp::F2i | FloatOp::F2l | FloatOp::F2d => (Shape::Float, false),
        FloatOp::D2i | FloatOp::D2l | FloatOp::D2f => (Shape::Double, false),
    }
}

pub fn operands_of(op: FloatOp) -> (r: (Shape, bool))
    ensures
        r == float_operands(op),
{
    match op {
        FloatOp::Fadd | FloatOp::Fsub | FloatOp::Fmul | FloatOp::Fdiv | FloatOp::Frem => (
            Shape::Float,
            true,
        ),
        FloatOp::Dadd | FloatOp::Dsub | FloatOp::Dmul | FloatOp::Ddiv | FloatOp::Drem => (
            Shape::Double,
            true,
        ),
        FloatOp::I2f | FloatOp::I2d => (Shape::Int, false),
        FloatOp::L2f | FloatOp::L2d => (Shape::Long, false),
        FloatOp::F2i | FloatOp::F2l | FloatOp::F2d => (Shape::Float, false),
        FloatOp::D2i | FloatOp::D2l | FloatOp::D2f => (Shape::Double, false),
    }
}

/// The bits of a value as an operand of a floating-point operation.
pub open spec fn operand_bits(value: Value) -> u64 {
    match value {
        Value::Int(v) => (v as u32) as u64,
        Value::Long(v) => v as u64,
        Value::Float(v) => v as u64,
        Value::Double(v) => v,
        _ => 0,
    }
}

pub fn bits_of_operand(value: &Value) -> (r: u64)
    ensures
        r == operand_bits(*value),
{
    match value {
        Value::Int(v) => (#[verifier::truncate] (*v as u32)) as u64,
        Value::Long(v) => #[verifier::truncate] (*v as u64),
        Value::Float(v) => *v as u64,
        Value::Double(v) => *v,
        _ => 0,
    }
}

/// The value that a division or a remainder has without being computed:
/// the canonical NaN, where the operands decide so.
pub open spec fn decided_quotient(op: FloatOp, first: Value, second: Value) -> Option<Value> {
    match (op, first, second) {
        (FloatOp::Fdiv, Value::Float(a), Value::Float(b)) => if single_division_is_nan(a, b) {
            Some(Value::Float(SINGLE_NAN))
        } else {
            None
        },
        (FloatOp::Frem, Value::Float(a), Value::Float(b)) => if single_division_is_nan(a, b) {
            Some(Value::Float(SINGLE_NAN))
        } else {
            None
        },
        (FloatOp::Ddiv, Value::Double(a), Value::Double(b)) => if double_division_is_nan(a, b) {
            Some(Value::Double(DOUBLE_NAN))
        } else {
            None
        },
        (FloatOp::Drem, Value::Double(a), Value::Double(b)) => if double_division_is_nan(a, b) {
            Some(Value::Double(DOUBLE_NAN))
        } else {
            None
        },
        _ => None,
    }
}

pub fn quotient_decided(op: FloatOp, first: &Value, second: &Value) -> (r: Option<Value>)
    ensures
        r == decided_quotient(op, *first, *second),
{
    match (op, first, second) {
        (FloatOp::Fdiv, Value::Float(a), Value::Float(b)) => if is_single_division_returning_nan(
            *a,
            *b,
        ) {
            Some(Value::Float(SINGLE_NAN))
        } else {
            None
        },
        (FloatOp::Frem, Value::Float(a), Value::Float(b)) => if is_single_division_returning_nan(
            *a,
            *b,
        ) {
            Some(Value::Float(SINGLE_NAN))
        } else {
            None
        },
        (FloatOp::Ddiv, Value::Double(a), Value::Double(b)) => if is_double_division_returning_nan(
            *a,
            *b,
        ) {
            Some(Value::Double(DOUBLE_NAN))
        } else {
            None
        },
        (FloatOp::Drem, Value::Double(a), Value::Double(b)) => if is_double_division_returning_nan(
            *a,
            *b,
        ) {
            Some(Value::Double(DOUBLE_NAN))
        } else {
            None
        },
        _ => None,
    }
}

/// What an instruction on one value makes of it, where the value has the
/// kind that the instruction takes: negations, and the conversions
/// between integers. Negating a floating-point pattern flips its sign
/// bit.
pub open spec fn unary_of(instruction: Instruction, value: Value) -> Option<Value> {
    match (instruction, value) {
        (Instruction::Ineg, Value::Int(v)) => Some(
            Value::Int(vstd::wrapping::i32_specs::wrapping_sub(0, v)),
        ),
        (Instruction::Lneg, Value::Long(v)) => Some(
            Value::Long(vstd::wrapping::i64_specs::wrapping_sub(0, v)),
        ),
        (Instruction::Fneg, Value::Float(v)) => Some(Value::Float(v ^ 0x8000_0000)),
        (Instruction::Dneg, Value::Double(v)) => Some(Value::Double(v ^ 0x8000_0000_0000_0000)),
        (Instruction::I2b, Value::Int(v)) => Some(Value::Int((v as i8) as i32)),
        (Instruction::I2c, Value::Int(v)) => Some(Value::Int((v as u16) as i32)),
        (Instruction::I2s, Value::Int(v)) => Some(Value::Int((v as i16) as i32)),
        (Instruction::I2l, Value::Int(v)) => Some(Value::Long(v as i64)),
        (Instruction::L2i, Value::Long(v)) => Some(Value::Int(v as i32)),
        _ => None,
    }
}

/// Whether the instruction works on one value of the operand stack alone.
pub open spec fn is_unary(instruction: Instruction) -> bool {
    match instruction {
        Instruction::Ineg | Instruction::Lneg | Instruction::Fneg | Instruction::Dneg
        | Instruction::I2b | Instruction::I2c | Instruction::I2s | Instruction::I2l
        | Instruction::L2i => true,
        _ => false,
    }
}

pub fn unary(instruction: Instruction) -> (r: bool)
    ensures
        r == is_unary(instruction),
{
    match instruction {
        Instruction::Ineg | Instruction::Lneg | Instruction::Fneg | Instruction::Dneg
        | Instruction::I2b | Instruction::I2c | Instruction::I2s | Instruction::I2l
        | Instruction::L2i => true,
        _ => false,
    }
}

pub fn unary_for(instruction: Instruction, value: &Value) -> (r: Option<Value>)
    ensures
        r == unary_of(instruction, *value),
{
    match (instruction, value) {
        (Instruction::Ineg, Value::Int(v)) => Some(Value::Int(0i32.wrapping_sub(*v))),
        (Instruction::Lneg, Value::Long(v)) => Some(Value::Long(0i64.wrapping_sub(*v))),
        (Instruction::Fneg, Value::Float(v)) => Some(Value::Float(*v ^ 0x8000_0000)),
        (Instruction::Dneg, Value::Double(v)) => Some(Value::Double(*v ^ 0x8000_0000_0000_0000)),
        (Instruction::I2b, Value::Int(v)) => Some(
            Value::Int((#[verifier::truncate] (*v as i8)) as i32),
        ),
        (Instruction::I2c, Value::Int(v)) => Some(
            Value::Int((#[verifier::truncate] (*v as u16)) as i32),
        ),
        (Instruction::I2s, Value::Int(v)) => Some(
            Value::Int((#[verifier::truncate] (*v as i16)) as i32),
        ),
        (Instruction::I2l, Value::Int(v)) => Some(Value::Long(*v as i64)),
        (Instruction::L2i, Value::Long(v)) => Some(Value::Int(#[verifier::truncate] (*v as i32))),
        _ => None,
    }
}

/// The result of an instruction that compares the two values on top of
/// the stack, where they have the kind that the instruction takes. A
/// comparison with a NaN gives 1 for `fcmpg` and `dcmpg`, and -1 for
/// `fcmpl` and `dcmpl`.
pub open spec fn comparison_of(instruction: Instruction, first: Value, second: Value) -> Option<
    i32,
> {
    match (instruction, first, second) {
        (Instruction::Lcmp, Value::Long(a), Value::Long(b)) => Some(long_comparison(a, b)),
        (Instruction::Fcmpl, Value::Float(a), Value::Float(b)) => Some(
            single_comparison(a, b, -1i32),
        ),
        (Instruction::Fcmpg, Value::Float(a), Value::Float(b)) => Some(single_comparison(a, b, 1)),
        (Instruction::Dcmpl, Value::Double(a), Value::Double(b)) => Some(
            double_comparison(a, b, -1i32),
        ),
        (Instruction::Dcmpg, Value::Double(a), Value::Double(b)) => Some(
            double_comparison(a, b, 1),
        ),
        _ => None,
    }
}

/// Whether the instruction compares the two values on top of the stack.
pub open spec fn is_comparison(instruction: Instruction) -> bool {
    match instruction {
        Instruction::Lcmp | Instruction::Fcmpl | Instruction::Fcmpg | Instruction::Dcmpl
        | Instruction::Dcmpg => true,
        _ => false,
    }
}

pub fn comparison(instruction: Instruction) -> (r: bool)
    ensures
        r == is_comparison(instruction),
{
    match instruction {
        Instruction::Lcmp | Instruction::Fcmpl | Instruction::Fcmpg | Instruction::Dcmpl
        | Instruction::Dcmpg => true,
        _ => false,
    }
}

pub fn comparison_for(instruction: Instruction, first: &Value, second: &Value) -> (r: Option<i32>)
    ensures
        r == comparison_of(instruction, *first, *second),
{
    match (instruction, first, second) {
        (Instruction::Lcmp, Value::Long(a), Value::Long(b)) => Some(compare_longs(*a, *b)),
        (Instruction::Fcmpl, Value::Float(a), Value::Float(b)) => Some(
            compare_singles(*a, *b, -1),
        ),
        (Instruction::Fcmpg, Value::Float(a), Value::Float(b)) => Some(compare_singles(*a, *b, 1)),
        (Instruction::Dcmpl, Value::Double(a), Value::Double(b)) => Some(
            compare_doubles(*a, *b, -1),
        ),
        (Instruction::Dcmpg, Value::Double(a), Value::Double(b)) => Some(
            compare_doubles(*a, *b, 1),
        ),
        _ => None,
    }
}

/// A 16-bit offset as a 32-bit one.
#[verifier::when_used_as_spec(widened)]
pub fn widen(offset: i16) -> (r: i32)
    ensures
        r == widened(offset),
{
    offset as i32
}

pub open spec fn widened(offset: i16) -> i32 {
    offset as i32
}

/// How a branch decides and where it goes.
#[derive(Debug, Clone, Copy, PartialEq, Eq, Structural)]
pub enum Branch {
    /// Compares the integer on top of the stack with zero.
    Zero(Condition, i32),
    /// Compares the two integers on top of the stack.
    Ints(Condition, i32),
    /// Goes where the two references on top of the stack are the same
    /// (`true`) or are not the same (`false`).
    References(bool, i32),
    /// Goes where the reference on top of the stack is null (`true`) or
    /// is not null (`false`).
    Null(bool, i32),
    Always(i32),
    /// Pushes the position of the next instruction, then goes.
    Subroutine(i32),
}

/// The branch that an instruction stands for.
pub open spec fn branch_of(instruction: Instruction) -> Option<Branch> {
    match instruction {
        Instruction::Ifeq(offset) => Some(Branch::Zero(Condition::Eq, widen(offset))),
        Instruction::Ifne(offset) => Some(Branch::Zero(Condition::Ne, widen(offset))),
        Instruction::Iflt(offset) => Some(Branch::Zero(Condition::Lt, widen(offset))),
        Instruction::Ifge(offset) => Some(Branch::Zero(Condition::Ge, widen(offset))),
        Instruction::Ifgt(offset) => Some(Branch::Zero(Condition::Gt, widen(offset))),
        Instruction::Ifle(offset) => Some(Branch::Zero(Condition::Le, widen(offset))),
        Instruction::If_icmpeq(offset) => Some(Branch::Ints(Condition::Eq, widen(offset))),
        Instruction::If_icmpne(offset) => Some(Branch::Ints(Condition::Ne, widen(offset))),
        Instruction::If_icmplt(offset) => Some(Branch::Ints(Condition::Lt, widen(offset))),
        Instruction::If_icmpge(offset) => Some(Branch::Ints(Condition::Ge, widen(offset))),
        Instruction::If_icmpgt(offset) => Some(Branch::Ints(Condition::Gt, widen(offset))),
        Instruction::If_icmple(offset) => Some(Branch::Ints(Condition::Le, widen(offset))),
        Instruction::If_acmpeq(offset) => Some(Branch::References(true, widen(offset))),
        Instruction::If_acmpne(offset) => Some(Branch::References(false, widen(offset))),
        Instruction::Ifnull(offset) => Some(Branch::Null(true, widen(offset))),
        Instruction::Ifnonnull(offset) => Some(Branch::Null(false, widen(offset))),
        Instruction::Goto(offset) => Some(Branch::Always(widen(offset))),
        Instruction::Goto_w(offset) => Some(Branch::Always(offset)),
        Instruction::Jsr(offset) => Some(Branch::Subroutine(widen(offset))),
        Instruction::Jsr_w(offset) => Some(Branch::Subroutine(offset)),
        _ => None,
    }
}

pub fn branch_for(instruction: Instruction) -> (r: Option<Branch>)
    ensures
        r == branch_of(instruction),
{
    match instruction {
        Instruction::Ifeq(offset) => Some(Branch::Zero(Condition::Eq, widen(offset))),
        Instruction::Ifne(offset) => Some(Branch::Zero(Condition::Ne, widen(offset))),
        Instruction::Iflt(offset) => Some(Branch::Zero(Condition::Lt, widen(offset))),
        Instruction::Ifge(offset) => Some(Branch::Zero(Condition::Ge, widen(offset))),
        Instruction::Ifgt(offset) => Some(Branch::Zero(Condition::Gt, widen(offset))),
        Instruction::Ifle(offset) => Some(Branch::Zero(Condition::Le, widen(offset))),
        Instruction::If_icmpeq(offset) => Some(Branch::Ints(Condition::Eq, widen(offset))),
        Instruction::If_icmpne(offset) => Some(Branch::Ints(Condition::Ne, widen(offset))),
        Instruction::If_icmplt(offset) => Some(Branch::Ints(Condition::Lt, widen(offset))),
        Instruction::If_icmpge(offset) => Some(Branch::Ints(Condition::Ge, widen(offset))),
        Instruction::If_icmpgt(offset) => Some(Branch::Ints(Condition::Gt, widen(offset))),
        Instruction::If_icmple(offset) => Some(Branch::Ints(Condition::Le, widen(offset))),
        Instruction::If_acmpeq(offset) => Some(Branch::References(true, widen(offset))),
        Instruction::If_acmpne(offset) => Some(Branch::References(false, widen(offset))),
        Instruction::Ifnull(offset) => Some(Branch::Null(true, widen(offset))),
        Instruction::Ifnonnull(offset) => Some(Branch::Null(false, widen(offset))),
        Instruction::Goto(offset) => Some(Branch::Always(widen(offset))),
        Instruction::Goto_w(offset) => Some(Branch::Always(offset)),
        Instruction::Jsr(offset) => Some(Branch::Subroutine(widen(offset))),
        Instruction::Jsr_w(offset) => Some(Branch::Subroutine(offset)),
        _ => None,
    }
}

/// The shape of the value that a return instruction returns; `None` for
/// the `return` that returns nothing.
pub open spec fn return_of(instruction: Instruction) -> Option<Option<Shape>> {
    match instruction {
        Instruction::Ireturn => Some(Some(Shape::Int)),
        Instruction::Lreturn => Some(Some(Shape::Long)),
        Instruction::Freturn => Some(Some(Shape::Float)),
        Instruction::Dreturn => Some(Some(Shape::Double)),
        Instruction::Areturn => Some(Some(Shape::Reference)),
        Instruction::Return => Some(None),
        _ => None,
    }
}

pub fn return_for(instruction: Instruction) -> (r: Option<Option<Shape>>)
    ensures
        r == return_of(instruction),
{
    match instruction {
        Instruction::Ireturn => Some(Some(Shape::Int)),
        Instruction::Lreturn => Some(Some(Shape::Long)),
        Instruction::Freturn => Some(Some(Shape::Float)),
        Instruction::Dreturn => Some(Some(Shape::Double)),
        Instruction::Areturn => Some(Some(Shape::Reference)),
        Instruction::Return => Some(None),
        _ => None,
    }
}

/// The local variable and the amount of an increment.
pub open spec fn increment_of(instruction: Instruction) -> Option<(int, i32)> {
    match instruction {
        Instruction::Iinc(index, amount) => Some((index as int, amount as i32)),
        Instruction::Wide(WideKind::Iinc, index, amount) => Some((index as int, amount as i32)),
        _ => None,
    }
}

pub fn increment_for(instruction: Instruction) -> (r: Option<(usize, i32)>)
    ensures
        match r {
            Some((index, amount)) => increment_of(instruction) == Some((index as int, amount)),
            None => increment_of(instruction) is None,
        },
{
    match instruction {
        Instruction::Iinc(index, amount) => Some((index as usize, amount as i32)),
        Instruction::Wide(WideKind::Iinc, index, amount) => Some((index as usize, amount as i32)),
        _ => None,
    }
}

/// The local variable from which a `ret` takes the position to go to.
pub open spec fn ret_of(instruction: Instruction) -> Option<int> {
    match instruction {
        Instruction::Ret(index) => Some(index as int),
        Instruction::Wide(WideKind::Ret, index, _) => Some(index as int),
        _ => None,
    }
}

pub fn ret_for(instruction: Instruction) -> (r: Option<usize>)
    ensures
        match r {
            Some(index) => ret_of(instruction) == Some(index as int),
            None => ret_of(instruction) is None,
        },
{
    match instruction {
        Instruction::Ret(index) => Some(index as usize),
        Instruction::Wide(WideKind::Ret, index, _) => Some(index as usize),
        _ => None,
    }
}


/// The parts of a frame that instructions read and change: the operand
/// stack with its capacity, the local variables, the position of the
/// instruction that is executed and the position of the next one.
pub struct FrameState {
    pub stack: Seq<Value>,
    pub capacity: int,
    pub locals: Seq<LocalValue>,
    pub pc: int,
    pub next_pc: int,
}

/// What an instruction comes to: what is left to do and the state it
/// leaves, or the error that ends the frame.
pub type Effect = Result<(InstructionResult, FrameState), VmError>;

/// The effect of an instruction that leaves the state `s` and goes on.
pub open spec fn goes_on(s: Result<FrameState, VmError>) -> Effect {
    match s {
        Ok(state) => Ok((InstructionResult::ContinueMethodExecution, state)),
        Err(e) => Err(e),
    }
}

/// The offset of a `tableswitch` at `pc` for the key that is `k` above
/// the lowest key.
pub open spec fn table_offset(code: Seq<u8>, pc: int, k: int) -> Option<i32> {
    let at = pc + 1 + switch_padding(pc) + 12 + 4 * k;
    if 0 <= at && at + 4 <= code.len() {
        Some(be_u32(code, at) as i32)
    } else {
        None
    }
}

/// The offset that the pairs of a `lookupswitch` give for `key`: that of
/// the first pair, from pair `from` on, whose key is `key`. `Ok(None)`
/// where no pair has the key, `Err` where a pair lies outside the code.
pub open spec fn lookup_offset(code: Seq<u8>, base: int, pairs: int, key: i32, from: int) -> Result<
    Option<i32>,
    (),
>
    decreases pairs - from,
{
    if from < 0 || from >= pairs {
        Ok(None)
    } else {
        let at = base + 8 * from;
        if at < 0 || at + 8 > code.len() {
            Err(())
        } else if be_u32(code, at) as i32 == key {
            Ok(Some(be_u32(code, at + 4) as i32))
        } else {
            lookup_offset(code, base, pairs, key, from + 1)
        }
    }
}

/// What the instructions that only rearrange the operand stack leave in
/// place of the values they look at.
pub open spec fn rearrangement_of(instruction: Instruction, stack: Seq<Value>) -> Option<
    Option<(int, Seq<Value>)>,
> {
    let n = stack.len() as int;
    match instruction {
        Instruction::Dup => Some(
            if n >= 1 {
                Some((1int, seq![stack[n - 1], stack[n - 1]]))
            } else {
                None
            },
        ),
        Instruction::Dup_x1 => Some(
            if n >= 2 {
                Some((2int, seq![stack[n - 1], stack[n - 2], stack[n - 1]]))
            } else {
                None
            },
        ),
        Instruction::Dup_x2 => Some(crate::operand_stack::dup_x2_form(stack)),
        Instruction::Dup2 => Some(crate::operand_stack::dup2_form(stack)),
        Instruction::Dup2_x1 => Some(crate::operand_stack::dup2_x1_form(stack)),
        Instruction::Dup2_x2 => Some(crate::operand_stack::dup2_x2_form(stack)),
        Instruction::Swap => Some(
            if n >= 2 {
                Some((2int, seq![stack[n - 1], stack[n - 2]]))
            } else {
                None
            },
        ),
        _ => None,
    }
}

impl FrameState {
    pub open spec fn push(self, value: Value) -> Result<FrameState, VmError> {
        if self.stack.len() < self.capacity {
            Ok(FrameState { stack: self.stack.push(value), ..self })
        } else {
            Err(VmError::StackOverFlow)
        }
    }

    pub open spec fn pop(self) -> Result<(Value, FrameState), VmError> {
        if self.stack.len() > 0 {
            Ok((self.stack.last(), FrameState { stack: self.stack.drop_last(), ..self }))
        } else {
            Err(VmError::PopFromEmptyStack)
        }
    }

    /// Takes the top value, which must have the shape `shape`.
    pub open spec fn pop_shaped(self, shape: Shape) -> Result<(Value, FrameState), VmError> {
        match self.pop() {
            Err(e) => Err(e),
            Ok((value, s)) => if has_shape(shape, value) {
                Ok((value, s))
            } else {
                Err(VmError::ValueTypeMissMatch)
            },
        }
    }

    /// The value of a local variable. The second half of a wide value
    /// cannot be read.
    pub open spec fn local(self, index: int) -> Result<Value, VmError> {
        if index < 0 || index >= self.locals.len() {
            Err(VmError::IndexOutOfBounds)
        } else {
            match self.locals[index] {
                LocalValue::Entry(value) => Ok(value),
                LocalValue::PlaceHolder => Err(VmError::InvalidOffset(index as usize)),
            }
        }
    }

    /// Assigns a local variable. A wide value also takes the variable
    /// behind it.
    pub open spec fn with_local(self, index: int, value: Value) -> Result<FrameState, VmError> {
        if index < 0 || index >= self.locals.len() {
            Err(VmError::IndexOutOfBounds)
        } else if value.is_wide() {
            if index + 1 >= self.locals.len() {
                Err(VmError::IndexOutOfBounds)
            } else {
                Ok(
                    FrameState {
                        locals: self.locals.update(index, LocalValue::Entry(value)).update(
                            index + 1,
                            LocalValue::PlaceHolder,
                        ),
                        ..self
                    },
                )
            }
        } else {
            Ok(FrameState { locals: self.locals.update(index, LocalValue::Entry(value)), ..self })
        }
    }

    /// Makes `target` the position of the next instruction. It must lie
    /// in the code or directly behind it.
    pub open spec fn jump(self, target: int, code_len: int) -> Result<FrameState, VmError> {
        if 0 <= target <= code_len {
            Ok(FrameState { next_pc: target, ..self })
        } else {
            Err(VmError::IndexOutOfBounds)
        }
    }

    pub open spec fn constant(self, value: Value) -> Effect {
        goes_on(self.push(value))
    }

    /// A load: the local variable must be readable and of the shape of
    /// the load; its value is pushed.
    pub open spec fn load(self, shape: Shape, index: int) -> Effect {
        match self.local(index) {
            Err(e) => Err(e),
            Ok(value) => if has_shape(shape, value) {
                goes_on(self.push(value))
            } else {
                Err(VmError::ValueTypeMissMatch)
            },
        }
    }

    /// A store: the top value, of the shape of the store, goes into the
    /// local variable.
    pub open spec fn store(self, shape: Shape, index: int) -> Effect {
        match self.pop_shaped(shape) {
            Err(e) => Err(e),
            Ok((value, s)) => goes_on(s.with_local(index, value)),
        }
    }

    /// An operation on the two integers on top of the stack. A division
    /// by zero raises `ArithmeticException`.
    pub open spec fn int_binary(self, op: IntOp) -> Effect {
        match self.pop_shaped(Shape::Int) {
            Err(e) => Err(e),
            Ok((second, s1)) => match s1.pop_shaped(Shape::Int) {
                Err(e) => Err(e),
                Ok((first, s2)) => match int_result(op, first->Int_0, second->Int_0) {
                    Some(v) => goes_on(s2.push(Value::Int(v))),
                    None => Ok((InstructionResult::Raise(JavaException::ArithmeticException), s2)),
                },
            },
        }
    }

    /// An operation on the two longs on top of the stack, or on a long
    /// and the shift count above it. A division by zero raises
    /// `ArithmeticException`.
    pub open spec fn long_binary(self, op: IntOp) -> Effect {
        match self.pop_shaped(
            if is_shift(op) {
                Shape::Int
            } else {
                Shape::Long
            },
        ) {
            Err(e) => Err(e),
            Ok((second, s1)) => match s1.pop_shaped(Shape::Long) {
                Err(e) => Err(e),
                Ok((first, s2)) => match long_result(
                    op,
                    first->Long_0,
                    if is_shift(op) {
                        second->Int_0 as i64
                    } else {
                        second->Long_0
                    },
                ) {
                    Some(v) => goes_on(s2.push(Value::Long(v))),
                    None => Ok((InstructionResult::Raise(JavaException::ArithmeticException), s2)),
                },
            },
        }
    }

    /// A negation or a conversion between integers.
    pub open spec fn unary(self, instruction: Instruction) -> Effect {
        match self.pop() {
            Err(e) => Err(e),
            Ok((value, s)) => match unary_of(instruction, value) {
                Some(v) => goes_on(s.push(v)),
                None => Err(VmError::ValueTypeMissMatch),
            },
        }
    }

    /// A floating-point operation: the operands are taken from the
    /// stack; the result is pushed where the operands decide it, and
    /// asked of the host otherwise.
    pub open spec fn float(self, op: FloatOp) -> Effect {
        let (shape, two) = float_operands(op);
        if two {
            match self.pop_shaped(shape) {
                Err(e) => Err(e),
                Ok((second, s1)) => match s1.pop_shaped(shape) {
                    Err(e) => Err(e),
                    Ok((first, s2)) => match decided_quotient(op, first, second) {
                        Some(v) => goes_on(s2.push(v)),
                        None => Ok(
                            (
                                InstructionResult::NeedFloat(
                                    FloatRequest {
                                        op,
                                        first: operand_bits(first),
                                        second: operand_bits(second),
                                    },
                                ),
                                s2,
                            ),
                        ),
                    },
                },
            }
        } else {
            match self.pop_shaped(shape) {
                Err(e) => Err(e),
                Ok((first, s1)) => Ok(
                    (
                        InstructionResult::NeedFloat(
                            FloatRequest { op, first: operand_bits(first), second: 0 },
                        ),
                        s1,
                    ),
                ),
            }
        }
    }

    /// A comparison of the two values on top of the stack.
    pub open spec fn comparison(self, instruction: Instruction) -> Effect {
        match self.pop() {
            Err(e) => Err(e),
            Ok((second, s1)) => match s1.pop() {
                Err(e) => Err(e),
                Ok((first, s2)) => match comparison_of(instruction, first, second) {
                    Some(v) => goes_on(s2.push(Value::Int(v))),
                    None => Err(VmError::ValueTypeMissMatch),
                },
            },
        }
    }

    /// Goes to `offset` from the current instruction where `taken`.
    pub open spec fn go(self, taken: bool, offset: i32, code_len: int) -> Effect {
        if taken {
            goes_on(self.jump(self.pc + offset, code_len))
        } else {
            goes_on(Ok(self))
        }
    }

    pub open spec fn branch(self, branch: Branch, code_len: int) -> Effect {
        match branch {
            Branch::Zero(condition, offset) => match self.pop_shaped(Shape::Int) {
                Err(e) => Err(e),
                Ok((value, s)) => s.go(
                    condition_holds(condition, value->Int_0 as int, 0),
                    offset,
                    code_len,
                ),
            },
            Branch::Ints(condition, offset) => match self.pop_shaped(Shape::Int) {
                Err(e) => Err(e),
                Ok((second, s1)) => match s1.pop_shaped(Shape::Int) {
                    Err(e) => Err(e),
                    Ok((first, s2)) => s2.go(
                        condition_holds(condition, first->Int_0 as int, second->Int_0 as int),
                        offset,
                        code_len,
                    ),
                },
            },
            Branch::References(same, offset) => match self.pop_shaped(Shape::Reference) {
                Err(e) => Err(e),
                Ok((second, s1)) => match s1.pop_shaped(Shape::Reference) {
                    Err(e) => Err(e),
                    Ok((first, s2)) => s2.go((first == second) == same, offset, code_len),
                },
            },
            Branch::Null(null, offset) => match self.pop_shaped(Shape::Reference) {
                Err(e) => Err(e),
                Ok((value, s)) => s.go((value is Null) == null, offset, code_len),
            },
            Branch::Always(offset) => self.go(true, offset, code_len),
            Branch::Subroutine(offset) => match self.push(
                Value::ReturnAddress(self.next_pc as u32),
            ) {
                Err(e) => Err(e),
                Ok(s) => s.go(true, offset, code_len),
            },
        }
    }

    /// Goes to the position that a local variable holds.
    pub open spec fn ret(self, index: int, code_len: int) -> Effect {
        match self.local(index) {
            Err(e) => Err(e),
            Ok(Value::ReturnAddress(address)) => goes_on(self.jump(address as int, code_len)),
            Ok(_) => Err(VmError::ValueTypeMissMatch),
        }
    }

    /// A return: the value, where there is one, is taken from the stack
    /// and must have the shape of the return.
    pub open spec fn leave(self, shape: Option<Shape>) -> Effect {
        match shape {
            None => Ok((InstructionResult::ReturnFromMethod(None), self)),
            Some(shape) => match self.pop_shaped(shape) {
                Err(e) => Err(e),
                Ok((value, s)) => Ok((InstructionResult::ReturnFromMethod(Some(value)), s)),
            },
        }
    }

    /// Adds `amount` to an integer local variable; the sum wraps around.
    pub open spec fn increment(self, index: int, amount: i32) -> Effect {
        match self.local(index) {
            Err(e) => Err(e),
            Ok(Value::Int(v)) => goes_on(
                self.with_local(
                    index,
                    Value::Int(vstd::wrapping::i32_specs::wrapping_add(v, amount)),
                ),
            ),
            Ok(_) => Err(VmError::ValueTypeMissMatch),
        }
    }

    /// `pop2`: takes a wide value, or two values that are not wide.
    pub open spec fn pop2(self) -> Effect {
        match self.pop() {
            Err(e) => Err(e),
            Ok((first, s1)) => if first.is_wide() {
                goes_on(Ok(s1))
            } else {
                match s1.pop() {
                    Err(e) => Err(e),
                    Ok((second, s2)) => if second.is_wide() {
                        Err(VmError::ValueTypeMissMatch)
                    } else {
                        goes_on(Ok(s2))
                    },
                }
            },
        }
    }

    /// A duplication or a swap.
    pub open spec fn rearrange(self, form: Option<(int, Seq<Value>)>) -> Effect {
        match form {
            None => Err(VmError::PopFromEmptyStack),
            Some((taken, left)) => if self.stack.len() - taken + left.len() > self.capacity {
                Err(VmError::StackOverFlow)
            } else {
                goes_on(
                    Ok(
                        FrameState {
                            stack: crate::operand_stack::replaced_top(self.stack, taken, left),
                            ..self
                        },
                    ),
                )
            },
        }
    }

    /// A `tableswitch` with this default offset and these keys: the
    /// integer on top of the stack picks the offset.
    pub open spec fn table_switch(self, code: Seq<u8>, default: i32, low: i32, high: i32) -> Effect {
        match self.pop_shaped(Shape::Int) {
            Err(e) => Err(e),
            Ok((key, s)) => if key->Int_0 < low || key->Int_0 > high {
                s.go(true, default, code.len() as int)
            } else {
                match table_offset(code, self.pc, key->Int_0 - low) {
                    Some(offset) => s.go(true, offset, code.len() as int),
                    None => Err(VmError::IndexOutOfBounds),
                }
            },
        }
    }

    /// A `lookupswitch` with this default offset and this number of
    /// pairs: the integer on top of the stack is looked up in the pairs.
    pub open spec fn lookup_switch(self, code: Seq<u8>, default: i32, pairs: i32) -> Effect {
        match self.pop_shaped(Shape::Int) {
            Err(e) => Err(e),
            Ok((key, s)) => match lookup_offset(
                code,
                self.pc + 1 + switch_padding(self.pc) + 8,
                pairs as int,
                key->Int_0,
                0,
            ) {
                Err(_) => Err(VmError::IndexOutOfBounds),
                Ok(Some(offset)) => s.go(true, offset, code.len() as int),
                Ok(None) => s.go(true, default, code.len() as int),
            },
        }
    }
}

/// What an instruction does that touches nothing but the frame; `None`
/// for the instructions that need the heap or the classes.
pub open spec fn local_step(s: FrameState, code: Seq<u8>, instruction: Instruction) -> Option<
    Effect,
> {
    if constant_of(instruction) is Some {
        Some(s.constant(constant_of(instruction)->0))
    } else if load_of(instruction) is Some {
        let found = load_of(instruction)->0;
        Some(s.load(found.0, found.1))
    } else if store_of(instruction) is Some {
        let found = store_of(instruction)->0;
        Some(s.store(found.0, found.1))
    } else if int_op_of(instruction) is Some {
        Some(s.int_binary(int_op_of(instruction)->0))
    } else if long_op_of(instruction) is Some {
        Some(s.long_binary(long_op_of(instruction)->0))
    } else if is_unary(instruction) {
        Some(s.unary(instruction))
    } else if float_op_of(instruction) is Some {
        Some(s.float(float_op_of(instruction)->0))
    } else if is_comparison(instruction) {
        Some(s.comparison(instruction))
    } else if branch_of(instruction) is Some {
        Some(s.branch(branch_of(instruction)->0, code.len() as int))
    } else if ret_of(instruction) is Some {
        Some(s.ret(ret_of(instruction)->0, code.len() as int))
    } else if return_of(instruction) is Some {
        Some(s.leave(return_of(instruction)->0))
    } else if increment_of(instruction) is Some {
        let found = increment_of(instruction)->0;
        Some(s.increment(found.0, found.1))
    } else if rearrangement_of(instruction, s.stack) is Some {
        Some(s.rearrange(rearrangement_of(instruction, s.stack)->0))
    } else {
        match instruction {
            Instruction::Nop => Some(goes_on(Ok(s))),
            Instruction::Pop => Some(
                match s.pop() {
                    Err(e) => Err(e),
                    Ok((_, s1)) => goes_on(Ok(s1)),
                },
            ),
            Instruction::Pop2 => Some(s.pop2()),
            Instruction::Monitorenter | Instruction::Monitorexit => Some(
                match s.pop_shaped(Shape::Reference) {
                    Err(e) => Err(e),
                    Ok((_, s1)) => goes_on(Ok(s1)),
                },
            ),
            Instruction::Tableswitch(default, low, high) => Some(
                s.table_switch(code, default, low, high),
            ),
            Instruction::Lookupswitch(default, pairs) => Some(
                s.lookup_switch(code, default, pairs),
            ),
            _ => None,
        }
    }
}

/// The local variables with which a frame starts: the receiver, if
/// there is one, and the arguments, each wide value followed by a
/// placeholder.
pub open spec fn laid_locals(values: Seq<Value>, from: int) -> Seq<LocalValue>
    decreases values.len() - from,
{
    if from < 0 || from >= values.len() {
        Seq::empty()
    } else if values[from].is_wide() {
        seq![LocalValue::Entry(values[from]), LocalValue::PlaceHolder] + laid_locals(
            values,
            from + 1,
        )
    } else {
        seq![LocalValue::Entry(values[from])] + laid_locals(values, from + 1)
    }
}

/// The local variables of a frame at entry: the receiver and the
/// arguments as `laid_locals` lays them, then uninitialized variables up
/// to `max_locals`.
pub open spec fn initial_locals(values: Seq<Value>, max_locals: int) -> Seq<LocalValue> {
    laid_locals(values, 0) + Seq::new(
        (max_locals - laid_locals(values, 0).len()) as nat,
        |i: int| LocalValue::Entry(Value::Uninitialized),
    )
}

pub struct StackFrame {
    pub class_ref: ClassRef,
    pub method_ref: MethodRef,
    /// The position of the instruction that is executed.
    pub pc: usize,
    /// The position of the instruction that is executed next.
    pub next_pc: usize,
    pub local_var_table: Vec<LocalValue>,
    pub op_stack: OperandStack,
    /// The class whose initializer the frame runs, if it runs one.
    pub initializes: Option<ClassRef>,
    /// Whether the host started the frame; else an instruction did.
    pub host: bool,
    pub pending: Pending,
}

impl StackFrame {
    /// The invariant of a frame.
    pub open spec fn wf(&self) -> bool {
        self.op_stack.wf()
    }

    pub open spec fn state(&self) -> FrameState {
        FrameState {
            stack: self.op_stack@,
            capacity: self.op_stack.capacity(),
            locals: self.local_var_table@,
            pc: self.pc as int,
            next_pc: self.next_pc as int,
        }
    }

    /// Whether `after` is the same invocation as this frame, with the
    /// same limits: what instructions never change.
    pub open spec fn same_invocation(&self, after: &StackFrame) -> bool {
        &&& after.class_ref == self.class_ref
        &&& after.method_ref == self.method_ref
        &&& after.initializes == self.initializes
        &&& after.host == self.host
        &&& after.pending == self.pending
        &&& after.op_stack.capacity() == self.op_stack.capacity()
        &&& after.local_var_table@.len() == self.local_var_table@.len()
        &&& after.pc == self.pc
    }

    /// Whether `after` is the same invocation as this frame, with the
    /// same limits, wherever the two stand in the code.
    pub open spec fn same_invocation_but_pc(&self, after: StackFrame) -> bool {
        &&& after.class_ref == self.class_ref
        &&& after.method_ref == self.method_ref
        &&& after.initializes == self.initializes
        &&& after.host == self.host
        &&& after.pending == self.pending
        &&& after.op_stack.capacity() == self.op_stack.capacity()
        &&& after.local_var_table@.len() == self.local_var_table@.len()
    }

    /// What the frame is like after an instruction with the effect
    /// `effect`: the result is that of the effect, and so is the state
    /// unless the effect is an error.
    pub open spec fn follows(&self, after: &StackFrame, effect: Effect, r: VmExecResult<
        InstructionResult,
    >) -> bool {
        &&& after.wf()
        &&& self.same_invocation(after)
        &&& match effect {
            Ok((result, state)) => r == Ok::<_, VmError>(result) && after.state() == state,
            Err(e) => r == Err::<InstructionResult, _>(e),
        }
    }

    /// The frame of an invocation: an empty operand stack of
    /// `max_stack` values, and `max_locals` local variables that start
    /// with the receiver and the arguments. `None` where these do not
    /// fit into `max_locals` variables.
    pub fn new(
        class_ref: ClassRef,
        method_ref: MethodRef,
        code: &CodeAttribute,
        local_variables: Vec<Value>,
    ) -> (r: Option<StackFrame>)
        ensures
            laid_locals(local_variables@, 0).len() <= code.max_locals ==> (r matches Some(frame)
                && frame.wf() && frame.class_ref == class_ref && frame.method_ref == method_ref
                && frame.pc == 0 && frame.next_pc == 0 && frame.op_stack@ == Seq::<Value>::empty()
                && frame.op_stack.capacity() == code.max_stack && frame.local_var_table@
                == initial_locals(local_variables@, code.max_locals as int) && frame.initializes
                is None && !frame.host && frame.pending is Nothing),
            laid_locals(local_variables@, 0).len() > code.max_locals ==> r is None,
    {
        let max_locals: usize = code.max_locals as usize;
        let mut locals: Vec<LocalValue> = Vec::new();
        let mut i: usize = 0;
        while i < local_variables.len()
            invariant
                i <= local_variables.len(),
                locals@.len() <= max_locals,
                max_locals == code.max_locals,
                locals@ + laid_locals(local_variables@, i as int) == laid_locals(
                    local_variables@,
                    0,
                ),
            decreases local_variables.len() - i,
        {
            let value = local_variables[i];
            let ghost before = locals@;
            let ghost rest = laid_locals(local_variables@, i + 1);
            proof {
                let here = laid_locals(local_variables@, i as int);
                assert((before + here).len() == before.len() + here.len());
                if value.is_wide() {
                    assert(here.len() == 2 + rest.len());
                } else {
                    assert(here.len() == 1 + rest.len());
                }
            }
            if value.wide() {
                if max_locals - locals.len() < 2 {
                    return None;
                }
                locals.push(LocalValue::Entry(value));
                locals.push(LocalValue::PlaceHolder);
                assert(locals@ + rest =~= before + (seq![
                    LocalValue::Entry(value),
                    LocalValue::PlaceHolder,
                ] + rest));
            } else {
                if max_locals - locals.len() < 1 {
                    return None;
                }
                locals.push(LocalValue::Entry(value));
                assert(locals@ + rest =~= before + (seq![LocalValue::Entry(value)] + rest));
            }
            i += 1;
        }
        assert(locals@ =~= laid_locals(local_variables@, 0));
        let ghost laid = locals@;
        while locals.len() < max_locals
            invariant
                locals@.len() <= max_locals,
                max_locals == code.max_locals,
                laid.len() <= locals@.len(),
                locals@ == laid + Seq::new(
                    (locals@.len() - laid.len()) as nat,
                    |i: int| LocalValue::Entry(Value::Uninitialized),
                ),
            decreases max_locals - locals.len(),
        {
            let ghost before = locals@;
            locals.push(LocalValue::Entry(Value::Uninitialized));
            assert(locals@ =~= laid + Seq::new(
                (before.len() + 1 - laid.len()) as nat,
                |i: int| LocalValue::Entry(Value::Uninitialized),
            ));
        }
        Some(
            StackFrame {
                class_ref,
                method_ref,
                pc: 0,
                next_pc: 0,
                local_var_table: locals,
                op_stack: OperandStack::new(code.max_stack as usize),
                initializes: None,
                host: false,
                pending: Pending::Nothing,
            },
        )
    }

    pub fn get_local(&self, offset: usize) -> (r: VmExecResult<Value>)
        ensures
            r == self.state().local(offset as int),
    {
        if offset >= self.local_var_table.len() {
            return Err(VmError::IndexOutOfBounds);
        }
        match &self.local_var_table[offset] {
            LocalValue::Entry(e) => Ok(*e),
            LocalValue::PlaceHolder => Err(VmError::InvalidOffset(offset)),
        }
    }

    pub fn set_local(&mut self, offset: usize, value: Value) -> (r: VmExecResult<()>)
        requires
            old(self).wf(),
        ensures
            final(self).wf(),
            old(self).same_invocation(final(self)),
            match old(self).state().with_local(offset as int, value) {
                Ok(s) => r is Ok && final(self).state() == s,
                Err(e) => r == Err::<(), _>(e) && final(self).state() == old(self).state(),
            },
    {
        let n = self.local_var_table.len();
        if offset >= n {
            return Err(VmError::IndexOutOfBounds);
        }
        if value.wide() {
            if n - offset < 2 {
                return Err(VmError::IndexOutOfBounds);
            }
            self.local_var_table.set(offset, LocalValue::Entry(value));
            self.local_var_table.set(offset + 1, LocalValue::PlaceHolder);
        } else {
            self.local_var_table.set(offset, LocalValue::Entry(value));
        }
        Ok(())
    }

    pub fn pop(&mut self) -> (r: VmExecResult<Value>)
        requires
            old(self).wf(),
        ensures
            final(self).wf(),
            old(self).same_invocation(final(self)),
            match old(self).state().pop() {
                Ok((value, s)) => r == Ok::<_, VmError>(value) && final(self).state() == s,
                Err(e) => r == Err::<Value, _>(e) && final(self).state() == old(self).state(),
            },
    {
        self.op_stack.pop()
    }

    pub fn push(&mut self, value: Value) -> (r: VmExecResult<()>)
        requires
            old(self).wf(),
        ensures
            final(self).wf(),
            old(self).same_invocation(final(self)),
            match old(self).state().push(value) {
                Ok(s) => r is Ok && final(self).state() == s,
                Err(e) => r == Err::<(), _>(e) && final(self).state() == old(self).state(),
            },
    {
        self.op_stack.push(value)
    }

    /// Takes the top value, which must have the shape `shape`.
    pub fn pop_shaped(&mut self, shape: Shape) -> (r: VmExecResult<Value>)
        requires
            old(self).wf(),
        ensures
            final(self).wf(),
            old(self).same_invocation(final(self)),
            match old(self).state().pop_shaped(shape) {
                Ok((value, s)) => r == Ok::<_, VmError>(value) && final(self).state() == s
                    && has_shape(shape, value),
                Err(e) => r == Err::<Value, _>(e),
            },
    {
        let value = self.op_stack.pop()?;
        if shape_matches(shape, &value) {
            Ok(value)
        } else {
            Err(VmError::ValueTypeMissMatch)
        }
    }

    pub fn pop_int(&mut self) -> (r: VmExecResult<i32>)
        requires
            old(self).wf(),
        ensures
            final(self).wf(),
            old(self).same_invocation(final(self)),
            match old(self).state().pop_shaped(Shape::Int) {
                Ok((value, s)) => r == Ok::<_, VmError>(value->Int_0) && final(self).state() == s,
                Err(e) => r == Err::<i32, _>(e),
            },
    {
        match self.pop_shaped(Shape::Int)? {
            Value::Int(v) => Ok(v),
            _ => Err(VmError::ValueTypeMissMatch),
        }
    }

    pub fn pop_long(&mut self) -> (r: VmExecResult<i64>)
        requires
            old(self).wf(),
        ensures
            final(self).wf(),
            old(self).same_invocation(final(self)),
            match old(self).state().pop_shaped(Shape::Long) {
                Ok((value, s)) => r == Ok::<_, VmError>(value->Long_0) && final(self).state() == s,
                Err(e) => r == Err::<i64, _>(e),
            },
    {
        match self.pop_shaped(Shape::Long)? {
            Value::Long(v) => Ok(v),
            _ => Err(VmError::ValueTypeMissMatch),
        }
    }

    pub fn pop_reference_or_null(&mut self) -> (r: VmExecResult<Value>)
        requires
            old(self).wf(),
        ensures
            final(self).wf(),
            old(self).same_invocation(final(self)),
            match old(self).state().pop_shaped(Shape::Reference) {
                Ok((value, s)) => r == Ok::<_, VmError>(value) && final(self).state() == s
                    && value.is_reference(),
                Err(e) => r == Err::<Value, _>(e),
            },
    {
        self.pop_shaped(Shape::Reference)
    }

    /// Makes `target` the position of the next instruction.
    pub fn goto(&mut self, target: i128, code_len: usize) -> (r: VmExecResult<()>)
        requires
            old(self).wf(),
        ensures
            final(self).wf(),
            old(self).same_invocation(final(self)),
            match old(self).state().jump(target as int, code_len as int) {
                Ok(s) => r is Ok && final(self).state() == s,
                Err(e) => r == Err::<(), _>(e) && final(self).state() == old(self).state(),
            },
    {
        if target < 0 || target > code_len as i128 {
            return Err(VmError::IndexOutOfBounds);
        }
        self.next_pc = target as usize;
        Ok(())
    }

    /// Goes to `offset` from the current instruction where `taken`.
    pub fn goto_offset(&mut self, taken: bool, offset: i32, code_len: usize) -> (r: VmExecResult<
        InstructionResult,
    >)
        requires
            old(self).wf(),
        ensures
            old(self).follows(final(self), old(self).state().go(taken, offset, code_len as int), r),
    {
        if taken {
            let target: i128 = self.pc as i128 + offset as i128;
            self.goto(target, code_len)?;
        }
        Ok(InstructionResult::ContinueMethodExecution)
    }
}

/// The 32-bit value that stands in the code at position `at`.
fn read_code_word(code: &Vec<u8>, at: i128) -> (r: Option<i32>)
    ensures
        0 <= at && at + 4 <= code@.len() ==> r == Some(be_u32(code@, at as int) as i32),
        !(0 <= at && at + 4 <= code@.len()) ==> r is None,
{
    if at < 0 || at > code.len() as i128 - 4 {
        return None;
    }
    let i: usize = at as usize;
    let word: u32 = (code[i] as u32) * 0x100_0000 + (code[i + 1] as u32) * 0x1_0000 + (code[i
        + 2] as u32) * 0x100 + (code[i + 3] as u32);
    Some(#[verifier::truncate] (word as i32))
}

/// The position behind the padding of a switch at `pc`.
fn switch_operands(pc: usize) -> (r: i128)
    ensures
        r == pc + 1 + switch_padding(pc as int),
{
    let used: usize = (pc % 4 + 1) % 4;
    let padding: usize = (4 - used) % 4;
    pc as i128 + 1 + padding as i128
}

impl StackFrame {
    fn exec_constant(&mut self, value: Value) -> (r: VmExecResult<InstructionResult>)
        requires
            old(self).wf(),
        ensures
            old(self).follows(final(self), old(self).state().constant(value), r),
    {
        self.push(value)?;
        Ok(InstructionResult::ContinueMethodExecution)
    }

    fn exec_load(&mut self, shape: Shape, index: usize) -> (r: VmExecResult<InstructionResult>)
        requires
            old(self).wf(),
        ensures
            old(self).follows(final(self), old(self).state().load(shape, index as int), r),
    {
        let local = self.get_local(index)?;
        if !shape_matches(shape, &local) {
            return Err(VmError::ValueTypeMissMatch);
        }
        self.push(local)?;
        Ok(InstructionResult::ContinueMethodExecution)
    }

    fn exec_store(&mut self, shape: Shape, index: usize) -> (r: VmExecResult<InstructionResult>)
        requires
            old(self).wf(),
        ensures
            old(self).follows(final(self), old(self).state().store(shape, index as int), r),
    {
        let value = self.pop_shaped(shape)?;
        self.set_local(index, value)?;
        Ok(InstructionResult::ContinueMethodExecution)
    }

    fn exec_int_math(&mut self, op: IntOp) -> (r: VmExecResult<InstructionResult>)
        requires
            old(self).wf(),
        ensures
            old(self).follows(final(self), old(self).state().int_binary(op), r),
    {
        let second = self.pop_int()?;
        let first = self.pop_int()?;
        match int_math(op, first, second) {
            Some(v) => {
                self.push(Value::Int(v))?;
                Ok(InstructionResult::ContinueMethodExecution)
            },
            None => Ok(InstructionResult::Raise(JavaException::ArithmeticException)),
        }
    }

    fn exec_long_math(&mut self, op: IntOp) -> (r: VmExecResult<InstructionResult>)
        requires
            old(self).wf(),
        ensures
            old(self).follows(final(self), old(self).state().long_binary(op), r),
    {
        let second: i64 = match op {
            IntOp::Shl | IntOp::Shr | IntOp::Ushr => self.pop_int()? as i64,
            _ => self.pop_long()?,
        };
        let first = self.pop_long()?;
        match long_math(op, first, second) {
            Some(v) => {
                self.push(Value::Long(v))?;
                Ok(InstructionResult::ContinueMethodExecution)
            },
            None => Ok(InstructionResult::Raise(JavaException::ArithmeticException)),
        }
    }

    fn exec_unary(&mut self, instruction: Instruction) -> (r: VmExecResult<InstructionResult>)
        requires
            old(self).wf(),
        ensures
            old(self).follows(final(self), old(self).state().unary(instruction), r),
    {
        let value = self.pop()?;
        match unary_for(instruction, &value) {
            Some(v) => {
                self.push(v)?;
                Ok(InstructionResult::ContinueMethodExecution)
            },
            None => Err(VmError::ValueTypeMissMatch),
        }
    }

    fn exec_float(&mut self, op: FloatOp) -> (r: VmExecResult<InstructionResult>)
        requires
            old(self).wf(),
        ensures
            old(self).follows(final(self), old(self).state().float(op), r),
    {
        let (shape, two) = operands_of(op);
        if two {
            let second = self.pop_shaped(shape)?;
            let first = self.pop_shaped(shape)?;
            match quotient_decided(op, &first, &second) {
                Some(v) => {
                    self.push(v)?;
                    Ok(InstructionResult::ContinueMethodExecution)
                },
                None => Ok(
                    InstructionResult::NeedFloat(
                        FloatRequest {
                            op,
                            first: bits_of_operand(&first),
                            second: bits_of_operand(&second),
                        },
                    ),
                ),
            }
        } else {
            let first = self.pop_shaped(shape)?;
            Ok(
                InstructionResult::NeedFloat(
                    FloatRequest { op, first: bits_of_operand(&first), second: 0 },
                ),
            )
        }
    }

    fn exec_comparison(&mut self, instruction: Instruction) -> (r: VmExecResult<
        InstructionResult,
    >)
        requires
            old(self).wf(),
        ensures
            old(self).follows(final(self), old(self).state().comparison(instruction), r),
    {
        let second = self.pop()?;
        let first = self.pop()?;
        match comparison_for(instruction, &first, &second) {
            Some(v) => {
                self.push(Value::Int(v))?;
                Ok(InstructionResult::ContinueMethodExecution)
            },
            None => Err(VmError::ValueTypeMissMatch),
        }
    }

    fn exec_branch(&mut self, branch: Branch, code_len: usize) -> (r: VmExecResult<
        InstructionResult,
    >)
        requires
            old(self).wf(),
        ensures
            old(self).follows(final(self), old(self).state().branch(branch, code_len as int), r),
    {
        match branch {
            Branch::Zero(condition, offset) => {
                let value = self.pop_int()?;
                self.goto_offset(holds(condition, value, 0), offset, code_len)
            },
            Branch::Ints(condition, offset) => {
                let second = self.pop_int()?;
                let first = self.pop_int()?;
                self.goto_offset(holds(condition, first, second), offset, code_len)
            },
            Branch::References(same, offset) => {
                let second = self.pop_reference_or_null()?;
                let first = self.pop_reference_or_null()?;
                self.goto_offset((first == second) == same, offset, code_len)
            },
            Branch::Null(null, offset) => {
                let value = self.pop_reference_or_null()?;
                let is_null = match value {
                    Value::Null => true,
                    _ => false,
                };
                self.goto_offset(is_null == null, offset, code_len)
            },
            Branch::Always(offset) => self.goto_offset(true, offset, code_len),
            Branch::Subroutine(offset) => {
                let back: u32 = #[verifier::truncate] (self.next_pc as u32);
                self.push(Value::ReturnAddress(back))?;
                self.goto_offset(true, offset, code_len)
            },
        }
    }

    fn exec_ret(&mut self, index: usize, code_len: usize) -> (r: VmExecResult<InstructionResult>)
        requires
            old(self).wf(),
        ensures
            old(self).follows(
                final(self),
                old(self).state().ret(index as int, code_len as int),
                r,
            ),
    {
        match self.get_local(index)? {
            Value::ReturnAddress(address) => {
                self.goto(address as i128, code_len)?;
                Ok(InstructionResult::ContinueMethodExecution)
            },
            _ => Err(VmError::ValueTypeMissMatch),
        }
    }

    fn exec_return(&mut self, shape: Option<Shape>) -> (r: VmExecResult<InstructionResult>)
        requires
            old(self).wf(),
        ensures
            old(self).follows(final(self), old(self).state().leave(shape), r),
    {
        match shape {
            None => Ok(InstructionResult::ReturnFromMethod(None)),
            Some(shape) => {
                let value = self.pop_shaped(shape)?;
                Ok(InstructionResult::ReturnFromMethod(Some(value)))
            },
        }
    }

    fn exec_increment(&mut self, index: usize, amount: i32) -> (r: VmExecResult<
        InstructionResult,
    >)
        requires
            old(self).wf(),
        ensures
            old(self).follows(final(self), old(self).state().increment(index as int, amount), r),
    {
        match self.get_local(index)? {
            Value::Int(v) => {
                self.set_local(index, Value::Int(v.wrapping_add(amount)))?;
                Ok(InstructionResult::ContinueMethodExecution)
            },
            _ => Err(VmError::ValueTypeMissMatch),
        }
    }

    fn exec_pop2(&mut self) -> (r: VmExecResult<InstructionResult>)
        requires
            old(self).wf(),
        ensures
            old(self).follows(final(self), old(self).state().pop2(), r),
    {
        let first = self.pop()?;
        if first.wide() {
            return Ok(InstructionResult::ContinueMethodExecution);
        }
        let second = self.pop()?;
        if second.wide() {
            return Err(VmError::ValueTypeMissMatch);
        }
        Ok(InstructionResult::ContinueMethodExecution)
    }

    fn exec_rearrange(&mut self, instruction: Instruction) -> (r: Option<
        VmExecResult<InstructionResult>,
    >)
        requires
            old(self).wf(),
        ensures
            match rearrangement_of(instruction, old(self).op_stack@) {
                None => r is None && *final(self) == *old(self),
                Some(form) => r matches Some(result) && old(self).follows(
                    final(self),
                    old(self).state().rearrange(form),
                    result,
                ),
            },
    {
        let done = match instruction {
            Instruction::Dup => self.op_stack.dup(),
            Instruction::Dup_x1 => self.op_stack.dup_x1(),
            Instruction::Dup_x2 => self.op_stack.dup_x2(),
            Instruction::Dup2 => self.op_stack.dup2(),
            Instruction::Dup2_x1 => self.op_stack.dup2_x1(),
            Instruction::Dup2_x2 => self.op_stack.dup2_x2(),
            Instruction::Swap => self.op_stack.swap(),
            _ => {
                return None;
            },
        };
        match done {
            Ok(()) => Some(Ok(InstructionResult::ContinueMethodExecution)),
            Err(e) => Some(Err(e)),
        }
    }

    fn exec_table_switch(&mut self, code: &Vec<u8>, default: i32, low: i32, high: i32) -> (r:
        VmExecResult<InstructionResult>)
        requires
            old(self).wf(),
        ensures
            old(self).follows(
                final(self),
                old(self).state().table_switch(code@, default, low, high),
                r,
            ),
    {
        let key = self.pop_int()?;
        if key < low || key > high {
            return self.goto_offset(true, default, code.len());
        }
        let at: i128 = switch_operands(self.pc) + 12 + 4 * (key as i128 - low as i128);
        match read_code_word(code, at) {
            Some(offset) => self.goto_offset(true, offset, code.len()),
            None => Err(VmError::IndexOutOfBounds),
        }
    }

    fn exec_lookup_switch(&mut self, code: &Vec<u8>, default: i32, pairs: i32) -> (r: VmExecResult<
        InstructionResult,
    >)
        requires
            old(self).wf(),
        ensures
            old(self).follows(
                final(self),
                old(self).state().lookup_switch(code@, default, pairs),
                r,
            ),
    {
        let key = self.pop_int()?;
        let base: i128 = switch_operands(self.pc) + 8;
        let ghost popped = self.state();
        let mut i: i32 = 0;
        while i < pairs
            invariant
                0 <= i,
                self.wf(),
                old(self).same_invocation(self),
                self.state() == popped,
                base == old(self).pc + 1 + switch_padding(old(self).pc as int) + 8,
                lookup_offset(code@, base as int, pairs as int, key, 0) == lookup_offset(
                    code@,
                    base as int,
                    pairs as int,
                    key,
                    i as int,
                ),
                old(self).state().pop_shaped(Shape::Int) == Ok::<_, VmError>(
                    (Value::Int(key), popped),
                ),
            decreases pairs - i,
        {
            let at: i128 = base + 8 * (i as i128);
            let found = read_code_word(code, at);
            let offset = read_code_word(code, at + 4);
            match (found, offset) {
                (Some(found), Some(offset)) => {
                    if found == key {
                        return self.goto_offset(true, offset, code.len());
                    }
                },
                _ => {
                    return Err(VmError::IndexOutOfBounds);
                },
            }
            i += 1;
        }
        self.goto_offset(true, default, code.len())
    }

    /// Takes the top `n` values off the operand stack; the result has
    /// them bottom first.
    pub fn pop_n(&mut self, n: usize) -> (r: VmExecResult<Vec<Value>>)
        requires
            old(self).wf(),
        ensures
            final(self).wf(),
            old(self).same_invocation(final(self)),
            final(self).state().locals == old(self).state().locals,
            final(self).next_pc == old(self).next_pc,
            n <= old(self).op_stack@.len() ==> r is Ok && r->Ok_0@ == old(self).op_stack@.subrange(
                old(self).op_stack@.len() - n,
                old(self).op_stack@.len() as int,
            ) && final(self).op_stack@ == old(self).op_stack@.subrange(
                0,
                old(self).op_stack@.len() - n,
            ),
            n > old(self).op_stack@.len() ==> r == Err::<Vec<Value>, _>(VmError::PopFromEmptyStack)
                && final(self).op_stack@ == old(self).op_stack@,
    {
        self.op_stack.pop_n(n)
    }

    /// The value `below` places under the top of the operand stack.
    pub fn peek(&self, below: usize) -> (r: VmExecResult<Value>)
        ensures
            below < self.op_stack@.len() ==> r == Ok::<_, VmError>(
                self.op_stack@[self.op_stack@.len() - 1 - below],
            ),
            below >= self.op_stack@.len() ==> r == Err::<Value, _>(VmError::PopFromEmptyStack),
    {
        self.op_stack.peek(below)
    }

    /// Executes an instruction that touches nothing but the frame.
    /// Returns `None`, and changes nothing, for every other instruction.
    pub fn execute_local(&mut self, code: &Vec<u8>, instruction: Instruction) -> (r: Option<
        VmExecResult<InstructionResult>,
    >)
        requires
            old(self).wf(),
        ensures
            match local_step(old(self).state(), code@, instruction) {
                None => r is None && *final(self) == *old(self),
                Some(effect) => r matches Some(result) && old(self).follows(
                    final(self),
                    effect,
                    result,
                ),
            },
    {
        if let Some(value) = constant_for(instruction) {
            return Some(self.exec_constant(value));
        }
        if let Some((shape, index)) = load_for(instruction) {
            return Some(self.exec_load(shape, index));
        }
        if let Some((shape, index)) = store_for(instruction) {
            return Some(self.exec_store(shape, index));
        }
        if let Some(op) = int_op_for(instruction) {
            return Some(self.exec_int_math(op));
        }
        if let Some(op) = long_op_for(instruction) {
            return Some(self.exec_long_math(op));
        }
        if unary(instruction) {
            return Some(self.exec_unary(instruction));
        }
        if let Some(op) = float_op_for(instruction) {
            return Some(self.exec_float(op));
        }
        if comparison(instruction) {
            return Some(self.exec_comparison(instruction));
        }
        if let Some(branch) = branch_for(instruction) {
            return Some(self.exec_branch(branch, code.len()));
        }
        if let Some(index) = ret_for(instruction) {
            return Some(self.exec_ret(index, code.len()));
        }
        if let Some(shape) = return_for(instruction) {
            return Some(self.exec_return(shape));
        }
        if let Some((index, amount)) = increment_for(instruction) {
            return Some(self.exec_increment(index, amount));
        }
        if let Some(result) = self.exec_rearrange(instruction) {
            return Some(result);
        }
        self.execute_other(code, instruction)
    }

    fn execute_other(&mut self, code: &Vec<u8>, instruction: Instruction) -> (r: Option<
        VmExecResult<InstructionResult>,
    >)
        requires
            old(self).wf(),
            constant_of(instruction) is None,
            load_of(instruction) is None,
            store_of(instruction) is None,
            int_op_of(instruction) is None,
            long_op_of(instruction) is None,
            !is_unary(instruction),
            float_op_of(instruction) is None,
            !is_comparison(instruction),
            branch_of(instruction) is None,
            ret_of(instruction) is None,
            return_of(instruction) is None,
            increment_of(instruction) is None,
            rearrangement_of(instruction, old(self).op_stack@) is None,
        ensures
            match local_step(old(self).state(), code@, instruction) {
                None => r is None && *final(self) == *old(self),
                Some(effect) => r matches Some(result) && old(self).follows(
                    final(self),
                    effect,
                    result,
                ),
            },
    {
        match instruction {
            Instruction::Nop => Some(Ok(InstructionResult::ContinueMethodExecution)),
            Instruction::Pop => Some(
                match self.pop() {
                    Ok(_) => Ok(InstructionResult::ContinueMethodExecution),
                    Err(e) => Err(e),
                },
            ),
            Instruction::Pop2 => Some(self.exec_pop2()),
            Instruction::Monitorenter | Instruction::Monitorexit => Some(
                match self.pop_reference_or_null() {
                    Ok(_) => Ok(InstructionResult::ContinueMethodExecution),
                    Err(e) => Err(e),
                },
            ),
            Instruction::Tableswitch(default, low, high) => Some(
                self.exec_table_switch(code, default, low, high),
            ),
            Instruction::Lookupswitch(default, pairs) => Some(
                self.exec_lookup_switch(code, default, pairs),
            ),
            _ => None,
        }
    }
}

} // verus!
