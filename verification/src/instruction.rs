//! The instruction set: one variant per opcode, and the decoder.
use vstd::prelude::*;
use crate::byte_buffer::{decodes, parse_bytes, parse_u16, parse_u32, parse_u8, ByteBuffer};
use crate::class_file_error::ClassFileError;

verus! {

/// The instruction that a `wide` prefix widens.
#[derive(Clone, Copy, Debug, PartialEq, Eq, Structural)]
pub enum WideKind {
    Iload,
    Lload,
    Fload,
    Dload,
    Aload,
    Istore,
    Lstore,
    Fstore,
    Dstore,
    Astore,
    Ret,
    Iinc,
}

/// A decoded instruction with its immediate operands.
///
/// `Tableswitch` holds the default offset and the lowest and highest key,
/// `Lookupswitch` the default offset and the number of pairs; the jump
/// tables themselves stay in the code, behind the operands. `Wide` holds
/// the widened instruction, its 16-bit local index and, for `iinc`, the
/// 16-bit constant (zero otherwise).
#[allow(non_camel_case_types)]
#[derive(Clone, Copy, Debug, PartialEq, Eq, Structural)]
pub enum Instruction {
    Nop,
    Aconst_null,
    Iconst_m1,
    Iconst_0,
    Iconst_1,
    Iconst_2,
    Iconst_3,
    Iconst_4,
    Iconst_5,
    Lconst_0,
    Lconst_1,
    Fconst_0,
    Fconst_1,
    Fconst_2,
    Dconst_0,
    Dconst_1,
    Bipush(u8),
    Sipush(i16),
    Ldc(u8),
    Ldc_w(u16),
    Ldc2_w(u16),
    Iload(u8),
    Lload(u8),
    Fload(u8),
    Dload(u8),
    Aload(u8),
    Iload_0,
    Iload_1,
    Iload_2,
    Iload_3,
    Lload_0,
    Lload_1,
    Lload_2,
    Lload_3,
    Fload_0,
    Fload_1,
    Fload_2,
    Fload_3,
    Dload_0,
    Dload_1,
    Dload_2,
    Dload_3,
    Aload_0,
    Aload_1,
    Aload_2,
    Aload_3,
    Iaload,
    Laload,
    Faload,
    Daload,
    Aaload,
    Baload,
    Caload,
    Saload,
    Istore(u8),
    Lstore(u8),
    Fstore(u8),
    Dstore(u8),
    Astore(u8),
    Istore_0,
    Istore_1,
    Istore_2,
    Istore_3,
    Lstore_0,
    Lstore_1,
    Lstore_2,
    Lstore_3,
    Fstore_0,
    Fstore_1,
    Fstore_2,
    Fstore_3,
    Dstore_0,
    Dstore_1,
    Dstore_2,
    Dstore_3,
    Astore_0,
    Astore_1,
    Astore_2,
    Astore_3,
    Iastore,
    Lastore,
    Fastore,
    Dastore,
    Aastore,
    Bastore,
    Castore,
    Sastore,
    Pop,
    Pop2,
    Dup,
    Dup_x1,
    Dup_x2,
    Dup2,
    Dup2_x1,
    Dup2_x2,
    Swap,
    Iadd,
    Ladd,
    Fadd,
    Dadd,
    Isub,
    Lsub,
    Fsub,
    Dsub,
    Imul,
    Lmul,
    Fmul,
    Dmul,
    Idiv,
    Ldiv,
    Fdiv,
    Ddiv,
    Irem,
    Lrem,
    Frem,
    Drem,
    Ineg,
    Lneg,
    Fneg,
    Dneg,
    Ishl,
    Lshl,
    Ishr,
    Lshr,
    Iushr,
    Lushr,
    Iand,
    Land,
    Ior,
    Lor,
    Ixor,
    Lxor,
    Iinc(u8, i8),
    I2l,
    I2f,
    I2d,
    L2i,
    L2f,
    L2d,
    F2i,
    F2l,
    F2d,
    D2i,
    D2l,
    D2f,
    I2b,
    I2c,
    I2s,
    Lcmp,
    Fcmpl,
    Fcmpg,
    Dcmpl,
    Dcmpg,
    Ifeq(i16),
    Ifne(i16),
    Iflt(i16),
    Ifge(i16),
    Ifgt(i16),
    Ifle(i16),
    If_icmpeq(i16),
    If_icmpne(i16),
    If_icmplt(i16),
    If_icmpge(i16),
    If_icmpgt(i16),
    If_icmple(i16),
    If_acmpeq(i16),
    If_acmpne(i16),
    Goto(i16),
    Jsr(i16),
    Ret(u8),
    Tableswitch(i32, i32, i32),
    Lookupswitch(i32, i32),
    Ireturn,
    Lreturn,
    Freturn,
    Dreturn,
    Areturn,
    Return,
    Getstatic(u16),
    Putstatic(u16),
    Getfield(u16),
    Putfield(u16),
    Invokevirtual(u16),
    Invokespecial(u16),
    Invokestatic(u16),
    Invokeinterface(u16, u8),
    Invokedynamic(u16),
    New(u16),
    Newarray(u8),
    Anewarray(u16),
    Arraylength,
    Athrow,
    Checkcast(u16),
    Instanceof(u16),
    Monitorenter,
    Monitorexit,
    Wide(WideKind, u16, i16),
    Multianewarray(u16, u8),
    Ifnull(i16),
    Ifnonnull(i16),
    Goto_w(i32),
    Jsr_w(i32),
}

impl View for Instruction {
    type V = Instruction;

    open spec fn view(&self) -> Instruction {
        *self
    }
}

/// The opcode of the `tableswitch` instruction.
pub const OP_TABLESWITCH: u8 = 0xaa;
/// The opcode of the `lookupswitch` instruction.
pub const OP_LOOKUPSWITCH: u8 = 0xab;

/// The number of padding bytes between a switch opcode at `pc` and its
/// operands, which start at the next multiple of four.
pub open spec fn switch_padding(pc: int) -> int {
    (4 - (pc + 1) % 4) % 4
}

/// The instruction without operands that `op` stands for, if it is one.
pub open spec fn plain_instruction(op: u8) -> Option<Instruction> {
    if op == 0x00 {
        Some(Instruction::Nop)
    } else if op == 0x01 {
        Some(Instruction::Aconst_null)
    } else if op == 0x02 {
        Some(Instruction::Iconst_m1)
    } else if op == 0x03 {
        Some(Instruction::Iconst_0)
    } else if op == 0x04 {
        Some(Instruction::Iconst_1)
    } else if op == 0x05 {
        Some(Instruction::Iconst_2)
    } else if op == 0x06 {
        Some(Instruction::Iconst_3)
    } else if op == 0x07 {
        Some(Instruction::Iconst_4)
    } else if op == 0x08 {
        Some(Instruction::Iconst_5)
    } else if op == 0x09 {
        Some(Instruction::Lconst_0)
    } else if op == 0x0a {
        Some(Instruction::Lconst_1)
    } else if op == 0x0b {
        Some(Instruction::Fconst_0)
    } else if op == 0x0c {
        Some(Instruction::Fconst_1)
    } else if op == 0x0d {
        Some(Instruction::Fconst_2)
    } else if op == 0x0e {
        Some(Instruction::Dconst_0)
    } else if op == 0x0f {
        Some(Instruction::Dconst_1)
    } else if op == 0x1a {
        Some(Instruction::Iload_0)
    } else if op == 0x1b {
        Some(Instruction::Iload_1)
    } else if op == 0x1c {
        Some(Instruction::Iload_2)
    } else if op == 0x1d {
        Some(Instruction::Iload_3)
    } else if op == 0x1e {
        Some(Instruction::Lload_0)
    } else if op == 0x1f {
        Some(Instruction::Lload_1)
    } else if op == 0x20 {
        Some(Instruction::Lload_2)
    } else if op == 0x21 {
        Some(Instruction::Lload_3)
    } else if op == 0x22 {
        Some(Instruction::Fload_0)
    } else if op == 0x23 {
        Some(Instruction::Fload_1)
    } else if op == 0x24 {
        Some(Instruction::Fload_2)
    } else if op == 0x25 {
        Some(Instruction::Fload_3)
    } else if op == 0x26 {
        Some(Instruction::Dload_0)
    } else if op == 0x27 {
        Some(Instruction::Dload_1)
    } else if op == 0x28 {
        Some(Instruction::Dload_2)
    } else if op == 0x29 {
        Some(Instruction::Dload_3)
    } else if op == 0x2a {
        Some(Instruction::Aload_0)
    } else if op == 0x2b {
        Some(Instruction::Aload_1)
    } else if op == 0x2c {
        Some(Instruction::Aload_2)
    } else if op == 0x2d {
        Some(Instruction::Aload_3)
    } else if op == 0x2e {
        Some(Instruction::Iaload)
    } else if op == 0x2f {
        Some(Instruction::Laload)
    } else if op == 0x30 {
        Some(Instruction::Faload)
    } else if op == 0x31 {
        Some(Instruction::Daload)
    } else if op == 0x32 {
        Some(Instruction::Aaload)
    } else if op == 0x33 {
        Some(Instruction::Baload)
    } else if op == 0x34 {
        Some(Instruction::Caload)
    } else if op == 0x35 {
        Some(Instruction::Saload)
    } else if op == 0x3b {
        Some(Instruction::Istore_0)
    } else if op == 0x3c {
        Some(Instruction::Istore_1)
    } else if op == 0x3d {
        Some(Instruction::Istore_2)
    } else if op == 0x3e {
        Some(Instruction::Istore_3)
    } else if op == 0x3f {
        Some(Instruction::Lstore_0)
    } else if op == 0x40 {
        Some(Instruction::Lstore_1)
    } else if op == 0x41 {
        Some(Instruction::Lstore_2)
    } else if op == 0x42 {
        Some(Instruction::Lstore_3)
    } else if op == 0x43 {
        Some(Instruction::Fstore_0)
    } else if op == 0x44 {
        Some(Instruction::Fstore_1)
    } else if op == 0x45 {
        Some(Instruction::Fstore_2)
    } else if op == 0x46 {
        Some(Instruction::Fstore_3)
    } else if op == 0x47 {
        Some(Instruction::Dstore_0)
    } else if op == 0x48 {
        Some(Instruction::Dstore_1)
    } else if op == 0x49 {
        Some(Instruction::Dstore_2)
    } else if op == 0x4a {
        Some(Instruction::Dstore_3)
    } else if op == 0x4b {
        Some(Instruction::Astore_0)
    } else if op == 0x4c {
        Some(Instruction::Astore_1)
    } else if op == 0x4d {
        Some(Instruction::Astore_2)
    } else if op == 0x4e {
        Some(Instruction::Astore_3)
    } else if op == 0x4f {
        Some(Instruction::Iastore)
    } else if op == 0x50 {
        Some(Instruction::Lastore)
    } else if op == 0x51 {
        Some(Instruction::Fastore)
    } else if op == 0x52 {
        Some(Instruction::Dastore)
    } else if op == 0x53 {
        Some(Instruction::Aastore)
    } else if op == 0x54 {
        Some(Instruction::Bastore)
    } else if op == 0x55 {
        Some(Instruction::Castore)
    } else if op == 0x56 {
        Some(Instruction::Sastore)
    } else if op == 0x57 {
        Some(Instruction::Pop)
    } else if op == 0x58 {
        Some(Instruction::Pop2)
    } else if op == 0x59 {
        Some(Instruction::Dup)
    } else if op == 0x5a {
        Some(Instruction::Dup_x1)
    } else if op == 0x5b {
        Some(Instruction::Dup_x2)
    } else if op == 0x5c {
        Some(Instruction::Dup2)
    } else if op == 0x5d {
        Some(Instruction::Dup2_x1)
    } else if op == 0x5e {
        Some(Instruction::Dup2_x2)
    } else if op == 0x5f {
        Some(Instruction::Swap)
    } else if op == 0x60 {
        Some(Instruction::Iadd)
    } else if op == 0x61 {
        Some(Instruction::Ladd)
    } else if op == 0x62 {
        Some(Instruction::Fadd)
    } else if op == 0x63 {
        Some(Instruction::Dadd)
    } else if op == 0x64 {
        Some(Instruction::Isub)
    } else if op == 0x65 {
        Some(Instruction::Lsub)
    } else if op == 0x66 {
        Some(Instruction::Fsub)
    } else if op == 0x67 {
        Some(Instruction::Dsub)
    } else if op == 0x68 {
        Some(Instruction::Imul)
    } else if op == 0x69 {
        Some(Instruction::Lmul)
    } else if op == 0x6a {
        Some(Instruction::Fmul)
    } else if op == 0x6b {
        Some(Instruction::Dmul)
    } else if op == 0x6c {
        Some(Instruction::Idiv)
    } else if op == 0x6d {
        Some(Instruction::Ldiv)
    } else if op == 0x6e {
        Some(Instruction::Fdiv)
    } else if op == 0x6f {
        Some(Instruction::Ddiv)
    } else if op == 0x70 {
        Some(Instruction::Irem)
    } else if op == 0x71 {
        Some(Instruction::Lrem)
    } else if op == 0x72 {
        Some(Instruction::Frem)
    } else if op == 0x73 {
        Some(Instruction::Drem)
    } else if op == 0x74 {
        Some(Instruction::Ineg)
    } else if op == 0x75 {
        Some(Instruction::Lneg)
    } else if op == 0x76 {
        Some(Instruction::Fneg)
    } else if op == 0x77 {
        Some(Instruction::Dneg)
    } else if op == 0x78 {
        Some(Instruction::Ishl)
    } else if op == 0x79 {
        Some(Instruction::Lshl)
    } else if op == 0x7a {
        Some(Instruction::Ishr)
    } else if op == 0x7b {
        Some(Instruction::Lshr)
    } else if op == 0x7c {
        Some(Instruction::Iushr)
    } else if op == 0x7d {
        Some(Instruction::Lushr)
    } else if op == 0x7e {
        Some(Instruction::Iand)
    } else if op == 0x7f {
        Some(Instruction::Land)
    } else if op == 0x80 {
        Some(Instruction::Ior)
    } else if op == 0x81 {
        Some(Instruction::Lor)
    } else if op == 0x82 {
        Some(Instruction::Ixor)
    } else if op == 0x83 {
        Some(Instruction::Lxor)
    } else if op == 0x85 {
        Some(Instruction::I2l)
    } else if op == 0x86 {
        Some(Instruction::I2f)
    } else if op == 0x87 {
        Some(Instruction::I2d)
    } else if op == 0x88 {
        Some(Instruction::L2i)
    } else if op == 0x89 {
        Some(Instruction::L2f)
    } else if op == 0x8a {
        Some(Instruction::L2d)
    } else if op == 0x8b {
        Some(Instruction::F2i)
    } else if op == 0x8c {
        Some(Instruction::F2l)
    } else if op == 0x8d {
        Some(Instruction::F2d)
    } else if op == 0x8e {
        Some(Instruction::D2i)
    } else if op == 0x8f {
        Some(Instruction::D2l)
    } else if op == 0x90 {
        Some(Instruction::D2f)
    } else if op == 0x91 {
        Some(Instruction::I2b)
    } else if op == 0x92 {
        Some(Instruction::I2c)
    } else if op == 0x93 {
        Some(Instruction::I2s)
    } else if op == 0x94 {
        Some(Instruction::Lcmp)
    } else if op == 0x95 {
        Some(Instruction::Fcmpl)
    } else if op == 0x96 {
        Some(Instruction::Fcmpg)
    } else if op == 0x97 {
        Some(Instruction::Dcmpl)
    } else if op == 0x98 {
        Some(Instruction::Dcmpg)
    } else if op == 0xac {
        Some(Instruction::Ireturn)
    } else if op == 0xad {
        Some(Instruction::Lreturn)
    } else if op == 0xae {
        Some(Instruction::Freturn)
    } else if op == 0xaf {
        Some(Instruction::Dreturn)
    } else if op == 0xb0 {
        Some(Instruction::Areturn)
    } else if op == 0xb1 {
        Some(Instruction::Return)
    } else if op == 0xbe {
        Some(Instruction::Arraylength)
    } else if op == 0xbf {
        Some(Instruction::Athrow)
    } else if op == 0xc2 {
        Some(Instruction::Monitorenter)
    } else if op == 0xc3 {
        Some(Instruction::Monitorexit)
    } else {
        None
    }
}

/// The instruction with one unsigned byte operand that `op` stands for.
pub open spec fn byte_instruction(op: u8, a: u8) -> Option<Instruction> {
    if op == 0x10 {
        Some(Instruction::Bipush(a))
    } else if op == 0x12 {
        Some(Instruction::Ldc(a))
    } else if op == 0x15 {
        Some(Instruction::Iload(a))
    } else if op == 0x16 {
        Some(Instruction::Lload(a))
    } else if op == 0x17 {
        Some(Instruction::Fload(a))
    } else if op == 0x18 {
        Some(Instruction::Dload(a))
    } else if op == 0x19 {
        Some(Instruction::Aload(a))
    } else if op == 0x36 {
        Some(Instruction::Istore(a))
    } else if op == 0x37 {
        Some(Instruction::Lstore(a))
    } else if op == 0x38 {
        Some(Instruction::Fstore(a))
    } else if op == 0x39 {
        Some(Instruction::Dstore(a))
    } else if op == 0x3a {
        Some(Instruction::Astore(a))
    } else if op == 0xa9 {
        Some(Instruction::Ret(a))
    } else if op == 0xbc {
        Some(Instruction::Newarray(a))
    } else {
        None
    }
}

/// The instruction with one unsigned 16-bit operand that `op` stands for.
pub open spec fn short_instruction(op: u8, a: u16) -> Option<Instruction> {
    if op == 0x13 {
        Some(Instruction::Ldc_w(a))
    } else if op == 0x14 {
        Some(Instruction::Ldc2_w(a))
    } else if op == 0xb2 {
        Some(Instruction::Getstatic(a))
    } else if op == 0xb3 {
        Some(Instruction::Putstatic(a))
    } else if op == 0xb4 {
        Some(Instruction::Getfield(a))
    } else if op == 0xb5 {
        Some(Instruction::Putfield(a))
    } else if op == 0xb6 {
        Some(Instruction::Invokevirtual(a))
    } else if op == 0xb7 {
        Some(Instruction::Invokespecial(a))
    } else if op == 0xb8 {
        Some(Instruction::Invokestatic(a))
    } else if op == 0xbb {
        Some(Instruction::New(a))
    } else if op == 0xbd {
        Some(Instruction::Anewarray(a))
    } else if op == 0xc0 {
        Some(Instruction::Checkcast(a))
    } else if op == 0xc1 {
        Some(Instruction::Instanceof(a))
    } else {
        None
    }
}

/// The instruction with one signed 16-bit operand that `op` stands for.
pub open spec fn signed_short_instruction(op: u8, a: i16) -> Option<Instruction> {
    if op == 0x11 {
        Some(Instruction::Sipush(a))
    } else if op == 0x99 {
        Some(Instruction::Ifeq(a))
    } else if op == 0x9a {
        Some(Instruction::Ifne(a))
    } else if op == 0x9b {
        Some(Instruction::Iflt(a))
    } else if op == 0x9c {
        Some(Instruction::Ifge(a))
    } else if op == 0x9d {
        Some(Instruction::Ifgt(a))
    } else if op == 0x9e {
        Some(Instruction::Ifle(a))
    } else if op == 0x9f {
        Some(Instruction::If_icmpeq(a))
    } else if op == 0xa0 {
        Some(Instruction::If_icmpne(a))
    } else if op == 0xa1 {
        Some(Instruction::If_icmplt(a))
    } else if op == 0xa2 {
        Some(Instruction::If_icmpge(a))
    } else if op == 0xa3 {
        Some(Instruction::If_icmpgt(a))
    } else if op == 0xa4 {
        Some(Instruction::If_icmple(a))
    } else if op == 0xa5 {
        Some(Instruction::If_acmpeq(a))
    } else if op == 0xa6 {
        Some(Instruction::If_acmpne(a))
    } else if op == 0xa7 {
        Some(Instruction::Goto(a))
    } else if op == 0xa8 {
        Some(Instruction::Jsr(a))
    } else if op == 0xc6 {
        Some(Instruction::Ifnull(a))
    } else if op == 0xc7 {
        Some(Instruction::Ifnonnull(a))
    } else {
        None
    }
}

/// The instruction that a `wide` prefix widens, by its opcode.
pub open spec fn wide_kind(op: u8) -> Option<WideKind> {
    if op == 0x15 {
        Some(WideKind::Iload)
    } else if op == 0x16 {
        Some(WideKind::Lload)
    } else if op == 0x17 {
        Some(WideKind::Fload)
    } else if op == 0x18 {
        Some(WideKind::Dload)
    } else if op == 0x19 {
        Some(WideKind::Aload)
    } else if op == 0x36 {
        Some(WideKind::Istore)
    } else if op == 0x37 {
        Some(WideKind::Lstore)
    } else if op == 0x38 {
        Some(WideKind::Fstore)
    } else if op == 0x39 {
        Some(WideKind::Dstore)
    } else if op == 0x3a {
        Some(WideKind::Astore)
    } else if op == 0xa9 {
        Some(WideKind::Ret)
    } else {
        None
    }
}

/// What follows a `wide` prefix: an opcode, a 16-bit local index and, for
/// `iinc`, a 16-bit constant.
pub open spec fn parse_wide(bytes: Seq<u8>, pos: int) -> Result<(Instruction, int), ClassFileError> {
    match parse_u8(bytes, pos) {
        Err(e) => Err(e),
        Ok((op, p)) => if op == 0x84 {
            match parse_u16(bytes, p) {
                Err(e) => Err(e),
                Ok((index, q)) => match parse_u16(bytes, q) {
                    Err(e) => Err(e),
                    Ok((c, end)) => Ok((Instruction::Wide(WideKind::Iinc, index, c as i16), end)),
                },
            }
        } else {
            match wide_kind(op) {
                None => Err(ClassFileError::InvalidCode(op)),
                Some(kind) => match parse_u16(bytes, p) {
                    Err(e) => Err(e),
                    Ok((index, end)) => Ok((Instruction::Wide(kind, index, 0), end)),
                },
            }
        },
    }
}

/// A `tableswitch` whose opcode stands at `pc`: padding, the default
/// offset, the lowest and the highest key, and one offset for each key.
pub open spec fn parse_tableswitch(bytes: Seq<u8>, pc: int) -> Result<
    (Instruction, int),
    ClassFileError,
> {
    match parse_bytes(bytes, pc + 1, switch_padding(pc)) {
        Err(e) => Err(e),
        Ok((_, pos0)) => match parse_u32(bytes, pos0) {
            Err(e) => Err(e),
            Ok((default, pos1)) => match parse_u32(bytes, pos1) {
                Err(e) => Err(e),
                Ok((low, pos2)) => match parse_u32(bytes, pos2) {
                    Err(e) => Err(e),
                    Ok((high, pos3)) => if (low as i32) > (high as i32) {
                        Err(ClassFileError::InvalidCode(OP_TABLESWITCH))
                    } else {
                        match parse_bytes(bytes, pos3, 4 * ((high as i32) - (low as i32) + 1)) {
                            Err(e) => Err(e),
                            Ok((_, end)) => Ok(
                                (
                                    Instruction::Tableswitch(
                                        default as i32,
                                        low as i32,
                                        high as i32,
                                    ),
                                    end,
                                ),
                            ),
                        }
                    },
                },
            },
        },
    }
}

/// A `lookupswitch` whose opcode stands at `pc`: padding, the default
/// offset, the number of pairs, and that many pairs of key and offset.
pub open spec fn parse_lookupswitch(bytes: Seq<u8>, pc: int) -> Result<
    (Instruction, int),
    ClassFileError,
> {
    match parse_bytes(bytes, pc + 1, switch_padding(pc)) {
        Err(e) => Err(e),
        Ok((_, pos0)) => match parse_u32(bytes, pos0) {
            Err(e) => Err(e),
            Ok((default, pos1)) => match parse_u32(bytes, pos1) {
                Err(e) => Err(e),
                Ok((npairs, pos2)) => if (npairs as i32) < 0 {
                    Err(ClassFileError::InvalidCode(OP_LOOKUPSWITCH))
                } else {
                    match parse_bytes(bytes, pos2, 8 * (npairs as i32)) {
                        Err(e) => Err(e),
                        Ok((_, end)) => Ok(
                            (Instruction::Lookupswitch(default as i32, npairs as i32), end),
                        ),
                    }
                },
            },
        },
    }
}

/// The instruction whose opcode stands at `pc`, and the position behind
/// its last operand.
pub open spec fn parse_instruction(bytes: Seq<u8>, pc: int) -> Result<
    (Instruction, int),
    ClassFileError,
> {
    match parse_u8(bytes, pc) {
        Err(e) => Err(e),
        Ok((op, p)) => if plain_instruction(op) is Some {
            Ok((plain_instruction(op)->0, p))
        } else if byte_instruction(op, 0) is Some {
            match parse_u8(bytes, p) {
                Err(e) => Err(e),
                Ok((a, end)) => Ok((byte_instruction(op, a)->0, end)),
            }
        } else if short_instruction(op, 0) is Some {
            match parse_u16(bytes, p) {
                Err(e) => Err(e),
                Ok((a, end)) => Ok((short_instruction(op, a)->0, end)),
            }
        } else if signed_short_instruction(op, 0) is Some {
            match parse_u16(bytes, p) {
                Err(e) => Err(e),
                Ok((a, end)) => Ok((signed_short_instruction(op, a as i16)->0, end)),
            }
        } else if op == 0xc8 || op == 0xc9 {
            match parse_u32(bytes, p) {
                Err(e) => Err(e),
                Ok((a, end)) => Ok(
                    (
                        if op == 0xc8 {
                            Instruction::Goto_w(a as i32)
                        } else {
                            Instruction::Jsr_w(a as i32)
                        },
                        end,
                    ),
                ),
            }
        } else if op == 0x84 {
            match parse_u8(bytes, p) {
                Err(e) => Err(e),
                Ok((index, q)) => match parse_u8(bytes, q) {
                    Err(e) => Err(e),
                    Ok((c, end)) => Ok((Instruction::Iinc(index, c as i8), end)),
                },
            }
        } else if op == 0xb9 {
            match parse_u16(bytes, p) {
                Err(e) => Err(e),
                Ok((index, q)) => match parse_u8(bytes, q) {
                    Err(e) => Err(e),
                    Ok((count, q2)) => match parse_u8(bytes, q2) {
                        Err(e) => Err(e),
                        Ok((_, end)) => Ok((Instruction::Invokeinterface(index, count), end)),
                    },
                },
            }
        } else if op == 0xba {
            match parse_u16(bytes, p) {
                Err(e) => Err(e),
                Ok((index, q)) => match parse_u16(bytes, q) {
                    Err(e) => Err(e),
                    Ok((_, end)) => Ok((Instruction::Invokedynamic(index), end)),
                },
            }
        } else if op == 0xc5 {
            match parse_u16(bytes, p) {
                Err(e) => Err(e),
                Ok((index, q)) => match parse_u8(bytes, q) {
                    Err(e) => Err(e),
                    Ok((dimensions, end)) => Ok(
                        (Instruction::Multianewarray(index, dimensions), end),
                    ),
                },
            }
        } else if op == OP_TABLESWITCH {
            parse_tableswitch(bytes, pc)
        } else if op == OP_LOOKUPSWITCH {
            parse_lookupswitch(bytes, pc)
        } else if op == 0xc4 {
            parse_wide(bytes, p)
        } else {
            Err(ClassFileError::InvalidCode(op))
        },
    }
}

fn read_plain(op: u8) -> (r: Option<Instruction>)
    ensures
        r == plain_instruction(op),
{
    match op {
        0x00 => Some(Instruction::Nop),
        0x01 => Some(Instruction::Aconst_null),
        0x02 => Some(Instruction::Iconst_m1),
        0x03 => Some(Instruction::Iconst_0),
        0x04 => Some(Instruction::Iconst_1),
        0x05 => Some(Instruction::Iconst_2),
        0x06 => Some(Instruction::Iconst_3),
        0x07 => Some(Instruction::Iconst_4),
        0x08 => Some(Instruction::Iconst_5),
        0x09 => Some(Instruction::Lconst_0),
        0x0a => Some(Instruction::Lconst_1),
        0x0b => Some(Instruction::Fconst_0),
        0x0c => Some(Instruction::Fconst_1),
        0x0d => Some(Instruction::Fconst_2),
        0x0e => Some(Instruction::Dconst_0),
        0x0f => Some(Instruction::Dconst_1),
        0x1a => Some(Instruction::Iload_0),
        0x1b => Some(Instruction::Iload_1),
        0x1c => Some(Instruction::Iload_2),
        0x1d => Some(Instruction::Iload_3),
        0x1e => Some(Instruction::Lload_0),
        0x1f => Some(Instruction::Lload_1),
        0x20 => Some(Instruction::Lload_2),
        0x21 => Some(Instruction::Lload_3),
        0x22 => Some(Instruction::Fload_0),
        0x23 => Some(Instruction::Fload_1),
        0x24 => Some(Instruction::Fload_2),
        0x25 => Some(Instruction::Fload_3),
        0x26 => Some(Instruction::Dload_0),
        0x27 => Some(Instruction::Dload_1),
        0x28 => Some(Instruction::Dload_2),
        0x29 => Some(Instruction::Dload_3),
        0x2a => Some(Instruction::Aload_0),
        0x2b => Some(Instruction::Aload_1),
        0x2c => Some(Instruction::Aload_2),
        0x2d => Some(Instruction::Aload_3),
        0x2e => Some(Instruction::Iaload),
        0x2f => Some(Instruction::Laload),
        0x30 => Some(Instruction::Faload),
        0x31 => Some(Instruction::Daload),
        0x32 => Some(Instruction::Aaload),
        0x33 => Some(Instruction::Baload),
        0x34 => Some(Instruction::Caload),
        0x35 => Some(Instruction::Saload),
        0x3b => Some(Instruction::Istore_0),
        0x3c => Some(Instruction::Istore_1),
        0x3d => Some(Instruction::Istore_2),
        0x3e => Some(Instruction::Istore_3),
        0x3f => Some(Instruction::Lstore_0),
        0x40 => Some(Instruction::Lstore_1),
        0x41 => Some(Instruction::Lstore_2),
        0x42 => Some(Instruction::Lstore_3),
        0x43 => Some(Instruction::Fstore_0),
        0x44 => Some(Instruction::Fstore_1),
        0x45 => Some(Instruction::Fstore_2),
        0x46 => Some(Instruction::Fstore_3),
        0x47 => Some(Instruction::Dstore_0),
        0x48 => Some(Instruction::Dstore_1),
        0x49 => Some(Instruction::Dstore_2),
        0x4a => Some(Instruction::Dstore_3),
        0x4b => Some(Instruction::Astore_0),
        0x4c => Some(Instruction::Astore_1),
        0x4d => Some(Instruction::Astore_2),
        0x4e => Some(Instruction::Astore_3),
        0x4f => Some(Instruction::Iastore),
        0x50 => Some(Instruction::Lastore),
        0x51 => Some(Instruction::Fastore),
        0x52 => Some(Instruction::Dastore),
        0x53 => Some(Instruction::Aastore),
        0x54 => Some(Instruction::Bastore),
        0x55 => Some(Instruction::Castore),
        0x56 => Some(Instruction::Sastore),
        0x57 => Some(Instruction::Pop),
        0x58 => Some(Instruction::Pop2),
        0x59 => Some(Instruction::Dup),
        0x5a => Some(Instruction::Dup_x1),
        0x5b => Some(Instruction::Dup_x2),
        0x5c => Some(Instruction::Dup2),
        0x5d => Some(Instruction::Dup2_x1),
        0x5e => Some(Instruction::Dup2_x2),
        0x5f => Some(Instruction::Swap),
        0x60 => Some(Instruction::Iadd),
        0x61 => Some(Instruction::Ladd),
        0x62 => Some(Instruction::Fadd),
        0x63 => Some(Instruction::Dadd),
        0x64 => Some(Instruction::Isub),
        0x65 => Some(Instruction::Lsub),
        0x66 => Some(Instruction::Fsub),
        0x67 => Some(Instruction::Dsub),
        0x68 => Some(Instruction::Imul),
        0x69 => Some(Instruction::Lmul),
        0x6a => Some(Instruction::Fmul),
        0x6b => Some(Instruction::Dmul),
        0x6c => Some(Instruction::Idiv),
        0x6d => Some(Instruction::Ldiv),
        0x6e => Some(Instruction::Fdiv),
        0x6f => Some(Instruction::Ddiv),
        0x70 => Some(Instruction::Irem),
        0x71 => Some(Instruction::Lrem),
        0x72 => Some(Instruction::Frem),
        0x73 => Some(Instruction::Drem),
        0x74 => Some(Instruction::Ineg),
        0x75 => Some(Instruction::Lneg),
        0x76 => Some(Instruction::Fneg),
        0x77 => Some(Instruction::Dneg),
        0x78 => Some(Instruction::Ishl),
        0x79 => Some(Instruction::Lshl),
        0x7a => Some(Instruction::Ishr),
        0x7b => Some(Instruction::Lshr),
        0x7c => Some(Instruction::Iushr),
        0x7d => Some(Instruction::Lushr),
        0x7e => Some(Instruction::Iand),
        0x7f => Some(Instruction::Land),
        0x80 => Some(Instruction::Ior),
        0x81 => Some(Instruction::Lor),
        0x82 => Some(Instruction::Ixor),
        0x83 => Some(Instruction::Lxor),
        0x85 => Some(Instruction::I2l),
        0x86 => Some(Instruction::I2f),
        0x87 => Some(Instruction::I2d),
        0x88 => Some(Instruction::L2i),
        0x89 => Some(Instruction::L2f),
        0x8a => Some(Instruction::L2d),
        0x8b => Some(Instruction::F2i),
        0x8c => Some(Instruction::F2l),
        0x8d => Some(Instruction::F2d),
        0x8e => Some(Instruction::D2i),
        0x8f => Some(Instruction::D2l),
        0x90 => Some(Instruction::D2f),
        0x91 => Some(Instruction::I2b),
        0x92 => Some(Instruction::I2c),
        0x93 => Some(Instruction::I2s),
        0x94 => Some(Instruction::Lcmp),
        0x95 => Some(Instruction::Fcmpl),
        0x96 => Some(Instruction::Fcmpg),
        0x97 => Some(Instruction::Dcmpl),
        0x98 => Some(Instruction::Dcmpg),
        0xac => Some(Instruction::Ireturn),
        0xad => Some(Instruction::Lreturn),
        0xae => Some(Instruction::Freturn),
        0xaf => Some(Instruction::Dreturn),
        0xb0 => Some(Instruction::Areturn),
        0xb1 => Some(Instruction::Return),
        0xbe => Some(Instruction::Arraylength),
        0xbf => Some(Instruction::Athrow),
        0xc2 => Some(Instruction::Monitorenter),
        0xc3 => Some(Instruction::Monitorexit),
        _ => None,
    }
}

fn read_with_byte(op: u8, a: u8) -> (r: Option<Instruction>)
    ensures
        r == byte_instruction(op, a),
        r is Some <==> byte_instruction(op, 0) is Some,
{
    match op {
        0x10 => Some(Instruction::Bipush(a)),
        0x12 => Some(Instruction::Ldc(a)),
        0x15 => Some(Instruction::Iload(a)),
        0x16 => Some(Instruction::Lload(a)),
        0x17 => Some(Instruction::Fload(a)),
        0x18 => Some(Instruction::Dload(a)),
        0x19 => Some(Instruction::Aload(a)),
        0x36 => Some(Instruction::Istore(a)),
        0x37 => Some(Instruction::Lstore(a)),
        0x38 => Some(Instruction::Fstore(a)),
        0x39 => Some(Instruction::Dstore(a)),
        0x3a => Some(Instruction::Astore(a)),
        0xa9 => Some(Instruction::Ret(a)),
        0xbc => Some(Instruction::Newarray(a)),
        _ => None,
    }
}

fn read_with_short(op: u8, a: u16) -> (r: Option<Instruction>)
    ensures
        r == short_instruction(op, a),
        r is Some <==> short_instruction(op, 0) is Some,
{
    match op {
        0x13 => Some(Instruction::Ldc_w(a)),
        0x14 => Some(Instruction::Ldc2_w(a)),
        0xb2 => Some(Instruction::Getstatic(a)),
        0xb3 => Some(Instruction::Putstatic(a)),
        0xb4 => Some(Instruction::Getfield(a)),
        0xb5 => Some(Instruction::Putfield(a)),
        0xb6 => Some(Instruction::Invokevirtual(a)),
        0xb7 => Some(Instruction::Invokespecial(a)),
        0xb8 => Some(Instruction::Invokestatic(a)),
        0xbb => Some(Instruction::New(a)),
        0xbd => Some(Instruction::Anewarray(a)),
        0xc0 => Some(Instruction::Checkcast(a)),
        0xc1 => Some(Instruction::Instanceof(a)),
        _ => None,
    }
}

fn read_with_signed_short(op: u8, a: i16) -> (r: Option<Instruction>)
    ensures
        r == signed_short_instruction(op, a),
        r is Some <==> signed_short_instruction(op, 0) is Some,
{
    match op {
        0x11 => Some(Instruction::Sipush(a)),
        0x99 => Some(Instruction::Ifeq(a)),
        0x9a => Some(Instruction::Ifne(a)),
        0x9b => Some(Instruction::Iflt(a)),
        0x9c => Some(Instruction::Ifge(a)),
        0x9d => Some(Instruction::Ifgt(a)),
        0x9e => Some(Instruction::Ifle(a)),
        0x9f => Some(Instruction::If_icmpeq(a)),
        0xa0 => Some(Instruction::If_icmpne(a)),
        0xa1 => Some(Instruction::If_icmplt(a)),
        0xa2 => Some(Instruction::If_icmpge(a)),
        0xa3 => Some(Instruction::If_icmpgt(a)),
        0xa4 => Some(Instruction::If_icmple(a)),
        0xa5 => Some(Instruction::If_acmpeq(a)),
        0xa6 => Some(Instruction::If_acmpne(a)),
        0xa7 => Some(Instruction::Goto(a)),
        0xa8 => Some(Instruction::Jsr(a)),
        0xc6 => Some(Instruction::Ifnull(a)),
        0xc7 => Some(Instruction::Ifnonnull(a)),
        _ => None,
    }
}

fn read_wide_kind(op: u8) -> (r: Option<WideKind>)
    ensures
        r == wide_kind(op),
{
    match op {
        0x15 => Some(WideKind::Iload),
        0x16 => Some(WideKind::Lload),
        0x17 => Some(WideKind::Fload),
        0x18 => Some(WideKind::Dload),
        0x19 => Some(WideKind::Aload),
        0x36 => Some(WideKind::Istore),
        0x37 => Some(WideKind::Lstore),
        0x38 => Some(WideKind::Fstore),
        0x39 => Some(WideKind::Dstore),
        0x3a => Some(WideKind::Astore),
        0xa9 => Some(WideKind::Ret),
        _ => None,
    }
}

fn read_wide(buffer: &mut ByteBuffer) -> (r: Result<Instruction, ClassFileError>)
    ensures
        decodes(*old(buffer), *final(buffer), r, parse_wide(old(buffer).bytes(), old(buffer).pos())),
{
    let op = buffer.read_u8()?;
    if op == 0x84 {
        let index = buffer.read_u16()?;
        let c = buffer.read_i16()?;
        Ok(Instruction::Wide(WideKind::Iinc, index, c))
    } else {
        match read_wide_kind(op) {
            None => Err(ClassFileError::InvalidCode(op)),
            Some(kind) => {
                let index = buffer.read_u16()?;
                Ok(Instruction::Wide(kind, index, 0))
            },
        }
    }
}

fn read_padding(buffer: &mut ByteBuffer, pc: usize) -> (r: Result<(), ClassFileError>)
    requires
        old(buffer).pos() == pc + 1,
    ensures
        final(buffer).bytes() == old(buffer).bytes(),
        match parse_bytes(old(buffer).bytes(), pc + 1, switch_padding(pc as int)) {
            Err(e) => r == Err::<(), _>(e),
            Ok((_, p)) => r is Ok && final(buffer).pos() == p,
        },
{
    let used: usize = (pc % 4 + 1) % 4;
    let padding: usize = (4 - used) % 4;
    assert(padding == switch_padding(pc as int));
    match buffer.read_bytes(padding) {
        Ok(_) => Ok(()),
        Err(e) => Err(e),
    }
}

fn read_tableswitch(buffer: &mut ByteBuffer, pc: usize) -> (r: Result<
    Instruction,
    ClassFileError,
>)
    requires
        old(buffer).pos() == pc + 1,
    ensures
        decodes(
            *old(buffer),
            *final(buffer),
            r,
            parse_tableswitch(old(buffer).bytes(), pc as int),
        ),
{
    read_padding(buffer, pc)?;
    let default = buffer.read_i32()?;
    let low = buffer.read_i32()?;
    let high = buffer.read_i32()?;
    if low > high {
        return Err(ClassFileError::InvalidCode(OP_TABLESWITCH));
    }
    let count: u64 = ((high as i64) - (low as i64) + 1) as u64;
    buffer.skip(4 * count)?;
    Ok(Instruction::Tableswitch(default, low, high))
}

fn read_lookupswitch(buffer: &mut ByteBuffer, pc: usize) -> (r: Result<
    Instruction,
    ClassFileError,
>)
    requires
        old(buffer).pos() == pc + 1,
    ensures
        decodes(
            *old(buffer),
            *final(buffer),
            r,
            parse_lookupswitch(old(buffer).bytes(), pc as int),
        ),
{
    read_padding(buffer, pc)?;
    let default = buffer.read_i32()?;
    let npairs = buffer.read_i32()?;
    if npairs < 0 {
        return Err(ClassFileError::InvalidCode(OP_LOOKUPSWITCH));
    }
    buffer.skip(8 * (npairs as u64))?;
    Ok(Instruction::Lookupswitch(default, npairs))
}

/// Decodes the instruction at the cursor, which stands in a code array
/// that starts at position 0.
pub fn read_one_instruction(buffer: &mut ByteBuffer) -> (r: Result<Instruction, ClassFileError>)
    ensures
        decodes(
            *old(buffer),
            *final(buffer),
            r,
            parse_instruction(old(buffer).bytes(), old(buffer).pos()),
        ),
{
    let pc = buffer.position();
    let op_code = buffer.read_u8()?;
    if let Some(instruction) = read_plain(op_code) {
        return Ok(instruction);
    }
    if read_with_byte(op_code, 0).is_some() {
        let a = buffer.read_u8()?;
        return match read_with_byte(op_code, a) {
            Some(instruction) => Ok(instruction),
            None => Err(ClassFileError::InvalidCode(op_code)),
        };
    }
    if read_with_short(op_code, 0).is_some() {
        let a = buffer.read_u16()?;
        return match read_with_short(op_code, a) {
            Some(instruction) => Ok(instruction),
            None => Err(ClassFileError::InvalidCode(op_code)),
        };
    }
    if read_with_signed_short(op_code, 0).is_some() {
        let a = buffer.read_i16()?;
        return match read_with_signed_short(op_code, a) {
            Some(instruction) => Ok(instruction),
            None => Err(ClassFileError::InvalidCode(op_code)),
        };
    }
    match op_code {
        0xc8 => {
            let a = buffer.read_i32()?;
            Ok(Instruction::Goto_w(a))
        },
        0xc9 => {
            let a = buffer.read_i32()?;
            Ok(Instruction::Jsr_w(a))
        },
        0x84 => {
            let index = buffer.read_u8()?;
            let c = buffer.read_i8()?;
            Ok(Instruction::Iinc(index, c))
        },
        0xb9 => {
            let index = buffer.read_u16()?;
            let count = buffer.read_u8()?;
            let _ = buffer.read_u8()?;
            Ok(Instruction::Invokeinterface(index, count))
        },
        0xba => {
            let index = buffer.read_u16()?;
            let _ = buffer.read_u16()?;
            Ok(Instruction::Invokedynamic(index))
        },
        0xc5 => {
            let index = buffer.read_u16()?;
            let dimensions = buffer.read_u8()?;
            Ok(Instruction::Multianewarray(index, dimensions))
        },
        0xaa => read_tableswitch(buffer, pc),
        0xab => read_lookupswitch(buffer, pc),
        0xc4 => read_wide(buffer),
        op_code => Err(ClassFileError::InvalidCode(op_code)),
    }
}

} // verus!
