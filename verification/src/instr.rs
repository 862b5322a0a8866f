//! Instructions, and how the bytes of a function body decode into them.
//!
//! The body of a function is a sequence of instructions. The instructions
//! inside a `block`, `loop` or `if` are kept apart from the sequence that
//! holds it: they form a block of the function's `Code`, and the instruction
//! names that block by its index. A block is stored when its `end` has been
//! read, so an instruction only names blocks that were stored before the block
//! it stands in.

use vstd::prelude::*;
use crate::error::Error;
use crate::reader::{Decoded, parsed, spec_u8, parse_u8, spec_var_u32, parse_var_u32, spec_var_i32,
    parse_var_i32, spec_var_i64, parse_var_i64, spec_var_i33, parse_var_i33};
use crate::types::{ValType, Value, spec_val_type_of, val_type_of, spec_index_vec, parse_index_vec};

verus! {

/// The type of a block: no result, one result, or a signature of the module.
#[derive(Copy, Clone, Debug, PartialEq, Eq, Structural)]
pub enum BlockType {
    Empty,
    Value(ValType),
    Func(u32),
}

/// The width of an integer instruction.
#[derive(Copy, Clone, Debug, PartialEq, Eq, Structural)]
pub enum IntTy {
    I32,
    I64,
}

/// The comparisons of two integers.
#[derive(Copy, Clone, Debug, PartialEq, Eq, Structural)]
pub enum RelOp {
    Eq,
    Ne,
    LtS,
    LtU,
    GtS,
    GtU,
    LeS,
    LeU,
    GeS,
    GeU,
}

/// The operations on one integer.
#[derive(Copy, Clone, Debug, PartialEq, Eq, Structural)]
pub enum UnOp {
    Clz,
    Ctz,
    Popcnt,
}

/// The operations on two integers.
#[derive(Copy, Clone, Debug, PartialEq, Eq, Structural)]
pub enum BinOp {
    Add,
    Sub,
    Mul,
    DivS,
    DivU,
    RemS,
    RemU,
    And,
    Or,
    Xor,
    Shl,
    ShrS,
    ShrU,
    Rotl,
    Rotr,
}

/// The conversions between value types that involve no floating-point
/// arithmetic.
#[derive(Copy, Clone, Debug, PartialEq, Eq, Structural)]
pub enum CvtOp {
    I32WrapI64,
    I64ExtendI32S,
    I64ExtendI32U,
    I32ReinterpretF32,
    I64ReinterpretF64,
    F32ReinterpretI32,
    F64ReinterpretI64,
    I32Extend8S,
    I32Extend16S,
    I64Extend8S,
    I64Extend16S,
    I64Extend32S,
}

/// The immediates of a memory instruction: the alignment hint, as a power of
/// two, and the offset that is added to the address operand.
#[derive(Copy, Clone, Debug, PartialEq, Eq, Structural)]
pub struct MemArg {
    pub align: u32,
    pub offset: u32,
}

/// An instruction. `Block`, `Loop` and `If` name the blocks of their bodies
/// in the function's `Code`, `BrTable` names its table of labels there.
#[derive(Copy, Clone, Debug, PartialEq, Eq, Structural)]
pub enum Instr {
    Unreachable,
    Nop,
    Block(BlockType, usize),
    Loop(BlockType, usize),
    If(BlockType, usize, usize),
    Br(u32),
    BrIf(u32),
    BrTable(usize),
    Return,
    Call(u32),
    CallIndirect(u32, u32),
    Drop,
    Select,
    LocalGet(u32),
    LocalSet(u32),
    LocalTee(u32),
    GlobalGet(u32),
    GlobalSet(u32),
    /// Reads `width` bytes and widens them to a value of type `ty`, with the
    /// sign where `signed` says so.
    Load { ty: ValType, width: u8, signed: bool, arg: MemArg },
    /// Writes the low `width` bytes of a value of type `ty`.
    Store { ty: ValType, width: u8, arg: MemArg },
    MemorySize,
    MemoryGrow,
    Const(Value),
    Eqz(IntTy),
    Rel(IntTy, RelOp),
    Unary(IntTy, UnOp),
    Binary(IntTy, BinOp),
    Convert(CvtOp),
}

/// The comparison at place `k` of the opcode table.
pub open spec fn spec_rel_op_at(k: u8) -> Option<RelOp> {
    if k == 0 {
        Some(RelOp::Eq)
    } else if k == 1 {
        Some(RelOp::Ne)
    } else if k == 2 {
        Some(RelOp::LtS)
    } else if k == 3 {
        Some(RelOp::LtU)
    } else if k == 4 {
        Some(RelOp::GtS)
    } else if k == 5 {
        Some(RelOp::GtU)
    } else if k == 6 {
        Some(RelOp::LeS)
    } else if k == 7 {
        Some(RelOp::LeU)
    } else if k == 8 {
        Some(RelOp::GeS)
    } else if k == 9 {
        Some(RelOp::GeU)
    } else {
        None
    }
}

pub fn rel_op_at(k: u8) -> (r: Option<RelOp>)
    ensures
        r == spec_rel_op_at(k),
{
    if k == 0 {
        Some(RelOp::Eq)
    } else if k == 1 {
        Some(RelOp::Ne)
    } else if k == 2 {
        Some(RelOp::LtS)
    } else if k == 3 {
        Some(RelOp::LtU)
    } else if k == 4 {
        Some(RelOp::GtS)
    } else if k == 5 {
        Some(RelOp::GtU)
    } else if k == 6 {
        Some(RelOp::LeS)
    } else if k == 7 {
        Some(RelOp::LeU)
    } else if k == 8 {
        Some(RelOp::GeS)
    } else if k == 9 {
        Some(RelOp::GeU)
    } else {
        None
    }
}

/// The unary operation at place `k` of the opcode table.
pub open spec fn spec_un_op_at(k: u8) -> Option<UnOp> {
    if k == 0 {
        Some(UnOp::Clz)
    } else if k == 1 {
        Some(UnOp::Ctz)
    } else if k == 2 {
        Some(UnOp::Popcnt)
    } else {
        None
    }
}

pub fn un_op_at(k: u8) -> (r: Option<UnOp>)
    ensures
        r == spec_un_op_at(k),
{
    if k == 0 {
        Some(UnOp::Clz)
    } else if k == 1 {
        Some(UnOp::Ctz)
    } else if k == 2 {
        Some(UnOp::Popcnt)
    } else {
        None
    }
}

/// The binary operation at place `k` of the opcode table.
pub open spec fn spec_bin_op_at(k: u8) -> Option<BinOp> {
    if k == 0 {
        Some(BinOp::Add)
    } else if k == 1 {
        Some(BinOp::Sub)
    } else if k == 2 {
        Some(BinOp::Mul)
    } else if k == 3 {
        Some(BinOp::DivS)
    } else if k == 4 {
        Some(BinOp::DivU)
    } else if k == 5 {
        Some(BinOp::RemS)
    } else if k == 6 {
        Some(BinOp::RemU)
    } else if k == 7 {
        Some(BinOp::And)
    } else if k == 8 {
        Some(BinOp::Or)
    } else if k == 9 {
        Some(BinOp::Xor)
    } else if k == 10 {
        Some(BinOp::Shl)
    } else if k == 11 {
        Some(BinOp::ShrS)
    } else if k == 12 {
        Some(BinOp::ShrU)
    } else if k == 13 {
        Some(BinOp::Rotl)
    } else if k == 14 {
        Some(BinOp::Rotr)
    } else {
        None
    }
}

pub fn bin_op_at(k: u8) -> (r: Option<BinOp>)
    ensures
        r == spec_bin_op_at(k),
{
    if k == 0 {
        Some(BinOp::Add)
    } else if k == 1 {
        Some(BinOp::Sub)
    } else if k == 2 {
        Some(BinOp::Mul)
    } else if k == 3 {
        Some(BinOp::DivS)
    } else if k == 4 {
        Some(BinOp::DivU)
    } else if k == 5 {
        Some(BinOp::RemS)
    } else if k == 6 {
        Some(BinOp::RemU)
    } else if k == 7 {
        Some(BinOp::And)
    } else if k == 8 {
        Some(BinOp::Or)
    } else if k == 9 {
        Some(BinOp::Xor)
    } else if k == 10 {
        Some(BinOp::Shl)
    } else if k == 11 {
        Some(BinOp::ShrS)
    } else if k == 12 {
        Some(BinOp::ShrU)
    } else if k == 13 {
        Some(BinOp::Rotl)
    } else if k == 14 {
        Some(BinOp::Rotr)
    } else {
        None
    }
}

/// The instruction without immediates that the opcode `op` names.
pub open spec fn spec_plain_instr(op: u8) -> Option<Instr> {
    if op == 0x00 {
        Some(Instr::Unreachable)
    } else if op == 0x01 {
        Some(Instr::Nop)
    } else if op == 0x0f {
        Some(Instr::Return)
    } else if op == 0x1a {
        Some(Instr::Drop)
    } else if op == 0x1b {
        Some(Instr::Select)
    } else if op == 0x45 {
        Some(Instr::Eqz(IntTy::I32))
    } else if 0x46 <= op && op <= 0x4f {
        match spec_rel_op_at((op - 0x46) as u8) {
            Some(o) => Some(Instr::Rel(IntTy::I32, o)),
            None => None,
        }
    } else if op == 0x50 {
        Some(Instr::Eqz(IntTy::I64))
    } else if 0x51 <= op && op <= 0x5a {
        match spec_rel_op_at((op - 0x51) as u8) {
            Some(o) => Some(Instr::Rel(IntTy::I64, o)),
            None => None,
        }
    } else if 0x67 <= op && op <= 0x69 {
        match spec_un_op_at((op - 0x67) as u8) {
            Some(o) => Some(Instr::Unary(IntTy::I32, o)),
            None => None,
        }
    } else if 0x6a <= op && op <= 0x78 {
        match spec_bin_op_at((op - 0x6a) as u8) {
            Some(o) => Some(Instr::Binary(IntTy::I32, o)),
            None => None,
        }
    } else if 0x79 <= op && op <= 0x7b {
        match spec_un_op_at((op - 0x79) as u8) {
            Some(o) => Some(Instr::Unary(IntTy::I64, o)),
            None => None,
        }
    } else if 0x7c <= op && op <= 0x8a {
        match spec_bin_op_at((op - 0x7c) as u8) {
            Some(o) => Some(Instr::Binary(IntTy::I64, o)),
            None => None,
        }
    } else if op == 0xa7 {
        Some(Instr::Convert(CvtOp::I32WrapI64))
    } else if op == 0xac {
        Some(Instr::Convert(CvtOp::I64ExtendI32S))
    } else if op == 0xad {
        Some(Instr::Convert(CvtOp::I64ExtendI32U))
    } else if op == 0xbc {
        Some(Instr::Convert(CvtOp::I32ReinterpretF32))
    } else if op == 0xbd {
        Some(Instr::Convert(CvtOp::I64ReinterpretF64))
    } else if op == 0xbe {
        Some(Instr::Convert(CvtOp::F32ReinterpretI32))
    } else if op == 0xbf {
        Some(Instr::Convert(CvtOp::F64ReinterpretI64))
    } else if op == 0xc0 {
        Some(Instr::Convert(CvtOp::I32Extend8S))
    } else if op == 0xc1 {
        Some(Instr::Convert(CvtOp::I32Extend16S))
    } else if op == 0xc2 {
        Some(Instr::Convert(CvtOp::I64Extend8S))
    } else if op == 0xc3 {
        Some(Instr::Convert(CvtOp::I64Extend16S))
    } else if op == 0xc4 {
        Some(Instr::Convert(CvtOp::I64Extend32S))
    } else {
        None
    }
}

pub fn plain_instr(op: u8) -> (r: Option<Instr>)
    ensures
        r == spec_plain_instr(op),
{
    if op == 0x00 {
        Some(Instr::Unreachable)
    } else if op == 0x01 {
        Some(Instr::Nop)
    } else if op == 0x0f {
        Some(Instr::Return)
    } else if op == 0x1a {
        Some(Instr::Drop)
    } else if op == 0x1b {
        Some(Instr::Select)
    } else if op == 0x45 {
        Some(Instr::Eqz(IntTy::I32))
    } else if 0x46 <= op && op <= 0x4f {
        match rel_op_at((op - 0x46) as u8) {
            Some(o) => Some(Instr::Rel(IntTy::I32, o)),
            None => None,
        }
    } else if op == 0x50 {
        Some(Instr::Eqz(IntTy::I64))
    } else if 0x51 <= op && op <= 0x5a {
        match rel_op_at((op - 0x51) as u8) {
            Some(o) => Some(Instr::Rel(IntTy::I64, o)),
            None => None,
        }
    } else if 0x67 <= op && op <= 0x69 {
        match un_op_at((op - 0x67) as u8) {
            Some(o) => Some(Instr::Unary(IntTy::I32, o)),
            None => None,
        }
    } else if 0x6a <= op && op <= 0x78 {
        match bin_op_at((op - 0x6a) as u8) {
            Some(o) => Some(Instr::Binary(IntTy::I32, o)),
            None => None,
        }
    } else if 0x79 <= op && op <= 0x7b {
        match un_op_at((op - 0x79) as u8) {
            Some(o) => Some(Instr::Unary(IntTy::I64, o)),
            None => None,
        }
    } else if 0x7c <= op && op <= 0x8a {
        match bin_op_at((op - 0x7c) as u8) {
            Some(o) => Some(Instr::Binary(IntTy::I64, o)),
            None => None,
        }
    } else if op == 0xa7 {
        Some(Instr::Convert(CvtOp::I32WrapI64))
    } else if op == 0xac {
        Some(Instr::Convert(CvtOp::I64ExtendI32S))
    } else if op == 0xad {
        Some(Instr::Convert(CvtOp::I64ExtendI32U))
    } else if op == 0xbc {
        Some(Instr::Convert(CvtOp::I32ReinterpretF32))
    } else if op == 0xbd {
        Some(Instr::Convert(CvtOp::I64ReinterpretF64))
    } else if op == 0xbe {
        Some(Instr::Convert(CvtOp::F32ReinterpretI32))
    } else if op == 0xbf {
        Some(Instr::Convert(CvtOp::F64ReinterpretI64))
    } else if op == 0xc0 {
        Some(Instr::Convert(CvtOp::I32Extend8S))
    } else if op == 0xc1 {
        Some(Instr::Convert(CvtOp::I32Extend16S))
    } else if op == 0xc2 {
        Some(Instr::Convert(CvtOp::I64Extend8S))
    } else if op == 0xc3 {
        Some(Instr::Convert(CvtOp::I64Extend16S))
    } else if op == 0xc4 {
        Some(Instr::Convert(CvtOp::I64Extend32S))
    } else {
        None
    }
}

/// The load or store that the opcode `op` names, with its immediates.
pub open spec fn spec_memory_instr(op: u8, arg: MemArg) -> Option<Instr> {
    if op == 0x28 {
        Some(Instr::Load { ty: ValType::I32, width: 4, signed: false, arg })
    } else if op == 0x29 {
        Some(Instr::Load { ty: ValType::I64, width: 8, signed: false, arg })
    } else if op == 0x2a {
        Some(Instr::Load { ty: ValType::F32, width: 4, signed: false, arg })
    } else if op == 0x2b {
        Some(Instr::Load { ty: ValType::F64, width: 8, signed: false, arg })
    } else if op == 0x2c {
        Some(Instr::Load { ty: ValType::I32, width: 1, signed: true, arg })
    } else if op == 0x2d {
        Some(Instr::Load { ty: ValType::I32, width: 1, signed: false, arg })
    } else if op == 0x2e {
        Some(Instr::Load { ty: ValType::I32, width: 2, signed: true, arg })
    } else if op == 0x2f {
        Some(Instr::Load { ty: ValType::I32, width: 2, signed: false, arg })
    } else if op == 0x30 {
        Some(Instr::Load { ty: ValType::I64, width: 1, signed: true, arg })
    } else if op == 0x31 {
        Some(Instr::Load { ty: ValType::I64, width: 1, signed: false, arg })
    } else if op == 0x32 {
        Some(Instr::Load { ty: ValType::I64, width: 2, signed: true, arg })
    } else if op == 0x33 {
        Some(Instr::Load { ty: ValType::I64, width: 2, signed: false, arg })
    } else if op == 0x34 {
        Some(Instr::Load { ty: ValType::I64, width: 4, signed: true, arg })
    } else if op == 0x35 {
        Some(Instr::Load { ty: ValType::I64, width: 4, signed: false, arg })
    } else if op == 0x36 {
        Some(Instr::Store { ty: ValType::I32, width: 4, arg })
    } else if op == 0x37 {
        Some(Instr::Store { ty: ValType::I64, width: 8, arg })
    } else if op == 0x38 {
        Some(Instr::Store { ty: ValType::F32, width: 4, arg })
    } else if op == 0x39 {
        Some(Instr::Store { ty: ValType::F64, width: 8, arg })
    } else if op == 0x3a {
        Some(Instr::Store { ty: ValType::I32, width: 1, arg })
    } else if op == 0x3b {
        Some(Instr::Store { ty: ValType::I32, width: 2, arg })
    } else if op == 0x3c {
        Some(Instr::Store { ty: ValType::I64, width: 1, arg })
    } else if op == 0x3d {
        Some(Instr::Store { ty: ValType::I64, width: 2, arg })
    } else if op == 0x3e {
        Some(Instr::Store { ty: ValType::I64, width: 4, arg })
    } else {
        None
    }
}

pub fn memory_instr(op: u8, arg: MemArg) -> (r: Option<Instr>)
    ensures
        r == spec_memory_instr(op, arg),
{
    if op == 0x28 {
        Some(Instr::Load { ty: ValType::I32, width: 4, signed: false, arg })
    } else if op == 0x29 {
        Some(Instr::Load { ty: ValType::I64, width: 8, signed: false, arg })
    } else if op == 0x2a {
        Some(Instr::Load { ty: ValType::F32, width: 4, signed: false, arg })
    } else if op == 0x2b {
        Some(Instr::Load { ty: ValType::F64, width: 8, signed: false, arg })
    } else if op == 0x2c {
        Some(Instr::Load { ty: ValType::I32, width: 1, signed: true, arg })
    } else if op == 0x2d {
        Some(Instr::Load { ty: ValType::I32, width: 1, signed: false, arg })
    } else if op == 0x2e {
        Some(Instr::Load { ty: ValType::I32, width: 2, signed: true, arg })
    } else if op == 0x2f {
        Some(Instr::Load { ty: ValType::I32, width: 2, signed: false, arg })
    } else if op == 0x30 {
        Some(Instr::Load { ty: ValType::I64, width: 1, signed: true, arg })
    } else if op == 0x31 {
        Some(Instr::Load { ty: ValType::I64, width: 1, signed: false, arg })
    } else if op == 0x32 {
        Some(Instr::Load { ty: ValType::I64, width: 2, signed: true, arg })
    } else if op == 0x33 {
        Some(Instr::Load { ty: ValType::I64, width: 2, signed: false, arg })
    } else if op == 0x34 {
        Some(Instr::Load { ty: ValType::I64, width: 4, signed: true, arg })
    } else if op == 0x35 {
        Some(Instr::Load { ty: ValType::I64, width: 4, signed: false, arg })
    } else if op == 0x36 {
        Some(Instr::Store { ty: ValType::I32, width: 4, arg })
    } else if op == 0x37 {
        Some(Instr::Store { ty: ValType::I64, width: 8, arg })
    } else if op == 0x38 {
        Some(Instr::Store { ty: ValType::F32, width: 4, arg })
    } else if op == 0x39 {
        Some(Instr::Store { ty: ValType::F64, width: 8, arg })
    } else if op == 0x3a {
        Some(Instr::Store { ty: ValType::I32, width: 1, arg })
    } else if op == 0x3b {
        Some(Instr::Store { ty: ValType::I32, width: 2, arg })
    } else if op == 0x3c {
        Some(Instr::Store { ty: ValType::I64, width: 1, arg })
    } else if op == 0x3d {
        Some(Instr::Store { ty: ValType::I64, width: 2, arg })
    } else if op == 0x3e {
        Some(Instr::Store { ty: ValType::I64, width: 4, arg })
    } else {
        None
    }
}

/// The instruction with one index as its immediate that the opcode `op` names.
pub open spec fn spec_index_instr(op: u8, x: u32) -> Option<Instr> {
    if op == 0x0c {
        Some(Instr::Br(x))
    } else if op == 0x0d {
        Some(Instr::BrIf(x))
    } else if op == 0x10 {
        Some(Instr::Call(x))
    } else if op == 0x20 {
        Some(Instr::LocalGet(x))
    } else if op == 0x21 {
        Some(Instr::LocalSet(x))
    } else if op == 0x22 {
        Some(Instr::LocalTee(x))
    } else if op == 0x23 {
        Some(Instr::GlobalGet(x))
    } else if op == 0x24 {
        Some(Instr::GlobalSet(x))
    } else {
        None
    }
}

pub fn index_instr(op: u8, x: u32) -> (r: Option<Instr>)
    ensures
        r == spec_index_instr(op, x),
{
    if op == 0x0c {
        Some(Instr::Br(x))
    } else if op == 0x0d {
        Some(Instr::BrIf(x))
    } else if op == 0x10 {
        Some(Instr::Call(x))
    } else if op == 0x20 {
        Some(Instr::LocalGet(x))
    } else if op == 0x21 {
        Some(Instr::LocalSet(x))
    } else if op == 0x22 {
        Some(Instr::LocalTee(x))
    } else if op == 0x23 {
        Some(Instr::GlobalGet(x))
    } else if op == 0x24 {
        Some(Instr::GlobalSet(x))
    } else {
        None
    }
}

/// The number whose little-endian bytes are the `n` bytes from `pos` on.
pub open spec fn spec_le_value(bytes: Seq<u8>, pos: int, n: nat) -> nat
    decreases n,
{
    if n == 0 {
        0
    } else {
        bytes[pos] as nat + 256 * spec_le_value(bytes, pos + 1, (n - 1) as nat)
    }
}

/// Four bytes, little-endian.
pub open spec fn spec_fixed_u32(bytes: Seq<u8>, pos: int) -> Decoded<u32> {
    if 0 <= pos && pos + 4 <= bytes.len() {
        Ok((spec_le_value(bytes, pos, 4) as u32, pos + 4))
    } else {
        Err(Error::UnexpectedEof)
    }
}

/// Eight bytes, little-endian.
pub open spec fn spec_fixed_u64(bytes: Seq<u8>, pos: int) -> Decoded<u64> {
    if 0 <= pos && pos + 8 <= bytes.len() {
        Ok((spec_le_value(bytes, pos, 8) as u64, pos + 8))
    } else {
        Err(Error::UnexpectedEof)
    }
}

pub fn parse_fixed_u32(bytes: &[u8], pos: usize) -> (r: Result<(u32, usize), Error>)
    ensures
        parsed(r, spec_fixed_u32(bytes@, pos as int)),
        r matches Ok((_, q)) ==> pos < q <= bytes@.len(),
{
    if pos > bytes.len() || bytes.len() - pos < 4 {
        return Err(Error::UnexpectedEof);
    }
    proof {
        reveal_with_fuel(spec_le_value, 5);
    }
    let v: u32 = bytes[pos] as u32 + 0x100 * (bytes[pos + 1] as u32) + 0x1_0000 * (bytes[pos
        + 2] as u32) + 0x100_0000 * (bytes[pos + 3] as u32);
    Ok((v, pos + 4))
}

pub fn parse_fixed_u64(bytes: &[u8], pos: usize) -> (r: Result<(u64, usize), Error>)
    ensures
        parsed(r, spec_fixed_u64(bytes@, pos as int)),
        r matches Ok((_, q)) ==> pos < q <= bytes@.len(),
{
    if pos > bytes.len() || bytes.len() - pos < 8 {
        return Err(Error::UnexpectedEof);
    }
    proof {
        reveal_with_fuel(spec_le_value, 9);
    }
    let lo: u64 = bytes[pos] as u64 + 0x100 * (bytes[pos + 1] as u64) + 0x1_0000 * (bytes[pos
        + 2] as u64) + 0x100_0000 * (bytes[pos + 3] as u64);
    let hi: u64 = bytes[pos + 4] as u64 + 0x100 * (bytes[pos + 5] as u64) + 0x1_0000 * (bytes[pos
        + 6] as u64) + 0x100_0000 * (bytes[pos + 7] as u64);
    Ok((lo + 0x1_0000_0000 * hi, pos + 8))
}

/// The type of a block: 0x40 for none, a value type, or the index of a
/// signature as a signed number of 33 bits that is not negative.
pub open spec fn spec_block_type(bytes: Seq<u8>, pos: int) -> Decoded<BlockType> {
    match spec_u8(bytes, pos) {
        Ok((b, q)) => if b == 0x40 {
            Ok((BlockType::Empty, q))
        } else {
            match spec_val_type_of(b) {
                Some(t) => Ok((BlockType::Value(t), q)),
                None => match spec_var_i33(bytes, pos) {
                    Ok((v, q2)) => if v < 0 {
                        Err(Error::InvalidBlockType)
                    } else {
                        Ok((BlockType::Func(v as u32), q2))
                    },
                    Err(e) => Err(e),
                },
            }
        },
        Err(e) => Err(e),
    }
}

pub fn parse_block_type(bytes: &[u8], pos: usize) -> (r: Result<(BlockType, usize), Error>)
    ensures
        parsed(r, spec_block_type(bytes@, pos as int)),
        r matches Ok((_, q)) ==> pos < q <= bytes@.len(),
{
    let (b, q) = parse_u8(bytes, pos)?;
    if b == 0x40 {
        return Ok((BlockType::Empty, q));
    }
    match val_type_of(b) {
        Some(t) => Ok((BlockType::Value(t), q)),
        None => {
            let (v, q2) = parse_var_i33(bytes, pos)?;
            if v < 0 {
                Err(Error::InvalidBlockType)
            } else {
                Ok((BlockType::Func(v as u32), q2))
            }
        },
    }
}

/// The immediates of a memory instruction: alignment, then offset.
pub open spec fn spec_memarg(bytes: Seq<u8>, pos: int) -> Decoded<MemArg> {
    match spec_var_u32(bytes, pos) {
        Ok((align, q)) => match spec_var_u32(bytes, q) {
            Ok((offset, q2)) => Ok((MemArg { align, offset }, q2)),
            Err(e) => Err(e),
        },
        Err(e) => Err(e),
    }
}

pub fn parse_memarg(bytes: &[u8], pos: usize) -> (r: Result<(MemArg, usize), Error>)
    ensures
        parsed(r, spec_memarg(bytes@, pos as int)),
        r matches Ok((_, q)) ==> pos < q <= bytes@.len(),
{
    let (align, q) = parse_var_u32(bytes, pos)?;
    let (offset, q2) = parse_var_u32(bytes, q)?;
    Ok((MemArg { align, offset }, q2))
}

/// One instruction that holds no other instructions: its opcode and its
/// immediates. An opcode that names no instruction known here is rejected
/// with the opcode.
pub open spec fn spec_simple_instr(bytes: Seq<u8>, pos: int) -> Decoded<Instr> {
    match spec_u8(bytes, pos) {
        Err(e) => Err(e),
        Ok((op, q)) => if op == 0x0c || op == 0x0d || op == 0x10 || (0x20 <= op && op <= 0x24) {
            match spec_var_u32(bytes, q) {
                Ok((x, q2)) => match spec_index_instr(op, x) {
                    Some(i) => Ok((i, q2)),
                    None => Err(Error::UnsupportedInstruction(op)),
                },
                Err(e) => Err(e),
            }
        } else if op == 0x11 {
            match spec_var_u32(bytes, q) {
                Ok((ty, q2)) => match spec_var_u32(bytes, q2) {
                    Ok((table, q3)) => Ok((Instr::CallIndirect(ty, table), q3)),
                    Err(e) => Err(e),
                },
                Err(e) => Err(e),
            }
        } else if 0x28 <= op && op <= 0x3e {
            match spec_memarg(bytes, q) {
                Ok((arg, q2)) => match spec_memory_instr(op, arg) {
                    Some(i) => Ok((i, q2)),
                    None => Err(Error::UnsupportedInstruction(op)),
                },
                Err(e) => Err(e),
            }
        } else if op == 0x3f || op == 0x40 {
            match spec_u8(bytes, q) {
                Ok((zero, q2)) => if zero != 0 {
                    Err(Error::MalformedInstruction(op))
                } else if op == 0x3f {
                    Ok((Instr::MemorySize, q2))
                } else {
                    Ok((Instr::MemoryGrow, q2))
                },
                Err(e) => Err(e),
            }
        } else if op == 0x41 {
            match spec_var_i32(bytes, q) {
                Ok((v, q2)) => Ok((Instr::Const(Value::I32(v as u32)), q2)),
                Err(e) => Err(e),
            }
        } else if op == 0x42 {
            match spec_var_i64(bytes, q) {
                Ok((v, q2)) => Ok((Instr::Const(Value::I64(v as u64)), q2)),
                Err(e) => Err(e),
            }
        } else if op == 0x43 {
            match spec_fixed_u32(bytes, q) {
                Ok((v, q2)) => Ok((Instr::Const(Value::F32(v)), q2)),
                Err(e) => Err(e),
            }
        } else if op == 0x44 {
            match spec_fixed_u64(bytes, q) {
                Ok((v, q2)) => Ok((Instr::Const(Value::F64(v)), q2)),
                Err(e) => Err(e),
            }
        } else {
            match spec_plain_instr(op) {
                Some(i) => Ok((i, q)),
                None => Err(Error::UnsupportedInstruction(op)),
            }
        },
    }
}

pub fn parse_simple_instr(bytes: &[u8], pos: usize) -> (r: Result<(Instr, usize), Error>)
    ensures
        parsed(r, spec_simple_instr(bytes@, pos as int)),
        r matches Ok((_, q)) ==> pos < q <= bytes@.len(),
{
    let (op, q) = parse_u8(bytes, pos)?;
    if op == 0x0c || op == 0x0d || op == 0x10 || (0x20 <= op && op <= 0x24) {
        let (x, q2) = parse_var_u32(bytes, q)?;
        match index_instr(op, x) {
            Some(i) => Ok((i, q2)),
            None => Err(Error::UnsupportedInstruction(op)),
        }
    } else if op == 0x11 {
        let (ty, q2) = parse_var_u32(bytes, q)?;
        let (table, q3) = parse_var_u32(bytes, q2)?;
        Ok((Instr::CallIndirect(ty, table), q3))
    } else if 0x28 <= op && op <= 0x3e {
        let (arg, q2) = parse_memarg(bytes, q)?;
        match memory_instr(op, arg) {
            Some(i) => Ok((i, q2)),
            None => Err(Error::UnsupportedInstruction(op)),
        }
    } else if op == 0x3f || op == 0x40 {
        let (zero, q2) = parse_u8(bytes, q)?;
        if zero != 0 {
            Err(Error::MalformedInstruction(op))
        } else if op == 0x3f {
            Ok((Instr::MemorySize, q2))
        } else {
            Ok((Instr::MemoryGrow, q2))
        }
    } else if op == 0x41 {
        let (v, q2) = parse_var_i32(bytes, q)?;
        Ok((Instr::Const(Value::I32(#[verifier::truncate] (v as u32))), q2))
    } else if op == 0x42 {
        let (v, q2) = parse_var_i64(bytes, q)?;
        Ok((Instr::Const(Value::I64(#[verifier::truncate] (v as u64))), q2))
    } else if op == 0x43 {
        let (v, q2) = parse_fixed_u32(bytes, q)?;
        Ok((Instr::Const(Value::F32(v)), q2))
    } else if op == 0x44 {
        let (v, q2) = parse_fixed_u64(bytes, q)?;
        Ok((Instr::Const(Value::F64(v)), q2))
    } else {
        match plain_instr(op) {
            Some(i) => Ok((i, q)),
            None => Err(Error::UnsupportedInstruction(op)),
        }
    }
}

/// The code of one function or expression: the blocks that its structured
/// instructions name, and the label tables of its `br_table` instructions,
/// each with the default label as its last entry.
#[derive(Clone, Debug, PartialEq, Eq)]
pub struct Code {
    pub blocks: Vec<Vec<Instr>>,
    pub tables: Vec<Vec<u32>>,
}

pub struct CodeView {
    pub blocks: Seq<Seq<Instr>>,
    pub tables: Seq<Seq<u32>>,
}

impl View for Code {
    type V = CodeView;

    open spec fn view(&self) -> CodeView {
        CodeView {
            blocks: Seq::new(self.blocks@.len(), |i: int| self.blocks@[i]@),
            tables: Seq::new(self.tables@.len(), |i: int| self.tables@[i]@),
        }
    }
}

impl CodeView {
    /// No blocks and no tables.
    pub open spec fn empty() -> CodeView {
        CodeView { blocks: Seq::empty(), tables: Seq::empty() }
    }

    pub open spec fn with_block(self, body: Seq<Instr>) -> CodeView {
        CodeView { blocks: self.blocks.push(body), tables: self.tables }
    }

    pub open spec fn with_table(self, labels: Seq<u32>) -> CodeView {
        CodeView { blocks: self.blocks, tables: self.tables.push(labels) }
    }
}

/// How deep the blocks of an expression may nest.
pub const MAX_NESTING: u32 = 256;

/// What ends a sequence of instructions.
#[derive(Copy, Clone, Debug, PartialEq, Eq, Structural)]
pub enum Terminator {
    End,
    Else,
}

/// A sequence of instructions from `pos` up to the `end` or `else` that
/// closes it, behind those in `acc`; with it the code grown by the blocks
/// and tables of the sequence, and what closed it.
///
/// The body of a `block` or `loop` is a sequence closed by `end`. The body of
/// an `if` is a sequence closed by `end`, or one closed by `else` and then one
/// closed by `end`; without an `else` the second block is empty. Blocks may
/// nest `depth` deep.
///
/// Every decoder moves forward, so the tests that a position lies behind
/// `pos` and inside the bytes never fail; they show that the definition
/// terminates.
pub open spec fn spec_instrs(bytes: Seq<u8>, pos: int, depth: nat, acc: Seq<Instr>, code: CodeView) -> Result<
    (Seq<Instr>, Terminator, CodeView, int),
    Error,
>
    decreases bytes.len() - pos,
{
    match spec_u8(bytes, pos) {
        Err(e) => Err(e),
        Ok((op, at1)) => if op == 0x0b {
            Ok((acc, Terminator::End, code, at1))
        } else if op == 0x05 {
            Ok((acc, Terminator::Else, code, at1))
        } else if op == 0x02 || op == 0x03 {
            match spec_block_type(bytes, at1) {
                Err(e) => Err(e),
                Ok((bt, at2)) => if at2 <= pos || at2 > bytes.len() {
                    Err(Error::UnexpectedEof)
                } else if depth == 0 {
                    Err(Error::NestingTooDeep)
                } else {
                    match spec_instrs(bytes, at2, (depth - 1) as nat, Seq::empty(), code) {
                        Err(e) => Err(e),
                        Ok((body, term, code2, at3)) => if term == Terminator::Else {
                            Err(Error::MisplacedElse)
                        } else if at3 <= pos || at3 > bytes.len() {
                            Err(Error::UnexpectedEof)
                        } else {
                            let id = code2.blocks.len() as usize;
                            let ins = if op == 0x02 {
                                Instr::Block(bt, id)
                            } else {
                                Instr::Loop(bt, id)
                            };
                            spec_instrs(bytes, at3, depth, acc.push(ins), code2.with_block(body))
                        },
                    }
                },
            }
        } else if op == 0x04 {
            match spec_block_type(bytes, at1) {
                Err(e) => Err(e),
                Ok((bt, at2)) => if at2 <= pos || at2 > bytes.len() {
                    Err(Error::UnexpectedEof)
                } else if depth == 0 {
                    Err(Error::NestingTooDeep)
                } else {
                    match spec_instrs(bytes, at2, (depth - 1) as nat, Seq::empty(), code) {
                        Err(e) => Err(e),
                        Ok((then_body, term, code2, at3)) => if at3 <= pos || at3 > bytes.len() {
                            Err(Error::UnexpectedEof)
                        } else if term == Terminator::End {
                            let id = code2.blocks.len() as usize;
                            spec_instrs(
                                bytes,
                                at3,
                                depth,
                                acc.push(Instr::If(bt, id, (id + 1) as usize)),
                                code2.with_block(then_body).with_block(Seq::empty()),
                            )
                        } else {
                            match spec_instrs(bytes, at3, (depth - 1) as nat, Seq::empty(), code2) {
                                Err(e) => Err(e),
                                Ok((else_body, term2, code3, at4)) => if term2 == Terminator::Else {
                                    Err(Error::MisplacedElse)
                                } else if at4 <= pos || at4 > bytes.len() {
                                    Err(Error::UnexpectedEof)
                                } else {
                                    let id = code3.blocks.len() as usize;
                                    spec_instrs(
                                        bytes,
                                        at4,
                                        depth,
                                        acc.push(Instr::If(bt, id, (id + 1) as usize)),
                                        code3.with_block(then_body).with_block(else_body),
                                    )
                                },
                            }
                        },
                    }
                },
            }
        } else if op == 0x0e {
            match spec_index_vec(bytes, at1) {
                Err(e) => Err(e),
                Ok((labels, at2)) => match spec_var_u32(bytes, at2) {
                    Err(e) => Err(e),
                    Ok((default, at3)) => if at3 <= pos || at3 > bytes.len() {
                        Err(Error::UnexpectedEof)
                    } else {
                        spec_instrs(
                            bytes,
                            at3,
                            depth,
                            acc.push(Instr::BrTable(code.tables.len() as usize)),
                            code.with_table(labels.push(default)),
                        )
                    },
                },
            }
        } else {
            match spec_simple_instr(bytes, pos) {
                Err(e) => Err(e),
                Ok((ins, at2)) => if at2 <= pos || at2 > bytes.len() {
                    Err(Error::UnexpectedEof)
                } else {
                    spec_instrs(bytes, at2, depth, acc.push(ins), code)
                },
            }
        },
    }
}

fn store_block(code: &mut Code, body: Vec<Instr>) -> (id: usize)
    ensures
        id == old(code)@.blocks.len(),
        final(code)@ == old(code)@.with_block(body@),
{
    let id = code.blocks.len();
    code.blocks.push(body);
    assert(code@.blocks =~= old(code)@.blocks.push(body@));
    assert(code@.tables =~= old(code)@.tables);
    id
}

fn store_table(code: &mut Code, labels: Vec<u32>) -> (id: usize)
    ensures
        id == old(code)@.tables.len(),
        final(code)@ == old(code)@.with_table(labels@),
{
    let id = code.tables.len();
    code.tables.push(labels);
    assert(code@.tables =~= old(code)@.tables.push(labels@));
    assert(code@.blocks =~= old(code)@.blocks);
    id
}

/// Decodes a sequence of instructions up to the `end` or `else` that closes
/// it, and stores the blocks and tables of the sequence in `code`.
pub fn parse_instrs(bytes: &[u8], pos: usize, depth: u32, code: &mut Code) -> (r: Result<
    (Vec<Instr>, Terminator, usize),
    Error,
>)
    ensures
        match spec_instrs(bytes@, pos as int, depth as nat, Seq::empty(), old(code)@) {
            Ok((ins, t, c, q)) => r matches Ok((ri, rt, rq)) && ri@ == ins && rt == t && rq == q
                && final(code)@ == c && pos < q <= bytes@.len(),
            Err(e) => r == Err::<(Vec<Instr>, Terminator, usize), Error>(e),
        },
    decreases bytes@.len() - pos,
{
    let mut acc: Vec<Instr> = Vec::new();
    let mut p: usize = pos;
    loop
        invariant
            pos <= p,
            spec_instrs(bytes@, pos as int, depth as nat, Seq::empty(), old(code)@) == spec_instrs(
                bytes@,
                p as int,
                depth as nat,
                acc@,
                code@,
            ),
        decreases bytes@.len() - p,
    {
        let (op, at1) = parse_u8(bytes, p)?;
        if op == 0x0b {
            return Ok((acc, Terminator::End, at1));
        } else if op == 0x05 {
            return Ok((acc, Terminator::Else, at1));
        } else if op == 0x02 || op == 0x03 {
            let (bt, at2) = parse_block_type(bytes, at1)?;
            if depth == 0 {
                return Err(Error::NestingTooDeep);
            }
            let (body, term, at3) = parse_instrs(bytes, at2, depth - 1, code)?;
            if term == Terminator::Else {
                return Err(Error::MisplacedElse);
            }
            let id = store_block(code, body);
            acc.push(if op == 0x02 { Instr::Block(bt, id) } else { Instr::Loop(bt, id) });
            p = at3;
        } else if op == 0x04 {
            let (bt, at2) = parse_block_type(bytes, at1)?;
            if depth == 0 {
                return Err(Error::NestingTooDeep);
            }
            let (then_body, term, at3) = parse_instrs(bytes, at2, depth - 1, code)?;
            if term == Terminator::End {
                let id = store_block(code, then_body);
                let else_id = store_block(code, Vec::new());
                acc.push(Instr::If(bt, id, else_id));
                p = at3;
            } else {
                let (else_body, term2, at4) = parse_instrs(bytes, at3, depth - 1, code)?;
                if term2 == Terminator::Else {
                    return Err(Error::MisplacedElse);
                }
                let id = store_block(code, then_body);
                let else_id = store_block(code, else_body);
                acc.push(Instr::If(bt, id, else_id));
                p = at4;
            }
        } else if op == 0x0e {
            let (labels, at2) = parse_index_vec(bytes, at1)?;
            let (default, at3) = parse_var_u32(bytes, at2)?;
            let mut labels = labels;
            labels.push(default);
            let id = store_table(code, labels);
            acc.push(Instr::BrTable(id));
            p = at3;
        } else {
            let (ins, at2) = parse_simple_instr(bytes, p)?;
            acc.push(ins);
            p = at2;
        }
    }
}

/// An expression: a sequence of instructions closed by `end`, with its code.
#[derive(Clone, Debug, PartialEq, Eq)]
pub struct Expr {
    pub body: Vec<Instr>,
    pub code: Code,
}

pub struct ExprView {
    pub body: Seq<Instr>,
    pub code: CodeView,
}

impl View for Expr {
    type V = ExprView;

    open spec fn view(&self) -> ExprView {
        ExprView { body: self.body@, code: self.code@ }
    }
}

/// An expression at `pos`.
pub open spec fn spec_expr(bytes: Seq<u8>, pos: int) -> Decoded<ExprView> {
    match spec_instrs(bytes, pos, MAX_NESTING as nat, Seq::empty(), CodeView::empty()) {
        Err(e) => Err(e),
        Ok((body, term, code, q)) => if term == Terminator::Else {
            Err(Error::MisplacedElse)
        } else {
            Ok((ExprView { body, code }, q))
        },
    }
}

pub fn parse_expr(bytes: &[u8], pos: usize) -> (r: Result<(Expr, usize), Error>)
    ensures
        match spec_expr(bytes@, pos as int) {
            Ok((v, q)) => r matches Ok((rv, rq)) && rv@ == v && rq == q && pos < q <= bytes@.len(),
            Err(e) => r == Err::<(Expr, usize), Error>(e),
        },
{
    let mut code = Code { blocks: Vec::new(), tables: Vec::new() };
    assert(code@.blocks =~= Seq::empty() && code@.tables =~= Seq::empty());
    let (body, term, q) = parse_instrs(bytes, pos, MAX_NESTING, &mut code)?;
    if term == Terminator::Else {
        return Err(Error::MisplacedElse);
    }
    Ok((Expr { body, code }, q))
}

} // verus!
