//! The integer operations of the instruction set, on the bits of values.
//!
//! Integers are held as unsigned bit patterns. A signed operation reads the
//! pattern in two's complement, which is what a cast to the signed type of
//! the same width does. An operation without a defined result traps.

use vstd::prelude::*;
use crate::instr::{BinOp, CvtOp, IntTy, RelOp, UnOp};
use crate::types::Value;

verus! {

/// Why an invocation was aborted while it ran.
#[derive(Copy, Clone, Debug, PartialEq, Eq, Structural)]
pub enum Trap {
    /// An `unreachable` instruction was executed.
    Unreachable,
    /// A load or store reached beyond the end of the memory.
    OutOfBoundsMemory,
    /// An integer was divided by zero.
    DivisionByZero,
    /// The quotient of a signed division cannot be represented.
    IntegerOverflow,
    /// The function that an indirect call found has another signature than
    /// the call names.
    IndirectCallTypeMismatch,
    /// An indirect call found no function: the index lies beyond the table,
    /// or the entry is empty.
    UndefinedElement,
    /// Calls and blocks were nested deeper than the budget allows.
    CallStackExhausted,
    /// A loop was repeated more often than the budget allows.
    IterationLimit,
}

/// The bits of `a` rotated left by `b` places, modulo 32.
pub open spec fn spec_i32_rotl(a: u32, b: u32) -> u32 {
    let k = (b % 32) as u32;
    if k == 0 {
        a
    } else {
        (a << k) | (a >> ((32 - k) as u32))
    }
}

pub fn i32_rotl(a: u32, b: u32) -> (r: u32)
    ensures
        r == spec_i32_rotl(a, b),
{
    let k = (b % 32) as u32;
    if k == 0 {
        a
    } else {
        (a << k) | (a >> ((32 - k) as u32))
    }
}

/// The bits of `a` rotated right by `b` places, modulo 32.
pub open spec fn spec_i32_rotr(a: u32, b: u32) -> u32 {
    let k = (b % 32) as u32;
    if k == 0 {
        a
    } else {
        (a >> k) | (a << ((32 - k) as u32))
    }
}

pub fn i32_rotr(a: u32, b: u32) -> (r: u32)
    ensures
        r == spec_i32_rotr(a, b),
{
    let k = (b % 32) as u32;
    if k == 0 {
        a
    } else {
        (a >> k) | (a << ((32 - k) as u32))
    }
}

/// A binary operation on two integers of 32 bits. Sums, differences and products wrap; a division by zero traps, and so does the signed division of the least number by -1; shifts take their count modulo 32.
pub open spec fn spec_i32_binary(op: BinOp, a: u32, b: u32) -> Result<u32, Trap> {
    match op {
        BinOp::Add => Ok(a.wrapping_add(b)),
        BinOp::Sub => Ok(a.wrapping_sub(b)),
        BinOp::Mul => Ok(a.wrapping_mul(b)),
        BinOp::DivU => if b == 0 {
            Err(Trap::DivisionByZero)
        } else {
            Ok(a / b)
        },
        BinOp::RemU => if b == 0 {
            Err(Trap::DivisionByZero)
        } else {
            Ok(a % b)
        },
        BinOp::DivS => if b == 0 {
            Err(Trap::DivisionByZero)
        } else {
            match ((a as i32)).checked_div((b as i32)) {
                Some(q) => Ok((q as u32)),
                None => Err(Trap::IntegerOverflow),
            }
        },
        BinOp::RemS => if b == 0 {
            Err(Trap::DivisionByZero)
        } else {
            match ((a as i32)).checked_rem((b as i32)) {
                Some(q) => Ok((q as u32)),
                None => Ok(0),
            }
        },
        BinOp::And => Ok(a & b),
        BinOp::Or => Ok(a | b),
        BinOp::Xor => Ok(a ^ b),
        BinOp::Shl => Ok(a.wrapping_shl(b)),
        BinOp::ShrU => Ok(a.wrapping_shr(b)),
        BinOp::ShrS => Ok(
            (((a as i32)).wrapping_shr(b) as u32),
        ),
        BinOp::Rotl => Ok(spec_i32_rotl(a, b)),
        BinOp::Rotr => Ok(spec_i32_rotr(a, b)),
    }
}

pub fn i32_binary(op: BinOp, a: u32, b: u32) -> (r: Result<u32, Trap>)
    ensures
        r == spec_i32_binary(op, a, b),
{
    match op {
        BinOp::Add => Ok(a.wrapping_add(b)),
        BinOp::Sub => Ok(a.wrapping_sub(b)),
        BinOp::Mul => Ok(a.wrapping_mul(b)),
        BinOp::DivU => if b == 0 {
            Err(Trap::DivisionByZero)
        } else {
            Ok(a / b)
        },
        BinOp::RemU => if b == 0 {
            Err(Trap::DivisionByZero)
        } else {
            Ok(a % b)
        },
        BinOp::DivS => if b == 0 {
            Err(Trap::DivisionByZero)
        } else {
            match (#[verifier::truncate] (a as i32)).checked_div(#[verifier::truncate] (b as i32)) {
                Some(q) => Ok(#[verifier::truncate] (q as u32)),
                None => Err(Trap::IntegerOverflow),
            }
        },
        BinOp::RemS => if b == 0 {
            Err(Trap::DivisionByZero)
        } else {
            match (#[verifier::truncate] (a as i32)).checked_rem(#[verifier::truncate] (b as i32)) {
                Some(q) => Ok(#[verifier::truncate] (q as u32)),
                None => Ok(0),
            }
        },
        BinOp::And => Ok(a & b),
        BinOp::Or => Ok(a | b),
        BinOp::Xor => Ok(a ^ b),
        BinOp::Shl => Ok(a.wrapping_shl(b)),
        BinOp::ShrU => Ok(a.wrapping_shr(b)),
        BinOp::ShrS => Ok(
            #[verifier::truncate] ((#[verifier::truncate] (a as i32)).wrapping_shr(b) as u32),
        ),
        BinOp::Rotl => Ok(i32_rotl(a, b)),
        BinOp::Rotr => Ok(i32_rotr(a, b)),
    }
}

/// A comparison of two integers of 32 bits.
pub open spec fn spec_i32_rel(op: RelOp, a: u32, b: u32) -> bool {
    match op {
        RelOp::Eq => a == b,
        RelOp::Ne => a != b,
        RelOp::LtS => ((a as i32)) < ((b as i32)),
        RelOp::LtU => a < b,
        RelOp::GtS => ((a as i32)) > ((b as i32)),
        RelOp::GtU => a > b,
        RelOp::LeS => ((a as i32)) <= ((b as i32)),
        RelOp::LeU => a <= b,
        RelOp::GeS => ((a as i32)) >= ((b as i32)),
        RelOp::GeU => a >= b,
    }
}

pub fn i32_rel(op: RelOp, a: u32, b: u32) -> (r: bool)
    ensures
        r == spec_i32_rel(op, a, b),
{
    match op {
        RelOp::Eq => a == b,
        RelOp::Ne => a != b,
        RelOp::LtS => (#[verifier::truncate] (a as i32)) < (#[verifier::truncate] (b as i32)),
        RelOp::LtU => a < b,
        RelOp::GtS => (#[verifier::truncate] (a as i32)) > (#[verifier::truncate] (b as i32)),
        RelOp::GtU => a > b,
        RelOp::LeS => (#[verifier::truncate] (a as i32)) <= (#[verifier::truncate] (b as i32)),
        RelOp::LeU => a <= b,
        RelOp::GeS => (#[verifier::truncate] (a as i32)) >= (#[verifier::truncate] (b as i32)),
        RelOp::GeU => a >= b,
    }
}

/// The bits of `a` rotated left by `b` places, modulo 64.
pub open spec fn spec_i64_rotl(a: u64, b: u64) -> u64 {
    let k = (b % 64) as u32;
    if k == 0 {
        a
    } else {
        (a << k) | (a >> ((64 - k) as u32))
    }
}

pub fn i64_rotl(a: u64, b: u64) -> (r: u64)
    ensures
        r == spec_i64_rotl(a, b),
{
    let k = (b % 64) as u32;
    if k == 0 {
        a
    } else {
        (a << k) | (a >> ((64 - k) as u32))
    }
}

/// The bits of `a` rotated right by `b` places, modulo 64.
pub open spec fn spec_i64_rotr(a: u64, b: u64) -> u64 {
    let k = (b % 64) as u32;
    if k == 0 {
        a
    } else {
        (a >> k) | (a << ((64 - k) as u32))
    }
}

pub fn i64_rotr(a: u64, b: u64) -> (r: u64)
    ensures
        r == spec_i64_rotr(a, b),
{
    let k = (b % 64) as u32;
    if k == 0 {
        a
    } else {
        (a >> k) | (a << ((64 - k) as u32))
    }
}

/// A binary operation on two integers of 64 bits. Sums, differences and products wrap; a division by zero traps, and so does the signed division of the least number by -1; shifts take their count modulo 64.
pub open spec fn spec_i64_binary(op: BinOp, a: u64, b: u64) -> Result<u64, Trap> {
    match op {
        BinOp::Add => Ok(a.wrapping_add(b)),
        BinOp::Sub => Ok(a.wrapping_sub(b)),
        BinOp::Mul => Ok(a.wrapping_mul(b)),
        BinOp::DivU => if b == 0 {
            Err(Trap::DivisionByZero)
        } else {
            Ok(a / b)
        },
        BinOp::RemU => if b == 0 {
            Err(Trap::DivisionByZero)
        } else {
            Ok(a % b)
        },
        BinOp::DivS => if b == 0 {
            Err(Trap::DivisionByZero)
        } else {
            match ((a as i64)).checked_div((b as i64)) {
                Some(q) => Ok((q as u64)),
                None => Err(Trap::IntegerOverflow),
            }
        },
        BinOp::RemS => if b == 0 {
            Err(Trap::DivisionByZero)
        } else {
            match ((a as i64)).checked_rem((b as i64)) {
                Some(q) => Ok((q as u64)),
                None => Ok(0),
            }
        },
        BinOp::And => Ok(a & b),
        BinOp::Or => Ok(a | b),
        BinOp::Xor => Ok(a ^ b),
        BinOp::Shl => Ok(a.wrapping_shl((b % 64) as u32)),
        BinOp::ShrU => Ok(a.wrapping_shr((b % 64) as u32)),
        BinOp::ShrS => Ok(
            (((a as i64)).wrapping_shr((b % 64) as u32) as u64),
        ),
        BinOp::Rotl => Ok(spec_i64_rotl(a, b)),
        BinOp::Rotr => Ok(spec_i64_rotr(a, b)),
    }
}

pub fn i64_binary(op: BinOp, a: u64, b: u64) -> (r: Result<u64, Trap>)
    ensures
        r == spec_i64_binary(op, a, b),
{
    match op {
        BinOp::Add => Ok(a.wrapping_add(b)),
        BinOp::Sub => Ok(a.wrapping_sub(b)),
        BinOp::Mul => Ok(a.wrapping_mul(b)),
        BinOp::DivU => if b == 0 {
            Err(Trap::DivisionByZero)
        } else {
            Ok(a / b)
        },
        BinOp::RemU => if b == 0 {
            Err(Trap::DivisionByZero)
        } else {
            Ok(a % b)
        },
        BinOp::DivS => if b == 0 {
            Err(Trap::DivisionByZero)
        } else {
            match (#[verifier::truncate] (a as i64)).checked_div(#[verifier::truncate] (b as i64)) {
                Some(q) => Ok(#[verifier::truncate] (q as u64)),
                None => Err(Trap::IntegerOverflow),
            }
        },
        BinOp::RemS => if b == 0 {
            Err(Trap::DivisionByZero)
        } else {
            match (#[verifier::truncate] (a as i64)).checked_rem(#[verifier::truncate] (b as i64)) {
                Some(q) => Ok(#[verifier::truncate] (q as u64)),
                None => Ok(0),
            }
        },
        BinOp::And => Ok(a & b),
        BinOp::Or => Ok(a | b),
        BinOp::Xor => Ok(a ^ b),
        BinOp::Shl => Ok(a.wrapping_shl((b % 64) as u32)),
        BinOp::ShrU => Ok(a.wrapping_shr((b % 64) as u32)),
        BinOp::ShrS => Ok(
            #[verifier::truncate] ((#[verifier::truncate] (a as i64)).wrapping_shr((b % 64) as u32) as u64),
        ),
        BinOp::Rotl => Ok(i64_rotl(a, b)),
        BinOp::Rotr => Ok(i64_rotr(a, b)),
    }
}

/// A comparison of two integers of 64 bits.
pub open spec fn spec_i64_rel(op: RelOp, a: u64, b: u64) -> bool {
    match op {
        RelOp::Eq => a == b,
        RelOp::Ne => a != b,
        RelOp::LtS => ((a as i64)) < ((b as i64)),
        RelOp::LtU => a < b,
        RelOp::GtS => ((a as i64)) > ((b as i64)),
        RelOp::GtU => a > b,
        RelOp::LeS => ((a as i64)) <= ((b as i64)),
        RelOp::LeU => a <= b,
        RelOp::GeS => ((a as i64)) >= ((b as i64)),
        RelOp::GeU => a >= b,
    }
}

pub fn i64_rel(op: RelOp, a: u64, b: u64) -> (r: bool)
    ensures
        r == spec_i64_rel(op, a, b),
{
    match op {
        RelOp::Eq => a == b,
        RelOp::Ne => a != b,
        RelOp::LtS => (#[verifier::truncate] (a as i64)) < (#[verifier::truncate] (b as i64)),
        RelOp::LtU => a < b,
        RelOp::GtS => (#[verifier::truncate] (a as i64)) > (#[verifier::truncate] (b as i64)),
        RelOp::GtU => a > b,
        RelOp::LeS => (#[verifier::truncate] (a as i64)) <= (#[verifier::truncate] (b as i64)),
        RelOp::LeU => a <= b,
        RelOp::GeS => (#[verifier::truncate] (a as i64)) >= (#[verifier::truncate] (b as i64)),
        RelOp::GeU => a >= b,
    }
}

/// The number of ones among the lowest `n` bits of `a`.
pub open spec fn spec_ones(a: u64, n: nat) -> nat
    decreases n,
{
    if n == 0 {
        0
    } else {
        spec_ones(a, (n - 1) as nat) + ((a >> ((n - 1) as u64)) & 1) as nat
    }
}

fn ones(a: u64, n: u32) -> (r: u32)
    requires
        n <= 64,
    ensures
        r == spec_ones(a, n as nat),
        r <= n,
{
    let mut count: u32 = 0;
    let mut i: u32 = 0;
    while i < n
        invariant
            i <= n <= 64,
            count == spec_ones(a, i as nat),
            count <= i,
        decreases n - i,
    {
        let shift = i as u64;
        let bit = (a >> shift) & 1;
        assert(bit <= 1) by (bit_vector)
            requires
                bit == (a >> shift) & 1,
        ;
        count = count + bit as u32;
        i += 1;
    }
    count
}

/// A unary operation on an integer of 32 bits: the number of leading zeros,
/// of trailing zeros, or of ones.
pub open spec fn spec_i32_unary(op: UnOp, a: u32) -> u32 {
    match op {
        UnOp::Clz => a.leading_zeros(),
        UnOp::Ctz => a.trailing_zeros(),
        UnOp::Popcnt => spec_ones(a as u64, 32) as u32,
    }
}

pub fn i32_unary(op: UnOp, a: u32) -> (r: u32)
    ensures
        r == spec_i32_unary(op, a),
{
    match op {
        UnOp::Clz => a.leading_zeros(),
        UnOp::Ctz => a.trailing_zeros(),
        UnOp::Popcnt => ones(a as u64, 32),
    }
}

/// A unary operation on an integer of 64 bits.
pub open spec fn spec_i64_unary(op: UnOp, a: u64) -> u64 {
    match op {
        UnOp::Clz => vstd::std_specs::bits::u64_leading_zeros(a) as u64,
        UnOp::Ctz => a.trailing_zeros() as u64,
        UnOp::Popcnt => spec_ones(a, 64) as u64,
    }
}

pub fn i64_unary(op: UnOp, a: u64) -> (r: u64)
    ensures
        r == spec_i64_unary(op, a),
{
    match op {
        UnOp::Clz => a.leading_zeros() as u64,
        UnOp::Ctz => a.trailing_zeros() as u64,
        UnOp::Popcnt => ones(a, 64) as u64,
    }
}

/// A conversion of a value of the type that the conversion takes; `None` for a value of another type. Wrapping keeps the low bits; extending repeats the sign bit or adds zeros; reinterpreting keeps the bits.
pub open spec fn spec_convert(op: CvtOp, v: Value) -> Option<Value> {
    match op {
        CvtOp::I32WrapI64 => match v {
            Value::I64(x) => Some(Value::I32((x as u32))),
            _ => None,
        },
        CvtOp::I64ExtendI32S => match v {
            Value::I32(x) => Some(
                Value::I64(((((x as i32)) as i64) as u64)),
            ),
            _ => None,
        },
        CvtOp::I64ExtendI32U => match v {
            Value::I32(x) => Some(Value::I64(x as u64)),
            _ => None,
        },
        CvtOp::I32ReinterpretF32 => match v {
            Value::F32(x) => Some(Value::I32(x)),
            _ => None,
        },
        CvtOp::I64ReinterpretF64 => match v {
            Value::F64(x) => Some(Value::I64(x)),
            _ => None,
        },
        CvtOp::F32ReinterpretI32 => match v {
            Value::I32(x) => Some(Value::F32(x)),
            _ => None,
        },
        CvtOp::F64ReinterpretI64 => match v {
            Value::I64(x) => Some(Value::F64(x)),
            _ => None,
        },
        CvtOp::I32Extend8S => match v {
            Value::I32(x) => Some(
                Value::I32(((((x as i8)) as i32) as u32)),
            ),
            _ => None,
        },
        CvtOp::I32Extend16S => match v {
            Value::I32(x) => Some(
                Value::I32(((((x as i16)) as i32) as u32)),
            ),
            _ => None,
        },
        CvtOp::I64Extend8S => match v {
            Value::I64(x) => Some(
                Value::I64(((((x as i8)) as i64) as u64)),
            ),
            _ => None,
        },
        CvtOp::I64Extend16S => match v {
            Value::I64(x) => Some(
                Value::I64(((((x as i16)) as i64) as u64)),
            ),
            _ => None,
        },
        CvtOp::I64Extend32S => match v {
            Value::I64(x) => Some(
                Value::I64(((((x as i32)) as i64) as u64)),
            ),
            _ => None,
        },
    }
}

pub fn convert(op: CvtOp, v: Value) -> (r: Option<Value>)
    ensures
        r == spec_convert(op, v),
{
    match op {
        CvtOp::I32WrapI64 => match v {
            Value::I64(x) => Some(Value::I32(#[verifier::truncate] (x as u32))),
            _ => None,
        },
        CvtOp::I64ExtendI32S => match v {
            Value::I32(x) => Some(
                Value::I64(#[verifier::truncate] (((#[verifier::truncate] (x as i32)) as i64) as u64)),
            ),
            _ => None,
        },
        CvtOp::I64ExtendI32U => match v {
            Value::I32(x) => Some(Value::I64(x as u64)),
            _ => None,
        },
        CvtOp::I32ReinterpretF32 => match v {
            Value::F32(x) => Some(Value::I32(x)),
            _ => None,
        },
        CvtOp::I64ReinterpretF64 => match v {
            Value::F64(x) => Some(Value::I64(x)),
            _ => None,
        },
        CvtOp::F32ReinterpretI32 => match v {
            Value::I32(x) => Some(Value::F32(x)),
            _ => None,
        },
        CvtOp::F64ReinterpretI64 => match v {
            Value::I64(x) => Some(Value::F64(x)),
            _ => None,
        },
        CvtOp::I32Extend8S => match v {
            Value::I32(x) => Some(
                Value::I32(#[verifier::truncate] (((#[verifier::truncate] (x as i8)) as i32) as u32)),
            ),
            _ => None,
        },
        CvtOp::I32Extend16S => match v {
            Value::I32(x) => Some(
                Value::I32(#[verifier::truncate] (((#[verifier::truncate] (x as i16)) as i32) as u32)),
            ),
            _ => None,
        },
        CvtOp::I64Extend8S => match v {
            Value::I64(x) => Some(
                Value::I64(#[verifier::truncate] (((#[verifier::truncate] (x as i8)) as i64) as u64)),
            ),
            _ => None,
        },
        CvtOp::I64Extend16S => match v {
            Value::I64(x) => Some(
                Value::I64(#[verifier::truncate] (((#[verifier::truncate] (x as i16)) as i64) as u64)),
            ),
            _ => None,
        },
        CvtOp::I64Extend32S => match v {
            Value::I64(x) => Some(
                Value::I64(#[verifier::truncate] (((#[verifier::truncate] (x as i32)) as i64) as u64)),
            ),
            _ => None,
        },
    }
}

/// Whether an integer is zero, as 1 or 0; `None` for a value of another type.
pub open spec fn spec_eqz(t: IntTy, v: Value) -> Option<Value> {
    match (t, v) {
        (IntTy::I32, Value::I32(a)) => Some(Value::I32(if a == 0 { 1 } else { 0 })),
        (IntTy::I64, Value::I64(a)) => Some(Value::I32(if a == 0 { 1 } else { 0 })),
        _ => None,
    }
}

pub fn eqz(t: IntTy, v: Value) -> (r: Option<Value>)
    ensures
        r == spec_eqz(t, v),
{
    match (t, v) {
        (IntTy::I32, Value::I32(a)) => Some(Value::I32(if a == 0 { 1 } else { 0 })),
        (IntTy::I64, Value::I64(a)) => Some(Value::I32(if a == 0 { 1 } else { 0 })),
        _ => None,
    }
}

/// A comparison of `a` with `b`, as 1 or 0; `None` for values of other types.
pub open spec fn spec_rel(t: IntTy, op: RelOp, a: Value, b: Value) -> Option<Value> {
    match (t, a, b) {
        (IntTy::I32, Value::I32(x), Value::I32(y)) => Some(
            Value::I32(if spec_i32_rel(op, x, y) { 1 } else { 0 }),
        ),
        (IntTy::I64, Value::I64(x), Value::I64(y)) => Some(
            Value::I32(if spec_i64_rel(op, x, y) { 1 } else { 0 }),
        ),
        _ => None,
    }
}

pub fn rel(t: IntTy, op: RelOp, a: Value, b: Value) -> (r: Option<Value>)
    ensures
        r == spec_rel(t, op, a, b),
{
    match (t, a, b) {
        (IntTy::I32, Value::I32(x), Value::I32(y)) => Some(
            Value::I32(if i32_rel(op, x, y) { 1 } else { 0 }),
        ),
        (IntTy::I64, Value::I64(x), Value::I64(y)) => Some(
            Value::I32(if i64_rel(op, x, y) { 1 } else { 0 }),
        ),
        _ => None,
    }
}

/// A unary operation on `a`; `None` for a value of another type.
pub open spec fn spec_unary(t: IntTy, op: UnOp, a: Value) -> Option<Value> {
    match (t, a) {
        (IntTy::I32, Value::I32(x)) => Some(Value::I32(spec_i32_unary(op, x))),
        (IntTy::I64, Value::I64(x)) => Some(Value::I64(spec_i64_unary(op, x))),
        _ => None,
    }
}

pub fn unary(t: IntTy, op: UnOp, a: Value) -> (r: Option<Value>)
    ensures
        r == spec_unary(t, op, a),
{
    match (t, a) {
        (IntTy::I32, Value::I32(x)) => Some(Value::I32(i32_unary(op, x))),
        (IntTy::I64, Value::I64(x)) => Some(Value::I64(i64_unary(op, x))),
        _ => None,
    }
}

/// A binary operation on `a` and `b`, or its trap; `None` for values of other types.
pub open spec fn spec_binary(t: IntTy, op: BinOp, a: Value, b: Value) -> Option<Result<Value, Trap>> {
    match (t, a, b) {
        (IntTy::I32, Value::I32(x), Value::I32(y)) => Some(
            match spec_i32_binary(op, x, y) {
                Ok(z) => Ok(Value::I32(z)),
                Err(e) => Err(e),
            },
        ),
        (IntTy::I64, Value::I64(x), Value::I64(y)) => Some(
            match spec_i64_binary(op, x, y) {
                Ok(z) => Ok(Value::I64(z)),
                Err(e) => Err(e),
            },
        ),
        _ => None,
    }
}

pub fn binary(t: IntTy, op: BinOp, a: Value, b: Value) -> (r: Option<Result<Value, Trap>>)
    ensures
        r == spec_binary(t, op, a, b),
{
    match (t, a, b) {
        (IntTy::I32, Value::I32(x), Value::I32(y)) => Some(
            match i32_binary(op, x, y) {
                Ok(z) => Ok(Value::I32(z)),
                Err(e) => Err(e),
            },
        ),
        (IntTy::I64, Value::I64(x), Value::I64(y)) => Some(
            match i64_binary(op, x, y) {
                Ok(z) => Ok(Value::I64(z)),
                Err(e) => Err(e),
            },
        ),
        _ => None,
    }
}

} // verus!
