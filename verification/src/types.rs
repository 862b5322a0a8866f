//! The types of values, functions, memories, tables and globals.

use vstd::prelude::*;
use crate::error::Error;
use crate::reader::{Decoded, parsed, spec_u8, parse_u8, spec_var_u32, parse_var_u32};

verus! {

/// The type of a value.
#[derive(Copy, Clone, Debug, PartialEq, Eq, Structural)]
pub enum ValType {
    I32,
    I64,
    F32,
    F64,
}

/// A value. Integers are held by their bits, without a sign; floating-point
/// numbers are held by the bits of their IEEE 754 encoding.
#[derive(Copy, Clone, Debug, PartialEq, Eq, Structural)]
pub enum Value {
    I32(u32),
    I64(u64),
    F32(u32),
    F64(u64),
}

impl Value {
    /// The type of the value.
    pub open spec fn spec_ty(self) -> ValType {
        match self {
            Value::I32(_) => ValType::I32,
            Value::I64(_) => ValType::I64,
            Value::F32(_) => ValType::F32,
            Value::F64(_) => ValType::F64,
        }
    }

    /// The value of type `ty` whose bits are all zero.
    pub open spec fn spec_zero(ty: ValType) -> Value {
        match ty {
            ValType::I32 => Value::I32(0),
            ValType::I64 => Value::I64(0),
            ValType::F32 => Value::F32(0),
            ValType::F64 => Value::F64(0),
        }
    }

    pub fn ty(&self) -> (t: ValType)
        ensures
            t == self.spec_ty(),
    {
        match self {
            Value::I32(_) => ValType::I32,
            Value::I64(_) => ValType::I64,
            Value::F32(_) => ValType::F32,
            Value::F64(_) => ValType::F64,
        }
    }

    pub fn zero(ty: ValType) -> (v: Value)
        ensures
            v == Value::spec_zero(ty),
            v.spec_ty() == ty,
    {
        match ty {
            ValType::I32 => Value::I32(0),
            ValType::I64 => Value::I64(0),
            ValType::F32 => Value::F32(0),
            ValType::F64 => Value::F64(0),
        }
    }
}

/// The types of a sequence of values.
pub open spec fn types_of(vals: Seq<Value>) -> Seq<ValType> {
    Seq::new(vals.len(), |i: int| vals[i].spec_ty())
}

/// The signature of a function: the types of its parameters and results.
#[derive(Clone, Debug, PartialEq, Eq)]
pub struct FuncType {
    pub params: Vec<ValType>,
    pub results: Vec<ValType>,
}

pub struct FuncTypeView {
    pub params: Seq<ValType>,
    pub results: Seq<ValType>,
}

impl View for FuncType {
    type V = FuncTypeView;

    open spec fn view(&self) -> FuncTypeView {
        FuncTypeView { params: self.params@, results: self.results@ }
    }
}

/// The views of a list of signatures.
pub open spec fn func_types_view(v: Seq<FuncType>) -> Seq<FuncTypeView> {
    Seq::new(v.len(), |i: int| v[i]@)
}

/// The size range of a memory, in pages, or of a table, in entries.
#[derive(Copy, Clone, Debug, PartialEq, Eq, Structural)]
pub struct Limits {
    pub min: u32,
    pub max: Option<u32>,
}

/// The type of a global: the type of its value, and whether it can change.
#[derive(Copy, Clone, Debug, PartialEq, Eq, Structural)]
pub struct GlobalType {
    pub ty: ValType,
    pub mutable: bool,
}

/// The value type that a byte names.
pub open spec fn spec_val_type_of(b: u8) -> Option<ValType> {
    if b == 0x7f {
        Some(ValType::I32)
    } else if b == 0x7e {
        Some(ValType::I64)
    } else if b == 0x7d {
        Some(ValType::F32)
    } else if b == 0x7c {
        Some(ValType::F64)
    } else {
        None
    }
}

pub fn val_type_of(b: u8) -> (r: Option<ValType>)
    ensures
        r == spec_val_type_of(b),
{
    if b == 0x7f {
        Some(ValType::I32)
    } else if b == 0x7e {
        Some(ValType::I64)
    } else if b == 0x7d {
        Some(ValType::F32)
    } else if b == 0x7c {
        Some(ValType::F64)
    } else {
        None
    }
}

/// One byte that names a value type.
pub open spec fn spec_val_type(bytes: Seq<u8>, pos: int) -> Decoded<ValType> {
    match spec_u8(bytes, pos) {
        Ok((b, q)) => match spec_val_type_of(b) {
            Some(t) => Ok((t, q)),
            None => Err(Error::InvalidValType(b)),
        },
        Err(e) => Err(e),
    }
}

pub fn parse_val_type(bytes: &[u8], pos: usize) -> (r: Result<(ValType, usize), Error>)
    ensures
        parsed(r, spec_val_type(bytes@, pos as int)),
        r matches Ok((_, q)) ==> pos < q <= bytes@.len(),
{
    let (b, q) = parse_u8(bytes, pos)?;
    match val_type_of(b) {
        Some(t) => Ok((t, q)),
        None => Err(Error::InvalidValType(b)),
    }
}

/// `n` value types from `pos` on, behind those in `acc`.
pub open spec fn spec_val_types(bytes: Seq<u8>, pos: int, n: nat, acc: Seq<ValType>) -> Decoded<
    Seq<ValType>,
>
    decreases n,
{
    if n == 0 {
        Ok((acc, pos))
    } else {
        match spec_val_type(bytes, pos) {
            Ok((t, q)) => spec_val_types(bytes, q, (n - 1) as nat, acc.push(t)),
            Err(e) => Err(e),
        }
    }
}

/// A vector of value types: their number, then each.
pub open spec fn spec_val_type_vec(bytes: Seq<u8>, pos: int) -> Decoded<Seq<ValType>> {
    match spec_var_u32(bytes, pos) {
        Ok((n, q)) => spec_val_types(bytes, q, n as nat, Seq::empty()),
        Err(e) => Err(e),
    }
}

pub fn parse_val_type_vec(bytes: &[u8], pos: usize) -> (r: Result<(Vec<ValType>, usize), Error>)
    ensures
        match spec_val_type_vec(bytes@, pos as int) {
            Ok((v, q)) => r matches Ok((rv, rq)) && rv@ == v && rq == q && pos < q <= bytes@.len(),
            Err(e) => r == Err::<(Vec<ValType>, usize), Error>(e),
        },
{
    let (n, start) = parse_var_u32(bytes, pos)?;
    let mut out: Vec<ValType> = Vec::new();
    let mut p: usize = start;
    let mut i: u32 = 0;
    while i < n
        invariant
            i <= n,
            pos < p <= bytes@.len(),
            spec_var_u32(bytes@, pos as int) == Ok::<(u32, int), Error>((n, start as int)),
            spec_val_types(bytes@, start as int, n as nat, Seq::empty()) == spec_val_types(
                bytes@,
                p as int,
                (n - i) as nat,
                out@,
            ),
        decreases n - i,
    {
        let (t, q) = parse_val_type(bytes, p)?;
        out.push(t);
        p = q;
        i += 1;
    }
    Ok((out, p))
}

/// A function signature: the byte 0x60, the parameter types, the result
/// types.
pub open spec fn spec_func_type(bytes: Seq<u8>, pos: int) -> Decoded<FuncTypeView> {
    match spec_u8(bytes, pos) {
        Ok((b, q)) => if b != 0x60 {
            Err(Error::InvalidFuncType(b))
        } else {
            match spec_val_type_vec(bytes, q) {
                Ok((params, q2)) => match spec_val_type_vec(bytes, q2) {
                    Ok((results, q3)) => Ok((FuncTypeView { params, results }, q3)),
                    Err(e) => Err(e),
                },
                Err(e) => Err(e),
            }
        },
        Err(e) => Err(e),
    }
}

pub fn parse_func_type(bytes: &[u8], pos: usize) -> (r: Result<(FuncType, usize), Error>)
    ensures
        match spec_func_type(bytes@, pos as int) {
            Ok((v, q)) => r matches Ok((rv, rq)) && rv@ == v && rq == q && pos < q <= bytes@.len(),
            Err(e) => r == Err::<(FuncType, usize), Error>(e),
        },
{
    let (b, q) = parse_u8(bytes, pos)?;
    if b != 0x60 {
        return Err(Error::InvalidFuncType(b));
    }
    let (params, q2) = parse_val_type_vec(bytes, q)?;
    let (results, q3) = parse_val_type_vec(bytes, q2)?;
    Ok((FuncType { params, results }, q3))
}

/// Limits: a flag byte, the minimum, and with flag 1 the maximum.
pub open spec fn spec_limits(bytes: Seq<u8>, pos: int) -> Decoded<Limits> {
    match spec_u8(bytes, pos) {
        Ok((flag, q)) => if flag > 1 {
            Err(Error::InvalidLimits(flag))
        } else {
            match spec_var_u32(bytes, q) {
                Ok((min, q2)) => if flag == 0 {
                    Ok((Limits { min, max: None }, q2))
                } else {
                    match spec_var_u32(bytes, q2) {
                        Ok((max, q3)) => Ok((Limits { min, max: Some(max) }, q3)),
                        Err(e) => Err(e),
                    }
                },
                Err(e) => Err(e),
            }
        },
        Err(e) => Err(e),
    }
}

pub fn parse_limits(bytes: &[u8], pos: usize) -> (r: Result<(Limits, usize), Error>)
    ensures
        parsed(r, spec_limits(bytes@, pos as int)),
        r matches Ok((_, q)) ==> pos < q <= bytes@.len(),
{
    let (flag, q) = parse_u8(bytes, pos)?;
    if flag > 1 {
        return Err(Error::InvalidLimits(flag));
    }
    let (min, q2) = parse_var_u32(bytes, q)?;
    if flag == 0 {
        Ok((Limits { min, max: None }, q2))
    } else {
        let (max, q3) = parse_var_u32(bytes, q2)?;
        Ok((Limits { min, max: Some(max) }, q3))
    }
}

/// A global's type: its value type, then 0 for constant or 1 for mutable.
pub open spec fn spec_global_type(bytes: Seq<u8>, pos: int) -> Decoded<GlobalType> {
    match spec_val_type(bytes, pos) {
        Ok((ty, q)) => match spec_u8(bytes, q) {
            Ok((m, q2)) => if m > 1 {
                Err(Error::InvalidMutability(m))
            } else {
                Ok((GlobalType { ty, mutable: m == 1 }, q2))
            },
            Err(e) => Err(e),
        },
        Err(e) => Err(e),
    }
}

pub fn parse_global_type(bytes: &[u8], pos: usize) -> (r: Result<(GlobalType, usize), Error>)
    ensures
        parsed(r, spec_global_type(bytes@, pos as int)),
        r matches Ok((_, q)) ==> pos < q <= bytes@.len(),
{
    let (ty, q) = parse_val_type(bytes, pos)?;
    let (m, q2) = parse_u8(bytes, q)?;
    if m > 1 {
        Err(Error::InvalidMutability(m))
    } else {
        Ok((GlobalType { ty, mutable: m == 1 }, q2))
    }
}

/// `n` indices from `pos` on, behind those in `acc`.
pub open spec fn spec_indices(bytes: Seq<u8>, pos: int, n: nat, acc: Seq<u32>) -> Decoded<Seq<u32>>
    decreases n,
{
    if n == 0 {
        Ok((acc, pos))
    } else {
        match spec_var_u32(bytes, pos) {
            Ok((x, q)) => spec_indices(bytes, q, (n - 1) as nat, acc.push(x)),
            Err(e) => Err(e),
        }
    }
}

/// A vector of indices: their number, then each.
pub open spec fn spec_index_vec(bytes: Seq<u8>, pos: int) -> Decoded<Seq<u32>> {
    match spec_var_u32(bytes, pos) {
        Ok((n, q)) => spec_indices(bytes, q, n as nat, Seq::empty()),
        Err(e) => Err(e),
    }
}

pub fn parse_index_vec(bytes: &[u8], pos: usize) -> (r: Result<(Vec<u32>, usize), Error>)
    ensures
        match spec_index_vec(bytes@, pos as int) {
            Ok((v, q)) => r matches Ok((rv, rq)) && rv@ == v && rq == q && pos < q <= bytes@.len(),
            Err(e) => r == Err::<(Vec<u32>, usize), Error>(e),
        },
{
    let (n, start) = parse_var_u32(bytes, pos)?;
    let mut out: Vec<u32> = Vec::new();
    let mut p: usize = start;
    let mut i: u32 = 0;
    while i < n
        invariant
            i <= n,
            pos < p <= bytes@.len(),
            spec_var_u32(bytes@, pos as int) == Ok::<(u32, int), Error>((n, start as int)),
            spec_indices(bytes@, start as int, n as nat, Seq::empty()) == spec_indices(
                bytes@,
                p as int,
                (n - i) as nat,
                out@,
            ),
        decreases n - i,
    {
        let (x, q) = parse_var_u32(bytes, p)?;
        out.push(x);
        p = q;
        i += 1;
    }
    Ok((out, p))
}

} // verus!
