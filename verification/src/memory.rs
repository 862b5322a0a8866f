//! Linear memory: loads, stores and growth, each checked against the bounds
//! of the memory as it is when the instruction runs.

use vstd::prelude::*;
use crate::instr::{spec_le_value, parse_fixed_u32, parse_fixed_u64};
use crate::numeric::Trap;
use crate::types::{ValType, Value};

verus! {

/// The size of a page of memory, in bytes.
pub const PAGE_SIZE: usize = 65536;

/// The bits of a value, as a number.
pub open spec fn spec_bits(v: Value) -> u64 {
    match v {
        Value::I32(x) => x as u64,
        Value::I64(x) => x,
        Value::F32(x) => x as u64,
        Value::F64(x) => x,
    }
}

pub fn bits(v: Value) -> (r: u64)
    ensures
        r == spec_bits(v),
{
    match v {
        Value::I32(x) => x as u64,
        Value::I64(x) => x,
        Value::F32(x) => x as u64,
        Value::F64(x) => x,
    }
}

/// The value of type `ty` that `width` bytes of memory stand for, read as
/// the number `raw`: the number itself, or with `signed` the number that its
/// bits mean in two's complement.
pub open spec fn spec_widen(ty: ValType, width: u8, signed: bool, raw: u64) -> Value {
    match ty {
        ValType::I32 => Value::I32(
            if signed && width == 1 {
                ((raw as i8) as i32) as u32
            } else if signed && width == 2 {
                ((raw as i16) as i32) as u32
            } else {
                raw as u32
            },
        ),
        ValType::I64 => Value::I64(
            if signed && width == 1 {
                ((raw as i8) as i64) as u64
            } else if signed && width == 2 {
                ((raw as i16) as i64) as u64
            } else if signed && width == 4 {
                ((raw as i32) as i64) as u64
            } else {
                raw
            },
        ),
        ValType::F32 => Value::F32(raw as u32),
        ValType::F64 => Value::F64(raw),
    }
}

pub fn widen(ty: ValType, width: u8, signed: bool, raw: u64) -> (r: Value)
    ensures
        r == spec_widen(ty, width, signed, raw),
{
    match ty {
        ValType::I32 => Value::I32(
            if signed && width == 1 {
                #[verifier::truncate]
                (((#[verifier::truncate]
                (raw as i8)) as i32) as u32)
            } else if signed && width == 2 {
                #[verifier::truncate]
                (((#[verifier::truncate]
                (raw as i16)) as i32) as u32)
            } else {
                #[verifier::truncate]
                (raw as u32)
            },
        ),
        ValType::I64 => Value::I64(
            if signed && width == 1 {
                #[verifier::truncate]
                (((#[verifier::truncate]
                (raw as i8)) as i64) as u64)
            } else if signed && width == 2 {
                #[verifier::truncate]
                (((#[verifier::truncate]
                (raw as i16)) as i64) as u64)
            } else if signed && width == 4 {
                #[verifier::truncate]
                (((#[verifier::truncate]
                (raw as i32)) as i64) as u64)
            } else {
                raw
            },
        ),
        ValType::F32 => Value::F32(#[verifier::truncate]
        (raw as u32)),
        ValType::F64 => Value::F64(raw),
    }
}

/// A width that a memory access can have.
pub open spec fn spec_width_ok(width: u8) -> bool {
    width == 1 || width == 2 || width == 4 || width == 8
}

/// A load of `width` bytes at the address `base + offset`: it traps where
/// the bytes do not all lie in the memory, and else gives the value that
/// they stand for, read little-endian. `None` for a width that no load has.
pub open spec fn spec_load(
    mem: Seq<u8>,
    base: u32,
    offset: u32,
    ty: ValType,
    width: u8,
    signed: bool,
) -> Option<Result<Value, Trap>> {
    if !spec_width_ok(width) {
        None
    } else if base + offset + width > mem.len() {
        Some(Err(Trap::OutOfBoundsMemory))
    } else {
        Some(Ok(spec_widen(ty, width, signed, spec_le_value(mem, base + offset, width as nat) as u64)))
    }
}

pub fn load(mem: &Vec<u8>, base: u32, offset: u32, ty: ValType, width: u8, signed: bool) -> (r:
    Option<Result<Value, Trap>>)
    ensures
        r == spec_load(mem@, base, offset, ty, width, signed),
{
    if !(width == 1 || width == 2 || width == 4 || width == 8) {
        return None;
    }
    let ea: u64 = base as u64 + offset as u64;
    if ea + width as u64 > mem.len() as u64 {
        return Some(Err(Trap::OutOfBoundsMemory));
    }
    let at = ea as usize;
    let raw: u64 = if width == 1 {
        proof {
            reveal_with_fuel(spec_le_value, 2);
        }
        mem[at] as u64
    } else if width == 2 {
        proof {
            reveal_with_fuel(spec_le_value, 3);
        }
        mem[at] as u64 + 0x100 * (mem[at + 1] as u64)
    } else if width == 4 {
        match parse_fixed_u32(mem.as_slice(), at) {
            Ok((v, _)) => v as u64,
            Err(_) => 0,
        }
    } else {
        match parse_fixed_u64(mem.as_slice(), at) {
            Ok((v, _)) => v,
            Err(_) => 0,
        }
    };
    assert(raw == spec_le_value(mem@, ea as int, width as nat)) by {
        reveal_with_fuel(spec_le_value, 9);
    }
    Some(Ok(widen(ty, width, signed, raw)))
}

/// The memory with the `n` low bytes of `raw` written from `at` on, the
/// lowest first.
pub open spec fn spec_write(mem: Seq<u8>, at: int, raw: u64, n: nat) -> Seq<u8>
    decreases n,
{
    if n == 0 {
        mem
    } else {
        spec_write(mem.update(at, (raw % 256) as u8), at + 1, raw / 256, (n - 1) as nat)
    }
}

/// A store of the `width` low bytes of the value `v` at the address `base +
/// offset`: it traps, and leaves the memory as it is, where the bytes do not
/// all lie in the memory. `None` for a width that no store has, and for a
/// value of another type than `ty`.
pub open spec fn spec_store(mem: Seq<u8>, base: u32, offset: u32, ty: ValType, width: u8, v: Value) -> Option<
    Result<Seq<u8>, Trap>,
> {
    if !spec_width_ok(width) || v.spec_ty() != ty {
        None
    } else if base + offset + width > mem.len() {
        Some(Err(Trap::OutOfBoundsMemory))
    } else {
        Some(Ok(spec_write(mem, base + offset, spec_bits(v), width as nat)))
    }
}

/// Writes as `spec_store` says. The result is `None` or the trap where the
/// memory is left as it is.
pub fn store(mem: &mut Vec<u8>, base: u32, offset: u32, ty: ValType, width: u8, v: Value) -> (r:
    Option<Result<(), Trap>>)
    ensures
        match spec_store(old(mem)@, base, offset, ty, width, v) {
            None => r is None && final(mem)@ == old(mem)@,
            Some(Err(t)) => r == Some(Err::<(), Trap>(t)) && final(mem)@ == old(mem)@,
            Some(Ok(m)) => r == Some(Ok::<(), Trap>(())) && final(mem)@ == m,
        },
{
    if !(width == 1 || width == 2 || width == 4 || width == 8) || v.ty() != ty {
        return None;
    }
    let ea: u64 = base as u64 + offset as u64;
    if ea + width as u64 > mem.len() as u64 {
        return Some(Err(Trap::OutOfBoundsMemory));
    }
    let at = ea as usize;
    let mut raw: u64 = bits(v);
    let mut k: u8 = 0;
    while k < width
        invariant
            k <= width <= 8,
            at + width <= mem.len(),
            mem.len() == old(mem).len(),
            spec_write(old(mem)@, at as int, spec_bits(v), width as nat) == spec_write(
                mem@,
                at + k,
                raw,
                (width - k) as nat,
            ),
        decreases width - k,
    {
        mem.set(at + k as usize, (raw % 256) as u8);
        raw = raw / 256;
        k += 1;
    }
    Some(Ok(()))
}

/// `n` bytes of zero.
pub open spec fn spec_zeros(n: nat) -> Seq<u8> {
    Seq::new(n, |i: int| 0u8)
}

/// The number of pages of a memory.
pub open spec fn spec_pages(mem: Seq<u8>) -> nat {
    mem.len() / (PAGE_SIZE as nat)
}

/// The most pages that a memory with the declared maximum `max` can have.
pub open spec fn spec_page_cap(max: Option<u32>) -> nat {
    if max is Some && max->0 < 65536 {
        max->0 as nat
    } else {
        65536
    }
}

/// Growth by `delta` pages of zeros: the grown memory and the number of
/// pages before, or the memory as it is and -1 where the grown memory would
/// exceed its maximum or what the machine can address.
pub open spec fn spec_grow(mem: Seq<u8>, max: Option<u32>, delta: u32) -> (Seq<u8>, u32) {
    if spec_pages(mem) + delta > spec_page_cap(max) || mem.len() + delta * PAGE_SIZE > usize::MAX {
        (mem, 0xffff_ffffu32)
    } else {
        (mem + spec_zeros((delta * PAGE_SIZE) as nat), spec_pages(mem) as u32)
    }
}

/// Extends the memory by `n` bytes of zero.
pub(crate) fn extend_zeros(mem: &mut Vec<u8>, n: usize)
    requires
        old(mem).len() + n <= usize::MAX,
    ensures
        final(mem)@ == old(mem)@ + spec_zeros(n as nat),
{
    let target = mem.len() + n;
    mem.resize(target, 0u8);
    assert(mem@ =~= old(mem)@ + spec_zeros(n as nat)) by {
        assert(mem@.len() == old(mem)@.len() + n);
        assert forall|i: int| 0 <= i < mem@.len() implies mem@[i] == (old(mem)@ + spec_zeros(
            n as nat,
        ))[i] by {
            if i < old(mem)@.len() {
                if n > 0 {
                    assert(mem@.subrange(0, old(mem)@.len() as int)[i] == mem@[i]);
                }
            } else {
                assert(vstd::pervasive::cloned::<u8>(0u8, mem@[i]));
            }
        }
    }
}

pub fn grow(mem: &mut Vec<u8>, max: Option<u32>, delta: u32) -> (r: u32)
    ensures
        (final(mem)@, r) == spec_grow(old(mem)@, max, delta),
{
    let pages: u64 = (mem.len() / PAGE_SIZE) as u64;
    let cap: u64 = match max {
        Some(m) => if m < 65536 {
            m as u64
        } else {
            65536
        },
        None => 65536,
    };
    if pages + delta as u64 > cap {
        return 0xffff_ffff;
    }
    let more: u64 = delta as u64 * 65536;
    if more > usize::MAX as u64 || more as usize > usize::MAX - mem.len() {
        return 0xffff_ffff;
    }
    extend_zeros(mem, more as usize);
    pages as u32
}

} // verus!
