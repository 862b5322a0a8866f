//! A cursor over the bytes of a module, and spans into them.
//!
//! Every decoder of this crate is a function from a byte slice and a position
//! to a value and the position behind it. Each has a specification function of
//! the same shape over `Seq<u8>`, and the executable function returns exactly
//! what the specification function says. `WasmReader` keeps the slice and the
//! position together for callers that read sequentially.

use vstd::prelude::*;
use vstd::arithmetic::power2::{pow2, lemma2_to64, lemma2_to64_rest, lemma_pow2_adds, lemma_pow2_strictly_increases};
use crate::error::Error;

verus! {

/// What a specification-level decoder returns: the value and the position
/// behind it, or the reason the bytes are rejected.
pub type Decoded<T> = Result<(T, int), Error>;

/// The executable result `r` is the one the specification `s` asks for.
pub open spec fn parsed<T>(r: Result<(T, usize), Error>, s: Decoded<T>) -> bool {
    match s {
        Ok((v, q)) => 0 <= q <= usize::MAX && r == Ok::<(T, usize), Error>((v, q as usize)),
        Err(e) => r == Err::<(T, usize), Error>(e),
    }
}

/// A region of a byte buffer, by offset and length. It owns no bytes.
#[derive(Copy, Clone, Debug, PartialEq, Eq, Structural)]
pub struct Span {
    pub from: usize,
    pub len: usize,
}

impl Span {
    /// The region lies inside a buffer of `buffer_len` bytes.
    pub open spec fn fits(self, buffer_len: int) -> bool {
        self.from + self.len <= buffer_len
    }

    /// The bytes of `buffer` that the span addresses.
    pub open spec fn bytes_of(self, buffer: Seq<u8>) -> Seq<u8> {
        buffer.subrange(self.from as int, self.from + self.len)
    }

    pub fn new(from: usize, len: usize) -> (s: Span)
        ensures
            s == (Span { from, len }),
    {
        Span { from, len }
    }

    pub fn len(&self) -> (n: usize)
        ensures
            n == self.len,
    {
        self.len
    }

    /// The addressed part of `buffer`, borrowed; `None` when the span does not
    /// lie inside it.
    pub fn slice<'a>(&self, buffer: &'a [u8]) -> (s: Option<&'a [u8]>)
        ensures
            s is Some <==> self.fits(buffer@.len() as int),
            s is Some ==> s->0@ == self.bytes_of(buffer@),
    {
        if self.from <= buffer.len() && self.len <= buffer.len() - self.from {
            Some(vstd::slice::slice_subrange(buffer, self.from, self.from + self.len))
        } else {
            None
        }
    }
}

/// One byte at `pos`.
pub open spec fn spec_u8(bytes: Seq<u8>, pos: int) -> Decoded<u8> {
    if 0 <= pos < bytes.len() {
        Ok((bytes[pos], pos + 1))
    } else {
        Err(Error::UnexpectedEof)
    }
}

pub fn parse_u8(bytes: &[u8], pos: usize) -> (r: Result<(u8, usize), Error>)
    ensures
        parsed(r, spec_u8(bytes@, pos as int)),
{
    if pos < bytes.len() {
        Ok((bytes[pos], pos + 1))
    } else {
        Err(Error::UnexpectedEof)
    }
}

/// An unsigned LEB128 integer of at most `bits` bits: a byte below 128 ends
/// the number and must itself fit the bits that are left; a byte from 128 on
/// carries seven low bits and is followed by the rest, seven bits narrower.
pub open spec fn spec_var_unsigned(bytes: Seq<u8>, pos: int, bits: nat) -> Decoded<nat>
    decreases bits,
{
    if !(0 <= pos < bytes.len()) {
        Err(Error::UnexpectedEof)
    } else {
        let x = bytes[pos];
        if x < 128 {
            if x < pow2(bits) {
                Ok((x as nat, pos + 1))
            } else {
                Err(Error::MalformedVarint)
            }
        } else if bits > 7 {
            match spec_var_unsigned(bytes, pos + 1, (bits - 7) as nat) {
                Ok((m, q)) => Ok(((128 * m + (x - 128)) as nat, q)),
                Err(e) => Err(e),
            }
        } else {
            Err(Error::MalformedVarint)
        }
    }
}

/// A signed LEB128 integer of at most `bits` bits, in two's complement: the
/// last byte carries the sign in its bit 6, and its unused bits repeat it.
pub open spec fn spec_var_signed(bytes: Seq<u8>, pos: int, bits: nat) -> Decoded<int>
    decreases bits,
{
    if bits == 0 || !(0 <= pos < bytes.len()) {
        if bits == 0 { Err(Error::MalformedVarint) } else { Err(Error::UnexpectedEof) }
    } else {
        let x = bytes[pos];
        if x < 64 {
            if x < pow2((bits - 1) as nat) {
                Ok((x as int, pos + 1))
            } else {
                Err(Error::MalformedVarint)
            }
        } else if x < 128 {
            if x >= 128 - pow2((bits - 1) as nat) {
                Ok((x - 128, pos + 1))
            } else {
                Err(Error::MalformedVarint)
            }
        } else if bits > 7 {
            match spec_var_signed(bytes, pos + 1, (bits - 7) as nat) {
                Ok((m, q)) => Ok((128 * m + (x - 128), q)),
                Err(e) => Err(e),
            }
        } else {
            Err(Error::MalformedVarint)
        }
    }
}

/// A decoded unsigned integer is below two to the `bits`, and lies behind at
/// least one byte of the input.
pub proof fn lemma_var_unsigned_bounds(bytes: Seq<u8>, pos: int, bits: nat)
    ensures
        spec_var_unsigned(bytes, pos, bits) matches Ok((v, q)) ==> v < pow2(bits) && pos < q
            <= bytes.len(),
    decreases bits,
{
    if 0 <= pos < bytes.len() && bytes[pos] >= 128 && bits > 7 {
        lemma_var_unsigned_bounds(bytes, pos + 1, (bits - 7) as nat);
        lemma_pow2_adds(7, (bits - 7) as nat);
        lemma2_to64();
    }
}

/// A decoded signed integer lies in the two's complement range of `bits`
/// bits, behind at least one byte of the input.
pub proof fn lemma_var_signed_bounds(bytes: Seq<u8>, pos: int, bits: nat)
    ensures
        spec_var_signed(bytes, pos, bits) matches Ok((v, q)) ==> -pow2((bits - 1) as nat) <= v
            < pow2((bits - 1) as nat) && pos < q <= bytes.len(),
    decreases bits,
{
    if bits > 0 && 0 <= pos < bytes.len() {
        if bytes[pos] >= 128 && bits > 7 {
            lemma_var_signed_bounds(bytes, pos + 1, (bits - 7) as nat);
            lemma_pow2_adds(7, (bits - 8) as nat);
            lemma2_to64();
        }
    }
}

/// Two to the `bits`, for the few bits that the last byte of a number holds.
fn small_pow2(bits: u32) -> (r: u8)
    requires
        bits < 7,
    ensures
        r == pow2(bits as nat),
{
    proof {
        lemma2_to64();
    }
    if bits == 0 {
        1
    } else if bits == 1 {
        2
    } else if bits == 2 {
        4
    } else if bits == 3 {
        8
    } else if bits == 4 {
        16
    } else if bits == 5 {
        32
    } else {
        64
    }
}

fn parse_var_unsigned(bytes: &[u8], pos: usize, bits: u32) -> (r: Result<(u64, usize), Error>)
    requires
        bits <= 64,
    ensures
        match spec_var_unsigned(bytes@, pos as int, bits as nat) {
            Ok((v, q)) => r == Ok::<(u64, usize), Error>((v as u64, q as usize)) && v < pow2(
                bits as nat,
            ) && pos < q <= bytes@.len() && q <= usize::MAX,
            Err(e) => r == Err::<(u64, usize), Error>(e),
        },
    decreases bits,
{
    proof {
        lemma_var_unsigned_bounds(bytes@, pos as int, bits as nat);
        lemma2_to64();
    }
    if pos >= bytes.len() {
        return Err(Error::UnexpectedEof);
    }
    let x: u8 = bytes[pos];
    if x < 128 {
        if bits < 7 && x >= small_pow2(bits) {
            Err(Error::MalformedVarint)
        } else {
            proof {
                if bits >= 7 {
                    if bits > 7 {
                        lemma_pow2_strictly_increases(7, bits as nat);
                    }
                }
            }
            Ok((x as u64, pos + 1))
        }
    } else if bits > 7 {
        match parse_var_unsigned(bytes, pos + 1, bits - 7) {
            Ok((m, q)) => {
                proof {
                    lemma_pow2_adds(7, (bits - 7) as nat);
                    if bits < 64 {
                        lemma_pow2_strictly_increases(bits as nat, 64);
                    }
                }
                Ok((128 * m + (x - 128) as u64, q))
            },
            Err(e) => Err(e),
        }
    } else {
        Err(Error::MalformedVarint)
    }
}

fn parse_var_signed(bytes: &[u8], pos: usize, bits: u32) -> (r: Result<(i64, usize), Error>)
    requires
        1 <= bits <= 64,
    ensures
        match spec_var_signed(bytes@, pos as int, bits as nat) {
            Ok((v, q)) => r == Ok::<(i64, usize), Error>((v as i64, q as usize)) && -pow2(
                (bits - 1) as nat,
            ) <= v < pow2((bits - 1) as nat) && pos < q <= bytes@.len() && q <= usize::MAX,
            Err(e) => r == Err::<(i64, usize), Error>(e),
        },
    decreases bits,
{
    proof {
        lemma_var_signed_bounds(bytes@, pos as int, bits as nat);
        lemma2_to64();
        lemma2_to64_rest();
    }
    if pos >= bytes.len() {
        return Err(Error::UnexpectedEof);
    }
    let x: u8 = bytes[pos];
    proof {
        if bits > 7 {
            lemma_pow2_strictly_increases(6, (bits - 1) as nat);
        }
    }
    if x < 64 {
        if bits < 8 && x >= small_pow2(bits - 1) {
            Err(Error::MalformedVarint)
        } else {
            Ok((x as i64, pos + 1))
        }
    } else if x < 128 {
        if bits < 8 && x < 128 - small_pow2(bits - 1) {
            Err(Error::MalformedVarint)
        } else {
            Ok((x as i64 - 128, pos + 1))
        }
    } else if bits > 7 {
        match parse_var_signed(bytes, pos + 1, bits - 7) {
            Ok((m, q)) => {
                proof {
                    lemma_pow2_adds(7, (bits - 8) as nat);
                    if bits < 64 {
                        lemma_pow2_strictly_increases((bits - 1) as nat, 63);
                    }
                }
                Ok((128 * m + (x as i64 - 128), q))
            },
            Err(e) => Err(e),
        }
    } else {
        Err(Error::MalformedVarint)
    }
}

/// An unsigned 32-bit LEB128 integer at `pos`.
pub open spec fn spec_var_u32(bytes: Seq<u8>, pos: int) -> Decoded<u32> {
    match spec_var_unsigned(bytes, pos, 32) {
        Ok((v, q)) => Ok((v as u32, q)),
        Err(e) => Err(e),
    }
}

/// A signed 32-bit LEB128 integer at `pos`.
pub open spec fn spec_var_i32(bytes: Seq<u8>, pos: int) -> Decoded<i32> {
    match spec_var_signed(bytes, pos, 32) {
        Ok((v, q)) => Ok((v as i32, q)),
        Err(e) => Err(e),
    }
}

/// A signed 64-bit LEB128 integer at `pos`.
pub open spec fn spec_var_i64(bytes: Seq<u8>, pos: int) -> Decoded<i64> {
    match spec_var_signed(bytes, pos, 64) {
        Ok((v, q)) => Ok((v as i64, q)),
        Err(e) => Err(e),
    }
}

/// A signed 33-bit LEB128 integer at `pos`, the width of a block type.
pub open spec fn spec_var_i33(bytes: Seq<u8>, pos: int) -> Decoded<i64> {
    match spec_var_signed(bytes, pos, 33) {
        Ok((v, q)) => Ok((v as i64, q)),
        Err(e) => Err(e),
    }
}

pub fn parse_var_u32(bytes: &[u8], pos: usize) -> (r: Result<(u32, usize), Error>)
    ensures
        parsed(r, spec_var_u32(bytes@, pos as int)),
        r matches Ok((_, q)) ==> pos < q <= bytes@.len(),
{
    proof {
        lemma2_to64();
    }
    match parse_var_unsigned(bytes, pos, 32) {
        Ok((v, q)) => Ok((v as u32, q)),
        Err(e) => Err(e),
    }
}

pub fn parse_var_i32(bytes: &[u8], pos: usize) -> (r: Result<(i32, usize), Error>)
    ensures
        parsed(r, spec_var_i32(bytes@, pos as int)),
        r matches Ok((_, q)) ==> pos < q <= bytes@.len(),
{
    proof {
        lemma2_to64();
    }
    match parse_var_signed(bytes, pos, 32) {
        Ok((v, q)) => Ok((v as i32, q)),
        Err(e) => Err(e),
    }
}

pub fn parse_var_i64(bytes: &[u8], pos: usize) -> (r: Result<(i64, usize), Error>)
    ensures
        parsed(r, spec_var_i64(bytes@, pos as int)),
        r matches Ok((_, q)) ==> pos < q <= bytes@.len(),
{
    proof {
        lemma2_to64_rest();
    }
    parse_var_signed(bytes, pos, 64)
}

pub fn parse_var_i33(bytes: &[u8], pos: usize) -> (r: Result<(i64, usize), Error>)
    ensures
        parsed(r, spec_var_i33(bytes@, pos as int)),
        r matches Ok((v, q)) ==> pos < q <= bytes@.len() && -0x1_0000_0000 <= v < 0x1_0000_0000,
{
    proof {
        lemma2_to64();
        lemma2_to64_rest();
    }
    parse_var_signed(bytes, pos, 33)
}

/// The next `len` bytes behind `pos`, as a span.
pub open spec fn spec_span(bytes: Seq<u8>, pos: int, len: int) -> Decoded<Span> {
    if 0 <= pos && 0 <= len && pos + len <= bytes.len() {
        Ok((Span { from: pos as usize, len: len as usize }, pos + len))
    } else {
        Err(Error::UnexpectedEof)
    }
}

pub fn parse_span(bytes: &[u8], pos: usize, len: usize) -> (r: Result<(Span, usize), Error>)
    ensures
        parsed(r, spec_span(bytes@, pos as int, len as int)),
        r matches Ok((s, _)) ==> s.fits(bytes@.len() as int),
{
    if pos <= bytes.len() && len <= bytes.len() - pos {
        Ok((Span { from: pos, len }, pos + len))
    } else {
        Err(Error::UnexpectedEof)
    }
}

/// What a read through a `WasmReader` returns and where it leaves the cursor:
/// on success the value, with the cursor behind it; on failure the error, with
/// the cursor where it was.
pub open spec fn read_as<T>(r: Result<T, Error>, new_pos: int, old_pos: int, s: Decoded<T>) -> bool {
    match s {
        Ok((v, q)) => r == Ok::<T, Error>(v) && new_pos == q,
        Err(e) => r == Err::<T, Error>(e) && new_pos == old_pos,
    }
}

/// A cursor over the bytes of a module. It never stands behind their end.
#[derive(Clone, Copy)]
pub struct WasmReader<'a> {
    full_wasm_binary: &'a [u8],
    pc: usize,
}

impl<'a> WasmReader<'a> {
    #[verifier::type_invariant]
    spec fn in_bounds(self) -> bool {
        self.pc <= self.full_wasm_binary@.len()
    }

    /// The buffer that the reader walks.
    pub closed spec fn bytes(self) -> Seq<u8> {
        self.full_wasm_binary@
    }

    /// The offset of the next byte to read.
    pub closed spec fn pos(self) -> int {
        self.pc as int
    }

    pub fn new(wasm: &'a [u8]) -> (r: Self)
        ensures
            r.bytes() == wasm@,
            r.pos() == 0,
    {
        WasmReader { full_wasm_binary: wasm, pc: 0 }
    }

    /// The number of bytes that are left to read.
    pub fn remaining(&self) -> (n: usize)
        ensures
            n == self.bytes().len() - self.pos(),
    {
        proof {
            use_type_invariant(self);
        }
        self.full_wasm_binary.len() - self.pc
    }

    pub fn read_u8(&mut self) -> (r: Result<u8, Error>)
        ensures
            final(self).bytes() == old(self).bytes(),
            read_as(r, final(self).pos(), old(self).pos(), spec_u8(old(self).bytes(), old(self).pos())),
    {
        match parse_u8(self.full_wasm_binary, self.pc) {
            Ok((v, q)) => {
                self.pc = q;
                Ok(v)
            },
            Err(e) => Err(e),
        }
    }

    pub fn read_var_u32(&mut self) -> (r: Result<u32, Error>)
        ensures
            final(self).bytes() == old(self).bytes(),
            read_as(
                r,
                final(self).pos(),
                old(self).pos(),
                spec_var_u32(old(self).bytes(), old(self).pos()),
            ),
    {
        match parse_var_u32(self.full_wasm_binary, self.pc) {
            Ok((v, q)) => {
                self.pc = q;
                Ok(v)
            },
            Err(e) => Err(e),
        }
    }

    pub fn read_var_i32(&mut self) -> (r: Result<i32, Error>)
        ensures
            final(self).bytes() == old(self).bytes(),
            read_as(
                r,
                final(self).pos(),
                old(self).pos(),
                spec_var_i32(old(self).bytes(), old(self).pos()),
            ),
    {
        match parse_var_i32(self.full_wasm_binary, self.pc) {
            Ok((v, q)) => {
                self.pc = q;
                Ok(v)
            },
            Err(e) => Err(e),
        }
    }

    pub fn read_var_i64(&mut self) -> (r: Result<i64, Error>)
        ensures
            final(self).bytes() == old(self).bytes(),
            read_as(
                r,
                final(self).pos(),
                old(self).pos(),
                spec_var_i64(old(self).bytes(), old(self).pos()),
            ),
    {
        match parse_var_i64(self.full_wasm_binary, self.pc) {
            Ok((v, q)) => {
                self.pc = q;
                Ok(v)
            },
            Err(e) => Err(e),
        }
    }

    /// Captures the next `len` bytes as a span and moves the cursor behind
    /// them. Nothing is copied.
    pub fn make_span(&mut self, len: usize) -> (r: Result<Span, Error>)
        ensures
            final(self).bytes() == old(self).bytes(),
            read_as(
                r,
                final(self).pos(),
                old(self).pos(),
                spec_span(old(self).bytes(), old(self).pos(), len as int),
            ),
            r matches Ok(s) ==> s.fits(old(self).bytes().len() as int),
    {
        match parse_span(self.full_wasm_binary, self.pc, len) {
            Ok((v, q)) => {
                self.pc = q;
                Ok(v)
            },
            Err(e) => Err(e),
        }
    }
}

} // verus!
