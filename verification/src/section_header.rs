//! The header that starts every section of a module: its kind and its size.

use vstd::prelude::*;
use crate::error::Error;
use crate::reader::{Decoded, Span, WasmReader, parsed, read_as, spec_u8, spec_var_u32, spec_span, parse_u8, parse_var_u32, parse_span};

verus! {

/// The kind of a section, named by the first byte of its header.
#[derive(Copy, Clone, Debug, Hash, PartialEq, Eq, Structural)]
pub enum SectionTy {
    Custom,
    Type,
    Import,
    Function,
    Table,
    Memory,
    Global,
    Export,
    Start,
    Element,
    Code,
    Data,
    DataCount,
}

impl SectionTy {
    /// The section kind that the byte `b` names, if it names one.
    pub open spec fn spec_from_byte(b: u8) -> Option<SectionTy> {
        if b == 0 {
            Some(SectionTy::Custom)
        } else if b == 1 {
            Some(SectionTy::Type)
        } else if b == 2 {
            Some(SectionTy::Import)
        } else if b == 3 {
            Some(SectionTy::Function)
        } else if b == 4 {
            Some(SectionTy::Table)
        } else if b == 5 {
            Some(SectionTy::Memory)
        } else if b == 6 {
            Some(SectionTy::Global)
        } else if b == 7 {
            Some(SectionTy::Export)
        } else if b == 8 {
            Some(SectionTy::Start)
        } else if b == 9 {
            Some(SectionTy::Element)
        } else if b == 10 {
            Some(SectionTy::Code)
        } else if b == 11 {
            Some(SectionTy::Data)
        } else if b == 12 {
            Some(SectionTy::DataCount)
        } else {
            None
        }
    }

    /// The byte that names this section kind.
    pub open spec fn spec_to_byte(self) -> u8 {
        match self {
            SectionTy::Custom => 0,
            SectionTy::Type => 1,
            SectionTy::Import => 2,
            SectionTy::Function => 3,
            SectionTy::Table => 4,
            SectionTy::Memory => 5,
            SectionTy::Global => 6,
            SectionTy::Export => 7,
            SectionTy::Start => 8,
            SectionTy::Element => 9,
            SectionTy::Code => 10,
            SectionTy::Data => 11,
            SectionTy::DataCount => 12,
        }
    }

    /// One byte at `pos` that names a section kind.
    pub open spec fn spec_read(bytes: Seq<u8>, pos: int) -> Decoded<SectionTy> {
        match spec_u8(bytes, pos) {
            Ok((b, q)) => match SectionTy::spec_from_byte(b) {
                Some(ty) => Ok((ty, q)),
                None => Err(Error::InvalidSectionType(b)),
            },
            Err(e) => Err(e),
        }
    }

    pub fn from_byte(b: u8) -> (r: Option<SectionTy>)
        ensures
            r == SectionTy::spec_from_byte(b),
    {
        match b {
            0 => Some(SectionTy::Custom),
            1 => Some(SectionTy::Type),
            2 => Some(SectionTy::Import),
            3 => Some(SectionTy::Function),
            4 => Some(SectionTy::Table),
            5 => Some(SectionTy::Memory),
            6 => Some(SectionTy::Global),
            7 => Some(SectionTy::Export),
            8 => Some(SectionTy::Start),
            9 => Some(SectionTy::Element),
            10 => Some(SectionTy::Code),
            11 => Some(SectionTy::Data),
            12 => Some(SectionTy::DataCount),
            _ => None,
        }
    }

    pub fn to_byte(self) -> (b: u8)
        ensures
            b == self.spec_to_byte(),
            SectionTy::spec_from_byte(b) == Some(self),
    {
        match self {
            SectionTy::Custom => 0,
            SectionTy::Type => 1,
            SectionTy::Import => 2,
            SectionTy::Function => 3,
            SectionTy::Table => 4,
            SectionTy::Memory => 5,
            SectionTy::Global => 6,
            SectionTy::Export => 7,
            SectionTy::Start => 8,
            SectionTy::Element => 9,
            SectionTy::Code => 10,
            SectionTy::Data => 11,
            SectionTy::DataCount => 12,
        }
    }

    pub fn parse(bytes: &[u8], pos: usize) -> (r: Result<(SectionTy, usize), Error>)
        ensures
            parsed(r, SectionTy::spec_read(bytes@, pos as int)),
    {
        let (b, q) = parse_u8(bytes, pos)?;
        match SectionTy::from_byte(b) {
            Some(ty) => Ok((ty, q)),
            None => Err(Error::InvalidSectionType(b)),
        }
    }

    /// Reads the kind of the section that starts at the cursor.
    pub fn read(wasm: &mut WasmReader) -> (r: Result<SectionTy, Error>)
        ensures
            final(wasm).bytes() == old(wasm).bytes(),
            read_as(
                r,
                final(wasm).pos(),
                old(wasm).pos(),
                SectionTy::spec_read(old(wasm).bytes(), old(wasm).pos()),
            ),
    {
        let mut probe = *wasm;
        let b = probe.read_u8()?;
        match SectionTy::from_byte(b) {
            Some(ty) => {
                *wasm = probe;
                Ok(ty)
            },
            None => Err(Error::InvalidSectionType(b)),
        }
    }
}

/// A section's kind and the span of its contents.
#[derive(Copy, Clone, Debug, PartialEq, Eq, Structural)]
pub struct SectionHeader {
    pub ty: SectionTy,
    pub contents: Span,
}

impl SectionHeader {
    /// A section kind, a size, and that many bytes of contents, which are
    /// spanned and not looked at.
    pub open spec fn spec_read(bytes: Seq<u8>, pos: int) -> Decoded<SectionHeader> {
        match SectionTy::spec_read(bytes, pos) {
            Ok((ty, q)) => match spec_var_u32(bytes, q) {
                Ok((size, q2)) => match spec_span(bytes, q2, size as int) {
                    Ok((contents, q3)) => Ok((SectionHeader { ty, contents }, q3)),
                    Err(e) => Err(e),
                },
                Err(e) => Err(e),
            },
            Err(e) => Err(e),
        }
    }

    pub fn parse(bytes: &[u8], pos: usize) -> (r: Result<(SectionHeader, usize), Error>)
        ensures
            parsed(r, SectionHeader::spec_read(bytes@, pos as int)),
            r matches Ok((h, q)) ==> h.contents.fits(bytes@.len() as int) && q == h.contents.from
                + h.contents.len && pos + 2 <= h.contents.from,
    {
        let (ty, q) = SectionTy::parse(bytes, pos)?;
        let (size, q2) = parse_var_u32(bytes, q)?;
        let (contents, q3) = parse_span(bytes, q2, size as usize)?;
        Ok((SectionHeader { ty, contents }, q3))
    }

    /// Reads the header of the section that starts at the cursor and moves
    /// the cursor behind the section's contents.
    pub fn read(wasm: &mut WasmReader) -> (r: Result<SectionHeader, Error>)
        ensures
            final(wasm).bytes() == old(wasm).bytes(),
            read_as(
                r,
                final(wasm).pos(),
                old(wasm).pos(),
                SectionHeader::spec_read(old(wasm).bytes(), old(wasm).pos()),
            ),
            r matches Ok(h) ==> h.contents.fits(old(wasm).bytes().len() as int),
    {
        let mut probe = *wasm;
        let ty = SectionTy::read(&mut probe)?;
        let size: u32 = probe.read_var_u32()?;
        let contents = probe.make_span(size as usize)?;
        *wasm = probe;
        Ok(SectionHeader { ty, contents })
    }
}

} // verus!
