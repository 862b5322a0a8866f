//! The sections of a module, decoded into typed module data.
//!
//! Decoding finds where things are and what shape they have. The bodies of
//! functions are only spanned here; their instructions are decoded when the
//! module is validated.

use vstd::prelude::*;
use crate::error::Error;
use crate::instr::{Expr, ExprView, spec_expr, parse_expr};
use crate::reader::{Decoded, Span, parsed, spec_u8, parse_u8, spec_var_u32, parse_var_u32, spec_span,
    parse_span};
use crate::section_header::{SectionHeader, SectionTy};
use crate::types::{FuncType, FuncTypeView, GlobalType, Limits, func_types_view, spec_func_type,
    parse_func_type, spec_limits, parse_limits, spec_global_type, parse_global_type, spec_index_vec,
    parse_index_vec};

verus! {

/// What an import brings: a function of a signature, a table, a memory or a
/// global.
#[derive(Copy, Clone, Debug, PartialEq, Eq, Structural)]
pub enum ImportDesc {
    Func(u32),
    Table(Limits),
    Memory(Limits),
    Global(GlobalType),
}

/// An import, by the names of the module and of the field it comes from.
/// The names are spans of the module's bytes.
#[derive(Copy, Clone, Debug, PartialEq, Eq, Structural)]
pub struct Import {
    pub module: Span,
    pub name: Span,
    pub desc: ImportDesc,
}

/// What an export hands out, by its index.
#[derive(Copy, Clone, Debug, PartialEq, Eq, Structural)]
pub enum ExportDesc {
    Func(u32),
    Table(u32),
    Memory(u32),
    Global(u32),
}

/// An export. The name is a span of the module's bytes.
#[derive(Copy, Clone, Debug, PartialEq, Eq, Structural)]
pub struct Export {
    pub name: Span,
    pub desc: ExportDesc,
}

/// A global: its type and the constant expression that gives its first value.
#[derive(Clone, Debug, PartialEq, Eq)]
pub struct Global {
    pub ty: GlobalType,
    pub init: Expr,
}

pub struct GlobalView {
    pub ty: GlobalType,
    pub init: ExprView,
}

impl View for Global {
    type V = GlobalView;

    open spec fn view(&self) -> GlobalView {
        GlobalView { ty: self.ty, init: self.init@ }
    }
}

/// When a segment is applied: an active one at instantiation, to the table
/// or memory `index` at the offset that the expression gives; a passive one
/// never by itself.
#[derive(Clone, Debug, PartialEq, Eq)]
pub enum SegmentMode {
    Passive,
    Active { index: u32, offset: Expr },
}

pub enum SegmentModeView {
    Passive,
    Active { index: u32, offset: ExprView },
}

impl View for SegmentMode {
    type V = SegmentModeView;

    open spec fn view(&self) -> SegmentModeView {
        match *self {
            SegmentMode::Passive => SegmentModeView::Passive,
            SegmentMode::Active { index, offset } => SegmentModeView::Active { index, offset: offset@ },
        }
    }
}

/// An element segment: function indices for a table.
#[derive(Clone, Debug, PartialEq, Eq)]
pub struct Element {
    pub mode: SegmentMode,
    pub funcs: Vec<u32>,
}

pub struct ElementView {
    pub mode: SegmentModeView,
    pub funcs: Seq<u32>,
}

impl View for Element {
    type V = ElementView;

    open spec fn view(&self) -> ElementView {
        ElementView { mode: self.mode@, funcs: self.funcs@ }
    }
}

/// A data segment: bytes for a memory, as a span of the module's bytes.
#[derive(Clone, Debug, PartialEq, Eq)]
pub struct Data {
    pub mode: SegmentMode,
    pub init: Span,
}

pub struct DataView {
    pub mode: SegmentModeView,
    pub init: Span,
}

impl View for Data {
    type V = DataView;

    open spec fn view(&self) -> DataView {
        DataView { mode: self.mode@, init: self.init }
    }
}

/// The views of a list of globals.
pub open spec fn globals_view(v: Seq<Global>) -> Seq<GlobalView> {
    Seq::new(v.len(), |i: int| v[i]@)
}

/// The views of a list of element segments.
pub open spec fn elements_view(v: Seq<Element>) -> Seq<ElementView> {
    Seq::new(v.len(), |i: int| v[i]@)
}

/// The views of a list of data segments.
pub open spec fn datas_view(v: Seq<Data>) -> Seq<DataView> {
    Seq::new(v.len(), |i: int| v[i]@)
}

/// A decoded module, before validation.
#[derive(Clone, Debug, PartialEq, Eq)]
pub struct Module {
    pub types: Vec<FuncType>,
    pub imports: Vec<Import>,
    /// The signature index of each function that the module defines.
    pub functions: Vec<u32>,
    pub tables: Vec<Limits>,
    pub memories: Vec<Limits>,
    pub globals: Vec<Global>,
    pub exports: Vec<Export>,
    pub start: Option<u32>,
    pub elements: Vec<Element>,
    pub data_count: Option<u32>,
    /// The span of the body of each function that the module defines.
    pub code: Vec<Span>,
    pub data: Vec<Data>,
}

pub struct ModuleView {
    pub types: Seq<FuncTypeView>,
    pub imports: Seq<Import>,
    pub functions: Seq<u32>,
    pub tables: Seq<Limits>,
    pub memories: Seq<Limits>,
    pub globals: Seq<GlobalView>,
    pub exports: Seq<Export>,
    pub start: Option<u32>,
    pub elements: Seq<ElementView>,
    pub data_count: Option<u32>,
    pub code: Seq<Span>,
    pub data: Seq<DataView>,
}

impl View for Module {
    type V = ModuleView;

    open spec fn view(&self) -> ModuleView {
        ModuleView {
            types: func_types_view(self.types@),
            imports: self.imports@,
            functions: self.functions@,
            tables: self.tables@,
            memories: self.memories@,
            globals: globals_view(self.globals@),
            exports: self.exports@,
            start: self.start,
            elements: elements_view(self.elements@),
            data_count: self.data_count,
            code: self.code@,
            data: datas_view(self.data@),
        }
    }
}

impl ModuleView {
    /// The module without any section.
    pub open spec fn empty() -> ModuleView {
        ModuleView {
            types: Seq::empty(),
            imports: Seq::empty(),
            functions: Seq::empty(),
            tables: Seq::empty(),
            memories: Seq::empty(),
            globals: Seq::empty(),
            exports: Seq::empty(),
            start: None,
            elements: Seq::empty(),
            data_count: None,
            code: Seq::empty(),
            data: Seq::empty(),
        }
    }
}

/// A name: its length, then that many bytes, which are spanned.
pub open spec fn spec_name(bytes: Seq<u8>, pos: int) -> Decoded<Span> {
    match spec_var_u32(bytes, pos) {
        Ok((n, q)) => spec_span(bytes, q, n as int),
        Err(e) => Err(e),
    }
}

pub fn parse_name(bytes: &[u8], pos: usize) -> (r: Result<(Span, usize), Error>)
    ensures
        parsed(r, spec_name(bytes@, pos as int)),
        r matches Ok((s, q)) ==> pos < q <= bytes@.len() && s.fits(bytes@.len() as int),
{
    let (n, q) = parse_var_u32(bytes, pos)?;
    parse_span(bytes, q, n as usize)
}

/// The type of a table: the byte 0x70 for function references, then limits.
pub open spec fn spec_table_type(bytes: Seq<u8>, pos: int) -> Decoded<Limits> {
    match spec_u8(bytes, pos) {
        Ok((b, q)) => if b != 0x70 {
            Err(Error::InvalidElemType(b))
        } else {
            spec_limits(bytes, q)
        },
        Err(e) => Err(e),
    }
}

pub fn parse_table_type(bytes: &[u8], pos: usize) -> (r: Result<(Limits, usize), Error>)
    ensures
        parsed(r, spec_table_type(bytes@, pos as int)),
        r matches Ok((_, q)) ==> pos < q <= bytes@.len(),
{
    let (b, q) = parse_u8(bytes, pos)?;
    if b != 0x70 {
        return Err(Error::InvalidElemType(b));
    }
    parse_limits(bytes, q)
}

/// An import: two names, a kind byte, and the type that the kind asks for.
pub open spec fn spec_import(bytes: Seq<u8>, pos: int) -> Decoded<Import> {
    match spec_name(bytes, pos) {
        Err(e) => Err(e),
        Ok((module, q)) => match spec_name(bytes, q) {
            Err(e) => Err(e),
            Ok((name, q2)) => match spec_u8(bytes, q2) {
                Err(e) => Err(e),
                Ok((kind, q3)) => if kind == 0 {
                    match spec_var_u32(bytes, q3) {
                        Ok((x, q4)) => Ok((Import { module, name, desc: ImportDesc::Func(x) }, q4)),
                        Err(e) => Err(e),
                    }
                } else if kind == 1 {
                    match spec_table_type(bytes, q3) {
                        Ok((x, q4)) => Ok((Import { module, name, desc: ImportDesc::Table(x) }, q4)),
                        Err(e) => Err(e),
                    }
                } else if kind == 2 {
                    match spec_limits(bytes, q3) {
                        Ok((x, q4)) => Ok((Import { module, name, desc: ImportDesc::Memory(x) }, q4)),
                        Err(e) => Err(e),
                    }
                } else if kind == 3 {
                    match spec_global_type(bytes, q3) {
                        Ok((x, q4)) => Ok((Import { module, name, desc: ImportDesc::Global(x) }, q4)),
                        Err(e) => Err(e),
                    }
                } else {
                    Err(Error::InvalidImportKind(kind))
                },
            },
        },
    }
}

pub fn parse_import(bytes: &[u8], pos: usize) -> (r: Result<(Import, usize), Error>)
    ensures
        parsed(r, spec_import(bytes@, pos as int)),
        r matches Ok((_, q)) ==> pos < q <= bytes@.len(),
{
    let (module, q) = parse_name(bytes, pos)?;
    let (name, q2) = parse_name(bytes, q)?;
    let (kind, q3) = parse_u8(bytes, q2)?;
    if kind == 0 {
        let (x, q4) = parse_var_u32(bytes, q3)?;
        Ok((Import { module, name, desc: ImportDesc::Func(x) }, q4))
    } else if kind == 1 {
        let (x, q4) = parse_table_type(bytes, q3)?;
        Ok((Import { module, name, desc: ImportDesc::Table(x) }, q4))
    } else if kind == 2 {
        let (x, q4) = parse_limits(bytes, q3)?;
        Ok((Import { module, name, desc: ImportDesc::Memory(x) }, q4))
    } else if kind == 3 {
        let (x, q4) = parse_global_type(bytes, q3)?;
        Ok((Import { module, name, desc: ImportDesc::Global(x) }, q4))
    } else {
        Err(Error::InvalidImportKind(kind))
    }
}

/// An export: a name, a kind byte, an index.
pub open spec fn spec_export(bytes: Seq<u8>, pos: int) -> Decoded<Export> {
    match spec_name(bytes, pos) {
        Err(e) => Err(e),
        Ok((name, q)) => match spec_u8(bytes, q) {
            Err(e) => Err(e),
            Ok((kind, q2)) => if kind > 3 {
                Err(Error::InvalidExportKind(kind))
            } else {
                match spec_var_u32(bytes, q2) {
                    Err(e) => Err(e),
                    Ok((x, q3)) => Ok(
                        (
                            Export {
                                name,
                                desc: if kind == 0 {
                                    ExportDesc::Func(x)
                                } else if kind == 1 {
                                    ExportDesc::Table(x)
                                } else if kind == 2 {
                                    ExportDesc::Memory(x)
                                } else {
                                    ExportDesc::Global(x)
                                },
                            },
                            q3,
                        ),
                    ),
                }
            },
        },
    }
}

pub fn parse_export(bytes: &[u8], pos: usize) -> (r: Result<(Export, usize), Error>)
    ensures
        parsed(r, spec_export(bytes@, pos as int)),
        r matches Ok((_, q)) ==> pos < q <= bytes@.len(),
{
    let (name, q) = parse_name(bytes, pos)?;
    let (kind, q2) = parse_u8(bytes, q)?;
    if kind > 3 {
        return Err(Error::InvalidExportKind(kind));
    }
    let (x, q3) = parse_var_u32(bytes, q2)?;
    let desc = if kind == 0 {
        ExportDesc::Func(x)
    } else if kind == 1 {
        ExportDesc::Table(x)
    } else if kind == 2 {
        ExportDesc::Memory(x)
    } else {
        ExportDesc::Global(x)
    };
    Ok((Export { name, desc }, q3))
}

/// A global: its type, then its initializer.
pub open spec fn spec_global(bytes: Seq<u8>, pos: int) -> Decoded<GlobalView> {
    match spec_global_type(bytes, pos) {
        Err(e) => Err(e),
        Ok((ty, q)) => match spec_expr(bytes, q) {
            Err(e) => Err(e),
            Ok((init, q2)) => Ok((GlobalView { ty, init }, q2)),
        },
    }
}

pub fn parse_global(bytes: &[u8], pos: usize) -> (r: Result<(Global, usize), Error>)
    ensures
        match spec_global(bytes@, pos as int) {
            Ok((v, q)) => r matches Ok((rv, rq)) && rv@ == v && rq == q && pos < q <= bytes@.len(),
            Err(e) => r == Err::<(Global, usize), Error>(e),
        },
{
    let (ty, q) = parse_global_type(bytes, pos)?;
    let (init, q2) = parse_expr(bytes, q)?;
    Ok((Global { ty, init }, q2))
}

/// The byte that says that an element segment lists function indices.
pub open spec fn spec_elem_kind(bytes: Seq<u8>, pos: int) -> Decoded<()> {
    match spec_u8(bytes, pos) {
        Err(e) => Err(e),
        Ok((b, q)) => if b != 0 {
            Err(Error::InvalidElemType(b))
        } else {
            Ok(((), q))
        },
    }
}

pub fn parse_elem_kind(bytes: &[u8], pos: usize) -> (r: Result<((), usize), Error>)
    ensures
        parsed(r, spec_elem_kind(bytes@, pos as int)),
        r matches Ok((_, q)) ==> pos < q <= bytes@.len(),
{
    let (b, q) = parse_u8(bytes, pos)?;
    if b != 0 {
        Err(Error::InvalidElemType(b))
    } else {
        Ok(((), q))
    }
}

/// An element segment. Flag 0: active in table 0, with an offset and function
/// indices. Flag 1: passive, function indices. Flag 2: active in the table
/// named, likewise. Segments that list expressions are not supported.
pub open spec fn spec_element(bytes: Seq<u8>, pos: int) -> Decoded<ElementView> {
    match spec_var_u32(bytes, pos) {
        Err(e) => Err(e),
        Ok((flag, q)) => if flag == 0 {
            match spec_expr(bytes, q) {
                Err(e) => Err(e),
                Ok((offset, q2)) => match spec_index_vec(bytes, q2) {
                    Err(e) => Err(e),
                    Ok((funcs, q3)) => Ok(
                        (ElementView { mode: SegmentModeView::Active { index: 0, offset }, funcs }, q3),
                    ),
                },
            }
        } else if flag == 1 {
            match spec_elem_kind(bytes, q) {
                Err(e) => Err(e),
                Ok((_, q2)) => match spec_index_vec(bytes, q2) {
                    Err(e) => Err(e),
                    Ok((funcs, q3)) => Ok((ElementView { mode: SegmentModeView::Passive, funcs }, q3)),
                },
            }
        } else if flag == 2 {
            match spec_var_u32(bytes, q) {
                Err(e) => Err(e),
                Ok((index, q1)) => match spec_expr(bytes, q1) {
                    Err(e) => Err(e),
                    Ok((offset, q2)) => match spec_elem_kind(bytes, q2) {
                        Err(e) => Err(e),
                        Ok((_, q3)) => match spec_index_vec(bytes, q3) {
                            Err(e) => Err(e),
                            Ok((funcs, q4)) => Ok(
                                (
                                    ElementView {
                                        mode: SegmentModeView::Active { index, offset },
                                        funcs,
                                    },
                                    q4,
                                ),
                            ),
                        },
                    },
                },
            }
        } else {
            Err(Error::UnsupportedSegment(flag))
        },
    }
}

pub fn parse_element(bytes: &[u8], pos: usize) -> (r: Result<(Element, usize), Error>)
    ensures
        match spec_element(bytes@, pos as int) {
            Ok((v, q)) => r matches Ok((rv, rq)) && rv@ == v && rq == q && pos < q <= bytes@.len(),
            Err(e) => r == Err::<(Element, usize), Error>(e),
        },
{
    let (flag, q) = parse_var_u32(bytes, pos)?;
    if flag == 0 {
        let (offset, q2) = parse_expr(bytes, q)?;
        let (funcs, q3) = parse_index_vec(bytes, q2)?;
        Ok((Element { mode: SegmentMode::Active { index: 0, offset }, funcs }, q3))
    } else if flag == 1 {
        let (_, q2) = parse_elem_kind(bytes, q)?;
        let (funcs, q3) = parse_index_vec(bytes, q2)?;
        Ok((Element { mode: SegmentMode::Passive, funcs }, q3))
    } else if flag == 2 {
        let (index, q1) = parse_var_u32(bytes, q)?;
        let (offset, q2) = parse_expr(bytes, q1)?;
        let (_, q3) = parse_elem_kind(bytes, q2)?;
        let (funcs, q4) = parse_index_vec(bytes, q3)?;
        Ok((Element { mode: SegmentMode::Active { index, offset }, funcs }, q4))
    } else {
        Err(Error::UnsupportedSegment(flag))
    }
}

/// A data segment. Flag 0: active in memory 0, with an offset and bytes.
/// Flag 1: passive, bytes. Flag 2: active in the memory named.
pub open spec fn spec_data(bytes: Seq<u8>, pos: int) -> Decoded<DataView> {
    match spec_var_u32(bytes, pos) {
        Err(e) => Err(e),
        Ok((flag, q)) => if flag == 0 {
            match spec_expr(bytes, q) {
                Err(e) => Err(e),
                Ok((offset, q2)) => match spec_name(bytes, q2) {
                    Err(e) => Err(e),
                    Ok((init, q3)) => Ok(
                        (DataView { mode: SegmentModeView::Active { index: 0, offset }, init }, q3),
                    ),
                },
            }
        } else if flag == 1 {
            match spec_name(bytes, q) {
                Err(e) => Err(e),
                Ok((init, q2)) => Ok((DataView { mode: SegmentModeView::Passive, init }, q2)),
            }
        } else if flag == 2 {
            match spec_var_u32(bytes, q) {
                Err(e) => Err(e),
                Ok((index, q1)) => match spec_expr(bytes, q1) {
                    Err(e) => Err(e),
                    Ok((offset, q2)) => match spec_name(bytes, q2) {
                        Err(e) => Err(e),
                        Ok((init, q3)) => Ok(
                            (DataView { mode: SegmentModeView::Active { index, offset }, init }, q3),
                        ),
                    },
                },
            }
        } else {
            Err(Error::UnsupportedSegment(flag))
        },
    }
}

pub fn parse_data(bytes: &[u8], pos: usize) -> (r: Result<(Data, usize), Error>)
    ensures
        match spec_data(bytes@, pos as int) {
            Ok((v, q)) => r matches Ok((rv, rq)) && rv@ == v && rq == q && pos < q <= bytes@.len()
                && rv.init.fits(bytes@.len() as int),
            Err(e) => r == Err::<(Data, usize), Error>(e),
        },
{
    let (flag, q) = parse_var_u32(bytes, pos)?;
    if flag == 0 {
        let (offset, q2) = parse_expr(bytes, q)?;
        let (init, q3) = parse_name(bytes, q2)?;
        Ok((Data { mode: SegmentMode::Active { index: 0, offset }, init }, q3))
    } else if flag == 1 {
        let (init, q2) = parse_name(bytes, q)?;
        Ok((Data { mode: SegmentMode::Passive, init }, q2))
    } else if flag == 2 {
        let (index, q1) = parse_var_u32(bytes, q)?;
        let (offset, q2) = parse_expr(bytes, q1)?;
        let (init, q3) = parse_name(bytes, q2)?;
        Ok((Data { mode: SegmentMode::Active { index, offset }, init }, q3))
    } else {
        Err(Error::UnsupportedSegment(flag))
    }
}

/// `n` function signatures from `pos` on, behind those in `acc`.
pub open spec fn spec_func_types(bytes: Seq<u8>, pos: int, n: nat, acc: Seq<FuncTypeView>) -> Decoded<Seq<FuncTypeView>>
    decreases n,
{
    if n == 0 {
        Ok((acc, pos))
    } else {
        match spec_func_type(bytes, pos) {
            Ok((x, q)) => spec_func_types(bytes, q, (n - 1) as nat, acc.push(x)),
            Err(e) => Err(e),
        }
    }
}

/// A vector of function signatures: their number, then each.
pub open spec fn spec_func_type_vec(bytes: Seq<u8>, pos: int) -> Decoded<Seq<FuncTypeView>> {
    match spec_var_u32(bytes, pos) {
        Ok((n, q)) => spec_func_types(bytes, q, n as nat, Seq::empty()),
        Err(e) => Err(e),
    }
}

pub fn parse_func_type_vec(bytes: &[u8], pos: usize) -> (r: Result<(Vec<FuncType>, usize), Error>)
    ensures
        match spec_func_type_vec(bytes@, pos as int) {
            Ok((v, q)) => r matches Ok((rv, rq)) && func_types_view(rv@) == v && rq == q && pos < q
                <= bytes@.len(),
            Err(e) => r == Err::<(Vec<FuncType>, usize), Error>(e),
        },
{
    let (n, start) = parse_var_u32(bytes, pos)?;
    let mut out: Vec<FuncType> = Vec::new();
    let mut p: usize = start;
    let mut i: u32 = 0;
    assert(func_types_view(out@) =~= Seq::empty());
    while i < n
        invariant
            i <= n,
            pos < p <= bytes@.len(),
            spec_var_u32(bytes@, pos as int) == Ok::<(u32, int), Error>((n, start as int)),
            spec_func_types(bytes@, start as int, n as nat, Seq::empty()) == spec_func_types(
                bytes@,
                p as int,
                (n - i) as nat,
                func_types_view(out@),
            ),
        decreases n - i,
    {
        let (x, q) = parse_func_type(bytes, p)?;
        let ghost before = func_types_view(out@);
        let ghost item = x@;
        out.push(x);
        assert(func_types_view(out@) =~= before.push(item));
        p = q;
        i += 1;
    }
    Ok((out, p))
}

/// `n` imports from `pos` on, behind those in `acc`.
pub open spec fn spec_imports(bytes: Seq<u8>, pos: int, n: nat, acc: Seq<Import>) -> Decoded<Seq<Import>>
    decreases n,
{
    if n == 0 {
        Ok((acc, pos))
    } else {
        match spec_import(bytes, pos) {
            Ok((x, q)) => spec_imports(bytes, q, (n - 1) as nat, acc.push(x)),
            Err(e) => Err(e),
        }
    }
}

/// A vector of imports: their number, then each.
pub open spec fn spec_import_vec(bytes: Seq<u8>, pos: int) -> Decoded<Seq<Import>> {
    match spec_var_u32(bytes, pos) {
        Ok((n, q)) => spec_imports(bytes, q, n as nat, Seq::empty()),
        Err(e) => Err(e),
    }
}

pub fn parse_import_vec(bytes: &[u8], pos: usize) -> (r: Result<(Vec<Import>, usize), Error>)
    ensures
        match spec_import_vec(bytes@, pos as int) {
            Ok((v, q)) => r matches Ok((rv, rq)) && rv@ == v && rq == q && pos < q
                <= bytes@.len(),
            Err(e) => r == Err::<(Vec<Import>, usize), Error>(e),
        },
{
    let (n, start) = parse_var_u32(bytes, pos)?;
    let mut out: Vec<Import> = Vec::new();
    let mut p: usize = start;
    let mut i: u32 = 0;
    assert(out@ =~= Seq::empty());
    while i < n
        invariant
            i <= n,
            pos < p <= bytes@.len(),
            spec_var_u32(bytes@, pos as int) == Ok::<(u32, int), Error>((n, start as int)),
            spec_imports(bytes@, start as int, n as nat, Seq::empty()) == spec_imports(
                bytes@,
                p as int,
                (n - i) as nat,
                out@,
            ),
        decreases n - i,
    {
        let (x, q) = parse_import(bytes, p)?;
        let ghost before = out@;
        let ghost item = x;
        out.push(x);
        assert(out@ =~= before.push(item));
        p = q;
        i += 1;
    }
    Ok((out, p))
}

/// `n` table types from `pos` on, behind those in `acc`.
pub open spec fn spec_table_types(bytes: Seq<u8>, pos: int, n: nat, acc: Seq<Limits>) -> Decoded<Seq<Limits>>
    decreases n,
{
    if n == 0 {
        Ok((acc, pos))
    } else {
        match spec_table_type(bytes, pos) {
            Ok((x, q)) => spec_table_types(bytes, q, (n - 1) as nat, acc.push(x)),
            Err(e) => Err(e),
        }
    }
}

/// A vector of table types: their number, then each.
pub open spec fn spec_table_type_vec(bytes: Seq<u8>, pos: int) -> Decoded<Seq<Limits>> {
    match spec_var_u32(bytes, pos) {
        Ok((n, q)) => spec_table_types(bytes, q, n as nat, Seq::empty()),
        Err(e) => Err(e),
    }
}

pub fn parse_table_type_vec(bytes: &[u8], pos: usize) -> (r: Result<(Vec<Limits>, usize), Error>)
    ensures
        match spec_table_type_vec(bytes@, pos as int) {
            Ok((v, q)) => r matches Ok((rv, rq)) && rv@ == v && rq == q && pos < q
                <= bytes@.len(),
            Err(e) => r == Err::<(Vec<Limits>, usize), Error>(e),
        },
{
    let (n, start) = parse_var_u32(bytes, pos)?;
    let mut out: Vec<Limits> = Vec::new();
    let mut p: usize = start;
    let mut i: u32 = 0;
    assert(out@ =~= Seq::empty());
    while i < n
        invariant
            i <= n,
            pos < p <= bytes@.len(),
            spec_var_u32(bytes@, pos as int) == Ok::<(u32, int), Error>((n, start as int)),
            spec_table_types(bytes@, start as int, n as nat, Seq::empty()) == spec_table_types(
                bytes@,
                p as int,
                (n - i) as nat,
                out@,
            ),
        decreases n - i,
    {
        let (x, q) = parse_table_type(bytes, p)?;
        let ghost before = out@;
        let ghost item = x;
        out.push(x);
        assert(out@ =~= before.push(item));
        p = q;
        i += 1;
    }
    Ok((out, p))
}

/// `n` memory types from `pos` on, behind those in `acc`.
pub open spec fn spec_limitss(bytes: Seq<u8>, pos: int, n: nat, acc: Seq<Limits>) -> Decoded<Seq<Limits>>
    decreases n,
{
    if n == 0 {
        Ok((acc, pos))
    } else {
        match spec_limits(bytes, pos) {
            Ok((x, q)) => spec_limitss(bytes, q, (n - 1) as nat, acc.push(x)),
            Err(e) => Err(e),
        }
    }
}

/// A vector of memory types: their number, then each.
pub open spec fn spec_limits_vec(bytes: Seq<u8>, pos: int) -> Decoded<Seq<Limits>> {
    match spec_var_u32(bytes, pos) {
        Ok((n, q)) => spec_limitss(bytes, q, n as nat, Seq::empty()),
        Err(e) => Err(e),
    }
}

pub fn parse_limits_vec(bytes: &[u8], pos: usize) -> (r: Result<(Vec<Limits>, usize), Error>)
    ensures
        match spec_limits_vec(bytes@, pos as int) {
            Ok((v, q)) => r matches Ok((rv, rq)) && rv@ == v && rq == q && pos < q
                <= bytes@.len(),
            Err(e) => r == Err::<(Vec<Limits>, usize), Error>(e),
        },
{
    let (n, start) = parse_var_u32(bytes, pos)?;
    let mut out: Vec<Limits> = Vec::new();
    let mut p: usize = start;
    let mut i: u32 = 0;
    assert(out@ =~= Seq::empty());
    while i < n
        invariant
            i <= n,
            pos < p <= bytes@.len(),
            spec_var_u32(bytes@, pos as int) == Ok::<(u32, int), Error>((n, start as int)),
            spec_limitss(bytes@, start as int, n as nat, Seq::empty()) == spec_limitss(
                bytes@,
                p as int,
                (n - i) as nat,
                out@,
            ),
        decreases n - i,
    {
        let (x, q) = parse_limits(bytes, p)?;
        let ghost before = out@;
        let ghost item = x;
        out.push(x);
        assert(out@ =~= before.push(item));
        p = q;
        i += 1;
    }
    Ok((out, p))
}

/// `n` globals from `pos` on, behind those in `acc`.
pub open spec fn spec_globals(bytes: Seq<u8>, pos: int, n: nat, acc: Seq<GlobalView>) -> Decoded<Seq<GlobalView>>
    decreases n,
{
    if n == 0 {
        Ok((acc, pos))
    } else {
        match spec_global(bytes, pos) {
            Ok((x, q)) => spec_globals(bytes, q, (n - 1) as nat, acc.push(x)),
            Err(e) => Err(e),
        }
    }
}

/// A vector of globals: their number, then each.
pub open spec fn spec_global_vec(bytes: Seq<u8>, pos: int) -> Decoded<Seq<GlobalView>> {
    match spec_var_u32(bytes, pos) {
        Ok((n, q)) => spec_globals(bytes, q, n as nat, Seq::empty()),
        Err(e) => Err(e),
    }
}

pub fn parse_global_vec(bytes: &[u8], pos: usize) -> (r: Result<(Vec<Global>, usize), Error>)
    ensures
        match spec_global_vec(bytes@, pos as int) {
            Ok((v, q)) => r matches Ok((rv, rq)) && globals_view(rv@) == v && rq == q && pos < q
                <= bytes@.len(),
            Err(e) => r == Err::<(Vec<Global>, usize), Error>(e),
        },
{
    let (n, start) = parse_var_u32(bytes, pos)?;
    let mut out: Vec<Global> = Vec::new();
    let mut p: usize = start;
    let mut i: u32 = 0;
    assert(globals_view(out@) =~= Seq::empty());
    while i < n
        invariant
            i <= n,
            pos < p <= bytes@.len(),
            spec_var_u32(bytes@, pos as int) == Ok::<(u32, int), Error>((n, start as int)),
            spec_globals(bytes@, start as int, n as nat, Seq::empty()) == spec_globals(
                bytes@,
                p as int,
                (n - i) as nat,
                globals_view(out@),
            ),
        decreases n - i,
    {
        let (x, q) = parse_global(bytes, p)?;
        let ghost before = globals_view(out@);
        let ghost item = x@;
        out.push(x);
        assert(globals_view(out@) =~= before.push(item));
        p = q;
        i += 1;
    }
    Ok((out, p))
}

/// `n` exports from `pos` on, behind those in `acc`.
pub open spec fn spec_exports(bytes: Seq<u8>, pos: int, n: nat, acc: Seq<Export>) -> Decoded<Seq<Export>>
    decreases n,
{
    if n == 0 {
        Ok((acc, pos))
    } else {
        match spec_export(bytes, pos) {
            Ok((x, q)) => spec_exports(bytes, q, (n - 1) as nat, acc.push(x)),
            Err(e) => Err(e),
        }
    }
}

/// A vector of exports: their number, then each.
pub open spec fn spec_export_vec(bytes: Seq<u8>, pos: int) -> Decoded<Seq<Export>> {
    match spec_var_u32(bytes, pos) {
        Ok((n, q)) => spec_exports(bytes, q, n as nat, Seq::empty()),
        Err(e) => Err(e),
    }
}

pub fn parse_export_vec(bytes: &[u8], pos: usize) -> (r: Result<(Vec<Export>, usize), Error>)
    ensures
        match spec_export_vec(bytes@, pos as int) {
            Ok((v, q)) => r matches Ok((rv, rq)) && rv@ == v && rq == q && pos < q
                <= bytes@.len(),
            Err(e) => r == Err::<(Vec<Export>, usize), Error>(e),
        },
{
    let (n, start) = parse_var_u32(bytes, pos)?;
    let mut out: Vec<Export> = Vec::new();
    let mut p: usize = start;
    let mut i: u32 = 0;
    assert(out@ =~= Seq::empty());
    while i < n
        invariant
            i <= n,
            pos < p <= bytes@.len(),
            spec_var_u32(bytes@, pos as int) == Ok::<(u32, int), Error>((n, start as int)),
            spec_exports(bytes@, start as int, n as nat, Seq::empty()) == spec_exports(
                bytes@,
                p as int,
                (n - i) as nat,
                out@,
            ),
        decreases n - i,
    {
        let (x, q) = parse_export(bytes, p)?;
        let ghost before = out@;
        let ghost item = x;
        out.push(x);
        assert(out@ =~= before.push(item));
        p = q;
        i += 1;
    }
    Ok((out, p))
}

/// `n` element segments from `pos` on, behind those in `acc`.
pub open spec fn spec_elements(bytes: Seq<u8>, pos: int, n: nat, acc: Seq<ElementView>) -> Decoded<Seq<ElementView>>
    decreases n,
{
    if n == 0 {
        Ok((acc, pos))
    } else {
        match spec_element(bytes, pos) {
            Ok((x, q)) => spec_elements(bytes, q, (n - 1) as nat, acc.push(x)),
            Err(e) => Err(e),
        }
    }
}

/// A vector of element segments: their number, then each.
pub open spec fn spec_element_vec(bytes: Seq<u8>, pos: int) -> Decoded<Seq<ElementView>> {
    match spec_var_u32(bytes, pos) {
        Ok((n, q)) => spec_elements(bytes, q, n as nat, Seq::empty()),
        Err(e) => Err(e),
    }
}

pub fn parse_element_vec(bytes: &[u8], pos: usize) -> (r: Result<(Vec<Element>, usize), Error>)
    ensures
        match spec_element_vec(bytes@, pos as int) {
            Ok((v, q)) => r matches Ok((rv, rq)) && elements_view(rv@) == v && rq == q && pos < q
                <= bytes@.len(),
            Err(e) => r == Err::<(Vec<Element>, usize), Error>(e),
        },
{
    let (n, start) = parse_var_u32(bytes, pos)?;
    let mut out: Vec<Element> = Vec::new();
    let mut p: usize = start;
    let mut i: u32 = 0;
    assert(elements_view(out@) =~= Seq::empty());
    while i < n
        invariant
            i <= n,
            pos < p <= bytes@.len(),
            spec_var_u32(bytes@, pos as int) == Ok::<(u32, int), Error>((n, start as int)),
            spec_elements(bytes@, start as int, n as nat, Seq::empty()) == spec_elements(
                bytes@,
                p as int,
                (n - i) as nat,
                elements_view(out@),
            ),
        decreases n - i,
    {
        let (x, q) = parse_element(bytes, p)?;
        let ghost before = elements_view(out@);
        let ghost item = x@;
        out.push(x);
        assert(elements_view(out@) =~= before.push(item));
        p = q;
        i += 1;
    }
    Ok((out, p))
}

/// `n` function bodies, each a size and that many bytes, spanned, from `pos` on, behind those in `acc`.
pub open spec fn spec_names(bytes: Seq<u8>, pos: int, n: nat, acc: Seq<Span>) -> Decoded<Seq<Span>>
    decreases n,
{
    if n == 0 {
        Ok((acc, pos))
    } else {
        match spec_name(bytes, pos) {
            Ok((x, q)) => spec_names(bytes, q, (n - 1) as nat, acc.push(x)),
            Err(e) => Err(e),
        }
    }
}

/// A vector of function bodies, each a size and that many bytes, spanned,: their number, then each.
pub open spec fn spec_name_vec(bytes: Seq<u8>, pos: int) -> Decoded<Seq<Span>> {
    match spec_var_u32(bytes, pos) {
        Ok((n, q)) => spec_names(bytes, q, n as nat, Seq::empty()),
        Err(e) => Err(e),
    }
}

pub fn parse_name_vec(bytes: &[u8], pos: usize) -> (r: Result<(Vec<Span>, usize), Error>)
    ensures
        match spec_name_vec(bytes@, pos as int) {
            Ok((v, q)) => r matches Ok((rv, rq)) && rv@ == v && rq == q && pos < q
                <= bytes@.len(),
            Err(e) => r == Err::<(Vec<Span>, usize), Error>(e),
        },
{
    let (n, start) = parse_var_u32(bytes, pos)?;
    let mut out: Vec<Span> = Vec::new();
    let mut p: usize = start;
    let mut i: u32 = 0;
    assert(out@ =~= Seq::empty());
    while i < n
        invariant
            i <= n,
            pos < p <= bytes@.len(),
            spec_var_u32(bytes@, pos as int) == Ok::<(u32, int), Error>((n, start as int)),
            spec_names(bytes@, start as int, n as nat, Seq::empty()) == spec_names(
                bytes@,
                p as int,
                (n - i) as nat,
                out@,
            ),
        decreases n - i,
    {
        let (x, q) = parse_name(bytes, p)?;
        let ghost before = out@;
        let ghost item = x;
        out.push(x);
        assert(out@ =~= before.push(item));
        p = q;
        i += 1;
    }
    Ok((out, p))
}

/// `n` data segments from `pos` on, behind those in `acc`.
pub open spec fn spec_datas(bytes: Seq<u8>, pos: int, n: nat, acc: Seq<DataView>) -> Decoded<Seq<DataView>>
    decreases n,
{
    if n == 0 {
        Ok((acc, pos))
    } else {
        match spec_data(bytes, pos) {
            Ok((x, q)) => spec_datas(bytes, q, (n - 1) as nat, acc.push(x)),
            Err(e) => Err(e),
        }
    }
}

/// A vector of data segments: their number, then each.
pub open spec fn spec_data_vec(bytes: Seq<u8>, pos: int) -> Decoded<Seq<DataView>> {
    match spec_var_u32(bytes, pos) {
        Ok((n, q)) => spec_datas(bytes, q, n as nat, Seq::empty()),
        Err(e) => Err(e),
    }
}

pub fn parse_data_vec(bytes: &[u8], pos: usize) -> (r: Result<(Vec<Data>, usize), Error>)
    ensures
        match spec_data_vec(bytes@, pos as int) {
            Ok((v, q)) => r matches Ok((rv, rq)) && datas_view(rv@) == v && rq == q && pos < q
                <= bytes@.len(),
            Err(e) => r == Err::<(Vec<Data>, usize), Error>(e),
        },
{
    let (n, start) = parse_var_u32(bytes, pos)?;
    let mut out: Vec<Data> = Vec::new();
    let mut p: usize = start;
    let mut i: u32 = 0;
    assert(datas_view(out@) =~= Seq::empty());
    while i < n
        invariant
            i <= n,
            pos < p <= bytes@.len(),
            spec_var_u32(bytes@, pos as int) == Ok::<(u32, int), Error>((n, start as int)),
            spec_datas(bytes@, start as int, n as nat, Seq::empty()) == spec_datas(
                bytes@,
                p as int,
                (n - i) as nat,
                datas_view(out@),
            ),
        decreases n - i,
    {
        let (x, q) = parse_data(bytes, p)?;
        let ghost before = datas_view(out@);
        let ghost item = x@;
        out.push(x);
        assert(datas_view(out@) =~= before.push(item));
        p = q;
        i += 1;
    }
    Ok((out, p))
}

/// The place of a section kind in the order of sections: a module holds its
/// sections other than custom ones by rising place, each at most once. The
/// data count stands between the elements and the code.
pub open spec fn spec_section_rank(ty: SectionTy) -> u8 {
    match ty {
        SectionTy::Custom => 0,
        SectionTy::Type => 1,
        SectionTy::Import => 2,
        SectionTy::Function => 3,
        SectionTy::Table => 4,
        SectionTy::Memory => 5,
        SectionTy::Global => 6,
        SectionTy::Export => 7,
        SectionTy::Start => 8,
        SectionTy::Element => 9,
        SectionTy::DataCount => 10,
        SectionTy::Code => 11,
        SectionTy::Data => 12,
    }
}

pub fn section_rank(ty: SectionTy) -> (r: u8)
    ensures
        r == spec_section_rank(ty),
{
    match ty {
        SectionTy::Custom => 0,
        SectionTy::Type => 1,
        SectionTy::Import => 2,
        SectionTy::Function => 3,
        SectionTy::Table => 4,
        SectionTy::Memory => 5,
        SectionTy::Global => 6,
        SectionTy::Export => 7,
        SectionTy::Start => 8,
        SectionTy::Element => 9,
        SectionTy::DataCount => 10,
        SectionTy::Code => 11,
        SectionTy::Data => 12,
    }
}

/// The module `m` with the contents of the section `h` decoded into it. The
/// contents must fill the section's span exactly.
pub open spec fn spec_apply_section(bytes: Seq<u8>, h: SectionHeader, m: ModuleView) -> Result<
    ModuleView,
    Error,
> {
    let from = h.contents.from as int;
    let end = h.contents.from + h.contents.len;
    match h.ty {
        SectionTy::Custom => Ok(m),
        SectionTy::Type => match spec_func_type_vec(bytes, from) {
            Err(e) => Err(e),
            Ok((v, q)) => if q != end {
                Err(Error::SectionSizeMismatch(1))
            } else {
                Ok(ModuleView {
                    types: v,
                    imports: m.imports,
                    functions: m.functions,
                    tables: m.tables,
                    memories: m.memories,
                    globals: m.globals,
                    exports: m.exports,
                    start: m.start,
                    elements: m.elements,
                    data_count: m.data_count,
                    code: m.code,
                    data: m.data,
                })
            },
        },
        SectionTy::Import => match spec_import_vec(bytes, from) {
            Err(e) => Err(e),
            Ok((v, q)) => if q != end {
                Err(Error::SectionSizeMismatch(2))
            } else {
                Ok(ModuleView {
                    types: m.types,
                    imports: v,
                    functions: m.functions,
                    tables: m.tables,
                    memories: m.memories,
                    globals: m.globals,
                    exports: m.exports,
                    start: m.start,
                    elements: m.elements,
                    data_count: m.data_count,
                    code: m.code,
                    data: m.data,
                })
            },
        },
        SectionTy::Function => match spec_index_vec(bytes, from) {
            Err(e) => Err(e),
            Ok((v, q)) => if q != end {
                Err(Error::SectionSizeMismatch(3))
            } else {
                Ok(ModuleView {
                    types: m.types,
                    imports: m.imports,
                    functions: v,
                    tables: m.tables,
                    memories: m.memories,
                    globals: m.globals,
                    exports: m.exports,
                    start: m.start,
                    elements: m.elements,
                    data_count: m.data_count,
                    code: m.code,
                    data: m.data,
                })
            },
        },
        SectionTy::Table => match spec_table_type_vec(bytes, from) {
            Err(e) => Err(e),
            Ok((v, q)) => if q != end {
                Err(Error::SectionSizeMismatch(4))
            } else {
                Ok(ModuleView {
                    types: m.types,
                    imports: m.imports,
                    functions: m.functions,
                    tables: v,
                    memories: m.memories,
                    globals: m.globals,
                    exports: m.exports,
                    start: m.start,
                    elements: m.elements,
                    data_count: m.data_count,
                    code: m.code,
                    data: m.data,
                })
            },
        },
        SectionTy::Memory => match spec_limits_vec(bytes, from) {
            Err(e) => Err(e),
            Ok((v, q)) => if q != end {
                Err(Error::SectionSizeMismatch(5))
            } else {
                Ok(ModuleView {
                    types: m.types,
                    imports: m.imports,
                    functions: m.functions,
                    tables: m.tables,
                    memories: v,
                    globals: m.globals,
                    exports: m.exports,
                    start: m.start,
                    elements: m.elements,
                    data_count: m.data_count,
                    code: m.code,
                    data: m.data,
                })
            },
        },
        SectionTy::Global => match spec_global_vec(bytes, from) {
            Err(e) => Err(e),
            Ok((v, q)) => if q != end {
                Err(Error::SectionSizeMismatch(6))
            } else {
                Ok(ModuleView {
                    types: m.types,
                    imports: m.imports,
                    functions: m.functions,
                    tables: m.tables,
                    memories: m.memories,
                    globals: v,
                    exports: m.exports,
                    start: m.start,
                    elements: m.elements,
                    data_count: m.data_count,
                    code: m.code,
                    data: m.data,
                })
            },
        },
        SectionTy::Export => match spec_export_vec(bytes, from) {
            Err(e) => Err(e),
            Ok((v, q)) => if q != end {
                Err(Error::SectionSizeMismatch(7))
            } else {
                Ok(ModuleView {
                    types: m.types,
                    imports: m.imports,
                    functions: m.functions,
                    tables: m.tables,
                    memories: m.memories,
                    globals: m.globals,
                    exports: v,
                    start: m.start,
                    elements: m.elements,
                    data_count: m.data_count,
                    code: m.code,
                    data: m.data,
                })
            },
        },
        SectionTy::Start => match spec_var_u32(bytes, from) {
            Err(e) => Err(e),
            Ok((v, q)) => if q != end {
                Err(Error::SectionSizeMismatch(8))
            } else {
                Ok(ModuleView {
                    types: m.types,
                    imports: m.imports,
                    functions: m.functions,
                    tables: m.tables,
                    memories: m.memories,
                    globals: m.globals,
                    exports: m.exports,
                    start: Some(v),
                    elements: m.elements,
                    data_count: m.data_count,
                    code: m.code,
                    data: m.data,
                })
            },
        },
        SectionTy::Element => match spec_element_vec(bytes, from) {
            Err(e) => Err(e),
            Ok((v, q)) => if q != end {
                Err(Error::SectionSizeMismatch(9))
            } else {
                Ok(ModuleView {
                    types: m.types,
                    imports: m.imports,
                    functions: m.functions,
                    tables: m.tables,
                    memories: m.memories,
                    globals: m.globals,
                    exports: m.exports,
                    start: m.start,
                    elements: v,
                    data_count: m.data_count,
                    code: m.code,
                    data: m.data,
                })
            },
        },
        SectionTy::DataCount => match spec_var_u32(bytes, from) {
            Err(e) => Err(e),
            Ok((v, q)) => if q != end {
                Err(Error::SectionSizeMismatch(12))
            } else {
                Ok(ModuleView {
                    types: m.types,
                    imports: m.imports,
                    functions: m.functions,
                    tables: m.tables,
                    memories: m.memories,
                    globals: m.globals,
                    exports: m.exports,
                    start: m.start,
                    elements: m.elements,
                    data_count: Some(v),
                    code: m.code,
                    data: m.data,
                })
            },
        },
        SectionTy::Code => match spec_name_vec(bytes, from) {
            Err(e) => Err(e),
            Ok((v, q)) => if q != end {
                Err(Error::SectionSizeMismatch(10))
            } else {
                Ok(ModuleView {
                    types: m.types,
                    imports: m.imports,
                    functions: m.functions,
                    tables: m.tables,
                    memories: m.memories,
                    globals: m.globals,
                    exports: m.exports,
                    start: m.start,
                    elements: m.elements,
                    data_count: m.data_count,
                    code: v,
                    data: m.data,
                })
            },
        },
        SectionTy::Data => match spec_data_vec(bytes, from) {
            Err(e) => Err(e),
            Ok((v, q)) => if q != end {
                Err(Error::SectionSizeMismatch(11))
            } else {
                Ok(ModuleView {
                    types: m.types,
                    imports: m.imports,
                    functions: m.functions,
                    tables: m.tables,
                    memories: m.memories,
                    globals: m.globals,
                    exports: m.exports,
                    start: m.start,
                    elements: m.elements,
                    data_count: m.data_count,
                    code: m.code,
                    data: v,
                })
            },
        },
    }
}

fn apply_section(bytes: &[u8], h: SectionHeader, m: &mut Module) -> (r: Result<(), Error>)
    requires
        h.contents.fits(bytes@.len() as int),
    ensures
        match spec_apply_section(bytes@, h, old(m)@) {
            Ok(v) => r is Ok && final(m)@ == v,
            Err(e) => r == Err::<(), Error>(e),
        },
{
    let total = bytes.len();
    let from = h.contents.from;
    let end = h.contents.from + h.contents.len;
    match h.ty {
        SectionTy::Custom => {},
        SectionTy::Type => {
            let (v, q) = parse_func_type_vec(bytes, from)?;
            if q != end {
                return Err(Error::SectionSizeMismatch(1));
            }
            m.types = v;
        },
        SectionTy::Import => {
            let (v, q) = parse_import_vec(bytes, from)?;
            if q != end {
                return Err(Error::SectionSizeMismatch(2));
            }
            m.imports = v;
        },
        SectionTy::Function => {
            let (v, q) = parse_index_vec(bytes, from)?;
            if q != end {
                return Err(Error::SectionSizeMismatch(3));
            }
            m.functions = v;
        },
        SectionTy::Table => {
            let (v, q) = parse_table_type_vec(bytes, from)?;
            if q != end {
                return Err(Error::SectionSizeMismatch(4));
            }
            m.tables = v;
        },
        SectionTy::Memory => {
            let (v, q) = parse_limits_vec(bytes, from)?;
            if q != end {
                return Err(Error::SectionSizeMismatch(5));
            }
            m.memories = v;
        },
        SectionTy::Global => {
            let (v, q) = parse_global_vec(bytes, from)?;
            if q != end {
                return Err(Error::SectionSizeMismatch(6));
            }
            m.globals = v;
        },
        SectionTy::Export => {
            let (v, q) = parse_export_vec(bytes, from)?;
            if q != end {
                return Err(Error::SectionSizeMismatch(7));
            }
            m.exports = v;
        },
        SectionTy::Start => {
            let (v, q) = parse_var_u32(bytes, from)?;
            if q != end {
                return Err(Error::SectionSizeMismatch(8));
            }
            m.start = Some(v);
        },
        SectionTy::Element => {
            let (v, q) = parse_element_vec(bytes, from)?;
            if q != end {
                return Err(Error::SectionSizeMismatch(9));
            }
            m.elements = v;
        },
        SectionTy::DataCount => {
            let (v, q) = parse_var_u32(bytes, from)?;
            if q != end {
                return Err(Error::SectionSizeMismatch(12));
            }
            m.data_count = Some(v);
        },
        SectionTy::Code => {
            let (v, q) = parse_name_vec(bytes, from)?;
            if q != end {
                return Err(Error::SectionSizeMismatch(10));
            }
            m.code = v;
        },
        SectionTy::Data => {
            let (v, q) = parse_data_vec(bytes, from)?;
            if q != end {
                return Err(Error::SectionSizeMismatch(11));
            }
            m.data = v;
        },
    }
    Ok(())
}

/// The sections from `pos` to the end of the bytes, decoded into `m` one by
/// one. Custom sections are skipped; the others must come in their order.
/// A header always ends behind its start, so the test of that never fails;
/// it shows that the definition terminates.
pub open spec fn spec_sections(bytes: Seq<u8>, pos: int, last_rank: u8, m: ModuleView) -> Result<
    ModuleView,
    Error,
>
    decreases bytes.len() - pos,
{
    if pos >= bytes.len() {
        Ok(m)
    } else {
        match SectionHeader::spec_read(bytes, pos) {
            Err(e) => Err(e),
            Ok((h, q)) => if q <= pos || q > bytes.len() {
                Err(Error::UnexpectedEof)
            } else if h.ty == SectionTy::Custom {
                spec_sections(bytes, q, last_rank, m)
            } else if spec_section_rank(h.ty) <= last_rank {
                Err(Error::SectionOutOfOrder(h.ty.spec_to_byte()))
            } else {
                match spec_apply_section(bytes, h, m) {
                    Err(e) => Err(e),
                    Ok(m2) => spec_sections(bytes, q, spec_section_rank(h.ty), m2),
                }
            },
        }
    }
}

/// A module: the magic number, the version, and the sections. It must hold as
/// many function bodies as function declarations, and as many data segments
/// as its data count says, if it has one.
pub open spec fn spec_module(bytes: Seq<u8>) -> Result<ModuleView, Error> {
    if bytes.len() < 4 {
        Err(Error::UnexpectedEof)
    } else if !(bytes[0] == 0x00 && bytes[1] == 0x61 && bytes[2] == 0x73 && bytes[3] == 0x6d) {
        Err(Error::InvalidMagic)
    } else if bytes.len() < 8 {
        Err(Error::UnexpectedEof)
    } else if !(bytes[4] == 0x01 && bytes[5] == 0x00 && bytes[6] == 0x00 && bytes[7] == 0x00) {
        Err(Error::InvalidVersion)
    } else {
        spec_check_counts(spec_sections(bytes, 8, 0, ModuleView::empty()))
    }
}

/// The decoded sections, if their counts agree.
pub open spec fn spec_check_counts(r: Result<ModuleView, Error>) -> Result<ModuleView, Error> {
    match r {
        Err(e) => Err(e),
        Ok(m) => if m.functions.len() != m.code.len() {
            Err(Error::FunctionCountMismatch)
        } else if m.data_count is Some && m.data_count->0 != m.data.len() {
            Err(Error::DataCountMismatch)
        } else {
            Ok(m)
        },
    }
}

impl Module {
    /// Every span of the module lies inside a buffer of `n` bytes.
    pub open spec fn spans_fit(self, n: int) -> bool {
        &&& forall|i: int| 0 <= i < self.code@.len() ==> (#[trigger] self.code@[i]).fits(n)
        &&& forall|i: int| 0 <= i < self.data@.len() ==> (#[trigger] self.data@[i]).init.fits(n)
    }

    fn empty() -> (m: Module)
        ensures
            m@ == ModuleView::empty(),
            m.spans_fit(0),
    {
        let m = Module {
            types: Vec::new(),
            imports: Vec::new(),
            functions: Vec::new(),
            tables: Vec::new(),
            memories: Vec::new(),
            globals: Vec::new(),
            exports: Vec::new(),
            start: None,
            elements: Vec::new(),
            data_count: None,
            code: Vec::new(),
            data: Vec::new(),
        };
        assert(m@.types =~= Seq::empty());
        assert(m@.globals =~= Seq::empty());
        assert(m@.elements =~= Seq::empty());
        assert(m@.data =~= Seq::empty());
        m
    }
}

/// Decodes the bytes of a module. Nothing is validated beyond the shape of
/// the encoding and the two counts.
pub fn decode_module(bytes: &[u8]) -> (r: Result<Module, Error>)
    ensures
        match spec_module(bytes@) {
            Ok(v) => r matches Ok(m) && m@ == v,
            Err(e) => r == Err::<Module, Error>(e),
        },
{
    if bytes.len() < 4 {
        return Err(Error::UnexpectedEof);
    }
    if !(bytes[0] == 0x00 && bytes[1] == 0x61 && bytes[2] == 0x73 && bytes[3] == 0x6d) {
        return Err(Error::InvalidMagic);
    }
    if bytes.len() < 8 {
        return Err(Error::UnexpectedEof);
    }
    if !(bytes[4] == 0x01 && bytes[5] == 0x00 && bytes[6] == 0x00 && bytes[7] == 0x00) {
        return Err(Error::InvalidVersion);
    }
    let mut m = Module::empty();
    let mut p: usize = 8;
    let mut last_rank: u8 = 0;
    while p < bytes.len()
        invariant
            8 <= p <= bytes@.len(),
            spec_module(bytes@) == spec_check_counts(
                spec_sections(bytes@, p as int, last_rank, m@),
            ),
        decreases bytes@.len() - p,
    {
        let (h, q) = SectionHeader::parse(bytes, p)?;
        if h.ty == SectionTy::Custom {
            p = q;
        } else {
            let rank = section_rank(h.ty);
            if rank <= last_rank {
                return Err(Error::SectionOutOfOrder(h.ty.to_byte()));
            }
            apply_section(bytes, h, &mut m)?;
            last_rank = rank;
            p = q;
        }
    }
    if m.functions.len() != m.code.len() {
        return Err(Error::FunctionCountMismatch);
    }
    match m.data_count {
        Some(n) => {
            if n as usize != m.data.len() {
                return Err(Error::DataCountMismatch);
            }
        },
        None => {},
    }
    Ok(m)
}

} // verus!
