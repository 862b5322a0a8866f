//! Validation: a module is decoded, its parts are checked against each
//! other, and the body of every function is decoded and type-checked. Only a
//! module that passes it all yields a `ValidationInfo`.

use vstd::prelude::*;
use crate::error::Error;
use crate::instr::{BinOp, Code, CodeView, Expr, ExprView, Instr, spec_expr, parse_expr};
use crate::module::{Data, DataView, Element, ElementView, Export, ExportDesc, Global, GlobalView,
    Import, ImportDesc, Module, ModuleView, SegmentMode, SegmentModeView, decode_module, spec_module};
use crate::reader::{Decoded, Span, spec_var_u32, parse_var_u32};
use crate::types::{FuncType, FuncTypeView, GlobalType, Limits, ValType, func_types_view,
    spec_val_type, parse_val_type};
use crate::typing::{Cx, TypeContext, check_body, spec_check_body};

verus! {

/// The most locals that a function may declare.
pub const MAX_LOCALS: usize = 50000;

/// The most pages that a memory may have.
pub const MAX_PAGES: u32 = 65536;

/// The body of a function: the types of its declared locals, and its
/// instructions.
#[derive(Clone, Debug, PartialEq, Eq)]
pub struct FuncBody {
    pub locals: Vec<ValType>,
    pub expr: Expr,
}

pub struct FuncBodyView {
    pub locals: Seq<ValType>,
    pub expr: ExprView,
}

impl View for FuncBody {
    type V = FuncBodyView;

    open spec fn view(&self) -> FuncBodyView {
        FuncBodyView { locals: self.locals@, expr: self.expr@ }
    }
}

/// The views of a list of function bodies.
pub open spec fn bodies_view(v: Seq<FuncBody>) -> Seq<FuncBodyView> {
    Seq::new(v.len(), |i: int| v[i]@)
}

/// `n` groups of locals from `pos` on, behind the locals in `acc`: each group
/// is a count and a type, and declares that many locals of the type.
pub open spec fn spec_local_groups(bytes: Seq<u8>, pos: int, n: nat, acc: Seq<ValType>) -> Decoded<
    Seq<ValType>,
>
    decreases n,
{
    if n == 0 {
        Ok((acc, pos))
    } else {
        match spec_var_u32(bytes, pos) {
            Err(e) => Err(e),
            Ok((count, q)) => match spec_val_type(bytes, q) {
                Err(e) => Err(e),
                Ok((t, q2)) => if acc.len() + count > MAX_LOCALS {
                    Err(Error::TooManyLocals)
                } else {
                    spec_local_groups(
                        bytes,
                        q2,
                        (n - 1) as nat,
                        acc + Seq::new(count as nat, |i: int| t),
                    )
                },
            },
        }
    }
}

/// The body that the span `body` holds: the groups of locals, then the
/// instructions up to their `end`, which must be the last byte of the span.
pub open spec fn spec_func_body(bytes: Seq<u8>, body: Span) -> Result<FuncBodyView, Error> {
    match spec_var_u32(bytes, body.from as int) {
        Err(e) => Err(e),
        Ok((n, q)) => match spec_local_groups(bytes, q, n as nat, Seq::empty()) {
            Err(e) => Err(e),
            Ok((locals, q2)) => match spec_expr(bytes, q2) {
                Err(e) => Err(e),
                Ok((expr, q3)) => if q3 != body.from + body.len {
                    Err(Error::BodySizeMismatch)
                } else {
                    Ok(FuncBodyView { locals, expr })
                },
            },
        }
    }
}

pub fn parse_func_body(bytes: &[u8], body: Span) -> (r: Result<FuncBody, Error>)
    ensures
        match spec_func_body(bytes@, body) {
            Ok(v) => r matches Ok(b) && b@ == v,
            Err(e) => r == Err::<FuncBody, Error>(e),
        },
{
    let (n, start) = parse_var_u32(bytes, body.from)?;
    let mut locals: Vec<ValType> = Vec::new();
    let mut p: usize = start;
    let mut i: u32 = 0;
    while i < n
        invariant
            i <= n,
            locals.len() <= MAX_LOCALS,
            spec_var_u32(bytes@, body.from as int) == Ok::<(u32, int), Error>((n, start as int)),
            spec_local_groups(bytes@, start as int, n as nat, Seq::empty()) == spec_local_groups(
                bytes@,
                p as int,
                (n - i) as nat,
                locals@,
            ),
        decreases n - i,
    {
        let (count, q) = parse_var_u32(bytes, p)?;
        let (t, q2) = parse_val_type(bytes, q)?;
        if count as usize > MAX_LOCALS - locals.len() {
            return Err(Error::TooManyLocals);
        }
        let ghost before = locals@;
        let mut k: u32 = 0;
        while k < count
            invariant
                k <= count,
                before.len() + count <= MAX_LOCALS,
                locals@ == before + Seq::new(k as nat, |i: int| t),
            decreases count - k,
        {
            locals.push(t);
            k += 1;
            assert(locals@ =~= before + Seq::new(k as nat, |i: int| t));
        }
        p = q2;
        i += 1;
    }
    let (expr, q3) = parse_expr(bytes, p)?;
    if body.from > usize::MAX - body.len || q3 != body.from + body.len {
        return Err(Error::BodySizeMismatch);
    }
    Ok(FuncBody { locals, expr })
}

/// The index spaces of a module: what its imports bring, then what it
/// defines.
pub struct EnvView {
    pub funcs: Seq<u32>,
    pub tables: Seq<Limits>,
    pub mems: Seq<Limits>,
    pub globals: Seq<GlobalType>,
    pub imported_funcs: nat,
    pub imported_tables: nat,
    pub imported_mems: nat,
    pub imported_globals: nat,
}

/// The executable form of `EnvView`.
#[derive(Clone, Debug, PartialEq, Eq)]
pub struct Env {
    pub funcs: Vec<u32>,
    pub tables: Vec<Limits>,
    pub mems: Vec<Limits>,
    pub globals: Vec<GlobalType>,
    pub imported_funcs: usize,
    pub imported_tables: usize,
    pub imported_mems: usize,
    pub imported_globals: usize,
}

impl View for Env {
    type V = EnvView;

    open spec fn view(&self) -> EnvView {
        EnvView {
            funcs: self.funcs@,
            tables: self.tables@,
            mems: self.mems@,
            globals: self.globals@,
            imported_funcs: self.imported_funcs as nat,
            imported_tables: self.imported_tables as nat,
            imported_mems: self.imported_mems as nat,
            imported_globals: self.imported_globals as nat,
        }
    }
}

/// The index spaces with one more import.
pub open spec fn spec_env_with_import(e: EnvView, desc: ImportDesc) -> EnvView {
    match desc {
        ImportDesc::Func(x) => EnvView {
            funcs: e.funcs.push(x),
            imported_funcs: e.imported_funcs + 1,
            ..e
        },
        ImportDesc::Table(l) => EnvView {
            tables: e.tables.push(l),
            imported_tables: e.imported_tables + 1,
            ..e
        },
        ImportDesc::Memory(l) => EnvView {
            mems: e.mems.push(l),
            imported_mems: e.imported_mems + 1,
            ..e
        },
        ImportDesc::Global(g) => EnvView {
            globals: e.globals.push(g),
            imported_globals: e.imported_globals + 1,
            ..e
        },
    }
}

/// What the first `n` imports bring.
pub open spec fn spec_import_env(imports: Seq<Import>, n: nat) -> EnvView
    decreases n,
{
    if n == 0 {
        EnvView {
            funcs: Seq::empty(),
            tables: Seq::empty(),
            mems: Seq::empty(),
            globals: Seq::empty(),
            imported_funcs: 0,
            imported_tables: 0,
            imported_mems: 0,
            imported_globals: 0,
        }
    } else {
        spec_env_with_import(spec_import_env(imports, (n - 1) as nat), imports[n - 1].desc)
    }
}

/// The types of a list of globals.
pub open spec fn global_types(gs: Seq<GlobalView>) -> Seq<GlobalType> {
    Seq::new(gs.len(), |i: int| gs[i].ty)
}

/// The index spaces of a module.
pub open spec fn spec_env(m: ModuleView) -> EnvView {
    let e = spec_import_env(m.imports, m.imports.len());
    EnvView {
        funcs: e.funcs + m.functions,
        tables: e.tables + m.tables,
        mems: e.mems + m.memories,
        globals: e.globals + global_types(m.globals),
        ..e
    }
}

fn extend_copy<T: Copy>(dst: &mut Vec<T>, src: &Vec<T>)
    ensures
        final(dst)@ == old(dst)@ + src@,
{
    let mut k: usize = 0;
    assert(dst@ =~= old(dst)@ + src@.take(0));
    while k < src.len()
        invariant
            k <= src.len(),
            dst@ == old(dst)@ + src@.take(k as int),
        decreases src.len() - k,
    {
        dst.push(src[k]);
        k += 1;
        assert(dst@ =~= old(dst)@ + src@.take(k as int));
    }
    assert(src@.take(k as int) =~= src@);
}

pub fn build_env(m: &Module) -> (env: Env)
    ensures
        env@ == spec_env(m@),
        env.imported_funcs <= env.funcs.len(),
        env.imported_globals <= env.globals.len(),
        env.imported_funcs == spec_import_env(m@.imports, m@.imports.len()).funcs.len(),
        env.imported_globals == spec_import_env(m@.imports, m@.imports.len()).globals.len(),
{
    let mut funcs: Vec<u32> = Vec::new();
    let mut tables: Vec<Limits> = Vec::new();
    let mut mems: Vec<Limits> = Vec::new();
    let mut globals: Vec<GlobalType> = Vec::new();
    let mut i: usize = 0;
    while i < m.imports.len()
        invariant
            i <= m.imports.len(),
            funcs@ == spec_import_env(m@.imports, i as nat).funcs,
            tables@ == spec_import_env(m@.imports, i as nat).tables,
            mems@ == spec_import_env(m@.imports, i as nat).mems,
            globals@ == spec_import_env(m@.imports, i as nat).globals,
            funcs.len() == spec_import_env(m@.imports, i as nat).imported_funcs,
            tables.len() == spec_import_env(m@.imports, i as nat).imported_tables,
            mems.len() == spec_import_env(m@.imports, i as nat).imported_mems,
            globals.len() == spec_import_env(m@.imports, i as nat).imported_globals,
        decreases m.imports.len() - i,
    {
        match m.imports[i].desc {
            ImportDesc::Func(x) => {
                funcs.push(x);
            },
            ImportDesc::Table(l) => {
                tables.push(l);
            },
            ImportDesc::Memory(l) => {
                mems.push(l);
            },
            ImportDesc::Global(g) => {
                globals.push(g);
            },
        }
        i += 1;
    }
    let imported_funcs = funcs.len();
    let imported_tables = tables.len();
    let imported_mems = mems.len();
    let imported_globals = globals.len();
    extend_copy(&mut funcs, &m.functions);
    extend_copy(&mut tables, &m.tables);
    extend_copy(&mut mems, &m.memories);
    let ghost imported = globals@;
    let mut k: usize = 0;
    assert(globals@ =~= imported + global_types(m@.globals).take(0));
    while k < m.globals.len()
        invariant
            k <= m.globals.len(),
            globals@ == imported + global_types(m@.globals).take(k as int),
        decreases m.globals.len() - k,
    {
        globals.push(m.globals[k].ty);
        k += 1;
        assert(globals@ =~= imported + global_types(m@.globals).take(k as int));
    }
    assert(global_types(m@.globals).take(k as int) =~= global_types(m@.globals));
    Env { funcs, tables, mems, globals, imported_funcs, imported_tables, imported_mems, imported_globals }
}

/// The context of a constant expression of type `t`: it sees the imported
/// globals only, and no function, table, memory or local.
pub open spec fn const_cx(types: Seq<FuncTypeView>, env: EnvView, code: CodeView, t: ValType) -> Cx {
    Cx {
        types,
        funcs: Seq::empty(),
        tables: Seq::empty(),
        mems: Seq::empty(),
        globals: env.globals.take(env.imported_globals as int),
        locals: Seq::empty(),
        ret: seq![t],
        code,
    }
}

/// The context of the body of a function of signature `ty`.
pub open spec fn func_cx(types: Seq<FuncTypeView>, env: EnvView, ty: FuncTypeView, body: FuncBodyView) -> Cx {
    Cx {
        types,
        funcs: env.funcs,
        tables: env.tables,
        mems: env.mems,
        globals: env.globals,
        locals: ty.params + body.locals,
        ret: ty.results,
        code: body.expr.code,
    }
}

/// An instruction that may stand in a constant expression: a constant, the
/// read of an imported constant global, or an integer sum, difference or
/// product.
pub open spec fn spec_is_const_instr(globals: Seq<GlobalType>, ins: Instr) -> bool {
    match ins {
        Instr::Const(_) => true,
        Instr::GlobalGet(x) => x < globals.len() && !globals[x as int].mutable,
        Instr::Binary(_, op) => op == BinOp::Add || op == BinOp::Sub || op == BinOp::Mul,
        _ => false,
    }
}

/// A constant expression of type `t`: every instruction may stand in one,
/// and together they leave one value of type `t`.
pub open spec fn spec_check_const(types: Seq<FuncTypeView>, env: EnvView, e: ExprView, t: ValType) -> Result<
    (),
    Error,
> {
    let cx = const_cx(types, env, e.code, t);
    if !(forall|i: int| 0 <= i < e.body.len() ==> spec_is_const_instr(cx.globals, #[trigger] e.body[i])) {
        Err(Error::NotConstant)
    } else {
        spec_check_body(cx, e.body, e.code.blocks.len(), Seq::empty().push(seq![t]), Seq::empty(), seq![t])
    }
}

/// The body of a function of signature `ty` is well typed.
pub open spec fn spec_check_func(types: Seq<FuncTypeView>, env: EnvView, ty: FuncTypeView, body: FuncBodyView) -> Result<
    (),
    Error,
> {
    spec_check_body(
        func_cx(types, env, ty, body),
        body.expr.body,
        body.expr.code.blocks.len(),
        Seq::empty().push(ty.results),
        Seq::empty(),
        ty.results,
    )
}

fn is_const_instr(globals: &Vec<GlobalType>, n: usize, ins: Instr) -> (r: bool)
    requires
        n <= globals.len(),
    ensures
        r == spec_is_const_instr(globals@.take(n as int), ins),
{
    match ins {
        Instr::Const(_) => true,
        Instr::GlobalGet(x) => (x as usize) < n && !globals[x as usize].mutable,
        Instr::Binary(_, op) => op == BinOp::Add || op == BinOp::Sub || op == BinOp::Mul,
        _ => false,
    }
}

fn take_globals(globals: &Vec<GlobalType>, n: usize) -> (r: Vec<GlobalType>)
    requires
        n <= globals.len(),
    ensures
        r@ == globals@.take(n as int),
{
    let mut out: Vec<GlobalType> = Vec::new();
    let mut k: usize = 0;
    while k < n
        invariant
            k <= n <= globals.len(),
            out@ == globals@.take(k as int),
        decreases n - k,
    {
        out.push(globals[k]);
        k += 1;
        assert(out@ =~= globals@.take(k as int));
    }
    out
}

fn check_const(types: &Vec<FuncType>, env: &Env, e: &Expr, t: ValType) -> (r: Result<(), Error>)
    requires
        env.imported_globals <= env.globals.len(),
    ensures
        r == spec_check_const(func_types_view(types@), env@, e@, t),
{
    let mut i: usize = 0;
    while i < e.body.len()
        invariant
            i <= e.body.len(),
            env.imported_globals <= env.globals.len(),
            forall|k: int|
                0 <= k < i ==> spec_is_const_instr(
                    env@.globals.take(env@.imported_globals as int),
                    #[trigger] e@.body[k],
                ),
        decreases e.body.len() - i,
    {
        if !is_const_instr(&env.globals, env.imported_globals, e.body[i]) {
            return Err(Error::NotConstant);
        }
        i += 1;
    }
    let globals = take_globals(&env.globals, env.imported_globals);
    let locals: Vec<ValType> = Vec::new();
    let mut ret: Vec<ValType> = Vec::new();
    ret.push(t);
    assert(ret@ =~= seq![t]);
    let funcs: Vec<u32> = Vec::new();
    let tables: Vec<Limits> = Vec::new();
    let mems: Vec<Limits> = Vec::new();
    let cx = TypeContext {
        types,
        funcs: &funcs,
        tables: &tables,
        mems: &mems,
        globals: &globals,
        locals: &locals,
        ret: &ret,
        code: &e.code,
    };
    assert(cx@ == const_cx(func_types_view(types@), env@, e@.code, t));
    let mut labels: Vec<Vec<ValType>> = Vec::new();
    let mut label: Vec<ValType> = Vec::new();
    label.push(t);
    assert(label@ =~= seq![t]);
    let params: Vec<ValType> = Vec::new();
    assert(crate::typing::labels_view(labels@) =~= Seq::empty());
    check_body(&cx, &e.body, e.code.blocks.len(), &mut labels, label, &params, &ret)
}

pub fn check_func(types: &Vec<FuncType>, env: &Env, ty: &FuncType, body: &FuncBody) -> (r: Result<
    (),
    Error,
>)
    ensures
        r == spec_check_func(func_types_view(types@), env@, ty@, body@),
{
    let mut locals = crate::typing::copy_types(&ty.params);
    extend_copy(&mut locals, &body.locals);
    let cx = TypeContext {
        types,
        funcs: &env.funcs,
        tables: &env.tables,
        mems: &env.mems,
        globals: &env.globals,
        locals: &locals,
        ret: &ty.results,
        code: &body.expr.code,
    };
    assert(cx@ == func_cx(func_types_view(types@), env@, ty@, body@));
    let mut labels: Vec<Vec<ValType>> = Vec::new();
    let label = crate::typing::copy_types(&ty.results);
    let params: Vec<ValType> = Vec::new();
    assert(crate::typing::labels_view(labels@) =~= Seq::empty());
    check_body(&cx, &body.expr.body, body.expr.code.blocks.len(), &mut labels, label, &params, &ty.results)
}

/// Limits are in range: the minimum is at most the maximum, and both are at
/// most `cap`.
pub open spec fn spec_limits_ok(l: Limits, cap: u32) -> bool {
    l.min <= cap && (l.max is Some ==> l.min <= l.max->0 && l.max->0 <= cap)
}

fn limits_ok(l: Limits, cap: u32) -> (r: bool)
    ensures
        r == spec_limits_ok(l, cap),
{
    l.min <= cap && match l.max {
        Some(max) => l.min <= max && max <= cap,
        None => true,
    }
}

/// Every function has a signature of the module; the limits of every table
/// and memory are in range; there is at most one memory.
pub open spec fn spec_check_env(types: nat, env: EnvView) -> Result<(), Error> {
    if !(forall|i: int| 0 <= i < env.funcs.len() ==> #[trigger] env.funcs[i] < types) {
        Err(Error::UnknownType)
    } else if !(forall|i: int|
        0 <= i < env.tables.len() ==> spec_limits_ok(#[trigger] env.tables[i], u32::MAX)) {
        Err(Error::LimitsOutOfRange)
    } else if env.mems.len() > 1 {
        Err(Error::MultipleMemories)
    } else if !(forall|i: int|
        0 <= i < env.mems.len() ==> spec_limits_ok(#[trigger] env.mems[i], MAX_PAGES)) {
        Err(Error::LimitsOutOfRange)
    } else {
        Ok(())
    }
}

fn check_env(types: usize, env: &Env) -> (r: Result<(), Error>)
    ensures
        r == spec_check_env(types as nat, env@),
{
    let mut i: usize = 0;
    while i < env.funcs.len()
        invariant
            i <= env.funcs.len(),
            forall|k: int| 0 <= k < i ==> #[trigger] env.funcs@[k] < types,
        decreases env.funcs.len() - i,
    {
        if env.funcs[i] as usize >= types {
            assert(!(env@.funcs[i as int] < types));
            return Err(Error::UnknownType);
        }
        i += 1;
    }
    let mut i: usize = 0;
    while i < env.tables.len()
        invariant
            i <= env.tables.len(),
            forall|k: int| 0 <= k < env.funcs@.len() ==> #[trigger] env.funcs@[k] < types,
            forall|k: int| 0 <= k < i ==> spec_limits_ok(#[trigger] env.tables@[k], u32::MAX),
        decreases env.tables.len() - i,
    {
        if !limits_ok(env.tables[i], u32::MAX) {
            assert(!spec_limits_ok(env@.tables[i as int], u32::MAX));
            return Err(Error::LimitsOutOfRange);
        }
        i += 1;
    }
    if env.mems.len() > 1 {
        return Err(Error::MultipleMemories);
    }
    if env.mems.len() == 1 && !limits_ok(env.mems[0], MAX_PAGES) {
        assert(!spec_limits_ok(env@.mems[0], MAX_PAGES));
        return Err(Error::LimitsOutOfRange);
    }
    Ok(())
}

/// The globals from index `i` on have initializers that are constant
/// expressions of their types.
pub open spec fn spec_check_globals(types: Seq<FuncTypeView>, env: EnvView, gs: Seq<GlobalView>, i: nat) -> Result<
    (),
    Error,
>
    decreases gs.len() - i,
{
    if i >= gs.len() {
        Ok(())
    } else {
        match spec_check_const(types, env, gs[i as int].init, gs[i as int].ty.ty) {
            Err(e) => Err(e),
            Ok(_) => spec_check_globals(types, env, gs, i + 1),
        }
    }
}

/// An export names something that the module has.
pub open spec fn spec_export_ok(env: EnvView, x: Export) -> bool {
    match x.desc {
        ExportDesc::Func(i) => i < env.funcs.len(),
        ExportDesc::Table(i) => i < env.tables.len(),
        ExportDesc::Memory(i) => i < env.mems.len(),
        ExportDesc::Global(i) => i < env.globals.len(),
    }
}

/// Every export names something that the module has; the start function, if
/// there is one, exists and takes and returns nothing.
pub open spec fn spec_check_exports_start(m: ModuleView, env: EnvView) -> Result<(), Error> {
    if !(forall|i: int| 0 <= i < m.exports.len() ==> spec_export_ok(env, #[trigger] m.exports[i])) {
        Err(Error::UnknownExport)
    } else if m.start is Some && m.start->0 >= env.funcs.len() {
        Err(Error::UnknownFunction)
    } else if m.start is Some && !(env.funcs[m.start->0 as int] < m.types.len()
        && m.types[env.funcs[m.start->0 as int] as int].params.len() == 0
        && m.types[env.funcs[m.start->0 as int] as int].results.len() == 0) {
        Err(Error::InvalidStartFunction)
    } else {
        Ok(())
    }
}

/// The offset of an active segment is a constant expression of type i32, and
/// the segment's target, one of `targets` tables or memories, exists.
pub open spec fn spec_check_mode(
    types: Seq<FuncTypeView>,
    env: EnvView,
    mode: SegmentModeView,
    targets: nat,
    missing: Error,
) -> Result<(), Error> {
    match mode {
        SegmentModeView::Passive => Ok(()),
        SegmentModeView::Active { index, offset } => if index >= targets {
            Err(missing)
        } else {
            spec_check_const(types, env, offset, ValType::I32)
        },
    }
}

/// An element segment is well formed: its mode is, and it lists functions
/// of the module.
pub open spec fn spec_check_element(types: Seq<FuncTypeView>, env: EnvView, el: ElementView) -> Result<
    (),
    Error,
> {
    match spec_check_mode(types, env, el.mode, env.tables.len(), Error::UnknownTable) {
        Err(e) => Err(e),
        Ok(_) => if !(forall|i: int| 0 <= i < el.funcs.len() ==> #[trigger] el.funcs[i] < env.funcs.len()) {
            Err(Error::UnknownFunction)
        } else {
            Ok(())
        },
    }
}

/// The element segments from index `i` on are well formed.
pub open spec fn spec_check_elements(types: Seq<FuncTypeView>, env: EnvView, els: Seq<ElementView>, i: nat) -> Result<
    (),
    Error,
>
    decreases els.len() - i,
{
    if i >= els.len() {
        Ok(())
    } else {
        match spec_check_element(types, env, els[i as int]) {
            Err(e) => Err(e),
            Ok(_) => spec_check_elements(types, env, els, i + 1),
        }
    }
}

/// The data segments from index `i` on are well formed.
pub open spec fn spec_check_datas(types: Seq<FuncTypeView>, env: EnvView, ds: Seq<DataView>, i: nat) -> Result<
    (),
    Error,
>
    decreases ds.len() - i,
{
    if i >= ds.len() {
        Ok(())
    } else {
        match spec_check_mode(types, env, ds[i as int].mode, env.mems.len(), Error::UnknownMemory) {
            Err(e) => Err(e),
            Ok(_) => spec_check_datas(types, env, ds, i + 1),
        }
    }
}

/// The bodies of the functions from index `i` on, decoded and checked,
/// behind those in `acc`.
pub open spec fn spec_bodies(bytes: Seq<u8>, m: ModuleView, env: EnvView, i: nat, acc: Seq<FuncBodyView>) -> Result<
    Seq<FuncBodyView>,
    Error,
>
    decreases m.code.len() - i,
{
    if i >= m.code.len() || i >= m.functions.len() {
        Ok(acc)
    } else {
        match spec_func_body(bytes, m.code[i as int]) {
            Err(e) => Err(e),
            Ok(b) => if m.functions[i as int] >= m.types.len() {
                Err(Error::UnknownType)
            } else {
                match spec_check_func(m.types, env, m.types[m.functions[i as int] as int], b) {
                    Err(e) => Err(e),
                    Ok(_) => spec_bodies(bytes, m, env, i + 1, acc.push(b)),
                }
            },
        }
    }
}

/// The checks of a decoded module, in their order; with the decoded bodies
/// of its functions if it passes them all.
pub open spec fn spec_check_module(bytes: Seq<u8>, m: ModuleView) -> Result<Seq<FuncBodyView>, Error> {
    let env = spec_env(m);
    match spec_check_env(m.types.len(), env) {
        Err(e) => Err(e),
        Ok(_) => match spec_check_globals(m.types, env, m.globals, 0) {
            Err(e) => Err(e),
            Ok(_) => match spec_check_exports_start(m, env) {
                Err(e) => Err(e),
                Ok(_) => match spec_check_elements(m.types, env, m.elements, 0) {
                    Err(e) => Err(e),
                    Ok(_) => match spec_check_datas(m.types, env, m.data, 0) {
                        Err(e) => Err(e),
                        Ok(_) => spec_bodies(bytes, m, env, 0, Seq::empty()),
                    },
                },
            },
        },
    }
}

/// A validated module: the bytes, what they decode to, and the bodies of the
/// functions.
pub struct ValidatedView {
    pub wasm: Seq<u8>,
    pub module: ModuleView,
    pub bodies: Seq<FuncBodyView>,
}

/// What validation makes of the bytes of a module: the validated module, or
/// the first error of decoding and of the checks in their order.
pub open spec fn spec_validate(bytes: Seq<u8>) -> Result<ValidatedView, Error> {
    match spec_module(bytes) {
        Err(e) => Err(e),
        Ok(m) => match spec_check_module(bytes, m) {
            Err(e) => Err(e),
            Ok(bodies) => Ok(ValidatedView { wasm: bytes, module: m, bodies }),
        },
    }
}

fn check_globals(types: &Vec<FuncType>, env: &Env, gs: &Vec<Global>) -> (r: Result<(), Error>)
    requires
        env.imported_globals <= env.globals.len(),
    ensures
        r == spec_check_globals(func_types_view(types@), env@, crate::module::globals_view(gs@), 0),
{
    let mut i: usize = 0;
    while i < gs.len()
        invariant
            i <= gs.len(),
            env.imported_globals <= env.globals.len(),
            spec_check_globals(func_types_view(types@), env@, crate::module::globals_view(gs@), 0)
                == spec_check_globals(
                func_types_view(types@),
                env@,
                crate::module::globals_view(gs@),
                i as nat,
            ),
        decreases gs.len() - i,
    {
        check_const(types, env, &gs[i].init, gs[i].ty.ty)?;
        i += 1;
    }
    Ok(())
}

fn export_ok(env: &Env, x: &Export) -> (r: bool)
    ensures
        r == spec_export_ok(env@, *x),
{
    match x.desc {
        ExportDesc::Func(i) => (i as usize) < env.funcs.len(),
        ExportDesc::Table(i) => (i as usize) < env.tables.len(),
        ExportDesc::Memory(i) => (i as usize) < env.mems.len(),
        ExportDesc::Global(i) => (i as usize) < env.globals.len(),
    }
}

fn check_exports_start(m: &Module, env: &Env) -> (r: Result<(), Error>)
    ensures
        r == spec_check_exports_start(m@, env@),
{
    let mut i: usize = 0;
    while i < m.exports.len()
        invariant
            i <= m.exports.len(),
            forall|k: int| 0 <= k < i ==> spec_export_ok(env@, #[trigger] m@.exports[k]),
        decreases m.exports.len() - i,
    {
        if !export_ok(env, &m.exports[i]) {
            assert(!spec_export_ok(env@, m@.exports[i as int]));
            return Err(Error::UnknownExport);
        }
        i += 1;
    }
    match m.start {
        Some(f) => {
            if f as usize >= env.funcs.len() {
                return Err(Error::UnknownFunction);
            }
            let x = env.funcs[f as usize];
            if !((x as usize) < m.types.len() && m.types[x as usize].params.len() == 0
                && m.types[x as usize].results.len() == 0) {
                return Err(Error::InvalidStartFunction);
            }
            Ok(())
        },
        None => Ok(()),
    }
}

fn check_mode(types: &Vec<FuncType>, env: &Env, mode: &SegmentMode, targets: usize, missing: Error) -> (r:
    Result<(), Error>)
    requires
        env.imported_globals <= env.globals.len(),
    ensures
        r == spec_check_mode(func_types_view(types@), env@, mode@, targets as nat, missing),
{
    match mode {
        SegmentMode::Passive => Ok(()),
        SegmentMode::Active { index, offset } => {
            if *index as usize >= targets {
                return Err(missing);
            }
            check_const(types, env, offset, ValType::I32)
        },
    }
}

fn check_element(types: &Vec<FuncType>, env: &Env, el: &Element) -> (r: Result<(), Error>)
    requires
        env.imported_globals <= env.globals.len(),
    ensures
        r == spec_check_element(func_types_view(types@), env@, el@),
{
    check_mode(types, env, &el.mode, env.tables.len(), Error::UnknownTable)?;
    let mut i: usize = 0;
    while i < el.funcs.len()
        invariant
            i <= el.funcs.len(),
            spec_check_mode(
                func_types_view(types@),
                env@,
                el@.mode,
                env@.tables.len(),
                Error::UnknownTable,
            ) is Ok,
            forall|k: int| 0 <= k < i ==> #[trigger] el.funcs@[k] < env.funcs@.len(),
        decreases el.funcs.len() - i,
    {
        if el.funcs[i] as usize >= env.funcs.len() {
            assert(!(el@.funcs[i as int] < env@.funcs.len()));
            return Err(Error::UnknownFunction);
        }
        i += 1;
    }
    Ok(())
}

fn check_elements(types: &Vec<FuncType>, env: &Env, els: &Vec<Element>) -> (r: Result<(), Error>)
    requires
        env.imported_globals <= env.globals.len(),
    ensures
        r == spec_check_elements(func_types_view(types@), env@, crate::module::elements_view(els@), 0),
{
    let mut i: usize = 0;
    while i < els.len()
        invariant
            i <= els.len(),
            env.imported_globals <= env.globals.len(),
            spec_check_elements(func_types_view(types@), env@, crate::module::elements_view(els@), 0)
                == spec_check_elements(
                func_types_view(types@),
                env@,
                crate::module::elements_view(els@),
                i as nat,
            ),
        decreases els.len() - i,
    {
        check_element(types, env, &els[i])?;
        i += 1;
    }
    Ok(())
}

fn check_datas(types: &Vec<FuncType>, env: &Env, ds: &Vec<Data>) -> (r: Result<(), Error>)
    requires
        env.imported_globals <= env.globals.len(),
    ensures
        r == spec_check_datas(func_types_view(types@), env@, crate::module::datas_view(ds@), 0),
{
    let mut i: usize = 0;
    while i < ds.len()
        invariant
            i <= ds.len(),
            env.imported_globals <= env.globals.len(),
            spec_check_datas(func_types_view(types@), env@, crate::module::datas_view(ds@), 0)
                == spec_check_datas(
                func_types_view(types@),
                env@,
                crate::module::datas_view(ds@),
                i as nat,
            ),
        decreases ds.len() - i,
    {
        check_mode(types, env, &ds[i].mode, env.mems.len(), Error::UnknownMemory)?;
        i += 1;
    }
    Ok(())
}

fn check_bodies(bytes: &[u8], m: &Module, env: &Env) -> (r: Result<Vec<FuncBody>, Error>)
    ensures
        match spec_bodies(bytes@, m@, env@, 0, Seq::empty()) {
            Ok(v) => r matches Ok(bs) && bodies_view(bs@) == v,
            Err(e) => r == Err::<Vec<FuncBody>, Error>(e),
        },
{
    let mut out: Vec<FuncBody> = Vec::new();
    let mut i: usize = 0;
    assert(bodies_view(out@) =~= Seq::empty());
    while i < m.code.len() && i < m.functions.len()
        invariant
            i <= m.code.len(),
            i <= m.functions.len(),
            spec_bodies(bytes@, m@, env@, 0, Seq::empty()) == spec_bodies(
                bytes@,
                m@,
                env@,
                i as nat,
                bodies_view(out@),
            ),
        decreases m.code.len() - i,
    {
        let body = parse_func_body(bytes, m.code[i])?;
        let x = m.functions[i];
        if x as usize >= m.types.len() {
            return Err(Error::UnknownType);
        }
        check_func(&m.types, env, &m.types[x as usize], &body)?;
        let ghost before = bodies_view(out@);
        let ghost bv = body@;
        out.push(body);
        assert(bodies_view(out@) =~= before.push(bv));
        i += 1;
    }
    Ok(out)
}

/// The first export from index `i` on whose name is `name`.
pub open spec fn spec_find_export(wasm: Seq<u8>, exports: Seq<Export>, name: Seq<u8>, i: nat) -> Option<
    ExportDesc,
>
    decreases exports.len() - i,
{
    if i >= exports.len() {
        None
    } else if exports[i as int].name.fits(wasm.len() as int) && exports[i as int].name.bytes_of(wasm) == name {
        Some(exports[i as int].desc)
    } else {
        spec_find_export(wasm, exports, name, i + 1)
    }
}

fn same_bytes(a: &[u8], b: &[u8]) -> (r: bool)
    ensures
        r == (a@ == b@),
{
    if a.len() != b.len() {
        return false;
    }
    let mut i: usize = 0;
    while i < a.len()
        invariant
            i <= a.len(),
            a.len() == b.len(),
            forall|k: int| 0 <= k < i ==> a@[k] == b@[k],
        decreases a.len() - i,
    {
        if a[i] != b[i] {
            return false;
        }
        i += 1;
    }
    assert(a@ =~= b@);
    true
}

/// A module that passed validation, with the bodies of its functions
/// decoded. It can only be made by `validate`, so it stands for the fact
/// that the module is valid.
pub struct ValidationInfo<'a> {
    wasm: &'a [u8],
    module: Module,
    env: Env,
    bodies: Vec<FuncBody>,
}

impl<'a> ValidationInfo<'a> {
    #[verifier::type_invariant]
    spec fn certified(self) -> bool {
        self.valid()
    }

    /// The bytes, the decoded module and the decoded bodies.
    pub closed spec fn view(self) -> ValidatedView {
        ValidatedView { wasm: self.wasm@, module: self.module@, bodies: bodies_view(self.bodies@) }
    }

    /// The info is what validation makes of its bytes.
    pub closed spec fn valid(self) -> bool {
        &&& spec_validate(self.wasm@) == Ok::<ValidatedView, Error>(self.view())
        &&& self.env@ == spec_env(self.module@)
    }

    /// A valid info is what validation makes of its bytes.
    pub proof fn lemma_certified(self)
        requires
            self.valid(),
        ensures
            spec_validate(self.view().wasm) == Ok::<ValidatedView, Error>(self.view()),
    {
    }

    pub fn wasm(&self) -> (r: &'a [u8])
        ensures
            r@ == self.view().wasm,
    {
        self.wasm
    }

    pub fn module(&self) -> (r: &Module)
        ensures
            r@ == self.view().module,
            self.valid(),
    {
        proof {
            use_type_invariant(self);
        }
        &self.module
    }

    pub fn env(&self) -> (r: &Env)
        ensures
            r@ == spec_env(self.view().module),
    {
        proof {
            use_type_invariant(self);
        }
        &self.env
    }

    /// What the module exports under `name`, if anything; the first export
    /// of that name counts.
    pub fn find_export(&self, name: &[u8]) -> (r: Option<ExportDesc>)
        ensures
            r == spec_find_export(self.view().wasm, self.view().module.exports, name@, 0),
    {
        let mut i: usize = 0;
        while i < self.module.exports.len()
            invariant
                i <= self.module.exports.len(),
                spec_find_export(self.view().wasm, self.view().module.exports, name@, 0) == spec_find_export(
                    self.view().wasm,
                    self.view().module.exports,
                    name@,
                    i as nat,
                ),
            decreases self.module.exports.len() - i,
        {
            match self.module.exports[i].name.slice(self.wasm) {
                Some(bytes) => {
                    if same_bytes(bytes, name) {
                        return Some(self.module.exports[i].desc);
                    }
                },
                None => {},
            }
            i += 1;
        }
        None
    }

    pub fn bodies(&self) -> (r: &Vec<FuncBody>)
        ensures
            bodies_view(r@) == self.view().bodies,
    {
        &self.bodies
    }
}

/// Decodes and validates the bytes of a module. The result is the validated
/// module exactly where the bytes decode to a module that passes every
/// check; else it is the first error, and nothing of the module is handed
/// out.
pub fn validate<'a>(wasm: &'a [u8]) -> (r: Result<ValidationInfo<'a>, Error>)
    ensures
        match spec_validate(wasm@) {
            Ok(v) => r matches Ok(info) && info.view() == v && info.valid(),
            Err(e) => r matches Err(x) && x == e,
        },
{
    let module = match decode_module(wasm) {
        Ok(m) => m,
        Err(e) => {
            return Err(e);
        },
    };
    let env = build_env(&module);
    match check_env(module.types.len(), &env) {
        Ok(_) => {},
        Err(e) => {
            return Err(e);
        },
    }
    match check_globals(&module.types, &env, &module.globals) {
        Ok(_) => {},
        Err(e) => {
            return Err(e);
        },
    }
    match check_exports_start(&module, &env) {
        Ok(_) => {},
        Err(e) => {
            return Err(e);
        },
    }
    match check_elements(&module.types, &env, &module.elements) {
        Ok(_) => {},
        Err(e) => {
            return Err(e);
        },
    }
    match check_datas(&module.types, &env, &module.data) {
        Ok(_) => {},
        Err(e) => {
            return Err(e);
        },
    }
    let bodies = match check_bodies(wasm, &module, &env) {
        Ok(b) => b,
        Err(e) => {
            return Err(e);
        },
    };
    Ok(ValidationInfo { wasm, module, env, bodies })
}

} // verus!
