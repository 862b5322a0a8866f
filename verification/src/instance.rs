//! Instances: the mutable state of a validated module, how it is set up, and
//! how the host calls into it.

use vstd::prelude::*;
use crate::error::Error;
use crate::execution::{Budget, Config, Flow, Halt, Program, ProgramView, Store, StoreView, run_func,
    run_seq, spec_run_func, spec_run_seq, tables_view};
use crate::instr::{ExprView, Expr, Instr};
use crate::memory::{PAGE_SIZE, extend_zeros, spec_zeros};
use crate::module::{Data, DataView, Element, ElementView, Global, GlobalView, Import, ImportDesc,
    SegmentMode, SegmentModeView, datas_view, elements_view, globals_view};
use crate::numeric::Trap;
use crate::types::{FuncType, FuncTypeView, Limits, Value, func_types_view, types_of};
use crate::soundness::{instance_ok, lemma_instantiation_is_sound, lemma_invocation_is_sound};
use crate::validation::{Env, EnvView, FuncBody, ValidatedView, ValidationInfo, bodies_view, spec_env};

verus! {

/// How deep the calls and blocks of a start function may nest, where the
/// host names no budget.
pub const DEFAULT_CALL_DEPTH: u32 = 512;

/// How often a loop of a start function may repeat, where the host names no
/// budget.
pub const DEFAULT_LOOP_ITERATIONS: u64 = 0xffff_ffff_ffff_ffff;

/// The program of a validated module.
pub open spec fn program_of(v: ValidatedView) -> ProgramView {
    let env = spec_env(v.module);
    ProgramView {
        types: v.module.types,
        funcs: env.funcs,
        bodies: v.bodies,
        mem_max: if env.mems.len() > 0 {
            env.mems[0].max
        } else {
            None
        },
    }
}

/// The program that a constant expression runs in: it has the signatures of
/// the module, and no functions.
pub open spec fn const_program(types: Seq<FuncTypeView>) -> ProgramView {
    ProgramView { types, funcs: Seq::empty(), bodies: Seq::empty(), mem_max: None }
}

/// The store that a constant expression sees: the imported globals, and
/// nothing else.
pub open spec fn const_store(imported: Seq<Value>) -> StoreView {
    StoreView { globals: imported, has_mem: false, mem: Seq::empty(), tables: Seq::empty() }
}

/// The value of a constant expression: what its instructions leave on the
/// stack, if they run to their end and leave one value.
pub open spec fn spec_eval_const(types: Seq<FuncTypeView>, e: ExprView, imported: Seq<Value>) -> Option<Value> {
    let out = spec_run_seq(
        const_program(types),
        0,
        0,
        e.code,
        e.body,
        e.code.blocks.len(),
        0,
        Config { stack: Seq::empty(), locals: Seq::empty(), store: const_store(imported) },
    );
    if out.1 == Ok::<Flow, Halt>(Flow::Next) && out.0.stack.len() == 1 {
        Some(out.0.stack[0])
    } else {
        None
    }
}

pub fn eval_const(types: &Vec<FuncType>, e: &Expr, imported: &Vec<Value>) -> (r: Option<Value>)
    ensures
        r == spec_eval_const(func_types_view(types@), e@, imported@),
{
    let funcs: Vec<u32> = Vec::new();
    let bodies: Vec<FuncBody> = Vec::new();
    let p = Program { types, funcs: &funcs, bodies: &bodies, mem_max: None };
    assert(bodies_view(bodies@) =~= Seq::empty());
    let mut globals: Vec<Value> = Vec::new();
    let mut k: usize = 0;
    while k < imported.len()
        invariant
            k <= imported.len(),
            globals@ == imported@.take(k as int),
        decreases imported.len() - k,
    {
        globals.push(imported[k]);
        k += 1;
        assert(globals@ =~= imported@.take(k as int));
    }
    assert(imported@.take(k as int) =~= imported@);
    let mut store = Store { globals, has_mem: false, mem: Vec::new(), tables: Vec::new() };
    assert(tables_view(store.tables@) =~= Seq::empty());
    let mut stack: Vec<Value> = Vec::new();
    let mut locals: Vec<Value> = Vec::new();
    let r = run_seq(&p, 0, 0, &e.code, &e.body, e.code.blocks.len(), &mut stack, &mut locals, &mut store);
    match r {
        Ok(Flow::Next) => if stack.len() == 1 {
            Some(stack[0])
        } else {
            None
        },
        _ => None,
    }
}

/// The module imports nothing but globals, and the host gives one value of
/// the right type for each.
pub open spec fn spec_check_imports(env: EnvView, imported: Seq<Value>) -> Result<(), Error> {
    if env.imported_funcs > 0 || env.imported_tables > 0 || env.imported_mems > 0 || imported.len()
        != env.imported_globals || imported.len() > env.globals.len() {
        Err(Error::UnresolvedImport)
    } else if !(forall|i: int|
        0 <= i < imported.len() ==> (#[trigger] imported[i]).spec_ty() == env.globals[i].ty) {
        Err(Error::ImportTypeMismatch)
    } else {
        Ok(())
    }
}

fn check_imports(env: &Env, imported: &Vec<Value>) -> (r: Result<(), Error>)
    ensures
        r == spec_check_imports(env@, imported@),
{
    if env.imported_funcs > 0 || env.imported_tables > 0 || env.imported_mems > 0 || imported.len()
        != env.imported_globals || imported.len() > env.globals.len() {
        return Err(Error::UnresolvedImport);
    }
    let mut i: usize = 0;
    while i < imported.len()
        invariant
            i <= imported.len() <= env.globals.len(),
            env.imported_funcs == 0 && env.imported_tables == 0 && env.imported_mems == 0,
            imported.len() == env.imported_globals,
            forall|k: int| 0 <= k < i ==> (#[trigger] imported@[k]).spec_ty() == env@.globals[k].ty,
        decreases imported.len() - i,
    {
        if imported[i].ty() != env.globals[i].ty {
            assert(!(imported@[i as int].spec_ty() == env@.globals[i as int].ty));
            return Err(Error::ImportTypeMismatch);
        }
        i += 1;
    }
    Ok(())
}

/// The values of the globals from index `i` on, behind those in `acc`: each
/// is what its initializer evaluates to, which may read the imported globals.
pub open spec fn spec_init_globals(
    types: Seq<FuncTypeView>,
    gs: Seq<GlobalView>,
    imported: Seq<Value>,
    i: nat,
    acc: Seq<Value>,
) -> Result<
    Seq<Value>,
    Error,
>
    decreases gs.len() - i,
{
    if i >= gs.len() {
        Ok(acc)
    } else {
        match spec_eval_const(types, gs[i as int].init, imported) {
            None => Err(Error::NotConstant),
            Some(v) => spec_init_globals(types, gs, imported, i + 1, acc.push(v)),
        }
    }
}

fn init_globals(types: &Vec<FuncType>, gs: &Vec<Global>, imported: &Vec<Value>) -> (r: Result<
    Vec<Value>,
    Error,
>)
    ensures
        match spec_init_globals(func_types_view(types@), globals_view(gs@), imported@, 0, imported@) {
            Ok(v) => r matches Ok(rv) && rv@ == v,
            Err(e) => r == Err::<Vec<Value>, Error>(e),
        },
{
    let mut out: Vec<Value> = Vec::new();
    let mut k: usize = 0;
    while k < imported.len()
        invariant
            k <= imported.len(),
            out@ == imported@.take(k as int),
        decreases imported.len() - k,
    {
        out.push(imported[k]);
        k += 1;
        assert(out@ =~= imported@.take(k as int));
    }
    assert(imported@.take(k as int) =~= imported@);
    let mut i: usize = 0;
    while i < gs.len()
        invariant
            i <= gs.len(),
            spec_init_globals(func_types_view(types@), globals_view(gs@), imported@, 0, imported@)
                == spec_init_globals(
                func_types_view(types@),
                globals_view(gs@),
                imported@,
                i as nat,
                out@,
            ),
        decreases gs.len() - i,
    {
        match eval_const(types, &gs[i].init, imported) {
            None => {
                return Err(Error::NotConstant);
            },
            Some(v) => {
                out.push(v);
            },
        }
        i += 1;
    }
    Ok(out)
}

/// The memory at the start: as many pages of zeros as its minimum says.
pub open spec fn spec_init_mem(mems: Seq<Limits>) -> Result<(bool, Seq<u8>), Error> {
    if mems.len() == 0 {
        Ok((false, Seq::empty()))
    } else if mems[0].min * PAGE_SIZE > usize::MAX {
        Err(Error::MemoryTooLarge)
    } else {
        Ok((true, spec_zeros((mems[0].min * PAGE_SIZE) as nat)))
    }
}

fn init_mem(mems: &Vec<Limits>) -> (r: Result<(bool, Vec<u8>), Error>)
    ensures
        match spec_init_mem(mems@) {
            Ok((has, m)) => r matches Ok((rh, rm)) && rh == has && rm@ == m,
            Err(e) => r == Err::<(bool, Vec<u8>), Error>(e),
        },
{
    let mut mem: Vec<u8> = Vec::new();
    if mems.len() == 0 {
        return Ok((false, mem));
    }
    let bytes: u64 = mems[0].min as u64 * 65536;
    if bytes > usize::MAX as u64 {
        return Err(Error::MemoryTooLarge);
    }
    extend_zeros(&mut mem, bytes as usize);
    assert(mem@ =~= spec_zeros((mems@[0].min * PAGE_SIZE) as nat));
    Ok((true, mem))
}

/// An empty table of `n` entries.
pub open spec fn spec_empty_table(n: nat) -> Seq<Option<u32>> {
    Seq::new(n, |k: int| None::<u32>)
}

/// The tables at the start: each as long as its minimum says, and empty.
pub open spec fn spec_init_tables(tables: Seq<Limits>) -> Seq<Seq<Option<u32>>> {
    Seq::new(tables.len(), |i: int| spec_empty_table(tables[i].min as nat))
}

fn init_tables(tables: &Vec<Limits>) -> (r: Vec<Vec<Option<u32>>>)
    ensures
        tables_view(r@) == spec_init_tables(tables@),
{
    let mut out: Vec<Vec<Option<u32>>> = Vec::new();
    let mut i: usize = 0;
    while i < tables.len()
        invariant
            i <= tables.len(),
            out.len() == i,
            forall|k: int| 0 <= k < i ==> (#[trigger] out@[k])@ == spec_empty_table(tables@[k].min as nat),
        decreases tables.len() - i,
    {
        let mut table: Vec<Option<u32>> = Vec::new();
        let mut k: u32 = 0;
        while k < tables[i as usize].min
            invariant
                i < tables.len(),
                k <= tables@[i as int].min,
                table@ == spec_empty_table(k as nat),
            decreases tables@[i as int].min - k,
        {
            table.push(None);
            k += 1;
            assert(table@ =~= spec_empty_table(k as nat));
        }
        out.push(table);
        i += 1;
    }
    assert(tables_view(out@) =~= spec_init_tables(tables@));
    out
}

/// The offset of an active segment: the value of its expression, which must
/// be of type i32.
pub open spec fn spec_offset(types: Seq<FuncTypeView>, e: ExprView, imported: Seq<Value>) -> Option<u32> {
    match spec_eval_const(types, e, imported) {
        Some(Value::I32(o)) => Some(o),
        _ => None,
    }
}

fn offset_of(types: &Vec<FuncType>, e: &Expr, imported: &Vec<Value>) -> (r: Option<u32>)
    ensures
        r == spec_offset(func_types_view(types@), e@, imported@),
{
    match eval_const(types, e, imported) {
        Some(Value::I32(o)) => Some(o),
        _ => None,
    }
}

/// The table with the functions `funcs[k..]` written from entry `at + k` on.
pub open spec fn spec_write_funcs(table: Seq<Option<u32>>, at: int, funcs: Seq<u32>, k: nat) -> Seq<
    Option<u32>,
>
    decreases funcs.len() - k,
{
    if k >= funcs.len() {
        table
    } else {
        spec_write_funcs(table.update(at + k, Some(funcs[k as int])), at, funcs, k + 1)
    }
}

/// The tables with an element segment applied: an active segment writes its
/// functions into its table from its offset on, and fails where they do not
/// all fit; a passive segment does nothing.
pub open spec fn spec_apply_element(
    types: Seq<FuncTypeView>,
    tables: Seq<Seq<Option<u32>>>,
    el: ElementView,
    imported: Seq<Value>,
) -> Result<
    Seq<Seq<Option<u32>>>,
    Error,
> {
    match el.mode {
        SegmentModeView::Passive => Ok(tables),
        SegmentModeView::Active { index, offset } => match spec_offset(types, offset, imported) {
            None => Err(Error::NotConstant),
            Some(o) => if index >= tables.len() || o + el.funcs.len() > tables[index as int].len() {
                Err(Error::SegmentOutOfBounds)
            } else {
                Ok(tables.update(index as int, spec_write_funcs(tables[index as int], o as int, el.funcs, 0)))
            },
        },
    }
}

/// The tables with the element segments from index `i` on applied in order.
pub open spec fn spec_apply_elements(
    types: Seq<FuncTypeView>,
    tables: Seq<Seq<Option<u32>>>,
    els: Seq<ElementView>,
    imported: Seq<Value>,
    i: nat,
) -> Result<Seq<Seq<Option<u32>>>, Error>
    decreases els.len() - i,
{
    if i >= els.len() {
        Ok(tables)
    } else {
        match spec_apply_element(types, tables, els[i as int], imported) {
            Err(e) => Err(e),
            Ok(t) => spec_apply_elements(types, t, els, imported, i + 1),
        }
    }
}

fn apply_element(types: &Vec<FuncType>, tables: &mut Vec<Vec<Option<u32>>>, el: &Element, imported: &Vec<Value>) -> (r:
    Result<(), Error>)
    ensures
        match spec_apply_element(func_types_view(types@), tables_view(old(tables)@), el@, imported@) {
            Ok(t) => r is Ok && tables_view(final(tables)@) == t,
            Err(e) => r == Err::<(), Error>(e),
        },
{
    match &el.mode {
        SegmentMode::Passive => Ok(()),
        SegmentMode::Active { index, offset } => {
            let o = match offset_of(types, offset, imported) {
                None => {
                    return Err(Error::NotConstant);
                },
                Some(o) => o,
            };
            let t = *index as usize;
            if t >= tables.len() || el.funcs.len() > tables[t].len() || o as usize > tables[t].len()
                - el.funcs.len() {
                return Err(Error::SegmentOutOfBounds);
            }
            let ghost before = tables_view(tables@);
            let mut k: usize = 0;
            while k < el.funcs.len()
                invariant
                    k <= el.funcs.len(),
                    t < tables.len(),
                    tables.len() == before.len(),
                    o + el.funcs.len() <= tables@[t as int].len(),
                    tables@[t as int]@.len() == before[t as int].len(),
                    forall|j: int| 0 <= j < tables.len() && j != t ==> (#[trigger] tables@[j])@ == before[j],
                    spec_write_funcs(before[t as int], o as int, el.funcs@, 0) == spec_write_funcs(
                        tables@[t as int]@,
                        o as int,
                        el.funcs@,
                        k as nat,
                    ),
                decreases el.funcs.len() - k,
            {
                let tab = &mut tables[t];
                tab.set(o as usize + k, Some(el.funcs[k]));
                k += 1;
            }
            assert(tables_view(tables@) =~= before.update(
                t as int,
                spec_write_funcs(before[t as int], o as int, el.funcs@, 0),
            ));
            Ok(())
        },
    }
}

fn apply_elements(
    types: &Vec<FuncType>,
    tables: &mut Vec<Vec<Option<u32>>>,
    els: &Vec<Element>,
    imported: &Vec<Value>,
) -> (r: Result<(), Error>)
    ensures
        match spec_apply_elements(
            func_types_view(types@),
            tables_view(old(tables)@),
            elements_view(els@),
            imported@,
            0,
        ) {
            Ok(t) => r is Ok && tables_view(final(tables)@) == t,
            Err(e) => r == Err::<(), Error>(e),
        },
{
    let mut i: usize = 0;
    while i < els.len()
        invariant
            i <= els.len(),
            spec_apply_elements(
                func_types_view(types@),
                tables_view(old(tables)@),
                elements_view(els@),
                imported@,
                0,
            ) == spec_apply_elements(
                func_types_view(types@),
                tables_view(tables@),
                elements_view(els@),
                imported@,
                i as nat,
            ),
        decreases els.len() - i,
    {
        apply_element(types, tables, &els[i], imported)?;
        i += 1;
    }
    Ok(())
}

/// The memory with the bytes `bytes[k..]` written from address `at + k` on.
pub open spec fn spec_write_bytes(mem: Seq<u8>, at: int, bytes: Seq<u8>, k: nat) -> Seq<u8>
    decreases bytes.len() - k,
{
    if k >= bytes.len() {
        mem
    } else {
        spec_write_bytes(mem.update(at + k, bytes[k as int]), at, bytes, k + 1)
    }
}

/// The memory with a data segment applied: an active segment writes its
/// bytes, which are a span of the module's bytes, from its offset on, and
/// fails where they do not all fit.
pub open spec fn spec_apply_data(
    types: Seq<FuncTypeView>,
    has_mem: bool,
    mem: Seq<u8>,
    d: DataView,
    wasm: Seq<u8>,
    imported: Seq<Value>,
) -> Result<
    Seq<u8>,
    Error,
> {
    match d.mode {
        SegmentModeView::Passive => Ok(mem),
        SegmentModeView::Active { index, offset } => match spec_offset(types, offset, imported) {
            None => Err(Error::NotConstant),
            Some(o) => if !has_mem || index != 0 || !d.init.fits(wasm.len() as int) || o + d.init.len
                > mem.len() {
                Err(Error::SegmentOutOfBounds)
            } else {
                Ok(spec_write_bytes(mem, o as int, d.init.bytes_of(wasm), 0))
            },
        },
    }
}

/// The memory with the data segments from index `i` on applied in order.
pub open spec fn spec_apply_datas(
    types: Seq<FuncTypeView>,
    has_mem: bool,
    mem: Seq<u8>,
    ds: Seq<DataView>,
    wasm: Seq<u8>,
    imported: Seq<Value>,
    i: nat,
) -> Result<Seq<u8>, Error>
    decreases ds.len() - i,
{
    if i >= ds.len() {
        Ok(mem)
    } else {
        match spec_apply_data(types, has_mem, mem, ds[i as int], wasm, imported) {
            Err(e) => Err(e),
            Ok(m) => spec_apply_datas(types, has_mem, m, ds, wasm, imported, i + 1),
        }
    }
}

fn apply_data(
    types: &Vec<FuncType>,
    has_mem: bool,
    mem: &mut Vec<u8>,
    d: &Data,
    wasm: &[u8],
    imported: &Vec<Value>,
) -> (r: Result<(), Error>)
    ensures
        match spec_apply_data(func_types_view(types@), has_mem, old(mem)@, d@, wasm@, imported@) {
            Ok(m) => r is Ok && final(mem)@ == m,
            Err(e) => r == Err::<(), Error>(e),
        },
{
    match &d.mode {
        SegmentMode::Passive => Ok(()),
        SegmentMode::Active { index, offset } => {
            let o = match offset_of(types, offset, imported) {
                None => {
                    return Err(Error::NotConstant);
                },
                Some(o) => o,
            };
            if !has_mem || *index != 0 {
                return Err(Error::SegmentOutOfBounds);
            }
            let bytes = match d.init.slice(wasm) {
                None => {
                    return Err(Error::SegmentOutOfBounds);
                },
                Some(b) => b,
            };
            if d.init.len > mem.len() || o as usize > mem.len() - d.init.len {
                return Err(Error::SegmentOutOfBounds);
            }
            let mut k: usize = 0;
            while k < bytes.len()
                invariant
                    k <= bytes.len(),
                    o + bytes.len() <= mem.len(),
                    mem.len() == old(mem).len(),
                    spec_write_bytes(old(mem)@, o as int, bytes@, 0) == spec_write_bytes(
                        mem@,
                        o as int,
                        bytes@,
                        k as nat,
                    ),
                decreases bytes.len() - k,
            {
                mem.set(o as usize + k, bytes[k]);
                k += 1;
            }
            Ok(())
        },
    }
}

fn apply_datas(
    types: &Vec<FuncType>,
    has_mem: bool,
    mem: &mut Vec<u8>,
    ds: &Vec<Data>,
    wasm: &[u8],
    imported: &Vec<Value>,
) -> (r: Result<(), Error>)
    ensures
        match spec_apply_datas(func_types_view(types@), has_mem, old(mem)@, datas_view(ds@), wasm@, imported@, 0) {
            Ok(m) => r is Ok && final(mem)@ == m,
            Err(e) => r == Err::<(), Error>(e),
        },
{
    let mut i: usize = 0;
    while i < ds.len()
        invariant
            i <= ds.len(),
            spec_apply_datas(func_types_view(types@), has_mem, old(mem)@, datas_view(ds@), wasm@, imported@, 0)
                == spec_apply_datas(
                func_types_view(types@),
                has_mem,
                mem@,
                datas_view(ds@),
                wasm@,
                imported@,
                i as nat,
            ),
        decreases ds.len() - i,
    {
        apply_data(types, has_mem, mem, &ds[i], wasm, imported)?;
        i += 1;
    }
    Ok(())
}

/// The store of a new instance before its start function runs: the globals
/// initialized, the memory and the tables allocated, and the active segments
/// applied, the element segments first.
pub open spec fn spec_init_store(v: ValidatedView, imported: Seq<Value>) -> Result<StoreView, Error> {
    let env = spec_env(v.module);
    match spec_check_imports(env, imported) {
        Err(e) => Err(e),
        Ok(_) => match spec_init_globals(v.module.types, v.module.globals, imported, 0, imported) {
            Err(e) => Err(e),
            Ok(globals) => match spec_init_mem(env.mems) {
                Err(e) => Err(e),
                Ok((has_mem, mem0)) => match spec_apply_elements(
                    v.module.types,
                    spec_init_tables(env.tables),
                    v.module.elements,
                    imported,
                    0,
                ) {
                    Err(e) => Err(e),
                    Ok(tables) => match spec_apply_datas(
                        v.module.types,
                        has_mem,
                        mem0,
                        v.module.data,
                        v.wasm,
                        imported,
                        0,
                    ) {
                        Err(e) => Err(e),
                        Ok(mem) => Ok(StoreView { globals, has_mem, mem, tables }),
                    },
                },
            },
        },
    }
}

/// The store of a new instance: set up as `spec_init_store` says, and then
/// changed by the start function, if the module has one. Instantiation fails
/// where the start function traps.
pub open spec fn spec_instantiate(v: ValidatedView, imported: Seq<Value>, budget: Budget) -> Result<
    StoreView,
    Error,
> {
    match spec_init_store(v, imported) {
        Err(e) => Err(e),
        Ok(store) => match v.module.start {
            None => Ok(store),
            Some(f) => {
                let (s, r) = spec_run_func(
                    program_of(v),
                    budget.call_depth as nat,
                    budget.loop_iterations as nat,
                    f as nat,
                    Seq::empty(),
                    store,
                );
                match r {
                    Ok(_) => Ok(s),
                    Err(Halt::Trap(t)) => Err(Error::StartTrapped(t)),
                    Err(Halt::Fault) => Err(Error::MalformedCode),
                }
            },
        },
    }
}

/// A global that the host offers to modules, under the names of a module
/// and of a field.
#[derive(Clone, Debug, PartialEq, Eq)]
pub struct HostGlobal {
    pub module: Vec<u8>,
    pub name: Vec<u8>,
    pub value: Value,
}

/// The value of the first binding from index `i` on with these names.
pub open spec fn spec_find_binding(bindings: Seq<HostGlobal>, module: Seq<u8>, name: Seq<u8>, i: nat) -> Option<
    Value,
>
    decreases bindings.len() - i,
{
    if i >= bindings.len() {
        None
    } else if bindings[i as int].module@ == module && bindings[i as int].name@ == name {
        Some(bindings[i as int].value)
    } else {
        spec_find_binding(bindings, module, name, i + 1)
    }
}

/// The values of the imports from index `i` on, behind those in `acc`: an
/// imported global has the value of the first binding with its names. An
/// import that is no global, or that no binding is named like, is not
/// resolved.
pub open spec fn spec_resolve_imports(
    wasm: Seq<u8>,
    imports: Seq<Import>,
    bindings: Seq<HostGlobal>,
    i: nat,
    acc: Seq<Value>,
) -> Result<Seq<Value>, Error>
    decreases imports.len() - i,
{
    if i >= imports.len() {
        Ok(acc)
    } else {
        let im = imports[i as int];
        if !(im.desc is Global) || !im.module.fits(wasm.len() as int) || !im.name.fits(wasm.len() as int) {
            Err(Error::UnresolvedImport)
        } else {
            match spec_find_binding(bindings, im.module.bytes_of(wasm), im.name.bytes_of(wasm), 0) {
                None => Err(Error::UnresolvedImport),
                Some(v) => spec_resolve_imports(wasm, imports, bindings, i + 1, acc.push(v)),
            }
        }
    }
}

fn equal_bytes(a: &[u8], b: &Vec<u8>) -> (r: bool)
    ensures
        r == (a@ == b@),
{
    if a.len() != b.len() {
        return false;
    }
    let mut i: usize = 0;
    while i < a.len()
        invariant
            i <= a.len(),
            a.len() == b.len(),
            forall|k: int| 0 <= k < i ==> a@[k] == b@[k],
        decreases a.len() - i,
    {
        if a[i] != b[i] {
            return false;
        }
        i += 1;
    }
    assert(a@ =~= b@);
    true
}

fn find_binding(bindings: &Vec<HostGlobal>, module: &[u8], name: &[u8]) -> (r: Option<Value>)
    ensures
        r == spec_find_binding(bindings@, module@, name@, 0),
{
    let mut i: usize = 0;
    while i < bindings.len()
        invariant
            i <= bindings.len(),
            spec_find_binding(bindings@, module@, name@, 0) == spec_find_binding(
                bindings@,
                module@,
                name@,
                i as nat,
            ),
        decreases bindings.len() - i,
    {
        if equal_bytes(module, &bindings[i].module) && equal_bytes(name, &bindings[i].name) {
            return Some(bindings[i].value);
        }
        i += 1;
    }
    None
}

/// Resolves the imports of a module against what the host offers.
pub fn resolve_imports(wasm: &[u8], imports: &Vec<Import>, bindings: &Vec<HostGlobal>) -> (r: Result<
    Vec<Value>,
    Error,
>)
    ensures
        match spec_resolve_imports(wasm@, imports@, bindings@, 0, Seq::empty()) {
            Ok(v) => r matches Ok(rv) && rv@ == v,
            Err(e) => r == Err::<Vec<Value>, Error>(e),
        },
{
    let mut out: Vec<Value> = Vec::new();
    let mut i: usize = 0;
    while i < imports.len()
        invariant
            i <= imports.len(),
            spec_resolve_imports(wasm@, imports@, bindings@, 0, Seq::empty()) == spec_resolve_imports(
                wasm@,
                imports@,
                bindings@,
                i as nat,
                out@,
            ),
        decreases imports.len() - i,
    {
        let im = imports[i];
        match im.desc {
            ImportDesc::Global(_) => {},
            _ => {
                return Err(Error::UnresolvedImport);
            },
        }
        let module = match im.module.slice(wasm) {
            Some(b) => b,
            None => {
                return Err(Error::UnresolvedImport);
            },
        };
        let name = match im.name.slice(wasm) {
            Some(b) => b,
            None => {
                return Err(Error::UnresolvedImport);
            },
        };
        match find_binding(bindings, module, name) {
            None => {
                return Err(Error::UnresolvedImport);
            },
            Some(v) => {
                out.push(v);
            },
        }
        i += 1;
    }
    Ok(out)
}

/// Why a call from the host did not return results.
#[derive(Copy, Clone, Debug, PartialEq, Eq, Structural)]
pub enum InvokeError {
    /// The index names no function of the instance.
    UnknownFunction,
    /// The arguments are not of the types of the function's parameters.
    ArgumentMismatch,
    /// The function ran and trapped.
    Trap(Trap),
    /// An instruction did not find what it needs. Validated code has no such
    /// instruction.
    Fault,
}

/// What a call from the host does: it fails at the boundary, with the store
/// as it is, where the index names no function or the arguments do not have
/// the types of the parameters, one for one; else it runs the function.
pub open spec fn spec_invoke(p: ProgramView, store: StoreView, f: nat, args: Seq<Value>, budget: Budget) -> (
    StoreView,
    Result<Seq<Value>, InvokeError>,
) {
    if f >= p.funcs.len() || p.funcs[f as int] >= p.types.len() {
        (store, Err(InvokeError::UnknownFunction))
    } else if types_of(args) != p.types[p.funcs[f as int] as int].params {
        (store, Err(InvokeError::ArgumentMismatch))
    } else {
        let (s, r) = spec_run_func(p, budget.call_depth as nat, budget.loop_iterations as nat, f, args, store);
        match r {
            Ok(v) => (s, Ok(v)),
            Err(Halt::Trap(t)) => (s, Err(InvokeError::Trap(t))),
            Err(Halt::Fault) => (s, Err(InvokeError::Fault)),
        }
    }
}

/// A live instance of a validated module: its globals, memory and tables,
/// and the validated code that runs on them.
pub struct RuntimeInstance<'b> {
    info: &'b ValidationInfo<'b>,
    store: Store,
}

impl<'b> RuntimeInstance<'b> {
    /// The instance is sound: its functions are well typed and its store
    /// fits them. Every instance is when it is made, and every call leaves
    /// it so.
    pub open spec fn is_sound(self) -> bool {
        instance_ok(self.validated(), self.store())
    }

    /// The validated module that the instance runs.
    pub closed spec fn validated(self) -> ValidatedView {
        self.info.view()
    }

    /// The program that the instance runs.
    pub open spec fn program(self) -> ProgramView {
        program_of(self.validated())
    }

    /// The globals, memory and tables as they are.
    pub closed spec fn store(self) -> StoreView {
        self.store@
    }

    fn the_program(info: &'b ValidationInfo<'b>) -> (p: Program<'b>)
        ensures
            p@ == program_of(info.view()),
    {
        let module = info.module();
        let env = info.env();
        let mem_max = if env.mems.len() > 0 {
            env.mems[0].max
        } else {
            None
        };
        Program { types: &module.types, funcs: &env.funcs, bodies: info.bodies(), mem_max }
    }

    /// Instantiates a module that imports nothing, with the default budget
    /// for its start function.
    pub fn new(info: &'b ValidationInfo<'b>) -> (r: Result<RuntimeInstance<'b>, Error>)
        ensures
            match spec_instantiate(
                info.view(),
                Seq::empty(),
                Budget { call_depth: DEFAULT_CALL_DEPTH, loop_iterations: DEFAULT_LOOP_ITERATIONS },
            ) {
                Ok(s) => r matches Ok(inst) && inst.store() == s && inst.validated() == info.view()
                    && inst.is_sound(),
                Err(e) => r matches Err(x) && x == e,
            },
    {
        let imported: Vec<Value> = Vec::new();
        RuntimeInstance::instantiate(
            info,
            &imported,
            Budget { call_depth: DEFAULT_CALL_DEPTH, loop_iterations: DEFAULT_LOOP_ITERATIONS },
        )
    }

    /// Instantiates a module. `imported_globals` holds the value of each
    /// imported global, in the order of the imports. On success the store is
    /// what `spec_instantiate` says; on failure no instance comes to be.
    pub fn instantiate(info: &'b ValidationInfo<'b>, imported_globals: &Vec<Value>, budget: Budget) -> (r:
        Result<RuntimeInstance<'b>, Error>)
        ensures
            match spec_instantiate(info.view(), imported_globals@, budget) {
                Ok(s) => r matches Ok(inst) && inst.store() == s && inst.validated() == info.view()
                    && inst.is_sound(),
                Err(e) => r matches Err(x) && x == e,
            },
    {
        let module = info.module();
        proof {
            info.lemma_certified();
            lemma_instantiation_is_sound(info.view().wasm, info.view(), imported_globals@, budget);
        }
        let env = info.env();
        match check_imports(env, imported_globals) {
            Ok(_) => {},
            Err(e) => {
                return Err(e);
            },
        }
        let globals = match init_globals(&module.types, &module.globals, imported_globals) {
            Ok(g) => g,
            Err(e) => {
                return Err(e);
            },
        };
        let (has_mem, mem) = match init_mem(&env.mems) {
            Ok(m) => m,
            Err(e) => {
                return Err(e);
            },
        };
        let mut tables = init_tables(&env.tables);
        match apply_elements(&module.types, &mut tables, &module.elements, imported_globals) {
            Ok(_) => {},
            Err(e) => {
                return Err(e);
            },
        }
        let mut mem = mem;
        match apply_datas(&module.types, has_mem, &mut mem, &module.data, info.wasm(), imported_globals) {
            Ok(_) => {},
            Err(e) => {
                return Err(e);
            },
        }
        let mut store = Store { globals, has_mem, mem, tables };
        match module.start {
            None => {},
            Some(f) => {
                let p = RuntimeInstance::the_program(info);
                let args: Vec<Value> = Vec::new();
                match run_func(&p, budget.call_depth, budget.loop_iterations, f as usize, args, &mut store) {
                    Ok(_) => {},
                    Err(Halt::Trap(t)) => {
                        return Err(Error::StartTrapped(t));
                    },
                    Err(Halt::Fault) => {
                        return Err(Error::MalformedCode);
                    },
                }
            },
        }
        Ok(RuntimeInstance { info, store })
    }

    /// Instantiates a module whose imported globals the host binds by name:
    /// each takes the value of the first of `bindings` with its names, and
    /// then the module is instantiated as `instantiate` does.
    pub fn instantiate_with(info: &'b ValidationInfo<'b>, bindings: &Vec<HostGlobal>, budget: Budget) -> (r:
        Result<RuntimeInstance<'b>, Error>)
        ensures
            match spec_resolve_imports(info.view().wasm, info.view().module.imports, bindings@, 0, Seq::empty()) {
                Err(e) => r matches Err(x) && x == e,
                Ok(values) => match spec_instantiate(info.view(), values, budget) {
                    Ok(s) => r matches Ok(inst) && inst.store() == s && inst.validated() == info.view()
                        && inst.is_sound(),
                    Err(e) => r matches Err(x) && x == e,
                },
            },
    {
        let values = match resolve_imports(info.wasm(), &info.module().imports, bindings) {
            Ok(v) => v,
            Err(e) => {
                return Err(e);
            },
        };
        RuntimeInstance::instantiate(info, &values, budget)
    }

    /// Calls the function `func_idx` with `args`. The call fails at the
    /// boundary, and changes nothing, where the index names no function or
    /// the arguments are not of the types of the parameters; else the
    /// function runs, within `budget`, and its results or its trap come
    /// back. What a trapped call wrote before it trapped stays written.
    /// On a sound instance, and every instance is one, the call never
    /// faults, and its results are of the function's result types.
    pub fn invoke_func(&mut self, func_idx: usize, args: Vec<Value>, budget: Budget) -> (r: Result<
        Vec<Value>,
        InvokeError,
    >)
        ensures
            final(self).validated() == old(self).validated(),
            old(self).is_sound() ==> final(self).is_sound() && !(r matches Err(InvokeError::Fault)),
            old(self).is_sound() ==> (r matches Ok(rv) ==> func_idx < old(self).program().funcs.len()
                && types_of(rv@) == old(self).program().types[old(self).program().funcs[func_idx as int] as int].results),
            final(self).store() == spec_invoke(
                old(self).program(),
                old(self).store(),
                func_idx as nat,
                args@,
                budget,
            ).0,
            match spec_invoke(old(self).program(), old(self).store(), func_idx as nat, args@, budget).1 {
                Ok(v) => r matches Ok(rv) && rv@ == v,
                Err(e) => r matches Err(x) && x == e,
            },
    {
        proof {
            if self.is_sound() {
                lemma_invocation_is_sound(self.info.view(), self.store@, func_idx as nat, args@, budget);
            }
        }
        let p = RuntimeInstance::the_program(self.info);
        if func_idx >= p.funcs.len() || p.funcs[func_idx] as usize >= p.types.len() {
            return Err(InvokeError::UnknownFunction);
        }
        let params = &p.types[p.funcs[func_idx] as usize].params;
        if !args_match(&args, params) {
            return Err(InvokeError::ArgumentMismatch);
        }
        match run_func(&p, budget.call_depth, budget.loop_iterations, func_idx, args, &mut self.store) {
            Ok(v) => Ok(v),
            Err(Halt::Trap(t)) => Err(InvokeError::Trap(t)),
            Err(Halt::Fault) => Err(InvokeError::Fault),
        }
    }

    /// The value of global `idx`, if there is one.
    pub fn global(&self, idx: usize) -> (r: Option<Value>)
        ensures
            r == if idx < self.store().globals.len() {
                Some(self.store().globals[idx as int])
            } else {
                None
            },
    {
        if idx < self.store.globals.len() {
            Some(self.store.globals[idx])
        } else {
            None
        }
    }

    /// The size of the memory in bytes; 0 where the module has none.
    pub fn memory_size(&self) -> (n: usize)
        ensures
            n == self.store().mem.len(),
    {
        self.store.mem.len()
    }

    /// The byte of memory at `addr`, if the memory reaches that far.
    pub fn memory_byte(&self, addr: usize) -> (r: Option<u8>)
        ensures
            r == if addr < self.store().mem.len() {
                Some(self.store().mem[addr as int])
            } else {
                None
            },
    {
        if addr < self.store.mem.len() {
            Some(self.store.mem[addr])
        } else {
            None
        }
    }
}

fn args_match(args: &Vec<Value>, params: &Vec<crate::types::ValType>) -> (r: bool)
    ensures
        r == (types_of(args@) == params@),
{
    if args.len() != params.len() {
        return false;
    }
    let mut i: usize = 0;
    while i < args.len()
        invariant
            i <= args.len(),
            args.len() == params.len(),
            forall|k: int| 0 <= k < i ==> args@[k].spec_ty() == params@[k],
        decreases args.len() - i,
    {
        if args[i].ty() != params[i] {
            assert(types_of(args@)[i as int] != params@[i as int]);
            return false;
        }
        i += 1;
    }
    assert(types_of(args@) =~= params@);
    true
}

} // verus!
