//! The execution engine: what every instruction does to the operand stack,
//! the locals and the store, and how blocks, loops, branches and calls run.
//!
//! The meaning of the instructions is given by specification functions, from
//! `spec_step` for one plain instruction up to `spec_run_func` for a whole
//! call. The executable functions compute exactly what these say.
//!
//! An execution ends in a trap where the program does something that has no
//! result, such as a division by zero, and where it exceeds its budget. It
//! ends in a fault where an instruction does not find the operands that it
//! needs; validated code never does (see `soundness`).

use vstd::prelude::*;
use crate::instr::{BlockType, Code, CodeView, Instr};
use crate::memory::{PAGE_SIZE, grow, load, spec_grow, spec_load, spec_pages, spec_store};
use crate::numeric::{Trap, binary, convert, eqz, rel, spec_binary, spec_convert, spec_eqz, spec_rel,
    spec_unary, unary};
use crate::types::{FuncType, FuncTypeView, ValType, Value, func_types_view};
use crate::validation::{FuncBody, FuncBodyView, bodies_view};

verus! {

/// How an execution ends before its time.
#[derive(Copy, Clone, Debug, PartialEq, Eq, Structural)]
pub enum Halt {
    Trap(Trap),
    /// An instruction did not find the operands, the local, the global, the
    /// block or the function that it needs.
    Fault,
}

/// Where execution goes on behind an instruction or a sequence.
#[derive(Copy, Clone, Debug, PartialEq, Eq, Structural)]
pub enum Flow {
    /// With the next instruction.
    Next,
    /// Behind the block that the label names; label 0 is the innermost.
    Branch(u32),
    /// Behind the call of the current function.
    Return,
}

/// What a run may spend.
#[derive(Copy, Clone, Debug, PartialEq, Eq, Structural)]
pub struct Budget {
    /// How deep calls and blocks together may nest. The engine uses its own
    /// stack in proportion to this depth.
    pub call_depth: u32,
    /// How often one run of a loop may branch back to its start.
    pub loop_iterations: u64,
}

/// The state that instructions change besides stack and locals.
pub struct StoreView {
    pub globals: Seq<Value>,
    pub has_mem: bool,
    pub mem: Seq<u8>,
    pub tables: Seq<Seq<Option<u32>>>,
}

/// The executable form of `StoreView`. A table entry is the index of a
/// function, or empty.
#[derive(Clone, Debug, PartialEq, Eq)]
pub struct Store {
    pub globals: Vec<Value>,
    pub has_mem: bool,
    pub mem: Vec<u8>,
    pub tables: Vec<Vec<Option<u32>>>,
}

/// The views of a list of tables.
pub open spec fn tables_view(v: Seq<Vec<Option<u32>>>) -> Seq<Seq<Option<u32>>> {
    Seq::new(v.len(), |i: int| v[i]@)
}

impl View for Store {
    type V = StoreView;

    open spec fn view(&self) -> StoreView {
        StoreView {
            globals: self.globals@,
            has_mem: self.has_mem,
            mem: self.mem@,
            tables: tables_view(self.tables@),
        }
    }
}

/// The code that runs: the signatures, the signature index of each
/// function, the bodies, and the declared maximum of the memory.
pub struct ProgramView {
    pub types: Seq<FuncTypeView>,
    pub funcs: Seq<u32>,
    pub bodies: Seq<FuncBodyView>,
    pub mem_max: Option<u32>,
}

/// The executable form of `ProgramView`.
pub struct Program<'a> {
    pub types: &'a Vec<FuncType>,
    pub funcs: &'a Vec<u32>,
    pub bodies: &'a Vec<FuncBody>,
    pub mem_max: Option<u32>,
}

impl<'a> View for Program<'a> {
    type V = ProgramView;

    open spec fn view(&self) -> ProgramView {
        ProgramView {
            types: func_types_view(self.types@),
            funcs: self.funcs@,
            bodies: bodies_view(self.bodies@),
            mem_max: self.mem_max,
        }
    }
}

/// The state of a running function.
pub struct Config {
    pub stack: Seq<Value>,
    pub locals: Seq<Value>,
    pub store: StoreView,
}

/// The state, and how execution goes on or ends.
pub type Outcome = (Config, Result<Flow, Halt>);

pub open spec fn fault(cfg: Config) -> Outcome {
    (cfg, Err(Halt::Fault))
}

pub open spec fn trap(cfg: Config, t: Trap) -> Outcome {
    (cfg, Err(Halt::Trap(t)))
}

pub open spec fn next(cfg: Config) -> Outcome {
    (cfg, Ok(Flow::Next))
}

pub open spec fn with_stack(cfg: Config, stack: Seq<Value>) -> Config {
    Config { stack, locals: cfg.locals, store: cfg.store }
}

/// The stack without its top `n` values.
pub open spec fn below(stack: Seq<Value>, n: nat) -> Seq<Value> {
    stack.take(stack.len() - n)
}

/// The top `n` values of the stack.
pub open spec fn top_n(stack: Seq<Value>, n: nat) -> Seq<Value> {
    stack.skip(stack.len() - n)
}

/// The number that a value of type i32 holds.
pub open spec fn spec_as_i32(v: Value) -> Option<u32> {
    match v {
        Value::I32(x) => Some(x),
        _ => None,
    }
}

/// The instructions that compute on the operand stack alone.
pub open spec fn spec_step_numeric(cfg: Config, ins: Instr) -> Outcome {
    let s = cfg.stack;
    match ins {
        Instr::Const(v) => next(with_stack(cfg, s.push(v))),
        Instr::Eqz(t) => if s.len() < 1 {
            fault(cfg)
        } else {
            match spec_eqz(t, s.last()) {
                None => fault(cfg),
                Some(r) => next(with_stack(cfg, below(s, 1).push(r))),
            }
        },
        Instr::Unary(t, op) => if s.len() < 1 {
            fault(cfg)
        } else {
            match spec_unary(t, op, s.last()) {
                None => fault(cfg),
                Some(r) => next(with_stack(cfg, below(s, 1).push(r))),
            }
        },
        Instr::Convert(op) => if s.len() < 1 {
            fault(cfg)
        } else {
            match spec_convert(op, s.last()) {
                None => fault(cfg),
                Some(r) => next(with_stack(cfg, below(s, 1).push(r))),
            }
        },
        Instr::Rel(t, op) => if s.len() < 2 {
            fault(cfg)
        } else {
            match spec_rel(t, op, s[s.len() - 2], s.last()) {
                None => fault(cfg),
                Some(r) => next(with_stack(cfg, below(s, 2).push(r))),
            }
        },
        Instr::Binary(t, op) => if s.len() < 2 {
            fault(cfg)
        } else {
            match spec_binary(t, op, s[s.len() - 2], s.last()) {
                None => fault(cfg),
                Some(Err(e)) => trap(cfg, e),
                Some(Ok(r)) => next(with_stack(cfg, below(s, 2).push(r))),
            }
        },
        _ => fault(cfg),
    }
}

/// The instructions that move values between the stack, the locals and the
/// globals.
pub open spec fn spec_step_variable(cfg: Config, ins: Instr) -> Outcome {
    let s = cfg.stack;
    match ins {
        Instr::Drop => if s.len() < 1 {
            fault(cfg)
        } else {
            next(with_stack(cfg, below(s, 1)))
        },
        Instr::Select => if s.len() < 3 {
            fault(cfg)
        } else {
            match spec_as_i32(s.last()) {
                None => fault(cfg),
                Some(c) => next(
                    with_stack(cfg, below(s, 3).push(if c != 0 { s[s.len() - 3] } else { s[s.len() - 2] })),
                ),
            }
        },
        Instr::LocalGet(x) => if x >= cfg.locals.len() {
            fault(cfg)
        } else {
            next(with_stack(cfg, s.push(cfg.locals[x as int])))
        },
        Instr::LocalSet(x) => if x >= cfg.locals.len() || s.len() < 1 {
            fault(cfg)
        } else {
            next(
                Config { stack: below(s, 1), locals: cfg.locals.update(x as int, s.last()), store: cfg.store },
            )
        },
        Instr::LocalTee(x) => if x >= cfg.locals.len() || s.len() < 1 {
            fault(cfg)
        } else {
            next(Config { stack: s, locals: cfg.locals.update(x as int, s.last()), store: cfg.store })
        },
        Instr::GlobalGet(x) => if x >= cfg.store.globals.len() {
            fault(cfg)
        } else {
            next(with_stack(cfg, s.push(cfg.store.globals[x as int])))
        },
        Instr::GlobalSet(x) => if x >= cfg.store.globals.len() || s.len() < 1 {
            fault(cfg)
        } else {
            next(
                Config {
                    stack: below(s, 1),
                    locals: cfg.locals,
                    store: StoreView { globals: cfg.store.globals.update(x as int, s.last()), ..cfg.store },
                },
            )
        },
        _ => fault(cfg),
    }
}

/// The instructions that read, write, measure and grow the memory.
pub open spec fn spec_step_memory(mem_max: Option<u32>, cfg: Config, ins: Instr) -> Outcome {
    let s = cfg.stack;
    if !cfg.store.has_mem {
        fault(cfg)
    } else {
        match ins {
            Instr::Load { ty, width, signed, arg } => if s.len() < 1 {
                fault(cfg)
            } else {
                match spec_as_i32(s.last()) {
                    None => fault(cfg),
                    Some(base) => match spec_load(cfg.store.mem, base, arg.offset, ty, width, signed) {
                        None => fault(cfg),
                        Some(Err(e)) => trap(cfg, e),
                        Some(Ok(v)) => next(with_stack(cfg, below(s, 1).push(v))),
                    },
                }
            },
            Instr::Store { ty, width, arg } => if s.len() < 2 {
                fault(cfg)
            } else {
                match spec_as_i32(s[s.len() - 2]) {
                    None => fault(cfg),
                    Some(base) => match spec_store(cfg.store.mem, base, arg.offset, ty, width, s.last()) {
                        None => fault(cfg),
                        Some(Err(e)) => trap(cfg, e),
                        Some(Ok(mem)) => next(
                            Config {
                                stack: below(s, 2),
                                locals: cfg.locals,
                                store: StoreView { mem, ..cfg.store },
                            },
                        ),
                    },
                }
            },
            Instr::MemorySize => next(
                with_stack(cfg, s.push(Value::I32(spec_pages(cfg.store.mem) as u32))),
            ),
            Instr::MemoryGrow => if s.len() < 1 {
                fault(cfg)
            } else {
                match spec_as_i32(s.last()) {
                    None => fault(cfg),
                    Some(delta) => {
                        let (mem, r) = spec_grow(cfg.store.mem, mem_max, delta);
                        next(
                            Config {
                                stack: below(s, 1).push(Value::I32(r)),
                                locals: cfg.locals,
                                store: StoreView { mem, ..cfg.store },
                            },
                        )
                    },
                }
            },
            _ => fault(cfg),
        }
    }
}

/// The label that a `br_table` picks for the operand `i`: the entry `i` of
/// its table, or the last entry, its default, where the table has no such
/// entry before the default.
pub open spec fn spec_table_label(table: Seq<u32>, i: u32) -> u32 {
    if i < table.len() - 1 {
        table[i as int]
    } else {
        table.last()
    }
}

/// The instructions that pass control on: they say where execution goes on.
pub open spec fn spec_step_control(code: CodeView, cfg: Config, ins: Instr) -> Outcome {
    let s = cfg.stack;
    match ins {
        Instr::Unreachable => trap(cfg, Trap::Unreachable),
        Instr::Nop => next(cfg),
        Instr::Br(l) => (cfg, Ok(Flow::Branch(l))),
        Instr::BrIf(l) => if s.len() < 1 {
            fault(cfg)
        } else {
            match spec_as_i32(s.last()) {
                None => fault(cfg),
                Some(c) => (with_stack(cfg, below(s, 1)), Ok(if c != 0 { Flow::Branch(l) } else { Flow::Next })),
            }
        },
        Instr::BrTable(t) => if t >= code.tables.len() || code.tables[t as int].len() == 0 || s.len() < 1 {
            fault(cfg)
        } else {
            match spec_as_i32(s.last()) {
                None => fault(cfg),
                Some(i) => (
                    with_stack(cfg, below(s, 1)),
                    Ok(Flow::Branch(spec_table_label(code.tables[t as int], i))),
                ),
            }
        },
        Instr::Return => (cfg, Ok(Flow::Return)),
        _ => fault(cfg),
    }
}

/// What one instruction does that holds no other instructions and calls no
/// function.
pub open spec fn spec_step(mem_max: Option<u32>, code: CodeView, cfg: Config, ins: Instr) -> Outcome {
    match ins {
        Instr::Unreachable | Instr::Nop | Instr::Br(_) | Instr::BrIf(_) | Instr::BrTable(_) | Instr::Return => spec_step_control(
            code,
            cfg,
            ins,
        ),
        Instr::Drop | Instr::Select | Instr::LocalGet(_) | Instr::LocalSet(_) | Instr::LocalTee(_) | Instr::GlobalGet(
            _,
        ) | Instr::GlobalSet(_) => spec_step_variable(cfg, ins),
        Instr::Load { .. } | Instr::Store { .. } | Instr::MemorySize | Instr::MemoryGrow => spec_step_memory(
            mem_max,
            cfg,
            ins,
        ),
        Instr::Const(_) | Instr::Eqz(_) | Instr::Rel(_, _) | Instr::Unary(_, _) | Instr::Binary(_, _) | Instr::Convert(
            _,
        ) => spec_step_numeric(cfg, ins),
        _ => fault(cfg),
    }
}

/// The state that the executable engine holds in three places.
pub open spec fn config_of(stack: Seq<Value>, locals: Seq<Value>, store: StoreView) -> Config {
    Config { stack, locals, store }
}

/// The executable engine did what the specification says: it returned the
/// same flow or halt and left the same store; and where execution goes on,
/// it left the same stack and locals.
pub open spec fn agrees(
    r: Result<Flow, Halt>,
    stack: Seq<Value>,
    locals: Seq<Value>,
    store: StoreView,
    spec: Outcome,
) -> bool {
    &&& r == spec.1
    &&& store == spec.0.store
    &&& r is Ok ==> stack == spec.0.stack && locals == spec.0.locals
}

fn as_i32(v: Value) -> (r: Option<u32>)
    ensures
        r == spec_as_i32(v),
{
    match v {
        Value::I32(x) => Some(x),
        _ => None,
    }
}

fn pop2(stack: &mut Vec<Value>) -> (r: (Value, Value))
    requires
        old(stack).len() >= 2,
    ensures
        r.0 == old(stack)@[old(stack)@.len() - 2],
        r.1 == old(stack)@.last(),
        final(stack)@ == below(old(stack)@, 2),
{
    let b = stack.pop().unwrap();
    let a = stack.pop().unwrap();
    assert(stack@ =~= below(old(stack)@, 2));
    (a, b)
}

fn pop1(stack: &mut Vec<Value>) -> (r: Value)
    requires
        old(stack).len() >= 1,
    ensures
        r == old(stack)@.last(),
        final(stack)@ == below(old(stack)@, 1),
{
    let a = stack.pop().unwrap();
    assert(stack@ =~= below(old(stack)@, 1));
    a
}

fn step_numeric(stack: &mut Vec<Value>, Ghost(locals): Ghost<Seq<Value>>, Ghost(store): Ghost<StoreView>, ins: Instr) -> (r:
    Result<Flow, Halt>)
    ensures
        agrees(r, final(stack)@, locals, store, spec_step_numeric(config_of(old(stack)@, locals, store), ins)),
{
    match ins {
        Instr::Const(v) => {
            stack.push(v);
            Ok(Flow::Next)
        },
        Instr::Eqz(t) => {
            if stack.len() < 1 {
                return Err(Halt::Fault);
            }
            let a = pop1(stack);
            match eqz(t, a) {
                None => Err(Halt::Fault),
                Some(r) => {
                    stack.push(r);
                    Ok(Flow::Next)
                },
            }
        },
        Instr::Unary(t, op) => {
            if stack.len() < 1 {
                return Err(Halt::Fault);
            }
            let a = pop1(stack);
            match unary(t, op, a) {
                None => Err(Halt::Fault),
                Some(r) => {
                    stack.push(r);
                    Ok(Flow::Next)
                },
            }
        },
        Instr::Convert(op) => {
            if stack.len() < 1 {
                return Err(Halt::Fault);
            }
            let a = pop1(stack);
            match convert(op, a) {
                None => Err(Halt::Fault),
                Some(r) => {
                    stack.push(r);
                    Ok(Flow::Next)
                },
            }
        },
        Instr::Rel(t, op) => {
            if stack.len() < 2 {
                return Err(Halt::Fault);
            }
            let (a, b) = pop2(stack);
            match rel(t, op, a, b) {
                None => Err(Halt::Fault),
                Some(r) => {
                    stack.push(r);
                    Ok(Flow::Next)
                },
            }
        },
        Instr::Binary(t, op) => {
            if stack.len() < 2 {
                return Err(Halt::Fault);
            }
            let (a, b) = pop2(stack);
            match binary(t, op, a, b) {
                None => Err(Halt::Fault),
                Some(Err(e)) => Err(Halt::Trap(e)),
                Some(Ok(r)) => {
                    stack.push(r);
                    Ok(Flow::Next)
                },
            }
        },
        _ => Err(Halt::Fault),
    }
}

fn step_variable(stack: &mut Vec<Value>, locals: &mut Vec<Value>, store: &mut Store, ins: Instr) -> (r:
    Result<Flow, Halt>)
    ensures
        agrees(
            r,
            final(stack)@,
            final(locals)@,
            final(store)@,
            spec_step_variable(config_of(old(stack)@, old(locals)@, old(store)@), ins),
        ),
{
    match ins {
        Instr::Drop => {
            if stack.len() < 1 {
                return Err(Halt::Fault);
            }
            pop1(stack);
            Ok(Flow::Next)
        },
        Instr::Select => {
            if stack.len() < 3 {
                return Err(Halt::Fault);
            }
            let c = pop1(stack);
            let (a, b) = pop2(stack);
            assert(stack@ =~= below(old(stack)@, 3));
            match as_i32(c) {
                None => Err(Halt::Fault),
                Some(c) => {
                    stack.push(if c != 0 { a } else { b });
                    Ok(Flow::Next)
                },
            }
        },
        Instr::LocalGet(x) => {
            if x as usize >= locals.len() {
                return Err(Halt::Fault);
            }
            stack.push(locals[x as usize]);
            Ok(Flow::Next)
        },
        Instr::LocalSet(x) => {
            if x as usize >= locals.len() || stack.len() < 1 {
                return Err(Halt::Fault);
            }
            let v = pop1(stack);
            locals.set(x as usize, v);
            Ok(Flow::Next)
        },
        Instr::LocalTee(x) => {
            if x as usize >= locals.len() || stack.len() < 1 {
                return Err(Halt::Fault);
            }
            let v = stack[stack.len() - 1];
            locals.set(x as usize, v);
            Ok(Flow::Next)
        },
        Instr::GlobalGet(x) => {
            if x as usize >= store.globals.len() {
                return Err(Halt::Fault);
            }
            stack.push(store.globals[x as usize]);
            Ok(Flow::Next)
        },
        Instr::GlobalSet(x) => {
            if x as usize >= store.globals.len() || stack.len() < 1 {
                return Err(Halt::Fault);
            }
            let v = pop1(stack);
            store.globals.set(x as usize, v);
            Ok(Flow::Next)
        },
        _ => Err(Halt::Fault),
    }
}

fn step_memory(mem_max: Option<u32>, stack: &mut Vec<Value>, Ghost(locals): Ghost<Seq<Value>>, store: &mut Store, ins: Instr) -> (r:
    Result<Flow, Halt>)
    ensures
        agrees(
            r,
            final(stack)@,
            locals,
            final(store)@,
            spec_step_memory(mem_max, config_of(old(stack)@, locals, old(store)@), ins),
        ),
{
    if !store.has_mem {
        return Err(Halt::Fault);
    }
    match ins {
        Instr::Load { ty, width, signed, arg } => {
            if stack.len() < 1 {
                return Err(Halt::Fault);
            }
            let a = pop1(stack);
            match as_i32(a) {
                None => Err(Halt::Fault),
                Some(base) => match load(&store.mem, base, arg.offset, ty, width, signed) {
                    None => Err(Halt::Fault),
                    Some(Err(e)) => Err(Halt::Trap(e)),
                    Some(Ok(v)) => {
                        stack.push(v);
                        Ok(Flow::Next)
                    },
                },
            }
        },
        Instr::Store { ty, width, arg } => {
            if stack.len() < 2 {
                return Err(Halt::Fault);
            }
            let (a, v) = pop2(stack);
            match as_i32(a) {
                None => Err(Halt::Fault),
                Some(base) => match crate::memory::store(&mut store.mem, base, arg.offset, ty, width, v) {
                    None => Err(Halt::Fault),
                    Some(Err(e)) => Err(Halt::Trap(e)),
                    Some(Ok(_)) => Ok(Flow::Next),
                },
            }
        },
        Instr::MemorySize => {
            let pages = store.mem.len() / PAGE_SIZE;
            stack.push(Value::I32(#[verifier::truncate] (pages as u32)));
            Ok(Flow::Next)
        },
        Instr::MemoryGrow => {
            if stack.len() < 1 {
                return Err(Halt::Fault);
            }
            let a = pop1(stack);
            match as_i32(a) {
                None => Err(Halt::Fault),
                Some(delta) => {
                    let r = grow(&mut store.mem, mem_max, delta);
                    stack.push(Value::I32(r));
                    Ok(Flow::Next)
                },
            }
        },
        _ => Err(Halt::Fault),
    }
}

fn step_control(code: &Code, stack: &mut Vec<Value>, Ghost(locals): Ghost<Seq<Value>>, Ghost(store): Ghost<StoreView>, ins: Instr) -> (r:
    Result<Flow, Halt>)
    ensures
        agrees(
            r,
            final(stack)@,
            locals,
            store,
            spec_step_control(code@, config_of(old(stack)@, locals, store), ins),
        ),
{
    match ins {
        Instr::Unreachable => Err(Halt::Trap(Trap::Unreachable)),
        Instr::Nop => Ok(Flow::Next),
        Instr::Br(l) => Ok(Flow::Branch(l)),
        Instr::BrIf(l) => {
            if stack.len() < 1 {
                return Err(Halt::Fault);
            }
            let a = pop1(stack);
            match as_i32(a) {
                None => Err(Halt::Fault),
                Some(c) => Ok(if c != 0 { Flow::Branch(l) } else { Flow::Next }),
            }
        },
        Instr::BrTable(t) => {
            if t >= code.tables.len() || code.tables[t].len() == 0 || stack.len() < 1 {
                return Err(Halt::Fault);
            }
            let a = pop1(stack);
            match as_i32(a) {
                None => Err(Halt::Fault),
                Some(i) => {
                    let table = &code.tables[t];
                    let l = if (i as usize) < table.len() - 1 {
                        table[i as usize]
                    } else {
                        table[table.len() - 1]
                    };
                    Ok(Flow::Branch(l))
                },
            }
        },
        Instr::Return => Ok(Flow::Return),
        _ => Err(Halt::Fault),
    }
}

/// Executes one instruction that holds no other instructions and calls no
/// function.
pub fn step(
    mem_max: Option<u32>,
    code: &Code,
    stack: &mut Vec<Value>,
    locals: &mut Vec<Value>,
    store: &mut Store,
    ins: Instr,
) -> (r: Result<Flow, Halt>)
    ensures
        agrees(
            r,
            final(stack)@,
            final(locals)@,
            final(store)@,
            spec_step(mem_max, code@, config_of(old(stack)@, old(locals)@, old(store)@), ins),
        ),
{
    match ins {
        Instr::Unreachable | Instr::Nop | Instr::Br(_) | Instr::BrIf(_) | Instr::BrTable(_) | Instr::Return => step_control(
            code,
            stack,
            Ghost(locals@),
            Ghost(store@),
            ins,
        ),
        Instr::Drop | Instr::Select | Instr::LocalGet(_) | Instr::LocalSet(_) | Instr::LocalTee(_) | Instr::GlobalGet(
            _,
        ) | Instr::GlobalSet(_) => step_variable(stack, locals, store, ins),
        Instr::Load { .. } | Instr::Store { .. } | Instr::MemorySize | Instr::MemoryGrow => step_memory(
            mem_max,
            stack,
            Ghost(locals@),
            store,
            ins,
        ),
        Instr::Const(_) | Instr::Eqz(_) | Instr::Rel(_, _) | Instr::Unary(_, _) | Instr::Binary(_, _) | Instr::Convert(
            _,
        ) => step_numeric(stack, Ghost(locals@), Ghost(store@), ins),
        _ => Err(Halt::Fault),
    }
}

// ---------------------------------------------------------------------------
// Blocks, loops and calls
// ---------------------------------------------------------------------------

/// How many operands a block takes and how many it leaves. `None` for a
/// block type that names no signature.
pub open spec fn spec_arity(types: Seq<FuncTypeView>, bt: BlockType) -> Option<(nat, nat)> {
    match bt {
        BlockType::Empty => Some((0, 0)),
        BlockType::Value(_) => Some((0, 1)),
        BlockType::Func(x) => if x < types.len() {
            Some((types[x as int].params.len(), types[x as int].results.len()))
        } else {
            None
        },
    }
}

/// The stack with everything between height `h` and its top `n` values
/// taken out: what a branch leaves when it carries `n` values out of a block
/// that was entered at height `h`.
pub open spec fn unwound(stack: Seq<Value>, h: nat, n: nat) -> Seq<Value> {
    stack.take(h as int) + top_n(stack, n)
}

/// The outcome of a block, entered at stack height `h`, whose label carries
/// `n` values, from the outcome of its body: a branch to the block itself
/// ends the block, and a branch further out counts one block less.
pub open spec fn spec_exit(out: Outcome, h: nat, n: nat) -> Outcome {
    match out.1 {
        Ok(Flow::Branch(l)) => if l == 0 {
            if out.0.stack.len() < h + n {
                fault(out.0)
            } else {
                next(with_stack(out.0, unwound(out.0.stack, h, n)))
            }
        } else {
            (out.0, Ok(Flow::Branch((l - 1) as u32)))
        },
        _ => out,
    }
}

/// The locals that a function declares, at the start of a call: zeros of
/// their types.
pub open spec fn spec_zero_locals(ts: Seq<ValType>) -> Seq<Value> {
    Seq::new(ts.len(), |i: int| Value::spec_zero(ts[i]))
}

/// The function that an indirect call finds: the entry of table `t` at the
/// index on top of the stack. The call traps where the table has no such
/// entry or the entry is empty, and where the function has another signature
/// than `x` names.
pub open spec fn spec_resolve(p: ProgramView, cfg: Config, x: u32, t: u32) -> Result<nat, Halt> {
    if cfg.stack.len() < 1 || t >= cfg.store.tables.len() || x >= p.types.len() {
        Err(Halt::Fault)
    } else {
        match spec_as_i32(cfg.stack.last()) {
            None => Err(Halt::Fault),
            Some(i) => {
                let table = cfg.store.tables[t as int];
                if i >= table.len() || table[i as int] is None {
                    Err(Halt::Trap(Trap::UndefinedElement))
                } else {
                    let f = table[i as int]->0;
                    if f >= p.funcs.len() || p.funcs[f as int] >= p.types.len() {
                        Err(Halt::Fault)
                    } else if p.types[p.funcs[f as int] as int] != p.types[x as int] {
                        Err(Halt::Trap(Trap::IndirectCallTypeMismatch))
                    } else {
                        Ok(f as nat)
                    }
                }
            },
        }
    }
}

/// Runs the instructions from index `i` on. `depth` is how deep calls and
/// blocks may still nest, `limit` how often a loop may repeat. The
/// instructions may name blocks below `bound` only.
pub open spec fn spec_run_seq(
    p: ProgramView,
    depth: nat,
    limit: nat,
    code: CodeView,
    instrs: Seq<Instr>,
    bound: nat,
    i: nat,
    cfg: Config,
) -> Outcome
    decreases depth, 1nat, 2 * bound, instrs.len() - i,
{
    if i >= instrs.len() {
        next(cfg)
    } else {
        let out = spec_run_instr(p, depth, limit, code, bound, cfg, instrs[i as int]);
        match out.1 {
            Ok(Flow::Next) => spec_run_seq(p, depth, limit, code, instrs, bound, i + 1, out.0),
            _ => out,
        }
    }
}

/// Runs one instruction, which may name blocks below `bound` only.
pub open spec fn spec_run_instr(
    p: ProgramView,
    depth: nat,
    limit: nat,
    code: CodeView,
    bound: nat,
    cfg: Config,
    ins: Instr,
) -> Outcome
    decreases depth, 1nat, 2 * bound, 0nat,
{
    match ins {
        Instr::Block(bt, id) => match spec_arity(p.types, bt) {
            None => fault(cfg),
            Some((np, nr)) => if id >= bound || id >= code.blocks.len() || cfg.stack.len() < np {
                fault(cfg)
            } else if depth == 0 {
                trap(cfg, Trap::CallStackExhausted)
            } else {
                spec_exit(
                    spec_run_seq(p, (depth - 1) as nat, limit, code, code.blocks[id as int], id as nat, 0, cfg),
                    (cfg.stack.len() - np) as nat,
                    nr,
                )
            },
        },
        Instr::Loop(bt, id) => match spec_arity(p.types, bt) {
            None => fault(cfg),
            Some((np, nr)) => if id >= bound || id >= code.blocks.len() || cfg.stack.len() < np {
                fault(cfg)
            } else if depth == 0 {
                trap(cfg, Trap::CallStackExhausted)
            } else {
                spec_run_loop(
                    p,
                    (depth - 1) as nat,
                    limit,
                    code,
                    id as nat,
                    np,
                    (cfg.stack.len() - np) as nat,
                    limit,
                    cfg,
                )
            },
        },
        Instr::If(bt, then_id, else_id) => match spec_arity(p.types, bt) {
            None => fault(cfg),
            Some((np, nr)) => if then_id >= bound || then_id >= code.blocks.len() || else_id >= bound
                || else_id >= code.blocks.len() || cfg.stack.len() < np + 1 {
                fault(cfg)
            } else {
                match spec_as_i32(cfg.stack.last()) {
                    None => fault(cfg),
                    Some(c) => if depth == 0 {
                        trap(cfg, Trap::CallStackExhausted)
                    } else {
                        let id = if c != 0 {
                            then_id
                        } else {
                            else_id
                        };
                        spec_exit(
                            spec_run_seq(
                                p,
                                (depth - 1) as nat,
                                limit,
                                code,
                                code.blocks[id as int],
                                id as nat,
                                0,
                                with_stack(cfg, below(cfg.stack, 1)),
                            ),
                            (cfg.stack.len() - 1 - np) as nat,
                            nr,
                        )
                    },
                }
            },
        },
        Instr::Call(f) => spec_call(p, depth, limit, f as nat, cfg),
        Instr::CallIndirect(x, t) => match spec_resolve(p, cfg, x, t) {
            Err(h) => (cfg, Err(h)),
            Ok(f) => spec_call(p, depth, limit, f, with_stack(cfg, below(cfg.stack, 1))),
        },
        ins => spec_step(p.mem_max, code, cfg, ins),
    }
}

/// Runs the loop whose body is block `id`, entered at stack height `h` with
/// `np` parameters. A branch to the loop starts the body again with the
/// values that the branch carries, at most `iters` times.
pub open spec fn spec_run_loop(
    p: ProgramView,
    depth: nat,
    limit: nat,
    code: CodeView,
    id: nat,
    np: nat,
    h: nat,
    iters: nat,
    cfg: Config,
) -> Outcome
    decreases depth, 1nat, 2 * id + 1, iters,
{
    if id >= code.blocks.len() {
        fault(cfg)
    } else {
        let out = spec_run_seq(p, depth, limit, code, code.blocks[id as int], id, 0, cfg);
        match out.1 {
            Ok(Flow::Branch(l)) => if l == 0 {
                if out.0.stack.len() < h + np {
                    fault(out.0)
                } else if iters == 0 {
                    trap(out.0, Trap::IterationLimit)
                } else {
                    spec_run_loop(
                        p,
                        depth,
                        limit,
                        code,
                        id,
                        np,
                        h,
                        (iters - 1) as nat,
                        with_stack(out.0, unwound(out.0.stack, h, np)),
                    )
                }
            } else {
                (out.0, Ok(Flow::Branch((l - 1) as u32)))
            },
            _ => out,
        }
    }
}

/// Calls function `f` with the arguments on top of the stack and leaves its
/// results in their place. The call traps where calls may nest no deeper.
pub open spec fn spec_call(p: ProgramView, depth: nat, limit: nat, f: nat, cfg: Config) -> Outcome
    decreases depth, 0nat, 0nat, 0nat,
{
    if f >= p.funcs.len() || f >= p.bodies.len() || p.funcs[f as int] >= p.types.len() {
        fault(cfg)
    } else {
        let np = p.types[p.funcs[f as int] as int].params.len();
        if cfg.stack.len() < np {
            fault(cfg)
        } else if depth == 0 {
            trap(cfg, Trap::CallStackExhausted)
        } else {
            let (store, r) = spec_run_func(
                p,
                (depth - 1) as nat,
                limit,
                f,
                top_n(cfg.stack, np),
                cfg.store,
            );
            match r {
                Err(h) => (Config { stack: cfg.stack, locals: cfg.locals, store }, Err(h)),
                Ok(results) => next(
                    Config { stack: below(cfg.stack, np) + results, locals: cfg.locals, store },
                ),
            }
        }
    }
}

/// Runs function `f` on the arguments `args`: its locals start as the
/// arguments and then zeros, its stack starts empty, and its results are
/// the top of the stack when its body ends, returns, or branches to its
/// outermost label.
pub open spec fn spec_run_func(
    p: ProgramView,
    depth: nat,
    limit: nat,
    f: nat,
    args: Seq<Value>,
    store: StoreView,
) -> (StoreView, Result<Seq<Value>, Halt>)
    decreases depth, 2nat, 0nat, 0nat,
{
    if f >= p.funcs.len() || f >= p.bodies.len() || p.funcs[f as int] >= p.types.len() {
        (store, Err(Halt::Fault))
    } else {
        let body = p.bodies[f as int];
        let nr = p.types[p.funcs[f as int] as int].results.len();
        let out = spec_run_seq(
            p,
            depth,
            limit,
            body.expr.code,
            body.expr.body,
            body.expr.code.blocks.len(),
            0,
            Config { stack: Seq::empty(), locals: args + spec_zero_locals(body.locals), store },
        );
        match out.1 {
            Err(h) => (out.0.store, Err(h)),
            Ok(flow) => if (flow matches Flow::Branch(l) && l > 0) || out.0.stack.len() < nr {
                (out.0.store, Err(Halt::Fault))
            } else {
                (out.0.store, Ok(top_n(out.0.stack, nr)))
            },
        }
    }
}

fn arity(p: &Program, bt: BlockType) -> (r: Option<(usize, usize)>)
    ensures
        match spec_arity(p@.types, bt) {
            None => r is None,
            Some((np, nr)) => r matches Some((a, b)) && a == np && b == nr,
        },
{
    match bt {
        BlockType::Empty => Some((0, 0)),
        BlockType::Value(_) => Some((0, 1)),
        BlockType::Func(x) => if (x as usize) < p.types.len() {
            Some((p.types[x as usize].params.len(), p.types[x as usize].results.len()))
        } else {
            None
        },
    }
}

fn unwind(stack: &mut Vec<Value>, h: usize, n: usize)
    requires
        h + n <= old(stack).len(),
    ensures
        final(stack)@ == unwound(old(stack)@, h as nat, n as nat),
{
    let at = stack.len() - n;
    let mut top = stack.split_off(at);
    stack.truncate(h);
    stack.append(&mut top);
    assert(stack@ =~= unwound(old(stack)@, h as nat, n as nat));
}

fn exit_block(
    r: Result<Flow, Halt>,
    stack: &mut Vec<Value>,
    h: usize,
    n: usize,
    Ghost(locals): Ghost<Seq<Value>>,
    Ghost(store): Ghost<StoreView>,
    Ghost(inner): Ghost<Outcome>,
) -> (r2: Result<Flow, Halt>)
    requires
        agrees(r, old(stack)@, locals, store, inner),
    ensures
        agrees(r2, final(stack)@, locals, store, spec_exit(inner, h as nat, n as nat)),
{
    match r {
        Ok(Flow::Branch(l)) => {
            if l == 0 {
                if stack.len() < h || stack.len() - h < n {
                    Err(Halt::Fault)
                } else {
                    unwind(stack, h, n);
                    Ok(Flow::Next)
                }
            } else {
                Ok(Flow::Branch(l - 1))
            }
        },
        _ => r,
    }
}

fn same_types(a: &Vec<ValType>, b: &Vec<ValType>) -> (r: bool)
    ensures
        r == (a@ == b@),
{
    if a.len() != b.len() {
        return false;
    }
    let mut i: usize = 0;
    while i < a.len()
        invariant
            i <= a.len(),
            a.len() == b.len(),
            forall|k: int| 0 <= k < i ==> a@[k] == b@[k],
        decreases a.len() - i,
    {
        if a[i] != b[i] {
            return false;
        }
        i += 1;
    }
    assert(a@ =~= b@);
    true
}

fn resolve(p: &Program, stack: &mut Vec<Value>, Ghost(locals): Ghost<Seq<Value>>, store: &Store, x: u32, t: u32) -> (r:
    Result<usize, Halt>)
    ensures
        match spec_resolve(p@, config_of(old(stack)@, locals, store@), x, t) {
            Ok(f) => r == Ok::<usize, Halt>(f as usize) && f <= usize::MAX && final(stack)@ == below(
                old(stack)@,
                1,
            ),
            Err(h) => r == Err::<usize, Halt>(h),
        },
{
    if stack.len() < 1 || t as usize >= store.tables.len() || x as usize >= p.types.len() {
        return Err(Halt::Fault);
    }
    let a = pop1(stack);
    match as_i32(a) {
        None => Err(Halt::Fault),
        Some(i) => {
            let table = &store.tables[t as usize];
            if i as usize >= table.len() {
                return Err(Halt::Trap(Trap::UndefinedElement));
            }
            match table[i as usize] {
                None => Err(Halt::Trap(Trap::UndefinedElement)),
                Some(f) => {
                    if f as usize >= p.funcs.len() || p.funcs[f as usize] as usize >= p.types.len() {
                        return Err(Halt::Fault);
                    }
                    let found = &p.types[p.funcs[f as usize] as usize];
                    let wanted = &p.types[x as usize];
                    if !(same_types(&found.params, &wanted.params) && same_types(
                        &found.results,
                        &wanted.results,
                    )) {
                        return Err(Halt::Trap(Trap::IndirectCallTypeMismatch));
                    }
                    Ok(f as usize)
                },
            }
        },
    }
}

/// Runs a sequence of instructions.
pub fn run_seq(
    p: &Program,
    depth: u32,
    limit: u64,
    code: &Code,
    instrs: &Vec<Instr>,
    bound: usize,
    stack: &mut Vec<Value>,
    locals: &mut Vec<Value>,
    store: &mut Store,
) -> (r: Result<Flow, Halt>)
    ensures
        agrees(
            r,
            final(stack)@,
            final(locals)@,
            final(store)@,
            spec_run_seq(
                p@,
                depth as nat,
                limit as nat,
                code@,
                instrs@,
                bound as nat,
                0,
                config_of(old(stack)@, old(locals)@, old(store)@),
            ),
        ),
    decreases depth, 1nat, 2 * bound, 1nat,
{
    let ghost cfg0 = config_of(stack@, locals@, store@);
    let mut i: usize = 0;
    while i < instrs.len()
        invariant
            i <= instrs.len(),
            cfg0 == config_of(old(stack)@, old(locals)@, old(store)@),
            spec_run_seq(p@, depth as nat, limit as nat, code@, instrs@, bound as nat, 0, cfg0)
                == spec_run_seq(
                p@,
                depth as nat,
                limit as nat,
                code@,
                instrs@,
                bound as nat,
                i as nat,
                config_of(stack@, locals@, store@),
            ),
        decreases instrs.len() - i,
    {
        let r = run_instr(p, depth, limit, code, bound, stack, locals, store, instrs[i]);
        match r {
            Ok(Flow::Next) => {},
            _ => {
                return r;
            },
        }
        i += 1;
    }
    Ok(Flow::Next)
}

fn run_instr(
    p: &Program,
    depth: u32,
    limit: u64,
    code: &Code,
    bound: usize,
    stack: &mut Vec<Value>,
    locals: &mut Vec<Value>,
    store: &mut Store,
    ins: Instr,
) -> (r: Result<Flow, Halt>)
    ensures
        agrees(
            r,
            final(stack)@,
            final(locals)@,
            final(store)@,
            spec_run_instr(
                p@,
                depth as nat,
                limit as nat,
                code@,
                bound as nat,
                config_of(old(stack)@, old(locals)@, old(store)@),
                ins,
            ),
        ),
    decreases depth, 1nat, 2 * bound, 0nat,
{
    let ghost cfg = config_of(stack@, locals@, store@);
    match ins {
        Instr::Block(bt, id) => {
            match arity(p, bt) {
                None => Err(Halt::Fault),
                Some((np, nr)) => {
                    if id >= bound || id >= code.blocks.len() || stack.len() < np {
                        Err(Halt::Fault)
                    } else if depth == 0 {
                        Err(Halt::Trap(Trap::CallStackExhausted))
                    } else {
                        let h = stack.len() - np;
                        let inner = run_seq(p, depth - 1, limit, code, &code.blocks[id], id, stack, locals, store);
                        exit_block(
                            inner,
                            stack,
                            h,
                            nr,
                            Ghost(locals@),
                            Ghost(store@),
                            Ghost(
                                spec_run_seq(
                                    p@,
                                    (depth - 1) as nat,
                                    limit as nat,
                                    code@,
                                    code@.blocks[id as int],
                                    id as nat,
                                    0,
                                    cfg,
                                ),
                            ),
                        )
                    }
                },
            }
        },
        Instr::Loop(bt, id) => {
            match arity(p, bt) {
                None => Err(Halt::Fault),
                Some((np, nr)) => {
                    if id >= bound || id >= code.blocks.len() || stack.len() < np {
                        Err(Halt::Fault)
                    } else if depth == 0 {
                        Err(Halt::Trap(Trap::CallStackExhausted))
                    } else {
                        let h = stack.len() - np;
                        run_loop(p, depth - 1, limit, code, id, np, h, stack, locals, store)
                    }
                },
            }
        },
        Instr::If(bt, then_id, else_id) => {
            match arity(p, bt) {
                None => Err(Halt::Fault),
                Some((np, nr)) => {
                    if then_id >= bound || then_id >= code.blocks.len() || else_id >= bound || else_id
                        >= code.blocks.len() || stack.len() < 1 || stack.len() - 1 < np {
                        Err(Halt::Fault)
                    } else {
                        let c = pop1(stack);
                        match as_i32(c) {
                            None => Err(Halt::Fault),
                            Some(c) => if depth == 0 {
                                Err(Halt::Trap(Trap::CallStackExhausted))
                            } else {
                                let id = if c != 0 {
                                    then_id
                                } else {
                                    else_id
                                };
                                let h = stack.len() - np;
                                let ghost cfg1 = config_of(stack@, locals@, store@);
                                let inner = run_seq(
                                    p,
                                    depth - 1,
                                    limit,
                                    code,
                                    &code.blocks[id],
                                    id,
                                    stack,
                                    locals,
                                    store,
                                );
                                exit_block(
                                    inner,
                                    stack,
                                    h,
                                    nr,
                                    Ghost(locals@),
                                    Ghost(store@),
                                    Ghost(
                                        spec_run_seq(
                                            p@,
                                            (depth - 1) as nat,
                                            limit as nat,
                                            code@,
                                            code@.blocks[id as int],
                                            id as nat,
                                            0,
                                            cfg1,
                                        ),
                                    ),
                                )
                            },
                        }
                    }
                },
            }
        },
        Instr::Call(f) => call(p, depth, limit, f as usize, stack, Ghost(locals@), store),
        Instr::CallIndirect(x, t) => {
            match resolve(p, stack, Ghost(locals@), store, x, t) {
                Err(h) => Err(h),
                Ok(f) => call(p, depth, limit, f, stack, Ghost(locals@), store),
            }
        },
        ins => step(p.mem_max, code, stack, locals, store, ins),
    }
}

fn run_loop(
    p: &Program,
    depth: u32,
    limit: u64,
    code: &Code,
    id: usize,
    np: usize,
    h: usize,
    stack: &mut Vec<Value>,
    locals: &mut Vec<Value>,
    store: &mut Store,
) -> (r: Result<Flow, Halt>)
    requires
        id < code.blocks.len(),
    ensures
        agrees(
            r,
            final(stack)@,
            final(locals)@,
            final(store)@,
            spec_run_loop(
                p@,
                depth as nat,
                limit as nat,
                code@,
                id as nat,
                np as nat,
                h as nat,
                limit as nat,
                config_of(old(stack)@, old(locals)@, old(store)@),
            ),
        ),
    decreases depth, 1nat, 2 * id + 1, 0nat,
{
    let ghost cfg0 = config_of(stack@, locals@, store@);
    let mut iters: u64 = limit;
    loop
        invariant
            id < code.blocks.len(),
            cfg0 == config_of(old(stack)@, old(locals)@, old(store)@),
            spec_run_loop(
                p@,
                depth as nat,
                limit as nat,
                code@,
                id as nat,
                np as nat,
                h as nat,
                limit as nat,
                cfg0,
            ) == spec_run_loop(
                p@,
                depth as nat,
                limit as nat,
                code@,
                id as nat,
                np as nat,
                h as nat,
                iters as nat,
                config_of(stack@, locals@, store@),
            ),
        decreases iters,
    {
        let r = run_seq(p, depth, limit, code, &code.blocks[id], id, stack, locals, store);
        match r {
            Ok(Flow::Branch(l)) => {
                if l != 0 {
                    return Ok(Flow::Branch(l - 1));
                }
                if stack.len() < h || stack.len() - h < np {
                    return Err(Halt::Fault);
                }
                if iters == 0 {
                    return Err(Halt::Trap(Trap::IterationLimit));
                }
                unwind(stack, h, np);
                iters -= 1;
            },
            _ => {
                return r;
            },
        }
    }
}

fn call(
    p: &Program,
    depth: u32,
    limit: u64,
    f: usize,
    stack: &mut Vec<Value>,
    Ghost(locals): Ghost<Seq<Value>>,
    store: &mut Store,
) -> (r: Result<Flow, Halt>)
    ensures
        agrees(
            r,
            final(stack)@,
            locals,
            final(store)@,
            spec_call(p@, depth as nat, limit as nat, f as nat, config_of(old(stack)@, locals, old(store)@)),
        ),
    decreases depth, 0nat, 0nat, 0nat,
{
    if f >= p.funcs.len() || f >= p.bodies.len() || p.funcs[f] as usize >= p.types.len() {
        return Err(Halt::Fault);
    }
    let np = p.types[p.funcs[f] as usize].params.len();
    if stack.len() < np {
        return Err(Halt::Fault);
    }
    if depth == 0 {
        return Err(Halt::Trap(Trap::CallStackExhausted));
    }
    let at = stack.len() - np;
    let args = stack.split_off(at);
    assert(args@ =~= top_n(old(stack)@, np as nat));
    assert(stack@ =~= below(old(stack)@, np as nat));
    match run_func(p, depth - 1, limit, f, args, store) {
        Err(h) => Err(h),
        Ok(results) => {
            let mut results = results;
            stack.append(&mut results);
            Ok(Flow::Next)
        },
    }
}

/// Runs a function on its arguments and returns its results.
pub fn run_func(p: &Program, depth: u32, limit: u64, f: usize, args: Vec<Value>, store: &mut Store) -> (r:
    Result<Vec<Value>, Halt>)
    ensures
        final(store)@ == spec_run_func(p@, depth as nat, limit as nat, f as nat, args@, old(store)@).0,
        match spec_run_func(p@, depth as nat, limit as nat, f as nat, args@, old(store)@).1 {
            Ok(v) => r matches Ok(rv) && rv@ == v,
            Err(h) => r == Err::<Vec<Value>, Halt>(h),
        },
    decreases depth, 2nat, 0nat, 0nat,
{
    if f >= p.funcs.len() || f >= p.bodies.len() || p.funcs[f] as usize >= p.types.len() {
        return Err(Halt::Fault);
    }
    let body = &p.bodies[f];
    let nr = p.types[p.funcs[f] as usize].results.len();
    let mut locals = args;
    let mut k: usize = 0;
    assert(locals@ =~= args@ + spec_zero_locals(body@.locals.take(0)));
    while k < body.locals.len()
        invariant
            k <= body.locals.len(),
            locals@ == args@ + spec_zero_locals(body@.locals.take(k as int)),
        decreases body.locals.len() - k,
    {
        locals.push(Value::zero(body.locals[k]));
        k += 1;
        assert(locals@ =~= args@ + spec_zero_locals(body@.locals.take(k as int)));
    }
    assert(body@.locals.take(k as int) =~= body@.locals);
    let mut stack: Vec<Value> = Vec::new();
    let r = run_seq(
        p,
        depth,
        limit,
        &body.expr.code,
        &body.expr.body,
        body.expr.code.blocks.len(),
        &mut stack,
        &mut locals,
        store,
    );
    match r {
        Err(h) => Err(h),
        Ok(flow) => {
            let branches_out = match flow {
                Flow::Branch(l) => l > 0,
                _ => false,
            };
            if branches_out || stack.len() < nr {
                Err(Halt::Fault)
            } else {
                let at = stack.len() - nr;
                let results = stack.split_off(at);
                assert(results@ =~= top_n(stack@ + results@, nr as nat));
                Ok(results)
            }
        },
    }
}

} // verus!
