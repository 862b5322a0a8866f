//! Validation is sound: validated code never faults.
//!
//! The engine of `execution` checks for itself that every instruction finds
//! its operands, and halts with a fault where one does not. The lemmas here
//! show that code which passed validation never reaches such a halt: at
//! every instruction the operand stack holds values of exactly the types that
//! the validator computed. What is left to go wrong is what depends on the
//! values: the traps.

use vstd::prelude::*;
use crate::error::Error;
use crate::execution::Budget;
use crate::instance::{InvokeError, const_program, const_store, program_of, spec_apply_element,
    spec_apply_elements, spec_check_imports, spec_empty_table, spec_eval_const, spec_init_globals,
    spec_init_mem, spec_init_store, spec_init_tables, spec_instantiate, spec_invoke, spec_write_funcs};
use crate::module::{ElementView, GlobalView, Import, ModuleView, SegmentModeView, spec_check_counts,
    spec_module};
use crate::validation::{EnvView, FuncBodyView, ValidatedView, const_cx, func_cx, global_types,
    spec_bodies, spec_check_const, spec_check_datas, spec_check_element, spec_check_elements,
    spec_check_env, spec_check_exports_start, spec_check_func, spec_check_globals, spec_check_mode,
    spec_check_module, spec_env, spec_env_with_import, spec_func_body, spec_import_env, spec_validate};
use crate::execution::{Config, Flow, Halt, Outcome, ProgramView, StoreView, below, fault, next,
    spec_arity, spec_as_i32, spec_call, spec_exit, spec_resolve, spec_run_func, spec_run_instr,
    spec_run_loop, spec_run_seq, spec_step, spec_step_control, spec_step_memory, spec_step_numeric,
    spec_step_variable, spec_table_label, spec_zero_locals, top_n, trap, unwound, with_stack};
use crate::instr::{BlockType, CodeView, Instr};
use crate::memory::{spec_grow, spec_load, spec_store, spec_widen, spec_width_ok};
use crate::numeric::{Trap, spec_binary, spec_convert, spec_eqz, spec_rel, spec_unary};
use crate::types::{FuncTypeView, GlobalType, Limits, ValType, Value, types_of};
use crate::typing::{Cx, Frame, int_type, known, label_at, spec_align_ok, spec_apply, spec_block_sig,
    spec_check_body, spec_check_plain, spec_check_seq, spec_check_table, spec_convert_types,
    spec_ends_with, spec_pop, spec_pop_all, spec_pop_expect, spec_push, spec_push_all, spec_simple_sig,
    spec_unreachable};

verus! {

/// What the program was validated against: the code, and the types of the
/// globals, tables and memories.
pub struct Statics {
    pub p: ProgramView,
    pub globals: Seq<GlobalType>,
    pub tables: Seq<Limits>,
    pub mems: Seq<Limits>,
}

/// The context in which the body of function `f` was checked.
pub open spec fn cx_of(sx: Statics, f: int) -> Cx {
    Cx {
        types: sx.p.types,
        funcs: sx.p.funcs,
        tables: sx.tables,
        mems: sx.mems,
        globals: sx.globals,
        locals: sx.p.types[sx.p.funcs[f] as int].params + sx.p.bodies[f].locals,
        ret: sx.p.types[sx.p.funcs[f] as int].results,
        code: sx.p.bodies[f].expr.code,
    }
}

/// Function `f` has a signature and a body, and the body is well typed.
pub open spec fn func_ok(sx: Statics, f: int) -> bool {
    &&& 0 <= f < sx.p.bodies.len()
    &&& sx.p.funcs[f] < sx.p.types.len()
    &&& spec_check_body(
        cx_of(sx, f),
        sx.p.bodies[f].expr.body,
        sx.p.bodies[f].expr.code.blocks.len(),
        Seq::empty().push(sx.p.types[sx.p.funcs[f] as int].results),
        Seq::empty(),
        sx.p.types[sx.p.funcs[f] as int].results,
    ) is Ok
}

/// Every function of the program is well typed.
pub open spec fn program_ok(sx: Statics) -> bool {
    &&& sx.p.funcs.len() == sx.p.bodies.len()
    &&& forall|f: int| 0 <= f < sx.p.funcs.len() ==> func_ok(sx, f)
}

/// The store fits the program: every global holds a value of its type, the
/// memory is there if the module has one, there are as many tables as the
/// module has, and every table entry names a function of the program.
pub open spec fn store_ok(sx: Statics, s: StoreView) -> bool {
    &&& s.globals.len() == sx.globals.len()
    &&& forall|i: int| 0 <= i < s.globals.len() ==> (#[trigger] s.globals[i]).spec_ty() == sx.globals[i].ty
    &&& s.has_mem == (sx.mems.len() > 0)
    &&& s.tables.len() == sx.tables.len()
    &&& forall|t: int, i: int|
        0 <= t < s.tables.len() && 0 <= i < s.tables[t].len() && (#[trigger] s.tables[t][i]) is Some
            ==> s.tables[t][i]->0 < sx.p.funcs.len()
}

/// The stack holds, above `base`, values of exactly the types in `fr`, which
/// is no polymorphic stack.
pub open spec fn stack_typed(stack: Seq<Value>, base: nat, fr: Frame) -> bool {
    &&& !fr.unreachable
    &&& stack.len() == base + fr.vals.len()
    &&& forall|k: int| 0 <= k < fr.vals.len() ==> #[trigger] fr.vals[k] == Some(stack[base + k].spec_ty())
}

/// The stack ends with values of the types `ts`.
pub open spec fn carries(stack: Seq<Value>, ts: Seq<ValType>) -> bool {
    &&& stack.len() >= ts.len()
    &&& types_of(top_n(stack, ts.len())) == ts
}

/// A stack that holds exactly values of the types `ts`.
pub open spec fn exactly(ts: Seq<ValType>) -> Frame {
    Frame { vals: known(ts), unreachable: false }
}

/// The outcome of running code that was checked: no fault; a store that
/// fits; locals of their types; below `base` the stack as it was; and
/// - where execution goes on, a stack typed as the validator says, `after`;
/// - where it branches, a label that exists, and its operands on top;
/// - where it returns, the function's results on top.
pub open spec fn sound(sx: Statics, c: Cx, labels: Seq<Seq<ValType>>, base: nat, before: Config, out: Outcome, after: Frame) -> bool {
    &&& out.1 != Err::<Flow, Halt>(Halt::Fault)
    &&& store_ok(sx, out.0.store)
    &&& out.1 is Ok ==> {
        &&& types_of(out.0.locals) == c.locals
        &&& out.0.stack.len() >= base
        &&& out.0.stack.take(base as int) == before.stack.take(base as int)
    }
    &&& out.1 == Ok::<Flow, Halt>(Flow::Next) ==> stack_typed(out.0.stack, base, after)
    &&& (out.1 matches Ok(Flow::Branch(l)) ==> {
        &&& l < labels.len()
        &&& out.0.stack.len() >= base + label_at(labels, l).len()
        &&& carries(out.0.stack, label_at(labels, l))
    })
    &&& out.1 == Ok::<Flow, Halt>(Flow::Return) ==> carries(out.0.stack, c.ret)
}

/// What must hold before checked code runs.
pub open spec fn ready(sx: Statics, c: Cx, base: nat, cfg: Config, fr: Frame) -> bool {
    &&& c.types == sx.p.types
    &&& c.funcs == sx.p.funcs
    &&& c.globals == sx.globals
    &&& c.tables == sx.tables
    &&& c.mems == sx.mems
    &&& store_ok(sx, cfg.store)
    &&& types_of(cfg.locals) == c.locals
    &&& stack_typed(cfg.stack, base, fr)
}

pub proof fn lemma_pop_typed(stack: Seq<Value>, base: nat, fr: Frame)
    requires
        stack_typed(stack, base, fr),
    ensures
        fr.vals.len() == 0 ==> spec_pop(fr) is Err,
        fr.vals.len() > 0 ==> (spec_pop(fr) matches Ok((t, fr2)) && t == Some(stack.last().spec_ty())
            && stack_typed(below(stack, 1), base, fr2)),
{
    if fr.vals.len() > 0 {
        let fr2 = spec_pop(fr)->Ok_0.1;
        assert(fr.vals[fr.vals.len() - 1] == Some(stack[base + fr.vals.len() - 1].spec_ty()));
        assert forall|k: int| 0 <= k < fr2.vals.len() implies #[trigger] fr2.vals[k] == Some(
            below(stack, 1)[base + k].spec_ty(),
        ) by {
            assert(fr2.vals[k] == fr.vals[k]);
        }
    }
}

pub proof fn lemma_pop_expect_typed(stack: Seq<Value>, base: nat, fr: Frame, t: ValType)
    requires
        stack_typed(stack, base, fr),
        spec_pop_expect(fr, t) is Ok,
    ensures
        stack.len() > base,
        stack.last().spec_ty() == t,
        stack_typed(below(stack, 1), base, spec_pop_expect(fr, t)->Ok_0),
{
    lemma_pop_typed(stack, base, fr);
}

pub proof fn lemma_pop_all_typed(stack: Seq<Value>, base: nat, fr: Frame, ts: Seq<ValType>)
    requires
        stack_typed(stack, base, fr),
        spec_pop_all(fr, ts) is Ok,
    ensures
        stack.len() >= base + ts.len(),
        carries(stack, ts),
        stack_typed(below(stack, ts.len()), base, spec_pop_all(fr, ts)->Ok_0),
    decreases ts.len(),
{
    if ts.len() == 0 {
        assert(below(stack, 0) =~= stack);
        assert(types_of(top_n(stack, 0)) =~= ts);
    } else {
        lemma_pop_expect_typed(stack, base, fr, ts.last());
        let fr1 = spec_pop_expect(fr, ts.last())->Ok_0;
        lemma_pop_all_typed(below(stack, 1), base, fr1, ts.drop_last());
        assert(below(below(stack, 1), ts.drop_last().len()) =~= below(stack, ts.len()));
        assert(types_of(top_n(stack, ts.len())) =~= ts) by {
            assert forall|k: int| 0 <= k < ts.len() implies types_of(top_n(stack, ts.len()))[k] == ts[k] by {
                if k < ts.len() - 1 {
                    assert(types_of(top_n(below(stack, 1), ts.drop_last().len()))[k] == ts.drop_last()[k]);
                    assert(top_n(below(stack, 1), ts.drop_last().len())[k] == top_n(stack, ts.len())[k]);
                }
            }
        }
    }
}

pub proof fn lemma_push_typed(stack: Seq<Value>, base: nat, fr: Frame, v: Value)
    requires
        stack_typed(stack, base, fr),
    ensures
        stack_typed(stack.push(v), base, spec_push(fr, Some(v.spec_ty()))),
{
    let fr2 = spec_push(fr, Some(v.spec_ty()));
    assert forall|k: int| 0 <= k < fr2.vals.len() implies #[trigger] fr2.vals[k] == Some(
        stack.push(v)[base + k].spec_ty(),
    ) by {
        if k < fr.vals.len() {
            assert(fr2.vals[k] == fr.vals[k]);
        }
    }
}

pub proof fn lemma_push_all_typed(stack: Seq<Value>, base: nat, fr: Frame, vs: Seq<Value>)
    requires
        stack_typed(stack, base, fr),
    ensures
        stack_typed(stack + vs, base, spec_push_all(fr, types_of(vs))),
{
    let fr2 = spec_push_all(fr, types_of(vs));
    assert forall|k: int| 0 <= k < fr2.vals.len() implies #[trigger] fr2.vals[k] == Some(
        (stack + vs)[base + k].spec_ty(),
    ) by {
        if k < fr.vals.len() {
            assert(fr2.vals[k] == fr.vals[k]);
        } else {
            assert(fr2.vals[k] == known(types_of(vs))[k - fr.vals.len()]);
        }
    }
}

/// A stack whose part below `h` is typed by `fr`, and which carries values
/// of the types `ts` above `h`, is typed by `fr` with `ts` pushed.
pub proof fn lemma_rebase(stack: Seq<Value>, base: nat, h: nat, fr: Frame, ts: Seq<ValType>)
    requires
        base <= h <= stack.len(),
        stack_typed(stack.take(h as int), base, fr),
        stack_typed(stack, h, exactly(ts)),
    ensures
        stack_typed(stack, base, spec_push_all(fr, ts)),
{
    let fr2 = spec_push_all(fr, ts);
    assert forall|k: int| 0 <= k < fr2.vals.len() implies #[trigger] fr2.vals[k] == Some(
        stack[base + k].spec_ty(),
    ) by {
        if k < fr.vals.len() {
            assert(fr2.vals[k] == fr.vals[k]);
            assert(stack.take(h as int)[base + k] == stack[base + k]);
        } else {
            assert(fr2.vals[k] == exactly(ts).vals[k - fr.vals.len()]);
        }
    }
}

/// A stack that carries `ts` on top, above `h`, is typed by exactly `ts` at
/// the height below them.
pub proof fn lemma_carries_exactly(stack: Seq<Value>, ts: Seq<ValType>)
    requires
        carries(stack, ts),
    ensures
        stack_typed(stack, (stack.len() - ts.len()) as nat, exactly(ts)),
{
    let h = (stack.len() - ts.len()) as nat;
    assert forall|k: int| 0 <= k < ts.len() implies #[trigger] exactly(ts).vals[k] == Some(
        stack[h + k].spec_ty(),
    ) by {
        assert(types_of(top_n(stack, ts.len()))[k] == ts[k]);
    }
}

pub proof fn lemma_exactly_carries(stack: Seq<Value>, h: nat, ts: Seq<ValType>)
    requires
        stack_typed(stack, h, exactly(ts)),
    ensures
        carries(stack, ts),
        stack.len() == h + ts.len(),
{
    assert(types_of(top_n(stack, ts.len())) =~= ts) by {
        assert forall|k: int| 0 <= k < ts.len() implies types_of(top_n(stack, ts.len()))[k] == ts[k] by {
            assert(exactly(ts).vals[k] == Some(stack[h + k].spec_ty()));
        }
    }
}

/// The operands that `spec_apply` takes are on the stack, of their types;
/// and with them taken and `r` left, where something is left, the stack is
/// typed as `spec_apply` says.
pub proof fn lemma_apply_typed(
    stack: Seq<Value>,
    base: nat,
    fr: Frame,
    take1: Option<ValType>,
    take2: Option<ValType>,
    push: Option<ValType>,
    r: Value,
)
    requires
        stack_typed(stack, base, fr),
        spec_apply(fr, take1, take2, push) is Ok,
        take2 is Some ==> take1 is Some,
        push is Some ==> r.spec_ty() == push->0,
    ensures
        take1 is Some ==> stack.len() >= base + 1 && stack.last().spec_ty() == take1->0,
        take2 is Some ==> stack.len() >= base + 2 && stack[stack.len() - 2].spec_ty() == take2->0,
        ({
            let n: nat = if take2 is Some {
                2
            } else if take1 is Some {
                1
            } else {
                0
            };
            stack_typed(
                if push is Some {
                    below(stack, n).push(r)
                } else {
                    below(stack, n)
                },
                base,
                spec_apply(fr, take1, take2, push)->Ok_0,
            )
        }),
{
    assert(below(stack, 0) =~= stack);
    if take1 is Some {
        lemma_pop_expect_typed(stack, base, fr, take1->0);
        let fr1 = spec_pop_expect(fr, take1->0)->Ok_0;
        if take2 is Some {
            lemma_pop_expect_typed(below(stack, 1), base, fr1, take2->0);
            let fr2 = spec_pop_expect(fr1, take2->0)->Ok_0;
            assert(below(below(stack, 1), 1) =~= below(stack, 2));
            if push is Some {
                lemma_push_typed(below(stack, 2), base, fr2, r);
            }
        } else {
            if push is Some {
                lemma_push_typed(below(stack, 1), base, fr1, r);
            }
        }
    } else {
        if push is Some {
            lemma_push_typed(stack, base, fr, r);
        }
    }
}

/// The numeric instructions are sound.
pub proof fn lemma_numeric_sound(sx: Statics, c: Cx, labels: Seq<Seq<ValType>>, base: nat, cfg: Config, fr: Frame, ins: Instr)
    requires
        ready(sx, c, base, cfg, fr),
        spec_check_plain(c, labels, fr, ins) is Ok,
        ins is Const || ins is Eqz || ins is Rel || ins is Unary || ins is Binary || ins is Convert,
    ensures
        sound(sx, c, labels, base, cfg, spec_step_numeric(cfg, ins), spec_check_plain(c, labels, fr, ins)->Ok_0),
{
    let s = cfg.stack;
    let sig = spec_simple_sig(c, ins)->0->Ok_0;
    let out = spec_step_numeric(cfg, ins);
    let witness: Value = match ins {
        Instr::Const(v) => v,
        _ => if out.1 == Ok::<Flow, Halt>(Flow::Next) {
            out.0.stack.last()
        } else {
            Value::spec_zero(sig.2->0)
        },
    };
    lemma_apply_typed(s, base, fr, sig.0, sig.1, sig.2, witness);
    if out.1 is Ok {
        let n: nat = if sig.1 is Some {
            2
        } else if sig.0 is Some {
            1
        } else {
            0
        };
        assert(out.0.stack =~= below(s, n).push(witness));
        assert(out.0.stack.take(base as int) =~= s.take(base as int));
    }
}

/// The instructions on locals, globals and single operands are sound.
pub proof fn lemma_variable_sound(sx: Statics, c: Cx, labels: Seq<Seq<ValType>>, base: nat, cfg: Config, fr: Frame, ins: Instr)
    requires
        ready(sx, c, base, cfg, fr),
        spec_check_plain(c, labels, fr, ins) is Ok,
        ins is Drop || ins is Select || ins is LocalGet || ins is LocalSet || ins is LocalTee || ins is GlobalGet
            || ins is GlobalSet,
    ensures
        sound(sx, c, labels, base, cfg, spec_step_variable(cfg, ins), spec_check_plain(c, labels, fr, ins)->Ok_0),
{
    let s = cfg.stack;
    let out = spec_step_variable(cfg, ins);
    match ins {
        Instr::Drop => {
            lemma_pop_typed(s, base, fr);
        },
        Instr::Select => {
            lemma_pop_expect_typed(s, base, fr, ValType::I32);
            let fr1 = spec_pop_expect(fr, ValType::I32)->Ok_0;
            lemma_pop_typed(below(s, 1), base, fr1);
            let fr2 = spec_pop(fr1)->Ok_0.1;
            lemma_pop_typed(below(below(s, 1), 1), base, fr2);
            let fr3 = spec_pop(fr2)->Ok_0.1;
            assert(below(below(below(s, 1), 1), 1) =~= below(s, 3));
            assert(below(below(s, 1), 1).last() == s[s.len() - 3]);
            assert(below(s, 1).last() == s[s.len() - 2]);
            lemma_push_typed(below(s, 3), base, fr3, out.0.stack.last());
            assert(out.0.stack =~= below(s, 3).push(out.0.stack.last()));
        },
        Instr::LocalGet(x) => {
            assert(types_of(cfg.locals)[x as int] == c.locals[x as int]);
            lemma_apply_typed(s, base, fr, None, None, Some(c.locals[x as int]), cfg.locals[x as int]);
            assert(below(s, 0) =~= s);
        },
        Instr::LocalSet(x) => {
            lemma_apply_typed(s, base, fr, Some(c.locals[x as int]), None, None, s.last());
            assert(types_of(out.0.locals) =~= c.locals) by {
                assert forall|k: int| 0 <= k < c.locals.len() implies types_of(out.0.locals)[k] == c.locals[k] by {
                    assert(types_of(cfg.locals)[k] == c.locals[k]);
                }
            }
        },
        Instr::LocalTee(x) => {
            lemma_apply_typed(s, base, fr, Some(c.locals[x as int]), None, Some(c.locals[x as int]), s.last());
            assert(below(s, 1).push(s.last()) =~= s);
            assert(types_of(out.0.locals) =~= c.locals) by {
                assert forall|k: int| 0 <= k < c.locals.len() implies types_of(out.0.locals)[k] == c.locals[k] by {
                    assert(types_of(cfg.locals)[k] == c.locals[k]);
                }
            }
        },
        Instr::GlobalGet(x) => {
            lemma_apply_typed(s, base, fr, None, None, Some(c.globals[x as int].ty), cfg.store.globals[x as int]);
            assert(below(s, 0) =~= s);
        },
        Instr::GlobalSet(x) => {
            lemma_apply_typed(s, base, fr, Some(c.globals[x as int].ty), None, None, s.last());
        },
        _ => {},
    }
    if out.1 is Ok {
        assert(out.0.stack.take(base as int) =~= s.take(base as int));
    }
}

/// The memory instructions are sound.
pub proof fn lemma_memory_sound(sx: Statics, c: Cx, labels: Seq<Seq<ValType>>, base: nat, cfg: Config, fr: Frame, ins: Instr)
    requires
        ready(sx, c, base, cfg, fr),
        spec_check_plain(c, labels, fr, ins) is Ok,
        ins is Load || ins is Store || ins is MemorySize || ins is MemoryGrow,
    ensures
        sound(
            sx,
            c,
            labels,
            base,
            cfg,
            spec_step_memory(sx.p.mem_max, cfg, ins),
            spec_check_plain(c, labels, fr, ins)->Ok_0,
        ),
{
    let s = cfg.stack;
    let out = spec_step_memory(sx.p.mem_max, cfg, ins);
    let sig = spec_simple_sig(c, ins)->0->Ok_0;
    let witness: Value = if out.1 == Ok::<Flow, Halt>(Flow::Next) && sig.2 is Some {
        out.0.stack.last()
    } else if sig.2 is Some {
        Value::spec_zero(sig.2->0)
    } else {
        Value::I32(0)
    };
    lemma_apply_typed(s, base, fr, sig.0, sig.1, sig.2, witness);
    assert(below(s, 0) =~= s);
    if out.1 is Ok {
        assert(out.0.stack.take(base as int) =~= s.take(base as int));
        match ins {
            Instr::Load { .. } => {
                assert(out.0.stack =~= below(s, 1).push(witness));
            },
            Instr::MemorySize => {
                assert(out.0.stack =~= s.push(witness));
            },
            Instr::MemoryGrow => {
                assert(out.0.stack =~= below(s, 1).push(witness));
            },
            _ => {},
        }
    }
}

/// The instructions that pass control on are sound.
pub proof fn lemma_control_sound(sx: Statics, c: Cx, labels: Seq<Seq<ValType>>, base: nat, cfg: Config, fr: Frame, ins: Instr)
    requires
        ready(sx, c, base, cfg, fr),
        spec_check_plain(c, labels, fr, ins) is Ok,
        ins is Unreachable || ins is Nop || ins is Br || ins is BrIf || ins is BrTable || ins is Return,
    ensures
        sound(sx, c, labels, base, cfg, spec_step_control(c.code, cfg, ins), spec_check_plain(c, labels, fr, ins)->Ok_0),
{
    let s = cfg.stack;
    let out = spec_step_control(c.code, cfg, ins);
    match ins {
        Instr::Br(l) => {
            lemma_pop_all_typed(s, base, fr, label_at(labels, l));
        },
        Instr::BrIf(l) => {
            lemma_pop_expect_typed(s, base, fr, ValType::I32);
            let fr1 = spec_pop_expect(fr, ValType::I32)->Ok_0;
            let ts = label_at(labels, l);
            lemma_pop_all_typed(below(s, 1), base, fr1, ts);
            let fr2 = spec_pop_all(fr1, ts)->Ok_0;
            let rest = below(below(s, 1), ts.len());
            lemma_push_all_typed(rest, base, fr2, top_n(below(s, 1), ts.len()));
            assert(rest + top_n(below(s, 1), ts.len()) =~= below(s, 1));
            assert(out.0.stack.take(base as int) =~= s.take(base as int));
        },
        Instr::BrTable(t) => {
            lemma_pop_expect_typed(s, base, fr, ValType::I32);
            let fr1 = spec_pop_expect(fr, ValType::I32)->Ok_0;
            let table = c.code.tables[t as int];
            let i = spec_as_i32(s.last())->0;
            let l = spec_table_label(table, i);
            let k: int = if i < table.len() - 1 {
                i as int
            } else {
                table.len() - 1
            };
            lemma_table_typed(labels, below(s, 1), base, fr1, table, label_at(labels, table.last()).len(), 0, k);
            assert(out.0.stack.take(base as int) =~= s.take(base as int));
        },
        Instr::Return => {
            lemma_pop_all_typed(s, base, fr, c.ret);
        },
        _ => {},
    }
}

/// Every label of a checked `br_table` exists and finds its operands on the
/// stack.
pub proof fn lemma_table_typed(
    labels: Seq<Seq<ValType>>,
    stack: Seq<Value>,
    base: nat,
    fr: Frame,
    table: Seq<u32>,
    arity: nat,
    from: nat,
    k: int,
)
    requires
        stack_typed(stack, base, fr),
        spec_check_table(labels, fr, table, arity, from) is Ok,
        from <= k < table.len(),
    ensures
        table[k] < labels.len(),
        stack.len() >= base + label_at(labels, table[k]).len(),
        carries(stack, label_at(labels, table[k])),
    decreases table.len() - from,
{
    let ts = label_at(labels, table[from as int]);
    lemma_pop_all_typed(stack, base, fr, ts);
    if from < k {
        let fr2 = spec_pop_all(fr, ts)->Ok_0;
        lemma_push_all_typed(below(stack, ts.len()), base, fr2, top_n(stack, ts.len()));
        assert(below(stack, ts.len()) + top_n(stack, ts.len()) =~= stack);
        lemma_table_typed(labels, stack, base, spec_push_all(fr2, ts), table, arity, from + 1, k);
    }
}

/// Every instruction that holds no other instructions and calls no function
/// is sound.
pub proof fn lemma_step_sound(sx: Statics, c: Cx, labels: Seq<Seq<ValType>>, base: nat, cfg: Config, fr: Frame, ins: Instr)
    requires
        ready(sx, c, base, cfg, fr),
        spec_check_plain(c, labels, fr, ins) is Ok,
        !(ins is Call) && !(ins is CallIndirect),
    ensures
        sound(sx, c, labels, base, cfg, spec_step(sx.p.mem_max, c.code, cfg, ins), spec_check_plain(c, labels, fr, ins)->Ok_0),
{
    if ins is Const || ins is Eqz || ins is Rel || ins is Unary || ins is Binary || ins is Convert {
        lemma_numeric_sound(sx, c, labels, base, cfg, fr, ins);
    } else if ins is Drop || ins is Select || ins is LocalGet || ins is LocalSet || ins is LocalTee || ins is GlobalGet
        || ins is GlobalSet {
        lemma_variable_sound(sx, c, labels, base, cfg, fr, ins);
    } else if ins is Load || ins is Store || ins is MemorySize || ins is MemoryGrow {
        lemma_memory_sound(sx, c, labels, base, cfg, fr, ins);
    } else if ins is Unreachable || ins is Nop || ins is Br || ins is BrIf || ins is BrTable || ins is Return {
        lemma_control_sound(sx, c, labels, base, cfg, fr, ins);
    }
}

// ---------------------------------------------------------------------------
// Blocks, loops and calls
// ---------------------------------------------------------------------------

/// The instruction passed the check that `spec_check_seq` makes of it on the
/// stack `fr`.
pub open spec fn instr_checked(c: Cx, bound: nat, labels: Seq<Seq<ValType>>, fr: Frame, ins: Instr) -> bool {
    match ins {
        Instr::Block(bt, id) => {
            &&& spec_block_sig(c, bt) is Ok
            &&& id < bound && id < c.code.blocks.len()
            &&& spec_pop_all(fr, spec_block_sig(c, bt)->Ok_0.0) is Ok
            &&& spec_check_body(
                c,
                c.code.blocks[id as int],
                id as nat,
                labels.push(spec_block_sig(c, bt)->Ok_0.1),
                spec_block_sig(c, bt)->Ok_0.0,
                spec_block_sig(c, bt)->Ok_0.1,
            ) is Ok
        },
        Instr::Loop(bt, id) => {
            &&& spec_block_sig(c, bt) is Ok
            &&& id < bound && id < c.code.blocks.len()
            &&& spec_pop_all(fr, spec_block_sig(c, bt)->Ok_0.0) is Ok
            &&& spec_check_body(
                c,
                c.code.blocks[id as int],
                id as nat,
                labels.push(spec_block_sig(c, bt)->Ok_0.0),
                spec_block_sig(c, bt)->Ok_0.0,
                spec_block_sig(c, bt)->Ok_0.1,
            ) is Ok
        },
        Instr::If(bt, then_id, else_id) => {
            &&& spec_block_sig(c, bt) is Ok
            &&& then_id < bound && then_id < c.code.blocks.len()
            &&& else_id < bound && else_id < c.code.blocks.len()
            &&& spec_pop_expect(fr, ValType::I32) is Ok
            &&& spec_pop_all(spec_pop_expect(fr, ValType::I32)->Ok_0, spec_block_sig(c, bt)->Ok_0.0) is Ok
            &&& spec_check_body(
                c,
                c.code.blocks[then_id as int],
                then_id as nat,
                labels.push(spec_block_sig(c, bt)->Ok_0.1),
                spec_block_sig(c, bt)->Ok_0.0,
                spec_block_sig(c, bt)->Ok_0.1,
            ) is Ok
            &&& spec_check_body(
                c,
                c.code.blocks[else_id as int],
                else_id as nat,
                labels.push(spec_block_sig(c, bt)->Ok_0.1),
                spec_block_sig(c, bt)->Ok_0.0,
                spec_block_sig(c, bt)->Ok_0.1,
            ) is Ok
        },
        _ => spec_check_plain(c, labels, fr, ins) is Ok,
    }
}

/// The stack that `spec_check_seq` goes on with behind the instruction.
pub open spec fn after_instr(c: Cx, labels: Seq<Seq<ValType>>, fr: Frame, ins: Instr) -> Frame {
    match ins {
        Instr::Block(bt, _) | Instr::Loop(bt, _) => spec_push_all(
            spec_pop_all(fr, spec_block_sig(c, bt)->Ok_0.0)->Ok_0,
            spec_block_sig(c, bt)->Ok_0.1,
        ),
        Instr::If(bt, _, _) => spec_push_all(
            spec_pop_all(spec_pop_expect(fr, ValType::I32)->Ok_0, spec_block_sig(c, bt)->Ok_0.0)->Ok_0,
            spec_block_sig(c, bt)->Ok_0.1,
        ),
        _ => spec_check_plain(c, labels, fr, ins)->Ok_0,
    }
}

/// A checked sequence is a checked instruction and a checked rest.
pub proof fn lemma_check_seq_unfolds(c: Cx, instrs: Seq<Instr>, bound: nat, i: nat, labels: Seq<Seq<ValType>>, fr: Frame)
    requires
        i < instrs.len(),
        spec_check_seq(c, instrs, bound, i, labels, fr) is Ok,
    ensures
        instr_checked(c, bound, labels, fr, instrs[i as int]),
        spec_check_seq(c, instrs, bound, i, labels, fr) == spec_check_seq(
            c,
            instrs,
            bound,
            i + 1,
            labels,
            after_instr(c, labels, fr, instrs[i as int]),
        ),
{
}

/// Two stacks that agree below `h` agree below any lower height.
pub proof fn lemma_take_take(a: Seq<Value>, b: Seq<Value>, h: nat, base: nat)
    requires
        base <= h <= a.len(),
        h <= b.len(),
        a.take(h as int) == b.take(h as int),
    ensures
        a.take(base as int) == b.take(base as int),
{
    assert(a.take(base as int) =~= a.take(h as int).take(base as int));
    assert(b.take(base as int) =~= b.take(h as int).take(base as int));
}

/// The outcome of a block from the outcome of its body: a branch to the
/// block's own label, which carries `lt`, ends the block where `lt` is what
/// the block leaves.
pub proof fn lemma_exit_sound(
    sx: Statics,
    c: Cx,
    labels: Seq<Seq<ValType>>,
    lt: Seq<ValType>,
    h: nat,
    cfg: Config,
    inner: Outcome,
)
    requires
        sound(sx, c, labels.push(lt), h, cfg, inner, exactly(lt)),
    ensures
        sound(sx, c, labels, h, cfg, spec_exit(inner, h, lt.len()), exactly(lt)),
{
    let out = spec_exit(inner, h, lt.len());
    match inner.1 {
        Ok(Flow::Branch(l)) => {
            if l == 0 {
                assert(label_at(labels.push(lt), 0) == lt);
                let st = inner.0.stack;
                let un = unwound(st, h, lt.len());
                assert(un.take(h as int) =~= st.take(h as int));
                assert(top_n(un, lt.len()) =~= top_n(st, lt.len()));
                lemma_carries_exactly(un, lt);
            } else {
                assert(label_at(labels.push(lt), l) == label_at(labels, (l - 1) as u32));
            }
        },
        _ => {},
    }
}

/// An outcome that is sound above `h` is sound above a lower `base`, where
/// the stack between the two was typed by `fr` and what the code left is
/// pushed on it.
pub proof fn lemma_rebase_sound(
    sx: Statics,
    c: Cx,
    labels: Seq<Seq<ValType>>,
    base: nat,
    h: nat,
    cfg: Config,
    inner_cfg: Config,
    out: Outcome,
    fr: Frame,
    ts: Seq<ValType>,
)
    requires
        sound(sx, c, labels, h, inner_cfg, out, exactly(ts)),
        base <= h <= inner_cfg.stack.len(),
        h <= cfg.stack.len(),
        inner_cfg.stack.take(h as int) == cfg.stack.take(h as int),
        stack_typed(cfg.stack.take(h as int), base, fr),
    ensures
        sound(sx, c, labels, base, cfg, out, spec_push_all(fr, ts)),
{
    if out.1 is Ok {
        lemma_take_take(out.0.stack, inner_cfg.stack, h, base);
        lemma_take_take(inner_cfg.stack, cfg.stack, h, base);
        if out.1 == Ok::<Flow, Halt>(Flow::Next) {
            lemma_rebase(out.0.stack, base, h, fr, ts);
        }
    }
}

/// A checked sequence is sound.
pub proof fn lemma_seq_sound(
    sx: Statics,
    c: Cx,
    depth: nat,
    limit: nat,
    instrs: Seq<Instr>,
    bound: nat,
    i: nat,
    labels: Seq<Seq<ValType>>,
    base: nat,
    cfg: Config,
    fr: Frame,
)
    requires
        program_ok(sx),
        ready(sx, c, base, cfg, fr),
        spec_check_seq(c, instrs, bound, i, labels, fr) is Ok,
    ensures
        sound(
            sx,
            c,
            labels,
            base,
            cfg,
            spec_run_seq(sx.p, depth, limit, c.code, instrs, bound, i, cfg),
            spec_check_seq(c, instrs, bound, i, labels, fr)->Ok_0,
        ),
    decreases depth, 1nat, 2 * bound, instrs.len() - i,
{
    if i < instrs.len() {
        let ins = instrs[i as int];
        lemma_check_seq_unfolds(c, instrs, bound, i, labels, fr);
        let fr2 = after_instr(c, labels, fr, ins);
        let out = spec_run_instr(sx.p, depth, limit, c.code, bound, cfg, ins);
        lemma_instr_sound(sx, c, depth, limit, bound, labels, base, cfg, fr, ins);
        if out.1 == Ok::<Flow, Halt>(Flow::Next) {
            lemma_seq_sound(sx, c, depth, limit, instrs, bound, i + 1, labels, base, out.0, fr2);
        }
    } else {
        assert(cfg.stack.take(base as int) =~= cfg.stack.take(base as int));
    }
}

/// A checked body is sound: started on exactly its parameters, it leaves
/// exactly its results.
pub proof fn lemma_body_sound(
    sx: Statics,
    c: Cx,
    depth: nat,
    limit: nat,
    instrs: Seq<Instr>,
    bound: nat,
    labels: Seq<Seq<ValType>>,
    h: nat,
    cfg: Config,
    params: Seq<ValType>,
    results: Seq<ValType>,
)
    requires
        program_ok(sx),
        ready(sx, c, h, cfg, exactly(params)),
        spec_check_body(c, instrs, bound, labels, params, results) is Ok,
    ensures
        sound(
            sx,
            c,
            labels,
            h,
            cfg,
            spec_run_seq(sx.p, depth, limit, c.code, instrs, bound, 0, cfg),
            exactly(results),
        ),
    decreases depth, 1nat, 2 * bound, instrs.len() + 1,
{
    let st = spec_check_seq(c, instrs, bound, 0, labels, exactly(params))->Ok_0;
    lemma_seq_sound(sx, c, depth, limit, instrs, bound, 0, labels, h, cfg, exactly(params));
    let out = spec_run_seq(sx.p, depth, limit, c.code, instrs, bound, 0, cfg);
    if out.1 == Ok::<Flow, Halt>(Flow::Next) {
        lemma_pop_all_typed(out.0.stack, h, st, results);
        lemma_carries_exactly(out.0.stack, results);
    }
}

/// A checked loop is sound.
pub proof fn lemma_loop_sound(
    sx: Statics,
    c: Cx,
    depth: nat,
    limit: nat,
    id: nat,
    labels: Seq<Seq<ValType>>,
    h: nat,
    iters: nat,
    cfg: Config,
    params: Seq<ValType>,
    results: Seq<ValType>,
)
    requires
        program_ok(sx),
        id < c.code.blocks.len(),
        ready(sx, c, h, cfg, exactly(params)),
        spec_check_body(c, c.code.blocks[id as int], id, labels.push(params), params, results) is Ok,
    ensures
        sound(
            sx,
            c,
            labels,
            h,
            cfg,
            spec_run_loop(sx.p, depth, limit, c.code, id, params.len(), h, iters, cfg),
            exactly(results),
        ),
    decreases depth, 1nat, 2 * id + 1, iters,
{
    let inner = spec_run_seq(sx.p, depth, limit, c.code, c.code.blocks[id as int], id, 0, cfg);
    lemma_body_sound(sx, c, depth, limit, c.code.blocks[id as int], id, labels.push(params), h, cfg, params, results);
    match inner.1 {
        Ok(Flow::Branch(l)) => {
            if l == 0 {
                assert(label_at(labels.push(params), 0) == params);
                if iters > 0 {
                    let st = inner.0.stack;
                    let un = unwound(st, h, params.len());
                    assert(un.take(h as int) =~= st.take(h as int));
                    assert(top_n(un, params.len()) =~= top_n(st, params.len()));
                    lemma_carries_exactly(un, params);
                    let cfg2 = with_stack(inner.0, un);
                    lemma_loop_sound(sx, c, depth, limit, id, labels, h, (iters - 1) as nat, cfg2, params, results);
                }
            } else {
                assert(label_at(labels.push(params), l) == label_at(labels, (l - 1) as u32));
            }
        },
        _ => {},
    }
}

/// A call of a function of the program, with its arguments on the stack, is
/// sound.
pub proof fn lemma_call_sound(
    sx: Statics,
    c: Cx,
    depth: nat,
    limit: nat,
    f: nat,
    labels: Seq<Seq<ValType>>,
    base: nat,
    cfg: Config,
    fr1: Frame,
)
    requires
        program_ok(sx),
        f < sx.p.funcs.len(),
        store_ok(sx, cfg.store),
        types_of(cfg.locals) == c.locals,
        carries(cfg.stack, sx.p.types[sx.p.funcs[f as int] as int].params),
        cfg.stack.len() >= base + sx.p.types[sx.p.funcs[f as int] as int].params.len(),
        stack_typed(below(cfg.stack, sx.p.types[sx.p.funcs[f as int] as int].params.len()), base, fr1),
    ensures
        sound(
            sx,
            c,
            labels,
            base,
            cfg,
            spec_call(sx.p, depth, limit, f, cfg),
            spec_push_all(fr1, sx.p.types[sx.p.funcs[f as int] as int].results),
        ),
    decreases depth, 0nat, 0nat, 0nat,
{
    assert(func_ok(sx, f as int));
    let ty = sx.p.types[sx.p.funcs[f as int] as int];
    let np = ty.params.len();
    if depth > 0 {
        let args = top_n(cfg.stack, np);
        lemma_func_sound(sx, (depth - 1) as nat, limit, f, args, cfg.store);
        let (store, r) = spec_run_func(sx.p, (depth - 1) as nat, limit, f, args, cfg.store);
        if r is Ok {
            let results = r->Ok_0;
            lemma_push_all_typed(below(cfg.stack, np), base, fr1, results);
            assert((below(cfg.stack, np) + results).take(base as int) =~= cfg.stack.take(base as int));
        }
    }
}

/// Running a function of the program on arguments of its parameter types
/// is sound: it does not fault, it leaves a store that fits, and its results
/// are of its result types.
pub proof fn lemma_func_sound(sx: Statics, depth: nat, limit: nat, f: nat, args: Seq<Value>, store: StoreView)
    requires
        program_ok(sx),
        f < sx.p.funcs.len(),
        store_ok(sx, store),
        types_of(args) == sx.p.types[sx.p.funcs[f as int] as int].params,
    ensures
        spec_run_func(sx.p, depth, limit, f, args, store).1 != Err::<Seq<Value>, Halt>(Halt::Fault),
        store_ok(sx, spec_run_func(sx.p, depth, limit, f, args, store).0),
        spec_run_func(sx.p, depth, limit, f, args, store).1 matches Ok(v) ==> types_of(v)
            == sx.p.types[sx.p.funcs[f as int] as int].results,
    decreases depth, 2nat, 0nat, 0nat,
{
    assert(func_ok(sx, f as int));
    let c = cx_of(sx, f as int);
    let body = sx.p.bodies[f as int];
    let ty = sx.p.types[sx.p.funcs[f as int] as int];
    let cfg0 = Config { stack: Seq::empty(), locals: args + spec_zero_locals(body.locals), store };
    assert(types_of(cfg0.locals) =~= c.locals) by {
        assert forall|k: int| 0 <= k < c.locals.len() implies types_of(cfg0.locals)[k] == c.locals[k] by {
            if k < args.len() {
                assert(types_of(args)[k] == ty.params[k]);
            }
        }
    }
    assert(exactly(Seq::<ValType>::empty()).vals =~= Seq::empty());
    lemma_body_sound(
        sx,
        c,
        depth,
        limit,
        body.expr.body,
        body.expr.code.blocks.len(),
        Seq::empty().push(ty.results),
        0,
        cfg0,
        Seq::empty(),
        ty.results,
    );
    let out = spec_run_seq(sx.p, depth, limit, body.expr.code, body.expr.body, body.expr.code.blocks.len(), 0, cfg0);
    match out.1 {
        Ok(Flow::Next) => {
            lemma_exactly_carries(out.0.stack, 0, ty.results);
        },
        Ok(Flow::Branch(l)) => {
            assert(label_at(Seq::<Seq<ValType>>::empty().push(ty.results), 0) == ty.results);
        },
        _ => {},
    }
}

/// A checked instruction is sound.
pub proof fn lemma_instr_sound(
    sx: Statics,
    c: Cx,
    depth: nat,
    limit: nat,
    bound: nat,
    labels: Seq<Seq<ValType>>,
    base: nat,
    cfg: Config,
    fr: Frame,
    ins: Instr,
)
    requires
        program_ok(sx),
        ready(sx, c, base, cfg, fr),
        instr_checked(c, bound, labels, fr, ins),
    ensures
        sound(
            sx,
            c,
            labels,
            base,
            cfg,
            spec_run_instr(sx.p, depth, limit, c.code, bound, cfg, ins),
            after_instr(c, labels, fr, ins),
        ),
    decreases depth, 1nat, 2 * bound, 0nat,
{
    let s = cfg.stack;
    match ins {
        Instr::Block(bt, id) => {
            let params = spec_block_sig(c, bt)->Ok_0.0;
            let results = spec_block_sig(c, bt)->Ok_0.1;
            let fr1 = spec_pop_all(fr, params)->Ok_0;
            lemma_pop_all_typed(s, base, fr, params);
            lemma_carries_exactly(s, params);
            let h = (s.len() - params.len()) as nat;
            assert(below(s, params.len()) =~= s.take(h as int));
            if depth > 0 {
                let d = (depth - 1) as nat;
                lemma_body_sound(
                    sx,
                    c,
                    d,
                    limit,
                    c.code.blocks[id as int],
                    id as nat,
                    labels.push(results),
                    h,
                    cfg,
                    params,
                    results,
                );
                let inner = spec_run_seq(sx.p, d, limit, c.code, c.code.blocks[id as int], id as nat, 0, cfg);
                lemma_exit_sound(sx, c, labels, results, h, cfg, inner);
                lemma_rebase_sound(sx, c, labels, base, h, cfg, cfg, spec_exit(inner, h, results.len()), fr1, results);
            }
        },
        Instr::Loop(bt, id) => {
            let params = spec_block_sig(c, bt)->Ok_0.0;
            let results = spec_block_sig(c, bt)->Ok_0.1;
            let fr1 = spec_pop_all(fr, params)->Ok_0;
            lemma_pop_all_typed(s, base, fr, params);
            lemma_carries_exactly(s, params);
            let h = (s.len() - params.len()) as nat;
            assert(below(s, params.len()) =~= s.take(h as int));
            if depth > 0 {
                let d = (depth - 1) as nat;
                lemma_loop_sound(sx, c, d, limit, id as nat, labels, h, limit, cfg, params, results);
                let out = spec_run_loop(sx.p, d, limit, c.code, id as nat, params.len(), h, limit, cfg);
                lemma_rebase_sound(sx, c, labels, base, h, cfg, cfg, out, fr1, results);
            }
        },
        Instr::If(bt, then_id, else_id) => {
            let params = spec_block_sig(c, bt)->Ok_0.0;
            let results = spec_block_sig(c, bt)->Ok_0.1;
            let fr0 = spec_pop_expect(fr, ValType::I32)->Ok_0;
            let fr1 = spec_pop_all(fr0, params)->Ok_0;
            lemma_pop_expect_typed(s, base, fr, ValType::I32);
            let s1 = below(s, 1);
            lemma_pop_all_typed(s1, base, fr0, params);
            lemma_carries_exactly(s1, params);
            let h = (s1.len() - params.len()) as nat;
            assert(below(s1, params.len()) =~= s1.take(h as int));
            assert(s1.take(h as int) =~= s.take(h as int));
            let cond = spec_as_i32(s.last())->0;
            let id = if cond != 0 {
                then_id
            } else {
                else_id
            };
            let cfg1 = with_stack(cfg, s1);
            if depth > 0 {
                let d = (depth - 1) as nat;
                lemma_body_sound(
                    sx,
                    c,
                    d,
                    limit,
                    c.code.blocks[id as int],
                    id as nat,
                    labels.push(results),
                    h,
                    cfg1,
                    params,
                    results,
                );
                let inner = spec_run_seq(sx.p, d, limit, c.code, c.code.blocks[id as int], id as nat, 0, cfg1);
                lemma_exit_sound(sx, c, labels, results, h, cfg1, inner);
                lemma_rebase_sound(sx, c, labels, base, h, cfg, cfg1, spec_exit(inner, h, results.len()), fr1, results);
            }
        },
        Instr::Call(f) => {
            let ty = sx.p.types[sx.p.funcs[f as int] as int];
            lemma_pop_all_typed(s, base, fr, ty.params);
            lemma_call_sound(sx, c, depth, limit, f as nat, labels, base, cfg, spec_pop_all(fr, ty.params)->Ok_0);
        },
        Instr::CallIndirect(x, t) => {
            let ty = sx.p.types[x as int];
            let fr0 = spec_pop_expect(fr, ValType::I32)->Ok_0;
            lemma_pop_expect_typed(s, base, fr, ValType::I32);
            let s1 = below(s, 1);
            lemma_pop_all_typed(s1, base, fr0, ty.params);
            match spec_resolve(sx.p, cfg, x, t) {
                Ok(f) => {
                    let i = spec_as_i32(s.last())->0;
                    assert(cfg.store.tables[t as int][i as int] is Some);
                    assert(func_ok(sx, f as int));
                    let cfg1 = with_stack(cfg, s1);
                    lemma_call_sound(sx, c, depth, limit, f, labels, base, cfg1, spec_pop_all(fr0, ty.params)->Ok_0);
                    let out = spec_call(sx.p, depth, limit, f, cfg1);
                    if out.1 is Ok {
                        assert(s1.take(base as int) =~= s.take(base as int));
                    }
                },
                Err(h) => {
                    let i = spec_as_i32(s.last())->0;
                    if i < cfg.store.tables[t as int].len() && cfg.store.tables[t as int][i as int] is Some {
                        let f = cfg.store.tables[t as int][i as int]->0;
                        assert(func_ok(sx, f as int));
                    }
                },
            }
        },
        _ => {
            lemma_step_sound(sx, c, labels, base, cfg, fr, ins);
        },
    }
}

// ---------------------------------------------------------------------------
// From validation to instances
// ---------------------------------------------------------------------------

/// What the program of a validated module was validated against.
pub open spec fn statics_of(v: ValidatedView) -> Statics {
    let env = spec_env(v.module);
    Statics { p: program_of(v), globals: env.globals, tables: env.tables, mems: env.mems }
}

/// The state of an instance is sound: the module imports no functions, all
/// its functions are well typed, and the store fits it.
pub open spec fn instance_ok(v: ValidatedView, s: StoreView) -> bool {
    &&& program_ok(statics_of(v))
    &&& store_ok(statics_of(v), s)
}

proof fn lemma_import_env_counts(imports: Seq<Import>, n: nat)
    ensures
        spec_import_env(imports, n).funcs.len() == spec_import_env(imports, n).imported_funcs,
        spec_import_env(imports, n).globals.len() == spec_import_env(imports, n).imported_globals,
        spec_import_env(imports, n).tables.len() == spec_import_env(imports, n).imported_tables,
        spec_import_env(imports, n).mems.len() == spec_import_env(imports, n).imported_mems,
    decreases n,
{
    if n > 0 {
        lemma_import_env_counts(imports, (n - 1) as nat);
    }
}

proof fn lemma_bodies_checked(bytes: Seq<u8>, m: ModuleView, env: EnvView, i: nat, acc: Seq<FuncBodyView>)
    requires
        spec_bodies(bytes, m, env, i, acc) is Ok,
        m.functions.len() == m.code.len(),
        i <= m.code.len(),
    ensures
        ({
            let bs = spec_bodies(bytes, m, env, i, acc)->Ok_0;
            &&& bs.len() == acc.len() + m.code.len() - i
            &&& forall|k: int| 0 <= k < acc.len() ==> bs[k] == acc[k]
            &&& forall|j: int|
                i <= j < m.code.len() ==> m.functions[j] < m.types.len() && spec_check_func(
                    m.types,
                    env,
                    m.types[m.functions[j] as int],
                    #[trigger] bs[acc.len() + j - i],
                ) is Ok
        }),
    decreases m.code.len() - i,
{
    if i < m.code.len() {
        let b = spec_func_body(bytes, m.code[i as int])->Ok_0;
        lemma_bodies_checked(bytes, m, env, i + 1, acc.push(b));
        let bs = spec_bodies(bytes, m, env, i, acc)->Ok_0;
        assert(bs[acc.len() as int] == acc.push(b)[acc.len() as int]);
        assert forall|k: int| 0 <= k < acc.len() implies bs[k] == acc[k] by {
            assert(acc.push(b)[k] == acc[k]);
        }
        assert forall|j: int| i <= j < m.code.len() implies m.functions[j] < m.types.len() && spec_check_func(
            m.types,
            env,
            m.types[m.functions[j] as int],
            #[trigger] bs[acc.len() + j - i],
        ) is Ok by {
            if j > i {
                assert(bs[acc.push(b).len() + j - (i + 1)] == bs[acc.len() + j - i]);
            }
        }
    }
}

/// A validated module has one body for each function that it declares.
pub proof fn lemma_validated_counts(bytes: Seq<u8>, v: ValidatedView)
    requires
        spec_validate(bytes) == Ok::<ValidatedView, Error>(v),
    ensures
        v.wasm == bytes,
        v.bodies.len() == v.module.functions.len(),
        v.module.code.len() == v.module.functions.len(),
{
    lemma_bodies_checked(bytes, v.module, spec_env(v.module), 0, Seq::empty());
}

/// The functions of a validated module that imports no functions are all
/// well typed.
pub proof fn lemma_validated_program_ok(bytes: Seq<u8>, v: ValidatedView)
    requires
        spec_validate(bytes) == Ok::<ValidatedView, Error>(v),
        spec_env(v.module).imported_funcs == 0,
    ensures
        program_ok(statics_of(v)),
{
    let m = v.module;
    let env = spec_env(m);
    let sx = statics_of(v);
    lemma_import_env_counts(m.imports, m.imports.len());
    assert(env.funcs =~= m.functions);
    lemma_bodies_checked(bytes, m, env, 0, Seq::empty());
    assert forall|f: int| 0 <= f < sx.p.funcs.len() implies func_ok(sx, f) by {
        assert(v.bodies[0 + f - 0] == v.bodies[f]);
        assert(cx_of(sx, f) == func_cx(m.types, env, m.types[m.functions[f] as int], v.bodies[f]));
    }
}

/// The imported values are of the types of the imported globals.
pub open spec fn imports_typed(env: EnvView, imported: Seq<Value>) -> bool {
    &&& imported.len() == env.imported_globals
    &&& imported.len() <= env.globals.len()
    &&& forall|i: int| 0 <= i < imported.len() ==> (#[trigger] imported[i]).spec_ty() == env.globals[i].ty
}

/// A checked constant expression evaluates to a value of its type, if it
/// evaluates to a value.
pub proof fn lemma_const_typed(types: Seq<FuncTypeView>, env: EnvView, e: crate::instr::ExprView, t: ValType, imported: Seq<Value>)
    requires
        spec_check_const(types, env, e, t) is Ok,
        imports_typed(env, imported),
    ensures
        spec_eval_const(types, e, imported) matches Some(v) ==> v.spec_ty() == t,
{
    let sx = Statics {
        p: const_program(types),
        globals: env.globals.take(env.imported_globals as int),
        tables: Seq::empty(),
        mems: Seq::empty(),
    };
    let c = const_cx(types, env, e.code, t);
    let cfg0 = Config { stack: Seq::empty(), locals: Seq::empty(), store: const_store(imported) };
    assert(types_of(cfg0.locals) =~= c.locals);
    assert(exactly(Seq::<ValType>::empty()).vals =~= Seq::empty());
    lemma_body_sound(
        sx,
        c,
        0,
        0,
        e.body,
        e.code.blocks.len(),
        Seq::empty().push(seq![t]),
        0,
        cfg0,
        Seq::empty(),
        seq![t],
    );
    let out = spec_run_seq(sx.p, 0, 0, e.code, e.body, e.code.blocks.len(), 0, cfg0);
    if out.1 == Ok::<Flow, Halt>(Flow::Next) {
        assert(exactly(seq![t]).vals[0] == Some(out.0.stack[0].spec_ty()));
    }
}

proof fn lemma_globals_typed(
    types: Seq<FuncTypeView>,
    env: EnvView,
    gs: Seq<GlobalView>,
    imported: Seq<Value>,
    i: nat,
    acc: Seq<Value>,
)
    requires
        imports_typed(env, imported),
        env.globals == env.globals.take(env.imported_globals as int) + global_types(gs),
        spec_check_globals(types, env, gs, i) is Ok,
        spec_init_globals(types, gs, imported, i, acc) is Ok,
        i <= gs.len(),
        acc.len() == imported.len() + i,
        forall|k: int| 0 <= k < acc.len() ==> (#[trigger] acc[k]).spec_ty() == env.globals[k].ty,
    ensures
        ({
            let r = spec_init_globals(types, gs, imported, i, acc)->Ok_0;
            &&& r.len() == env.globals.len()
            &&& forall|k: int| 0 <= k < r.len() ==> (#[trigger] r[k]).spec_ty() == env.globals[k].ty
        }),
    decreases gs.len() - i,
{
    if i < gs.len() {
        lemma_const_typed(types, env, gs[i as int].init, gs[i as int].ty.ty, imported);
        let v = spec_eval_const(types, gs[i as int].init, imported)->0;
        let acc2 = acc.push(v);
        assert(env.globals[acc.len() as int] == global_types(gs)[i as int]);
        assert forall|k: int| 0 <= k < acc2.len() implies (#[trigger] acc2[k]).spec_ty() == env.globals[k].ty by {
            if k < acc.len() {
                assert(acc2[k] == acc[k]);
            }
        }
        lemma_globals_typed(types, env, gs, imported, i + 1, acc2);
    }
}

/// Every entry of every table names a function below `n`, or is empty.
pub open spec fn tables_ok(tables: Seq<Seq<Option<u32>>>, n: nat) -> bool {
    forall|t: int, i: int|
        0 <= t < tables.len() && 0 <= i < tables[t].len() && (#[trigger] tables[t][i]) is Some
            ==> tables[t][i]->0 < n
}

proof fn lemma_write_funcs_ok(table: Seq<Option<u32>>, at: int, funcs: Seq<u32>, k: nat, n: nat)
    requires
        0 <= at,
        at + funcs.len() <= table.len(),
        k <= funcs.len(),
        forall|i: int| 0 <= i < table.len() && (#[trigger] table[i]) is Some ==> table[i]->0 < n,
        forall|i: int| 0 <= i < funcs.len() ==> #[trigger] funcs[i] < n,
    ensures
        spec_write_funcs(table, at, funcs, k).len() == table.len(),
        forall|i: int|
            0 <= i < table.len() && (#[trigger] spec_write_funcs(table, at, funcs, k)[i]) is Some
                ==> spec_write_funcs(table, at, funcs, k)[i]->0 < n,
    decreases funcs.len() - k,
{
    if k < funcs.len() {
        let t2 = table.update(at + k, Some(funcs[k as int]));
        assert forall|i: int| 0 <= i < t2.len() && (#[trigger] t2[i]) is Some implies t2[i]->0 < n by {
            if i != at + k {
                assert(t2[i] == table[i]);
            }
        }
        lemma_write_funcs_ok(t2, at, funcs, k + 1, n);
    }
}

proof fn lemma_elements_ok(
    types: Seq<FuncTypeView>,
    env: EnvView,
    tables: Seq<Seq<Option<u32>>>,
    els: Seq<ElementView>,
    imported: Seq<Value>,
    i: nat,
)
    requires
        tables_ok(tables, env.funcs.len()),
        spec_check_elements(types, env, els, i) is Ok,
        spec_apply_elements(types, tables, els, imported, i) is Ok,
    ensures
        spec_apply_elements(types, tables, els, imported, i)->Ok_0.len() == tables.len(),
        tables_ok(spec_apply_elements(types, tables, els, imported, i)->Ok_0, env.funcs.len()),
    decreases els.len() - i,
{
    if i < els.len() {
        let el = els[i as int];
        let t2 = spec_apply_element(types, tables, el, imported)->Ok_0;
        match el.mode {
            SegmentModeView::Passive => {},
            SegmentModeView::Active { index, offset } => {
                let o = crate::instance::spec_offset(types, offset, imported)->0;
                let old_table = tables[index as int];
                assert forall|k: int| 0 <= k < old_table.len() && (#[trigger] old_table[k]) is Some implies old_table[k]->0
                    < env.funcs.len() by {
                    assert(tables[index as int][k] is Some);
                }
                lemma_write_funcs_ok(old_table, o as int, el.funcs, 0, env.funcs.len());
                let new_table = spec_write_funcs(old_table, o as int, el.funcs, 0);
                assert forall|t: int, k: int|
                    0 <= t < t2.len() && 0 <= k < t2[t].len() && (#[trigger] t2[t][k]) is Some implies t2[t][k]->0
                    < env.funcs.len() by {
                    if t == index {
                        assert(new_table[k] is Some);
                    } else {
                        assert(tables[t][k] is Some);
                    }
                }
            },
        }
        lemma_elements_ok(types, env, t2, els, imported, i + 1);
    }
}

/// The store that instantiation sets up for a validated module fits the
/// module.
pub proof fn lemma_init_store_ok(bytes: Seq<u8>, v: ValidatedView, imported: Seq<Value>)
    requires
        spec_validate(bytes) == Ok::<ValidatedView, Error>(v),
        spec_init_store(v, imported) is Ok,
    ensures
        instance_ok(v, spec_init_store(v, imported)->Ok_0),
{
    let m = v.module;
    let env = spec_env(m);
    let sx = statics_of(v);
    let store = spec_init_store(v, imported)->Ok_0;
    lemma_validated_program_ok(bytes, v);
    lemma_import_env_counts(m.imports, m.imports.len());
    let e = spec_import_env(m.imports, m.imports.len());
    assert(env.globals.take(env.imported_globals as int) =~= e.globals);
    assert(env.tables =~= m.tables);
    lemma_globals_typed(m.types, env, m.globals, imported, 0, imported);
    let tables0 = spec_init_tables(env.tables);
    assert(tables_ok(tables0, env.funcs.len()));
    lemma_elements_ok(m.types, env, tables0, m.elements, imported, 0);
}

/// Instantiating a validated module gives a sound instance: the start
/// function, if there is one, does not fault, and the store that it leaves
/// fits the module.
pub proof fn lemma_instantiation_is_sound(bytes: Seq<u8>, v: ValidatedView, imported: Seq<Value>, budget: Budget)
    requires
        spec_validate(bytes) == Ok::<ValidatedView, Error>(v),
    ensures
        spec_init_store(v, imported) is Ok ==> spec_instantiate(v, imported, budget) != Err::<StoreView, Error>(
            Error::MalformedCode,
        ),
        spec_instantiate(v, imported, budget) matches Ok(s) ==> instance_ok(v, s),
{
    if spec_init_store(v, imported) is Ok {
        let store = spec_init_store(v, imported)->Ok_0;
        lemma_init_store_ok(bytes, v, imported);
        let sx = statics_of(v);
        if v.module.start is Some {
            let f = v.module.start->0;
            assert(func_ok(sx, f as int));
            assert(types_of(Seq::<Value>::empty()) =~= sx.p.types[sx.p.funcs[f as int] as int].params);
            lemma_func_sound(sx, budget.call_depth as nat, budget.loop_iterations as nat, f as nat, Seq::empty(), store);
        }
    }
}

/// Validation is sound: a call into a sound instance never faults. It
/// returns values of exactly the result types of the function, or it traps,
/// or it fails at the boundary; and it leaves the instance sound.
pub proof fn lemma_invocation_is_sound(v: ValidatedView, s: StoreView, func_idx: nat, args: Seq<Value>, budget: Budget)
    requires
        instance_ok(v, s),
    ensures
        spec_invoke(program_of(v), s, func_idx, args, budget).1 != Err::<Seq<Value>, InvokeError>(
            InvokeError::Fault,
        ),
        instance_ok(v, spec_invoke(program_of(v), s, func_idx, args, budget).0),
        spec_invoke(program_of(v), s, func_idx, args, budget).1 matches Ok(results) ==> {
            &&& func_idx < program_of(v).funcs.len()
            &&& types_of(results) == program_of(v).types[program_of(v).funcs[func_idx as int] as int].results
        },
{
    let sx = statics_of(v);
    let p = program_of(v);
    if func_idx < p.funcs.len() && p.funcs[func_idx as int] < p.types.len() && types_of(args)
        == p.types[p.funcs[func_idx as int] as int].params {
        lemma_func_sound(sx, budget.call_depth as nat, budget.loop_iterations as nat, func_idx, args, s);
    }
}

} // verus!
