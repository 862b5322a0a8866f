//! What holds of the pipeline as a whole, stated over the specification
//! functions that the contracts of `validate`, `RuntimeInstance::instantiate`
//! and `RuntimeInstance::invoke_func` use.

use vstd::prelude::*;
use crate::error::Error;
use crate::execution::{Budget, Config, Flow, Halt, StoreView, spec_step};
use crate::instance::{InvokeError, RuntimeInstance, spec_instantiate, spec_invoke};
use crate::instr::{CodeView, Instr, MemArg};
use crate::memory::spec_width_ok;
use crate::module::{ModuleView, spec_module};
use crate::numeric::Trap;
use crate::types::{ValType, Value, types_of};
use crate::validation::{FuncBodyView, ValidatedView, spec_bodies, spec_check_func, spec_check_module,
    spec_env, spec_func_body, spec_validate};

verus! {

/// Function `i` of the module has a body that does not decode, or that is
/// not well typed: an operand is missing or of the wrong type, a block is
/// left open or leaves a wrong stack, an index names nothing.
pub open spec fn function_is_invalid(bytes: Seq<u8>, m: ModuleView, i: int) -> bool {
    &&& 0 <= i < m.code.len()
    &&& i < m.functions.len()
    &&& {
        ||| spec_func_body(bytes, m.code[i]) is Err
        ||| m.functions[i] >= m.types.len()
        ||| spec_check_func(
            m.types,
            spec_env(m),
            m.types[m.functions[i] as int],
            spec_func_body(bytes, m.code[i])->Ok_0,
        ) is Err
    }
}

proof fn lemma_bodies_reject(bytes: Seq<u8>, m: ModuleView, i: int, k: nat, acc: Seq<FuncBodyView>)
    requires
        function_is_invalid(bytes, m, i),
        k <= i,
    ensures
        spec_bodies(bytes, m, spec_env(m), k, acc) is Err,
    decreases i - k,
{
    if k < i {
        let r = spec_func_body(bytes, m.code[k as int]);
        if r is Ok && m.functions[k as int] < m.types.len() && spec_check_func(
            m.types,
            spec_env(m),
            m.types[m.functions[k as int] as int],
            r->Ok_0,
        ) is Ok {
            lemma_bodies_reject(bytes, m, i, k + 1, acc.push(r->Ok_0));
        }
    }
}

/// Validation is complete: a module with one invalid function is rejected
/// as a whole, whatever its other functions hold. No `ValidationInfo` comes
/// of it, so nothing of it can be instantiated.
pub proof fn lemma_one_invalid_function_rejects_the_module(bytes: Seq<u8>, i: int)
    requires
        spec_module(bytes) is Ok,
        function_is_invalid(bytes, spec_module(bytes)->Ok_0, i),
    ensures
        spec_validate(bytes) is Err,
{
    let m = spec_module(bytes)->Ok_0;
    lemma_bodies_reject(bytes, m, i, 0, Seq::empty());
}

/// Invocation is deterministic: on two instances of the same validated
/// module whose globals, memories and tables are equal, the same call with
/// the same arguments and budget returns the same results or the same trap,
/// and leaves equal globals, memories and tables. Two fresh instances of one
/// module, made with the same imported values and budget, are such
/// instances.
pub proof fn lemma_invocation_is_deterministic(
    a: RuntimeInstance,
    b: RuntimeInstance,
    func_idx: nat,
    args: Seq<Value>,
    budget: Budget,
)
    requires
        a.validated() == b.validated(),
        a.store() == b.store(),
    ensures
        spec_invoke(a.program(), a.store(), func_idx, args, budget) == spec_invoke(
            b.program(),
            b.store(),
            func_idx,
            args,
            budget,
        ),
{
}

/// Two instantiations of one validated module with the same imported values
/// and budget give the same store, or fail with the same error.
pub proof fn lemma_instantiation_is_deterministic(
    v: ValidatedView,
    w: ValidatedView,
    imported: Seq<Value>,
    budget: Budget,
)
    requires
        v == w,
    ensures
        spec_instantiate(v, imported, budget) == spec_instantiate(w, imported, budget),
{
}

/// A call whose arguments are not exactly of the types of the parameters,
/// one for one, fails at the boundary and changes nothing: no argument is
/// dropped, added or converted.
pub proof fn lemma_mismatched_call_fails(
    inst: RuntimeInstance,
    func_idx: nat,
    args: Seq<Value>,
    budget: Budget,
)
    requires
        func_idx < inst.program().funcs.len(),
        inst.program().funcs[func_idx as int] < inst.program().types.len(),
        types_of(args) != inst.program().types[inst.program().funcs[func_idx as int] as int].params,
    ensures
        spec_invoke(inst.program(), inst.store(), func_idx, args, budget) == (
            inst.store(),
            Err::<Seq<Value>, InvokeError>(InvokeError::ArgumentMismatch),
        ),
{
}

/// A load whose bytes do not all lie in the memory traps, whatever the
/// address: the memory may even be empty and the address 0.
pub proof fn lemma_load_out_of_bounds_traps(
    mem_max: Option<u32>,
    code: CodeView,
    cfg: Config,
    base: u32,
    ty: ValType,
    width: u8,
    signed: bool,
    arg: MemArg,
)
    requires
        cfg.store.has_mem,
        cfg.stack.len() >= 1,
        cfg.stack.last() == Value::I32(base),
        spec_width_ok(width),
        base + arg.offset + width > cfg.store.mem.len(),
    ensures
        spec_step(mem_max, code, cfg, Instr::Load { ty, width, signed, arg }) == (
            cfg,
            Err::<Flow, Halt>(Halt::Trap(Trap::OutOfBoundsMemory)),
        ),
{
}

/// A store whose bytes do not all lie in the memory traps and writes
/// nothing.
pub proof fn lemma_store_out_of_bounds_traps(
    mem_max: Option<u32>,
    code: CodeView,
    cfg: Config,
    base: u32,
    v: Value,
    width: u8,
    arg: MemArg,
)
    requires
        cfg.store.has_mem,
        cfg.stack.len() >= 2,
        cfg.stack[cfg.stack.len() - 2] == Value::I32(base),
        cfg.stack.last() == v,
        spec_width_ok(width),
        base + arg.offset + width > cfg.store.mem.len(),
    ensures
        spec_step(mem_max, code, cfg, Instr::Store { ty: v.spec_ty(), width, arg }) == (
            cfg,
            Err::<Flow, Halt>(Halt::Trap(Trap::OutOfBoundsMemory)),
        ),
{
}

} // verus!
