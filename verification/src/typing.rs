//! The types of instructions: what each takes from the operand stack and
//! what it leaves there.
//!
//! A sequence of instructions is checked against a stack of operand types.
//! Each `block`, `loop` and `if` is checked on a stack of its own, which
//! starts with the block's parameters and must end with exactly its results.
//! Behind an instruction that never falls through (`unreachable`, `br`,
//! `br_table`, `return`) the stack is empty and polymorphic: it yields
//! operands of any type until the block ends.

use vstd::prelude::*;
use crate::error::Error;
use crate::instr::{BlockType, Code, CodeView, CvtOp, Instr, IntTy};
use crate::types::{FuncType, FuncTypeView, GlobalType, Limits, ValType, Value, func_types_view};

verus! {

/// The types of the operands above the start of a block. An operand of
/// unknown type can only stand on a polymorphic stack.
pub struct Frame {
    pub vals: Seq<Option<ValType>>,
    pub unreachable: bool,
}

/// What a function body is checked against.
pub struct Cx {
    pub types: Seq<FuncTypeView>,
    /// The signature index of every function, imported ones first.
    pub funcs: Seq<u32>,
    pub tables: Seq<Limits>,
    pub mems: Seq<Limits>,
    pub globals: Seq<GlobalType>,
    /// The types of the parameters and then of the declared locals.
    pub locals: Seq<ValType>,
    /// The result types of the function.
    pub ret: Seq<ValType>,
    pub code: CodeView,
}

/// The executable form of `Cx`.
pub struct TypeContext<'a> {
    pub types: &'a Vec<FuncType>,
    pub funcs: &'a Vec<u32>,
    pub tables: &'a Vec<Limits>,
    pub mems: &'a Vec<Limits>,
    pub globals: &'a Vec<GlobalType>,
    pub locals: &'a Vec<ValType>,
    pub ret: &'a Vec<ValType>,
    pub code: &'a Code,
}

impl<'a> View for TypeContext<'a> {
    type V = Cx;

    open spec fn view(&self) -> Cx {
        Cx {
            types: func_types_view(self.types@),
            funcs: self.funcs@,
            tables: self.tables@,
            mems: self.mems@,
            globals: self.globals@,
            locals: self.locals@,
            ret: self.ret@,
            code: self.code@,
        }
    }
}

/// The executable form of `Frame`.
pub struct TypeStack {
    pub vals: Vec<Option<ValType>>,
    pub unreachable: bool,
}

impl View for TypeStack {
    type V = Frame;

    open spec fn view(&self) -> Frame {
        Frame { vals: self.vals@, unreachable: self.unreachable }
    }
}

/// The types `ts`, each known.
pub open spec fn known(ts: Seq<ValType>) -> Seq<Option<ValType>> {
    Seq::new(ts.len(), |i: int| Some(ts[i]))
}

/// The views of a list of label types.
pub open spec fn labels_view(v: Seq<Vec<ValType>>) -> Seq<Seq<ValType>> {
    Seq::new(v.len(), |i: int| v[i]@)
}

/// The operand types that a branch to label `l` carries. Label 0 is the
/// innermost, which stands last.
pub open spec fn label_at(labels: Seq<Seq<ValType>>, l: u32) -> Seq<ValType> {
    labels[labels.len() - 1 - l]
}

/// Takes the top operand: its type, or none where the stack is polymorphic
/// and empty. An empty stack that is not polymorphic has nothing to take.
pub open spec fn spec_pop(st: Frame) -> Result<(Option<ValType>, Frame), Error> {
    if st.vals.len() == 0 {
        if st.unreachable {
            Ok((None, st))
        } else {
            Err(Error::StackUnderflow)
        }
    } else {
        Ok((st.vals.last(), Frame { vals: st.vals.drop_last(), unreachable: st.unreachable }))
    }
}

/// Takes the top operand, which must be of type `t` or unknown.
pub open spec fn spec_pop_expect(st: Frame, t: ValType) -> Result<Frame, Error> {
    match spec_pop(st) {
        Err(e) => Err(e),
        Ok((got, st2)) => if got is Some && got->0 != t {
            Err(Error::TypeMismatch)
        } else {
            Ok(st2)
        },
    }
}

/// Takes operands of the types `ts`, the last of them from the top.
pub open spec fn spec_pop_all(st: Frame, ts: Seq<ValType>) -> Result<Frame, Error>
    decreases ts.len(),
{
    if ts.len() == 0 {
        Ok(st)
    } else {
        match spec_pop_expect(st, ts.last()) {
            Err(e) => Err(e),
            Ok(st2) => spec_pop_all(st2, ts.drop_last()),
        }
    }
}

pub open spec fn spec_push(st: Frame, t: Option<ValType>) -> Frame {
    Frame { vals: st.vals.push(t), unreachable: st.unreachable }
}

pub open spec fn spec_push_all(st: Frame, ts: Seq<ValType>) -> Frame {
    Frame { vals: st.vals + known(ts), unreachable: st.unreachable }
}

/// The stack behind an instruction that never falls through.
pub open spec fn spec_unreachable(st: Frame) -> Frame {
    Frame { vals: Seq::empty(), unreachable: true }
}

/// Takes an operand of type `take1` and then one of type `take2`, where they are
/// given, and leaves one of type `push`, where it is given.
pub open spec fn spec_apply(st: Frame, take1: Option<ValType>, take2: Option<ValType>, push: Option<ValType>) -> Result<
    Frame,
    Error,
> {
    let r1 = if take1 is Some {
        spec_pop_expect(st, take1->0)
    } else {
        Ok(st)
    };
    match r1 {
        Err(e) => Err(e),
        Ok(st1) => {
            let r2 = if take2 is Some {
                spec_pop_expect(st1, take2->0)
            } else {
                Ok(st1)
            };
            match r2 {
                Err(e) => Err(e),
                Ok(st2) => if push is Some {
                    Ok(spec_push(st2, push))
                } else {
                    Ok(st2)
                },
            }
        },
    }
}

pub open spec fn int_type(t: IntTy) -> ValType {
    match t {
        IntTy::I32 => ValType::I32,
        IntTy::I64 => ValType::I64,
    }
}

/// The type that a conversion takes and the type that it gives.
pub open spec fn spec_convert_types(op: CvtOp) -> (ValType, ValType) {
    match op {
        CvtOp::I32WrapI64 => (ValType::I64, ValType::I32),
        CvtOp::I64ExtendI32S => (ValType::I32, ValType::I64),
        CvtOp::I64ExtendI32U => (ValType::I32, ValType::I64),
        CvtOp::I32ReinterpretF32 => (ValType::F32, ValType::I32),
        CvtOp::I64ReinterpretF64 => (ValType::F64, ValType::I64),
        CvtOp::F32ReinterpretI32 => (ValType::I32, ValType::F32),
        CvtOp::F64ReinterpretI64 => (ValType::I64, ValType::F64),
        CvtOp::I32Extend8S => (ValType::I32, ValType::I32),
        CvtOp::I32Extend16S => (ValType::I32, ValType::I32),
        CvtOp::I64Extend8S => (ValType::I64, ValType::I64),
        CvtOp::I64Extend16S => (ValType::I64, ValType::I64),
        CvtOp::I64Extend32S => (ValType::I64, ValType::I64),
    }
}

/// A memory access of `width` bytes may claim an alignment of at most
/// `width`, as a power of two.
pub open spec fn spec_align_ok(align: u32, width: u8) -> bool {
    (width == 1 && align == 0) || (width == 2 && align <= 1) || (width == 4 && align <= 2) || (width
        == 8 && align <= 3)
}

/// The operands of an instruction that takes at most two operands of fixed
/// types and leaves at most one: the type taken from the top, the type taken
/// next, the type left. `None` for the instructions that are not of this
/// kind.
pub open spec fn spec_simple_sig(c: Cx, ins: Instr) -> Option<
    Result<(Option<ValType>, Option<ValType>, Option<ValType>), Error>,
> {
    match ins {
        Instr::Nop => Some(Ok((None, None, None))),
        Instr::LocalGet(x) => Some(
            if x < c.locals.len() {
                Ok((None, None, Some(c.locals[x as int])))
            } else {
                Err(Error::UnknownLocal)
            },
        ),
        Instr::LocalSet(x) => Some(
            if x < c.locals.len() {
                Ok((Some(c.locals[x as int]), None, None))
            } else {
                Err(Error::UnknownLocal)
            },
        ),
        Instr::LocalTee(x) => Some(
            if x < c.locals.len() {
                Ok((Some(c.locals[x as int]), None, Some(c.locals[x as int])))
            } else {
                Err(Error::UnknownLocal)
            },
        ),
        Instr::GlobalGet(x) => Some(
            if x < c.globals.len() {
                Ok((None, None, Some(c.globals[x as int].ty)))
            } else {
                Err(Error::UnknownGlobal)
            },
        ),
        Instr::GlobalSet(x) => Some(
            if x >= c.globals.len() {
                Err(Error::UnknownGlobal)
            } else if !c.globals[x as int].mutable {
                Err(Error::ImmutableGlobal)
            } else {
                Ok((Some(c.globals[x as int].ty), None, None))
            },
        ),
        Instr::Load { ty, width, signed, arg } => Some(
            if c.mems.len() == 0 {
                Err(Error::UnknownMemory)
            } else if !spec_align_ok(arg.align, width) {
                Err(Error::InvalidAlignment)
            } else {
                Ok((Some(ValType::I32), None, Some(ty)))
            },
        ),
        Instr::Store { ty, width, arg } => Some(
            if c.mems.len() == 0 {
                Err(Error::UnknownMemory)
            } else if !spec_align_ok(arg.align, width) {
                Err(Error::InvalidAlignment)
            } else {
                Ok((Some(ty), Some(ValType::I32), None))
            },
        ),
        Instr::MemorySize => Some(
            if c.mems.len() == 0 {
                Err(Error::UnknownMemory)
            } else {
                Ok((None, None, Some(ValType::I32)))
            },
        ),
        Instr::MemoryGrow => Some(
            if c.mems.len() == 0 {
                Err(Error::UnknownMemory)
            } else {
                Ok((Some(ValType::I32), None, Some(ValType::I32)))
            },
        ),
        Instr::Const(v) => Some(Ok((None, None, Some(v.spec_ty())))),
        Instr::Eqz(t) => Some(Ok((Some(int_type(t)), None, Some(ValType::I32)))),
        Instr::Rel(t, _) => Some(Ok((Some(int_type(t)), Some(int_type(t)), Some(ValType::I32)))),
        Instr::Unary(t, _) => Some(Ok((Some(int_type(t)), None, Some(int_type(t))))),
        Instr::Binary(t, _) => Some(Ok((Some(int_type(t)), Some(int_type(t)), Some(int_type(t))))),
        Instr::Convert(op) => Some(
            Ok((Some(spec_convert_types(op).0), None, Some(spec_convert_types(op).1))),
        ),
        _ => None,
    }
}

/// The parameter and result types of a block.
pub open spec fn spec_block_sig(c: Cx, bt: BlockType) -> Result<(Seq<ValType>, Seq<ValType>), Error> {
    match bt {
        BlockType::Empty => Ok((Seq::empty(), Seq::empty())),
        BlockType::Value(t) => Ok((Seq::empty(), seq![t])),
        BlockType::Func(x) => if x < c.types.len() {
            Ok((c.types[x as int].params, c.types[x as int].results))
        } else {
            Err(Error::UnknownType)
        },
    }
}

/// Checks the labels of a `br_table` from index `k` on: each must exist and
/// carry `arity` operands, which must be on the stack.
pub open spec fn spec_check_table(
    labels: Seq<Seq<ValType>>,
    st: Frame,
    table: Seq<u32>,
    arity: nat,
    k: nat,
) -> Result<Frame, Error>
    decreases table.len() - k,
{
    if k >= table.len() {
        Ok(st)
    } else if table[k as int] >= labels.len() {
        Err(Error::UnknownLabel)
    } else {
        let ts = label_at(labels, table[k as int]);
        if ts.len() != arity {
            Err(Error::TypeMismatch)
        } else {
            match spec_pop_all(st, ts) {
                Err(e) => Err(e),
                Ok(st2) => spec_check_table(labels, spec_push_all(st2, ts), table, arity, k + 1),
            }
        }
    }
}

/// The stack behind an instruction that holds no other instructions.
pub open spec fn spec_check_plain(c: Cx, labels: Seq<Seq<ValType>>, st: Frame, ins: Instr) -> Result<
    Frame,
    Error,
> {
    match ins {
        Instr::Unreachable => Ok(spec_unreachable(st)),
        Instr::Br(l) => if l >= labels.len() {
            Err(Error::UnknownLabel)
        } else {
            match spec_pop_all(st, label_at(labels, l)) {
                Err(e) => Err(e),
                Ok(_) => Ok(spec_unreachable(st)),
            }
        },
        Instr::BrIf(l) => if l >= labels.len() {
            Err(Error::UnknownLabel)
        } else {
            match spec_pop_expect(st, ValType::I32) {
                Err(e) => Err(e),
                Ok(st1) => match spec_pop_all(st1, label_at(labels, l)) {
                    Err(e) => Err(e),
                    Ok(st2) => Ok(spec_push_all(st2, label_at(labels, l))),
                },
            }
        },
        Instr::BrTable(t) => if t >= c.code.tables.len() || c.code.tables[t as int].len() == 0 {
            Err(Error::MalformedCode)
        } else {
            let table = c.code.tables[t as int];
            match spec_pop_expect(st, ValType::I32) {
                Err(e) => Err(e),
                Ok(st1) => if table.last() >= labels.len() {
                    Err(Error::UnknownLabel)
                } else {
                    match spec_check_table(
                        labels,
                        st1,
                        table,
                        label_at(labels, table.last()).len(),
                        0,
                    ) {
                        Err(e) => Err(e),
                        Ok(st2) => match spec_pop_all(st2, label_at(labels, table.last())) {
                            Err(e) => Err(e),
                            Ok(_) => Ok(spec_unreachable(st)),
                        },
                    }
                },
            }
        },
        Instr::Return => match spec_pop_all(st, c.ret) {
            Err(e) => Err(e),
            Ok(_) => Ok(spec_unreachable(st)),
        },
        Instr::Call(f) => if f >= c.funcs.len() {
            Err(Error::UnknownFunction)
        } else if c.funcs[f as int] >= c.types.len() {
            Err(Error::UnknownType)
        } else {
            let ty = c.types[c.funcs[f as int] as int];
            match spec_pop_all(st, ty.params) {
                Err(e) => Err(e),
                Ok(st1) => Ok(spec_push_all(st1, ty.results)),
            }
        },
        Instr::CallIndirect(x, table) => if table >= c.tables.len() {
            Err(Error::UnknownTable)
        } else if x >= c.types.len() {
            Err(Error::UnknownType)
        } else {
            let ty = c.types[x as int];
            match spec_pop_expect(st, ValType::I32) {
                Err(e) => Err(e),
                Ok(st1) => match spec_pop_all(st1, ty.params) {
                    Err(e) => Err(e),
                    Ok(st2) => Ok(spec_push_all(st2, ty.results)),
                },
            }
        },
        Instr::Drop => match spec_pop(st) {
            Err(e) => Err(e),
            Ok((_, st1)) => Ok(st1),
        },
        Instr::Select => match spec_pop_expect(st, ValType::I32) {
            Err(e) => Err(e),
            Ok(st1) => match spec_pop(st1) {
                Err(e) => Err(e),
                Ok((t1, st2)) => match spec_pop(st2) {
                    Err(e) => Err(e),
                    Ok((t2, st3)) => if t1 is Some && t2 is Some && t1 != t2 {
                        Err(Error::TypeMismatch)
                    } else {
                        Ok(spec_push(st3, if t1 is Some { t1 } else { t2 }))
                    },
                },
            },
        },
        Instr::Block(_, _) | Instr::Loop(_, _) | Instr::If(_, _, _) => Err(Error::MalformedCode),
        _ => match spec_simple_sig(c, ins) {
            None => Err(Error::MalformedCode),
            Some(Err(e)) => Err(e),
            Some(Ok((take1, take2, push))) => spec_apply(st, take1, take2, push),
        },
    }
}

/// The stack at the end of the block must hold the results and nothing else.
pub open spec fn spec_ends_with(st: Frame, results: Seq<ValType>) -> Result<(), Error> {
    match spec_pop_all(st, results) {
        Err(e) => Err(e),
        Ok(st2) => if st2.vals.len() != 0 {
            Err(Error::UnbalancedStack)
        } else {
            Ok(())
        },
    }
}

/// The stack behind the instructions from index `i` on. The blocks that they
/// name must have indices below `bound`.
pub open spec fn spec_check_seq(
    c: Cx,
    instrs: Seq<Instr>,
    bound: nat,
    i: nat,
    labels: Seq<Seq<ValType>>,
    st: Frame,
) -> Result<Frame, Error>
    decreases bound, 0nat, instrs.len() - i,
{
    if i >= instrs.len() {
        Ok(st)
    } else {
        match instrs[i as int] {
            Instr::Block(bt, id) => match spec_block_sig(c, bt) {
                Err(e) => Err(e),
                Ok((params, results)) => if id >= bound || id >= c.code.blocks.len() {
                    Err(Error::MalformedCode)
                } else {
                    match spec_pop_all(st, params) {
                        Err(e) => Err(e),
                        Ok(st1) => match spec_check_body(
                            c,
                            c.code.blocks[id as int],
                            id as nat,
                            labels.push(results),
                            params,
                            results,
                        ) {
                            Err(e) => Err(e),
                            Ok(_) => spec_check_seq(
                                c,
                                instrs,
                                bound,
                                i + 1,
                                labels,
                                spec_push_all(st1, results),
                            ),
                        },
                    }
                },
            },
            Instr::Loop(bt, id) => match spec_block_sig(c, bt) {
                Err(e) => Err(e),
                Ok((params, results)) => if id >= bound || id >= c.code.blocks.len() {
                    Err(Error::MalformedCode)
                } else {
                    match spec_pop_all(st, params) {
                        Err(e) => Err(e),
                        Ok(st1) => match spec_check_body(
                            c,
                            c.code.blocks[id as int],
                            id as nat,
                            labels.push(params),
                            params,
                            results,
                        ) {
                            Err(e) => Err(e),
                            Ok(_) => spec_check_seq(
                                c,
                                instrs,
                                bound,
                                i + 1,
                                labels,
                                spec_push_all(st1, results),
                            ),
                        },
                    }
                },
            },
            Instr::If(bt, then_id, else_id) => match spec_block_sig(c, bt) {
                Err(e) => Err(e),
                Ok((params, results)) => if then_id >= bound || then_id >= c.code.blocks.len()
                    || else_id >= bound || else_id >= c.code.blocks.len() {
                    Err(Error::MalformedCode)
                } else {
                    match spec_pop_expect(st, ValType::I32) {
                        Err(e) => Err(e),
                        Ok(st0) => match spec_pop_all(st0, params) {
                            Err(e) => Err(e),
                            Ok(st1) => match spec_check_body(
                                c,
                                c.code.blocks[then_id as int],
                                then_id as nat,
                                labels.push(results),
                                params,
                                results,
                            ) {
                                Err(e) => Err(e),
                                Ok(_) => match spec_check_body(
                                    c,
                                    c.code.blocks[else_id as int],
                                    else_id as nat,
                                    labels.push(results),
                                    params,
                                    results,
                                ) {
                                    Err(e) => Err(e),
                                    Ok(_) => spec_check_seq(
                                        c,
                                        instrs,
                                        bound,
                                        i + 1,
                                        labels,
                                        spec_push_all(st1, results),
                                    ),
                                },
                            },
                        },
                    }
                },
            },
            ins => match spec_check_plain(c, labels, st, ins) {
                Err(e) => Err(e),
                Ok(st2) => spec_check_seq(c, instrs, bound, i + 1, labels, st2),
            },
        }
    }
}

/// A body is well typed: started on a stack that holds `params`, its
/// instructions end on one that holds exactly `results`.
pub open spec fn spec_check_body(
    c: Cx,
    instrs: Seq<Instr>,
    bound: nat,
    labels: Seq<Seq<ValType>>,
    params: Seq<ValType>,
    results: Seq<ValType>,
) -> Result<(), Error>
    decreases bound, 1nat, 0nat,
{
    match spec_check_seq(c, instrs, bound, 0, labels, Frame { vals: known(params), unreachable: false }) {
        Err(e) => Err(e),
        Ok(st) => spec_ends_with(st, results),
    }
}

// ---------------------------------------------------------------------------
// The executable checker
// ---------------------------------------------------------------------------

fn pop_val(st: &mut TypeStack) -> (r: Result<Option<ValType>, Error>)
    ensures
        match spec_pop(old(st)@) {
            Ok((t, f)) => r == Ok::<Option<ValType>, Error>(t) && final(st)@ == f,
            Err(e) => r == Err::<Option<ValType>, Error>(e),
        },
{
    if st.vals.len() == 0 {
        if st.unreachable {
            Ok(None)
        } else {
            Err(Error::StackUnderflow)
        }
    } else {
        let t = st.vals.pop();
        Ok(t.unwrap())
    }
}

fn pop_expect(st: &mut TypeStack, t: ValType) -> (r: Result<(), Error>)
    ensures
        match spec_pop_expect(old(st)@, t) {
            Ok(f) => r is Ok && final(st)@ == f,
            Err(e) => r == Err::<(), Error>(e),
        },
{
    match pop_val(st)? {
        Some(got) => if got != t {
            Err(Error::TypeMismatch)
        } else {
            Ok(())
        },
        None => Ok(()),
    }
}

fn pop_all(st: &mut TypeStack, ts: &Vec<ValType>) -> (r: Result<(), Error>)
    ensures
        match spec_pop_all(old(st)@, ts@) {
            Ok(f) => r is Ok && final(st)@ == f,
            Err(e) => r == Err::<(), Error>(e),
        },
{
    let mut k: usize = ts.len();
    assert(ts@.take(k as int) =~= ts@);
    while k > 0
        invariant
            k <= ts.len(),
            spec_pop_all(old(st)@, ts@) == spec_pop_all(st@, ts@.take(k as int)),
        decreases k,
    {
        proof {
            assert(ts@.take(k as int).drop_last() =~= ts@.take(k - 1));
        }
        k -= 1;
        pop_expect(st, ts[k])?;
    }
    Ok(())
}

fn push_all(st: &mut TypeStack, ts: &Vec<ValType>)
    ensures
        final(st)@ == spec_push_all(old(st)@, ts@),
{
    let mut k: usize = 0;
    assert(st@.vals =~= old(st)@.vals + known(ts@.take(0)));
    while k < ts.len()
        invariant
            k <= ts.len(),
            st.unreachable == old(st).unreachable,
            st@.vals == old(st)@.vals + known(ts@.take(k as int)),
        decreases ts.len() - k,
    {
        st.vals.push(Some(ts[k]));
        k += 1;
        assert(st@.vals =~= old(st)@.vals + known(ts@.take(k as int)));
    }
    assert(ts@.take(k as int) =~= ts@);
}

fn make_unreachable(st: &mut TypeStack)
    ensures
        final(st)@ == spec_unreachable(old(st)@),
{
    st.vals.clear();
    st.unreachable = true;
}

fn apply(st: &mut TypeStack, take1: Option<ValType>, take2: Option<ValType>, push: Option<ValType>) -> (r:
    Result<(), Error>)
    ensures
        match spec_apply(old(st)@, take1, take2, push) {
            Ok(f) => r is Ok && final(st)@ == f,
            Err(e) => r == Err::<(), Error>(e),
        },
{
    match take1 {
        Some(t) => {
            pop_expect(st, t)?;
        },
        None => {},
    }
    match take2 {
        Some(t) => {
            pop_expect(st, t)?;
        },
        None => {},
    }
    match push {
        Some(t) => {
            st.vals.push(Some(t));
        },
        None => {},
    }
    Ok(())
}

pub fn int_val_type(t: IntTy) -> (r: ValType)
    ensures
        r == int_type(t),
{
    match t {
        IntTy::I32 => ValType::I32,
        IntTy::I64 => ValType::I64,
    }
}

pub fn convert_types(op: CvtOp) -> (r: (ValType, ValType))
    ensures
        r == spec_convert_types(op),
{
    match op {
        CvtOp::I32WrapI64 => (ValType::I64, ValType::I32),
        CvtOp::I64ExtendI32S => (ValType::I32, ValType::I64),
        CvtOp::I64ExtendI32U => (ValType::I32, ValType::I64),
        CvtOp::I32ReinterpretF32 => (ValType::F32, ValType::I32),
        CvtOp::I64ReinterpretF64 => (ValType::F64, ValType::I64),
        CvtOp::F32ReinterpretI32 => (ValType::I32, ValType::F32),
        CvtOp::F64ReinterpretI64 => (ValType::I64, ValType::F64),
        CvtOp::I32Extend8S => (ValType::I32, ValType::I32),
        CvtOp::I32Extend16S => (ValType::I32, ValType::I32),
        CvtOp::I64Extend8S => (ValType::I64, ValType::I64),
        CvtOp::I64Extend16S => (ValType::I64, ValType::I64),
        CvtOp::I64Extend32S => (ValType::I64, ValType::I64),
    }
}

fn align_ok(align: u32, width: u8) -> (r: bool)
    ensures
        r == spec_align_ok(align, width),
{
    (width == 1 && align == 0) || (width == 2 && align <= 1) || (width == 4 && align <= 2) || (width
        == 8 && align <= 3)
}

fn simple_sig(cx: &TypeContext, ins: Instr) -> (r: Option<
    Result<(Option<ValType>, Option<ValType>, Option<ValType>), Error>,
>)
    ensures
        r == spec_simple_sig(cx@, ins),
{
    match ins {
        Instr::Nop => Some(Ok((None, None, None))),
        Instr::LocalGet(x) => Some(
            if (x as usize) < cx.locals.len() {
                Ok((None, None, Some(cx.locals[x as usize])))
            } else {
                Err(Error::UnknownLocal)
            },
        ),
        Instr::LocalSet(x) => Some(
            if (x as usize) < cx.locals.len() {
                Ok((Some(cx.locals[x as usize]), None, None))
            } else {
                Err(Error::UnknownLocal)
            },
        ),
        Instr::LocalTee(x) => Some(
            if (x as usize) < cx.locals.len() {
                Ok((Some(cx.locals[x as usize]), None, Some(cx.locals[x as usize])))
            } else {
                Err(Error::UnknownLocal)
            },
        ),
        Instr::GlobalGet(x) => Some(
            if (x as usize) < cx.globals.len() {
                Ok((None, None, Some(cx.globals[x as usize].ty)))
            } else {
                Err(Error::UnknownGlobal)
            },
        ),
        Instr::GlobalSet(x) => Some(
            if (x as usize) >= cx.globals.len() {
                Err(Error::UnknownGlobal)
            } else if !cx.globals[x as usize].mutable {
                Err(Error::ImmutableGlobal)
            } else {
                Ok((Some(cx.globals[x as usize].ty), None, None))
            },
        ),
        Instr::Load { ty, width, signed, arg } => Some(
            if cx.mems.len() == 0 {
                Err(Error::UnknownMemory)
            } else if !align_ok(arg.align, width) {
                Err(Error::InvalidAlignment)
            } else {
                Ok((Some(ValType::I32), None, Some(ty)))
            },
        ),
        Instr::Store { ty, width, arg } => Some(
            if cx.mems.len() == 0 {
                Err(Error::UnknownMemory)
            } else if !align_ok(arg.align, width) {
                Err(Error::InvalidAlignment)
            } else {
                Ok((Some(ty), Some(ValType::I32), None))
            },
        ),
        Instr::MemorySize => Some(
            if cx.mems.len() == 0 {
                Err(Error::UnknownMemory)
            } else {
                Ok((None, None, Some(ValType::I32)))
            },
        ),
        Instr::MemoryGrow => Some(
            if cx.mems.len() == 0 {
                Err(Error::UnknownMemory)
            } else {
                Ok((Some(ValType::I32), None, Some(ValType::I32)))
            },
        ),
        Instr::Const(v) => Some(Ok((None, None, Some(v.ty())))),
        Instr::Eqz(t) => Some(Ok((Some(int_val_type(t)), None, Some(ValType::I32)))),
        Instr::Rel(t, _) => Some(
            Ok((Some(int_val_type(t)), Some(int_val_type(t)), Some(ValType::I32))),
        ),
        Instr::Unary(t, _) => Some(Ok((Some(int_val_type(t)), None, Some(int_val_type(t))))),
        Instr::Binary(t, _) => Some(
            Ok((Some(int_val_type(t)), Some(int_val_type(t)), Some(int_val_type(t)))),
        ),
        Instr::Convert(op) => {
            let (from, to) = convert_types(op);
            Some(Ok((Some(from), None, Some(to))))
        },
        _ => None,
    }
}

/// A copy of a list of types.
pub fn copy_types(ts: &Vec<ValType>) -> (r: Vec<ValType>)
    ensures
        r@ == ts@,
{
    let mut out: Vec<ValType> = Vec::new();
    let mut k: usize = 0;
    while k < ts.len()
        invariant
            k <= ts.len(),
            out@ == ts@.take(k as int),
        decreases ts.len() - k,
    {
        out.push(ts[k]);
        k += 1;
        assert(out@ =~= ts@.take(k as int));
    }
    assert(ts@.take(k as int) =~= ts@);
    out
}

fn block_sig(cx: &TypeContext, bt: BlockType) -> (r: Result<(Vec<ValType>, Vec<ValType>), Error>)
    ensures
        match spec_block_sig(cx@, bt) {
            Ok((p, q)) => r matches Ok((rp, rq)) && rp@ == p && rq@ == q,
            Err(e) => r == Err::<(Vec<ValType>, Vec<ValType>), Error>(e),
        },
{
    match bt {
        BlockType::Empty => Ok((Vec::new(), Vec::new())),
        BlockType::Value(t) => {
            let mut results: Vec<ValType> = Vec::new();
            results.push(t);
            assert(results@ =~= seq![t]);
            Ok((Vec::new(), results))
        },
        BlockType::Func(x) => if (x as usize) < cx.types.len() {
            Ok((copy_types(&cx.types[x as usize].params), copy_types(&cx.types[x as usize].results)))
        } else {
            Err(Error::UnknownType)
        },
    }
}

fn label_ref<'a>(labels: &'a Vec<Vec<ValType>>, l: u32) -> (r: &'a Vec<ValType>)
    requires
        l < labels.len(),
    ensures
        r@ == label_at(labels_view(labels@), l),
{
    &labels[labels.len() - 1 - l as usize]
}

fn check_table(labels: &Vec<Vec<ValType>>, st: &mut TypeStack, table: &Vec<u32>, arity: usize) -> (r:
    Result<(), Error>)
    ensures
        match spec_check_table(labels_view(labels@), old(st)@, table@, arity as nat, 0) {
            Ok(f) => r is Ok && final(st)@ == f,
            Err(e) => r == Err::<(), Error>(e),
        },
{
    let mut k: usize = 0;
    while k < table.len()
        invariant
            k <= table.len(),
            spec_check_table(labels_view(labels@), old(st)@, table@, arity as nat, 0)
                == spec_check_table(labels_view(labels@), st@, table@, arity as nat, k as nat),
        decreases table.len() - k,
    {
        let l = table[k];
        if l as usize >= labels.len() {
            return Err(Error::UnknownLabel);
        }
        let ts = label_ref(labels, l);
        if ts.len() != arity {
            return Err(Error::TypeMismatch);
        }
        pop_all(st, ts)?;
        push_all(st, ts);
        k += 1;
    }
    Ok(())
}

fn check_plain(cx: &TypeContext, labels: &Vec<Vec<ValType>>, st: &mut TypeStack, ins: Instr) -> (r:
    Result<(), Error>)
    ensures
        match spec_check_plain(cx@, labels_view(labels@), old(st)@, ins) {
            Ok(f) => r is Ok && final(st)@ == f,
            Err(e) => r == Err::<(), Error>(e),
        },
{
    match ins {
        Instr::Unreachable => {
            make_unreachable(st);
            Ok(())
        },
        Instr::Br(l) => {
            if l as usize >= labels.len() {
                return Err(Error::UnknownLabel);
            }
            pop_all(st, label_ref(labels, l))?;
            make_unreachable(st);
            Ok(())
        },
        Instr::BrIf(l) => {
            if l as usize >= labels.len() {
                return Err(Error::UnknownLabel);
            }
            pop_expect(st, ValType::I32)?;
            pop_all(st, label_ref(labels, l))?;
            push_all(st, label_ref(labels, l));
            Ok(())
        },
        Instr::BrTable(t) => {
            if t >= cx.code.tables.len() || cx.code.tables[t].len() == 0 {
                return Err(Error::MalformedCode);
            }
            let table = &cx.code.tables[t];
            pop_expect(st, ValType::I32)?;
            let default = table[table.len() - 1];
            if default as usize >= labels.len() {
                return Err(Error::UnknownLabel);
            }
            let default_types = label_ref(labels, default);
            check_table(labels, st, table, default_types.len())?;
            pop_all(st, default_types)?;
            make_unreachable(st);
            Ok(())
        },
        Instr::Return => {
            pop_all(st, cx.ret)?;
            make_unreachable(st);
            Ok(())
        },
        Instr::Call(f) => {
            if f as usize >= cx.funcs.len() {
                return Err(Error::UnknownFunction);
            }
            let x = cx.funcs[f as usize];
            if x as usize >= cx.types.len() {
                return Err(Error::UnknownType);
            }
            pop_all(st, &cx.types[x as usize].params)?;
            push_all(st, &cx.types[x as usize].results);
            Ok(())
        },
        Instr::CallIndirect(x, table) => {
            if table as usize >= cx.tables.len() {
                return Err(Error::UnknownTable);
            }
            if x as usize >= cx.types.len() {
                return Err(Error::UnknownType);
            }
            pop_expect(st, ValType::I32)?;
            pop_all(st, &cx.types[x as usize].params)?;
            push_all(st, &cx.types[x as usize].results);
            Ok(())
        },
        Instr::Drop => {
            pop_val(st)?;
            Ok(())
        },
        Instr::Select => {
            pop_expect(st, ValType::I32)?;
            let t1 = pop_val(st)?;
            let t2 = pop_val(st)?;
            match (t1, t2) {
                (Some(a), Some(b)) => {
                    if a != b {
                        return Err(Error::TypeMismatch);
                    }
                    st.vals.push(t1);
                },
                (Some(_), None) => {
                    st.vals.push(t1);
                },
                (None, _) => {
                    st.vals.push(t2);
                },
            }
            Ok(())
        },
        Instr::Block(_, _) | Instr::Loop(_, _) | Instr::If(_, _, _) => Err(Error::MalformedCode),
        _ => match simple_sig(cx, ins) {
            None => Err(Error::MalformedCode),
            Some(Err(e)) => Err(e),
            Some(Ok((take1, take2, push))) => apply(st, take1, take2, push),
        },
    }
}

fn ends_with(st: &mut TypeStack, results: &Vec<ValType>) -> (r: Result<(), Error>)
    ensures
        r == spec_ends_with(old(st)@, results@),
{
    pop_all(st, results)?;
    if st.vals.len() != 0 {
        Err(Error::UnbalancedStack)
    } else {
        Ok(())
    }
}

fn known_types(ts: &Vec<ValType>) -> (r: Vec<Option<ValType>>)
    ensures
        r@ == known(ts@),
{
    let mut out: Vec<Option<ValType>> = Vec::new();
    let mut k: usize = 0;
    while k < ts.len()
        invariant
            k <= ts.len(),
            out@ == known(ts@.take(k as int)),
        decreases ts.len() - k,
    {
        out.push(Some(ts[k]));
        k += 1;
        assert(out@ =~= known(ts@.take(k as int)));
    }
    assert(ts@.take(k as int) =~= ts@);
    out
}

fn push_label(labels: &mut Vec<Vec<ValType>>, ts: Vec<ValType>)
    ensures
        labels_view(final(labels)@) == labels_view(old(labels)@).push(ts@),
{
    labels.push(ts);
    assert(labels_view(labels@) =~= labels_view(old(labels)@).push(ts@));
}

fn pop_label(labels: &mut Vec<Vec<ValType>>, Ghost(before): Ghost<Seq<Seq<ValType>>>, Ghost(ts): Ghost<
    Seq<ValType>,
>)
    requires
        labels_view(old(labels)@) == before.push(ts),
    ensures
        labels_view(final(labels)@) == before,
{
    assert(labels_view(labels@).len() == before.len() + 1);
    labels.pop();
    assert(labels_view(labels@) =~= before) by {
        assert forall|i: int| 0 <= i < before.len() implies labels_view(labels@)[i] == before[i] by {
            assert(labels_view(old(labels)@)[i] == before.push(ts)[i]);
        }
    }
}

/// Checks a sequence of instructions on the stack `st`.
pub fn check_seq(
    cx: &TypeContext,
    instrs: &Vec<Instr>,
    bound: usize,
    labels: &mut Vec<Vec<ValType>>,
    st: &mut TypeStack,
) -> (r: Result<(), Error>)
    ensures
        match spec_check_seq(cx@, instrs@, bound as nat, 0, labels_view(old(labels)@), old(st)@) {
            Ok(f) => r is Ok && final(st)@ == f && labels_view(final(labels)@) == labels_view(
                old(labels)@,
            ),
            Err(e) => r == Err::<(), Error>(e),
        },
    decreases bound, 0nat,
{
    let ghost lv = labels_view(labels@);
    let mut i: usize = 0;
    while i < instrs.len()
        invariant
            i <= instrs.len(),
            labels_view(labels@) == lv,
            lv == labels_view(old(labels)@),
            spec_check_seq(cx@, instrs@, bound as nat, 0, lv, old(st)@) == spec_check_seq(
                cx@,
                instrs@,
                bound as nat,
                i as nat,
                lv,
                st@,
            ),
        decreases instrs.len() - i,
    {
        match instrs[i] {
            Instr::Block(bt, id) => {
                let (params, results) = block_sig(cx, bt)?;
                if id >= bound || id >= cx.code.blocks.len() {
                    return Err(Error::MalformedCode);
                }
                pop_all(st, &params)?;
                let label = copy_types(&results);
                check_body(cx, &cx.code.blocks[id], id, labels, label, &params, &results)?;
                push_all(st, &results);
            },
            Instr::Loop(bt, id) => {
                let (params, results) = block_sig(cx, bt)?;
                if id >= bound || id >= cx.code.blocks.len() {
                    return Err(Error::MalformedCode);
                }
                pop_all(st, &params)?;
                let label = copy_types(&params);
                check_body(cx, &cx.code.blocks[id], id, labels, label, &params, &results)?;
                push_all(st, &results);
            },
            Instr::If(bt, then_id, else_id) => {
                let (params, results) = block_sig(cx, bt)?;
                if then_id >= bound || then_id >= cx.code.blocks.len() || else_id >= bound
                    || else_id >= cx.code.blocks.len() {
                    return Err(Error::MalformedCode);
                }
                pop_expect(st, ValType::I32)?;
                pop_all(st, &params)?;
                let label = copy_types(&results);
                check_body(cx, &cx.code.blocks[then_id], then_id, labels, label, &params, &results)?;
                let label = copy_types(&results);
                check_body(cx, &cx.code.blocks[else_id], else_id, labels, label, &params, &results)?;
                push_all(st, &results);
            },
            ins => {
                check_plain(cx, labels, st, ins)?;
            },
        }
        i += 1;
    }
    Ok(())
}

/// Checks a body under the labels `labels` and the new label `label`.
pub fn check_body(
    cx: &TypeContext,
    instrs: &Vec<Instr>,
    bound: usize,
    labels: &mut Vec<Vec<ValType>>,
    label: Vec<ValType>,
    params: &Vec<ValType>,
    results: &Vec<ValType>,
) -> (r: Result<(), Error>)
    ensures
        r == spec_check_body(
            cx@,
            instrs@,
            bound as nat,
            labels_view(old(labels)@).push(label@),
            params@,
            results@,
        ),
        r is Ok ==> labels_view(final(labels)@) == labels_view(old(labels)@),
    decreases bound, 1nat,
{
    let ghost before = labels_view(labels@);
    let ghost lt = label@;
    push_label(labels, label);
    let mut st = TypeStack { vals: known_types(params), unreachable: false };
    check_seq(cx, instrs, bound, labels, &mut st)?;
    pop_label(labels, Ghost(before), Ghost(lt));
    ends_with(&mut st, results)
}

} // verus!
