use vstd::prelude::*;
use crate::ast::{BinOpKind, ExprValue};
use crate::chunk::Instruction;
use crate::compiler::{compile_expr_model, const_eq_spec, pool_find, CompState};
use crate::errors::VMErrorKind;
use crate::value::{int_text, truthy_spec, AbsValue};
use crate::vm::{
    boot_machine, const_at, lemma_run_constants, lemma_run_to_halt, lemma_steps_compose,
    run_model, step_model, steps_model, MachineModel, RunRes, StepRes,
};

verus! {

/// The empty compiler state a fresh program starts from.
pub open spec fn empty_comp_state() -> CompState {
    CompState { code: Seq::empty(), pool: Seq::empty() }
}

/// Law: a subtraction of two numeric literals compiles and runs to exactly
/// their difference.  The compiler emits the right operand first, so the
/// machine's first pop is the left operand: `10 - 3` runs to `7`, never
/// `-7`.
pub proof fn lemma_literal_subtraction(
    lhs: Box<ExprValue>,
    rhs: Box<ExprValue>,
    a: i32,
    b: i32,
    fuel: nat,
)
    requires
        *lhs == ExprValue::Integer(a),
        *rhs == ExprValue::Integer(b),
        fuel >= 3,
    ensures
        ({
            let r = compile_expr_model(
                ExprValue::BinOp(lhs, BinOpKind::Sub, rhs),
                empty_comp_state(),
            );
            &&& r is Ok
            &&& ({
                let m = boot_machine(r->Ok_0.code, r->Ok_0.pool, Map::empty(), Set::empty());
                run_model(m, fuel) == RunRes::Halted(
                    MachineModel {
                        ip: 3,
                        stack: seq![AbsValue::Int64(a - b)],
                        ..m
                    },
                )
            })
        }),
{
    let st0 = empty_comp_state();
    let e = ExprValue::BinOp(lhs, BinOpKind::Sub, rhs);
    let r1 = compile_expr_model(*rhs, st0);
    assert(pool_find(st0.pool, AbsValue::Int64(b as int), 0) == 0);
    let st1 = r1->Ok_0;
    assert(st1.code =~= seq![Instruction::Constant(0)]);
    assert(st1.pool =~= seq![AbsValue::Int64(b as int)]);
    let r2 = compile_expr_model(*lhs, st1);
    let ghost ia: int = if a == b {
        0
    } else {
        1
    };
    if a == b {
        assert(pool_find(st1.pool, AbsValue::Int64(a as int), 0) == 0);
    } else {
        assert(!const_eq_spec(st1.pool[0], AbsValue::Int64(a as int)));
        assert(pool_find(st1.pool, AbsValue::Int64(a as int), 1) == 1);
        assert(pool_find(st1.pool, AbsValue::Int64(a as int), 0) == 1);
    }
    let st2 = r2->Ok_0;
    assert(st2.code =~= st1.code.push(Instruction::Constant(ia as u8)));
    assert(st2.pool[0] == AbsValue::Int64(b as int));
    assert(st2.pool[ia] == AbsValue::Int64(a as int));
    assert(ia < st2.pool.len());
    let r = compile_expr_model(e, st0);
    assert(r is Ok);
    let st = r->Ok_0;
    assert(st.code =~= seq![
        Instruction::Constant(0),
        Instruction::Constant(ia as u8),
        Instruction::Sub,
    ]);
    let m0 = boot_machine(st.code, st.pool, Map::empty(), Set::empty());
    assert(step_model(m0) is Next);
    let m1 = step_model(m0)->Next_0;
    assert(m1 =~= (MachineModel { ip: 1, stack: seq![AbsValue::Int64(b as int)], ..m0 }));
    assert(step_model(m1) is Next);
    let m2 = step_model(m1)->Next_0;
    assert(m2 =~= (MachineModel {
        ip: 2,
        stack: seq![AbsValue::Int64(b as int), AbsValue::Int64(a as int)],
        ..m0
    }));
    assert(step_model(m2) is Next);
    let m3 = step_model(m2)->Next_0;
    assert(m3.stack =~= seq![AbsValue::Int64(b as int), AbsValue::Int64(a as int)].take(0).push(
        AbsValue::Int64(a - b),
    ));
    assert(m3 =~= (MachineModel { ip: 3, stack: seq![AbsValue::Int64(a - b)], ..m0 }));
    assert(steps_model(m3, 0) == Some(m3));
    assert(steps_model(m2, 1) == Some(m3));
    assert(steps_model(m1, 2) == Some(m3));
    assert(steps_model(m0, 3) == Some(m3));
    assert(step_model(m3) is Halt);
    lemma_run_to_halt(m0, 3, fuel);
}

/// Law: a `+` whose left side is a string literal concatenates: the result
/// is the left text followed by the right operand's display text, so
/// `"a" + 1` runs to the string `a1`.
pub proof fn lemma_concat_string_left(
    lhs: Box<ExprValue>,
    rhs: Box<ExprValue>,
    s: String,
    n: i32,
    fuel: nat,
)
    requires
        *lhs == ExprValue::Str(s),
        *rhs == ExprValue::Integer(n),
        fuel >= 3,
    ensures
        ({
            let r = compile_expr_model(
                ExprValue::BinOp(lhs, BinOpKind::Add, rhs),
                empty_comp_state(),
            );
            &&& r is Ok
            &&& ({
                let m = boot_machine(r->Ok_0.code, r->Ok_0.pool, Map::empty(), Set::empty());
                run_model(m, fuel) == RunRes::Halted(
                    MachineModel {
                        ip: 3,
                        stack: seq![AbsValue::Str(s@ + int_text(n as int))],
                        ..m
                    },
                )
            })
        }),
{
    let st0 = empty_comp_state();
    let e = ExprValue::BinOp(lhs, BinOpKind::Add, rhs);
    let r1 = compile_expr_model(*rhs, st0);
    assert(pool_find(st0.pool, AbsValue::Int64(n as int), 0) == 0);
    let st1 = r1->Ok_0;
    assert(st1.code =~= seq![Instruction::Constant(0)]);
    assert(st1.pool =~= seq![AbsValue::Int64(n as int)]);
    let r2 = compile_expr_model(*lhs, st1);
    assert(!const_eq_spec(st1.pool[0], AbsValue::Str(s@)));
    assert(pool_find(st1.pool, AbsValue::Str(s@), 1) == 1);
    assert(pool_find(st1.pool, AbsValue::Str(s@), 0) == 1);
    let st2 = r2->Ok_0;
    assert(st2.code =~= st1.code.push(Instruction::Constant(1)));
    assert(st2.pool =~= seq![AbsValue::Int64(n as int), AbsValue::Str(s@)]);
    let r = compile_expr_model(e, st0);
    assert(r is Ok);
    let st = r->Ok_0;
    assert(st.code =~= seq![
        Instruction::Constant(0),
        Instruction::Constant(1),
        Instruction::Concat,
    ]);
    let m0 = boot_machine(st.code, st.pool, Map::empty(), Set::empty());
    let m1 = step_model(m0)->Next_0;
    assert(m1 =~= (MachineModel { ip: 1, stack: seq![AbsValue::Int64(n as int)], ..m0 }));
    let m2 = step_model(m1)->Next_0;
    assert(m2 =~= (MachineModel {
        ip: 2,
        stack: seq![AbsValue::Int64(n as int), AbsValue::Str(s@)],
        ..m0
    }));
    assert(step_model(m2) is Next);
    let m3 = step_model(m2)->Next_0;
    assert(m3.stack =~= seq![AbsValue::Str(s@ + int_text(n as int))]);
    assert(m3 =~= (MachineModel {
        ip: 3,
        stack: seq![AbsValue::Str(s@ + int_text(n as int))],
        ..m0
    }));
    assert(steps_model(m3, 0) == Some(m3));
    assert(steps_model(m2, 1) == Some(m3));
    assert(steps_model(m1, 2) == Some(m3));
    assert(steps_model(m0, 3) == Some(m3));
    assert(step_model(m3) is Halt);
    lemma_run_to_halt(m0, 3, fuel);
}

/// Law: a `+` whose right side is a string literal concatenates the other
/// way round: `1 + "a"` runs to the string `1a`.
pub proof fn lemma_concat_string_right(
    lhs: Box<ExprValue>,
    rhs: Box<ExprValue>,
    n: i32,
    s: String,
    fuel: nat,
)
    requires
        *lhs == ExprValue::Integer(n),
        *rhs == ExprValue::Str(s),
        fuel >= 3,
    ensures
        ({
            let r = compile_expr_model(
                ExprValue::BinOp(lhs, BinOpKind::Add, rhs),
                empty_comp_state(),
            );
            &&& r is Ok
            &&& ({
                let m = boot_machine(r->Ok_0.code, r->Ok_0.pool, Map::empty(), Set::empty());
                run_model(m, fuel) == RunRes::Halted(
                    MachineModel {
                        ip: 3,
                        stack: seq![AbsValue::Str(int_text(n as int) + s@)],
                        ..m
                    },
                )
            })
        }),
{
    let st0 = empty_comp_state();
    let e = ExprValue::BinOp(lhs, BinOpKind::Add, rhs);
    let r1 = compile_expr_model(*rhs, st0);
    assert(pool_find(st0.pool, AbsValue::Str(s@), 0) == 0);
    let st1 = r1->Ok_0;
    assert(st1.code =~= seq![Instruction::Constant(0)]);
    assert(st1.pool =~= seq![AbsValue::Str(s@)]);
    let r2 = compile_expr_model(*lhs, st1);
    assert(!const_eq_spec(st1.pool[0], AbsValue::Int64(n as int)));
    assert(pool_find(st1.pool, AbsValue::Int64(n as int), 1) == 1);
    assert(pool_find(st1.pool, AbsValue::Int64(n as int), 0) == 1);
    let st2 = r2->Ok_0;
    assert(st2.code =~= st1.code.push(Instruction::Constant(1)));
    assert(st2.pool =~= seq![AbsValue::Str(s@), AbsValue::Int64(n as int)]);
    let r = compile_expr_model(e, st0);
    assert(r is Ok);
    let st = r->Ok_0;
    assert(st.code =~= seq![
        Instruction::Constant(0),
        Instruction::Constant(1),
        Instruction::Concat,
    ]);
    let m0 = boot_machine(st.code, st.pool, Map::empty(), Set::empty());
    let m1 = step_model(m0)->Next_0;
    assert(m1 =~= (MachineModel { ip: 1, stack: seq![AbsValue::Str(s@)], ..m0 }));
    let m2 = step_model(m1)->Next_0;
    assert(m2 =~= (MachineModel {
        ip: 2,
        stack: seq![AbsValue::Str(s@), AbsValue::Int64(n as int)],
        ..m0
    }));
    assert(step_model(m2) is Next);
    let m3 = step_model(m2)->Next_0;
    assert(m3.stack =~= seq![AbsValue::Str(int_text(n as int) + s@)]);
    assert(m3 =~= (MachineModel {
        ip: 3,
        stack: seq![AbsValue::Str(int_text(n as int) + s@)],
        ..m0
    }));
    assert(steps_model(m3, 0) == Some(m3));
    assert(steps_model(m2, 1) == Some(m3));
    assert(steps_model(m1, 2) == Some(m3));
    assert(steps_model(m0, 3) == Some(m3));
    assert(step_model(m3) is Halt);
    lemma_run_to_halt(m0, 3, fuel);
}

/// Law: equality and ordering are narrowed to primitive pairs of the same
/// variant (numbers, strings, booleans).  Every other pair — the absence
/// value against itself included — is "not equal" and unordered, never a
/// fault.
pub proof fn lemma_narrowed_equality(a: AbsValue, b: AbsValue)
    ensures
        crate::value::val_eq(a, b) ==> ({
            ||| a is Int32 && b is Int32
            ||| a is Int64 && b is Int64
            ||| a is Str && b is Str
            ||| a is Boolean && b is Boolean
        }),
        crate::value::val_cmp(a, b) != crate::value::OrderRel::Unordered ==> ({
            ||| a is Int32 && b is Int32
            ||| a is Int64 && b is Int64
            ||| a is Str && b is Str
            ||| a is Boolean && b is Boolean
        }),
{
}

/// Law: truthiness.  The absence value is the only falsy non-boolean; a
/// boolean is its own truth; every other value — zero numbers and the empty
/// string included — is truthy.
pub proof fn lemma_truthiness(v: AbsValue)
    ensures
        v is Null ==> !truthy_spec(v),
        forall|b: bool| v == AbsValue::Boolean(b) ==> truthy_spec(v) == b,
        !(v is Null) && !(v is Boolean) ==> truthy_spec(v),
{
}

/// Law: a conditional jump consumes the tested value and displaces the
/// pointer by its whole operand exactly when the value is falsy, else falls
/// through to the next instruction.
pub proof fn lemma_conditional_jump(m: MachineModel, n: u8)
    requires
        0 <= m.ip < m.code.len(),
        m.code[m.ip] == Instruction::JumpIfFalse(n),
        m.stack.len() >= 1,
    ensures
        step_model(m) == StepRes::Next(
            MachineModel {
                stack: m.stack.take(m.stack.len() - 1),
                ip: if truthy_spec(m.stack.last()) {
                    m.ip + 1
                } else {
                    m.ip + n
                },
                ..m
            },
        ),
{
}

/// Law: a call of a name that neither the function table nor the native
/// registry answers to faults the machine with `UnresolvedFunction`; it
/// never runs on silently.
pub proof fn lemma_unresolved_call_faults(m: MachineModel, idx: u8)
    requires
        0 <= m.ip < m.code.len(),
        m.code[m.ip] == Instruction::Call(idx),
        idx < m.consts.len(),
        m.consts[idx as int] is Str,
        !m.funcs.contains_key(m.consts[idx as int]->Str_0),
        !m.natives.contains(m.consts[idx as int]->Str_0),
    ensures
        step_model(m) == StepRes::Fault(VMErrorKind::UnresolvedFunction),
        forall|fuel: nat|
            fuel > 0 ==> run_model(m, fuel) == RunRes::Fault(VMErrorKind::UnresolvedFunction),
{
}

/// Law: an array literal of numeric literals compiles and runs to an array
/// holding the literal values in declaration order, never reversed.
pub proof fn lemma_array_literal_order(es: Vec<ExprValue>, fuel: nat)
    requires
        forall|j: int| 0 <= j < es@.len() ==> (#[trigger] es@[j]) is Integer,
        es@.len() <= 255,
        fuel >= es@.len() + 1,
    ensures
        ({
            let r = compile_expr_model(ExprValue::Array(es), empty_comp_state());
            &&& r is Ok
            &&& ({
                let m = boot_machine(r->Ok_0.code, r->Ok_0.pool, Map::empty(), Set::empty());
                run_model(m, fuel) == RunRes::Halted(
                    MachineModel {
                        ip: r->Ok_0.code.len() as int,
                        stack: seq![
                            AbsValue::Array(
                                Seq::new(
                                    es@.len(),
                                    |j: int| AbsValue::Int64(es@[j]->Integer_0 as int),
                                ),
                            ),
                        ],
                        ..m
                    },
                )
            })
        }),
{
    let st0 = empty_comp_state();
    let e = ExprValue::Array(es);
    let cnt = es@.len();
    lemma_compile_literal_list(es@, 0, st0);
    let rl = crate::compiler::compile_list_model(es@, 0, st0);
    let stl = rl->Ok_0;
    let r = compile_expr_model(e, st0);
    assert(r is Ok);
    let st = r->Ok_0;
    assert(st.code == stl.code.push(Instruction::DefineArray(cnt as u8)));
    assert(st.code.len() == cnt + 1);
    let m0 = boot_machine(st.code, st.pool, Map::empty(), Set::empty());
    assert forall|j: int| 0 <= j < cnt implies ({
        &&& (#[trigger] m0.code[m0.ip + j]) matches Instruction::Constant(idx)
        &&& idx < m0.consts.len()
    }) by {
        assert({
            &&& stl.code[st0.code.len() + (j - 0)] matches Instruction::Constant(idx)
            &&& idx < stl.pool.len()
            &&& stl.pool[idx as int] == AbsValue::Int64(es@[j]->Integer_0 as int)
        });
        assert(m0.code[m0.ip + j] == stl.code[st0.code.len() + (j - 0)]);
    }
    lemma_run_constants(m0, cnt);
    let mc = steps_model(m0, cnt)->Some_0;
    assert forall|j: int| 0 <= j < cnt implies #[trigger] const_at(m0, j) == AbsValue::Int64(
        es@[j]->Integer_0 as int,
    ) by {
        assert({
            &&& stl.code[st0.code.len() + (j - 0)] matches Instruction::Constant(idx)
            &&& idx < stl.pool.len()
            &&& stl.pool[idx as int] == AbsValue::Int64(es@[j]->Integer_0 as int)
        });
        assert(m0.code[j] == stl.code[st0.code.len() + (j - 0)]);
    }
    assert(mc.stack =~= Seq::new(cnt, |j: int| AbsValue::Int64(es@[j]->Integer_0 as int)));
    assert(mc.ip == cnt);
    assert(mc.code[mc.ip] == Instruction::DefineArray(cnt as u8));
    assert(step_model(mc) is Next);
    let mf = step_model(mc)->Next_0;
    assert(mc.stack.subrange(0, cnt as int) =~= mc.stack);
    assert(mf.stack =~= seq![
        AbsValue::Array(Seq::new(cnt, |j: int| AbsValue::Int64(es@[j]->Integer_0 as int))),
    ]);
    assert(steps_model(mf, 0) == Some(mf));
    assert(steps_model(mc, 1) == Some(mf));
    lemma_steps_compose(m0, cnt, 1);
    assert(steps_model(m0, cnt + 1) == Some(mf));
    assert(step_model(mf) is Halt);
    lemma_run_to_halt(m0, cnt + 1, fuel);
    assert(mf =~= (MachineModel {
        ip: st.code.len() as int,
        stack: seq![
            AbsValue::Array(
                Seq::new(es@.len(), |j: int| AbsValue::Int64(es@[j]->Integer_0 as int)),
            ),
        ],
        ..m0
    }));
}

/// Compiling a list of numeric literals emits exactly one `Constant` per
/// element, never shrinks the pool, and leaves each emitted index naming the
/// element's value.
proof fn lemma_compile_literal_list(es: Seq<ExprValue>, i: int, st: CompState)
    requires
        0 <= i <= es.len(),
        forall|j: int| 0 <= j < es.len() ==> (#[trigger] es[j]) is Integer,
        st.pool.len() + (es.len() - i) <= 256,
    ensures
        ({
            let r = crate::compiler::compile_list_model(es, i, st);
            &&& r is Ok
            &&& r->Ok_0.pool.len() <= st.pool.len() + (es.len() - i)
            &&& st.pool.len() <= r->Ok_0.pool.len()
            &&& forall|k: int|
                0 <= k < st.pool.len() ==> #[trigger] r->Ok_0.pool[k] == st.pool[k]
            &&& r->Ok_0.code.len() == st.code.len() + (es.len() - i)
            &&& forall|k: int| 0 <= k < st.code.len() ==> #[trigger] r->Ok_0.code[k] == st.code[k]
            &&& forall|j: int|
                i <= j < es.len() ==> ({
                    &&& (#[trigger] r->Ok_0.code[st.code.len() + (j - i)]) matches
                        Instruction::Constant(idx)
                    &&& idx < r->Ok_0.pool.len()
                    &&& r->Ok_0.pool[idx as int] == AbsValue::Int64(es[j]->Integer_0 as int)
                })
        }),
    decreases es.len() - i,
{
    if i < es.len() {
        let v = AbsValue::Int64(es[i]->Integer_0 as int);
        let f = pool_find(st.pool, v, 0);
        crate::compiler::lemma_pool_find(st.pool, v, 0);
        let r1 = compile_expr_model(es[i], st);
        assert(r1 is Ok);
        let st1 = r1->Ok_0;
        assert(st1.code == st.code.push(Instruction::Constant(f as u8)));
        assert(f < st1.pool.len() && st1.pool[f] == v);
        assert(st.pool.len() <= st1.pool.len() <= st.pool.len() + 1);
        assert(forall|k: int| 0 <= k < st.pool.len() ==> #[trigger] st1.pool[k] == st.pool[k]);
        lemma_compile_literal_list(es, i + 1, st1);
        let rr = crate::compiler::compile_list_model(es, i + 1, st1);
        let stf = rr->Ok_0;
        assert(crate::compiler::compile_list_model(es, i, st) == rr);
        assert forall|k: int| 0 <= k < st.pool.len() implies #[trigger] stf.pool[k]
            == st.pool[k] by {
            assert(stf.pool[k] == st1.pool[k]);
        }
        assert forall|k: int| 0 <= k < st.code.len() implies #[trigger] stf.code[k]
            == st.code[k] by {
            assert(stf.code[k] == st1.code[k]);
        }
        assert forall|j: int| i <= j < es.len() implies ({
            &&& (#[trigger] stf.code[st.code.len() + (j - i)]) matches Instruction::Constant(idx)
            &&& idx < stf.pool.len()
            &&& stf.pool[idx as int] == AbsValue::Int64(es[j]->Integer_0 as int)
        }) by {
            if j == i {
                assert(stf.code[st.code.len() + (j - i)] == st1.code[st.code.len() as int]);
                assert(stf.pool[f] == st1.pool[f]);
            } else {
                assert(stf.code[st1.code.len() + (j - (i + 1))] == stf.code[st.code.len() + (j
                    - i)]);
            }
        }
    }
}

} // verus!
