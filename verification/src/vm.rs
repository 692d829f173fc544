use vstd::prelude::*;
use crate::chunk::{Chunk, Instruction};
use crate::compiler::Program;
use crate::errors::{VMError, VMErrorKind};
use crate::table::NameTable;
use crate::value::{
    text_of, truthy_spec, val_cmp, val_eq, AbsFn, AbsValue, OrderRel, Value, VMFunction,
};

verus! {

/// One recorded native invocation: the registered name and the argument
/// values, in push (left-to-right) order.  The machine performs no host
/// call itself; it pops the arguments, records the invocation, and drops the
/// native result, which in this call protocol is never pushed back.  The
/// embedder drains the record and performs the real calls.
#[derive(Debug)]
pub struct NativeEffect {
    pub name: String,
    pub args: Vec<Value>,
}

impl DeepView for NativeEffect {
    type V = (Seq<char>, Seq<AbsValue>);

    open spec fn deep_view(&self) -> (Seq<char>, Seq<AbsValue>) {
        (self.name@, self.args.deep_view())
    }
}

/// The set of names a list of registered natives answers to.
pub open spec fn native_names(s: Seq<String>) -> Set<Seq<char>> {
    Set::new(|n: Seq<char>| exists|i: int| 0 <= i < s.len() && s[i]@ == n)
}

/// Return addresses as unbounded integers.
pub open spec fn ints_of(s: Seq<usize>) -> Seq<int> {
    Seq::new(s.len(), |i: int| s[i] as int)
}

/// The quotient of truncating division, the division the `Div` instruction
/// performs; the divisor must not be zero.
pub open spec fn trunc_div(x: int, d: int) -> int {
    if x == 0 {
        0
    } else if x > 0 && d > 0 {
        x / d
    } else if x < 0 && d < 0 {
        (x * -1) / (d * -1)
    } else if x < 0 {
        ((x * -1) / d) * -1
    } else {
        (x / (d * -1)) * -1
    }
}

/// The whole machine, mathematically: the immutable program (instructions,
/// constants, function table, registered native names) and the mutable
/// execution state (pointer, operand stack, call stack, globals, recorded
/// native invocations).
#[verifier::ext_equal]
pub struct MachineModel {
    pub code: Seq<Instruction>,
    pub consts: Seq<AbsValue>,
    pub funcs: Map<Seq<char>, AbsFn>,
    pub natives: Set<Seq<char>>,
    pub ip: int,
    pub stack: Seq<AbsValue>,
    pub calls: Seq<int>,
    pub globals: Map<Seq<char>, AbsValue>,
    pub effects: Seq<(Seq<char>, Seq<AbsValue>)>,
}

/// What one fetch-decode-execute step yields: normal termination at the end
/// of the stream, a successor state, or a fault.
pub enum StepRes {
    Halt,
    Next(MachineModel),
    Fault(VMErrorKind),
}

/// Binds `params[0 .. i]` to `vals[0 .. i]` in `g`, inserting index `i - 1`
/// first and index `0` last, exactly the pop order of the call protocol: the
/// last parameter takes the top of the stack, and on duplicate parameter
/// names the leftmost binding wins.
pub open spec fn bind_params(
    g: Map<Seq<char>, AbsValue>,
    params: Seq<Seq<char>>,
    vals: Seq<AbsValue>,
    i: int,
) -> Map<Seq<char>, AbsValue>
    decreases i,
{
    if i <= 0 {
        g
    } else {
        bind_params(g.insert(params[i - 1], vals[i - 1]), params, vals, i - 1)
    }
}

/// The boolean a comparison instruction pushes for an ordering outcome.
/// A pair outside the ordered primitive combinations answers `false` to
/// every comparison.
pub open spec fn cmp_answer(ins: Instruction, o: OrderRel) -> bool {
    match ins {
        Instruction::Less => o == OrderRel::Less,
        Instruction::Greater => o == OrderRel::Greater,
        Instruction::LessEq => o == OrderRel::Less || o == OrderRel::Equal,
        Instruction::GreaterEq => o == OrderRel::Greater || o == OrderRel::Equal,
        _ => arbitrary(),
    }
}

/// The checked 64-bit result of an arithmetic instruction on the normalized
/// numerics `x` (first pop, the left operand) and `y` (second pop, the right
/// operand).
pub open spec fn arith_result(ins: Instruction, x: int, y: int) -> Result<int, VMErrorKind> {
    match ins {
        Instruction::Add => if i64::MIN <= x + y <= i64::MAX {
            Ok(x + y)
        } else {
            Err(VMErrorKind::ArithmeticOverflow)
        },
        Instruction::Sub => if i64::MIN <= x - y <= i64::MAX {
            Ok(x - y)
        } else {
            Err(VMErrorKind::ArithmeticOverflow)
        },
        Instruction::Mul => if i64::MIN <= x * y <= i64::MAX {
            Ok(x * y)
        } else {
            Err(VMErrorKind::ArithmeticOverflow)
        },
        Instruction::Div => if y == 0 {
            Err(VMErrorKind::DivisionByZero)
        } else if i64::MIN <= trunc_div(x, y) <= i64::MAX {
            Ok(trunc_div(x, y))
        } else {
            Err(VMErrorKind::ArithmeticOverflow)
        },
        _ => arbitrary(),
    }
}

/// One step of the machine.
///
/// The pointer at or past the end of the stream is normal termination.
/// Otherwise the instruction at the pointer executes and the pointer
/// advances by one unless the instruction itself moved it: jumps displace it
/// by their whole operand, a function-body header hops over the body, a call
/// of a compiled function saves the pointer and enters the body, `Return`
/// resumes one past the saved pointer (the call's `Args` marker, which
/// executes as a no-op).
///
/// A call that resolves to no compiled function falls through to the native
/// path: the argument count comes from the `Args` marker after the call, the
/// arguments are popped and recorded, and nothing is pushed back — native
/// results are dropped in this call protocol.  A name in neither table is an
/// `UnresolvedFunction` fault.
pub open spec fn step_model(m: MachineModel) -> StepRes {
    if !(0 <= m.ip < m.code.len()) {
        StepRes::Halt
    } else {
        let sp = m.stack.len() as int;
        match m.code[m.ip] {
            Instruction::Constant(idx) => if idx < m.consts.len() {
                StepRes::Next(
                    MachineModel { stack: m.stack.push(m.consts[idx as int]), ip: m.ip + 1, ..m },
                )
            } else {
                StepRes::Fault(VMErrorKind::InvalidBytecode)
            },
            Instruction::Add | Instruction::Sub | Instruction::Mul | Instruction::Div => if sp
                < 2 {
                StepRes::Fault(VMErrorKind::StackUnderflow)
            } else {
                match (m.stack[sp - 1], m.stack[sp - 2]) {
                    (AbsValue::Int64(x), AbsValue::Int64(y)) => match arith_result(
                        m.code[m.ip],
                        x,
                        y,
                    ) {
                        Ok(r) => StepRes::Next(
                            MachineModel {
                                stack: m.stack.take(sp - 2).push(AbsValue::Int64(r)),
                                ip: m.ip + 1,
                                ..m
                            },
                        ),
                        Err(k) => StepRes::Fault(k),
                    },
                    _ => StepRes::Fault(VMErrorKind::TypeMismatch),
                }
            },
            Instruction::Less | Instruction::Greater | Instruction::LessEq
                | Instruction::GreaterEq => if sp < 2 {
                StepRes::Fault(VMErrorKind::StackUnderflow)
            } else {
                let o = val_cmp(m.stack[sp - 1], m.stack[sp - 2]);
                StepRes::Next(
                    MachineModel {
                        stack: m.stack.take(sp - 2).push(
                            AbsValue::Boolean(cmp_answer(m.code[m.ip], o)),
                        ),
                        ip: m.ip + 1,
                        ..m
                    },
                )
            },
            Instruction::Equal => if sp < 2 {
                StepRes::Fault(VMErrorKind::StackUnderflow)
            } else {
                StepRes::Next(
                    MachineModel {
                        stack: m.stack.take(sp - 2).push(
                            AbsValue::Boolean(val_eq(m.stack[sp - 1], m.stack[sp - 2])),
                        ),
                        ip: m.ip + 1,
                        ..m
                    },
                )
            },
            Instruction::Concat => if sp < 2 {
                StepRes::Fault(VMErrorKind::StackUnderflow)
            } else {
                StepRes::Next(
                    MachineModel {
                        stack: m.stack.take(sp - 2).push(
                            AbsValue::Str(
                                text_of(m.stack[sp - 1]) + text_of(m.stack[sp - 2]),
                            ),
                        ),
                        ip: m.ip + 1,
                        ..m
                    },
                )
            },
            Instruction::Load(idx) => if idx < m.consts.len() {
                match m.consts[idx as int] {
                    AbsValue::Str(name) => if m.globals.contains_key(name) {
                        StepRes::Next(
                            MachineModel { stack: m.stack.push(m.globals[name]), ip: m.ip + 1, ..m },
                        )
                    } else {
                        StepRes::Fault(VMErrorKind::UndeclaredVariable)
                    },
                    _ => StepRes::Fault(VMErrorKind::InvalidBytecode),
                }
            } else {
                StepRes::Fault(VMErrorKind::InvalidBytecode)
            },
            Instruction::Assign(idx) => if idx < m.consts.len() {
                match m.consts[idx as int] {
                    AbsValue::Str(name) => if sp < 1 {
                        StepRes::Fault(VMErrorKind::StackUnderflow)
                    } else {
                        StepRes::Next(
                            MachineModel {
                                globals: m.globals.insert(name, m.stack[sp - 1]),
                                ip: m.ip + 1,
                                ..m
                            },
                        )
                    },
                    _ => StepRes::Fault(VMErrorKind::InvalidBytecode),
                }
            } else {
                StepRes::Fault(VMErrorKind::InvalidBytecode)
            },
            Instruction::VarDecl => if sp < 1 {
                StepRes::Fault(VMErrorKind::StackUnderflow)
            } else {
                match m.stack[sp - 1] {
                    AbsValue::Str(name) => StepRes::Next(
                        MachineModel {
                            globals: m.globals.insert(name, AbsValue::Int32(0)),
                            stack: m.stack.take(sp - 1).push(AbsValue::Int32(0)),
                            ip: m.ip + 1,
                            ..m
                        },
                    ),
                    _ => StepRes::Fault(VMErrorKind::InvalidBytecode),
                }
            },
            Instruction::DefineArray(n) => if sp < n {
                StepRes::Fault(VMErrorKind::StackUnderflow)
            } else {
                StepRes::Next(
                    MachineModel {
                        stack: m.stack.take(sp - n).push(
                            AbsValue::Array(m.stack.subrange(sp - n, sp)),
                        ),
                        ip: m.ip + 1,
                        ..m
                    },
                )
            },
            Instruction::Call(idx) => if idx < m.consts.len() {
                match m.consts[idx as int] {
                    AbsValue::Str(name) => if m.funcs.contains_key(name) {
                        let f = m.funcs[name];
                        let p = f.params.len() as int;
                        if sp < p {
                            StepRes::Fault(VMErrorKind::StackUnderflow)
                        } else {
                            StepRes::Next(
                                MachineModel {
                                    globals: bind_params(
                                        m.globals,
                                        f.params,
                                        m.stack.subrange(sp - p, sp),
                                        p,
                                    ),
                                    stack: m.stack.take(sp - p),
                                    calls: m.calls.push(m.ip),
                                    ip: f.entry,
                                    ..m
                                },
                            )
                        }
                    } else if m.natives.contains(name) {
                        if m.ip + 1 < m.code.len() {
                            match m.code[m.ip + 1] {
                                Instruction::Args(n) => if sp < n {
                                    StepRes::Fault(VMErrorKind::StackUnderflow)
                                } else {
                                    StepRes::Next(
                                        MachineModel {
                                            stack: m.stack.take(sp - n),
                                            effects: m.effects.push(
                                                (name, m.stack.subrange(sp - n, sp)),
                                            ),
                                            ip: m.ip + 2,
                                            ..m
                                        },
                                    )
                                },
                                _ => StepRes::Fault(VMErrorKind::InvalidBytecode),
                            }
                        } else {
                            StepRes::Fault(VMErrorKind::InvalidBytecode)
                        }
                    } else {
                        StepRes::Fault(VMErrorKind::UnresolvedFunction)
                    },
                    _ => StepRes::Fault(VMErrorKind::InvalidBytecode),
                }
            } else {
                StepRes::Fault(VMErrorKind::InvalidBytecode)
            },
            Instruction::Args(_) => StepRes::Next(MachineModel { ip: m.ip + 1, ..m }),
            Instruction::Jump(n) => StepRes::Next(MachineModel { ip: m.ip + n, ..m }),
            Instruction::JumpIfFalse(n) => if sp < 1 {
                StepRes::Fault(VMErrorKind::StackUnderflow)
            } else {
                StepRes::Next(
                    MachineModel {
                        stack: m.stack.take(sp - 1),
                        ip: if truthy_spec(m.stack[sp - 1]) {
                            m.ip + 1
                        } else {
                            m.ip + n
                        },
                        ..m
                    },
                )
            },
            Instruction::FunctionDef(n) => StepRes::Next(
                MachineModel { ip: m.ip + n + 1, ..m },
            ),
            Instruction::Return => if m.calls.len() == 0 {
                StepRes::Fault(VMErrorKind::InvalidBytecode)
            } else {
                StepRes::Next(
                    MachineModel {
                        ip: m.calls.last() + 1,
                        calls: m.calls.take(m.calls.len() - 1),
                        ..m
                    },
                )
            },
        }
    }
}

/// What a bounded run yields: the machine ran to the end of the stream, ran
/// out of its step budget, or faulted.
pub enum RunRes {
    Halted(MachineModel),
    Out(MachineModel),
    Fault(VMErrorKind),
}

/// Up to `n` further steps of the machine; see `step_model`.  A machine that
/// has halted is `Halted` whatever the budget; with budget left, a faulting
/// step faults the run and any other step consumes one unit.
pub open spec fn run_model(m: MachineModel, n: nat) -> RunRes
    decreases n,
{
    if step_model(m) is Halt {
        RunRes::Halted(m)
    } else if n == 0 {
        RunRes::Out(m)
    } else {
        match step_model(m) {
            StepRes::Fault(k) => RunRes::Fault(k),
            StepRes::Next(m2) => run_model(m2, (n - 1) as nat),
            StepRes::Halt => RunRes::Halted(m),
        }
    }
}

/// A machine about to execute a program from its start: pointer at zero,
/// stacks and globals empty, nothing recorded.
pub open spec fn boot_machine(
    code: Seq<Instruction>,
    consts: Seq<AbsValue>,
    funcs: Map<Seq<char>, AbsFn>,
    natives: Set<Seq<char>>,
) -> MachineModel {
    MachineModel {
        code,
        consts,
        funcs,
        natives,
        ip: 0,
        stack: Seq::empty(),
        calls: Seq::empty(),
        globals: Map::empty(),
        effects: Seq::empty(),
    }
}

/// `n` consecutive successful steps of the machine; `None` if the machine
/// halts or faults within them.
pub open spec fn steps_model(m: MachineModel, n: nat) -> Option<MachineModel>
    decreases n,
{
    if n == 0 {
        Some(m)
    } else {
        match step_model(m) {
            StepRes::Next(m2) => steps_model(m2, (n - 1) as nat),
            _ => None,
        }
    }
}

/// Successful step blocks compose.
pub proof fn lemma_steps_compose(m: MachineModel, a: nat, b: nat)
    requires
        steps_model(m, a) is Some,
    ensures
        steps_model(m, a + b) == steps_model(steps_model(m, a)->Some_0, b),
    decreases a,
{
    if a > 0 {
        lemma_steps_compose(step_model(m)->Next_0, (a - 1) as nat, b);
    }
}

/// A run whose budget covers the steps to a halted state halts there.
pub proof fn lemma_run_to_halt(m: MachineModel, n: nat, fuel: nat)
    requires
        fuel >= n,
        steps_model(m, n) is Some,
        step_model(steps_model(m, n)->Some_0) is Halt,
    ensures
        run_model(m, fuel) == RunRes::Halted(steps_model(m, n)->Some_0),
    decreases n,
{
    if n > 0 {
        lemma_run_to_halt(step_model(m)->Next_0, (n - 1) as nat, (fuel - 1) as nat);
    }
}

/// The constant a `Constant` instruction at `pos` pushes.
pub open spec fn const_at(m: MachineModel, pos: int) -> AbsValue {
    match m.code[pos] {
        Instruction::Constant(idx) => m.consts[idx as int],
        _ => arbitrary(),
    }
}

/// Running a block of in-range `Constant` instructions pushes exactly the
/// named constants, in order.
pub proof fn lemma_run_constants(m: MachineModel, cnt: nat)
    requires
        0 <= m.ip,
        m.ip + cnt <= m.code.len(),
        forall|j: int|
            0 <= j < cnt ==> ({
                &&& (#[trigger] m.code[m.ip + j]) matches Instruction::Constant(idx)
                &&& idx < m.consts.len()
            }),
    ensures
        steps_model(m, cnt) == Some(
            MachineModel {
                ip: m.ip + cnt,
                stack: m.stack + Seq::new(cnt, |j: int| const_at(m, m.ip + j)),
                ..m
            },
        ),
    decreases cnt,
{
    if cnt == 0 {
        assert(m.stack + Seq::new(0, |j: int| const_at(m, m.ip + j)) =~= m.stack);
        assert(MachineModel {
            ip: m.ip,
            stack: m.stack + Seq::new(0, |j: int| const_at(m, m.ip + j)),
            ..m
        } =~= m);
    } else {
        assert({
            &&& m.code[m.ip + 0] matches Instruction::Constant(idx)
            &&& idx < m.consts.len()
        });
        let m1 = step_model(m)->Next_0;
        assert forall|j: int| 0 <= j < cnt - 1 implies ({
            &&& (#[trigger] m1.code[m1.ip + j]) matches Instruction::Constant(idx)
            &&& idx < m1.consts.len()
        }) by {
            assert({
                &&& m.code[m.ip + (j + 1)] matches Instruction::Constant(idx)
                &&& idx < m.consts.len()
            });
            assert(m1.code[m1.ip + j] == m.code[m.ip + (j + 1)]);
        }
        lemma_run_constants(m1, (cnt - 1) as nat);
        assert(forall|j: int|
            0 <= j < cnt - 1 ==> #[trigger] const_at(m1, m1.ip + j) == const_at(m, m.ip + 1 + j));
        assert(m1.stack + Seq::new((cnt - 1) as nat, |j: int| const_at(m1, m1.ip + j)) =~= m.stack
            + Seq::new(cnt, |j: int| const_at(m, m.ip + j)));
        assert(MachineModel {
            ip: m1.ip + (cnt - 1),
            stack: m1.stack + Seq::new((cnt - 1) as nat, |j: int| const_at(m1, m1.ip + j)),
            ..m1
        } =~= MachineModel {
            ip: m.ip + cnt,
            stack: m.stack + Seq::new(cnt, |j: int| const_at(m, m.ip + j)),
            ..m
        });
    }
}

/// What a correct step implementation does: report the halt without moving,
/// step to exactly the successor machine, or surface the fault of the
/// faulting step.
pub open spec fn step_ens(m0: MachineModel, m1: MachineModel, r: Result<bool, VMError>) -> bool {
    match step_model(m0) {
        StepRes::Halt => r == Ok::<bool, VMError>(false) && m1 == m0,
        StepRes::Next(m2) => r == Ok::<bool, VMError>(true) && m1 == m2,
        StepRes::Fault(k) => r matches Err(e) && e.kind == k,
    }
}

/// The virtual machine: one compiled program plus its execution state.
#[derive(Debug)]
pub struct VM {
    pub chunk: Chunk,
    pub consts: Vec<Value>,
    pub funcs: NameTable<VMFunction>,
    pub natives: Vec<String>,
    pub ip: usize,
    pub stack: Vec<Value>,
    pub calls: Vec<usize>,
    pub globals: NameTable<Value>,
    pub effects: Vec<NativeEffect>,
}

impl VM {
    /// The machine this state denotes.
    pub open spec fn model(self) -> MachineModel {
        MachineModel {
            code: self.chunk.code@,
            consts: self.consts.deep_view(),
            funcs: self.funcs.model(),
            natives: native_names(self.natives@),
            ip: self.ip as int,
            stack: self.stack.deep_view(),
            calls: ints_of(self.calls@),
            globals: self.globals.model(),
            effects: self.effects.deep_view(),
        }
    }

    /// A machine at the start of a compiled program, with the given native
    /// function names registered.
    pub fn new(program: Program, natives: Vec<String>) -> (r: VM)
        ensures
            r.model() == boot_machine(
                program.chunk.code@,
                program.consts.deep_view(),
                program.funcs.model(),
                native_names(natives@),
            ),
            program.chunk.code@.len() + 257 <= usize::MAX ==> r.wf(),
    {
        let Program { chunk, consts, funcs } = program;
        let r = VM {
            chunk,
            consts,
            funcs,
            natives,
            ip: 0,
            stack: Vec::new(),
            calls: Vec::new(),
            globals: NameTable::new(),
            effects: Vec::new(),
        };
        proof {
            assert(r.stack.deep_view() =~= Seq::<AbsValue>::empty());
            assert(ints_of(r.calls@) =~= Seq::<int>::empty());
            assert(r.effects.deep_view() =~= Seq::<(Seq<char>, Seq<AbsValue>)>::empty());
            assert(r.model() =~= (MachineModel {
                code: r.chunk.code@,
                consts: r.consts.deep_view(),
                funcs: r.funcs.model(),
                natives: native_names(r.natives@),
                ip: 0,
                stack: Seq::empty(),
                calls: Seq::empty(),
                globals: Map::empty(),
                effects: Seq::empty(),
            }));
        }
        r
    }

    /// Whether `name` is a registered native function.
    fn native_registered(&self, name: &String) -> (r: bool)
        ensures
            r == native_names(self.natives@).contains(name@),
    {
        let mut i: usize = 0;
        while i < self.natives.len()
            invariant
                i <= self.natives@.len(),
                forall|j: int| 0 <= j < i ==> (#[trigger] self.natives@[j])@ != name@,
            decreases self.natives@.len() - i,
        {
            if self.natives[i].eq(name) {
                return true;
            }
            i = i + 1;
        }
        false
    }

    /// Machine limits that every step keeps: the instruction stream leaves
    /// room for the largest one-step pointer displacement, and every saved
    /// return address points into the stream.
    pub open spec fn wf(self) -> bool {
        &&& self.chunk.code@.len() + 257 <= usize::MAX
        &&& forall|i: int|
            0 <= i < self.calls@.len() ==> (#[trigger] self.calls@[i]) < self.chunk.code@.len()
    }

    /// Executes the `Constant` at the pointer.
    fn op_constant(&mut self, idx: u8) -> (r: Result<bool, VMError>)
        requires
            old(self).wf(),
            0 <= old(self).model().ip < old(self).model().code.len(),
            old(self).model().code[old(self).model().ip] == Instruction::Constant(idx),
        ensures
            final(self).wf(),
            step_ens(old(self).model(), final(self).model(), r),
    {
        if (idx as usize) >= self.consts.len() {
            return Err(
                VMError::new(
                    VMErrorKind::InvalidBytecode,
                    String::from_str("constant index out of range"),
                ),
            );
        }
        let v = self.consts[idx as usize].deep_clone();
        self.stack.push(v);
        self.ip = self.ip + 1;
        proof {
            assert(self.stack.deep_view() =~= old(self).stack.deep_view().push(
                old(self).consts.deep_view()[idx as int],
            ));
            assert(final(self).model() =~= step_model(old(self).model())->Next_0);
        }
        Ok(true)
    }

    /// Executes the arithmetic instruction at the pointer.
    fn op_arith(&mut self, ins: Instruction) -> (r: Result<bool, VMError>)
        requires
            old(self).wf(),
            0 <= old(self).model().ip < old(self).model().code.len(),
            old(self).model().code[old(self).model().ip] == ins,
            ins == Instruction::Add || ins == Instruction::Sub || ins == Instruction::Mul || ins
                == Instruction::Div,
        ensures
            final(self).wf(),
            step_ens(old(self).model(), final(self).model(), r),
    {
        if self.stack.len() < 2 {
            return Err(
                VMError::new(
                    VMErrorKind::StackUnderflow,
                    String::from_str("arithmetic needs two stack values"),
                ),
            );
        }
        let a = self.stack.pop().unwrap();
        let b = self.stack.pop().unwrap();
        match (a, b) {
            (Value::Int64(x), Value::Int64(y)) => {
                let checked: Option<i64> = if matches!(ins, Instruction::Add) {
                    x.checked_add(y)
                } else if matches!(ins, Instruction::Sub) {
                    x.checked_sub(y)
                } else if matches!(ins, Instruction::Mul) {
                    x.checked_mul(y)
                } else {
                    if y == 0 {
                        return Err(
                            VMError::new(
                                VMErrorKind::DivisionByZero,
                                String::from_str("division by zero"),
                            ),
                        );
                    }
                    x.checked_div(y)
                };
                match checked {
                    Some(v) => {
                        self.stack.push(Value::Int64(v));
                        self.ip = self.ip + 1;
                        proof {
                            assert(self.stack.deep_view() =~= old(self).stack.deep_view().take(
                                old(self).stack.deep_view().len() - 2,
                            ).push(AbsValue::Int64(v as int)));
                            assert(final(self).model() =~= step_model(old(self).model())->Next_0);
                        }
                        Ok(true)
                    },
                    None => Err(
                        VMError::new(
                            VMErrorKind::ArithmeticOverflow,
                            String::from_str("arithmetic outside the 64-bit range"),
                        ),
                    ),
                }
            },
            _ => Err(
                VMError::new(
                    VMErrorKind::TypeMismatch,
                    String::from_str("arithmetic on a non-numeric operand pair"),
                ),
            ),
        }
    }

    /// Executes the ordering comparison at the pointer.
    fn op_compare(&mut self, ins: Instruction) -> (r: Result<bool, VMError>)
        requires
            old(self).wf(),
            0 <= old(self).model().ip < old(self).model().code.len(),
            old(self).model().code[old(self).model().ip] == ins,
            ins == Instruction::Less || ins == Instruction::Greater || ins == Instruction::LessEq
                || ins == Instruction::GreaterEq,
        ensures
            final(self).wf(),
            step_ens(old(self).model(), final(self).model(), r),
    {
        if self.stack.len() < 2 {
            return Err(
                VMError::new(
                    VMErrorKind::StackUnderflow,
                    String::from_str("comparison needs two stack values"),
                ),
            );
        }
        let a = self.stack.pop().unwrap();
        let b = self.stack.pop().unwrap();
        let o = a.value_cmp(&b);
        let ans = if matches!(ins, Instruction::Less) {
            matches!(o, OrderRel::Less)
        } else if matches!(ins, Instruction::Greater) {
            matches!(o, OrderRel::Greater)
        } else if matches!(ins, Instruction::LessEq) {
            matches!(o, OrderRel::Less) || matches!(o, OrderRel::Equal)
        } else {
            matches!(o, OrderRel::Greater) || matches!(o, OrderRel::Equal)
        };
        self.stack.push(Value::Boolean(ans));
        self.ip = self.ip + 1;
        proof {
            assert(self.stack.deep_view() =~= old(self).stack.deep_view().take(
                old(self).stack.deep_view().len() - 2,
            ).push(AbsValue::Boolean(ans)));
            assert(final(self).model() =~= step_model(old(self).model())->Next_0);
        }
        Ok(true)
    }

    /// Executes the `Equal` at the pointer.
    fn op_equal(&mut self) -> (r: Result<bool, VMError>)
        requires
            old(self).wf(),
            0 <= old(self).model().ip < old(self).model().code.len(),
            old(self).model().code[old(self).model().ip] == Instruction::Equal,
        ensures
            final(self).wf(),
            step_ens(old(self).model(), final(self).model(), r),
    {
        if self.stack.len() < 2 {
            return Err(
                VMError::new(
                    VMErrorKind::StackUnderflow,
                    String::from_str("equality needs two stack values"),
                ),
            );
        }
        let a = self.stack.pop().unwrap();
        let b = self.stack.pop().unwrap();
        let ans = a.value_eq(&b);
        self.stack.push(Value::Boolean(ans));
        self.ip = self.ip + 1;
        proof {
            assert(self.stack.deep_view() =~= old(self).stack.deep_view().take(
                old(self).stack.deep_view().len() - 2,
            ).push(AbsValue::Boolean(ans)));
            assert(final(self).model() =~= step_model(old(self).model())->Next_0);
        }
        Ok(true)
    }

    /// Executes the `Concat` at the pointer.
    fn op_concat(&mut self) -> (r: Result<bool, VMError>)
        requires
            old(self).wf(),
            0 <= old(self).model().ip < old(self).model().code.len(),
            old(self).model().code[old(self).model().ip] == Instruction::Concat,
        ensures
            final(self).wf(),
            step_ens(old(self).model(), final(self).model(), r),
    {
        if self.stack.len() < 2 {
            return Err(
                VMError::new(
                    VMErrorKind::StackUnderflow,
                    String::from_str("concatenation needs two stack values"),
                ),
            );
        }
        let a = self.stack.pop().unwrap();
        let b = self.stack.pop().unwrap();
        let mut s = a.to_text();
        let tb = b.to_text();
        s.append(tb.as_str());
        self.stack.push(Value::Str(s));
        self.ip = self.ip + 1;
        proof {
            assert(self.stack.deep_view() =~= old(self).stack.deep_view().take(
                old(self).stack.deep_view().len() - 2,
            ).push(AbsValue::Str(text_of(a.abs()) + text_of(b.abs()))));
            assert(final(self).model() =~= step_model(old(self).model())->Next_0);
        }
        Ok(true)
    }

    /// Executes the `Load` at the pointer.
    fn op_load(&mut self, idx: u8) -> (r: Result<bool, VMError>)
        requires
            old(self).wf(),
            0 <= old(self).model().ip < old(self).model().code.len(),
            old(self).model().code[old(self).model().ip] == Instruction::Load(idx),
        ensures
            final(self).wf(),
            step_ens(old(self).model(), final(self).model(), r),
    {
        if (idx as usize) >= self.consts.len() {
            return Err(
                VMError::new(
                    VMErrorKind::InvalidBytecode,
                    String::from_str("constant index out of range"),
                ),
            );
        }
        let looked = match &self.consts[idx as usize] {
            Value::Str(name) => self.globals.get(name),
            _ => {
                return Err(
                    VMError::new(
                        VMErrorKind::InvalidBytecode,
                        String::from_str("name operand is not a string constant"),
                    ),
                );
            },
        };
        match looked {
            Some(v) => {
                let c = v.deep_clone();
                self.stack.push(c);
                self.ip = self.ip + 1;
                proof {
                    assert(final(self).model() =~= step_model(old(self).model())->Next_0);
                }
                Ok(true)
            },
            None => Err(
                VMError::new(
                    VMErrorKind::UndeclaredVariable,
                    String::from_str("read of a variable that was never declared"),
                ),
            ),
        }
    }

    /// Executes the `Assign` at the pointer.
    fn op_assign(&mut self, idx: u8) -> (r: Result<bool, VMError>)
        requires
            old(self).wf(),
            0 <= old(self).model().ip < old(self).model().code.len(),
            old(self).model().code[old(self).model().ip] == Instruction::Assign(idx),
        ensures
            final(self).wf(),
            step_ens(old(self).model(), final(self).model(), r),
    {
        if (idx as usize) >= self.consts.len() {
            return Err(
                VMError::new(
                    VMErrorKind::InvalidBytecode,
                    String::from_str("constant index out of range"),
                ),
            );
        }
        let name = match &self.consts[idx as usize] {
            Value::Str(name) => name.clone(),
            _ => {
                return Err(
                    VMError::new(
                        VMErrorKind::InvalidBytecode,
                        String::from_str("name operand is not a string constant"),
                    ),
                );
            },
        };
        if self.stack.len() < 1 {
            return Err(
                VMError::new(
                    VMErrorKind::StackUnderflow,
                    String::from_str("assignment needs a stack value"),
                ),
            );
        }
        let v = self.stack[self.stack.len() - 1].deep_clone();
        self.globals.insert(name, v);
        self.ip = self.ip + 1;
        proof {
            assert(final(self).model() =~= step_model(old(self).model())->Next_0);
        }
        Ok(true)
    }

    /// Executes the `VarDecl` at the pointer.
    fn op_vardecl(&mut self) -> (r: Result<bool, VMError>)
        requires
            old(self).wf(),
            0 <= old(self).model().ip < old(self).model().code.len(),
            old(self).model().code[old(self).model().ip] == Instruction::VarDecl,
        ensures
            final(self).wf(),
            step_ens(old(self).model(), final(self).model(), r),
    {
        if self.stack.len() < 1 {
            return Err(
                VMError::new(
                    VMErrorKind::StackUnderflow,
                    String::from_str("declaration needs its name on the stack"),
                ),
            );
        }
        let v = self.stack.pop().unwrap();
        match v {
            Value::Str(name) => {
                self.globals.insert(name, Value::Int32(0));
                self.stack.push(Value::Int32(0));
                self.ip = self.ip + 1;
                proof {
                    assert(self.stack.deep_view() =~= old(self).stack.deep_view().take(
                        old(self).stack.deep_view().len() - 1,
                    ).push(AbsValue::Int32(0)));
                    assert(final(self).model() =~= step_model(old(self).model())->Next_0);
                }
                Ok(true)
            },
            _ => Err(
                VMError::new(
                    VMErrorKind::InvalidBytecode,
                    String::from_str("declared name is not a string value"),
                ),
            ),
        }
    }

    /// Executes the `DefineArray` at the pointer.
    fn op_define_array(&mut self, n: u8) -> (r: Result<bool, VMError>)
        requires
            old(self).wf(),
            0 <= old(self).model().ip < old(self).model().code.len(),
            old(self).model().code[old(self).model().ip] == Instruction::DefineArray(n),
        ensures
            final(self).wf(),
            step_ens(old(self).model(), final(self).model(), r),
    {
        let count = n as usize;
        if self.stack.len() < count {
            return Err(
                VMError::new(
                    VMErrorKind::StackUnderflow,
                    String::from_str("array literal needs its elements on the stack"),
                ),
            );
        }
        let start = self.stack.len() - count;
        let elems = self.stack.split_off(start);
        let ghost elems_dv = elems.deep_view();
        let arr = Value::Array(elems);
        proof {
            crate::value::lemma_abs_array(arr);
            assert(crate::value::abs_seq(arr->Array_0@) =~= elems_dv);
            assert(elems_dv =~= old(self).stack.deep_view().subrange(
                old(self).stack.deep_view().len() - count,
                old(self).stack.deep_view().len() as int,
            ));
        }
        self.stack.push(arr);
        self.ip = self.ip + 1;
        proof {
            assert(self.stack.deep_view() =~= old(self).stack.deep_view().take(
                old(self).stack.deep_view().len() - count,
            ).push(AbsValue::Array(old(self).stack.deep_view().subrange(
                old(self).stack.deep_view().len() - count,
                old(self).stack.deep_view().len() as int,
            ))));
            assert(final(self).model() =~= step_model(old(self).model())->Next_0);
        }
        Ok(true)
    }

    /// Executes the `Call` at the pointer: the compiled-function protocol if
    /// the name is in the function table, else the native path, else an
    /// `UnresolvedFunction` fault.
    #[verifier::loop_isolation(false)]
    #[verifier::rlimit(50)]
    fn op_call(&mut self, idx: u8) -> (r: Result<bool, VMError>)
        requires
            old(self).wf(),
            0 <= old(self).model().ip < old(self).model().code.len(),
            old(self).model().code[old(self).model().ip] == Instruction::Call(idx),
        ensures
            final(self).wf(),
            step_ens(old(self).model(), final(self).model(), r),
    {
        if (idx as usize) >= self.consts.len() {
            return Err(
                VMError::new(
                    VMErrorKind::InvalidBytecode,
                    String::from_str("constant index out of range"),
                ),
            );
        }
        let name = match &self.consts[idx as usize] {
            Value::Str(name) => name.clone(),
            _ => {
                return Err(
                    VMError::new(
                        VMErrorKind::InvalidBytecode,
                        String::from_str("called name is not a string constant"),
                    ),
                );
            },
        };
        let found = match self.funcs.get(&name) {
            Some(f) => Some((crate::value::clone_names(&f.params), f.entry)),
            None => None,
        };
        match found {
            Some((params, entry)) => {
                let p = params.len();
                proof {
                    assert(params.deep_view() =~= old(self).model().funcs[name@].params);
                }
                if self.stack.len() < p {
                    return Err(
                        VMError::new(
                            VMErrorKind::StackUnderflow,
                            String::from_str("call needs one stack value per parameter"),
                        ),
                    );
                }
                let start = self.stack.len() - p;
                let vals = self.stack.split_off(start);
                let ghost pdv = params.deep_view();
                let ghost vdv = vals.deep_view();
                let ghost g0 = old(self).globals.model();
                proof {
                    assert(vdv =~= old(self).stack.deep_view().subrange(
                        old(self).stack.deep_view().len() - p,
                        old(self).stack.deep_view().len() as int,
                    ));
                }
                let mut k: usize = p;
                while k > 0
                    invariant
                        k <= p,
                        p == pdv.len(),
                        p == vdv.len(),
                        params.deep_view() == pdv,
                        vals.deep_view() == vdv,
                        bind_params(self.globals.model(), pdv, vdv, k as int) == bind_params(
                            g0,
                            pdv,
                            vdv,
                            p as int,
                        ),
                        self.chunk == old(self).chunk,
                        self.consts == old(self).consts,
                        self.funcs == old(self).funcs,
                        self.natives == old(self).natives,
                        self.ip == old(self).ip,
                        self.stack == self.stack,
                        self.stack.deep_view() == old(self).stack.deep_view().take(
                            old(self).stack.deep_view().len() - p,
                        ),
                        self.calls == old(self).calls,
                        self.effects == old(self).effects,
                    decreases k,
                {
                    k = k - 1;
                    let v = vals[k].deep_clone();
                    self.globals.insert(params[k].clone(), v);
                }
                self.calls.push(self.ip);
                self.ip = entry;
                proof {
                    assert(ints_of(self.calls@) =~= ints_of(old(self).calls@).push(
                        old(self).ip as int,
                    ));
                    assert(final(self).model() =~= step_model(old(self).model())->Next_0);
                }
                Ok(true)
            },
            None => {
                if self.native_registered(&name) {
                    if self.ip + 1 >= self.chunk.code.len() {
                        return Err(
                            VMError::new(
                                VMErrorKind::InvalidBytecode,
                                String::from_str("native call without its argument marker"),
                            ),
                        );
                    }
                    match self.chunk.code[self.ip + 1] {
                        Instruction::Args(n) => {
                            let count = n as usize;
                            if self.stack.len() < count {
                                return Err(
                                    VMError::new(
                                        VMErrorKind::StackUnderflow,
                                        String::from_str(
                                            "native call needs its arguments on the stack",
                                        ),
                                    ),
                                );
                            }
                            let start = self.stack.len() - count;
                            let args = self.stack.split_off(start);
                            proof {
                                assert(args.deep_view() =~= old(self).stack.deep_view().subrange(
                                    old(self).stack.deep_view().len() - count,
                                    old(self).stack.deep_view().len() as int,
                                ));
                            }
                            self.effects.push(NativeEffect { name, args });
                            self.ip = self.ip + 2;
                            proof {
                                assert(self.effects.deep_view()
                                    =~= old(self).effects.deep_view().push(
                                    step_model(old(self).model())->Next_0.effects.last(),
                                ));
                                assert(final(self).model() =~= step_model(
                                    old(self).model(),
                                )->Next_0);
                            }
                            Ok(true)
                        },
                        _ => Err(
                            VMError::new(
                                VMErrorKind::InvalidBytecode,
                                String::from_str("native call without its argument marker"),
                            ),
                        ),
                    }
                } else {
                    Err(
                        VMError::new(
                            VMErrorKind::UnresolvedFunction,
                            String::from_str("call of a name that no function answers to"),
                        ),
                    )
                }
            },
        }
    }

    /// One fetch-decode-execute step; see `step_model`.  Returns whether the
    /// machine can still run: `Ok(false)` reports that the pointer reached
    /// the end of the stream.
    pub fn step(&mut self) -> (r: Result<bool, VMError>)
        requires
            old(self).wf(),
        ensures
            final(self).wf(),
            step_ens(old(self).model(), final(self).model(), r),
    {
        if self.ip >= self.chunk.code.len() {
            return Ok(false);
        }
        let ins = self.chunk.code[self.ip];
        match ins {
            Instruction::Constant(idx) => self.op_constant(idx),
            Instruction::Add | Instruction::Sub | Instruction::Mul | Instruction::Div => self
                .op_arith(ins),
            Instruction::Less | Instruction::Greater | Instruction::LessEq
                | Instruction::GreaterEq => self.op_compare(ins),
            Instruction::Equal => self.op_equal(),
            Instruction::Concat => self.op_concat(),
            Instruction::Load(idx) => self.op_load(idx),
            Instruction::Assign(idx) => self.op_assign(idx),
            Instruction::VarDecl => self.op_vardecl(),
            Instruction::DefineArray(n) => self.op_define_array(n),
            Instruction::Call(idx) => self.op_call(idx),
            Instruction::Args(_) => {
                self.ip = self.ip + 1;
                proof {
                    assert(final(self).model() =~= step_model(old(self).model())->Next_0);
                }
                Ok(true)
            },
            Instruction::Jump(n) => {
                self.ip = self.ip + n as usize;
                proof {
                    assert(final(self).model() =~= step_model(old(self).model())->Next_0);
                }
                Ok(true)
            },
            Instruction::JumpIfFalse(n) => {
                if self.stack.len() < 1 {
                    return Err(
                        VMError::new(
                            VMErrorKind::StackUnderflow,
                            String::from_str("conditional jump needs a stack value"),
                        ),
                    );
                }
                let v = self.stack.pop().unwrap();
                if v.truthy() {
                    self.ip = self.ip + 1;
                } else {
                    self.ip = self.ip + n as usize;
                }
                proof {
                    assert(self.stack.deep_view() =~= old(self).stack.deep_view().take(
                        old(self).stack.deep_view().len() - 1,
                    ));
                    assert(final(self).model() =~= step_model(old(self).model())->Next_0);
                }
                Ok(true)
            },
            Instruction::FunctionDef(n) => {
                self.ip = self.ip + n as usize + 1;
                proof {
                    assert(final(self).model() =~= step_model(old(self).model())->Next_0);
                }
                Ok(true)
            },
            Instruction::Return => {
                match self.calls.pop() {
                    Some(saved) => {
                        self.ip = saved + 1;
                        proof {
                            assert(ints_of(self.calls@) =~= ints_of(old(self).calls@).take(
                                ints_of(old(self).calls@).len() - 1,
                            ));
                            assert(final(self).model() =~= step_model(old(self).model())->Next_0);
                        }
                        Ok(true)
                    },
                    None => Err(
                        VMError::new(
                            VMErrorKind::InvalidBytecode,
                            String::from_str("return with no saved address"),
                        ),
                    ),
                }
            },
        }
    }

    /// Runs the machine for at most `max_steps` steps; see `run_model`.
    /// Returns `Ok(true)` when the pointer reached the end of the stream and
    /// `Ok(false)` when the budget ran out first.
    #[verifier::loop_isolation(false)]
    pub fn run(&mut self, max_steps: u64) -> (r: Result<bool, VMError>)
        requires
            old(self).wf(),
        ensures
            final(self).wf(),
            match run_model(old(self).model(), max_steps as nat) {
                RunRes::Halted(m) => r == Ok::<bool, VMError>(true) && final(self).model() == m,
                RunRes::Out(m) => r == Ok::<bool, VMError>(false) && final(self).model() == m,
                RunRes::Fault(k) => r matches Err(e) && e.kind == k,
            },
    {
        let mut left: u64 = max_steps;
        loop
            invariant
                self.wf(),
                run_model(self.model(), left as nat) == run_model(
                    old(self).model(),
                    max_steps as nat,
                ),
            decreases left,
        {
            if self.ip >= self.chunk.code.len() {
                return Ok(true);
            }
            if left == 0 {
                return Ok(false);
            }
            match self.step() {
                Ok(_) => {},
                Err(e) => {
                    return Err(e);
                },
            }
            left = left - 1;
        }
    }
}

} // verus!
