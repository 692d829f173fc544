use vstd::prelude::*;
use crate::ast::{AstNode, BinOpKind, ExprValue, Function, NodePosition};
use crate::chunk::{Chunk, Instruction};
use crate::errors::{VMError, VMErrorKind};
use crate::table::NameTable;
use crate::value::{clone_names, AbsFn, AbsValue, Value, VMFunction};

verus! {

broadcast use vstd::std_specs::vec::axiom_vec_index_decreases;

/// Interning equality on constant-pool entries: exact equality of the
/// internable values (numbers, strings, booleans, the absence value); no
/// other variant ever deduplicates.
pub open spec fn const_eq_spec(a: AbsValue, b: AbsValue) -> bool {
    match (a, b) {
        (AbsValue::Int32(x), AbsValue::Int32(y)) => x == y,
        (AbsValue::Int64(x), AbsValue::Int64(y)) => x == y,
        (AbsValue::Str(x), AbsValue::Str(y)) => x == y,
        (AbsValue::Boolean(x), AbsValue::Boolean(y)) => x == y,
        (AbsValue::Null, AbsValue::Null) => true,
        _ => false,
    }
}

/// The first index at or after `i` whose pool entry interns equal to `v`,
/// or the pool length if there is none.
pub open spec fn pool_find(pool: Seq<AbsValue>, v: AbsValue, i: int) -> int
    decreases pool.len() - i,
{
    if 0 <= i < pool.len() {
        if const_eq_spec(pool[i], v) {
            i
        } else {
            pool_find(pool, v, i + 1)
        }
    } else {
        pool.len() as int
    }
}

/// Interning: an already-present value keeps the pool and yields its first
/// index; a new value is appended, unless the pool already holds 256 entries
/// and one more index would not fit in a byte.
pub open spec fn intern_model(pool: Seq<AbsValue>, v: AbsValue) -> Result<
    (Seq<AbsValue>, int),
    VMErrorKind,
> {
    let i = pool_find(pool, v, 0);
    if i < pool.len() {
        Ok((pool, i))
    } else if pool.len() >= 256 {
        Err(VMErrorKind::OperandOverflow)
    } else {
        Ok((pool.push(v), pool.len() as int))
    }
}

/// `pool_find` stays within bounds and, when it finds an index, that entry
/// interns equal to the sought value.
pub proof fn lemma_pool_find(pool: Seq<AbsValue>, v: AbsValue, i: int)
    requires
        0 <= i <= pool.len(),
    ensures
        i <= pool_find(pool, v, i) <= pool.len(),
        pool_find(pool, v, i) < pool.len() ==> const_eq_spec(pool[pool_find(pool, v, i)], v),
    decreases pool.len() - i,
{
    if i < pool.len() && !const_eq_spec(pool[i], v) {
        lemma_pool_find(pool, v, i + 1);
    }
}

/// The compiler state an expression grows: the instructions emitted so far
/// and the program-wide constant pool.
#[verifier::ext_equal]
pub struct CompState {
    pub code: Seq<Instruction>,
    pub pool: Seq<AbsValue>,
}

/// Interning plus a `Constant` instruction for an interned literal.
pub open spec fn emit_const_model(st: CompState, v: AbsValue) -> Result<CompState, VMErrorKind> {
    match intern_model(st.pool, v) {
        Ok((pool, i)) => Ok(
            CompState { code: st.code.push(Instruction::Constant(i as u8)), pool },
        ),
        Err(k) => Err(k),
    }
}

/// Interning of an identifier, yielding the new state and the name's index.
pub open spec fn intern_name_model(st: CompState, name: Seq<char>) -> Result<
    (CompState, u8),
    VMErrorKind,
> {
    match intern_model(st.pool, AbsValue::Str(name)) {
        Ok((pool, i)) => Ok((CompState { code: st.code, pool }, i as u8)),
        Err(k) => Err(k),
    }
}

/// The instruction a non-concatenating binary operator compiles to.
pub open spec fn op_instruction(op: BinOpKind) -> Instruction {
    match op {
        BinOpKind::Add => Instruction::Add,
        BinOpKind::Sub => Instruction::Sub,
        BinOpKind::Mul => Instruction::Mul,
        BinOpKind::Div => Instruction::Div,
        BinOpKind::Less => Instruction::Less,
        BinOpKind::Greater => Instruction::Greater,
        BinOpKind::LessEq => Instruction::LessEq,
        BinOpKind::GreaterEq => Instruction::GreaterEq,
        BinOpKind::Equal => Instruction::Equal,
    }
}

/// Whether a `+` of these operands is string concatenation: a static check,
/// taken whenever either side is syntactically a string literal.
pub open spec fn is_concat(lhs: ExprValue, op: BinOpKind, rhs: ExprValue) -> bool {
    op == BinOpKind::Add && (lhs is Str || rhs is Str)
}

/// What compiling one expression does to a compiler state.
///
/// This is the compilation scheme itself, node kind by node kind:
/// - a literal interns and emits `Constant`;
/// - a binary operation compiles its right operand first, then its left,
///   then the operator instruction, so that the machine's first pop is the
///   left operand; a `+` with a string-literal side emits `Concat` instead;
/// - an assignment compiles its value, then interns the name and emits
///   `Assign`;
/// - a declaration interns the name and emits `Constant` then `VarDecl`;
/// - an identifier interns the name and emits `Load`;
/// - an array literal compiles its elements left to right and emits
///   `DefineArray` with the element count;
/// - a call compiles its arguments left to right, interns the name, and
///   emits `Call` then the `Args` marker with the argument count;
/// - a conditional compiles its condition in place, compiles each branch
///   into a fresh sub-chunk, closes the if-branch with a `Jump` over the
///   else-branch, and guards the whole if-branch with `JumpIfFalse`; both
///   jump operands name the total pointer displacement.
pub open spec fn compile_expr_model(e: ExprValue, st: CompState) -> Result<
    CompState,
    VMErrorKind,
>
    decreases e, 0int,
{
    match e {
        ExprValue::Boolean(b) => emit_const_model(st, AbsValue::Boolean(b)),
        ExprValue::Integer(n) => emit_const_model(st, AbsValue::Int64(n as int)),
        ExprValue::Str(s) => emit_const_model(st, AbsValue::Str(s@)),
        ExprValue::NoneLit => emit_const_model(st, AbsValue::Null),
        ExprValue::Identifier(name) => match intern_name_model(st, name@) {
            Ok((st1, idx)) => Ok(
                CompState { code: st1.code.push(Instruction::Load(idx)), pool: st1.pool },
            ),
            Err(k) => Err(k),
        },
        ExprValue::VarDecl { name, type_ } => match intern_name_model(st, name@) {
            Ok((st1, idx)) => Ok(
                CompState {
                    code: st1.code.push(Instruction::Constant(idx)).push(Instruction::VarDecl),
                    pool: st1.pool,
                },
            ),
            Err(k) => Err(k),
        },
        ExprValue::Assign { name, value } => match compile_expr_model(*value, st) {
            Ok(st1) => match intern_name_model(st1, name@) {
                Ok((st2, idx)) => Ok(
                    CompState { code: st2.code.push(Instruction::Assign(idx)), pool: st2.pool },
                ),
                Err(k) => Err(k),
            },
            Err(k) => Err(k),
        },
        ExprValue::BinOp(lhs, op, rhs) => match compile_expr_model(*rhs, st) {
            Ok(st1) => match compile_expr_model(*lhs, st1) {
                Ok(st2) => {
                    let ins = if is_concat(*lhs, op, *rhs) {
                        Instruction::Concat
                    } else {
                        op_instruction(op)
                    };
                    Ok(CompState { code: st2.code.push(ins), pool: st2.pool })
                },
                Err(k) => Err(k),
            },
            Err(k) => Err(k),
        },
        ExprValue::Array(es) => {
            proof {
                assert(decreases_to!(e => es));
                assert(decreases_to!(es => es@));
            }
            match compile_list_model(es@, 0, st) {
                Ok(st1) => if es@.len() > 255 {
                    Err(VMErrorKind::OperandOverflow)
                } else {
                    Ok(
                        CompState {
                            code: st1.code.push(Instruction::DefineArray(es@.len() as u8)),
                            pool: st1.pool,
                        },
                    )
                },
                Err(k) => Err(k),
            }
        },
        ExprValue::FnCall(name, args) => {
            proof {
                assert(decreases_to!(e => args));
                assert(decreases_to!(args => args@));
            }
            match compile_list_model(args@, 0, st) {
                Ok(st1) => match intern_name_model(st1, name@) {
                    Ok((st2, idx)) => if args@.len() > 255 {
                        Err(VMErrorKind::OperandOverflow)
                    } else {
                        Ok(
                            CompState {
                                code: st2.code.push(Instruction::Call(idx)).push(
                                    Instruction::Args(args@.len() as u8),
                                ),
                                pool: st2.pool,
                            },
                        )
                    },
                    Err(k) => Err(k),
                },
                Err(k) => Err(k),
            }
        },
        ExprValue::IfElse { cond, if_, else_ } => match compile_expr_model(*cond, st) {
            Ok(st1) => match compile_expr_model(
                *if_,
                CompState { code: Seq::empty(), pool: st1.pool },
            ) {
                Ok(stif) => match compile_expr_model(
                    *else_,
                    CompState { code: Seq::empty(), pool: stif.pool },
                ) {
                    Ok(stelse) => {
                        let ilen = stif.code.len();
                        let elen = stelse.code.len();
                        if elen + 1 > 255 || ilen + 2 > 255 {
                            Err(VMErrorKind::OperandOverflow)
                        } else {
                            Ok(
                                CompState {
                                    code: st1.code.push(
                                        Instruction::JumpIfFalse((ilen + 2) as u8),
                                    ) + stif.code.push(Instruction::Jump((elen + 1) as u8))
                                        + stelse.code,
                                    pool: stelse.pool,
                                },
                            )
                        }
                    },
                    Err(k) => Err(k),
                },
                Err(k) => Err(k),
            },
            Err(k) => Err(k),
        },
    }
}

/// What compiling the expressions of `es` from index `i` on, left to right,
/// does to a compiler state.
pub open spec fn compile_list_model(es: Seq<ExprValue>, i: int, st: CompState) -> Result<
    CompState,
    VMErrorKind,
>
    decreases es, es.len() - i,
{
    if 0 <= i < es.len() {
        proof {
            assert(decreases_to!(es => es[i]));
        }
        match compile_expr_model(es[i], st) {
            Ok(st1) => compile_list_model(es, i + 1, st1),
            Err(k) => Err(k),
        }
    } else {
        Ok(st)
    }
}

/// The compiler-state-plus-function-table that a whole program grows.
#[verifier::ext_equal]
pub struct ProgModel {
    pub code: Seq<Instruction>,
    pub pool: Seq<AbsValue>,
    pub funcs: Map<Seq<char>, AbsFn>,
}

/// What compiling one function definition does: the body goes into a fresh
/// sub-chunk, gains a trailing `Return`, and is spliced inline behind a
/// `FunctionDef` header whose operand is the body length; the function table
/// gains the entry offset (the instruction after the header) and the
/// parameter names.
pub open spec fn compile_fn_model(f: Function, st: ProgModel) -> Result<ProgModel, VMErrorKind> {
    match compile_expr_model(f.expression.0, CompState { code: Seq::empty(), pool: st.pool }) {
        Ok(stb) => {
            let body = stb.code.push(Instruction::Return);
            if body.len() > 255 {
                Err(VMErrorKind::OperandOverflow)
            } else {
                Ok(
                    ProgModel {
                        code: st.code.push(Instruction::FunctionDef(body.len() as u8)) + body,
                        pool: stb.pool,
                        funcs: st.funcs.insert(
                            f.name@,
                            AbsFn {
                                params: f.args.name.deep_view(),
                                entry: st.code.len() + 1int,
                            },
                        ),
                    },
                )
            }
        },
        Err(k) => Err(k),
    }
}

/// What compiling the program items from index `i` on does.  Expression
/// items compile in place; function definitions splice their bodies inline
/// and extend the function table; class and foreign declarations belong to
/// collaborators outside this core and are passed over.
pub open spec fn compile_program_model(
    nodes: Seq<(AstNode, NodePosition)>,
    i: int,
    st: ProgModel,
) -> Result<ProgModel, VMErrorKind>
    decreases nodes.len() - i,
{
    if 0 <= i < nodes.len() {
        match nodes[i].0 {
            AstNode::Expression(e) => match compile_expr_model(
                e,
                CompState { code: st.code, pool: st.pool },
            ) {
                Ok(st1) => compile_program_model(
                    nodes,
                    i + 1,
                    ProgModel { code: st1.code, pool: st1.pool, funcs: st.funcs },
                ),
                Err(k) => Err(k),
            },
            AstNode::FunctionDef(f) => match compile_fn_model(f, st) {
                Ok(st1) => compile_program_model(nodes, i + 1, st1),
                Err(k) => Err(k),
            },
            _ => compile_program_model(nodes, i + 1, st),
        }
    } else {
        Ok(st)
    }
}

/// A compiled program: the shared instruction stream, its constant pool,
/// and the function table.
#[derive(Debug)]
pub struct Program {
    pub chunk: Chunk,
    pub consts: Vec<Value>,
    pub funcs: NameTable<VMFunction>,
}

/// The growing compilation context: the program-wide constant pool and
/// function table.  Instructions go into the chunk each call is handed.
pub struct Compiler {
    pub pool: Vec<Value>,
    pub funcs: NameTable<VMFunction>,
}

/// Interning equality on executable values; see `const_eq_spec`.
fn const_eq(a: &Value, b: &Value) -> (r: bool)
    ensures
        r == const_eq_spec(a.abs(), b.abs()),
{
    match (a, b) {
        (Value::Int32(x), Value::Int32(y)) => *x == *y,
        (Value::Int64(x), Value::Int64(y)) => *x == *y,
        (Value::Str(x), Value::Str(y)) => x.eq(y),
        (Value::Boolean(x), Value::Boolean(y)) => *x == *y,
        (Value::Null, Value::Null) => true,
        _ => false,
    }
}

impl Compiler {
    /// The pool never outgrows what a byte-sized operand can index.
    pub open spec fn wf(self) -> bool {
        self.pool@.len() <= 256
    }

    /// A compiler with an empty pool and an empty function table.
    pub fn new() -> (r: Compiler)
        ensures
            r.wf(),
            r.pool.deep_view() == Seq::<AbsValue>::empty(),
            r.funcs.model() == Map::<Seq<char>, AbsFn>::empty(),
    {
        let r = Compiler { pool: Vec::new(), funcs: NameTable::new() };
        proof {
            assert(r.pool.deep_view() =~= Seq::<AbsValue>::empty());
        }
        r
    }

    /// Interns `v` into the pool; see `intern_model`.
    fn intern(&mut self, v: Value) -> (r: Result<u8, VMError>)
        requires
            old(self).wf(),
        ensures
            final(self).wf(),
            final(self).funcs == old(self).funcs,
            match intern_model(old(self).pool.deep_view(), v.abs()) {
                Ok((pool, i)) => r is Ok && final(self).pool.deep_view() == pool
                    && r->Ok_0 as int == i,
                Err(k) => r matches Err(e) && e.kind == k && final(self).pool == old(self).pool,
            },
    {
        let ghost pool0 = self.pool.deep_view();
        let n = self.pool.len();
        let mut i: usize = 0;
        while i < n
            invariant
                n == self.pool@.len(),
                n <= 256,
                i <= n,
                pool0 == self.pool.deep_view(),
                pool_find(pool0, v.abs(), 0) == pool_find(pool0, v.abs(), i as int),
                self.funcs == old(self).funcs,
                self.pool == old(self).pool,
            decreases n - i,
        {
            if const_eq(&self.pool[i], &v) {
                proof {
                    assert(pool0[i as int] == self.pool@[i as int].abs());
                    assert(pool_find(pool0, v.abs(), i as int) == i);
                }
                return Ok(i as u8);
            }
            proof {
                assert(pool0[i as int] == self.pool@[i as int].abs());
                assert(pool_find(pool0, v.abs(), i as int) == pool_find(
                    pool0,
                    v.abs(),
                    i as int + 1,
                ));
            }
            i = i + 1;
        }
        proof {
            assert(pool_find(pool0, v.abs(), n as int) == n as int);
        }
        if n >= 256 {
            return Err(
                VMError::new(
                    VMErrorKind::OperandOverflow,
                    String::from_str("constant pool index does not fit in one byte"),
                ),
            );
        }
        let ghost vabs = v.abs();
        self.pool.push(v);
        proof {
            assert(self.pool.deep_view() =~= pool0.push(vabs));
        }
        Ok(n as u8)
    }

    /// The compiler state that this compiler and a chunk denote together.
    pub open spec fn state_of(self, chunk: Chunk) -> CompState {
        CompState { code: chunk.code@, pool: self.pool.deep_view() }
    }

    /// Interns `v` and emits a `Constant` for it; see `emit_const_model`.
    fn emit_const(&mut self, v: Value, chunk: &mut Chunk, pos: &NodePosition) -> (r: Result<
        (),
        VMError,
    >)
        requires
            old(self).wf(),
            old(chunk).wf(),
        ensures
            final(self).wf(),
            final(chunk).wf(),
            final(self).funcs == old(self).funcs,
            match emit_const_model(old(self).state_of(*old(chunk)), v.abs()) {
                Ok(st) => r is Ok && final(self).state_of(*final(chunk)) == st,
                Err(k) => r matches Err(err) && err.kind == k,
            },
    {
        match self.intern(v) {
            Ok(idx) => {
                chunk.push(Instruction::Constant(idx), pos.clone());
                Ok(())
            },
            Err(e) => Err(e),
        }
    }

    /// Compiles the expressions of `es` in order, left to right; see
    /// `compile_list_model`.
    #[verifier::loop_isolation(false)]
    fn compile_list(&mut self, es: &Vec<ExprValue>, chunk: &mut Chunk, pos: &NodePosition) -> (r:
        Result<(), VMError>)
        requires
            old(self).wf(),
            old(chunk).wf(),
        ensures
            final(self).wf(),
            final(chunk).wf(),
            final(self).funcs == old(self).funcs,
            match compile_list_model(es@, 0, old(self).state_of(*old(chunk))) {
                Ok(st) => r is Ok && final(self).state_of(*final(chunk)) == st,
                Err(k) => r matches Err(err) && err.kind == k,
            },
        decreases *es, 0int,
    {
        let ghost st0 = old(self).state_of(*old(chunk));
        let mut i: usize = 0;
        while i < es.len()
            invariant
                i <= es@.len(),
                self.wf(),
                chunk.wf(),
                self.funcs == old(self).funcs,
                compile_list_model(es@, i as int, self.state_of(*chunk)) == compile_list_model(
                    es@,
                    0,
                    st0,
                ),
            decreases es@.len() - i,
        {
            proof {
                assert(decreases_to!(*es => es@));
                assert(decreases_to!(es@ => es@[i as int]));
            }
            match self.compile_expr(&es[i], chunk, pos) {
                Ok(_) => {},
                Err(e) => {
                    return Err(e);
                },
            }
            i = i + 1;
        }
        Ok(())
    }

    /// Compiles one expression, appending its instructions to `chunk` and
    /// its interned constants to the pool; see `compile_expr_model`.  The
    /// function table never changes: the expression language cannot define
    /// functions.
    #[verifier::loop_isolation(false)]
    #[verifier::rlimit(100)]
    pub fn compile_expr(&mut self, e: &ExprValue, chunk: &mut Chunk, pos: &NodePosition) -> (r:
        Result<(), VMError>)
        requires
            old(self).wf(),
            old(chunk).wf(),
        ensures
            final(self).wf(),
            final(chunk).wf(),
            final(self).funcs == old(self).funcs,
            match compile_expr_model(*e, old(self).state_of(*old(chunk))) {
                Ok(st) => r is Ok && final(self).state_of(*final(chunk)) == st,
                Err(k) => r matches Err(err) && err.kind == k,
            },
        decreases *e, 0int,
    {
        let ghost st0 = old(self).state_of(*old(chunk));
        match e {
            ExprValue::Boolean(b) => self.emit_const(Value::Boolean(*b), chunk, pos),
            ExprValue::Integer(n) => self.emit_const(Value::Int64(*n as i64), chunk, pos),
            ExprValue::Str(s) => self.emit_const(Value::Str(s.clone()), chunk, pos),
            ExprValue::NoneLit => self.emit_const(Value::Null, chunk, pos),
            ExprValue::Identifier(name) => {
                match self.intern(Value::Str(name.clone())) {
                    Ok(idx) => {
                        chunk.push(Instruction::Load(idx), pos.clone());
                        Ok(())
                    },
                    Err(e) => Err(e),
                }
            },
            ExprValue::VarDecl { name, type_: _ } => {
                match self.intern(Value::Str(name.clone())) {
                    Ok(idx) => {
                        chunk.push(Instruction::Constant(idx), pos.clone());
                        chunk.push(Instruction::VarDecl, pos.clone());
                        Ok(())
                    },
                    Err(e) => Err(e),
                }
            },
            ExprValue::Assign { name, value } => {
                match self.compile_expr(value, chunk, pos) {
                    Ok(_) => {},
                    Err(e) => {
                        return Err(e);
                    },
                }
                match self.intern(Value::Str(name.clone())) {
                    Ok(idx) => {
                        chunk.push(Instruction::Assign(idx), pos.clone());
                        Ok(())
                    },
                    Err(e) => Err(e),
                }
            },
            ExprValue::BinOp(lhs, op, rhs) => {
                match self.compile_expr(rhs, chunk, pos) {
                    Ok(_) => {},
                    Err(e) => {
                        return Err(e);
                    },
                }
                match self.compile_expr(lhs, chunk, pos) {
                    Ok(_) => {},
                    Err(e) => {
                        return Err(e);
                    },
                }
                let concat = *op == BinOpKind::Add && (matches!(**lhs, ExprValue::Str(_))
                    || matches!(**rhs, ExprValue::Str(_)));
                let ins = if concat {
                    Instruction::Concat
                } else {
                    match *op {
                        BinOpKind::Add => Instruction::Add,
                        BinOpKind::Sub => Instruction::Sub,
                        BinOpKind::Mul => Instruction::Mul,
                        BinOpKind::Div => Instruction::Div,
                        BinOpKind::Less => Instruction::Less,
                        BinOpKind::Greater => Instruction::Greater,
                        BinOpKind::LessEq => Instruction::LessEq,
                        BinOpKind::GreaterEq => Instruction::GreaterEq,
                        BinOpKind::Equal => Instruction::Equal,
                    }
                };
                chunk.push(ins, pos.clone());
                Ok(())
            },
            ExprValue::Array(es) => {
                proof {
                    assert(decreases_to!(*e => *es));
                }
                match self.compile_list(es, chunk, pos) {
                    Ok(_) => {},
                    Err(e) => {
                        return Err(e);
                    },
                }
                if es.len() > 255 {
                    return Err(
                        VMError::new(
                            VMErrorKind::OperandOverflow,
                            String::from_str("array literal longer than one byte can count"),
                        ),
                    );
                }
                chunk.push(Instruction::DefineArray(es.len() as u8), pos.clone());
                Ok(())
            },
            ExprValue::FnCall(name, args) => {
                proof {
                    assert(decreases_to!(*e => *args));
                }
                match self.compile_list(args, chunk, pos) {
                    Ok(_) => {},
                    Err(e) => {
                        return Err(e);
                    },
                }
                let idx = match self.intern(Value::Str(name.clone())) {
                    Ok(idx) => idx,
                    Err(e) => {
                        return Err(e);
                    },
                };
                if args.len() > 255 {
                    return Err(
                        VMError::new(
                            VMErrorKind::OperandOverflow,
                            String::from_str("call with more arguments than one byte can count"),
                        ),
                    );
                }
                chunk.push(Instruction::Call(idx), pos.clone());
                chunk.push(Instruction::Args(args.len() as u8), pos.clone());
                Ok(())
            },
            ExprValue::IfElse { cond, if_, else_ } => {
                match self.compile_expr(cond, chunk, pos) {
                    Ok(_) => {},
                    Err(e) => {
                        return Err(e);
                    },
                }
                let mut ifc = Chunk::new();
                match self.compile_expr(if_, &mut ifc, pos) {
                    Ok(_) => {},
                    Err(e) => {
                        return Err(e);
                    },
                }
                let mut elc = Chunk::new();
                match self.compile_expr(else_, &mut elc, pos) {
                    Ok(_) => {},
                    Err(e) => {
                        return Err(e);
                    },
                }
                let ilen = ifc.len();
                let elen = elc.len();
                if elen >= 255 || ilen >= 254 {
                    return Err(
                        VMError::new(
                            VMErrorKind::OperandOverflow,
                            String::from_str("conditional branch longer than one byte can jump"),
                        ),
                    );
                }
                chunk.push(Instruction::JumpIfFalse((ilen + 2) as u8), pos.clone());
                ifc.push(Instruction::Jump((elen + 1) as u8), pos.clone());
                chunk.append(ifc);
                chunk.append(elc);
                proof {
                    assert(final(self).state_of(*final(chunk)).code =~= compile_expr_model(
                        *e,
                        st0,
                    )->Ok_0.code);
                }
                Ok(())
            },
        }
    }

    /// The program state that this compiler and a chunk denote together.
    pub open spec fn prog_state_of(self, chunk: Chunk) -> ProgModel {
        ProgModel {
            code: chunk.code@,
            pool: self.pool.deep_view(),
            funcs: self.funcs.model(),
        }
    }

    /// Compiles one function definition, splicing its body inline into
    /// `chunk` and recording it in the function table; see
    /// `compile_fn_model`.
    pub fn compile_fn(&mut self, f: &Function, chunk: &mut Chunk, pos: &NodePosition) -> (r:
        Result<(), VMError>)
        requires
            old(self).wf(),
            old(chunk).wf(),
        ensures
            final(self).wf(),
            final(chunk).wf(),
            match compile_fn_model(*f, old(self).prog_state_of(*old(chunk))) {
                Ok(st) => r is Ok && final(self).prog_state_of(*final(chunk)) == st,
                Err(k) => r matches Err(err) && err.kind == k,
            },
    {
        let ghost st0 = old(self).prog_state_of(*old(chunk));
        let mut body = Chunk::new();
        match self.compile_expr(&f.expression.0, &mut body, &f.expression.1) {
            Ok(_) => {},
            Err(e) => {
                return Err(e);
            },
        }
        body.push(Instruction::Return, f.expression.1.clone());
        let blen = body.len();
        if blen > 255 {
            return Err(
                VMError::new(
                    VMErrorKind::OperandOverflow,
                    String::from_str("function body longer than one byte can measure"),
                ),
            );
        }
        chunk.push(Instruction::FunctionDef(blen as u8), pos.clone());
        let entry = chunk.len();
        let vmf = VMFunction { params: clone_names(&f.args.name), entry };
        proof {
            assert(vmf.abs().params =~= f.args.name.deep_view());
        }
        self.funcs.insert(f.name.clone(), vmf);
        chunk.append(body);
        proof {
            assert(final(self).prog_state_of(*final(chunk)).code =~= compile_fn_model(
                *f,
                st0,
            )->Ok_0.code);
        }
        Ok(())
    }
}

/// Compiles a whole program: one shared instruction stream, one constant
/// pool, and the function table; see `compile_program_model`.
#[verifier::loop_isolation(false)]
pub fn compile_program(nodes: &Vec<(AstNode, NodePosition)>) -> (r: Result<Program, VMError>)
    ensures
        match compile_program_model(
            nodes@,
            0,
            ProgModel {
                code: Seq::empty(),
                pool: Seq::empty(),
                funcs: Map::empty(),
            },
        ) {
            Ok(m) => r matches Ok(p) && p.chunk.wf() && p.chunk.code@ == m.code
                && p.consts.deep_view() == m.pool && p.funcs.model() == m.funcs,
            Err(k) => r matches Err(err) && err.kind == k,
        },
{
    let ghost init = ProgModel {
        code: Seq::<Instruction>::empty(),
        pool: Seq::<AbsValue>::empty(),
        funcs: Map::<Seq<char>, AbsFn>::empty(),
    };
    let mut comp = Compiler::new();
    let mut chunk = Chunk::new();
    proof {
        assert(comp.prog_state_of(chunk) =~= init);
    }
    let mut i: usize = 0;
    while i < nodes.len()
        invariant
            i <= nodes@.len(),
            comp.wf(),
            chunk.wf(),
            compile_program_model(nodes@, i as int, comp.prog_state_of(chunk))
                == compile_program_model(nodes@, 0, init),
        decreases nodes@.len() - i,
    {
        match &nodes[i].0 {
            AstNode::Expression(e) => {
                match comp.compile_expr(e, &mut chunk, &nodes[i].1) {
                    Ok(_) => {},
                    Err(e) => {
                        return Err(e);
                    },
                }
            },
            AstNode::FunctionDef(f) => {
                match comp.compile_fn(f, &mut chunk, &nodes[i].1) {
                    Ok(_) => {},
                    Err(e) => {
                        return Err(e);
                    },
                }
            },
            _ => {},
        }
        i = i + 1;
    }
    Ok(Program { chunk, consts: comp.pool, funcs: comp.funcs })
}

} // verus!
