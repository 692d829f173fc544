use lyronc::ast::{Args, AstNode, BinOpKind, ExprValue, Function, NodePosition};
use lyronc::compiler::compile_program;
use lyronc::errors::VMErrorKind;
use lyronc::value::Value;
use lyronc::vm::VM;

fn pos() -> NodePosition {
    NodePosition { pos: 0, line_no: 1, file: String::from("main") }
}

fn bx(e: ExprValue) -> Box<ExprValue> {
    Box::new(e)
}

fn num_lit(n: i32) -> ExprValue {
    ExprValue::Integer(n)
}

fn string(s: &str) -> ExprValue {
    ExprValue::Str(String::from(s))
}

fn binop(l: ExprValue, op: BinOpKind, r: ExprValue) -> ExprValue {
    ExprValue::BinOp(bx(l), op, bx(r))
}

fn if_else(c: ExprValue, t: ExprValue, e: ExprValue) -> ExprValue {
    ExprValue::IfElse { cond: bx(c), if_: bx(t), else_: bx(e) }
}

fn exprs_to_nodes(es: Vec<ExprValue>) -> Vec<(AstNode, NodePosition)> {
    es.into_iter().map(|e| (AstNode::Expression(e), pos())).collect()
}

/// Compiles and runs a program with no natives registered; panics on a
/// compile fault, hands back the machine or the runtime fault.
fn run_exprs(es: Vec<ExprValue>) -> Result<VM, lyronc::errors::VMError> {
    run_nodes(exprs_to_nodes(es), Vec::new())
}

fn run_nodes(
    nodes: Vec<(AstNode, NodePosition)>,
    natives: Vec<String>,
) -> Result<VM, lyronc::errors::VMError> {
    let program = compile_program(&nodes).expect("program should compile");
    let mut vm = VM::new(program, natives);
    match vm.run(100_000) {
        Ok(true) => Ok(vm),
        Ok(false) => panic!("step budget exhausted"),
        Err(e) => Err(e),
    }
}

fn top(vm: &VM) -> &Value {
    vm.stack.last().expect("stack should hold a result")
}

#[test]
fn subtraction_is_left_minus_right() {
    let vm = run_exprs(vec![binop(num_lit(10), BinOpKind::Sub, num_lit(3))]).unwrap();
    assert_eq!(*top(&vm), Value::Int64(7));
}

#[test]
fn division_is_left_over_right() {
    let vm = run_exprs(vec![binop(num_lit(10), BinOpKind::Div, num_lit(3))]).unwrap();
    assert_eq!(*top(&vm), Value::Int64(3));
}

#[test]
fn array_literal_preserves_declaration_order() {
    let vm = run_exprs(vec![ExprValue::Array(vec![num_lit(1), num_lit(2), num_lit(3)])]).unwrap();
    assert_eq!(
        *top(&vm),
        Value::Array(vec![Value::Int64(1), Value::Int64(2), Value::Int64(3)])
    );
}

#[test]
fn concat_string_then_number() {
    let vm = run_exprs(vec![binop(string("a"), BinOpKind::Add, num_lit(1))]).unwrap();
    assert_eq!(*top(&vm), Value::Str(String::from("a1")));
}

#[test]
fn concat_number_then_string() {
    let vm = run_exprs(vec![binop(num_lit(1), BinOpKind::Add, string("a"))]).unwrap();
    assert_eq!(*top(&vm), Value::Str(String::from("1a")));
}

#[test]
fn zero_is_truthy() {
    let vm = run_exprs(vec![if_else(num_lit(0), num_lit(1), num_lit(2))]).unwrap();
    assert_eq!(*top(&vm), Value::Int64(1));
}

#[test]
fn empty_string_is_truthy() {
    let vm = run_exprs(vec![if_else(string(""), num_lit(1), num_lit(2))]).unwrap();
    assert_eq!(*top(&vm), Value::Int64(1));
}

#[test]
fn none_is_falsy() {
    let vm = run_exprs(vec![if_else(ExprValue::NoneLit, num_lit(1), num_lit(2))]).unwrap();
    assert_eq!(*top(&vm), Value::Int64(2));
}

/// A three-level nested conditional on three boolean literals: each of the
/// eight combinations must reach the leaf a direct reading of the tree
/// picks.
#[test]
fn nested_conditionals_reach_the_right_leaf() {
    for mask in 0..8u32 {
        let b1 = mask & 4 != 0;
        let b2 = mask & 2 != 0;
        let b3 = mask & 1 != 0;
        let leaf = |n: i32| num_lit(n);
        let tree = if_else(
            ExprValue::Boolean(b1),
            if_else(
                ExprValue::Boolean(b2),
                if_else(ExprValue::Boolean(b3), leaf(0), leaf(1)),
                if_else(ExprValue::Boolean(b3), leaf(2), leaf(3)),
            ),
            if_else(
                ExprValue::Boolean(b2),
                if_else(ExprValue::Boolean(b3), leaf(4), leaf(5)),
                if_else(ExprValue::Boolean(b3), leaf(6), leaf(7)),
            ),
        );
        let expected = {
            let first = if b1 { 0 } else { 4 };
            let second = if b2 { 0 } else { 2 };
            let third = if b3 { 0 } else { 1 };
            (first + second + third) as i64
        };
        let vm = run_exprs(vec![tree]).unwrap();
        assert_eq!(*top(&vm), Value::Int64(expected), "combination {:?}", (b1, b2, b3));
    }
}

/// The call protocol binds parameters straight into the single global
/// table: a recursive call overwrites its caller's binding, and because the
/// right operand of `*` (the recursive call) runs before the left operand
/// (the parameter read), a factorial-style program collapses to 1.  This
/// test pins that committed behavior down.
#[test]
fn recursion_corrupts_outer_bindings_as_committed() {
    let n = || ExprValue::Identifier(String::from("n"));
    let body = if_else(
        binop(n(), BinOpKind::LessEq, num_lit(1)),
        num_lit(1),
        binop(
            n(),
            BinOpKind::Mul,
            ExprValue::FnCall(String::from("fact"), vec![binop(n(), BinOpKind::Sub, num_lit(1))]),
        ),
    );
    let fact = Function {
        name: String::from("fact"),
        args: Args { name: vec![String::from("n")], type_: vec![String::from("num")] },
        expression: Box::new((body, pos())),
        return_type: String::from("num"),
    };
    let nodes = vec![
        (AstNode::FunctionDef(fact), pos()),
        (
            AstNode::Expression(ExprValue::FnCall(String::from("fact"), vec![num_lit(3)])),
            pos(),
        ),
    ];
    let vm = run_nodes(nodes, Vec::new()).unwrap();
    assert_eq!(*top(&vm), Value::Int64(1));
}

#[test]
fn unregistered_function_name_is_a_structured_fault() {
    let err = run_exprs(vec![ExprValue::FnCall(String::from("nosuch"), vec![num_lit(1)])])
        .expect_err("unresolved call must fault");
    assert_eq!(err.kind, VMErrorKind::UnresolvedFunction);
}

#[test]
fn native_call_records_arguments_and_drops_the_result() {
    let nodes = exprs_to_nodes(vec![ExprValue::FnCall(
        String::from("print"),
        vec![string("hi"), num_lit(2)],
    )]);
    let vm = run_nodes(nodes, vec![String::from("print")]).unwrap();
    assert_eq!(vm.effects.len(), 1);
    assert_eq!(vm.effects[0].name, String::from("print"));
    assert_eq!(
        vm.effects[0].args,
        vec![Value::Str(String::from("hi")), Value::Int64(2)]
    );
    // the native path pushes nothing back: the call protocol drops the
    // native result, so the stack stays empty
    assert!(vm.stack.is_empty());
}

#[test]
fn assignment_stores_and_loads_back() {
    let vm = run_exprs(vec![
        ExprValue::Assign { name: String::from("x"), value: bx(num_lit(5)) },
        ExprValue::Identifier(String::from("x")),
    ])
    .unwrap();
    assert_eq!(*top(&vm), Value::Int64(5));
}

#[test]
fn declaration_defaults_to_numeric_zero() {
    let vm = run_exprs(vec![
        ExprValue::VarDecl { name: String::from("x"), type_: String::from("num") },
        ExprValue::Identifier(String::from("x")),
    ])
    .unwrap();
    assert_eq!(*top(&vm), Value::Int32(0));
}

#[test]
fn undeclared_variable_is_a_structured_fault() {
    let err = run_exprs(vec![ExprValue::Identifier(String::from("ghostly"))])
        .expect_err("undeclared read must fault");
    assert_eq!(err.kind, VMErrorKind::UndeclaredVariable);
}

#[test]
fn default_declaration_rejects_arithmetic() {
    // the declared default is a 32-bit zero, and arithmetic handles only
    // the normalized 64-bit numerics
    let err = run_exprs(vec![
        ExprValue::VarDecl { name: String::from("x"), type_: String::from("num") },
        binop(ExprValue::Identifier(String::from("x")), BinOpKind::Add, num_lit(1)),
    ])
    .expect_err("mixed arithmetic must fault");
    assert_eq!(err.kind, VMErrorKind::TypeMismatch);
}

#[test]
fn boolean_arithmetic_is_a_type_mismatch() {
    let err = run_exprs(vec![binop(ExprValue::Boolean(true), BinOpKind::Add, num_lit(1))])
        .expect_err("boolean arithmetic must fault");
    assert_eq!(err.kind, VMErrorKind::TypeMismatch);
}

#[test]
fn division_by_zero_is_a_structured_fault() {
    let err = run_exprs(vec![binop(num_lit(1), BinOpKind::Div, num_lit(0))])
        .expect_err("division by zero must fault");
    assert_eq!(err.kind, VMErrorKind::DivisionByZero);
}

#[test]
fn overflow_is_a_structured_fault() {
    let err = run_exprs(vec![binop(
        binop(num_lit(i32::MAX), BinOpKind::Mul, num_lit(i32::MAX)),
        BinOpKind::Mul,
        num_lit(i32::MAX),
    )])
    .expect_err("64-bit overflow must fault");
    assert_eq!(err.kind, VMErrorKind::ArithmeticOverflow);
}

#[test]
fn comparisons_follow_the_primitive_order() {
    let cases: Vec<(ExprValue, BinOpKind, ExprValue, bool)> = vec![
        (num_lit(1), BinOpKind::Less, num_lit(2), true),
        (num_lit(2), BinOpKind::Less, num_lit(1), false),
        (num_lit(2), BinOpKind::LessEq, num_lit(2), true),
        (num_lit(3), BinOpKind::Greater, num_lit(2), true),
        (num_lit(3), BinOpKind::GreaterEq, num_lit(4), false),
        (string("abc"), BinOpKind::Less, string("abd"), true),
        (string("ab"), BinOpKind::Less, string("abc"), true),
        (string("b"), BinOpKind::Greater, string("a"), true),
        (ExprValue::Boolean(false), BinOpKind::Less, ExprValue::Boolean(true), true),
        // an unordered pair answers false to every comparison
        (num_lit(1), BinOpKind::Less, string("1"), false),
        (num_lit(1), BinOpKind::GreaterEq, string("1"), false),
    ];
    for (l, op, r, expected) in cases {
        let vm = run_exprs(vec![binop(l, op, r)]).unwrap();
        assert_eq!(*top(&vm), Value::Boolean(expected));
    }
}

#[test]
fn empty_program_halts_at_once() {
    let vm = run_exprs(vec![]).unwrap();
    assert!(vm.stack.is_empty());
    assert_eq!(vm.ip, 0);
}

#[test]
fn exhausted_step_budget_is_reported_without_a_fault() {
    let nodes = exprs_to_nodes(vec![binop(num_lit(1), BinOpKind::Add, num_lit(2))]);
    let program = compile_program(&nodes).unwrap();
    let mut vm = VM::new(program, Vec::new());
    // three instructions need three steps; one step is not enough
    assert_eq!(vm.run(1).unwrap(), false);
    assert_eq!(vm.run(100).unwrap(), true);
    assert_eq!(*top(&vm), Value::Int64(3));
}

#[test]
fn equality_is_narrowed_to_primitive_pairs() {
    // equal strings
    let vm = run_exprs(vec![binop(string("a"), BinOpKind::Equal, string("a"))]).unwrap();
    assert_eq!(*top(&vm), Value::Boolean(true));
    // the absence value is not even equal to itself under the narrowing
    let vm = run_exprs(vec![binop(
        ExprValue::NoneLit,
        BinOpKind::Equal,
        ExprValue::NoneLit,
    )])
    .unwrap();
    assert_eq!(*top(&vm), Value::Boolean(false));
    // arrays never compare equal at the instruction level
    let vm = run_exprs(vec![binop(
        ExprValue::Array(vec![num_lit(1)]),
        BinOpKind::Equal,
        ExprValue::Array(vec![num_lit(1)]),
    )])
    .unwrap();
    assert_eq!(*top(&vm), Value::Boolean(false));
}
