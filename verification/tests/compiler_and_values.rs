use lyronc::ast::{AstNode, BinOpKind, ExprValue, NodePosition};
use lyronc::chunk::Instruction;
use lyronc::compiler::compile_program;
use lyronc::errors::VMErrorKind;
use lyronc::symbols::{Symbol, SymbolTable};
use lyronc::value::{i64_text, u64_text, OrderRel, Value, VMFunction};

fn pos() -> NodePosition {
    NodePosition { pos: 0, line_no: 1, file: String::from("main") }
}

fn nodes_of(es: Vec<ExprValue>) -> Vec<(AstNode, NodePosition)> {
    es.into_iter().map(|e| (AstNode::Expression(e), pos())).collect()
}

#[test]
fn literals_intern_once() {
    let nodes = nodes_of(vec![ExprValue::Integer(5), ExprValue::Integer(5)]);
    let program = compile_program(&nodes).unwrap();
    assert_eq!(program.consts, vec![Value::Int64(5)]);
    assert_eq!(
        program.chunk.code,
        vec![Instruction::Constant(0), Instruction::Constant(0)]
    );
}

#[test]
fn distinct_literals_get_distinct_slots() {
    let nodes = nodes_of(vec![
        ExprValue::Integer(5),
        ExprValue::Str(String::from("5")),
        ExprValue::Boolean(true),
        ExprValue::NoneLit,
    ]);
    let program = compile_program(&nodes).unwrap();
    assert_eq!(
        program.consts,
        vec![
            Value::Int64(5),
            Value::Str(String::from("5")),
            Value::Boolean(true),
            Value::Null,
        ]
    );
}

#[test]
fn positions_stay_aligned_with_instructions() {
    let nodes = nodes_of(vec![ExprValue::BinOp(
        Box::new(ExprValue::Integer(1)),
        BinOpKind::Add,
        Box::new(ExprValue::Integer(2)),
    )]);
    let program = compile_program(&nodes).unwrap();
    assert_eq!(program.chunk.code.len(), program.chunk.positions.len());
}

#[test]
fn conditional_compiles_to_guard_body_jump_body() {
    let nodes = nodes_of(vec![ExprValue::IfElse {
        cond: Box::new(ExprValue::Boolean(true)),
        if_: Box::new(ExprValue::Integer(1)),
        else_: Box::new(ExprValue::Integer(2)),
    }]);
    let program = compile_program(&nodes).unwrap();
    // the guard displaces past the one-instruction branch and its closing
    // jump; the closing jump displaces past the one-instruction else branch
    assert_eq!(
        program.chunk.code,
        vec![
            Instruction::Constant(0),
            Instruction::JumpIfFalse(3),
            Instruction::Constant(1),
            Instruction::Jump(2),
            Instruction::Constant(2),
        ]
    );
}

#[test]
fn function_bodies_are_spliced_behind_a_header() {
    let f = lyronc::ast::Function {
        name: String::from("one"),
        args: lyronc::ast::Args { name: vec![], type_: vec![] },
        expression: Box::new((ExprValue::Integer(1), pos())),
        return_type: String::from("num"),
    };
    let nodes = vec![(AstNode::FunctionDef(f), pos())];
    let program = compile_program(&nodes).unwrap();
    assert_eq!(
        program.chunk.code,
        vec![
            Instruction::FunctionDef(2),
            Instruction::Constant(0),
            Instruction::Return,
        ]
    );
    let entry = program.funcs.get(&String::from("one")).expect("table entry");
    assert_eq!(entry.entry, 1);
    assert!(entry.params.is_empty());
}

#[test]
fn pool_overflow_is_reported_not_truncated() {
    let mut es = Vec::new();
    for i in 0..300 {
        es.push(ExprValue::Integer(i));
    }
    let err = compile_program(&nodes_of(es)).expect_err("257th constant cannot be encoded");
    assert_eq!(err.kind, VMErrorKind::OperandOverflow);
}

#[test]
fn oversized_array_literal_is_reported() {
    let mut es = Vec::new();
    for _ in 0..300 {
        es.push(ExprValue::Integer(1));
    }
    let err = compile_program(&nodes_of(vec![ExprValue::Array(es)]))
        .expect_err("an element count above 255 cannot be encoded");
    assert_eq!(err.kind, VMErrorKind::OperandOverflow);
}

#[test]
fn numbers_render_in_decimal() {
    assert_eq!(u64_text(0), String::from("0"));
    assert_eq!(u64_text(90102), String::from("90102"));
    assert_eq!(i64_text(-5), String::from("-5"));
    assert_eq!(i64_text(i64::MIN), String::from("-9223372036854775808"));
    assert_eq!(i64_text(i64::MAX), String::from("9223372036854775807"));
}

#[test]
fn every_variant_has_display_text() {
    assert_eq!(Value::Str(String::from("s")).to_text(), String::from("s"));
    assert_eq!(Value::Int32(-7).to_text(), String::from("-7"));
    assert_eq!(Value::Int64(42).to_text(), String::from("42"));
    assert_eq!(Value::Boolean(true).to_text(), String::from("true"));
    assert_eq!(Value::Boolean(false).to_text(), String::from("false"));
    assert_eq!(Value::Null.to_text(), String::from("None"));
    let f = Value::Function(
        String::from("f"),
        VMFunction { params: vec![], entry: 0 },
    );
    assert_eq!(f.to_text(), String::from("Function <f>"));
    assert_eq!(
        Value::NativeFunction(String::from("print")).to_text(),
        String::from("Native function <print>")
    );
    assert_eq!(Value::Class(String::from("C")).to_text(), String::from("Class <C>"));
    assert_eq!(
        Value::Object(String::from("C"), 3).to_text(),
        String::from("Object of class <C>")
    );
    assert_eq!(Value::Dict(vec![]).to_text(), String::from("<dict>"));
    assert_eq!(Value::Array(vec![]).to_text(), String::from("<array>"));
}

#[test]
fn equality_is_defined_on_primitive_pairs_only() {
    assert!(Value::Int64(3).value_eq(&Value::Int64(3)));
    assert!(!Value::Int64(3).value_eq(&Value::Int64(4)));
    // the narrowing: same number, different width, not equal
    assert!(!Value::Int32(3).value_eq(&Value::Int64(3)));
    assert!(!Value::Null.value_eq(&Value::Null));
    assert!(!Value::Array(vec![]).value_eq(&Value::Array(vec![])));
    assert!(Value::Str(String::from("x")).value_eq(&Value::Str(String::from("x"))));
}

#[test]
fn ordering_is_defined_on_primitive_pairs_only() {
    assert_eq!(Value::Int64(1).value_cmp(&Value::Int64(2)), OrderRel::Less);
    assert_eq!(Value::Int32(2).value_cmp(&Value::Int32(2)), OrderRel::Equal);
    assert_eq!(
        Value::Str(String::from("b")).value_cmp(&Value::Str(String::from("a"))),
        OrderRel::Greater
    );
    assert_eq!(
        Value::Str(String::from("ab")).value_cmp(&Value::Str(String::from("abc"))),
        OrderRel::Less
    );
    assert_eq!(
        Value::Boolean(false).value_cmp(&Value::Boolean(true)),
        OrderRel::Less
    );
    assert_eq!(Value::Int64(1).value_cmp(&Value::Int32(1)), OrderRel::Unordered);
    assert_eq!(Value::Null.value_cmp(&Value::Null), OrderRel::Unordered);
}

#[test]
fn only_numeric_values_convert_to_the_numeric() {
    assert_eq!(Value::Int32(-3).to_num().unwrap(), -3);
    assert_eq!(Value::Int64(9).to_num().unwrap(), 9);
    let err = Value::Str(String::from("9")).to_num().expect_err("text is not numeric");
    assert_eq!(err.kind, VMErrorKind::TypeMismatch);
    assert!(Value::Null.to_num().is_err());
}

#[test]
fn truthiness_is_null_and_false_only() {
    assert!(Value::Int64(0).truthy());
    assert!(Value::Str(String::new()).truthy());
    assert!(Value::Array(vec![]).truthy());
    assert!(Value::Boolean(true).truthy());
    assert!(!Value::Boolean(false).truthy());
    assert!(!Value::Null.truthy());
}

#[test]
fn deep_clone_copies_structure() {
    let v = Value::Array(vec![
        Value::Int64(1),
        Value::Str(String::from("two")),
        Value::Dict(vec![(String::from("k"), Value::Boolean(true))]),
    ]);
    assert_eq!(v.deep_clone(), v);
}

#[test]
fn symbol_table_records_and_looks_up() {
    let mut table = SymbolTable::new();
    assert_eq!(
        table.insert(
            String::from("x"),
            Symbol::new(String::from("num"), String::from("global")),
        ),
        0
    );
    let found = table._lookup(String::from("x")).expect("x was recorded");
    assert_eq!(found.type_, String::from("num"));
    assert_eq!(found.scope, String::from("global"));
    assert!(table._lookup(String::from("y")).is_none());
    // a later record shadows the earlier one
    table.insert(
        String::from("x"),
        Symbol::new(String::from("str"), String::from("local")),
    );
    let again = table._lookup(String::from("x")).unwrap();
    assert_eq!(again.type_, String::from("str"));
}
