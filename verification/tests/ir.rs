use petal::back::target::Target;
use petal::front::ast::Ast;
use petal::front::nodes::expr::{BinaryExpr, Expr};
use petal::front::nodes::operator::Operator;
use petal::front::nodes::types::{PrimitiveType, Type};
use petal::front::parser::Parser;
use petal::front::token::{Position, Token};
use petal::middle::ir::{flatten_units, IRContext, IRFunction, IRInstruction, IRModule, IRType, IRUnit};

fn at(line: usize, index: usize) -> Position {
    Position { line, index }
}

fn toks(ts: Vec<Token>) -> Vec<(Token, Position)> {
    let mut v: Vec<(Token, Position)> = Vec::new();
    for (k, t) in ts.into_iter().enumerate() {
        v.push((t, at(1, k + 1)));
    }
    v.push((Token::Eof, at(2, 1)));
    v
}

fn id(s: &str) -> Token {
    Token::Identifier(s.to_string())
}

fn num(s: &str) -> Token {
    Token::NumberLiteral(s.to_string())
}

fn parse(ts: Vec<Token>) -> Box<Ast> {
    let mut parser = Parser::new("t.pt".to_string(), toks(ts));
    let (ast, errors) = parser.parse();
    assert!(errors.is_empty());
    ast
}

fn n(v: &str) -> Expr {
    Expr::Number((v.to_string(), at(1, 1)))
}

#[test]
fn temporaries_and_labels_are_numbered_from_one() {
    let mut ctx = IRContext::new(Target::X86_64);
    assert_eq!(ctx.allocate_temp(), "t1");
    assert_eq!(ctx.allocate_temp(), "t2");
    assert_eq!(ctx.allocate_label(), "L1");
    assert_eq!(ctx.allocate_temp(), "t3");
    assert_eq!(ctx.temp_count, 3);
    assert_eq!(ctx.label_count, 1);
}

#[test]
fn variables_get_slots_below_each_other() {
    let mut ctx = IRContext::new(Target::X86_64);
    assert_eq!(ctx.allocate_variable("a", &IRType::Int(4)), -4);
    assert_eq!(ctx.allocate_variable("b", &IRType::Char(1)), -5);
    assert_eq!(ctx.allocate_variable("c", &IRType::Str(8)), -13);
    assert_eq!(ctx.current_stack_offset, -13);
}

#[test]
fn sizes_of_ir_types() {
    assert_eq!(IRType::Void.size(), 0);
    assert_eq!(IRType::Compound(vec![IRType::Int(4), IRType::Bool(1), IRType::Compound(vec![IRType::Str(8)])]).size(), 13);
    assert!(matches!(IRType::from_str("string"), IRType::Str(8)));
    assert!(matches!(IRType::from_str("bool"), IRType::Bool(1)));
    assert!(matches!(IRType::from_type(&Type::Primitive(PrimitiveType::I32)), IRType::Int(4)));
    assert!(matches!(IRType::from_type(&Type::Primitive(PrimitiveType::F32)), IRType::Float(4)));
}

#[test]
fn three_address_code_of_an_expression() {
    let mut ctx = IRContext::new(Target::X86_64);
    // (1 + 2) * x
    let e = Expr::Binary((
        Box::new(BinaryExpr {
            op: Operator::Asterisk,
            left: (
                Expr::Binary((Box::new(BinaryExpr { op: Operator::Plus, left: (n("1"), at(1, 1)), right: (n("2"), at(1, 1)) }), at(1, 1))),
                at(1, 1),
            ),
            right: (Expr::VariableCall(("x".to_string(), at(1, 1))), at(1, 1)),
        }),
        at(1, 1),
    ));
    let (t, code) = e.tac(&mut ctx);
    assert_eq!(t, "t5");
    assert_eq!(ctx.temp_count, 5);
    assert_eq!(
        format!("{:?}", code),
        "[LoadConstant { dest: \"t1\", value: 1 }, LoadConstant { dest: \"t2\", value: 2 }, \
         Add { dest: \"t3\", op1: \"t1\", op2: \"t2\" }, Load { dest: \"t4\", src: \"x\" }, \
         Mul { dest: \"t5\", op1: \"t3\", op2: \"t4\" }]"
    );
}

#[test]
fn a_variable_with_a_slot_is_loaded_from_it() {
    let mut ctx = IRContext::new(Target::X86_64);
    ctx.allocate_variable("x", &IRType::Int(4));
    let (t, code) = Expr::VariableCall(("x".to_string(), at(1, 1))).tac(&mut ctx);
    assert_eq!(t, "t1");
    assert_eq!(format!("{:?}", code), "[Load { dest: \"t1\", src: \"-4(%rbp)\" }]");
    // Standing on its own, a variable is loaded by name.
    let units = Expr::VariableCall(("x".to_string(), at(1, 1))).ir(&mut ctx);
    assert_eq!(format!("{:?}", units), "[Global([Load { dest: \"t2\", src: \"x\" }])]");
}

#[test]
fn calls_compute_their_arguments_first() {
    let mut ctx = IRContext::new(Target::X86_64);
    let call = Expr::FunctionCall {
        function: ("f".to_string(), at(1, 1)),
        arguments: vec![(n("7"), at(1, 1)), (Expr::Character(("A".to_string(), at(1, 1))), at(1, 1))],
    };
    let units = call.ir(&mut ctx);
    assert_eq!(
        format!("{:?}", units),
        "[Global([LoadConstant { dest: \"t1\", value: 7 }, LoadConstant { dest: \"t2\", value: 65 }, \
         Call { dest: \"t3\", fn_id: \"f\", args: [\"t1\", \"t2\"] }])]"
    );
}

#[test]
fn a_function_gets_its_slots_code_and_a_return() {
    // fn f(a: i32) -> i32 { let x: i32 = 1 + 2; ret x; }
    let ast = parse(vec![
        Token::Fn, id("f"), Token::LPar, id("a"), Token::Colon, Token::I32, Token::RPar, Token::Arrow,
        Token::I32, Token::LCurl, Token::Let, id("x"), Token::Colon, Token::I32, Token::Equal, num("1"),
        Token::Plus, num("2"), Token::Semicolon, Token::Ret, id("x"), Token::Semicolon, Token::RCurl,
    ]);
    let mut ctx = IRContext::new(Target::X86_64);
    let module = ast.ir(&mut ctx);
    assert!(module.globals.is_empty());
    assert_eq!(module.functions.len(), 1);
    assert_eq!(module.functions[0].id, "f");
    assert_eq!(
        format!("{:?}", module.functions[0].instructions),
        "[AllocStack { name: \"a\", var_type: Int(4), initial_value: None }, \
         LoadConstant { dest: \"t1\", value: 1 }, LoadConstant { dest: \"t2\", value: 2 }, \
         Add { dest: \"t3\", op1: \"t1\", op2: \"t2\" }, \
         AllocStack { name: \"x\", var_type: Int(4), initial_value: Some(\"t3\") }, Return { value: \"0\" }]"
    );
    assert_eq!(ctx.current_stack_offset, -4);
    assert_eq!(ctx.temp_count, 3);
}

#[test]
fn flattening_concatenates_units() {
    let units = vec![
        IRUnit::Global(vec![IRInstruction::Label("a".to_string())]),
        IRUnit::Function(IRFunction {
            id: "f".to_string(),
            instructions: vec![IRInstruction::Label("b".to_string()), IRInstruction::Label("c".to_string())],
        }),
        IRUnit::Global(vec![]),
    ];
    assert_eq!(format!("{:?}", flatten_units(units)), "[Label(\"a\"), Label(\"b\"), Label(\"c\")]");
    let m = IRModule::new();
    assert!(m.globals.is_empty() && m.functions.is_empty());
}
