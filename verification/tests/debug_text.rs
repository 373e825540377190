use petal::front::nodes::types::{debug_text, FunctionType, PrimitiveType, StructType, Type};
use petal::front::token::{token_debug_text, Token};

#[test]
fn types_render_as_debug_does() {
    let types = vec![
        Type::Primitive(PrimitiveType::I32),
        Type::Custom("my \"alias\"\n".to_string()),
        Type::Function(FunctionType {
            parameters: vec![],
            return_type: Box::new(Type::Primitive(PrimitiveType::Void)),
        }),
        Type::Function(FunctionType {
            parameters: vec![
                Type::Primitive(PrimitiveType::U64),
                Type::Custom("t".to_string()),
            ],
            return_type: Box::new(Type::Primitive(PrimitiveType::Bool)),
        }),
        Type::Struct(StructType { name: "Point".to_string(), fields: vec![] }),
        Type::Struct(StructType {
            name: "Point".to_string(),
            fields: vec![
                ("x".to_string(), Type::Primitive(PrimitiveType::I64)),
                ("y".to_string(), Type::Primitive(PrimitiveType::F64)),
            ],
        }),
    ];
    for t in &types {
        assert_eq!(debug_text(t), format!("{:?}", t));
    }
    assert_eq!(debug_text(&types[0]), "Primitive(I32)");
}

#[test]
fn tokens_render_as_debug_does() {
    let tokens = vec![
        Token::Unknown('$'),
        Token::Unknown('\''),
        Token::Eof,
        Token::Identifier("main".to_string()),
        Token::StringLiteral("a\tb".to_string()),
        Token::NumberLiteral("3.5".to_string()),
        Token::Walrus,
        Token::Usize,
        Token::Colon,
    ];
    for t in &tokens {
        assert_eq!(token_debug_text(t), format!("{:?}", t));
    }
    assert_eq!(token_debug_text(&tokens[3]), "Identifier(\"main\")");
}
