use leo_ast::{
    Annotation, Ast, AstError, BinaryOperation, Binding, Block, Circuit, CircuitMember, Definition,
    Expression, ExpressionKind, Function, FunctionInput, GroupCoordinate, Import, InputMode, IntegerType,
    Json, JsonField, Literal, MemberInit, Node, Program, Span, Statement, Type, UnaryOperation,
};

fn node(id: u64) -> Node {
    Node { id, span: Span { start: id * 10, end: id * 10 + 5 } }
}

fn expression(id: u64, kind: ExpressionKind) -> Expression {
    Expression { node: node(id), kind }
}

fn name(id: u64, text: &str) -> Expression {
    expression(id, ExpressionKind::Identifier(text.to_string()))
}

fn literal(id: u64, value: Literal) -> Expression {
    expression(id, ExpressionKind::Literal(value))
}

fn boxed(e: Expression) -> Box<Expression> {
    Box::new(e)
}

fn empty_function() -> Function {
    Function {
        node: node(1),
        name: "main".to_string(),
        inputs: vec![],
        output: None,
        annotations: vec![],
        body: Block { node: node(2), statements: vec![] },
    }
}

fn every_expression() -> Vec<Expression> {
    vec![
        literal(100, Literal::Boolean(true)),
        literal(101, Literal::Integer(IntegerType::I128, "-5".to_string())),
        literal(102, Literal::Field("7".to_string())),
        literal(103, Literal::GroupSingle("1".to_string())),
        literal(
            104,
            Literal::GroupPair(GroupCoordinate::Number("3".to_string()), GroupCoordinate::SignHigh),
        ),
        literal(105, Literal::GroupPair(GroupCoordinate::SignLow, GroupCoordinate::Inferred)),
        literal(106, Literal::Address("aleo1".to_string())),
        literal(107, Literal::Text("a \"quoted\" text\n".to_string())),
        expression(
            108,
            ExpressionKind::Unary { operator: UnaryOperation::Negate, operand: boxed(name(109, "x")) },
        ),
        expression(
            110,
            ExpressionKind::Binary {
                operation: BinaryOperation::Pow,
                left: boxed(name(111, "x")),
                right: boxed(name(112, "y")),
            },
        ),
        expression(
            113,
            ExpressionKind::Ternary {
                condition: boxed(name(114, "c")),
                if_true: boxed(name(115, "t")),
                if_false: boxed(name(116, "f")),
            },
        ),
        expression(
            117,
            ExpressionKind::Call {
                callee: vec!["Point".to_string(), "new".to_string()],
                arguments: vec![name(118, "a"), name(119, "b")],
            },
        ),
        expression(120, ExpressionKind::Array(vec![name(121, "a")])),
        expression(122, ExpressionKind::Tuple(vec![])),
        expression(
            123,
            ExpressionKind::Circuit {
                name: "Point".to_string(),
                members: vec![MemberInit { name: "x".to_string(), value: name(124, "a") }],
            },
        ),
        expression(
            125,
            ExpressionKind::Index { array: boxed(name(126, "a")), index: boxed(name(127, "i")) },
        ),
        expression(128, ExpressionKind::Member { object: boxed(name(129, "p")), name: "x".to_string() }),
        expression(
            130,
            ExpressionKind::TupleAccess { tuple: boxed(name(131, "t")), position: u64::MAX },
        ),
        expression(132, ExpressionKind::ImplicitMember { name: "x".to_string() }),
        expression(
            133,
            ExpressionKind::Cast {
                operand: boxed(name(134, "x")),
                target: Type::Array(Box::new(Type::Integer(IntegerType::U8)), 4),
            },
        ),
    ]
}

fn every_statement() -> Vec<Statement> {
    vec![
        Statement::Definition(Definition {
            node: node(200),
            mutable: true,
            bindings: vec![
                Binding { node: node(201), name: "a".to_string(), declared: Some(Type::Field) },
                Binding { node: node(202), name: "b".to_string(), declared: None },
            ],
            value: expression(203, ExpressionKind::Tuple(every_expression())),
        }),
        Statement::Assign {
            node: node(204),
            target: name(205, "a"),
            operation: Some(BinaryOperation::Le),
            value: name(206, "b"),
        },
        Statement::Assign { node: node(207), target: name(208, "a"), operation: None, value: name(209, "b") },
        Statement::Conditional {
            node: node(210),
            condition: name(211, "c"),
            then_block: Block { node: node(212), statements: vec![] },
            otherwise: Some(Box::new(Statement::Conditional {
                node: node(213),
                condition: name(214, "d"),
                then_block: Block {
                    node: node(215),
                    statements: vec![Statement::Return { node: node(216), value: name(217, "a") }],
                },
                otherwise: Some(Box::new(Statement::Block(Block { node: node(218), statements: vec![] }))),
            })),
        },
        Statement::Iteration {
            node: node(219),
            variable: "i".to_string(),
            start: name(220, "lo"),
            stop: name(221, "hi"),
            body: Block {
                node: node(222),
                statements: vec![Statement::Expression { node: node(223), expression: name(224, "log") }],
            },
        },
        Statement::Return { node: node(225), value: name(226, "a") },
    ]
}

fn full_program() -> Program {
    let method = Function {
        node: node(300),
        name: "norm".to_string(),
        inputs: vec![
            FunctionInput {
                node: node(301),
                name: "self".to_string(),
                mode: InputMode::Reference,
                input_type: Type::Unresolved,
            },
            FunctionInput {
                node: node(302),
                name: "scale".to_string(),
                mode: InputMode::Constant,
                input_type: Type::Tuple(vec![Type::Boolean, Type::Group, Type::Address, Type::Text]),
            },
            FunctionInput {
                node: node(303),
                name: "other".to_string(),
                mode: InputMode::Value,
                input_type: Type::Named("Point".to_string()),
            },
        ],
        output: Some(Type::Integer(IntegerType::U64)),
        annotations: vec![Annotation {
            node: node(304),
            name: "test".to_string(),
            arguments: vec!["fast".to_string(), "2".to_string()],
        }],
        body: Block { node: node(305), statements: every_statement() },
    };
    Program {
        imports: vec![
            Import {
                node: node(400),
                path: vec!["core".to_string(), "math".to_string()],
                alias: Some("m".to_string()),
                symbols: vec![],
            },
            Import {
                node: node(401),
                path: vec!["lib".to_string()],
                alias: None,
                symbols: vec!["a".to_string(), "b".to_string()],
            },
        ],
        circuits: vec![Circuit {
            node: node(402),
            name: "Point".to_string(),
            members: vec![CircuitMember {
                node: node(403),
                name: "x".to_string(),
                member_type: Type::Integer(IntegerType::I8),
            }],
            functions: vec![method],
        }],
        functions: vec![empty_function()],
        globals: vec![Definition {
            node: node(404),
            mutable: false,
            bindings: vec![Binding { node: node(405), name: "limit".to_string(), declared: None }],
            value: literal(406, Literal::Integer(IntegerType::U16, "10".to_string())),
        }],
    }
}

fn number(n: u64) -> Json {
    Json::Number(n)
}

fn text(s: &str) -> Json {
    Json::Text(s.to_string())
}

fn object(members: Vec<(&str, Json)>) -> Json {
    Json::Object(members.into_iter().map(|(key, value)| JsonField { key: key.to_string(), value }).collect())
}

fn node_document(id: u64, start: u64, end: u64) -> Json {
    object(vec![("id", number(id)), ("start", number(start)), ("end", number(end))])
}

fn empty_function_document() -> Json {
    object(vec![
        ("node", node_document(1, 10, 15)),
        ("name", text("main")),
        ("inputs", Json::Array(vec![])),
        ("output", Json::Null),
        ("annotations", Json::Array(vec![])),
        ("body", object(vec![("node", node_document(2, 20, 25)), ("statements", Json::Array(vec![]))])),
    ])
}

fn program_document(functions: Vec<Json>) -> Json {
    object(vec![
        ("imports", Json::Array(vec![])),
        ("circuits", Json::Array(vec![])),
        ("functions", Json::Array(functions)),
        ("globals", Json::Array(vec![])),
    ])
}

fn program(functions: Vec<Function>) -> Program {
    Program { imports: vec![], circuits: vec![], functions, globals: vec![] }
}

#[test]
fn program_with_an_empty_function_round_trips() {
    let ast = Ast::new(program(vec![empty_function()]));
    let written = ast.to_json_string().unwrap();
    let read = Ast::from_json_string(&written).unwrap();
    assert_eq!(read, ast);
    assert_eq!(read.into_repr(), program(vec![empty_function()]));
}

#[test]
fn program_with_every_kind_of_node_round_trips() {
    let ast = Ast::new(full_program());
    let written = ast.to_json_string().unwrap();
    let read = Ast::from_json_string(&written).unwrap();
    assert_eq!(read.as_repr(), &full_program());
    assert_eq!(read.to_json_string().unwrap(), written);
}

#[test]
fn document_of_every_kind_of_node_is_read_back() {
    let ast = Ast::new(full_program());
    let document = ast.to_json();
    assert_eq!(Ast::from_json(&document), Ok(Ast::new(full_program())));
}

#[test]
fn canonical_program_round_trips() {
    let mut ast = Ast::new(program(vec![Function {
        body: Block {
            node: node(2),
            statements: vec![Statement::Assign {
                node: node(3),
                target: name(4, "x"),
                operation: Some(BinaryOperation::Add),
                value: literal(5, Literal::Integer(IntegerType::U32, "1".to_string())),
            }],
        },
        ..empty_function()
    }]));
    ast.canonicalize().unwrap();
    let read = Ast::from_json_string(&ast.to_json_string().unwrap()).unwrap();
    assert_eq!(read, ast);
}

#[test]
fn document_of_an_empty_function_is_as_described() {
    let ast = Ast::new(program(vec![empty_function()]));
    assert_eq!(ast.to_json(), program_document(vec![empty_function_document()]));
}

#[test]
fn document_of_an_expression_names_its_variant() {
    let value = Expression {
        node: Node { id: 7, span: Span { start: 1, end: 4 } },
        kind: ExpressionKind::Unary {
            operator: UnaryOperation::Not,
            operand: Box::new(Expression {
                node: Node { id: 8, span: Span { start: 2, end: 4 } },
                kind: ExpressionKind::Literal(Literal::Boolean(false)),
            }),
        },
    };
    let expected = object(vec![
        ("node", node_document(7, 1, 4)),
        (
            "kind",
            object(vec![(
                "unary",
                object(vec![
                    ("operator", text("not")),
                    (
                        "operand",
                        object(vec![
                            ("node", node_document(8, 2, 4)),
                            (
                                "kind",
                                object(vec![(
                                    "literal",
                                    object(vec![(
                                        "literal",
                                        object(vec![("boolean", object(vec![("value", Json::Bool(false))]))]),
                                    )]),
                                )]),
                            ),
                        ]),
                    ),
                ]),
            )]),
        ),
    ]);
    assert_eq!(leo_ast::wire_expressions::encode_expression(&value), expected);
    assert_eq!(leo_ast::wire_expressions::decode_expression(&expected), Some(value));
}

#[test]
fn text_of_a_program_is_indented_and_labelled() {
    let ast = Ast::new(program(vec![]));
    let expected = "{\n  \"imports\": [],\n  \"circuits\": [],\n  \"functions\": [],\n  \"globals\": []\n}";
    assert_eq!(ast.to_json_string().unwrap(), expected);
}

#[test]
fn equal_programs_are_written_as_equal_texts() {
    let a = Ast::new(full_program());
    let b = a.clone();
    assert_eq!(a.to_json_string(), b.to_json_string());
    let text = a.to_json_string().unwrap();
    assert!(text.starts_with("{\n  \"imports\": [\n    {\n      \"node\": {\n        \"id\": 400,"));
    assert!(text.contains("\n"));
}

#[test]
fn number_that_is_no_identifier_is_kept_and_refused() {
    let document = object(vec![
        ("imports", Json::Array(vec![])),
        ("circuits", Json::Array(vec![])),
        ("functions", Json::Array(vec![])),
        ("globals", Json::Array(vec![])),
    ]);
    assert!(Ast::from_json(&document).is_ok());
    for written in ["-3", "2.5", "1e2"] {
        let text = format!(
            "{{\"imports\": [], \"circuits\": [], \"functions\": [], \"globals\": {}}}",
            written
        );
        assert_eq!(Ast::from_json_string(&text), Err(AstError::UnexpectedShape), "{:?}", written);
    }
}

#[test]
fn text_that_is_no_document_is_a_syntax_error() {
    for written in ["", "{", "{\"imports\": [}", "not a document"] {
        match Ast::from_json_string(written) {
            Err(AstError::Syntax { message }) => assert!(!message.is_empty()),
            other => panic!("unexpected result {:?} for {:?}", other, written),
        }
    }
}

#[test]
fn document_that_is_no_program_has_an_unexpected_shape() {
    for written in [
        "null",
        "[]",
        "{}",
        "{\"imports\": [], \"circuits\": [], \"functions\": []}",
        "{\"circuits\": [], \"imports\": [], \"functions\": [], \"globals\": []}",
        "{\"imports\": [], \"circuits\": [], \"functions\": [], \"globals\": [], \"more\": 1}",
        "{\"imports\": [], \"circuits\": [], \"functions\": [1], \"globals\": []}",
        "{\"imports\": {}, \"circuits\": [], \"functions\": [], \"globals\": []}",
    ] {
        assert_eq!(Ast::from_json_string(written), Err(AstError::UnexpectedShape), "{:?}", written);
    }
}

#[test]
fn identifier_that_is_no_unsigned_integer_is_rejected() {
    let good = Ast::new(program(vec![empty_function()])).to_json_string().unwrap();
    assert!(Ast::from_json_string(&good).is_ok());
    for replacement in ["-1", "1.5", "\"1\"", "18446744073709551616"] {
        let bad = good.replacen("\"id\": 1,", &format!("\"id\": {},", replacement), 1);
        assert_ne!(bad, good);
        assert_eq!(Ast::from_json_string(&bad), Err(AstError::UnexpectedShape), "{:?}", replacement);
    }
}

#[test]
fn document_with_two_functions_of_one_name_is_rejected() {
    let twice = program_document(vec![empty_function_document(), empty_function_document()]);
    assert_eq!(Ast::from_json(&twice), Err(AstError::UnexpectedShape));
    let once = program_document(vec![empty_function_document()]);
    assert_eq!(Ast::from_json(&once), Ok(Ast::new(program(vec![empty_function()]))));
}

fn other_function(id: u64, name: &str) -> Function {
    Function {
        node: node(id),
        name: name.to_string(),
        body: Block { node: node(id + 1), statements: vec![] },
        ..empty_function()
    }
}

#[test]
fn well_formedness_is_about_names_and_identifiers() {
    assert!(full_program().is_well_formed());
    assert!(program(vec![empty_function(), other_function(3, "other")]).is_well_formed());
    // one name twice
    assert!(!program(vec![empty_function(), other_function(3, "main")]).is_well_formed());
    // one identifier twice
    assert!(!program(vec![empty_function(), other_function(2, "other")]).is_well_formed());
    let mut circuits = full_program();
    let again = Circuit {
        node: node(500),
        name: "Point".to_string(),
        members: vec![],
        functions: vec![],
    };
    circuits.circuits.push(again);
    assert!(!circuits.is_well_formed());
    circuits.circuits[1].name = "Line".to_string();
    assert!(circuits.is_well_formed());
}

#[test]
fn document_with_one_identifier_twice_is_rejected() {
    let other = |id: u64| {
        object(vec![
            ("node", node_document(id, id * 10, id * 10 + 5)),
            ("name", text("other")),
            ("inputs", Json::Array(vec![])),
            ("output", Json::Null),
            ("annotations", Json::Array(vec![])),
            (
                "body",
                object(vec![
                    ("node", node_document(id + 1, (id + 1) * 10, (id + 1) * 10 + 5)),
                    ("statements", Json::Array(vec![])),
                ]),
            ),
        ])
    };
    let twice = program_document(vec![empty_function_document(), other(2)]);
    assert_eq!(Ast::from_json(&twice), Err(AstError::UnexpectedShape));
    let once = program_document(vec![empty_function_document(), other(3)]);
    assert_eq!(
        Ast::from_json(&once),
        Ok(Ast::new(program(vec![empty_function(), other_function(3, "other")])))
    );
}

#[test]
fn unknown_variant_and_unknown_name_are_rejected() {
    let unknown_variant =
        object(vec![("node", node_document(1, 1, 1)), ("kind", object(vec![("lambda", object(vec![]))]))]);
    assert_eq!(leo_ast::wire_expressions::decode_expression(&unknown_variant), None);
    assert_eq!(leo_ast::wire_types::decode_type(&text("float")), None);
    assert_eq!(leo_ast::wire_types::decode_type(&text("field")), Some(Type::Field));
    assert_eq!(leo_ast::wire_types::decode_binary_operation(&text("add")), Some(BinaryOperation::Add));
    assert_eq!(leo_ast::wire_types::decode_binary_operation(&text("plus")), None);
}
