use leo_ast::{
    Ast, AstError, BinaryOperation, Binding, Block, Definition, Expression, ExpressionKind, Function,
    GroupCoordinate, IntegerType, Literal, Node, Program, ReducerErrorKind, Span, Statement, Type,
};

fn node(id: u64, start: u64, end: u64) -> Node {
    Node { id, span: Span { start, end } }
}

fn name(id: u64, start: u64, end: u64, text: &str) -> Expression {
    Expression { node: node(id, start, end), kind: ExpressionKind::Identifier(text.to_string()) }
}

fn integer(id: u64, start: u64, end: u64, digits: &str) -> Expression {
    Expression {
        node: node(id, start, end),
        kind: ExpressionKind::Literal(Literal::Integer(IntegerType::U32, digits.to_string())),
    }
}

fn binding(id: u64, start: u64, end: u64, text: &str) -> Binding {
    Binding { node: node(id, start, end), name: text.to_string(), declared: None }
}

fn function(id: u64, text: &str, output: Option<Type>, statements: Vec<Statement>) -> Function {
    Function {
        node: node(id, 0, 100),
        name: text.to_string(),
        inputs: vec![],
        output,
        annotations: vec![],
        body: Block { node: node(id + 1, 10, 100), statements },
    }
}

fn program(functions: Vec<Function>) -> Program {
    Program { imports: vec![], circuits: vec![], functions, globals: vec![] }
}

fn pair_function() -> Function {
    function(
        50,
        "pair",
        Some(Type::Tuple(vec![Type::Integer(IntegerType::U32), Type::Integer(IntegerType::U32)])),
        vec![Statement::Return {
            node: node(52, 20, 40),
            value: Expression {
                node: node(53, 27, 39),
                kind: ExpressionKind::Tuple(vec![integer(54, 28, 29, "1"), integer(55, 31, 32, "2")]),
            },
        }],
    )
}

fn call_pair(id: u64, start: u64, end: u64) -> Expression {
    Expression {
        node: node(id, start, end),
        kind: ExpressionKind::Call { callee: vec!["pair".to_string()], arguments: vec![] },
    }
}

#[test]
fn compound_assignment_becomes_plain_assignment() {
    // x += 1;
    let statement = Statement::Assign {
        node: node(3, 12, 19),
        target: name(4, 12, 13, "x"),
        operation: Some(BinaryOperation::Add),
        value: integer(5, 17, 18, "1"),
    };
    let mut ast = Ast::new(program(vec![function(1, "main", None, vec![statement])]));
    assert_eq!(ast.canonicalize(), Ok(()));
    let expected = Statement::Assign {
        node: node(3, 12, 19),
        target: name(4, 12, 13, "x"),
        operation: None,
        value: Expression {
            node: node(7, 12, 19),
            kind: ExpressionKind::Binary {
                operation: BinaryOperation::Add,
                left: Box::new(name(6, 12, 13, "x")),
                right: Box::new(integer(5, 17, 18, "1")),
            },
        },
    };
    assert_eq!(ast.as_repr().functions[0].body.statements, vec![expected]);
}

#[test]
fn compound_assignment_to_a_literal_is_rejected() {
    // 1 += x;
    let statement = Statement::Assign {
        node: node(3, 12, 19),
        target: integer(4, 12, 13, "1"),
        operation: Some(BinaryOperation::Add),
        value: name(5, 17, 18, "x"),
    };
    let before = program(vec![function(1, "main", None, vec![statement])]);
    let mut ast = Ast::new(program(vec![function(
        1,
        "main",
        None,
        vec![Statement::Assign {
            node: node(3, 12, 19),
            target: integer(4, 12, 13, "1"),
            operation: Some(BinaryOperation::Add),
            value: name(5, 17, 18, "x"),
        }],
    )]));
    match ast.canonicalize() {
        Err(AstError::Canonicalization(error)) => {
            assert_eq!(error.kind, ReducerErrorKind::InvalidAssignmentTarget);
            assert_eq!(error.span, Span { start: 12, end: 13 });
        },
        other => panic!("unexpected result {:?}", other),
    }
    assert_eq!(ast.as_repr(), &before);
}

#[test]
fn compound_assignment_to_a_call_result_is_rejected() {
    let statement = Statement::Assign {
        node: node(3, 12, 25),
        target: call_pair(4, 12, 18),
        operation: Some(BinaryOperation::Mul),
        value: name(5, 22, 23, "x"),
    };
    let mut ast = Ast::new(program(vec![function(1, "main", None, vec![statement]), pair_function()]));
    match ast.canonicalize() {
        Err(AstError::Canonicalization(error)) => {
            assert_eq!(error.kind, ReducerErrorKind::InvalidAssignmentTarget);
            assert_eq!(error.span, Span { start: 12, end: 18 });
        },
        other => panic!("unexpected result {:?}", other),
    }
}

fn definition_from_pair(names: Vec<Binding>) -> Statement {
    Statement::Definition(Definition {
        node: node(3, 12, 32),
        mutable: false,
        bindings: names,
        value: call_pair(6, 25, 31),
    })
}

#[test]
fn definition_of_two_names_from_a_call_is_split() {
    // let (a, b) = pair();
    let statement = definition_from_pair(vec![binding(4, 17, 18, "a"), binding(5, 20, 21, "b")]);
    let mut ast = Ast::new(program(vec![function(1, "main", None, vec![statement]), pair_function()]));
    assert_eq!(ast.canonicalize(), Ok(()));
    let component = |definition: u64, copy: u64, access: u64, b: Binding, position: u64| {
        Statement::Definition(Definition {
            node: node(definition, 12, 32),
            mutable: false,
            bindings: vec![b],
            value: Expression {
                node: node(access, 25, 31),
                kind: ExpressionKind::TupleAccess { tuple: Box::new(call_pair(copy, 25, 31)), position },
            },
        })
    };
    let expected = vec![
        component(56, 57, 58, binding(4, 17, 18, "a"), 0),
        component(59, 60, 61, binding(5, 20, 21, "b"), 1),
    ];
    assert_eq!(ast.as_repr().functions[0].body.statements, expected);
    assert_eq!(ast.as_repr().functions[0].body.node, node(2, 10, 100));
}

#[test]
fn definition_of_three_names_from_a_pair_is_rejected() {
    // let (a, b, c) = pair();
    let statement = definition_from_pair(vec![
        binding(4, 17, 18, "a"),
        binding(5, 20, 21, "b"),
        binding(7, 23, 24, "c"),
    ]);
    let mut ast = Ast::new(program(vec![function(1, "main", None, vec![statement]), pair_function()]));
    match ast.canonicalize() {
        Err(AstError::Canonicalization(error)) => {
            assert_eq!(error.kind, ReducerErrorKind::ArityMismatch);
            assert_eq!(error.span, Span { start: 12, end: 32 });
        },
        other => panic!("unexpected result {:?}", other),
    }
    assert_eq!(ast.as_repr().functions[0].body.statements.len(), 1);
}

#[test]
fn first_broken_rule_in_the_order_of_writing_is_reported() {
    // let (a, b, c) = pair(); 1 += x;
    let definition = definition_from_pair(vec![
        binding(4, 17, 18, "a"),
        binding(5, 20, 21, "b"),
        binding(7, 23, 24, "c"),
    ]);
    let assignment = |id: u64| Statement::Assign {
        node: node(id, 40, 47),
        target: integer(id + 1, 40, 41, "1"),
        operation: Some(BinaryOperation::Add),
        value: name(id + 2, 45, 46, "x"),
    };
    let mut ast =
        Ast::new(program(vec![function(1, "main", None, vec![definition, assignment(8)]), pair_function()]));
    match ast.canonicalize() {
        Err(AstError::Canonicalization(error)) => {
            assert_eq!(error.kind, ReducerErrorKind::ArityMismatch);
            assert_eq!(error.span, Span { start: 12, end: 32 });
        },
        other => panic!("unexpected result {:?}", other),
    }
    // 1 += x; let (a, b, c) = pair();
    let definition = definition_from_pair(vec![
        binding(4, 17, 18, "a"),
        binding(5, 20, 21, "b"),
        binding(7, 23, 24, "c"),
    ]);
    let mut ast =
        Ast::new(program(vec![function(1, "main", None, vec![assignment(8), definition]), pair_function()]));
    match ast.canonicalize() {
        Err(AstError::Canonicalization(error)) => {
            assert_eq!(error.kind, ReducerErrorKind::InvalidAssignmentTarget);
            assert_eq!(error.span, Span { start: 40, end: 41 });
        },
        other => panic!("unexpected result {:?}", other),
    }
}

#[test]
fn definition_from_a_tuple_expression_is_split_by_element() {
    // let (a, b) = (1, 2);
    let statement = Statement::Definition(Definition {
        node: node(3, 12, 32),
        mutable: true,
        bindings: vec![binding(4, 17, 18, "a"), binding(5, 20, 21, "b")],
        value: Expression {
            node: node(6, 25, 31),
            kind: ExpressionKind::Tuple(vec![integer(7, 26, 27, "1"), integer(8, 29, 30, "2")]),
        },
    });
    let mut ast = Ast::new(program(vec![function(1, "main", None, vec![statement])]));
    assert_eq!(ast.canonicalize(), Ok(()));
    let expected = vec![
        Statement::Definition(Definition {
            node: node(9, 12, 32),
            mutable: true,
            bindings: vec![binding(4, 17, 18, "a")],
            value: integer(7, 26, 27, "1"),
        }),
        Statement::Definition(Definition {
            node: node(10, 12, 32),
            mutable: true,
            bindings: vec![binding(5, 20, 21, "b")],
            value: integer(8, 29, 30, "2"),
        }),
    ];
    assert_eq!(ast.as_repr().functions[0].body.statements, expected);
}

#[test]
fn definition_from_an_unknown_function_is_kept() {
    let statement = Statement::Definition(Definition {
        node: node(3, 12, 32),
        mutable: false,
        bindings: vec![binding(4, 17, 18, "a"), binding(5, 20, 21, "b")],
        value: Expression {
            node: node(6, 25, 31),
            kind: ExpressionKind::Call { callee: vec!["other".to_string()], arguments: vec![] },
        },
    });
    let mut ast = Ast::new(program(vec![function(1, "main", None, vec![statement])]));
    assert_eq!(ast.canonicalize(), Ok(()));
    match &ast.as_repr().functions[0].body.statements[0] {
        Statement::Definition(d) => {
            assert_eq!(d.bindings.len(), 2);
            assert_eq!(d.node, node(3, 12, 32));
        },
        other => panic!("unexpected statement {:?}", other),
    }
}

#[test]
fn else_if_is_put_into_a_block() {
    let inner = Statement::Conditional {
        node: node(8, 40, 60),
        condition: name(9, 43, 44, "d"),
        then_block: Block { node: node(10, 45, 60), statements: vec![] },
        otherwise: None,
    };
    let statement = Statement::Conditional {
        node: node(3, 12, 60),
        condition: name(4, 15, 16, "c"),
        then_block: Block { node: node(5, 17, 30), statements: vec![] },
        otherwise: Some(Box::new(inner)),
    };
    let mut ast = Ast::new(program(vec![function(1, "main", None, vec![statement])]));
    assert_eq!(ast.canonicalize(), Ok(()));
    let expected = Statement::Conditional {
        node: node(3, 12, 60),
        condition: name(4, 15, 16, "c"),
        then_block: Block { node: node(5, 17, 30), statements: vec![] },
        otherwise: Some(Box::new(Statement::Block(Block {
            node: node(11, 40, 60),
            statements: vec![Statement::Conditional {
                node: node(8, 40, 60),
                condition: name(9, 43, 44, "d"),
                then_block: Block { node: node(10, 45, 60), statements: vec![] },
                otherwise: None,
            }],
        }))),
    };
    assert_eq!(ast.as_repr().functions[0].body.statements, vec![expected]);
}

fn returning(literal: Literal) -> Program {
    program(vec![function(
        1,
        "main",
        None,
        vec![Statement::Return {
            node: node(3, 12, 30),
            value: Expression { node: node(4, 19, 29), kind: ExpressionKind::Literal(literal) },
        }],
    )])
}

fn returned(ast: &Ast) -> &ExpressionKind {
    match &ast.as_repr().functions[0].body.statements[0] {
        Statement::Return { value, .. } => &value.kind,
        other => panic!("unexpected statement {:?}", other),
    }
}

#[test]
fn short_group_literal_becomes_a_pair() {
    let mut ast = Ast::new(returning(Literal::GroupSingle("-12".to_string())));
    assert_eq!(ast.canonicalize(), Ok(()));
    assert_eq!(
        returned(&ast),
        &ExpressionKind::Literal(Literal::GroupPair(
            GroupCoordinate::Number("-12".to_string()),
            GroupCoordinate::Inferred
        ))
    );
}

#[test]
fn malformed_group_literal_is_rejected() {
    for digits in ["", "-", "1x", "+1", "--1"] {
        let mut ast = Ast::new(returning(Literal::GroupSingle(digits.to_string())));
        match ast.canonicalize() {
            Err(AstError::Canonicalization(error)) => {
                assert_eq!(error.kind, ReducerErrorKind::MalformedLiteral);
                assert_eq!(error.span, Span { start: 19, end: 29 });
            },
            other => panic!("unexpected result {:?} for {:?}", other, digits),
        }
    }
    let mut ast = Ast::new(returning(Literal::GroupPair(
        GroupCoordinate::Number("7".to_string()),
        GroupCoordinate::Number("seven".to_string()),
    )));
    assert!(ast.canonicalize().is_err());
}

#[test]
fn address_is_put_into_lower_case() {
    let written = "ALEO1QNR4DKKVKGFQPH0VZC3Y6Z2EU975WNPZ2925NTJCCD5CFQXTYU8SXWD3R9";
    assert_eq!(written.len(), 63);
    let mut ast = Ast::new(returning(Literal::Address(written.to_string())));
    assert_eq!(ast.canonicalize(), Ok(()));
    assert_eq!(returned(&ast), &ExpressionKind::Literal(Literal::Address(written.to_lowercase())));
}

#[test]
fn malformed_address_is_rejected() {
    let too_short = "aleo1qnr4dkkvkgfqph0vzc3y6z2eu975wnpz2925ntjccd5cfqxtyu8sxwd3r";
    let wrong_prefix = "bleo1qnr4dkkvkgfqph0vzc3y6z2eu975wnpz2925ntjccd5cfqxtyu8sxwd3r9";
    let wrong_character = "aleo1qnr4dkkvkgfqph0vzc3y6z2eu975wnpz2925ntjccd5cfqxtyu8sxwd3r_";
    for written in [too_short, wrong_prefix, wrong_character] {
        let mut ast = Ast::new(returning(Literal::Address(written.to_string())));
        match ast.canonicalize() {
            Err(AstError::Canonicalization(error)) => {
                assert_eq!(error.kind, ReducerErrorKind::MalformedLiteral);
                assert_eq!(error.span, Span { start: 19, end: 29 });
            },
            other => panic!("unexpected result {:?} for {:?}", other, written),
        }
    }
}

#[test]
fn short_member_access_becomes_access_on_self() {
    let mut ast = Ast::new(program(vec![function(
        1,
        "main",
        None,
        vec![Statement::Return {
            node: node(3, 12, 30),
            value: Expression {
                node: node(4, 19, 21),
                kind: ExpressionKind::ImplicitMember { name: "x".to_string() },
            },
        }],
    )]));
    assert_eq!(ast.canonicalize(), Ok(()));
    let expected = Statement::Return {
        node: node(3, 12, 30),
        value: Expression {
            node: node(4, 19, 21),
            kind: ExpressionKind::Member {
                object: Box::new(name(5, 19, 21, "self")),
                name: "x".to_string(),
            },
        },
    };
    assert_eq!(ast.as_repr().functions[0].body.statements, vec![expected]);
}

#[test]
fn canonicalizing_twice_changes_nothing_the_second_time() {
    let statements = vec![
        definition_from_pair(vec![binding(4, 17, 18, "a"), binding(5, 20, 21, "b")]),
        Statement::Assign {
            node: node(13, 42, 49),
            target: name(14, 42, 43, "a"),
            operation: Some(BinaryOperation::Sub),
            value: Expression {
                node: node(15, 47, 48),
                kind: ExpressionKind::Literal(Literal::GroupSingle("3".to_string())),
            },
        },
    ];
    let mut ast = Ast::new(program(vec![function(1, "main", None, statements), pair_function()]));
    assert_eq!(ast.canonicalize(), Ok(()));
    let first = format!("{:?}", ast.as_repr());
    assert_eq!(ast.canonicalize(), Ok(()));
    assert_eq!(format!("{:?}", ast.as_repr()), first);
}

#[test]
fn canonicalizing_a_program_without_sugar_returns_it_unchanged() {
    let build = || {
        program(vec![
            function(
                1,
                "main",
                None,
                vec![Statement::Assign {
                    node: node(3, 12, 19),
                    target: name(4, 12, 13, "x"),
                    operation: None,
                    value: integer(5, 17, 18, "1"),
                }],
            ),
            pair_function(),
        ])
    };
    let mut ast = Ast::new(build());
    assert_eq!(ast.canonicalize(), Ok(()));
    assert_eq!(ast.as_repr(), &build());
    assert_eq!(ast.canonicalize(), Ok(()));
    assert_eq!(ast.into_repr(), build());
}
