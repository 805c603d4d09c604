use leo_ast::canonicalizer::is_assignable;
use leo_ast::distinct::has_distinct_identifiers;
use leo_ast::identifiers::all_different;
use leo_ast::identities::{copy_with_new_identities, first_unused_identity, identifiers_of, mint};
use leo_ast::literals::{canonicalize_literal, is_valid_address, is_valid_number, lowercase};
use leo_ast::{
    Ast, BinaryOperation, Binding, Block, Canonicalizer, Definition, Expression, ExpressionKind,
    Function, GroupCoordinate, IntegerType, Literal, Node, PassThrough, Program, ReconstructingDirector,
    ReducerError, ReducerErrorKind, Signature, Span, Statement, Type,
};

fn node(id: u64) -> Node {
    Node { id, span: Span { start: id, end: id + 1 } }
}

fn name(id: u64, text: &str) -> Expression {
    Expression { node: node(id), kind: ExpressionKind::Identifier(text.to_string()) }
}

fn sum(id: u64, left: Expression, right: Expression) -> Expression {
    Expression {
        node: node(id),
        kind: ExpressionKind::Binary {
            operation: BinaryOperation::Add,
            left: Box::new(left),
            right: Box::new(right),
        },
    }
}

fn function(id: u64, text: &str, statements: Vec<Statement>) -> Function {
    Function {
        node: node(id),
        name: text.to_string(),
        inputs: vec![],
        output: None,
        annotations: vec![],
        body: Block { node: node(id + 1), statements },
    }
}

fn sample() -> Program {
    Program {
        imports: vec![],
        circuits: vec![],
        functions: vec![function(
            10,
            "main",
            vec![
                Statement::Assign {
                    node: node(12),
                    target: Expression {
                        node: node(13),
                        kind: ExpressionKind::Index {
                            array: Box::new(Expression {
                                node: node(14),
                                kind: ExpressionKind::ImplicitMember { name: "cells".to_string() },
                            }),
                            index: Box::new(name(15, "i")),
                        },
                    },
                    operation: Some(BinaryOperation::Mul),
                    value: sum(16, name(17, "a"), name(18, "b")),
                },
                Statement::Return { node: node(19), value: name(20, "a") },
            ],
        )],
        globals: vec![],
    }
}

fn identifiers_of_expression(e: &Expression, out: &mut Vec<u64>) {
    out.push(e.node.id);
    match &e.kind {
        ExpressionKind::Unary { operand, .. } => identifiers_of_expression(operand, out),
        ExpressionKind::Binary { left, right, .. } => {
            identifiers_of_expression(left, out);
            identifiers_of_expression(right, out);
        },
        ExpressionKind::Index { array, index } => {
            identifiers_of_expression(array, out);
            identifiers_of_expression(index, out);
        },
        ExpressionKind::Member { object, .. } => identifiers_of_expression(object, out),
        ExpressionKind::TupleAccess { tuple, .. } => identifiers_of_expression(tuple, out),
        ExpressionKind::Call { arguments, .. } => {
            for a in arguments {
                identifiers_of_expression(a, out);
            }
        },
        _ => {},
    }
}

fn identifiers_of_statement(s: &Statement, out: &mut Vec<u64>) {
    out.push(s.node().id);
    match s {
        Statement::Return { value, .. } => identifiers_of_expression(value, out),
        Statement::Assign { target, value, .. } => {
            identifiers_of_expression(target, out);
            identifiers_of_expression(value, out);
        },
        Statement::Definition(d) => {
            for b in &d.bindings {
                out.push(b.node.id);
            }
            identifiers_of_expression(&d.value, out);
        },
        _ => {},
    }
}

#[test]
fn pass_that_keeps_every_node_returns_the_program_as_it_is() {
    let mut director = ReconstructingDirector::new(PassThrough {});
    assert_eq!(director.reduce_program(&sample()), Ok(sample()));
    assert_eq!(director.reduce_statement(&sample().functions[0].body.statements[0]).unwrap(),
        sample().functions[0].body.statements[0]);
}

#[test]
fn copies_are_equal_to_what_they_copy() {
    let program = sample();
    assert_eq!(program.clone(), program);
    let ast = Ast::new(sample());
    assert_eq!(ast.clone(), ast);
    let e = sum(1, name(2, "a"), name(3, "b"));
    assert_eq!(e.clone(), e);
    assert_eq!(program.functions[0].clone(), program.functions[0]);
    assert_eq!(program.functions[0].body.statements[1].clone(), program.functions[0].body.statements[1]);
    let reference: &Program = ast.as_ref();
    assert_eq!(reference, &program);
}

#[test]
fn first_unused_identifier_is_above_every_identifier() {
    assert_eq!(first_unused_identity(&sample()), Some(21));
    let empty = Program { imports: vec![], circuits: vec![], functions: vec![], globals: vec![] };
    assert_eq!(first_unused_identity(&empty), Some(0));
    let mut last = sample();
    last.functions[0].node.id = u64::MAX;
    assert_eq!(first_unused_identity(&last), None);
}

#[test]
fn identifiers_are_listed_children_first() {
    assert_eq!(identifiers_of(&sample()), vec![14, 15, 13, 17, 18, 16, 12, 20, 19, 11, 10]);
    assert!(has_distinct_identifiers(&sample()));
    let mut twice = sample();
    twice.functions[0].body.node.id = 20;
    assert!(!has_distinct_identifiers(&twice));
    assert!(all_different(&vec![]));
    assert!(all_different(&vec![3, 1, 2]));
    assert!(!all_different(&vec![3, 1, 3]));
}

#[test]
fn minting_counts_up_and_ends() {
    let span = Span { start: 3, end: 4 };
    let mut next = Some(u64::MAX - 1);
    assert_eq!(mint(&mut next, span), Ok(Node { id: u64::MAX - 1, span }));
    assert_eq!(next, Some(u64::MAX));
    assert_eq!(mint(&mut next, span), Ok(Node { id: u64::MAX, span }));
    assert_eq!(next, None);
    assert_eq!(
        mint(&mut next, span),
        Err(ReducerError { kind: ReducerErrorKind::IdentitiesExhausted, span })
    );
    assert_eq!(next, None);
}

#[test]
fn copy_under_new_identifiers_numbers_children_first() {
    let e = sum(1, name(2, "a"), name(3, "b"));
    let mut next = Some(100);
    let copy = copy_with_new_identities(&mut next, &e).unwrap();
    assert_eq!(next, Some(103));
    let expected = Expression {
        node: Node { id: 102, span: Span { start: 1, end: 2 } },
        kind: ExpressionKind::Binary {
            operation: BinaryOperation::Add,
            left: Box::new(Expression {
                node: Node { id: 100, span: Span { start: 2, end: 3 } },
                kind: ExpressionKind::Identifier("a".to_string()),
            }),
            right: Box::new(Expression {
                node: Node { id: 101, span: Span { start: 3, end: 4 } },
                kind: ExpressionKind::Identifier("b".to_string()),
            }),
        },
    };
    assert_eq!(copy, expected);
    let mut short = Some(u64::MAX);
    assert_eq!(
        copy_with_new_identities(&mut short, &e),
        Err(ReducerError {
            kind: ReducerErrorKind::IdentitiesExhausted,
            span: Span { start: 3, end: 4 },
        })
    );
}

#[test]
fn canonicalization_fails_when_identifiers_run_out() {
    let mut program = sample();
    program.functions[0].node.id = u64::MAX;
    let mut ast = Ast::new(program.clone());
    assert_eq!(
        ast.canonicalize(),
        Err(leo_ast::AstError::Canonicalization(ReducerError {
            kind: ReducerErrorKind::IdentitiesExhausted,
            span: Span { start: 14, end: 15 },
        }))
    );
    assert_eq!(ast.as_repr(), &program);
}

#[test]
fn canonicalization_keeps_identifiers_distinct() {
    let mut ast = Ast::new(sample());
    assert_eq!(ast.canonicalize(), Ok(()));
    let mut seen = Vec::new();
    for f in &ast.as_repr().functions {
        seen.push(f.node.id);
        seen.push(f.body.node.id);
        for s in &f.body.statements {
            identifiers_of_statement(s, &mut seen);
        }
    }
    let count = seen.len();
    // what was there, the receiver `self`, the copy of the target (four nodes)
    // and the operation
    assert_eq!(count, 11 + 1 + 4 + 1);
    seen.sort();
    seen.dedup();
    assert_eq!(seen.len(), count);
}

#[test]
fn canonicalization_keeps_every_span() {
    let mut ast = Ast::new(sample());
    assert_eq!(ast.canonicalize(), Ok(()));
    let before = sample();
    let after = ast.as_repr();
    assert_eq!(after.functions[0].node, before.functions[0].node);
    assert_eq!(after.functions[0].body.node, before.functions[0].body.node);
    for (a, b) in after.functions[0].body.statements.iter().zip(&before.functions[0].body.statements) {
        assert_eq!(a.node(), b.node());
    }
    match &after.functions[0].body.statements[0] {
        Statement::Assign { target, operation, value, .. } => {
            assert_eq!(*operation, None);
            assert_eq!(target.node, node(13));
            match (&target.kind, &value.kind) {
                (
                    ExpressionKind::Index { array, index },
                    ExpressionKind::Binary { operation, left, right },
                ) => {
                    assert_eq!(array.node, node(14));
                    assert_eq!(index.node, node(15));
                    assert_eq!(*operation, BinaryOperation::Mul);
                    assert_eq!(value.node.span, Span { start: 12, end: 13 });
                    assert_eq!(left.node.span, Span { start: 13, end: 14 });
                    assert_eq!(**right, sum(16, name(17, "a"), name(18, "b")));
                },
                other => panic!("unexpected kinds {:?}", other),
            }
        },
        other => panic!("unexpected statement {:?}", other),
    }
}

#[test]
fn what_can_be_assigned_to() {
    assert!(is_assignable(&name(1, "x")));
    let member = Expression {
        node: node(2),
        kind: ExpressionKind::Member { object: Box::new(name(3, "p")), name: "x".to_string() },
    };
    assert!(is_assignable(&member));
    let component = Expression {
        node: node(4),
        kind: ExpressionKind::TupleAccess { tuple: Box::new(member), position: 1 },
    };
    assert!(is_assignable(&component));
    assert!(!is_assignable(&sum(5, name(6, "a"), name(7, "b"))));
    let call = Expression {
        node: node(8),
        kind: ExpressionKind::Call { callee: vec!["f".to_string()], arguments: vec![] },
    };
    assert!(!is_assignable(&call));
    let element_of_call = Expression {
        node: node(9),
        kind: ExpressionKind::Index { array: Box::new(call), index: Box::new(name(10, "i")) },
    };
    assert!(!is_assignable(&element_of_call));
}

#[test]
fn tuple_width_is_read_off_the_expression() {
    let pass = Canonicalizer::new(
        Some(0),
        vec![
            Signature { name: "pair".to_string(), width: Some(2) },
            Signature { name: "plain".to_string(), width: None },
            Signature { name: "pair".to_string(), width: Some(3) },
        ],
    );
    let call = |path: Vec<&str>| Expression {
        node: node(1),
        kind: ExpressionKind::Call {
            callee: path.into_iter().map(|s| s.to_string()).collect(),
            arguments: vec![],
        },
    };
    assert_eq!(pass.tuple_width(&call(vec!["pair"])), Some(2));
    assert_eq!(pass.tuple_width(&call(vec!["plain"])), None);
    assert_eq!(pass.tuple_width(&call(vec!["other"])), None);
    assert_eq!(pass.tuple_width(&call(vec!["m", "pair"])), None);
    let tuple = Expression { node: node(2), kind: ExpressionKind::Tuple(vec![name(3, "a")]) };
    assert_eq!(pass.tuple_width(&tuple), Some(1));
    assert_eq!(pass.tuple_width(&name(4, "pair")), None);
    assert_eq!(Canonicalizer::default().tuple_width(&call(vec!["pair"])), None);
    let f = function(1, "f", vec![]);
    assert_eq!(Signature::of(&f), Signature { name: "f".to_string(), width: None });
    let g = Function { output: Some(Type::Tuple(vec![Type::Field, Type::Field, Type::Group])), ..f };
    assert_eq!(Signature::of(&g), Signature { name: "f".to_string(), width: Some(3) });
}

#[test]
fn split_definition_with_the_pass_alone() {
    let mut pass = Canonicalizer::new(Some(50), vec![]);
    let d = Definition {
        node: node(1),
        mutable: false,
        bindings: vec![
            Binding { node: node(2), name: "a".to_string(), declared: Some(Type::Boolean) },
            Binding { node: node(3), name: "b".to_string(), declared: None },
        ],
        value: Expression {
            node: node(4),
            kind: ExpressionKind::Tuple(vec![name(5, "x"), name(6, "y")]),
        },
    };
    let parts = pass.split_definition(d).unwrap();
    assert_eq!(parts.len(), 2);
    assert_eq!(parts[0].node, Node { id: 50, span: Span { start: 1, end: 2 } });
    assert_eq!(parts[1].node, Node { id: 51, span: Span { start: 1, end: 2 } });
    assert_eq!(parts[0].bindings[0].declared, Some(Type::Boolean));
    assert_eq!(parts[1].value, name(6, "y"));
    let single = Definition {
        node: node(1),
        mutable: false,
        bindings: vec![Binding { node: node(2), name: "t".to_string(), declared: None }],
        value: Expression { node: node(4), kind: ExpressionKind::Tuple(vec![name(5, "x"), name(6, "y")]) },
    };
    let kept = pass.split_definition(single.clone_for_test()).unwrap();
    assert_eq!(kept, vec![single]);
}

trait CloneForTest {
    fn clone_for_test(&self) -> Self;
}

impl CloneForTest for Definition {
    fn clone_for_test(&self) -> Self {
        Definition {
            node: self.node,
            mutable: self.mutable,
            bindings: self.bindings.iter().map(|b| b.clone()).collect(),
            value: self.value.clone(),
        }
    }
}

#[test]
fn numbers_and_addresses() {
    for good in ["0", "12", "-7", "007"] {
        assert!(is_valid_number(&good.to_string()), "{:?}", good);
    }
    for bad in ["", "-", "+1", "1-", "1.5", " 1", "١"] {
        assert!(!is_valid_number(&bad.to_string()), "{:?}", bad);
    }
    let address = "aleo1qnr4dkkvkgfqph0vzc3y6z2eu975wnpz2925ntjccd5cfqxtyu8sxwd3r9";
    assert!(is_valid_address(&address.to_string()));
    assert!(is_valid_address(&address.to_uppercase()));
    assert!(!is_valid_address(&address[1..].to_string()));
    assert!(!is_valid_address(&address.replace("q", "é")));
    assert_eq!(lowercase(&"AbC-é1Z".to_string()), "abc-é1z");
    assert_eq!(
        canonicalize_literal(&Literal::GroupSingle("5".to_string())),
        Some(Literal::GroupPair(GroupCoordinate::Number("5".to_string()), GroupCoordinate::Inferred))
    );
    assert_eq!(canonicalize_literal(&Literal::GroupSingle("five".to_string())), None);
    assert_eq!(
        canonicalize_literal(&Literal::Integer(IntegerType::U8, "five".to_string())),
        Some(Literal::Integer(IntegerType::U8, "five".to_string()))
    );
    assert_eq!(
        canonicalize_literal(&Literal::Address(address.to_uppercase())),
        Some(Literal::Address(address.to_string()))
    );
}

#[test]
fn errors_are_described() {
    assert_eq!(
        ReducerErrorKind::ArityMismatch.description(),
        "the number of names defined differs from the width of the tuple"
    );
    assert_eq!(ReducerErrorKind::MalformedLiteral.description(), "malformed group or address literal");
    assert_eq!(
        ReducerErrorKind::InvalidAssignmentTarget.description(),
        "the left side of a compound assignment cannot be assigned to"
    );
    assert_eq!(
        ReducerErrorKind::IdentitiesExhausted.description(),
        "no node identity is left for a new node"
    );
    let error = ReducerError::new(ReducerErrorKind::ArityMismatch, Span::new(1, 2));
    assert_eq!(error.span, Span { start: 1, end: 2 });
    assert_eq!(Node::new(3, Span::new(1, 2)), Node { id: 3, span: Span { start: 1, end: 2 } });
}
