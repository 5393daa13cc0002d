use everything::abstracts::{BIT_0, CONTAINS, FUNCTION, NODE_NOT, UNDEFINED};
use everything::base::base;
use everything::eval::{new_bool, new_set, EvaluationContext, ObjectOrSetValues};
use everything::nodes::{
    BinaryNode, CallNode, FilterNode, IfNode, MapNode, Node, QueryExistsNode, QuerySubjectsAndTagsNode,
    QuerySubjectsAndValuesNode, QuerySubjectsNode, QueryTagsAndValuesNode, QueryTagsNode, QueryValuesNode,
    UnwrapOrNode,
};
use everything::object::{Abstract, Object, Property, Structure};
use everything::objects::{SUCCESSOR_OF, ZERO};

fn zero() -> Object {
    Object::Abstract(Abstract(ZERO))
}

fn empty() -> Object {
    Object::Structure(Structure::new(vec![]))
}

fn contains(value: Object) -> Property {
    Property { tag: Object::Abstract(Abstract(CONTAINS)), value }
}

fn structure(properties: Vec<Property>) -> Object {
    Object::Structure(Structure::new(properties))
}

#[test]
fn new_integer() {
    assert_eq!(Object::new_integer(0), zero());

    let successor_of = |value: Object| Property { tag: Object::Abstract(Abstract(SUCCESSOR_OF)), value };
    assert_eq!(
        Object::new_integer(2),
        structure(vec![successor_of(structure(vec![successor_of(zero())]))])
    );

    let predecessor_of = |value: Object| Property {
        tag: Object::Abstract(Abstract(everything::objects::PREDECESSOR_OF)),
        value,
    };
    assert_eq!(
        Object::new_integer(-3),
        structure(vec![predecessor_of(structure(vec![predecessor_of(structure(vec![predecessor_of(zero())]))]))])
    );
}

#[test]
fn node_parsing() {
    let a = || Object::Abstract(Abstract(100));
    let b = || Object::Character('B');
    let c = || empty();

    let knowledge = base();

    let node_cases = vec![
        Node::Statements,
        Node::Add(BinaryNode { left: a(), right: b() }),
        Node::And(BinaryNode { left: a(), right: b() }),
        Node::Call(CallNode { callee: a(), with: b() }),
        Node::Count(a()),
        Node::Equal(BinaryNode { left: a(), right: b() }),
        Node::Filter(FilterNode { set: a(), filter_function: b() }),
        Node::Function(a()),
        Node::FunctionSelf(42),
        Node::If(IfNode { condition: a(), then_branch: b(), otherwise: c() }),
        Node::IsAbstract(a()),
        Node::Less(BinaryNode { left: a(), right: b() }),
        Node::Literal(a()),
        Node::Mapping(MapNode { mapper_function: a(), set: b() }),
        Node::Multiply(BinaryNode { left: a(), right: b() }),
        Node::Not(c()),
        Node::Or(BinaryNode { left: a(), right: c() }),
        Node::Parameter(67),
        Node::QueryExists(QueryExistsNode { subject: a(), tag: b(), value: c() }),
        Node::QuerySubjects(QuerySubjectsNode { tag: a(), value: b() }),
        Node::QuerySubjectsAndTags(QuerySubjectsAndTagsNode { value: a() }),
        Node::QuerySubjectsAndValues(QuerySubjectsAndValuesNode { tag: a() }),
        Node::QueryTags(QueryTagsNode { subject: a(), value: b() }),
        Node::QueryTagsAndValues(QueryTagsAndValuesNode { subject: c() }),
        Node::QueryValues(QueryValuesNode { subject: b(), tag: c() }),
        Node::Union(BinaryNode { left: a(), right: c() }),
        Node::UnwrapOr(UnwrapOrNode { default: c(), set: b() }),
        Node::Xor(BinaryNode { left: a(), right: c() }),
    ];

    for node in node_cases {
        assert_eq!(Object::new_node(node.clone()).node(&knowledge), Some(node));
    }

    // None
    assert_eq!(empty().node(&knowledge), None);

    // Double -> None
    assert_eq!(
        structure(vec![
            Property { tag: Object::Abstract(Abstract(NODE_NOT)), value: c() },
            Property { tag: Object::Abstract(Abstract(FUNCTION)), value: a() },
        ])
        .node(&knowledge),
        None
    );
}

#[test]
fn call() {
    let f = Object::new_node(Node::Function(Object::new_node(Node::Parameter(0))));

    assert_eq!(
        f.call(&base(), &[zero().into()], &mut EvaluationContext::default()).into_object(),
        zero()
    );
}

#[test]
fn and() {
    let cases = [(false, false, false), (false, true, false), (true, false, false), (true, true, true)];
    let knowledge = base();

    for (left, right, result) in cases {
        assert_eq!(
            Object::new_node(Node::And(BinaryNode { left: new_bool(left), right: new_bool(right) }))
                .evaluate(&knowledge, &mut EvaluationContext::default())
                .is_truthy(&knowledge),
            result
        );
    }
}

#[test]
fn or() {
    let cases = [(false, false, false), (false, true, true), (true, false, true), (true, true, true)];
    let knowledge = base();

    for (left, right, result) in cases {
        assert_eq!(
            Object::new_node(Node::Or(BinaryNode { left: new_bool(left), right: new_bool(right) }))
                .evaluate(&knowledge, &mut EvaluationContext::default())
                .is_truthy(&knowledge),
            result
        );
    }
}

#[test]
fn literal() {
    let subjects = [zero(), Object::new_node(Node::Not(Object::new_integer(42)))];
    let knowledge = base();

    for subject in subjects {
        assert_eq!(
            Object::new_node(Node::Literal(subject.clone()))
                .evaluate(&knowledge, &mut EvaluationContext::default())
                .into_object(),
            subject
        );
    }
}

#[test]
fn eval_count() {
    let knowledge = base();

    assert_eq!(
        Object::new_node(Node::Count(empty()))
            .evaluate(&knowledge, &mut EvaluationContext::default())
            .into_object(),
        Object::new_integer(0)
    );

    assert_eq!(
        Object::new_node(Node::Count(Object::new_node(Node::Literal(structure(vec![
            contains(zero()),
            contains(Object::Abstract(Abstract(BIT_0))),
        ])))))
        .evaluate(&knowledge, &mut EvaluationContext::default())
        .into_object(),
        Object::new_integer(2)
    );
}

#[test]
fn count() {
    let knowledge = base();

    for count in 0..10_usize {
        let properties = (0..count).map(|i| contains(Object::new_integer(i as i128))).collect::<Vec<_>>();

        let node = Object::new_node(Node::Count(Object::new_node(Node::Literal(structure(properties)))));

        assert_eq!(
            node.evaluate(&knowledge, &mut EvaluationContext::default()).into_object().to_integer(&knowledge),
            Some(count as i128)
        );
    }
}

#[test]
fn factorial() {
    let factorial = Object::new_node(Node::Function(Object::new_node(Node::If(IfNode {
        condition: Object::new_node(Node::Less(BinaryNode {
            left: Object::new_node(Node::Parameter(0)),
            right: Object::new_integer(2),
        })),
        then_branch: Object::new_integer(1),
        otherwise: Object::new_node(Node::Multiply(BinaryNode {
            left: Object::new_node(Node::Parameter(0)),
            right: Object::new_node(Node::Call(CallNode {
                callee: Object::new_node(Node::FunctionSelf(0)),
                with: Object::new_node(Node::Add(BinaryNode {
                    left: Object::new_node(Node::Parameter(0)),
                    right: Object::new_integer(-1),
                })),
            })),
        })),
    }))));

    let points = [(-10_i128, 1_i128), (-5, 1), (0, 1), (1, 1), (2, 2), (3, 6), (4, 24)];
    let knowledge = base();

    for (input, output) in points {
        assert_eq!(
            factorial
                .call(&knowledge, &[Object::new_integer(input).into()], &mut EvaluationContext::default())
                .into_object(),
            Object::new_integer(output)
        );
    }
}

#[test]
fn eval_query() {
    let knowledge = base();

    assert_eq!(
        Object::new_node(Node::QueryValues(QueryValuesNode {
            subject: structure(vec![
                contains(zero()),
                contains(Object::Abstract(Abstract(BIT_0))),
                Property { tag: Object::Abstract(Abstract(SUCCESSOR_OF)), value: Object::new_integer(0) },
            ]),
            tag: Object::new_node(Node::Literal(Object::Abstract(Abstract(CONTAINS)))),
        }))
        .evaluate(&knowledge, &mut EvaluationContext::default())
        .into_object(),
        new_set(&vec![Object::Abstract(Abstract(BIT_0)), zero()]),
    );
}

#[test]
fn set_items() {
    let f = Object::new_node(Node::Function(Object::new_node(Node::Function(new_set(&vec![
        Object::new_node(Node::Parameter(0)),
        Object::new_node(Node::Parameter(1)),
    ])))));

    assert_eq!(
        f.call(
            &base(),
            &[Object::Abstract(Abstract(1337)), Object::Abstract(Abstract(1338))].map(ObjectOrSetValues::Object),
            &mut EvaluationContext::default(),
        )
        .into_object(),
        new_set(&vec![Object::Abstract(Abstract(1337)), Object::Abstract(Abstract(1338))])
    );
}

#[test]
fn sets_ignore_order_and_repetition() {
    let a = || Object::Abstract(Abstract(5));
    let b = || Object::Abstract(Abstract(6));
    assert_eq!(new_set(&vec![a(), b()]), new_set(&vec![b(), a(), b()]));
    assert_ne!(new_set(&vec![a()]), new_set(&vec![a(), b()]));
}

#[test]
fn union_and_count_distinct_items() {
    let knowledge = base();
    let a = || Object::Abstract(Abstract(5));
    let b = || Object::Abstract(Abstract(6));
    let union = Object::new_node(Node::Union(BinaryNode {
        left: Object::new_node(Node::Literal(new_set(&vec![a(), b()]))),
        right: Object::new_node(Node::Literal(new_set(&vec![b()]))),
    }));
    let count = Object::new_node(Node::Count(union));
    assert_eq!(
        count.evaluate(&knowledge, &mut EvaluationContext::default()).into_object(),
        Object::new_integer(2)
    );
}

#[test]
fn if_and_less_choose_the_branch() {
    let knowledge = base();
    let node = |l: i128, r: i128| {
        Object::new_node(Node::If(IfNode {
            condition: Object::new_node(Node::Less(BinaryNode {
                left: Object::new_integer(l),
                right: Object::new_integer(r),
            })),
            then_branch: Object::Abstract(Abstract(1)),
            otherwise: Object::Abstract(Abstract(2)),
        }))
    };
    assert_eq!(
        node(1, 2).evaluate(&knowledge, &mut EvaluationContext::default()).into_object(),
        Object::Abstract(Abstract(1))
    );
    assert_eq!(
        node(3, 2).evaluate(&knowledge, &mut EvaluationContext::default()).into_object(),
        Object::Abstract(Abstract(2))
    );
}

#[test]
fn calls_restore_the_context() {
    let knowledge = base();
    let identity = Object::new_node(Node::Function(Object::new_node(Node::Parameter(0))));
    let call = Object::new_node(Node::Call(CallNode { callee: identity, with: Object::Abstract(Abstract(7)) }));
    let mut ctx = EvaluationContext::default();
    assert_eq!(call.evaluate(&knowledge, &mut ctx).into_object(), Object::Abstract(Abstract(7)));
    assert!(ctx.function_context(0).is_none());
}

#[test]
fn a_parameter_after_a_call_node_reads_the_caller() {
    let knowledge = base();
    let identity = Object::new_node(Node::Function(Object::new_node(Node::Parameter(0))));
    let call = Object::new_node(Node::Call(CallNode { callee: identity, with: Object::new_integer(5) }));
    let sum = Object::new_node(Node::Add(BinaryNode { left: call, right: Object::new_node(Node::Parameter(0)) }));
    let outer = Object::new_node(Node::Function(sum));
    assert_eq!(
        outer.call(&knowledge, &[Object::new_integer(1).into()], &mut EvaluationContext::default()).into_object(),
        Object::new_integer(6)
    );
}

#[test]
fn adding_reads_integers() {
    let knowledge = base();
    let big = Object::Structure(Structure::new(vec![Property {
        tag: Object::Abstract(Abstract(SUCCESSOR_OF)),
        value: Object::Abstract(Abstract(ZERO)),
    }]));
    assert_eq!(big.add(&knowledge, &Object::new_integer(1)), Object::new_integer(2));
    assert_eq!(
        Object::Abstract(Abstract(77)).add(&knowledge, &Object::new_integer(1)),
        Object::Abstract(Abstract(UNDEFINED))
    );
}

#[test]
fn integers_read_back() {
    let knowledge = base();
    for i in -20..20_i128 {
        assert_eq!(Object::new_integer(i).to_integer(&knowledge), Some(i));
    }
}

#[test]
fn calling_without_parameters_evaluates() {
    let knowledge = base();
    let not = Object::new_node(Node::Not(Object::new_node(Node::Literal(empty()))));
    assert_eq!(
        not.call(&knowledge, &[], &mut EvaluationContext::default()).into_object(),
        not.evaluate(&knowledge, &mut EvaluationContext::default()).into_object()
    );
    assert_eq!(
        not.call(&knowledge, &[zero().into()], &mut EvaluationContext::default()).into_object(),
        not.evaluate(&knowledge, &mut EvaluationContext::default()).into_object()
    );
}

#[test]
fn multiply() {
    let knowledge = base();
    let a = 543_895_i128;
    let b = 9_345_125_i128;
    let node = Object::new_node(Node::Multiply(BinaryNode {
        left: Object::new_node(Node::Literal(Object::new_integer(a))),
        right: Object::new_node(Node::Literal(Object::new_integer(b))),
    }));
    assert_eq!(
        node.evaluate(&knowledge, &mut EvaluationContext::default()).into_object().to_integer(&knowledge),
        Some(a * b)
    );
}

#[test]
fn parameter_references() {
    let knowledge = base();
    let objects = [
        Object::new_integer(3_458_349),
        Object::Abstract(Abstract(58_349_580_234_958_034)),
        Object::new_node(Node::Not(empty())),
    ];
    let identity = Object::new_node(Node::Function(Object::new_node(Node::Parameter(0))));
    for object in &objects {
        assert_eq!(
            identity.call(&knowledge, &[ObjectOrSetValues::Object(object.clone())], &mut EvaluationContext::default()).into_object(),
            object.clone()
        );
    }
    let out_of_scope = Object::new_node(Node::Function(Object::new_node(Node::Parameter(1))));
    assert_eq!(
        out_of_scope
            .call(&knowledge, &[ObjectOrSetValues::Object(Object::Abstract(Abstract(348_593_485_934)))], &mut EvaluationContext::default())
            .into_object(),
        empty()
    );
    let capture_to_constant = Object::new_node(Node::Function(Object::new_node(Node::Function(
        Object::new_node(Node::Parameter(1)),
    ))));
    for object in &objects {
        let constant = capture_to_constant
            .call(&knowledge, &[ObjectOrSetValues::Object(object.clone())], &mut EvaluationContext::default())
            .into_object();
        for other in &objects {
            assert_eq!(
                constant.call(&knowledge, &[ObjectOrSetValues::Object(other.clone())], &mut EvaluationContext::default()).into_object(),
                object.clone()
            );
        }
    }
}

#[test]
fn large_integers_are_chains_of_successors() {
    let knowledge = base();
    let big = Object::new_integer(1_000_000_000_000);
    let below = Object::new_integer(999_999_999_999);
    let explicit = Object::Structure(Structure::new(vec![Property {
        tag: Object::Abstract(Abstract(SUCCESSOR_OF)),
        value: below.clone(),
    }]));
    assert_eq!(explicit, big);
    assert_eq!(big.to_integer(&knowledge), Some(1_000_000_000_000));
    match &big {
        Object::Structure(s) => assert_eq!(s.values(&Object::Abstract(Abstract(SUCCESSOR_OF))), vec![below]),
        _ => panic!("an integer other than zero is a structure"),
    }
    assert_eq!(Object::new_integer(i128::MIN).to_integer(&knowledge), Some(i128::MIN));
    assert_eq!(Object::new_integer(i128::MAX).to_integer(&knowledge), Some(i128::MAX));
}
