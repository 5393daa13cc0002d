use everything::abstracts::{AXIOMATIC, CONTAINS, FUNCTION};
use everything::base::{base, is_integer, is_natural_number, unique_constraint_for};
use everything::eval::{new_bool, EvaluationContext, KnowledgeError, ObjectForm, ObjectOrSetValues, StatementForm};
use everything::knowledge::Knowledge;
use everything::nodes::{BinaryNode, Node};
use everything::statements::{new_statement, SimpleStatement, Statements};
use everything::object::{Abstract, Object, Property, Structure};
use everything::objects::{PREDECESSOR_OF, SUCCESSOR_OF, ZERO};

fn abstract_object(id: u128) -> Object {
    Object::Abstract(Abstract(id))
}

fn empty() -> Object {
    Object::Structure(Structure::new(vec![]))
}

fn structure(properties: Vec<Property>) -> Object {
    Object::Structure(Structure::new(properties))
}

fn property(tag: u128, value: Object) -> Property {
    Property { tag: abstract_object(tag), value }
}

#[test]
fn integers() {
    let knowledge = base();

    // Positive cases

    for i in -10..10_i128 {
        assert!(
            is_integer()
                .call(&knowledge, &[Object::new_integer(i).into()], &mut EvaluationContext::default())
                .is_truthy(&knowledge),
            "{i} is apparently not an integer"
        );
    }

    // Negative cases

    let not_integers = vec![
        abstract_object(18_743_875_983_473),
        empty(),
        new_bool(true),
        structure(vec![property(SUCCESSOR_OF, empty())]),
        structure(vec![property(SUCCESSOR_OF, Object::new_integer(0)), property(SUCCESSOR_OF, Object::new_integer(1))]),
        structure(vec![property(SUCCESSOR_OF, abstract_object(18_743_875_983_473))]),
        structure(vec![property(PREDECESSOR_OF, empty())]),
        structure(vec![property(PREDECESSOR_OF, Object::new_integer(0)), property(PREDECESSOR_OF, Object::new_integer(-1))]),
        structure(vec![property(PREDECESSOR_OF, abstract_object(ZERO)), property(SUCCESSOR_OF, abstract_object(ZERO))]),
        structure(vec![property(SUCCESSOR_OF, abstract_object(ZERO)), property(CONTAINS, empty())]),
    ];

    for not_integer in not_integers {
        assert!(
            !is_integer()
                .call(&knowledge, &[not_integer.into()], &mut EvaluationContext::default())
                .is_truthy(&knowledge)
        );
    }
}

#[test]
fn base_holds_the_axiomatic_constraints() {
    let knowledge = base();
    let constraint = knowledge.query_values(&abstract_object(FUNCTION), &abstract_object(AXIOMATIC));
    assert_eq!(constraint, vec![unique_constraint_for(abstract_object(FUNCTION), 0)]);
    let contains = knowledge.query_values(&abstract_object(CONTAINS), &abstract_object(AXIOMATIC));
    assert_eq!(contains, vec![new_bool(true)]);
}

#[test]
fn natural_numbers_are_recognized() {
    let knowledge = base();
    for n in 0..5_i128 {
        assert!(is_natural_number()
            .call(&knowledge, &[ObjectOrSetValues::Object(Object::new_integer(n))], &mut EvaluationContext::default())
            .is_truthy(&knowledge));
    }
    assert!(!is_natural_number()
        .call(&knowledge, &[ObjectOrSetValues::Object(Object::new_integer(-1))], &mut EvaluationContext::default())
        .is_truthy(&knowledge));
}

#[test]
fn unique_constraint_accepts_one_value() {
    let knowledge = base();
    let tag = abstract_object(77);
    let constraint = unique_constraint_for(tag.clone(), 0);
    let one = structure(vec![Property { tag: tag.clone(), value: empty() }]);
    let two = structure(vec![
        Property { tag: tag.clone(), value: empty() },
        Property { tag: tag.clone(), value: abstract_object(1) },
    ]);
    assert!(constraint
        .call(&knowledge, &[ObjectOrSetValues::Object(one)], &mut EvaluationContext::default())
        .is_truthy(&knowledge));
    assert!(!constraint
        .call(&knowledge, &[ObjectOrSetValues::Object(two)], &mut EvaluationContext::default())
        .is_truthy(&knowledge));
}

#[test]
fn validity_follows_the_tag_constraints() {
    let knowledge = base();
    // Every structure on built-in tags of base satisfies their constraints.
    let valid = structure(vec![property(SUCCESSOR_OF, Object::new_integer(3))]);
    assert_eq!(valid.is_valid(&knowledge, false), Ok(()));
    // A tag without axiomatic constraint makes a structure invalid.
    let unknown_tag = structure(vec![property(5_555, empty())]);
    assert!(unknown_tag.is_valid(&knowledge, false).is_err());
    // Abstract objects are always valid.
    assert_eq!(abstract_object(5).is_valid(&knowledge, true), Ok(()));
}

#[test]
fn base_is_knowledge() {
    assert!(matches!(base().is_knowledge(), Ok(())));
}

#[test]
fn knowledge_needs_the_base() {
    assert_eq!(Statements::from_vec(vec![]).is_knowledge(), Err(KnowledgeError::IsNotSupersetOfBase));
}

#[test]
fn knowledge_needs_constrained_tags() {
    let mut statements = vec![SimpleStatement::new(Abstract(5), abstract_object(6_666), empty())];
    let b = base();
    for i in 0..b.len() {
        let s = b.statement(i);
        statements.push(SimpleStatement { subject: s.subject.clone(), tag: s.tag.clone(), value: s.value.clone() });
    }
    let knowledge = Statements::from_vec(statements);
    assert_eq!(
        knowledge.is_knowledge(),
        Err(KnowledgeError::NeedsToBeTrueButIsFalse(StatementForm {
            subject: ObjectForm::Specific(abstract_object(6_666)),
            tag: ObjectForm::Specific(abstract_object(AXIOMATIC)),
            value: ObjectForm::Any,
        }))
    );
}

#[test]
fn knowledge_answers_queries() {
    let knowledge = match Knowledge::new(base()) {
        Ok(k) => k,
        Err(e) => panic!("base is no knowledge: {e:?}"),
    };
    assert_eq!(knowledge.query_values(abstract_object(CONTAINS), abstract_object(AXIOMATIC)), vec![new_bool(true)]);
    assert!(knowledge.query_exists(abstract_object(CONTAINS), abstract_object(AXIOMATIC), new_bool(true)));
    assert!(!knowledge.query_exists(abstract_object(CONTAINS), abstract_object(AXIOMATIC), empty()));
    assert_eq!(
        knowledge.query_subjects(abstract_object(AXIOMATIC), new_bool(true)),
        vec![abstract_object(CONTAINS)]
    );
    let sum = Object::new_node(Node::Add(BinaryNode { left: Object::new_integer(2), right: Object::new_integer(3) }));
    assert_eq!(knowledge.evaluate(sum).into_object(), Object::new_integer(5));
    assert!(knowledge.call(is_integer(), Object::new_integer(-4)).is_truthy(knowledge.composite()));
    assert!(Knowledge::new(Statements::from_vec(vec![])).is_err());
}

#[test]
fn statements_are_written_as_structures() {
    let s = new_statement(abstract_object(1), abstract_object(2), abstract_object(3));
    let knowledge = base();
    assert_eq!(s.set_values(&knowledge).len(), 0);
    assert_eq!(
        s,
        structure(vec![
            Property::new_statement_value(abstract_object(3)),
            Property::new_statement_subject(abstract_object(1)),
            Property::new_statement_tag(abstract_object(2)),
        ])
    );
    assert_eq!(Property::new_contains(empty()).tag, abstract_object(CONTAINS));
}
