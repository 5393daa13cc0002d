use everything::query::{query_values, QueryValuesResult, AXIOMATIC_CONSTRAINT};
use everything::inline::{InlineUrl, InlineUrlMax, Url};
use everything::istr::InlineStr;
use everything::depth::DebugDepthCount;
use everything::ids::{CustomObjectId, ObjectId, FIRST_CUSTOM_OBJECT_ID};
use everything::object::{Abstract, Object, Property, Structure};
use everything::eval::ObjectForm;
use everything::objects::{CONTAINS, SUCCESSOR_OF, ZERO};
use everything::statements::{Error, Fact, FactPattern, ObjectOrAny};

const ALICE: u128 = 999_999_999;
const BOB: u128 = 888_888_888;

fn abstract_object(id: u128) -> Object {
    Object::Abstract(Abstract(id))
}

fn structure(properties: Vec<Property>) -> Object {
    Object::Structure(Structure::new(properties))
}

#[test]
fn has_exactly_one_value_on() {
    assert!(!Structure::empty().has_exactly_one_value_on(&abstract_object(ALICE)));

    assert!(Structure::new(vec![Property { tag: abstract_object(ALICE), value: abstract_object(ALICE) }])
        .has_exactly_one_value_on(&abstract_object(ALICE)));

    assert!(!Structure::new(vec![
        Property { tag: abstract_object(ALICE), value: abstract_object(ALICE) },
        Property { tag: abstract_object(ALICE), value: abstract_object(BOB) },
    ])
    .has_exactly_one_value_on(&abstract_object(ALICE)));
}

#[test]
fn tests_is_only_natural_number() {
    // Abstracts
    assert!(!abstract_object(CONTAINS).is_only_natural_number());
    assert!(abstract_object(ZERO).is_only_natural_number());

    let one = structure(vec![Property { tag: abstract_object(SUCCESSOR_OF), value: abstract_object(ZERO) }]);

    assert!(one.is_only_natural_number());

    let one_with_stuff = structure(vec![
        Property { tag: abstract_object(SUCCESSOR_OF), value: abstract_object(ZERO) },
        Property { tag: abstract_object(CONTAINS), value: abstract_object(ZERO) },
    ]);

    assert!(!one_with_stuff.is_only_natural_number())
}

#[test]
fn tests_natural_number() {
    assert_eq!(Object::natural_number(0), abstract_object(ZERO));

    assert_eq!(
        Object::natural_number(2),
        structure(vec![Property {
            tag: abstract_object(SUCCESSOR_OF),
            value: structure(vec![Property { tag: abstract_object(SUCCESSOR_OF), value: abstract_object(ZERO) }]),
        }])
    )
}

#[test]
fn structure_keeps_each_property_once() {
    let p = || Property { tag: abstract_object(ALICE), value: abstract_object(BOB) };
    let s = Structure::new(vec![p(), p(), p()]);
    assert_eq!(s.len(), 1);
    assert_eq!(s.values(&abstract_object(ALICE)), vec![abstract_object(BOB)]);
}

#[test]
fn integers_round_trip() {
    for i in -20..20_i128 {
        assert_eq!(Object::new_integer(i).exact_integer(), Some(i));
    }
    assert_eq!(abstract_object(ALICE).exact_integer(), None);
}

#[test]
fn unique_abstracts_differ() {
    assert_ne!(Abstract::unique(), Abstract::unique());
}

#[test]
fn depth_count_inc_dec() {
    let mut depth = DebugDepthCount::new();
    assert_eq!(depth.get(), 0);
    depth.inc();
    depth.inc();
    assert_eq!(depth.get(), 2);
    depth.dec();
    assert_eq!(depth.get(), 1);
}

#[test]
fn object_ids() {
    assert!(ObjectId::new(0).is_none());
    assert_eq!(ObjectId::new(7).map(|id| id.get()), Some(7));
    assert!(CustomObjectId::try_from(FIRST_CUSTOM_OBJECT_ID - 1).is_err());
    assert_eq!(CustomObjectId::try_from(4_000).map(|id| id.into_object_id().get()), Ok(4_000));
    assert_eq!(CustomObjectId::first().into_object_id().get(), FIRST_CUSTOM_OBJECT_ID);
}

#[test]
fn from_natural_and_node_not() {
    assert_eq!(Object::from_natural(3), Object::natural_number(3));
    assert_eq!(
        Object::node_not(abstract_object(ALICE)),
        structure(vec![Property { tag: abstract_object(everything::objects::NODE_NOT), value: abstract_object(ALICE) }])
    );
}

#[test]
fn facts_become_exact_patterns() {
    use_fact_pattern();
}

fn use_fact_pattern() {
    let fact = Fact { target: abstract_object(1), tag: abstract_object(2), value: abstract_object(3) };
    let pattern: FactPattern = fact.into();
    assert_eq!(pattern.target, ObjectOrAny::Object(abstract_object(1)));
    assert_eq!(pattern.tag, ObjectOrAny::Object(abstract_object(2)));
    assert_eq!(pattern.value, ObjectOrAny::Object(abstract_object(3)));
    let any: ObjectForm = None.into();
    assert_eq!(any, ObjectForm::Any);
    let specific: ObjectForm = Some(abstract_object(4)).into();
    assert_eq!(specific.into_option(), Some(abstract_object(4)));
}

#[test]
fn errors_carry_the_pattern() {
    let pattern = FactPattern { target: ObjectOrAny::Any, tag: ObjectOrAny::Any, value: ObjectOrAny::Any };
    let error = Error::CouldNotProveTheorem(pattern);
    assert!(matches!(error, Error::CouldNotProveTheorem(FactPattern { target: ObjectOrAny::Any, .. })));
}

#[test]
fn depth_counts_entered_levels() {
    let mut count = DebugDepthCount::new();
    assert_eq!(count.get(), 0);
    count.inc();
    count.inc();
    count.dec();
    count.inc();
    assert_eq!(count.get(), 2);
    count.dec();
    count.dec();
    assert_eq!(count.get(), 0);
}

#[test]
fn inline_strings_hold_well_formed_utf8() {
    assert!(InlineStr::<3>::new([0xE2, 0x82, 0xAC]).is_some());
    assert!(InlineStr::<3>::new([0xED, 0xA0, 0x80]).is_none());
    assert!(InlineStr::<2>::new([0xC0, 0x80]).is_none());
    assert!(InlineStr::<4>::new([0xF4, 0x8F, 0xBF, 0xBF]).is_some());
    assert!(InlineStr::<4>::new([0xF4, 0x90, 0x80, 0x80]).is_none());
}

#[test]
fn urls_are_well_formed_text() {
    let url = Url::new(b"https://a.b/c".to_vec()).unwrap();
    assert_eq!(url.as_bytes(), b"https://a.b/c");
    assert!(Url::new(vec![0xFF]).is_none());
    let max = InlineUrlMax::new(*b"https://x.yz/ab").unwrap();
    assert_eq!(max.url().as_bytes(), b"https://x.yz/ab");
    let mut data = [0u8; 14];
    data[..5].copy_from_slice(b"a.b/c");
    let short = InlineUrl::new(5, data).unwrap();
    assert_eq!(short.url().as_bytes(), b"a.b/c");
}

#[test]
fn root_queries_answer_the_built_in_pairs() {
    let a = |n: u128| Object::Abstract(Abstract(n));
    let root = Structure::new(vec![]);
    assert_eq!(
        query_values(&root, &a(everything::objects::AXIOMATIC), &a(everything::objects::AXIOMATIC)),
        QueryValuesResult::Single(Some(a(AXIOMATIC_CONSTRAINT)))
    );
    assert_eq!(
        query_values(&root, &a(everything::objects::AXIOMATIC), &a(everything::objects::COMPUTED)),
        QueryValuesResult::Single(None)
    );
    let empty = Object::Structure(Structure::new(vec![]));
    assert_eq!(
        query_values(&root, &empty, &a(everything::objects::KNOWLEDGE)),
        QueryValuesResult::Single(Some(empty.clone()))
    );
    let holds_abstract = Object::Structure(Structure::new(vec![Property {
        tag: a(everything::objects::CONTAINS),
        value: a(77),
    }]));
    assert_eq!(query_values(&root, &holds_abstract, &a(everything::objects::KNOWLEDGE)), QueryValuesResult::Single(None));
    assert_eq!(query_values(&root, &a(5), &a(everything::objects::KNOWLEDGE)), QueryValuesResult::Single(None));
    assert_eq!(
        query_values(&root, &a(5), &a(everything::objects::AXIOMATIC)),
        QueryValuesResult::Axiomatic { subject: a(5), tag: a(everything::objects::AXIOMATIC) }
    );
}
