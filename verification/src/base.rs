//! The base statements: the axiomatic constraints of the built-in tags.
//!
//! Most built-in tags may occur at most once on a subject; that is what
//! their unique constraint checks. The successor, predecessor, node
//! parameter, function self and bit slot tags check their value as well.

use vstd::prelude::*;

use crate::abstracts::{
    AXIOMATIC, BIT_0, BIT_1, BIT_SLOT_0, BIT_SLOT_1, BIT_SLOT_2, BIT_SLOT_3, BIT_SLOT_4, BIT_SLOT_5,
    BIT_SLOT_6, BIT_SLOT_7, CODE_POINT, CONTAINS, FUNCTION, LIST_ITEM, LIST_TAIL, NODE_ADD_LEFT,
    NODE_ADD_RIGHT, NODE_AND_LEFT, NODE_AND_RIGHT, NODE_CALL_CALLEE, NODE_CALL_WITH, NODE_COUNT,
    NODE_EQUAL_LEFT, NODE_EQUAL_RIGHT, NODE_FILTER_FILTER, NODE_FILTER_SET, NODE_FUNCTION_SELF,
    NODE_IF_CONDITION, NODE_IF_ELSE, NODE_IF_THEN, NODE_LESS_LEFT, NODE_LESS_RIGHT, NODE_LITERAL,
    NODE_MAP_MAPPER, NODE_MAP_SET, NODE_MULTIPLY_LEFT, NODE_MULTIPLY_RIGHT, NODE_NOT, NODE_OR_LEFT,
    NODE_OR_RIGHT, NODE_PARAMETER, NODE_QUERY_SUBJECT, NODE_QUERY_TAG, NODE_QUERY_VALUE,
    NODE_UNION_LEFT, NODE_UNION_RIGHT, NODE_UNWRAP_OR_DEFAULT, NODE_UNWRAP_OR_SET, NODE_XOR_LEFT,
    NODE_XOR_RIGHT, STATEMENT_SUBJECT, STATEMENT_TAG, STATEMENT_VALUE, NODE_STATEMENTS,
};
use crate::eval::{
    Frame, Val, bool_value, call_fuel, distinct, empty_object, eval_fuel, eval_props, eval_two, new_bool,
};
use crate::nodes::{
    BinaryNode, CallNode, Node, PredicateNode, QueryTagsAndValuesNode, QueryValuesNode, UnwrapOrNode, node_object, one,
};
use crate::object::{
    Abstract, Object, Property, Structure, abs, canonical, insert_sorted, lemma_single, lemma_structure_of,
};
use crate::object::integer::{integer, law_integer_injective, lemma_integer_shape};
use crate::parse::{
    fuel_limit, law_node_roundtrip, lemma_decode_plain, lemma_read_abstract, lemma_read_one, unmentioned,
};
use crate::objects::{PREDECESSOR_OF, SUCCESSOR_OF, ZERO};
use crate::statements::{SimpleStatement, Statements, query_values_spec};

verus! {

/// `count query {(subject, parameter at depth), (tag, tag)} == 1`.
pub open spec fn common_unique_constraint_spec(tag: Object, depth: u32) -> Object {
    node_object(Node::Equal(BinaryNode {
        left: integer(1),
        right: node_object(Node::Count(node_object(Node::QueryValues(QueryValuesNode {
            subject: node_object(Node::Parameter(depth)),
            tag,
        })))),
    }))
}

/// The function that checks that the subject has exactly one value on
/// `tag`, reading the subject at parameter depth `depth`.
pub open spec fn unique_constraint_spec(tag: Object, depth: u32) -> Object {
    node_object(Node::Function(common_unique_constraint_spec(tag, depth)))
}

/// The function that checks whether its parameter is a natural number:
/// zero, or something with a predecessor.
pub open spec fn is_natural_number_spec() -> Object {
    node_object(Node::Function(node_object(Node::Or(BinaryNode {
        left: node_object(Node::Equal(BinaryNode { left: node_object(Node::Parameter(0)), right: abs(ZERO) })),
        right: node_object(Node::QueryValues(QueryValuesNode {
            subject: node_object(Node::Parameter(0)),
            tag: abs(SUCCESSOR_OF),
        })),
    }))))
}

/// `value |-> subject |-> (first && second)`.
pub open spec fn two_level_and(first: Object, second: Object) -> Object {
    node_object(Node::Function(node_object(Node::Function(node_object(Node::And(BinaryNode {
        left: first,
        right: second,
    }))))))
}

/// The constraint of `SUCCESSOR_OF`: the value is a natural number, and the
/// subject has one successor-of value.
pub open spec fn successor_constraint_spec() -> Object {
    two_level_and(
        node_object(Node::Call(CallNode { callee: is_natural_number_spec(), with: node_object(Node::Parameter(0)) })),
        common_unique_constraint_spec(abs(SUCCESSOR_OF), 1),
    )
}

/// The constraint of `PREDECESSOR_OF`: the value is zero or has a
/// predecessor-of value itself, and the subject has one predecessor-of
/// value.
pub open spec fn predecessor_constraint_spec() -> Object {
    two_level_and(
        node_object(Node::Or(BinaryNode {
            left: node_object(Node::Equal(BinaryNode { left: node_object(Node::Parameter(0)), right: abs(ZERO) })),
            right: node_object(Node::QueryValues(QueryValuesNode {
                subject: node_object(Node::Parameter(0)),
                tag: abs(PREDECESSOR_OF),
            })),
        })),
        common_unique_constraint_spec(abs(PREDECESSOR_OF), 1),
    )
}

/// The constraint of a depth tag: the subject has one value on it, and the
/// value is a natural number.
pub open spec fn depth_constraint_spec(tag: u128) -> Object {
    two_level_and(
        common_unique_constraint_spec(abs(tag), 1),
        node_object(Node::Call(CallNode { callee: is_natural_number_spec(), with: node_object(Node::Parameter(0)) })),
    )
}

/// The statement that constrains the bit slot `slot`: its value is a bit,
/// and the subject has one value on it.
pub open spec fn bit_slot_spec(slot: u128) -> SimpleStatement {
    SimpleStatement {
        subject: abs(slot),
        tag: abs(AXIOMATIC),
        value: two_level_and(
            node_object(Node::Or(BinaryNode {
                left: node_object(Node::Equal(BinaryNode { left: node_object(Node::Parameter(0)), right: abs(BIT_0) })),
                right: node_object(Node::Equal(BinaryNode { left: node_object(Node::Parameter(0)), right: abs(BIT_1) })),
            })),
            common_unique_constraint_spec(abs(slot), 1),
        ),
    }
}

/// The statement that `tag` may occur at most once on a subject.
pub open spec fn unique_statement(tag: u128) -> SimpleStatement {
    SimpleStatement { subject: abs(tag), tag: abs(AXIOMATIC), value: unique_constraint_spec(abs(tag), 0) }
}


/// `unwrap_or(query {(subject, parameter 0), (tag, tag)}, {})`.
pub open spec fn only_value_spec(tag: u128) -> Object {
    node_object(Node::UnwrapOr(UnwrapOrNode {
        set: node_object(Node::QueryValues(QueryValuesNode {
            subject: node_object(Node::Parameter(0)),
            tag: abs(tag),
        })),
        default: empty_object(),
    }))
}

/// Every tag and value pair of the parameter has a successor or
/// predecessor tag, and a value that is an integer by the function one
/// level out.
pub open spec fn inner_constraint_spec() -> Object {
    node_object(Node::Every(PredicateNode {
        set: node_object(Node::QueryTagsAndValues(QueryTagsAndValuesNode {
            subject: node_object(Node::Parameter(0)),
        })),
        predicate: node_object(Node::Function(node_object(Node::And(BinaryNode {
            left: node_object(Node::Or(BinaryNode {
                left: node_object(Node::Equal(BinaryNode { left: only_value_spec(STATEMENT_TAG), right: abs(SUCCESSOR_OF) })),
                right: node_object(Node::Equal(BinaryNode { left: only_value_spec(STATEMENT_TAG), right: abs(PREDECESSOR_OF) })),
            })),
            right: node_object(Node::Call(CallNode {
                callee: node_object(Node::FunctionSelf(1)),
                with: only_value_spec(STATEMENT_VALUE),
            })),
        })))),
    }))
}

/// `count query {(subject, parameter 0), (tag, tag)} == 1`.
pub open spec fn exactly_one_spec(tag: u128) -> Object {
    node_object(Node::Equal(BinaryNode {
        left: node_object(Node::Count(node_object(Node::QueryValues(QueryValuesNode {
            subject: node_object(Node::Parameter(0)),
            tag: abs(tag),
        })))),
        right: integer(1),
    }))
}

/// The function that checks whether its parameter is an integer: zero, or
/// not abstract with exactly one successor-of or exactly one predecessor-of
/// value, and only such properties, each holding an integer.
pub open spec fn is_integer_spec() -> Object {
    node_object(Node::Function(node_object(Node::Or(BinaryNode {
        left: node_object(Node::Equal(BinaryNode { left: node_object(Node::Parameter(0)), right: abs(ZERO) })),
        right: node_object(Node::And(BinaryNode {
            left: node_object(Node::Not(node_object(Node::IsAbstract(node_object(Node::Parameter(0)))))),
            right: node_object(Node::And(BinaryNode {
                left: node_object(Node::Xor(BinaryNode {
                    left: exactly_one_spec(SUCCESSOR_OF),
                    right: exactly_one_spec(PREDECESSOR_OF),
                })),
                right: inner_constraint_spec(),
            })),
        })),
    }))))
}

/// The base statements, in order.
/// Part 1 of the base statements.
pub open spec fn base_part_1() -> Seq<SimpleStatement> {
    seq![
        SimpleStatement { subject: abs(CONTAINS), tag: abs(AXIOMATIC), value: bool_value(true) },
        SimpleStatement { subject: abs(AXIOMATIC), tag: abs(AXIOMATIC), value: unique_constraint_spec(abs(AXIOMATIC), 0) },
        unique_statement(FUNCTION),
        unique_statement(STATEMENT_SUBJECT),
        unique_statement(STATEMENT_TAG),
        unique_statement(STATEMENT_VALUE),
        SimpleStatement { subject: abs(SUCCESSOR_OF), tag: abs(AXIOMATIC), value: successor_constraint_spec() },
        SimpleStatement { subject: abs(PREDECESSOR_OF), tag: abs(AXIOMATIC), value: predecessor_constraint_spec() },
        unique_statement(CODE_POINT),
    ]
}

/// Part 2 of the base statements.
pub open spec fn base_part_2() -> Seq<SimpleStatement> {
    seq![
        unique_statement(LIST_ITEM),
        unique_statement(LIST_TAIL),
        bit_slot_spec(BIT_SLOT_0),
        bit_slot_spec(BIT_SLOT_1),
        bit_slot_spec(BIT_SLOT_2),
        bit_slot_spec(BIT_SLOT_3),
        bit_slot_spec(BIT_SLOT_4),
        bit_slot_spec(BIT_SLOT_5),
        bit_slot_spec(BIT_SLOT_6),
    ]
}

/// Part 3 of the base statements.
pub open spec fn base_part_3() -> Seq<SimpleStatement> {
    seq![
        bit_slot_spec(BIT_SLOT_7),
        unique_statement(NODE_LITERAL),
        unique_statement(NODE_COUNT),
        SimpleStatement { subject: abs(NODE_PARAMETER), tag: abs(AXIOMATIC), value: depth_constraint_spec(NODE_PARAMETER) },
        SimpleStatement { subject: abs(NODE_FUNCTION_SELF), tag: abs(AXIOMATIC), value: depth_constraint_spec(NODE_FUNCTION_SELF) },
        unique_statement(NODE_AND_LEFT),
        unique_statement(NODE_AND_RIGHT),
        unique_statement(NODE_OR_LEFT),
        unique_statement(NODE_OR_RIGHT),
    ]
}

/// Part 4 of the base statements.
pub open spec fn base_part_4() -> Seq<SimpleStatement> {
    seq![
        unique_statement(NODE_XOR_LEFT),
        unique_statement(NODE_XOR_RIGHT),
        unique_statement(NODE_EQUAL_LEFT),
        unique_statement(NODE_EQUAL_RIGHT),
        unique_statement(NODE_QUERY_SUBJECT),
        unique_statement(NODE_QUERY_TAG),
        unique_statement(NODE_QUERY_VALUE),
        unique_statement(NODE_NOT),
        unique_statement(NODE_ADD_LEFT),
    ]
}

/// Part 5 of the base statements.
pub open spec fn base_part_5() -> Seq<SimpleStatement> {
    seq![
        unique_statement(NODE_ADD_RIGHT),
        unique_statement(NODE_UNION_LEFT),
        unique_statement(NODE_UNION_RIGHT),
        unique_statement(NODE_MAP_MAPPER),
        unique_statement(NODE_MAP_SET),
        unique_statement(NODE_FILTER_FILTER),
        unique_statement(NODE_FILTER_SET),
        unique_statement(NODE_LESS_LEFT),
        unique_statement(NODE_LESS_RIGHT),
    ]
}

/// Part 6 of the base statements.
pub open spec fn base_part_6() -> Seq<SimpleStatement> {
    seq![
        unique_statement(NODE_IF_CONDITION),
        unique_statement(NODE_IF_THEN),
        unique_statement(NODE_IF_ELSE),
        unique_statement(NODE_UNWRAP_OR_SET),
        unique_statement(NODE_UNWRAP_OR_DEFAULT),
        unique_statement(NODE_MULTIPLY_LEFT),
        unique_statement(NODE_MULTIPLY_RIGHT),
        unique_statement(NODE_CALL_CALLEE),
        unique_statement(NODE_CALL_WITH),
    ]
}

/// The base statements, in order.
pub open spec fn base_spec() -> Seq<SimpleStatement> {
    base_part_1() + base_part_2() + base_part_3() + base_part_4() + base_part_5() + base_part_6()
}

fn axiomatic() -> (r: Object)
    ensures
        r == abs(AXIOMATIC),
{
    Object::Abstract(Abstract(AXIOMATIC))
}

fn parameter(depth: u32) -> (r: Object)
    ensures
        r == node_object(Node::Parameter(depth)),
{
    Object::new_node(Node::Parameter(depth))
}

/// `count query {(subject, parameter at depth), (tag, tag)} == 1`.
pub fn common_unique_constraint_expression(tag: Object, parameter_depth: u32) -> (r: Object)
    ensures
        r == common_unique_constraint_spec(tag, parameter_depth),
{
    Object::new_node(Node::Equal(BinaryNode {
        left: Object::new_integer(1),
        right: Object::new_node(Node::Count(Object::new_node(Node::QueryValues(QueryValuesNode {
            subject: parameter(parameter_depth),
            tag,
        })))),
    }))
}

/// A function object that checks that any subject associated
/// axiomatically with `tag` has exactly one association with this tag:
/// `... |-> count query {(@4, $parameter_at_depth), (@5, tag)} == 1`.
pub fn unique_constraint_for(tag: Object, parameter_depth: u32) -> (r: Object)
    ensures
        r == unique_constraint_spec(tag, parameter_depth),
{
    Object::new_node(Node::Function(common_unique_constraint_expression(tag, parameter_depth)))
}

/// The constraint on the `AXIOMATIC` tag itself.
pub fn axiomatic_axiomatic_constraint() -> (r: Object)
    ensures
        r == unique_constraint_spec(abs(AXIOMATIC), 0),
{
    unique_constraint_for(axiomatic(), 0)
}

/// A function that computes whether its parameter is a natural number.
pub fn is_natural_number() -> (r: Object)
    ensures
        r == is_natural_number_spec(),
{
    Object::new_node(Node::Function(Object::new_node(Node::Or(BinaryNode {
        left: Object::new_node(Node::Equal(BinaryNode { left: parameter(0), right: Object::Abstract(Abstract(ZERO)) })),
        right: Object::new_node(Node::QueryValues(QueryValuesNode {
            subject: parameter(0),
            tag: Object::Abstract(Abstract(SUCCESSOR_OF)),
        })),
    }))))
}

fn two_level(first: Object, second: Object) -> (r: Object)
    ensures
        r == two_level_and(first, second),
{
    Object::new_node(Node::Function(Object::new_node(Node::Function(Object::new_node(Node::And(BinaryNode {
        left: first,
        right: second,
    }))))))
}

fn successor_constraint() -> (r: Object)
    ensures
        r == successor_constraint_spec(),
{
    two_level(
        Object::new_node(Node::Call(CallNode { callee: is_natural_number(), with: parameter(0) })),
        common_unique_constraint_expression(Object::Abstract(Abstract(SUCCESSOR_OF)), 1),
    )
}

fn predecessor_constraint() -> (r: Object)
    ensures
        r == predecessor_constraint_spec(),
{
    two_level(
        Object::new_node(Node::Or(BinaryNode {
            left: Object::new_node(Node::Equal(BinaryNode { left: parameter(0), right: Object::Abstract(Abstract(ZERO)) })),
            right: Object::new_node(Node::QueryValues(QueryValuesNode {
                subject: parameter(0),
                tag: Object::Abstract(Abstract(PREDECESSOR_OF)),
            })),
        })),
        common_unique_constraint_expression(Object::Abstract(Abstract(PREDECESSOR_OF)), 1),
    )
}

fn depth_constraint(tag: u128) -> (r: Object)
    ensures
        r == depth_constraint_spec(tag),
{
    two_level(
        common_unique_constraint_expression(Object::Abstract(Abstract(tag)), 1),
        Object::new_node(Node::Call(CallNode { callee: is_natural_number(), with: parameter(0) })),
    )
}

/// The statement that constrains the bit slot `slot`.
pub fn bit_slot_statement(slot: Abstract) -> (r: SimpleStatement)
    ensures
        r == bit_slot_spec(slot.0),
{
    let value = two_level(
        Object::new_node(Node::Or(BinaryNode {
            left: Object::new_node(Node::Equal(BinaryNode { left: parameter(0), right: Object::Abstract(Abstract(BIT_0)) })),
            right: Object::new_node(Node::Equal(BinaryNode { left: parameter(0), right: Object::Abstract(Abstract(BIT_1)) })),
        })),
        common_unique_constraint_expression(Object::Abstract(slot), 1),
    );
    SimpleStatement::new(slot, axiomatic(), value)
}

fn unique_statement_for(tag: u128) -> (r: SimpleStatement)
    ensures
        r == unique_statement(tag),
{
    SimpleStatement::new(Abstract(tag), axiomatic(), unique_constraint_for(Object::Abstract(Abstract(tag)), 0))
}

fn push_part_1(v: &mut Vec<SimpleStatement>)
    ensures
        final(v)@ == old(v)@ + base_part_1(),
{
    let ghost start = v@;
    v.push(SimpleStatement::new(Abstract(CONTAINS), axiomatic(), new_bool(true)));
    v.push(SimpleStatement::new(Abstract(AXIOMATIC), axiomatic(), axiomatic_axiomatic_constraint()));
    v.push(unique_statement_for(FUNCTION));
    v.push(unique_statement_for(STATEMENT_SUBJECT));
    v.push(unique_statement_for(STATEMENT_TAG));
    v.push(unique_statement_for(STATEMENT_VALUE));
    v.push(SimpleStatement::new(Abstract(SUCCESSOR_OF), axiomatic(), successor_constraint()));
    v.push(SimpleStatement::new(Abstract(PREDECESSOR_OF), axiomatic(), predecessor_constraint()));
    v.push(unique_statement_for(CODE_POINT));
    assert(v@ =~= start + base_part_1());
}

fn push_part_2(v: &mut Vec<SimpleStatement>)
    ensures
        final(v)@ == old(v)@ + base_part_2(),
{
    let ghost start = v@;
    v.push(unique_statement_for(LIST_ITEM));
    v.push(unique_statement_for(LIST_TAIL));
    v.push(bit_slot_statement(Abstract(BIT_SLOT_0)));
    v.push(bit_slot_statement(Abstract(BIT_SLOT_1)));
    v.push(bit_slot_statement(Abstract(BIT_SLOT_2)));
    v.push(bit_slot_statement(Abstract(BIT_SLOT_3)));
    v.push(bit_slot_statement(Abstract(BIT_SLOT_4)));
    v.push(bit_slot_statement(Abstract(BIT_SLOT_5)));
    v.push(bit_slot_statement(Abstract(BIT_SLOT_6)));
    assert(v@ =~= start + base_part_2());
}

fn push_part_3(v: &mut Vec<SimpleStatement>)
    ensures
        final(v)@ == old(v)@ + base_part_3(),
{
    let ghost start = v@;
    v.push(bit_slot_statement(Abstract(BIT_SLOT_7)));
    v.push(unique_statement_for(NODE_LITERAL));
    v.push(unique_statement_for(NODE_COUNT));
    v.push(SimpleStatement::new(Abstract(NODE_PARAMETER), axiomatic(), depth_constraint(NODE_PARAMETER)));
    v.push(SimpleStatement::new(Abstract(NODE_FUNCTION_SELF), axiomatic(), depth_constraint(NODE_FUNCTION_SELF)));
    v.push(unique_statement_for(NODE_AND_LEFT));
    v.push(unique_statement_for(NODE_AND_RIGHT));
    v.push(unique_statement_for(NODE_OR_LEFT));
    v.push(unique_statement_for(NODE_OR_RIGHT));
    assert(v@ =~= start + base_part_3());
}

fn push_part_4(v: &mut Vec<SimpleStatement>)
    ensures
        final(v)@ == old(v)@ + base_part_4(),
{
    let ghost start = v@;
    v.push(unique_statement_for(NODE_XOR_LEFT));
    v.push(unique_statement_for(NODE_XOR_RIGHT));
    v.push(unique_statement_for(NODE_EQUAL_LEFT));
    v.push(unique_statement_for(NODE_EQUAL_RIGHT));
    v.push(unique_statement_for(NODE_QUERY_SUBJECT));
    v.push(unique_statement_for(NODE_QUERY_TAG));
    v.push(unique_statement_for(NODE_QUERY_VALUE));
    v.push(unique_statement_for(NODE_NOT));
    v.push(unique_statement_for(NODE_ADD_LEFT));
    assert(v@ =~= start + base_part_4());
}

fn push_part_5(v: &mut Vec<SimpleStatement>)
    ensures
        final(v)@ == old(v)@ + base_part_5(),
{
    let ghost start = v@;
    v.push(unique_statement_for(NODE_ADD_RIGHT));
    v.push(unique_statement_for(NODE_UNION_LEFT));
    v.push(unique_statement_for(NODE_UNION_RIGHT));
    v.push(unique_statement_for(NODE_MAP_MAPPER));
    v.push(unique_statement_for(NODE_MAP_SET));
    v.push(unique_statement_for(NODE_FILTER_FILTER));
    v.push(unique_statement_for(NODE_FILTER_SET));
    v.push(unique_statement_for(NODE_LESS_LEFT));
    v.push(unique_statement_for(NODE_LESS_RIGHT));
    assert(v@ =~= start + base_part_5());
}

fn push_part_6(v: &mut Vec<SimpleStatement>)
    ensures
        final(v)@ == old(v)@ + base_part_6(),
{
    let ghost start = v@;
    v.push(unique_statement_for(NODE_IF_CONDITION));
    v.push(unique_statement_for(NODE_IF_THEN));
    v.push(unique_statement_for(NODE_IF_ELSE));
    v.push(unique_statement_for(NODE_UNWRAP_OR_SET));
    v.push(unique_statement_for(NODE_UNWRAP_OR_DEFAULT));
    v.push(unique_statement_for(NODE_MULTIPLY_LEFT));
    v.push(unique_statement_for(NODE_MULTIPLY_RIGHT));
    v.push(unique_statement_for(NODE_CALL_CALLEE));
    v.push(unique_statement_for(NODE_CALL_WITH));
    assert(v@ =~= start + base_part_6());
}

/// The base statements.
pub fn base() -> (r: Statements)
    ensures
        r@ == base_spec(),
{
    let mut v: Vec<SimpleStatement> = Vec::new();
    let ghost start = v@;
    push_part_1(&mut v);
    push_part_2(&mut v);
    push_part_3(&mut v);
    push_part_4(&mut v);
    push_part_5(&mut v);
    push_part_6(&mut v);
    assert(v@ =~= start + base_spec());
    assert(start =~= Seq::<SimpleStatement>::empty());
    assert(v@ =~= base_spec());
    Statements::from_vec(v)
}


fn only_value(tag: u128) -> (r: Object)
    ensures
        r == only_value_spec(tag),
{
    Object::new_node(Node::UnwrapOr(UnwrapOrNode {
        set: Object::new_node(Node::QueryValues(QueryValuesNode {
            subject: parameter(0),
            tag: Object::Abstract(Abstract(tag)),
        })),
        default: Object::Structure(Structure::new(Vec::new())),
    }))
}

/// Every tag and value pair of the parameter has a successor or
/// predecessor tag, and a value that is an integer.
pub fn inner_constraint() -> (r: Object)
    ensures
        r == inner_constraint_spec(),
{
    Object::new_node(Node::Every(PredicateNode {
        set: Object::new_node(Node::QueryTagsAndValues(QueryTagsAndValuesNode { subject: parameter(0) })),
        predicate: Object::new_node(Node::Function(Object::new_node(Node::And(BinaryNode {
            left: Object::new_node(Node::Or(BinaryNode {
                left: Object::new_node(Node::Equal(BinaryNode {
                    left: only_value(STATEMENT_TAG),
                    right: Object::Abstract(Abstract(SUCCESSOR_OF)),
                })),
                right: Object::new_node(Node::Equal(BinaryNode {
                    left: only_value(STATEMENT_TAG),
                    right: Object::Abstract(Abstract(PREDECESSOR_OF)),
                })),
            })),
            right: Object::new_node(Node::Call(CallNode {
                callee: Object::new_node(Node::FunctionSelf(1)),
                with: only_value(STATEMENT_VALUE),
            })),
        })))),
    }))
}

fn exactly_one(tag: u128) -> (r: Object)
    ensures
        r == exactly_one_spec(tag),
{
    Object::new_node(Node::Equal(BinaryNode {
        left: Object::new_node(Node::Count(Object::new_node(Node::QueryValues(QueryValuesNode {
            subject: parameter(0),
            tag: Object::Abstract(Abstract(tag)),
        })))),
        right: Object::new_integer(1),
    }))
}

/// A function that checks whether its parameter is an integer.
pub fn is_integer() -> (r: Object)
    ensures
        r == is_integer_spec(),
{
    Object::new_node(Node::Function(Object::new_node(Node::Or(BinaryNode {
        left: Object::new_node(Node::Equal(BinaryNode { left: parameter(0), right: Object::Abstract(Abstract(ZERO)) })),
        right: Object::new_node(Node::And(BinaryNode {
            left: Object::new_node(Node::Not(Object::new_node(Node::IsAbstract(parameter(0))))),
            right: Object::new_node(Node::And(BinaryNode {
                left: Object::new_node(Node::Xor(BinaryNode {
                    left: exactly_one(SUCCESSOR_OF),
                    right: exactly_one(PREDECESSOR_OF),
                })),
                right: inner_constraint(),
            })),
        })),
    }))))
}


/// One plus nothing: the integer one evaluates to itself, when no
/// statement is about it or about zero.
proof fn lemma_one_plain(f: nat, st: Seq<SimpleStatement>, c: Seq<Frame>)
    requires
        f >= 3,
        unmentioned(integer(1), st),
        unmentioned(abs(ZERO), st),
    ensures
        eval_fuel(f, integer(1), st, c) == Some((Val::Obj(integer(1)), c)),
{
    lemma_integer_shape(1);
    lemma_integer_shape(0);
    lemma_single(abs(SUCCESSOR_OF), abs(ZERO));
    let p = Property { tag: abs(SUCCESSOR_OF), value: abs(ZERO) };
    assert(integer(1) == one(SUCCESSOR_OF, abs(ZERO)));
    lemma_read_one(SUCCESSOR_OF, abs(ZERO), st);
    lemma_decode_plain(integer(1), st);
    lemma_read_abstract(ZERO, st);
    lemma_decode_plain(abs(ZERO), st);
    lemma_structure_of(seq![p]);
    assert(canonical(seq![p]) =~= seq![p]) by {
        assert(seq![p].drop_last() =~= Seq::<Property>::empty());
        assert(seq![p].last() == p);
        assert(canonical(Seq::<Property>::empty()) =~= Seq::<Property>::empty());
        assert(insert_sorted(Seq::<Property>::empty(), p) =~= seq![p]);
    }
    assert(eval_fuel((f - 2) as nat, abs(ZERO), st, c) == Some((Val::Obj(abs(ZERO)), c)));
    assert(seq![p].drop_first() =~= Seq::<Property>::empty());
    assert(eval_props((f - 2) as nat, Seq::<Property>::empty(), st, c) == Some((Some(Seq::<Property>::empty()), c)));
    assert(seq![p] + Seq::<Property>::empty() =~= seq![p]);
    assert(eval_props((f - 1) as nat, seq![p], st, c) == Some((Some(seq![p]), c)));
}

/// Calling the unique constraint of an abstract tag with a subject gives
/// `true` exactly when the subject has one value on the tag, and leaves the
/// context as it was.
#[verifier::rlimit(60)]
pub proof fn law_unique_constraint(tag: u128, s: Object, st: Seq<SimpleStatement>, c: Seq<Frame>)
    requires
        tag != NODE_STATEMENTS,
        unmentioned(abs(tag), st),
        unmentioned(abs(ZERO), st),
        unmentioned(integer(1), st),
        unmentioned(node_object(Node::Parameter(0)), st),
        unmentioned(node_object(Node::QueryValues(QueryValuesNode { subject: node_object(Node::Parameter(0)), tag: abs(tag) })), st),
        unmentioned(node_object(Node::Count(node_object(Node::QueryValues(QueryValuesNode {
            subject: node_object(Node::Parameter(0)),
            tag: abs(tag),
        })))), st),
        unmentioned(common_unique_constraint_spec(abs(tag), 0), st),
        unmentioned(unique_constraint_spec(abs(tag), 0), st),
    ensures
        call_fuel(fuel_limit(), unique_constraint_spec(abs(tag), 0), st, seq![Val::Obj(s)], c) == Some((
            Val::Obj(bool_value(distinct(query_values_spec(st, s, abs(tag))).len() == 1)),
            c,
        )),
{
    let param0 = node_object(Node::Parameter(0));
    let q = QueryValuesNode { subject: param0, tag: abs(tag) };
    let qnode = node_object(Node::QueryValues(q));
    let count = node_object(Node::Count(qnode));
    let b = BinaryNode { left: integer(1), right: count };
    let body = common_unique_constraint_spec(abs(tag), 0);
    let func = unique_constraint_spec(abs(tag), 0);
    law_node_roundtrip(Node::Function(body), st);
    law_node_roundtrip(Node::Equal(b), st);
    law_node_roundtrip(Node::Count(qnode), st);
    law_node_roundtrip(Node::QueryValues(q), st);
    law_node_roundtrip(Node::Parameter(0), st);
    lemma_read_abstract(tag, st);
    lemma_decode_plain(abs(tag), st);
    let big = fuel_limit();
    let c1 = c.push(Frame { function: func, parameter: Val::Obj(s) });
    let qv = query_values_spec(st, s, abs(tag));
    let n = distinct(qv).len();
    assert(eval_fuel((big - 4) as nat, param0, st, c1) == Some((Val::Obj(s), c1)));
    assert(eval_fuel((big - 4) as nat, abs(tag), st, c1) == Some((Val::Obj(abs(tag)), c1)));
    assert(eval_two((big - 4) as nat, param0, abs(tag), st, c1) == Some((Val::Obj(s), Val::Obj(abs(tag)), c1)));
    assert(eval_fuel((big - 3) as nat, qnode, st, c1) == Some((Val::Items(qv), c1)));
    assert(eval_fuel((big - 2) as nat, count, st, c1) == Some((Val::Obj(integer(n as int)), c1)));
    lemma_one_plain((big - 2) as nat, st, c1);
    assert(eval_two((big - 2) as nat, integer(1), count, st, c1) == Some((Val::Obj(integer(1)), Val::Obj(integer(n as int)), c1)));
    if integer(1) == integer(n as int) {
        law_integer_injective(1, n as int);
    }
    assert(eval_fuel((big - 1) as nat, body, st, c1) == Some((Val::Obj(bool_value(n == 1)), c1)));
    assert(seq![Val::Obj(s)].drop_first() =~= Seq::<Val>::empty());
    assert(call_fuel((big - 1) as nat, body, st, Seq::<Val>::empty(), c1) == Some((Val::Obj(bool_value(n == 1)), c1)));
    assert(c1.drop_last() =~= c);
}

} // verus!
