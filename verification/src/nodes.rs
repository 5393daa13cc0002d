//! Expression nodes, and how each is written as an object.

use vstd::prelude::*;

use crate::abstracts::{
    FUNCTION, NODE_ADD_LEFT, NODE_ADD_RIGHT, NODE_AND_LEFT, NODE_AND_RIGHT, NODE_ANY_PREDICATE, NODE_ANY_SET,
    NODE_CALL_CALLEE, NODE_CALL_WITH, NODE_COUNT, NODE_EQUAL_LEFT, NODE_EQUAL_RIGHT, NODE_EVERY_PREDICATE,
    NODE_EVERY_SET, NODE_FILTER_FILTER, NODE_FILTER_SET, NODE_FUNCTION_SELF, NODE_IF_CONDITION, NODE_IF_ELSE,
    NODE_IF_THEN, NODE_IS_ABSTRACT, NODE_LESS_LEFT, NODE_LESS_RIGHT, NODE_LITERAL, NODE_MAP_MAPPER, NODE_MAP_SET,
    NODE_MULTIPLY_LEFT, NODE_MULTIPLY_RIGHT, NODE_NOT, NODE_OR_LEFT, NODE_OR_RIGHT, NODE_PARAMETER,
    NODE_QUERY_SUBJECT, NODE_QUERY_TAG, NODE_QUERY_VALUE, NODE_STATEMENTS, NODE_UNION_LEFT, NODE_UNION_RIGHT,
    NODE_UNWRAP_OR_DEFAULT, NODE_UNWRAP_OR_SET, NODE_XOR_LEFT, NODE_XOR_RIGHT,
};
use crate::object::{Abstract, Object, Property, Structure, abs};
use crate::object::integer::integer;

verus! {

/// A node that has a left and a right hand side.
#[derive(Debug, PartialEq, Clone)]
pub struct BinaryNode {
    pub left: Object,
    pub right: Object,
}

#[derive(Debug, PartialEq, Clone)]
pub struct MapNode {
    pub set: Object,
    pub mapper_function: Object,
}

#[derive(Debug, PartialEq, Clone)]
pub struct FilterNode {
    pub set: Object,
    pub filter_function: Object,
}

#[derive(Debug, PartialEq, Clone)]
pub struct IfNode {
    pub condition: Object,
    pub then_branch: Object,
    pub otherwise: Object,
}

#[derive(Debug, PartialEq, Clone)]
pub struct UnwrapOrNode {
    pub set: Object,
    pub default: Object,
}

#[derive(Debug, PartialEq, Clone)]
pub struct CallNode {
    /// The function or node getting called.
    pub callee: Object,
    /// A node for the parameter.
    pub with: Object,
}

#[derive(Debug, PartialEq, Clone)]
pub struct QueryExistsNode {
    pub subject: Object,
    pub tag: Object,
    pub value: Object,
}

#[derive(Debug, PartialEq, Clone)]
pub struct QuerySubjectsNode {
    pub tag: Object,
    pub value: Object,
}

#[derive(Debug, PartialEq, Clone)]
pub struct QueryTagsNode {
    pub subject: Object,
    pub value: Object,
}

#[derive(Debug, PartialEq, Clone)]
pub struct QueryValuesNode {
    pub subject: Object,
    pub tag: Object,
}

#[derive(Debug, PartialEq, Clone)]
pub struct QueryTagsAndValuesNode {
    pub subject: Object,
}

#[derive(Debug, PartialEq, Clone)]
pub struct QuerySubjectsAndValuesNode {
    pub tag: Object,
}

#[derive(Debug, PartialEq, Clone)]
pub struct QuerySubjectsAndTagsNode {
    pub value: Object,
}

#[derive(Debug, PartialEq, Clone)]
pub struct PredicateNode {
    pub set: Object,
    pub predicate: Object,
}

/// An expression of the evaluation engine.
#[derive(Debug, PartialEq, Clone)]
pub enum Node {
    Function(Object),
    Literal(Object),
    And(BinaryNode),
    FunctionSelf(u32),
    Parameter(u32),
    Count(Object),
    QueryExists(QueryExistsNode),
    QuerySubjects(QuerySubjectsNode),
    QueryTags(QueryTagsNode),
    QueryValues(QueryValuesNode),
    QuerySubjectsAndTags(QuerySubjectsAndTagsNode),
    QuerySubjectsAndValues(QuerySubjectsAndValuesNode),
    QueryTagsAndValues(QueryTagsAndValuesNode),
    Statements,
    Equal(BinaryNode),
    Or(BinaryNode),
    Xor(BinaryNode),
    Not(Object),
    Add(BinaryNode),
    Union(BinaryNode),
    Mapping(MapNode),
    Filter(FilterNode),
    Less(BinaryNode),
    If(IfNode),
    UnwrapOr(UnwrapOrNode),
    Multiply(BinaryNode),
    Call(CallNode),
    IsAbstract(Object),
    Every(PredicateNode),
    Any(PredicateNode),
}

/// The structure `{(t1, v1)}`.
pub open spec fn one(t1: u128, v1: Object) -> Object {
    Object::Structure(Structure::of(seq![Property { tag: abs(t1), value: v1 }]))
}

/// The structure `{(t1, v1), (t2, v2)}`.
pub open spec fn two(t1: u128, v1: Object, t2: u128, v2: Object) -> Object {
    Object::Structure(Structure::of(seq![
        Property { tag: abs(t1), value: v1 },
        Property { tag: abs(t2), value: v2 },
    ]))
}

/// The structure `{(t1, v1), (t2, v2), (t3, v3)}`.
pub open spec fn three(t1: u128, v1: Object, t2: u128, v2: Object, t3: u128, v3: Object) -> Object {
    Object::Structure(Structure::of(seq![
        Property { tag: abs(t1), value: v1 },
        Property { tag: abs(t2), value: v2 },
        Property { tag: abs(t3), value: v3 },
    ]))
}

/// The object that writes down the node `n`.
pub open spec fn node_object(n: Node) -> Object {
    match n {
        Node::IsAbstract(inner) => one(NODE_IS_ABSTRACT, inner),
        Node::Call(c) => two(NODE_CALL_CALLEE, c.callee, NODE_CALL_WITH, c.with),
        Node::Function(body) => one(FUNCTION, body),
        Node::Literal(literal) => one(NODE_LITERAL, literal),
        Node::And(b) => two(NODE_AND_LEFT, b.left, NODE_AND_RIGHT, b.right),
        Node::FunctionSelf(depth) => one(NODE_FUNCTION_SELF, integer(depth as int)),
        Node::Parameter(depth) => one(NODE_PARAMETER, integer(depth as int)),
        Node::Count(o) => one(NODE_COUNT, o),
        Node::QueryExists(q) => three(NODE_QUERY_SUBJECT, q.subject, NODE_QUERY_TAG, q.tag, NODE_QUERY_VALUE, q.value),
        Node::QuerySubjects(q) => two(NODE_QUERY_TAG, q.tag, NODE_QUERY_VALUE, q.value),
        Node::QueryTags(q) => two(NODE_QUERY_SUBJECT, q.subject, NODE_QUERY_VALUE, q.value),
        Node::QueryValues(q) => two(NODE_QUERY_SUBJECT, q.subject, NODE_QUERY_TAG, q.tag),
        Node::QuerySubjectsAndTags(q) => one(NODE_QUERY_VALUE, q.value),
        Node::QueryTagsAndValues(q) => one(NODE_QUERY_SUBJECT, q.subject),
        Node::QuerySubjectsAndValues(q) => one(NODE_QUERY_TAG, q.tag),
        Node::Statements => abs(NODE_STATEMENTS),
        Node::Equal(b) => two(NODE_EQUAL_LEFT, b.left, NODE_EQUAL_RIGHT, b.right),
        Node::Or(b) => two(NODE_OR_LEFT, b.left, NODE_OR_RIGHT, b.right),
        Node::Xor(b) => two(NODE_XOR_LEFT, b.left, NODE_XOR_RIGHT, b.right),
        Node::Not(o) => one(NODE_NOT, o),
        Node::Add(b) => two(NODE_ADD_LEFT, b.left, NODE_ADD_RIGHT, b.right),
        Node::Union(b) => two(NODE_UNION_LEFT, b.left, NODE_UNION_RIGHT, b.right),
        Node::Mapping(m) => two(NODE_MAP_SET, m.set, NODE_MAP_MAPPER, m.mapper_function),
        Node::Filter(f) => two(NODE_FILTER_SET, f.set, NODE_FILTER_FILTER, f.filter_function),
        Node::Every(p) => two(NODE_EVERY_SET, p.set, NODE_EVERY_PREDICATE, p.predicate),
        Node::Any(p) => two(NODE_ANY_SET, p.set, NODE_ANY_PREDICATE, p.predicate),
        Node::Less(b) => two(NODE_LESS_LEFT, b.left, NODE_LESS_RIGHT, b.right),
        Node::If(i) => three(NODE_IF_CONDITION, i.condition, NODE_IF_THEN, i.then_branch, NODE_IF_ELSE, i.otherwise),
        Node::UnwrapOr(u) => two(NODE_UNWRAP_OR_SET, u.set, NODE_UNWRAP_OR_DEFAULT, u.default),
        Node::Multiply(b) => two(NODE_MULTIPLY_LEFT, b.left, NODE_MULTIPLY_RIGHT, b.right),
    }
}

/// Builds `{(t1, v1)}`.
fn make_one(t1: u128, v1: Object) -> (r: Object)
    ensures
        r == one(t1, v1),
{
    let mut v = Vec::new();
    v.push(Property { tag: Object::Abstract(Abstract(t1)), value: v1 });
    assert(v@ =~= seq![Property { tag: abs(t1), value: v1 }]);
    Object::Structure(Structure::new(v))
}

/// Builds `{(t1, v1), (t2, v2)}`.
fn make_two(t1: u128, v1: Object, t2: u128, v2: Object) -> (r: Object)
    ensures
        r == two(t1, v1, t2, v2),
{
    let mut v = Vec::new();
    v.push(Property { tag: Object::Abstract(Abstract(t1)), value: v1 });
    v.push(Property { tag: Object::Abstract(Abstract(t2)), value: v2 });
    assert(v@ =~= seq![Property { tag: abs(t1), value: v1 }, Property { tag: abs(t2), value: v2 }]);
    Object::Structure(Structure::new(v))
}

/// Builds `{(t1, v1), (t2, v2), (t3, v3)}`.
fn make_three(t1: u128, v1: Object, t2: u128, v2: Object, t3: u128, v3: Object) -> (r: Object)
    ensures
        r == three(t1, v1, t2, v2, t3, v3),
{
    let mut v = Vec::new();
    v.push(Property { tag: Object::Abstract(Abstract(t1)), value: v1 });
    v.push(Property { tag: Object::Abstract(Abstract(t2)), value: v2 });
    v.push(Property { tag: Object::Abstract(Abstract(t3)), value: v3 });
    assert(v@ =~= seq![
        Property { tag: abs(t1), value: v1 },
        Property { tag: abs(t2), value: v2 },
        Property { tag: abs(t3), value: v3 },
    ]);
    Object::Structure(Structure::new(v))
}

impl Object {
    /// Writes the node `node` down as an object.
    pub fn new_node(node: Node) -> (r: Object)
        ensures
            r == node_object(node),
    {
        match node {
            Node::IsAbstract(inner) => make_one(NODE_IS_ABSTRACT, inner),
            Node::Call(c) => make_two(NODE_CALL_CALLEE, c.callee, NODE_CALL_WITH, c.with),
            Node::Function(body) => make_one(FUNCTION, body),
            Node::Literal(literal) => make_one(NODE_LITERAL, literal),
            Node::And(b) => make_two(NODE_AND_LEFT, b.left, NODE_AND_RIGHT, b.right),
            Node::FunctionSelf(depth) => make_one(NODE_FUNCTION_SELF, Object::new_integer(depth as i128)),
            Node::Parameter(depth) => make_one(NODE_PARAMETER, Object::new_integer(depth as i128)),
            Node::Count(o) => make_one(NODE_COUNT, o),
            Node::QueryExists(q) => make_three(NODE_QUERY_SUBJECT, q.subject, NODE_QUERY_TAG, q.tag, NODE_QUERY_VALUE, q.value),
            Node::QuerySubjects(q) => make_two(NODE_QUERY_TAG, q.tag, NODE_QUERY_VALUE, q.value),
            Node::QueryTags(q) => make_two(NODE_QUERY_SUBJECT, q.subject, NODE_QUERY_VALUE, q.value),
            Node::QueryValues(q) => make_two(NODE_QUERY_SUBJECT, q.subject, NODE_QUERY_TAG, q.tag),
            Node::QuerySubjectsAndTags(q) => make_one(NODE_QUERY_VALUE, q.value),
            Node::QueryTagsAndValues(q) => make_one(NODE_QUERY_SUBJECT, q.subject),
            Node::QuerySubjectsAndValues(q) => make_one(NODE_QUERY_TAG, q.tag),
            Node::Statements => Object::Abstract(Abstract(NODE_STATEMENTS)),
            Node::Equal(b) => make_two(NODE_EQUAL_LEFT, b.left, NODE_EQUAL_RIGHT, b.right),
            Node::Or(b) => make_two(NODE_OR_LEFT, b.left, NODE_OR_RIGHT, b.right),
            Node::Xor(b) => make_two(NODE_XOR_LEFT, b.left, NODE_XOR_RIGHT, b.right),
            Node::Not(o) => make_one(NODE_NOT, o),
            Node::Add(b) => make_two(NODE_ADD_LEFT, b.left, NODE_ADD_RIGHT, b.right),
            Node::Union(b) => make_two(NODE_UNION_LEFT, b.left, NODE_UNION_RIGHT, b.right),
            Node::Mapping(m) => make_two(NODE_MAP_SET, m.set, NODE_MAP_MAPPER, m.mapper_function),
            Node::Filter(f) => make_two(NODE_FILTER_SET, f.set, NODE_FILTER_FILTER, f.filter_function),
            Node::Every(p) => make_two(NODE_EVERY_SET, p.set, NODE_EVERY_PREDICATE, p.predicate),
            Node::Any(p) => make_two(NODE_ANY_SET, p.set, NODE_ANY_PREDICATE, p.predicate),
            Node::Less(b) => make_two(NODE_LESS_LEFT, b.left, NODE_LESS_RIGHT, b.right),
            Node::If(i) => make_three(NODE_IF_CONDITION, i.condition, NODE_IF_THEN, i.then_branch, NODE_IF_ELSE, i.otherwise),
            Node::UnwrapOr(u) => make_two(NODE_UNWRAP_OR_SET, u.set, NODE_UNWRAP_OR_DEFAULT, u.default),
            Node::Multiply(b) => make_two(NODE_MULTIPLY_LEFT, b.left, NODE_MULTIPLY_RIGHT, b.right),
        }
    }
}

} // verus!
