//! Reading objects back as integers and as expression nodes, under a store
//! of statements.

use vstd::prelude::*;

use crate::abstracts::{
    ARITHMETIC_OVERFLOW, CONTAINS, FUNCTION, NODE_ADD_LEFT, NODE_ADD_RIGHT, NODE_AND_LEFT, NODE_AND_RIGHT,
    NODE_ANY_PREDICATE, NODE_ANY_SET, NODE_CALL_CALLEE, NODE_CALL_WITH, NODE_COUNT, NODE_EQUAL_LEFT,
    NODE_EQUAL_RIGHT, NODE_EVERY_PREDICATE, NODE_EVERY_SET, NODE_FILTER_FILTER, NODE_FILTER_SET,
    NODE_FUNCTION_SELF, NODE_IF_CONDITION, NODE_IF_ELSE, NODE_IF_THEN, NODE_IS_ABSTRACT, NODE_LESS_LEFT,
    NODE_LESS_RIGHT, NODE_LITERAL, NODE_MAP_MAPPER, NODE_MAP_SET, NODE_MULTIPLY_LEFT, NODE_MULTIPLY_RIGHT,
    NODE_NOT, NODE_OR_LEFT, NODE_OR_RIGHT, NODE_PARAMETER, NODE_QUERY_SUBJECT, NODE_QUERY_TAG,
    NODE_QUERY_VALUE, NODE_STATEMENTS, NODE_UNION_LEFT, NODE_UNION_RIGHT, NODE_UNWRAP_OR_DEFAULT,
    NODE_UNWRAP_OR_SET, NODE_XOR_LEFT, NODE_XOR_RIGHT, UNDEFINED,
};
use crate::nodes::{node_object, one, two, three};
use crate::nodes::{
    BinaryNode, CallNode, FilterNode, IfNode, MapNode, Node, PredicateNode, QueryExistsNode,
    QuerySubjectsAndTagsNode, QuerySubjectsAndValuesNode, QuerySubjectsNode, QueryTagsAndValuesNode,
    QueryTagsNode, QueryValuesNode, UnwrapOrNode,
};
use crate::object::{Abstract, Object, Property, Structure, abs, values_of};
use crate::object::integer::{integer, law_integer_injective};
use crate::objects::{PREDECESSOR_OF, SUCCESSOR_OF};
use crate::statements::{
    SimpleStatement, Statements, first, next_and_last, only, own_values, query_values_spec, stated_values,
};

verus! {

/// How many steps a reading or an evaluation may take before giving up.
pub open spec fn fuel_limit() -> nat {
    18446744073709551615
}

/// The integer that `o` stands for exactly, if it fits an `i128`.
pub open spec fn exact_int(o: Object) -> Option<int> {
    if exists|i: i128| o == integer(i as int) {
        Some((choose|i: i128| o == integer(i as int)) as int)
    } else {
        None
    }
}

/// `exact_int` of an integer object is that integer.
pub proof fn lemma_exact_int(i: i128)
    ensures
        exact_int(integer(i as int)) == Some(i as int),
{
    let j = choose|j: i128| integer(i as int) == integer(j as int);
    law_integer_injective(i as int, j as int);
}

/// The integer `o` stands for under `st`: exactly, or as the successor of
/// its only predecessor, or as the predecessor of its only successor,
/// following at most `fuel` statement steps; `None` when the number does
/// not fit an `i128`.
pub open spec fn to_integer_fuel(o: Object, st: Seq<SimpleStatement>, fuel: nat) -> Option<int>
    decreases fuel,
{
    match exact_int(o) {
        Some(i) => Some(i),
        None => if fuel == 0 {
            None
        } else {
            match only(query_values_spec(st, o, abs(SUCCESSOR_OF))) {
                Some(p) => match to_integer_fuel(p, st, (fuel - 1) as nat) {
                    Some(k) => if k + 1 <= i128::MAX { Some(k + 1) } else { None },
                    None => None,
                },
                None => match only(query_values_spec(st, o, abs(PREDECESSOR_OF))) {
                    Some(s) => match to_integer_fuel(s, st, (fuel - 1) as nat) {
                        Some(k) => if k - 1 >= i128::MIN { Some(k - 1) } else { None },
                        None => None,
                    },
                    None => None,
                },
            }
        },
    }
}

/// The integer `o` stands for under `st`.
pub open spec fn to_integer_spec(o: Object, st: Seq<SimpleStatement>) -> Option<int> {
    to_integer_fuel(o, st, fuel_limit())
}

/// The object built for an integer reads back as that integer, under any
/// store of statements.
pub proof fn law_integer_reads_back(i: i128, st: Seq<SimpleStatement>)
    ensures
        to_integer_spec(integer(i as int), st) == Some(i as int),
{
    lemma_exact_int(i);
}

/// An optional `i128` as an optional integer.
pub open spec fn opt_int(r: Option<i128>) -> Option<int> {
    match r {
        Some(i) => Some(i as int),
        None => None,
    }
}

/// Whether `o` is a natural number under `st`: exactly, or as the
/// successor of its only predecessor, following at most `fuel` statement
/// steps.
pub open spec fn natural_fuel(o: Object, st: Seq<SimpleStatement>, fuel: nat) -> bool
    decreases fuel,
{
    match exact_int(o) {
        Some(i) if i >= 0 => true,
        _ => if fuel == 0 {
            false
        } else {
            match only(query_values_spec(st, o, abs(SUCCESSOR_OF))) {
                Some(p) => natural_fuel(p, st, (fuel - 1) as nat),
                None => false,
            }
        },
    }
}

/// The only value of `o` on the tag `t` under `st`.
pub open spec fn sv(o: Object, st: Seq<SimpleStatement>, t: u128) -> Option<Object> {
    only(query_values_spec(st, o, abs(t)))
}

/// A depth read from the only value of `o` on `t`.
pub open spec fn depth_of(o: Object, st: Seq<SimpleStatement>, t: u128) -> Option<u32> {
    match sv(o, st, t) {
        Some(v) => match to_integer_spec(v, st) {
            Some(i) => if 0 <= i <= u32::MAX { Some(i as u32) } else { None },
            None => None,
        },
        None => None,
    }
}

/// The binary node read from the only values of `o` on `l` and `r`.
pub open spec fn binary_spec(o: Object, st: Seq<SimpleStatement>, l: u128, r: u128) -> Option<BinaryNode> {
    match (sv(o, st, l), sv(o, st, r)) {
        (Some(left), Some(right)) => Some(BinaryNode { left, right }),
        _ => None,
    }
}

/// The query node read from the slots of `o`, if any slot is filled.
pub open spec fn query_kind(o: Object, st: Seq<SimpleStatement>) -> Option<Node> {
    match (sv(o, st, NODE_QUERY_SUBJECT), sv(o, st, NODE_QUERY_TAG), sv(o, st, NODE_QUERY_VALUE)) {
        (Some(subject), Some(tag), Some(value)) => Some(Node::QueryExists(QueryExistsNode { subject, tag, value })),
        (Some(subject), Some(tag), None) => Some(Node::QueryValues(QueryValuesNode { subject, tag })),
        (Some(subject), None, Some(value)) => Some(Node::QueryTags(QueryTagsNode { subject, value })),
        (None, Some(tag), Some(value)) => Some(Node::QuerySubjects(QuerySubjectsNode { tag, value })),
        (Some(subject), None, None) => Some(Node::QueryTagsAndValues(QueryTagsAndValuesNode { subject })),
        (None, Some(tag), None) => Some(Node::QuerySubjectsAndValues(QuerySubjectsAndValuesNode { tag })),
        (None, None, Some(value)) => Some(Node::QuerySubjectsAndTags(QuerySubjectsAndTagsNode { value })),
        (None, None, None) => None,
    }
}

/// A part of the kinds of node that `o` may be read as.
pub open spec fn kinds_first(o: Object, st: Seq<SimpleStatement>) -> Seq<Option<Node>> {
    seq![
        match sv(o, st, FUNCTION) { Some(b) => Some(Node::Function(b)), None => None },
        match sv(o, st, NODE_LITERAL) { Some(l) => Some(Node::Literal(l)), None => None },
        match depth_of(o, st, NODE_FUNCTION_SELF) { Some(d) => Some(Node::FunctionSelf(d)), None => None },
        match depth_of(o, st, NODE_PARAMETER) { Some(d) => Some(Node::Parameter(d)), None => None },
        match (sv(o, st, NODE_CALL_CALLEE), sv(o, st, NODE_CALL_WITH)) {
            (Some(callee), Some(with)) => Some(Node::Call(CallNode { callee, with })),
            _ => None,
        },
        match sv(o, st, NODE_COUNT) { Some(c) => Some(Node::Count(c)), None => None },
        query_kind(o, st),
        if o == abs(NODE_STATEMENTS) { Some(Node::Statements) } else { None },
    ]
}

/// A part of the kinds of node that `o` may be read as.
pub open spec fn kinds_second(o: Object, st: Seq<SimpleStatement>) -> Seq<Option<Node>> {
    seq![
        match sv(o, st, NODE_NOT) { Some(n) => Some(Node::Not(n)), None => None },
        match binary_spec(o, st, NODE_AND_LEFT, NODE_AND_RIGHT) { Some(b) => Some(Node::And(b)), None => None },
        match binary_spec(o, st, NODE_OR_LEFT, NODE_OR_RIGHT) { Some(b) => Some(Node::Or(b)), None => None },
        match binary_spec(o, st, NODE_EQUAL_LEFT, NODE_EQUAL_RIGHT) { Some(b) => Some(Node::Equal(b)), None => None },
        match binary_spec(o, st, NODE_XOR_LEFT, NODE_XOR_RIGHT) { Some(b) => Some(Node::Xor(b)), None => None },
        match binary_spec(o, st, NODE_ADD_LEFT, NODE_ADD_RIGHT) { Some(b) => Some(Node::Add(b)), None => None },
        match binary_spec(o, st, NODE_UNION_LEFT, NODE_UNION_RIGHT) { Some(b) => Some(Node::Union(b)), None => None },
        match (first(query_values_spec(st, o, abs(NODE_MAP_SET))), first(query_values_spec(st, o, abs(NODE_MAP_MAPPER)))) {
            (Some(set), Some(mapper_function)) => Some(Node::Mapping(MapNode { set, mapper_function })),
            _ => None,
        },
    ]
}

/// A part of the kinds of node that `o` may be read as.
pub open spec fn kinds_third(o: Object, st: Seq<SimpleStatement>) -> Seq<Option<Node>> {
    seq![
        match (sv(o, st, NODE_FILTER_SET), sv(o, st, NODE_FILTER_FILTER)) {
            (Some(set), Some(filter_function)) => Some(Node::Filter(FilterNode { set, filter_function })),
            _ => None,
        },
        match binary_spec(o, st, NODE_LESS_LEFT, NODE_LESS_RIGHT) { Some(b) => Some(Node::Less(b)), None => None },
        match (sv(o, st, NODE_IF_CONDITION), sv(o, st, NODE_IF_THEN), sv(o, st, NODE_IF_ELSE)) {
            (Some(condition), Some(then_branch), Some(otherwise)) => Some(Node::If(IfNode { condition, then_branch, otherwise })),
            _ => None,
        },
        match (sv(o, st, NODE_UNWRAP_OR_SET), sv(o, st, NODE_UNWRAP_OR_DEFAULT)) {
            (Some(set), Some(default)) => Some(Node::UnwrapOr(UnwrapOrNode { set, default })),
            _ => None,
        },
        match binary_spec(o, st, NODE_MULTIPLY_LEFT, NODE_MULTIPLY_RIGHT) { Some(b) => Some(Node::Multiply(b)), None => None },
        match sv(o, st, NODE_IS_ABSTRACT) { Some(i) => Some(Node::IsAbstract(i)), None => None },
        match (sv(o, st, NODE_EVERY_SET), sv(o, st, NODE_EVERY_PREDICATE)) {
            (Some(set), Some(predicate)) => Some(Node::Every(PredicateNode { set, predicate })),
            _ => None,
        },
        match (sv(o, st, NODE_ANY_SET), sv(o, st, NODE_ANY_PREDICATE)) {
            (Some(set), Some(predicate)) => Some(Node::Any(PredicateNode { set, predicate })),
            _ => None,
        },
    ]
}

/// Each kind of node that `o` may be read as, in the order they are tried.
pub open spec fn kinds(o: Object, st: Seq<SimpleStatement>) -> Seq<Option<Node>> {
    kinds_first(o, st) + kinds_second(o, st) + kinds_third(o, st)
}

/// Combines the kinds that were found: `None` when two were found, else
/// the one found, if any.
pub open spec fn xor_fold(ks: Seq<Option<Node>>) -> Option<Option<Node>>
    decreases ks.len(),
{
    if ks.len() == 0 {
        Some(None)
    } else {
        match xor_fold(ks.drop_last()) {
            None => None,
            Some(acc) => match ks.last() {
                None => Some(acc),
                Some(n) => if acc is Some { None } else { Some(Some(n)) },
            },
        }
    }
}

/// The node that `o` reads as under `st`: the one kind that it matches, or
/// none when it matches no kind or more than one.
pub open spec fn decode(o: Object, st: Seq<SimpleStatement>) -> Option<Node> {
    match xor_fold(kinds(o, st)) {
        Some(n) => n,
        None => None,
    }
}

/// Once two kinds have been found, the combination stays in conflict.
proof fn lemma_xor_fold_conflict(ks: Seq<Option<Node>>, n: int)
    requires
        0 <= n <= ks.len(),
        xor_fold(ks.take(n)) is None,
    ensures
        xor_fold(ks) is None,
    decreases ks.len() - n,
{
    if n < ks.len() {
        assert(ks.take(n + 1).drop_last() =~= ks.take(n));
        lemma_xor_fold_conflict(ks, n + 1);
    } else {
        assert(ks.take(n) =~= ks);
    }
}

/// The only value of `o` on the tag `t`.
fn single_value(o: &Object, st: &Statements, t: u128) -> (r: Option<Object>)
    ensures
        r == sv(*o, st@, t),
{
    next_and_last(st.query_values(o, &Object::Abstract(Abstract(t))))
}

/// The first value of `o` on the tag `t`.
fn first_value(o: &Object, st: &Statements, t: u128) -> (r: Option<Object>)
    ensures
        r == first(query_values_spec(st@, *o, abs(t))),
{
    let mut values = st.query_values(o, &Object::Abstract(Abstract(t)));
    if values.len() > 0 {
        Some(values.remove(0))
    } else {
        None
    }
}

/// A depth read from the only value of `o` on `t`.
fn depth_value(o: &Object, st: &Statements, t: u128) -> (r: Option<u32>)
    ensures
        r == depth_of(*o, st@, t),
{
    match single_value(o, st, t) {
        Some(v) => match v.to_integer(st) {
            Some(i) => if 0 <= i && i <= 4294967295 {
                Some(i as u32)
            } else {
                None
            },
            None => None,
        },
        None => None,
    }
}

/// The query node read from the slots of `o`.
fn query_node(o: &Object, st: &Statements) -> (r: Option<Node>)
    ensures
        r == query_kind(*o, st@),
{
    let subject = single_value(o, st, NODE_QUERY_SUBJECT);
    let tag = single_value(o, st, NODE_QUERY_TAG);
    let value = single_value(o, st, NODE_QUERY_VALUE);
    match (subject, tag, value) {
        (Some(subject), Some(tag), Some(value)) => Some(Node::QueryExists(QueryExistsNode { subject, tag, value })),
        (Some(subject), Some(tag), None) => Some(Node::QueryValues(QueryValuesNode { subject, tag })),
        (Some(subject), None, Some(value)) => Some(Node::QueryTags(QueryTagsNode { subject, value })),
        (None, Some(tag), Some(value)) => Some(Node::QuerySubjects(QuerySubjectsNode { tag, value })),
        (Some(subject), None, None) => Some(Node::QueryTagsAndValues(QueryTagsAndValuesNode { subject })),
        (None, Some(tag), None) => Some(Node::QuerySubjectsAndValues(QuerySubjectsAndValuesNode { tag })),
        (None, None, Some(value)) => Some(Node::QuerySubjectsAndTags(QuerySubjectsAndTagsNode { value })),
        (None, None, None) => None,
    }
}

/// The node made of the only values of `o` on two tags.
fn pair_values(o: &Object, st: &Statements, t1: u128, t2: u128) -> (r: Option<(Object, Object)>)
    ensures
        r == match (sv(*o, st@, t1), sv(*o, st@, t2)) {
            (Some(a), Some(b)) => Some((a, b)),
            _ => None,
        },
{
    match (single_value(o, st, t1), single_value(o, st, t2)) {
        (Some(a), Some(b)) => Some((a, b)),
        _ => None,
    }
}

/// Computes `kinds_first`.
fn kinds_first_of(o: &Object, st: &Statements) -> (r: Vec<Option<Node>>)
    ensures
        r@ == kinds_first(*o, st@),
{
    let mut k: Vec<Option<Node>> = Vec::new();
    k.push(match single_value(o, st, FUNCTION) { Some(b) => Some(Node::Function(b)), None => None });
    k.push(match single_value(o, st, NODE_LITERAL) { Some(l) => Some(Node::Literal(l)), None => None });
    k.push(match depth_value(o, st, NODE_FUNCTION_SELF) { Some(d) => Some(Node::FunctionSelf(d)), None => None });
    k.push(match depth_value(o, st, NODE_PARAMETER) { Some(d) => Some(Node::Parameter(d)), None => None });
    k.push(match pair_values(o, st, NODE_CALL_CALLEE, NODE_CALL_WITH) {
        Some((callee, with)) => Some(Node::Call(CallNode { callee, with })),
        None => None,
    });
    k.push(match single_value(o, st, NODE_COUNT) { Some(c) => Some(Node::Count(c)), None => None });
    k.push(query_node(o, st));
    k.push(if o.same(&Object::Abstract(Abstract(NODE_STATEMENTS))) { Some(Node::Statements) } else { None });
    assert(k@ =~= kinds_first(*o, st@));
    k
}

/// Computes `kinds_second`.
fn kinds_second_of(o: &Object, st: &Statements) -> (r: Vec<Option<Node>>)
    ensures
        r@ == kinds_second(*o, st@),
{
    let mut k: Vec<Option<Node>> = Vec::new();
    k.push(match single_value(o, st, NODE_NOT) { Some(n) => Some(Node::Not(n)), None => None });
    k.push(match o.binary_node(st, NODE_AND_LEFT, NODE_AND_RIGHT) { Some(b) => Some(Node::And(b)), None => None });
    k.push(match o.binary_node(st, NODE_OR_LEFT, NODE_OR_RIGHT) { Some(b) => Some(Node::Or(b)), None => None });
    k.push(match o.binary_node(st, NODE_EQUAL_LEFT, NODE_EQUAL_RIGHT) { Some(b) => Some(Node::Equal(b)), None => None });
    k.push(match o.binary_node(st, NODE_XOR_LEFT, NODE_XOR_RIGHT) { Some(b) => Some(Node::Xor(b)), None => None });
    k.push(match o.binary_node(st, NODE_ADD_LEFT, NODE_ADD_RIGHT) { Some(b) => Some(Node::Add(b)), None => None });
    k.push(match o.binary_node(st, NODE_UNION_LEFT, NODE_UNION_RIGHT) { Some(b) => Some(Node::Union(b)), None => None });
    k.push(match (first_value(o, st, NODE_MAP_SET), first_value(o, st, NODE_MAP_MAPPER)) {
        (Some(set), Some(mapper_function)) => Some(Node::Mapping(MapNode { set, mapper_function })),
        _ => None,
    });
    assert(k@ =~= kinds_second(*o, st@));
    k
}

/// Computes `kinds_third`.
fn kinds_third_of(o: &Object, st: &Statements) -> (r: Vec<Option<Node>>)
    ensures
        r@ == kinds_third(*o, st@),
{
    let mut k: Vec<Option<Node>> = Vec::new();
    k.push(match pair_values(o, st, NODE_FILTER_SET, NODE_FILTER_FILTER) {
        Some((set, filter_function)) => Some(Node::Filter(FilterNode { set, filter_function })),
        None => None,
    });
    k.push(match o.binary_node(st, NODE_LESS_LEFT, NODE_LESS_RIGHT) { Some(b) => Some(Node::Less(b)), None => None });
    k.push(match (single_value(o, st, NODE_IF_CONDITION), single_value(o, st, NODE_IF_THEN), single_value(o, st, NODE_IF_ELSE)) {
        (Some(condition), Some(then_branch), Some(otherwise)) => Some(Node::If(IfNode { condition, then_branch, otherwise })),
        _ => None,
    });
    k.push(match pair_values(o, st, NODE_UNWRAP_OR_SET, NODE_UNWRAP_OR_DEFAULT) {
        Some((set, default)) => Some(Node::UnwrapOr(UnwrapOrNode { set, default })),
        None => None,
    });
    k.push(match o.binary_node(st, NODE_MULTIPLY_LEFT, NODE_MULTIPLY_RIGHT) { Some(b) => Some(Node::Multiply(b)), None => None });
    k.push(match single_value(o, st, NODE_IS_ABSTRACT) { Some(i) => Some(Node::IsAbstract(i)), None => None });
    k.push(match pair_values(o, st, NODE_EVERY_SET, NODE_EVERY_PREDICATE) {
        Some((set, predicate)) => Some(Node::Every(PredicateNode { set, predicate })),
        None => None,
    });
    k.push(match pair_values(o, st, NODE_ANY_SET, NODE_ANY_PREDICATE) {
        Some((set, predicate)) => Some(Node::Any(PredicateNode { set, predicate })),
        None => None,
    });
    assert(k@ =~= kinds_third(*o, st@));
    k
}

/// Each kind of node that `o` may be read as, in the order they are tried.
fn kinds_of(o: &Object, st: &Statements) -> (r: Vec<Option<Node>>)
    ensures
        r@ == kinds(*o, st@),
        r@.len() == 24,
{
    let mut k = kinds_first_of(o, st);
    let mut second = kinds_second_of(o, st);
    let mut third = kinds_third_of(o, st);
    k.append(&mut second);
    k.append(&mut third);
    k
}

impl Object {
    /// Reads `self` as a node under the statements `st`: the one kind of
    /// node it matches, or `None` when it matches none or several.
    pub fn node(&self, st: &Statements) -> (r: Option<Node>)
        ensures
            r == decode(*self, st@),
    {
        let mut found = kinds_of(self, st);
        let ghost ks = found@;
        let mut node: Option<Node> = None;
        let mut i: usize = 0;
        assert(ks.skip(0) =~= ks);
        assert(ks.take(0) =~= Seq::<Option<Node>>::empty());
        while found.len() > 0
            invariant
                ks.len() == 24,
                ks == kinds(*self, st@),
                i <= ks.len(),
                found@ == ks.skip(i as int),
                xor_fold(ks.take(i as int)) == Some(node),
            decreases found.len(),
        {
            assert(ks.take(i as int + 1).drop_last() =~= ks.take(i as int));
            assert(ks.take(i as int + 1).last() == ks[i as int]);
            assert(found@[0] == ks[i as int]);
            let kind = found.remove(0);
            assert(kind == ks[i as int]);
            assert(found@ =~= ks.skip(i as int + 1));
            if kind.is_some() {
                if node.is_some() {
                    proof {
                        assert(xor_fold(ks.take(i as int + 1)) is None);
                        lemma_xor_fold_conflict(ks, i as int + 1);
                    }
                    assert(ks.take(ks.len() as int) =~= ks);
                    return None;
                }
                node = kind;
            }
            i = i + 1;
        }
        assert(ks.take(ks.len() as int) =~= ks);
        node
    }

    /// Reads `self` as an integer, following at most `fuel` statement steps.
    fn to_integer_with(&self, st: &Statements, fuel: u64) -> (r: Option<i128>)
        ensures
            opt_int(r) == to_integer_fuel(*self, st@, fuel as nat),
        decreases fuel,
    {
        if let Some(n) = self.exact_integer() {
            proof {
                lemma_exact_int(n);
            }
            return Some(n);
        }
        if fuel == 0 {
            return None;
        }
        if let Some(predecessor) = single_value(self, st, SUCCESSOR_OF) {
            match predecessor.to_integer_with(st, fuel - 1) {
                Some(k) => if k < i128::MAX {
                    Some(k + 1)
                } else {
                    None
                },
                None => None,
            }
        } else if let Some(successor) = single_value(self, st, PREDECESSOR_OF) {
            match successor.to_integer_with(st, fuel - 1) {
                Some(k) => if k > i128::MIN {
                    Some(k - 1)
                } else {
                    None
                },
                None => None,
            }
        } else {
            None
        }
    }

    /// Reads `self` as an integer under the statements `st`.
    pub fn to_integer(&self, st: &Statements) -> (r: Option<i128>)
        ensures
            opt_int(r) == to_integer_spec(*self, st@),
    {
        self.to_integer_with(st, u64::MAX)
    }

    /// Whether `self` is a natural number under `st`, following at most
    /// `fuel` statement steps.
    fn is_natural_number_with(&self, st: &Statements, fuel: u64) -> (r: bool)
        ensures
            r == natural_fuel(*self, st@, fuel as nat),
        decreases fuel,
    {
        if let Some(n) = self.exact_integer() {
            proof {
                lemma_exact_int(n);
            }
            if n >= 0 {
                return true;
            }
        }
        if fuel == 0 {
            return false;
        }
        match single_value(self, st, SUCCESSOR_OF) {
            Some(predecessor) => predecessor.is_natural_number_with(st, fuel - 1),
            None => false,
        }
    }

    /// Whether `self` is a natural number under the statements `st`.
    pub fn is_natural_number(&self, st: &Statements) -> (r: bool)
        ensures
            r == natural_fuel(*self, st@, fuel_limit()),
    {
        self.is_natural_number_with(st, u64::MAX)
    }

    /// The items of `self` read as a set: its values on `CONTAINS`.
    pub fn set_values(&self, st: &Statements) -> (r: Vec<Object>)
        ensures
            r@ == query_values_spec(st@, *self, abs(CONTAINS)),
    {
        st.query_values(self, &Object::Abstract(Abstract(CONTAINS)))
    }

    /// Whether `self`, read as a set, has an item.
    pub fn is_truthy_under(&self, st: &Statements) -> (r: bool)
        ensures
            r == (query_values_spec(st@, *self, abs(CONTAINS)).len() > 0),
    {
        self.set_values(st).len() > 0
    }

    /// The sum of `self` and `other` read as integers; `ARITHMETIC_OVERFLOW`
    /// when it does not fit an `i128`, `UNDEFINED` when one is no integer.
    pub fn add(&self, st: &Statements, other: &Object) -> (r: Object)
        ensures
            r == match (to_integer_spec(*self, st@), to_integer_spec(*other, st@)) {
                (Some(a), Some(b)) => if i128::MIN <= a + b <= i128::MAX {
                    integer(a + b)
                } else {
                    abs(ARITHMETIC_OVERFLOW)
                },
                _ => abs(UNDEFINED),
            },
    {
        match (self.to_integer(st), other.to_integer(st)) {
            (Some(a), Some(b)) => match a.checked_add(b) {
                Some(sum) => Object::new_integer(sum),
                None => Object::Abstract(Abstract(ARITHMETIC_OVERFLOW)),
            },
            _ => Object::Abstract(Abstract(UNDEFINED)),
        }
    }

    /// The product of `self` and `other` read as integers;
    /// `ARITHMETIC_OVERFLOW` when it does not fit an `i128`, `UNDEFINED` when
    /// one is no integer.
    pub fn multiply(&self, st: &Statements, other: &Object) -> (r: Object)
        ensures
            r == match (to_integer_spec(*self, st@), to_integer_spec(*other, st@)) {
                (Some(a), Some(b)) => if i128::MIN <= a * b <= i128::MAX {
                    integer(a * b)
                } else {
                    abs(ARITHMETIC_OVERFLOW)
                },
                _ => abs(UNDEFINED),
            },
    {
        match (self.to_integer(st), other.to_integer(st)) {
            (Some(a), Some(b)) => match a.checked_mul(b) {
                Some(product) => Object::new_integer(product),
                None => Object::Abstract(Abstract(ARITHMETIC_OVERFLOW)),
            },
            _ => Object::Abstract(Abstract(UNDEFINED)),
        }
    }

    /// The body of `self` read as a function: its only `FUNCTION` value.
    pub fn node_function_body(&self, st: &Statements) -> (r: Option<Object>)
        ensures
            r == sv(*self, st@, FUNCTION),
    {
        single_value(self, st, FUNCTION)
    }

    /// The binary node read from the only values of `self` on `left_tag`
    /// and `right_tag`.
    pub fn binary_node(&self, st: &Statements, left_tag: u128, right_tag: u128) -> (r: Option<BinaryNode>)
        ensures
            r == binary_spec(*self, st@, left_tag, right_tag),
    {
        let left = match single_value(self, st, left_tag) {
            Some(l) => l,
            None => return None,
        };
        let right = match single_value(self, st, right_tag) {
            Some(r) => r,
            None => return None,
        };
        Some(BinaryNode { left, right })
    }
}

/// No statement is about `o`.
pub open spec fn unmentioned(o: Object, st: Seq<SimpleStatement>) -> bool {
    forall|i: int| 0 <= i < st.len() ==> st[i].subject != o
}

/// Without statements about `o`, none adds to its values.
pub(crate) proof fn lemma_stated_none(st: Seq<SimpleStatement>, o: Object, tag: Object)
    requires
        unmentioned(o, st),
    ensures
        stated_values(st, o, tag) == Seq::<Object>::empty(),
    decreases st.len(),
{
    if st.len() > 0 {
        assert(st[0].subject != o);
        assert forall|i: int| 0 <= i < st.drop_first().len() implies st.drop_first()[i].subject != o by {
            assert(st.drop_first()[i] == st[i + 1]);
        }
        lemma_stated_none(st.drop_first(), o, tag);
    }
}

/// A structure built from properties holds exactly them, each once.
proof fn lemma_distinct_structure(s: Seq<Property>)
    ensures
        Structure::of(s).seq().no_duplicates(),
        forall|p: Property| Structure::of(s).seq().contains(p) <==> s.contains(p),
{
    crate::object::lemma_structure_of(s);
}

/// In a sequence without duplicates whose properties tagged `t` all have
/// the value `v`, the values on `t` are `v` once if `(t, v)` occurs, none
/// otherwise.
proof fn lemma_values_of_unique(q: Seq<Property>, t: Object, v: Object)
    requires
        q.no_duplicates(),
        forall|i: int| 0 <= i < q.len() && (#[trigger] q[i]).tag == t ==> q[i].value == v,
    ensures
        values_of(q, t) == if q.contains(Property { tag: t, value: v }) { seq![v] } else { Seq::<Object>::empty() },
    decreases q.len(),
{
    if q.len() > 0 {
        let rest = q.drop_first();
        assert(rest.no_duplicates()) by {
            assert forall|i: int, j: int| 0 <= i < rest.len() && 0 <= j < rest.len() && i != j implies rest[i] != rest[j] by {
                assert(rest[i] == q[i + 1] && rest[j] == q[j + 1]);
            }
        }
        assert forall|i: int| 0 <= i < rest.len() && (#[trigger] rest[i]).tag == t implies rest[i].value == v by {
            assert(rest[i] == q[i + 1]);
        }
        lemma_values_of_unique(rest, t, v);
        let target = Property { tag: t, value: v };
        if q[0].tag == t {
            assert(q[0] == target);
            assert(!rest.contains(target)) by {
                if rest.contains(target) {
                    let i = choose|i: int| 0 <= i < rest.len() && rest[i] == target;
                    assert(q[i + 1] == q[0]);
                }
            }
            assert(seq![v] + Seq::<Object>::empty() =~= seq![v]);
            assert(q.contains(target)) by {
                assert(q[0] == target);
            }
        } else {
            assert(q.contains(target) <==> rest.contains(target)) by {
                if q.contains(target) {
                    let i = choose|i: int| 0 <= i < q.len() && q[i] == target;
                    assert(i > 0);
                    assert(rest[i - 1] == target);
                }
                if rest.contains(target) {
                    let i = choose|i: int| 0 <= i < rest.len() && rest[i] == target;
                    assert(q[i + 1] == target);
                }
            }
        }
    }
}


/// The values read from `{(t1, v1)}`.
pub(crate) proof fn lemma_read_one(t1: u128, v1: Object, st: Seq<SimpleStatement>)
    requires
        unmentioned(one(t1, v1), st),
    ensures
        forall|t: u128| #[trigger] query_values_spec(st, one(t1, v1), abs(t))
            == if t == t1 { seq![v1] } else { Seq::<Object>::empty() },
{
    let ps = seq![Property { tag: abs(t1), value: v1 }];
    lemma_distinct_structure(ps);
    let q = Structure::of(ps).seq();
    assert forall|t: u128| #[trigger] query_values_spec(st, one(t1, v1), abs(t))
        == if t == t1 { seq![v1] } else { Seq::<Object>::empty() } by {
        lemma_stated_none(st, one(t1, v1), abs(t));
        assert forall|i: int| 0 <= i < q.len() && (#[trigger] q[i]).tag == abs(t) implies q[i].value == v1 by {
            assert(ps.contains(q[i]));
        }
        lemma_values_of_unique(q, abs(t), v1);
        let target = Property { tag: abs(t), value: v1 };
        assert(q.contains(target) <==> t == t1) by {
            assert(q.contains(target) <==> ps.contains(target));
            if t == t1 {
                assert(ps[0] == target);
            } else if ps.contains(target) {
                let i = choose|i: int| 0 <= i < ps.len() && ps[i] == target;
                assert(ps[i].tag == abs(t1));
            }
        }
        assert(query_values_spec(st, one(t1, v1), abs(t)) =~= own_values(one(t1, v1), abs(t)));
    }
}

/// The values read from `{(t1, v1), (t2, v2)}`.
proof fn lemma_read_two(t1: u128, v1: Object, t2: u128, v2: Object, st: Seq<SimpleStatement>)
    requires
        t1 != t2,
        unmentioned(two(t1, v1, t2, v2), st),
    ensures
        forall|t: u128| #[trigger] query_values_spec(st, two(t1, v1, t2, v2), abs(t))
            == if t == t1 { seq![v1] } else if t == t2 { seq![v2] } else { Seq::<Object>::empty() },
{
    let p1 = Property { tag: abs(t1), value: v1 };
    let p2 = Property { tag: abs(t2), value: v2 };
    let ps = seq![p1, p2];
    lemma_distinct_structure(ps);
    let q = Structure::of(ps).seq();
    let o = two(t1, v1, t2, v2);
    assert forall|t: u128| #[trigger] query_values_spec(st, o, abs(t))
        == if t == t1 { seq![v1] } else if t == t2 { seq![v2] } else { Seq::<Object>::empty() } by {
        lemma_stated_none(st, o, abs(t));
        let v = if t == t1 { v1 } else { v2 };
        assert forall|i: int| 0 <= i < q.len() && (#[trigger] q[i]).tag == abs(t) implies q[i].value == v by {
            assert(ps.contains(q[i]));
        }
        lemma_values_of_unique(q, abs(t), v);
        let target = Property { tag: abs(t), value: v };
        assert(q.contains(target) <==> (t == t1 || t == t2)) by {
            assert(q.contains(target) <==> ps.contains(target));
            if t == t1 {
                assert(ps[0] == target);
            } else if t == t2 {
                assert(ps[1] == target);
            } else if ps.contains(target) {
                let i = choose|i: int| 0 <= i < ps.len() && ps[i] == target;
                assert(ps[i].tag == abs(t1) || ps[i].tag == abs(t2));
            }
        }
        assert(query_values_spec(st, o, abs(t)) =~= own_values(o, abs(t)));
    }
}

/// The values read from `{(t1, v1), (t2, v2), (t3, v3)}`.
proof fn lemma_read_three(t1: u128, v1: Object, t2: u128, v2: Object, t3: u128, v3: Object, st: Seq<SimpleStatement>)
    requires
        t1 != t2,
        t1 != t3,
        t2 != t3,
        unmentioned(three(t1, v1, t2, v2, t3, v3), st),
    ensures
        forall|t: u128| #[trigger] query_values_spec(st, three(t1, v1, t2, v2, t3, v3), abs(t))
            == if t == t1 { seq![v1] } else if t == t2 { seq![v2] } else if t == t3 { seq![v3] } else { Seq::<Object>::empty() },
{
    let p1 = Property { tag: abs(t1), value: v1 };
    let p2 = Property { tag: abs(t2), value: v2 };
    let p3 = Property { tag: abs(t3), value: v3 };
    let ps = seq![p1, p2, p3];
    lemma_distinct_structure(ps);
    let q = Structure::of(ps).seq();
    let o = three(t1, v1, t2, v2, t3, v3);
    assert forall|t: u128| #[trigger] query_values_spec(st, o, abs(t))
        == if t == t1 { seq![v1] } else if t == t2 { seq![v2] } else if t == t3 { seq![v3] } else { Seq::<Object>::empty() } by {
        lemma_stated_none(st, o, abs(t));
        let v = if t == t1 { v1 } else if t == t2 { v2 } else { v3 };
        assert forall|i: int| 0 <= i < q.len() && (#[trigger] q[i]).tag == abs(t) implies q[i].value == v by {
            assert(ps.contains(q[i]));
        }
        lemma_values_of_unique(q, abs(t), v);
        let target = Property { tag: abs(t), value: v };
        assert(q.contains(target) <==> (t == t1 || t == t2 || t == t3)) by {
            assert(q.contains(target) <==> ps.contains(target));
            if t == t1 {
                assert(ps[0] == target);
            } else if t == t2 {
                assert(ps[1] == target);
            } else if t == t3 {
                assert(ps[2] == target);
            } else if ps.contains(target) {
                let i = choose|i: int| 0 <= i < ps.len() && ps[i] == target;
                assert(ps[i].tag == abs(t1) || ps[i].tag == abs(t2) || ps[i].tag == abs(t3));
            }
        }
        assert(query_values_spec(st, o, abs(t)) =~= own_values(o, abs(t)));
    }
}

/// Nothing is read from an abstract object that no statement is about.
pub(crate) proof fn lemma_read_abstract(id: u128, st: Seq<SimpleStatement>)
    requires
        unmentioned(abs(id), st),
    ensures
        forall|t: u128| #[trigger] query_values_spec(st, abs(id), abs(t)) == Seq::<Object>::empty(),
{
    assert forall|t: u128| #[trigger] query_values_spec(st, abs(id), abs(t)) == Seq::<Object>::empty() by {
        lemma_stated_none(st, abs(id), abs(t));
        assert(query_values_spec(st, abs(id), abs(t)) =~= Seq::<Object>::empty());
    }
}

/// When exactly the entry at `j` is found, the combination is that entry.
proof fn lemma_xor_fold_single(ks: Seq<Option<Node>>, j: int, k: int)
    requires
        0 <= j < ks.len(),
        0 <= k <= ks.len(),
        ks[j] is Some,
        forall|i: int| 0 <= i < ks.len() && i != j ==> ks[i] is None,
    ensures
        xor_fold(ks.take(k)) == if k <= j { Some(None::<Node>) } else { Some(ks[j]) },
    decreases k,
{
    if k > 0 {
        lemma_xor_fold_single(ks, j, k - 1);
        assert(ks.take(k).drop_last() =~= ks.take(k - 1));
        assert(ks.take(k).last() == ks[k - 1]);
    } else {
        assert(ks.take(0) =~= Seq::<Option<Node>>::empty());
    }
}

/// The kind found at `j` is the node read, if no other kind is found.
proof fn lemma_decode_single(o: Object, st: Seq<SimpleStatement>, j: int)
    requires
        0 <= j < 24,
        kinds(o, st)[j] is Some,
        forall|i: int| 0 <= i < 24 && i != j ==> kinds(o, st)[i] is None,
    ensures
        decode(o, st) == kinds(o, st)[j],
{
    let ks = kinds(o, st);
    assert(ks.len() == 24);
    lemma_xor_fold_single(ks, j, 24);
    assert(ks.take(24) =~= ks);
}

proof fn roundtrip_function(body: Object, st: Seq<SimpleStatement>)
    requires
        unmentioned(node_object(Node::Function(body)), st),
    ensures
        decode(node_object(Node::Function(body)), st) == Some(Node::Function(body)),
{
    let o = node_object(Node::Function(body));
    lemma_read_one(FUNCTION, body, st);
    lemma_decode_single(o, st, 0);
}

proof fn roundtrip_literal(l: Object, st: Seq<SimpleStatement>)
    requires
        unmentioned(node_object(Node::Literal(l)), st),
    ensures
        decode(node_object(Node::Literal(l)), st) == Some(Node::Literal(l)),
{
    let o = node_object(Node::Literal(l));
    lemma_read_one(NODE_LITERAL, l, st);
    lemma_decode_single(o, st, 1);
}

proof fn roundtrip_function_self(d: u32, st: Seq<SimpleStatement>)
    requires
        unmentioned(node_object(Node::FunctionSelf(d)), st),
    ensures
        decode(node_object(Node::FunctionSelf(d)), st) == Some(Node::FunctionSelf(d)),
{
    let o = node_object(Node::FunctionSelf(d));
    lemma_read_one(NODE_FUNCTION_SELF, integer(d as int), st);
    lemma_exact_int(d as i128);
    lemma_decode_single(o, st, 2);
}

proof fn roundtrip_parameter(d: u32, st: Seq<SimpleStatement>)
    requires
        unmentioned(node_object(Node::Parameter(d)), st),
    ensures
        decode(node_object(Node::Parameter(d)), st) == Some(Node::Parameter(d)),
{
    let o = node_object(Node::Parameter(d));
    lemma_read_one(NODE_PARAMETER, integer(d as int), st);
    lemma_exact_int(d as i128);
    lemma_decode_single(o, st, 3);
}

proof fn roundtrip_call(c: CallNode, st: Seq<SimpleStatement>)
    requires
        unmentioned(node_object(Node::Call(c)), st),
    ensures
        decode(node_object(Node::Call(c)), st) == Some(Node::Call(c)),
{
    let o = node_object(Node::Call(c));
    lemma_read_two(NODE_CALL_CALLEE, c.callee, NODE_CALL_WITH, c.with, st);
    lemma_decode_single(o, st, 4);
}

proof fn roundtrip_count(c: Object, st: Seq<SimpleStatement>)
    requires
        unmentioned(node_object(Node::Count(c)), st),
    ensures
        decode(node_object(Node::Count(c)), st) == Some(Node::Count(c)),
{
    let o = node_object(Node::Count(c));
    lemma_read_one(NODE_COUNT, c, st);
    lemma_decode_single(o, st, 5);
}

proof fn roundtrip_query_exists(q: QueryExistsNode, st: Seq<SimpleStatement>)
    requires
        unmentioned(node_object(Node::QueryExists(q)), st),
    ensures
        decode(node_object(Node::QueryExists(q)), st) == Some(Node::QueryExists(q)),
{
    let o = node_object(Node::QueryExists(q));
    lemma_read_three(NODE_QUERY_SUBJECT, q.subject, NODE_QUERY_TAG, q.tag, NODE_QUERY_VALUE, q.value, st);
    lemma_decode_single(o, st, 6);
}

proof fn roundtrip_query_subjects(q: QuerySubjectsNode, st: Seq<SimpleStatement>)
    requires
        unmentioned(node_object(Node::QuerySubjects(q)), st),
    ensures
        decode(node_object(Node::QuerySubjects(q)), st) == Some(Node::QuerySubjects(q)),
{
    let o = node_object(Node::QuerySubjects(q));
    lemma_read_two(NODE_QUERY_TAG, q.tag, NODE_QUERY_VALUE, q.value, st);
    lemma_decode_single(o, st, 6);
}

proof fn roundtrip_query_tags(q: QueryTagsNode, st: Seq<SimpleStatement>)
    requires
        unmentioned(node_object(Node::QueryTags(q)), st),
    ensures
        decode(node_object(Node::QueryTags(q)), st) == Some(Node::QueryTags(q)),
{
    let o = node_object(Node::QueryTags(q));
    lemma_read_two(NODE_QUERY_SUBJECT, q.subject, NODE_QUERY_VALUE, q.value, st);
    lemma_decode_single(o, st, 6);
}

proof fn roundtrip_query_values(q: QueryValuesNode, st: Seq<SimpleStatement>)
    requires
        unmentioned(node_object(Node::QueryValues(q)), st),
    ensures
        decode(node_object(Node::QueryValues(q)), st) == Some(Node::QueryValues(q)),
{
    let o = node_object(Node::QueryValues(q));
    lemma_read_two(NODE_QUERY_SUBJECT, q.subject, NODE_QUERY_TAG, q.tag, st);
    lemma_decode_single(o, st, 6);
}

proof fn roundtrip_query_subjects_and_tags(q: QuerySubjectsAndTagsNode, st: Seq<SimpleStatement>)
    requires
        unmentioned(node_object(Node::QuerySubjectsAndTags(q)), st),
    ensures
        decode(node_object(Node::QuerySubjectsAndTags(q)), st) == Some(Node::QuerySubjectsAndTags(q)),
{
    let o = node_object(Node::QuerySubjectsAndTags(q));
    lemma_read_one(NODE_QUERY_VALUE, q.value, st);
    lemma_decode_single(o, st, 6);
}

proof fn roundtrip_query_tags_and_values(q: QueryTagsAndValuesNode, st: Seq<SimpleStatement>)
    requires
        unmentioned(node_object(Node::QueryTagsAndValues(q)), st),
    ensures
        decode(node_object(Node::QueryTagsAndValues(q)), st) == Some(Node::QueryTagsAndValues(q)),
{
    let o = node_object(Node::QueryTagsAndValues(q));
    lemma_read_one(NODE_QUERY_SUBJECT, q.subject, st);
    lemma_decode_single(o, st, 6);
}

proof fn roundtrip_query_subjects_and_values(q: QuerySubjectsAndValuesNode, st: Seq<SimpleStatement>)
    requires
        unmentioned(node_object(Node::QuerySubjectsAndValues(q)), st),
    ensures
        decode(node_object(Node::QuerySubjectsAndValues(q)), st) == Some(Node::QuerySubjectsAndValues(q)),
{
    let o = node_object(Node::QuerySubjectsAndValues(q));
    lemma_read_one(NODE_QUERY_TAG, q.tag, st);
    lemma_decode_single(o, st, 6);
}

proof fn roundtrip_statements(st: Seq<SimpleStatement>)
    requires
        unmentioned(node_object(Node::Statements), st),
    ensures
        decode(node_object(Node::Statements), st) == Some(Node::Statements),
{
    let o = node_object(Node::Statements);
    lemma_read_abstract(NODE_STATEMENTS, st);
    lemma_decode_single(o, st, 7);
}

proof fn roundtrip_not(x: Object, st: Seq<SimpleStatement>)
    requires
        unmentioned(node_object(Node::Not(x)), st),
    ensures
        decode(node_object(Node::Not(x)), st) == Some(Node::Not(x)),
{
    let o = node_object(Node::Not(x));
    lemma_read_one(NODE_NOT, x, st);
    lemma_decode_single(o, st, 8);
}

proof fn roundtrip_and(b: BinaryNode, st: Seq<SimpleStatement>)
    requires
        unmentioned(node_object(Node::And(b)), st),
    ensures
        decode(node_object(Node::And(b)), st) == Some(Node::And(b)),
{
    let o = node_object(Node::And(b));
    lemma_read_two(NODE_AND_LEFT, b.left, NODE_AND_RIGHT, b.right, st);
    lemma_decode_single(o, st, 9);
}

proof fn roundtrip_or(b: BinaryNode, st: Seq<SimpleStatement>)
    requires
        unmentioned(node_object(Node::Or(b)), st),
    ensures
        decode(node_object(Node::Or(b)), st) == Some(Node::Or(b)),
{
    let o = node_object(Node::Or(b));
    lemma_read_two(NODE_OR_LEFT, b.left, NODE_OR_RIGHT, b.right, st);
    lemma_decode_single(o, st, 10);
}

proof fn roundtrip_equal(b: BinaryNode, st: Seq<SimpleStatement>)
    requires
        unmentioned(node_object(Node::Equal(b)), st),
    ensures
        decode(node_object(Node::Equal(b)), st) == Some(Node::Equal(b)),
{
    let o = node_object(Node::Equal(b));
    lemma_read_two(NODE_EQUAL_LEFT, b.left, NODE_EQUAL_RIGHT, b.right, st);
    lemma_decode_single(o, st, 11);
}

proof fn roundtrip_xor(b: BinaryNode, st: Seq<SimpleStatement>)
    requires
        unmentioned(node_object(Node::Xor(b)), st),
    ensures
        decode(node_object(Node::Xor(b)), st) == Some(Node::Xor(b)),
{
    let o = node_object(Node::Xor(b));
    lemma_read_two(NODE_XOR_LEFT, b.left, NODE_XOR_RIGHT, b.right, st);
    lemma_decode_single(o, st, 12);
}

proof fn roundtrip_add(b: BinaryNode, st: Seq<SimpleStatement>)
    requires
        unmentioned(node_object(Node::Add(b)), st),
    ensures
        decode(node_object(Node::Add(b)), st) == Some(Node::Add(b)),
{
    let o = node_object(Node::Add(b));
    lemma_read_two(NODE_ADD_LEFT, b.left, NODE_ADD_RIGHT, b.right, st);
    lemma_decode_single(o, st, 13);
}

proof fn roundtrip_union(b: BinaryNode, st: Seq<SimpleStatement>)
    requires
        unmentioned(node_object(Node::Union(b)), st),
    ensures
        decode(node_object(Node::Union(b)), st) == Some(Node::Union(b)),
{
    let o = node_object(Node::Union(b));
    lemma_read_two(NODE_UNION_LEFT, b.left, NODE_UNION_RIGHT, b.right, st);
    lemma_decode_single(o, st, 14);
}

proof fn roundtrip_mapping(m: MapNode, st: Seq<SimpleStatement>)
    requires
        unmentioned(node_object(Node::Mapping(m)), st),
    ensures
        decode(node_object(Node::Mapping(m)), st) == Some(Node::Mapping(m)),
{
    let o = node_object(Node::Mapping(m));
    lemma_read_two(NODE_MAP_SET, m.set, NODE_MAP_MAPPER, m.mapper_function, st);
    lemma_decode_single(o, st, 15);
}

proof fn roundtrip_filter(f: FilterNode, st: Seq<SimpleStatement>)
    requires
        unmentioned(node_object(Node::Filter(f)), st),
    ensures
        decode(node_object(Node::Filter(f)), st) == Some(Node::Filter(f)),
{
    let o = node_object(Node::Filter(f));
    lemma_read_two(NODE_FILTER_SET, f.set, NODE_FILTER_FILTER, f.filter_function, st);
    lemma_decode_single(o, st, 16);
}

proof fn roundtrip_less(b: BinaryNode, st: Seq<SimpleStatement>)
    requires
        unmentioned(node_object(Node::Less(b)), st),
    ensures
        decode(node_object(Node::Less(b)), st) == Some(Node::Less(b)),
{
    let o = node_object(Node::Less(b));
    lemma_read_two(NODE_LESS_LEFT, b.left, NODE_LESS_RIGHT, b.right, st);
    lemma_decode_single(o, st, 17);
}

proof fn roundtrip_if(i: IfNode, st: Seq<SimpleStatement>)
    requires
        unmentioned(node_object(Node::If(i)), st),
    ensures
        decode(node_object(Node::If(i)), st) == Some(Node::If(i)),
{
    let o = node_object(Node::If(i));
    lemma_read_three(NODE_IF_CONDITION, i.condition, NODE_IF_THEN, i.then_branch, NODE_IF_ELSE, i.otherwise, st);
    lemma_decode_single(o, st, 18);
}

proof fn roundtrip_unwrap_or(u: UnwrapOrNode, st: Seq<SimpleStatement>)
    requires
        unmentioned(node_object(Node::UnwrapOr(u)), st),
    ensures
        decode(node_object(Node::UnwrapOr(u)), st) == Some(Node::UnwrapOr(u)),
{
    let o = node_object(Node::UnwrapOr(u));
    lemma_read_two(NODE_UNWRAP_OR_SET, u.set, NODE_UNWRAP_OR_DEFAULT, u.default, st);
    lemma_decode_single(o, st, 19);
}

proof fn roundtrip_multiply(b: BinaryNode, st: Seq<SimpleStatement>)
    requires
        unmentioned(node_object(Node::Multiply(b)), st),
    ensures
        decode(node_object(Node::Multiply(b)), st) == Some(Node::Multiply(b)),
{
    let o = node_object(Node::Multiply(b));
    lemma_read_two(NODE_MULTIPLY_LEFT, b.left, NODE_MULTIPLY_RIGHT, b.right, st);
    lemma_decode_single(o, st, 20);
}

proof fn roundtrip_is_abstract(x: Object, st: Seq<SimpleStatement>)
    requires
        unmentioned(node_object(Node::IsAbstract(x)), st),
    ensures
        decode(node_object(Node::IsAbstract(x)), st) == Some(Node::IsAbstract(x)),
{
    let o = node_object(Node::IsAbstract(x));
    lemma_read_one(NODE_IS_ABSTRACT, x, st);
    lemma_decode_single(o, st, 21);
}

proof fn roundtrip_every(p: PredicateNode, st: Seq<SimpleStatement>)
    requires
        unmentioned(node_object(Node::Every(p)), st),
    ensures
        decode(node_object(Node::Every(p)), st) == Some(Node::Every(p)),
{
    let o = node_object(Node::Every(p));
    lemma_read_two(NODE_EVERY_SET, p.set, NODE_EVERY_PREDICATE, p.predicate, st);
    lemma_decode_single(o, st, 22);
}

proof fn roundtrip_any(p: PredicateNode, st: Seq<SimpleStatement>)
    requires
        unmentioned(node_object(Node::Any(p)), st),
    ensures
        decode(node_object(Node::Any(p)), st) == Some(Node::Any(p)),
{
    let o = node_object(Node::Any(p));
    lemma_read_two(NODE_ANY_SET, p.set, NODE_ANY_PREDICATE, p.predicate, st);
    lemma_decode_single(o, st, 23);
}


/// When all nodes are `None`, so is their combination.
proof fn lemma_xor_fold_none(ks: Seq<Option<Node>>)
    requires
        forall|i: int| 0 <= i < ks.len() ==> ks[i] is None,
    ensures
        xor_fold(ks) == Some(None::<Node>),
    decreases ks.len(),
{
    if ks.len() > 0 {
        assert(ks.last() is None);
        lemma_xor_fold_none(ks.drop_last());
    }
}

/// Whether `t` is a tag that some kind of node is read from first.
pub open spec fn is_node_tag(t: u128) -> bool {
    ||| t == FUNCTION
    ||| t == NODE_LITERAL
    ||| t == NODE_FUNCTION_SELF
    ||| t == NODE_PARAMETER
    ||| t == NODE_CALL_CALLEE
    ||| t == NODE_COUNT
    ||| t == NODE_QUERY_SUBJECT
    ||| t == NODE_QUERY_TAG
    ||| t == NODE_QUERY_VALUE
    ||| t == NODE_NOT
    ||| t == NODE_AND_LEFT
    ||| t == NODE_OR_LEFT
    ||| t == NODE_EQUAL_LEFT
    ||| t == NODE_XOR_LEFT
    ||| t == NODE_ADD_LEFT
    ||| t == NODE_UNION_LEFT
    ||| t == NODE_MAP_SET
    ||| t == NODE_FILTER_SET
    ||| t == NODE_LESS_LEFT
    ||| t == NODE_IF_CONDITION
    ||| t == NODE_UNWRAP_OR_SET
    ||| t == NODE_MULTIPLY_LEFT
    ||| t == NODE_IS_ABSTRACT
    ||| t == NODE_EVERY_SET
    ||| t == NODE_ANY_SET
}

/// An object that is not the statements node and has no values on the
/// tags that nodes are read from reads as no node.
pub proof fn lemma_decode_plain(o: Object, st: Seq<SimpleStatement>)
    requires
        o != abs(NODE_STATEMENTS),
        forall|t: u128| is_node_tag(t) ==> #[trigger] query_values_spec(st, o, abs(t)).len() == 0,
    ensures
        decode(o, st) == None::<Node>,
{
    let ks = kinds(o, st);
    assert(ks.len() == 24);
    assert forall|i: int| 0 <= i < ks.len() implies ks[i] is None by {
        assert(query_values_spec(st, o, abs(FUNCTION)).len() == 0);
        assert(query_values_spec(st, o, abs(NODE_LITERAL)).len() == 0);
        assert(query_values_spec(st, o, abs(NODE_FUNCTION_SELF)).len() == 0);
        assert(query_values_spec(st, o, abs(NODE_PARAMETER)).len() == 0);
        assert(query_values_spec(st, o, abs(NODE_CALL_CALLEE)).len() == 0);
        assert(query_values_spec(st, o, abs(NODE_COUNT)).len() == 0);
        assert(query_values_spec(st, o, abs(NODE_QUERY_SUBJECT)).len() == 0);
        assert(query_values_spec(st, o, abs(NODE_QUERY_TAG)).len() == 0);
        assert(query_values_spec(st, o, abs(NODE_QUERY_VALUE)).len() == 0);
        assert(query_values_spec(st, o, abs(NODE_NOT)).len() == 0);
        assert(query_values_spec(st, o, abs(NODE_AND_LEFT)).len() == 0);
        assert(query_values_spec(st, o, abs(NODE_OR_LEFT)).len() == 0);
        assert(query_values_spec(st, o, abs(NODE_EQUAL_LEFT)).len() == 0);
        assert(query_values_spec(st, o, abs(NODE_XOR_LEFT)).len() == 0);
        assert(query_values_spec(st, o, abs(NODE_ADD_LEFT)).len() == 0);
        assert(query_values_spec(st, o, abs(NODE_UNION_LEFT)).len() == 0);
        assert(query_values_spec(st, o, abs(NODE_MAP_SET)).len() == 0);
        assert(query_values_spec(st, o, abs(NODE_FILTER_SET)).len() == 0);
        assert(query_values_spec(st, o, abs(NODE_LESS_LEFT)).len() == 0);
        assert(query_values_spec(st, o, abs(NODE_IF_CONDITION)).len() == 0);
        assert(query_values_spec(st, o, abs(NODE_UNWRAP_OR_SET)).len() == 0);
        assert(query_values_spec(st, o, abs(NODE_MULTIPLY_LEFT)).len() == 0);
        assert(query_values_spec(st, o, abs(NODE_IS_ABSTRACT)).len() == 0);
        assert(query_values_spec(st, o, abs(NODE_EVERY_SET)).len() == 0);
        assert(query_values_spec(st, o, abs(NODE_ANY_SET)).len() == 0);
    }
    lemma_xor_fold_none(ks);
}

/// Writing a node down as an object and reading the object back gives the
/// node, when no statement is about that object.
pub proof fn law_node_roundtrip(n: Node, st: Seq<SimpleStatement>)
    requires
        unmentioned(node_object(n), st),
    ensures
        decode(node_object(n), st) == Some(n),
{
    match n {
        Node::Function(body) => roundtrip_function(body, st),
        Node::Literal(l) => roundtrip_literal(l, st),
        Node::FunctionSelf(d) => roundtrip_function_self(d, st),
        Node::Parameter(d) => roundtrip_parameter(d, st),
        Node::Call(c) => roundtrip_call(c, st),
        Node::Count(c) => roundtrip_count(c, st),
        Node::QueryExists(q) => roundtrip_query_exists(q, st),
        Node::QuerySubjects(q) => roundtrip_query_subjects(q, st),
        Node::QueryTags(q) => roundtrip_query_tags(q, st),
        Node::QueryValues(q) => roundtrip_query_values(q, st),
        Node::QuerySubjectsAndTags(q) => roundtrip_query_subjects_and_tags(q, st),
        Node::QueryTagsAndValues(q) => roundtrip_query_tags_and_values(q, st),
        Node::QuerySubjectsAndValues(q) => roundtrip_query_subjects_and_values(q, st),
        Node::Statements => roundtrip_statements(st),
        Node::Not(x) => roundtrip_not(x, st),
        Node::And(b) => roundtrip_and(b, st),
        Node::Or(b) => roundtrip_or(b, st),
        Node::Equal(b) => roundtrip_equal(b, st),
        Node::Xor(b) => roundtrip_xor(b, st),
        Node::Add(b) => roundtrip_add(b, st),
        Node::Union(b) => roundtrip_union(b, st),
        Node::Mapping(m) => roundtrip_mapping(m, st),
        Node::Filter(f) => roundtrip_filter(f, st),
        Node::Less(b) => roundtrip_less(b, st),
        Node::If(i) => roundtrip_if(i, st),
        Node::UnwrapOr(u) => roundtrip_unwrap_or(u, st),
        Node::Multiply(b) => roundtrip_multiply(b, st),
        Node::IsAbstract(x) => roundtrip_is_abstract(x, st),
        Node::Every(p) => roundtrip_every(p, st),
        Node::Any(p) => roundtrip_any(p, st),
    }
}

} // verus!
