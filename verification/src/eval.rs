//! Evaluation of expression objects under a store of statements.
//!
//! An object that reads as a node is evaluated by its kind; a structure
//! that is no node has each of its values evaluated; anything else is its
//! own value. Calls push the callee and its parameter onto an evaluation
//! context, from which parameter and self references are looked up.

use vstd::prelude::*;

use crate::abstracts::{AXIOMATIC, CONTAINS, FUNCTION};
use crate::nodes::{BinaryNode, Node, node_object};
use crate::object::{Abstract, Object, Property, Structure, abs, values_of};
use crate::object::integer::integer;
use crate::nodes::one;
use crate::object::{canonical, insert_sorted, lemma_structure_of};
use crate::parse::{
    decode, fuel_limit, law_integer_reads_back, law_node_roundtrip, lemma_decode_plain, lemma_read_one, lemma_stated_none, sv, to_integer_spec,
    unmentioned,
};
use crate::abstracts::{ARITHMETIC_OVERFLOW, UNDEFINED};
use crate::statements::{
    SimpleStatement, Statements, all_statements_spec, contains_object, query_subjects_and_tags_spec,
    query_subjects_and_values_spec, query_subjects_spec, query_tags_and_values_spec, query_tags_spec,
    query_values_spec,
};

verus! {

/// What an evaluation yields: an object, or the items of a set.
#[derive(Debug)]
pub enum ObjectOrSetValues {
    Object(Object),
    SetValues(Vec<Object>),
}

/// The meaning of an [`ObjectOrSetValues`]: an object, or a sequence of
/// set items.
pub enum Val {
    Obj(Object),
    Items(Seq<Object>),
}

impl View for ObjectOrSetValues {
    type V = Val;

    open spec fn view(&self) -> Val {
        match self {
            ObjectOrSetValues::Object(o) => Val::Obj(*o),
            ObjectOrSetValues::SetValues(v) => Val::Items(v@),
        }
    }
}

/// A called function and the value of its parameter.
#[derive(Debug)]
pub struct FunctionContext {
    pub function: Object,
    pub parameter: ObjectOrSetValues,
}

/// The meaning of a [`FunctionContext`].
pub struct Frame {
    pub function: Object,
    pub parameter: Val,
}

impl View for FunctionContext {
    type V = Frame;

    open spec fn view(&self) -> Frame {
        Frame { function: self.function, parameter: self.parameter@ }
    }
}

/// A stack of function contexts, innermost last. Parameters are looked up
/// here by their depth instead of being captured on every call.
#[derive(Debug)]
pub struct EvaluationContext {
    stack: Vec<FunctionContext>,
}

impl View for EvaluationContext {
    type V = Seq<Frame>;

    closed spec fn view(&self) -> Seq<Frame> {
        self.stack@.map_values(|f: FunctionContext| f@)
    }
}

/// A constraint on an object: any object, or a specific one.
#[derive(Debug, PartialEq)]
pub enum ObjectForm {
    Any,
    Specific(Object),
}

/// A form of statement, each part constrained.
#[derive(Debug, PartialEq)]
pub struct StatementForm {
    pub subject: ObjectForm,
    pub tag: ObjectForm,
    pub value: ObjectForm,
}

/// Why an object is not valid under a store of statements.
#[derive(Debug, PartialEq)]
pub enum KnowledgeError {
    IsNotSupersetOfBase,
    SubjectIsNotStatementComposite(Object),
    NeedsToBeTrueButIsFalse(StatementForm),
    NeedsToBeFalseButIsTrue(StatementForm),
    ValueOnSubjectDoesNotMatchTagsConstraint { subject: Object, tag: Object, value: Object },
}

/// The empty structure.
pub open spec fn empty_object() -> Object {
    Object::Structure(Structure::of(Seq::empty()))
}

/// The parameter `d` frames below the innermost one; the empty structure
/// when there is no such frame.
pub open spec fn param_val(c: Seq<Frame>, d: int) -> Val {
    if 0 <= d < c.len() {
        c[c.len() - 1 - d].parameter
    } else {
        Val::Obj(empty_object())
    }
}

/// The function `d` frames below the innermost one; the empty structure
/// when there is no such frame.
pub open spec fn self_val(c: Seq<Frame>, d: int) -> Object {
    if 0 <= d < c.len() {
        c[c.len() - 1 - d].function
    } else {
        empty_object()
    }
}

/// The context after the innermost frame is dropped.
pub open spec fn pop_spec(c: Seq<Frame>) -> Seq<Frame> {
    if c.len() > 0 {
        c.drop_last()
    } else {
        c
    }
}

/// The `CONTAINS` properties of the items `s`.
pub open spec fn contains_props(s: Seq<Object>) -> Seq<Property> {
    s.map_values(|o: Object| Property { tag: abs(CONTAINS), value: o })
}

/// The set structure holding the items `s`.
pub open spec fn set_object(s: Seq<Object>) -> Object {
    Object::Structure(Structure::of(contains_props(s)))
}

/// The value as an object: a set becomes the structure holding its items.
pub open spec fn into_object_spec(v: Val) -> Object {
    match v {
        Val::Obj(o) => o,
        Val::Items(s) => set_object(s),
    }
}

/// The items of the value read as a set.
pub open spec fn items(v: Val, st: Seq<SimpleStatement>) -> Seq<Object> {
    match v {
        Val::Obj(o) => query_values_spec(st, o, abs(CONTAINS)),
        Val::Items(s) => s,
    }
}

/// A value is truthy when, read as a set, it has an item.
pub open spec fn truthy_val(v: Val, st: Seq<SimpleStatement>) -> bool {
    items(v, st).len() > 0
}

/// `true` is the set holding the empty structure, `false` the empty
/// structure.
pub open spec fn bool_value(b: bool) -> Object {
    if b {
        set_object(seq![empty_object()])
    } else {
        empty_object()
    }
}

/// The items of `s` with every element that occurred earlier removed.
pub open spec fn distinct(s: Seq<Object>) -> Seq<Object>
    decreases s.len(),
{
    if s.len() == 0 {
        Seq::empty()
    } else {
        let rest = distinct(s.drop_last());
        if rest.contains(s.last()) {
            rest
        } else {
            rest.push(s.last())
        }
    }
}

/// The number of distinct items of the value read as a set.
pub open spec fn count_val(v: Val, st: Seq<SimpleStatement>) -> nat {
    distinct(items(v, st)).len()
}

/// The sum of two objects read as integers.
pub open spec fn plus(a: Object, b: Object, st: Seq<SimpleStatement>) -> Object {
    match (to_integer_spec(a, st), to_integer_spec(b, st)) {
        (Some(x), Some(y)) => if i128::MIN <= x + y <= i128::MAX {
            integer(x + y)
        } else {
            abs(ARITHMETIC_OVERFLOW)
        },
        _ => abs(UNDEFINED),
    }
}

/// The product of two objects read as integers.
pub open spec fn times(a: Object, b: Object, st: Seq<SimpleStatement>) -> Object {
    match (to_integer_spec(a, st), to_integer_spec(b, st)) {
        (Some(x), Some(y)) => if i128::MIN <= x * y <= i128::MAX {
            integer(x * y)
        } else {
            abs(ARITHMETIC_OVERFLOW)
        },
        _ => abs(UNDEFINED),
    }
}

/// Whether `left` is less than `right`: as integers when both are objects
/// that read as integers, by their number of distinct items otherwise.
pub open spec fn less_val(left: Val, right: Val, st: Seq<SimpleStatement>) -> bool {
    match (left, right) {
        (Val::Obj(a), Val::Obj(b)) => match (to_integer_spec(a, st), to_integer_spec(b, st)) {
            (Some(x), Some(y)) => x < y,
            _ => count_val(left, st) < count_val(right, st),
        },
        _ => count_val(left, st) < count_val(right, st),
    }
}

/// Whether the value is an abstract object.
pub open spec fn is_abstract_val(v: Val) -> bool {
    match v {
        Val::Obj(Object::Abstract(_)) => true,
        _ => false,
    }
}

/// The outcome of evaluating `o` under `st` in the context `c`, with at
/// most `fuel` steps: the value and the context afterwards; `None` when
/// the steps run out or a called object has no function body. A call node
/// pushes the function and its argument, and drops that frame once the
/// body is evaluated, so that what follows the call reads the caller's
/// parameters: the base's constraint on `SUCCESSOR_OF` calls a function
/// before it reads its subject one frame out, and the base is knowledge
/// only so.
pub open spec fn eval_fuel(fuel: nat, o: Object, st: Seq<SimpleStatement>, c: Seq<Frame>) -> Option<(Val, Seq<Frame>)>
    decreases fuel, 0nat,
{
    if fuel == 0 {
        None
    } else {
        let f = (fuel - 1) as nat;
        match decode(o, st) {
            Some(Node::IsAbstract(inner)) => match eval_fuel(f, inner, st, c) {
                Some((v, c1)) => Some((Val::Obj(bool_value(is_abstract_val(v))), c1)),
                None => None,
            },
            Some(Node::Call(n)) => match eval_two(f, n.with, n.callee, st, c) {
                Some((p, g, c2)) => {
                    let callee = into_object_spec(g);
                    match sv(callee, st, FUNCTION) {
                        Some(body) => match eval_fuel(f, body, st, c2.push(Frame { function: callee, parameter: p })) {
                            Some((r, c3)) => Some((r, pop_spec(c3))),
                            None => None,
                        },
                        None => None,
                    }
                },
                None => None,
            },
            Some(Node::Multiply(b)) => match eval_two(f, b.left, b.right, st, c) {
                Some((l, r, c1)) => Some((Val::Obj(times(into_object_spec(l), into_object_spec(r), st)), c1)),
                None => None,
            },
            Some(Node::UnwrapOr(n)) => match eval_fuel(f, n.set, st, c) {
                Some((s, c1)) => if items(s, st).len() == 1 {
                    Some((Val::Obj(items(s, st)[0]), c1))
                } else {
                    eval_fuel(f, n.default, st, c1)
                },
                None => None,
            },
            Some(Node::Function(_)) => match capture_fuel(f, o, st, 0, c) {
                Some(captured) => Some((Val::Obj(captured), c)),
                None => None,
            },
            Some(Node::Literal(x)) => Some((Val::Obj(x), c)),
            Some(Node::And(b)) => match eval_fuel(f, b.left, st, c) {
                Some((l, c1)) => if truthy_val(l, st) {
                    match eval_fuel(f, b.right, st, c1) {
                        Some((r, c2)) => Some((Val::Obj(bool_value(truthy_val(r, st))), c2)),
                        None => None,
                    }
                } else {
                    Some((Val::Obj(bool_value(false)), c1))
                },
                None => None,
            },
            Some(Node::FunctionSelf(d)) => Some((Val::Obj(self_val(c, d as int)), c)),
            Some(Node::Parameter(d)) => Some((param_val(c, d as int), c)),
            Some(Node::Count(x)) => match eval_fuel(f, x, st, c) {
                Some((v, c1)) => Some((Val::Obj(integer(count_val(v, st) as int)), c1)),
                None => None,
            },
            Some(Node::QueryExists(q)) => match eval_three(f, q.subject, q.tag, q.value, st, c) {
                Some((s, t, v, c1)) => Some((
                    Val::Obj(bool_value(query_values_spec(st, into_object_spec(s), into_object_spec(t)).contains(into_object_spec(v)))),
                    c1,
                )),
                None => None,
            },
            Some(Node::QueryValues(q)) => match eval_two(f, q.subject, q.tag, st, c) {
                Some((s, t, c1)) => Some((Val::Items(query_values_spec(st, into_object_spec(s), into_object_spec(t))), c1)),
                None => None,
            },
            Some(Node::QuerySubjects(q)) => match eval_two(f, q.tag, q.value, st, c) {
                Some((t, v, c1)) => Some((Val::Items(query_subjects_spec(st, into_object_spec(t), into_object_spec(v))), c1)),
                None => None,
            },
            Some(Node::QueryTags(q)) => match eval_two(f, q.subject, q.value, st, c) {
                Some((s, v, c1)) => Some((Val::Items(query_tags_spec(st, into_object_spec(s), into_object_spec(v))), c1)),
                None => None,
            },
            Some(Node::QuerySubjectsAndTags(q)) => match eval_fuel(f, q.value, st, c) {
                Some((v, c1)) => Some((Val::Items(query_subjects_and_tags_spec(st, into_object_spec(v))), c1)),
                None => None,
            },
            Some(Node::QuerySubjectsAndValues(q)) => match eval_fuel(f, q.tag, st, c) {
                Some((t, c1)) => Some((Val::Items(query_subjects_and_values_spec(st, into_object_spec(t))), c1)),
                None => None,
            },
            Some(Node::QueryTagsAndValues(q)) => match eval_fuel(f, q.subject, st, c) {
                Some((s, c1)) => Some((Val::Items(query_tags_and_values_spec(st, into_object_spec(s))), c1)),
                None => None,
            },
            Some(Node::Statements) => Some((Val::Items(all_statements_spec(st)), c)),
            Some(Node::Equal(b)) => match eval_two(f, b.left, b.right, st, c) {
                Some((l, r, c1)) => Some((Val::Obj(bool_value(into_object_spec(l) == into_object_spec(r))), c1)),
                None => None,
            },
            Some(Node::Or(b)) => match eval_fuel(f, b.left, st, c) {
                Some((l, c1)) => if truthy_val(l, st) {
                    Some((Val::Obj(bool_value(true)), c1))
                } else {
                    match eval_fuel(f, b.right, st, c1) {
                        Some((r, c2)) => Some((Val::Obj(bool_value(truthy_val(r, st))), c2)),
                        None => None,
                    }
                },
                None => None,
            },
            Some(Node::Xor(b)) => match eval_two(f, b.left, b.right, st, c) {
                Some((l, r, c1)) => Some((Val::Obj(bool_value(truthy_val(l, st) != truthy_val(r, st))), c1)),
                None => None,
            },
            Some(Node::Not(x)) => match eval_fuel(f, x, st, c) {
                Some((v, c1)) => Some((Val::Obj(bool_value(!truthy_val(v, st))), c1)),
                None => None,
            },
            Some(Node::Add(b)) => match eval_two(f, b.left, b.right, st, c) {
                Some((l, r, c1)) => Some((Val::Obj(plus(into_object_spec(l), into_object_spec(r), st)), c1)),
                None => None,
            },
            Some(Node::Union(b)) => match eval_two(f, b.left, b.right, st, c) {
                Some((l, r, c1)) => Some((Val::Items(items(l, st) + items(r, st)), c1)),
                None => None,
            },
            Some(Node::Mapping(m)) => match eval_two(f, m.set, m.mapper_function, st, c) {
                Some((s, g, c1)) => match map_items(f, into_object_spec(g), items(s, st), st) {
                    Some(out) => Some((Val::Items(out), c1)),
                    None => None,
                },
                None => None,
            },
            Some(Node::Filter(m)) => match eval_two(f, m.set, m.filter_function, st, c) {
                Some((s, g, c1)) => match filter_items(f, into_object_spec(g), items(s, st), st) {
                    Some(out) => Some((Val::Items(out), c1)),
                    None => None,
                },
                None => None,
            },
            Some(Node::Every(p)) => match eval_two(f, p.set, p.predicate, st, c) {
                Some((s, g, c1)) => match every_items(f, into_object_spec(g), items(s, st), st, c1) {
                    Some((b, c2)) => Some((Val::Obj(bool_value(b)), c2)),
                    None => None,
                },
                None => None,
            },
            Some(Node::Any(p)) => match eval_two(f, p.set, p.predicate, st, c) {
                Some((s, g, c1)) => match any_items(f, into_object_spec(g), items(s, st), st, c1) {
                    Some((b, c2)) => Some((Val::Obj(bool_value(b)), c2)),
                    None => None,
                },
                None => None,
            },
            Some(Node::Less(b)) => match eval_two(f, b.left, b.right, st, c) {
                Some((l, r, c1)) => Some((Val::Obj(bool_value(less_val(l, r, st))), c1)),
                None => None,
            },
            Some(Node::If(n)) => match eval_fuel(f, n.condition, st, c) {
                Some((v, c1)) => if truthy_val(v, st) {
                    eval_fuel(f, n.then_branch, st, c1)
                } else {
                    eval_fuel(f, n.otherwise, st, c1)
                },
                None => None,
            },
            None => match o {
                Object::Structure(s) => if s.seq().len() == 0 {
                    Some((Val::Obj(o), c))
                } else {
                    match eval_props(f, s.seq(), st, c) {
                        Some((Some(ps), c1)) => Some((Val::Obj(Object::Structure(Structure::of(ps))), c1)),
                        Some((None, c1)) => Some((Val::Obj(empty_object()), c1)),
                        None => None,
                    }
                },
                _ => Some((Val::Obj(o), c)),
            },
        }
    }
}

/// Evaluates `a`, then `b`.
pub open spec fn eval_two(fuel: nat, a: Object, b: Object, st: Seq<SimpleStatement>, c: Seq<Frame>) -> Option<(Val, Val, Seq<Frame>)>
    decreases fuel, 1nat,
{
    match eval_fuel(fuel, a, st, c) {
        Some((x, c1)) => match eval_fuel(fuel, b, st, c1) {
            Some((y, c2)) => Some((x, y, c2)),
            None => None,
        },
        None => None,
    }
}

/// Evaluates `a`, then `b`, then `d`.
pub open spec fn eval_three(fuel: nat, a: Object, b: Object, d: Object, st: Seq<SimpleStatement>, c: Seq<Frame>) -> Option<(Val, Val, Val, Seq<Frame>)>
    decreases fuel, 2nat,
{
    match eval_two(fuel, a, b, st, c) {
        Some((x, y, c1)) => match eval_fuel(fuel, d, st, c1) {
            Some((z, c2)) => Some((x, y, z, c2)),
            None => None,
        },
        None => None,
    }
}

/// Evaluates the values of the properties `ps` in order. A value that
/// changed has to be valid; the first one that is not makes the outcome
/// `None` inside.
pub open spec fn eval_props(fuel: nat, ps: Seq<Property>, st: Seq<SimpleStatement>, c: Seq<Frame>) -> Option<(Option<Seq<Property>>, Seq<Frame>)>
    decreases fuel, 0nat,
{
    if fuel == 0 {
        None
    } else if ps.len() == 0 {
        Some((Some(Seq::empty()), c))
    } else {
        let f = (fuel - 1) as nat;
        match eval_fuel(f, ps[0].value, st, c) {
            Some((v, c1)) => {
                let value = into_object_spec(v);
                let check = if value == ps[0].value { Some(Ok(())) } else { valid_fuel(f, value, st, false) };
                match check {
                    Some(Ok(())) => match eval_props(f, ps.drop_first(), st, c1) {
                        Some((Some(rest), c2)) => Some((Some(seq![Property { tag: ps[0].tag, value }] + rest), c2)),
                        Some((None, c2)) => Some((None, c2)),
                        None => None,
                    },
                    Some(Err(_)) => Some((None, c1)),
                    None => None,
                }
            },
            None => None,
        }
    }
}

/// The outcome of capturing `o` at `add` functions below the evaluation:
/// parameters that refer to the context are replaced by their values, as
/// literals.
pub open spec fn capture_fuel(fuel: nat, o: Object, st: Seq<SimpleStatement>, add: nat, c: Seq<Frame>) -> Option<Object>
    decreases fuel, 0nat,
{
    if fuel == 0 {
        None
    } else {
        let f = (fuel - 1) as nat;
        match decode(o, st) {
            Some(Node::Function(body)) => match capture_fuel(f, body, st, add + 1, c) {
                Some(b) => Some(node_object(Node::Function(b))),
                None => None,
            },
            Some(Node::Parameter(d)) => if d >= add {
                Some(node_object(Node::Literal(into_object_spec(param_val(c, d - add)))))
            } else {
                Some(o)
            },
            _ => match o {
                Object::Structure(s) => if s.seq().len() == 0 {
                    Some(o)
                } else {
                    match capture_props(f, s.seq(), st, add, c) {
                        Some(Some(ps)) => Some(Object::Structure(Structure::of(ps))),
                        Some(None) => Some(empty_object()),
                        None => None,
                    }
                },
                _ => Some(o),
            },
        }
    }
}

/// Captures the values of the properties `ps` in order; a value that
/// changed has to be valid.
pub open spec fn capture_props(fuel: nat, ps: Seq<Property>, st: Seq<SimpleStatement>, add: nat, c: Seq<Frame>) -> Option<Option<Seq<Property>>>
    decreases fuel, 0nat,
{
    if fuel == 0 {
        None
    } else if ps.len() == 0 {
        Some(Some(Seq::empty()))
    } else {
        let f = (fuel - 1) as nat;
        match capture_fuel(f, ps[0].value, st, add, c) {
            Some(value) => {
                let check = if value == ps[0].value { Some(Ok(())) } else { valid_fuel(f, value, st, false) };
                match check {
                    Some(Ok(())) => match capture_props(f, ps.drop_first(), st, add, c) {
                        Some(Some(rest)) => Some(Some(seq![Property { tag: ps[0].tag, value }] + rest)),
                        Some(None) => Some(None),
                        None => None,
                    },
                    Some(Err(_)) => Some(None),
                    None => None,
                }
            },
            None => None,
        }
    }
}

/// The outcome of checking `o` against the constraints of its tags: each
/// property's tag needs an `AXIOMATIC` constraint function, which, called
/// with the structure and the value, has to give a truthy result; with
/// `recursive`, the tags and values are checked too.
pub open spec fn valid_fuel(fuel: nat, o: Object, st: Seq<SimpleStatement>, recursive: bool) -> Option<Result<(), KnowledgeError>>
    decreases fuel, 0nat,
{
    if fuel == 0 {
        None
    } else {
        match o {
            Object::Structure(s) => if s.seq().len() == 0 {
                Some(Ok(()))
            } else {
                valid_props((fuel - 1) as nat, s, s.seq(), st, recursive)
            },
            _ => Some(Ok(())),
        }
    }
}

/// Checks the properties `ps` of `s` in order.
pub open spec fn valid_props(fuel: nat, s: Structure, ps: Seq<Property>, st: Seq<SimpleStatement>, recursive: bool) -> Option<Result<(), KnowledgeError>>
    decreases fuel, 0nat,
{
    if fuel == 0 {
        None
    } else if ps.len() == 0 {
        Some(Ok(()))
    } else {
        let f = (fuel - 1) as nat;
        let p = ps[0];
        let constraints = query_values_spec(st, p.tag, abs(AXIOMATIC));
        if constraints.len() == 0 {
            Some(Err(KnowledgeError::NeedsToBeTrueButIsFalse(StatementForm {
                subject: ObjectForm::Specific(p.tag),
                tag: ObjectForm::Specific(abs(AXIOMATIC)),
                value: ObjectForm::Any,
            })))
        } else {
            match call_fuel(f, constraints[0], st, seq![Val::Obj(Object::Structure(s)), Val::Obj(p.value)], Seq::empty()) {
                Some((r, _)) => if !truthy_val(r, st) {
                    Some(Err(KnowledgeError::ValueOnSubjectDoesNotMatchTagsConstraint {
                        subject: Object::Structure(s),
                        tag: p.tag,
                        value: p.value,
                    }))
                } else if recursive {
                    match valid_fuel(f, p.tag, st, true) {
                        Some(Ok(())) => match valid_fuel(f, p.value, st, true) {
                            Some(Ok(())) => valid_props(f, s, ps.drop_first(), st, recursive),
                            other => other,
                        },
                        other => other,
                    }
                } else {
                    valid_props(f, s, ps.drop_first(), st, recursive)
                },
                None => None,
            }
        }
    }
}

/// The outcome of calling `o` with the parameters `ps`: while there are
/// parameters and `o` is a function, the function and the first parameter
/// are pushed, its body is called with the rest, and a frame is dropped
/// afterwards; then what is left is evaluated with the steps that remain.
pub open spec fn call_fuel(fuel: nat, o: Object, st: Seq<SimpleStatement>, ps: Seq<Val>, c: Seq<Frame>) -> Option<(Val, Seq<Frame>)>
    decreases fuel, 1nat,
{
    match decode(o, st) {
        Some(Node::Function(body)) => if ps.len() > 0 {
            if fuel == 0 {
                None
            } else {
                match call_fuel((fuel - 1) as nat, body, st, ps.drop_first(), c.push(Frame { function: o, parameter: ps[0] })) {
                    Some((r, c1)) => Some((r, pop_spec(c1))),
                    None => None,
                }
            }
        } else {
            eval_fuel(fuel, o, st, c)
        },
        _ => eval_fuel(fuel, o, st, c),
    }
}

/// The results of calling `m` with each item, each in a fresh context.
pub open spec fn map_items(fuel: nat, m: Object, its: Seq<Object>, st: Seq<SimpleStatement>) -> Option<Seq<Object>>
    decreases fuel, 0nat,
{
    if fuel == 0 {
        None
    } else if its.len() == 0 {
        Some(Seq::empty())
    } else {
        let f = (fuel - 1) as nat;
        match call_fuel(f, m, st, seq![Val::Obj(its[0])], Seq::empty()) {
            Some((r, _)) => match map_items(f, m, its.drop_first(), st) {
                Some(rest) => Some(seq![into_object_spec(r)] + rest),
                None => None,
            },
            None => None,
        }
    }
}

/// The items for which calling `g`, each in a fresh context, is truthy.
pub open spec fn filter_items(fuel: nat, g: Object, its: Seq<Object>, st: Seq<SimpleStatement>) -> Option<Seq<Object>>
    decreases fuel, 0nat,
{
    if fuel == 0 {
        None
    } else if its.len() == 0 {
        Some(Seq::empty())
    } else {
        let f = (fuel - 1) as nat;
        match call_fuel(f, g, st, seq![Val::Obj(its[0])], Seq::empty()) {
            Some((r, _)) => match filter_items(f, g, its.drop_first(), st) {
                Some(rest) => Some(if truthy_val(r, st) { seq![its[0]] + rest } else { rest }),
                None => None,
            },
            None => None,
        }
    }
}

/// Whether calling `p` with each item, in order and in the context, is
/// truthy; stops at the first item for which it is not.
pub open spec fn every_items(fuel: nat, p: Object, its: Seq<Object>, st: Seq<SimpleStatement>, c: Seq<Frame>) -> Option<(bool, Seq<Frame>)>
    decreases fuel, 0nat,
{
    if fuel == 0 {
        None
    } else if its.len() == 0 {
        Some((true, c))
    } else {
        let f = (fuel - 1) as nat;
        match call_fuel(f, p, st, seq![Val::Obj(its[0])], c) {
            Some((r, c1)) => if truthy_val(r, st) {
                every_items(f, p, its.drop_first(), st, c1)
            } else {
                Some((false, c1))
            },
            None => None,
        }
    }
}

/// Whether calling `p` with some item, in order and in the context, is
/// truthy; stops at the first item for which it is.
pub open spec fn any_items(fuel: nat, p: Object, its: Seq<Object>, st: Seq<SimpleStatement>, c: Seq<Frame>) -> Option<(bool, Seq<Frame>)>
    decreases fuel, 0nat,
{
    if fuel == 0 {
        None
    } else if its.len() == 0 {
        Some((false, c))
    } else {
        let f = (fuel - 1) as nat;
        match call_fuel(f, p, st, seq![Val::Obj(its[0])], c) {
            Some((r, c1)) => if truthy_val(r, st) {
                Some((true, c1))
            } else {
                any_items(f, p, its.drop_first(), st, c1)
            },
            None => None,
        }
    }
}


/// The views of a sequence of evaluation results.
pub open spec fn vals(s: Seq<ObjectOrSetValues>) -> Seq<Val> {
    s.map_values(|x: ObjectOrSetValues| x@)
}

/// An optional vector of properties as an optional sequence.
pub open spec fn opt_props(r: Option<Vec<Property>>) -> Option<Seq<Property>> {
    match r {
        Some(v) => Some(v@),
        None => None,
    }
}

/// A copy of the objects of `v`.
fn clone_objects(v: &Vec<Object>) -> (r: Vec<Object>)
    ensures
        r@ == v@,
{
    let mut out: Vec<Object> = Vec::new();
    let mut i: usize = 0;
    while i < v.len()
        invariant
            i <= v@.len(),
            out@ == v@.take(i as int),
        decreases v@.len() - i,
    {
        out.push(v[i].duplicate());
        assert(out@ =~= v@.take(i as int + 1));
        i = i + 1;
    }
    assert(v@.take(i as int) =~= v@);
    out
}

/// The objects of `v` without repetitions, each where it first occurs.
fn distinct_objects(v: &Vec<Object>) -> (r: Vec<Object>)
    ensures
        r@ == distinct(v@),
{
    let mut out: Vec<Object> = Vec::new();
    let mut i: usize = 0;
    while i < v.len()
        invariant
            i <= v@.len(),
            out@ == distinct(v@.take(i as int)),
        decreases v@.len() - i,
    {
        assert(v@.take(i as int + 1).drop_last() =~= v@.take(i as int));
        assert(v@.take(i as int + 1).last() == v@[i as int]);
        if !contains_object(&out, &v[i]) {
            out.push(v[i].duplicate());
        }
        i = i + 1;
    }
    assert(v@.take(i as int) =~= v@);
    out
}

/// The set structure holding the items of `v`: one `CONTAINS` property each.
pub fn new_set(v: &Vec<Object>) -> (r: Object)
    ensures
        r == set_object(v@),
{
    let mut props: Vec<Property> = Vec::new();
    let mut i: usize = 0;
    while i < v.len()
        invariant
            i <= v@.len(),
            props@ == contains_props(v@.take(i as int)),
        decreases v@.len() - i,
    {
        props.push(Property { tag: Object::Abstract(Abstract(CONTAINS)), value: v[i].duplicate() });
        assert(props@ =~= contains_props(v@.take(i as int + 1)));
        i = i + 1;
    }
    assert(v@.take(i as int) =~= v@);
    Object::Structure(Structure::new(props))
}

/// `true` as the set holding the empty structure, `false` as the empty
/// structure.
pub fn new_bool(b: bool) -> (r: Object)
    ensures
        r == bool_value(b),
{
    if b {
        let mut items: Vec<Object> = Vec::new();
        items.push(Object::Structure(Structure::new(Vec::new())));
        assert(items@ =~= seq![empty_object()]);
        new_set(&items)
    } else {
        Object::Structure(Structure::new(Vec::new()))
    }
}

impl ObjectOrSetValues {
    /// A copy of the value.
    pub fn duplicate(&self) -> (r: ObjectOrSetValues)
        ensures
            r@ == self@,
    {
        match self {
            ObjectOrSetValues::Object(o) => ObjectOrSetValues::Object(o.duplicate()),
            ObjectOrSetValues::SetValues(v) => ObjectOrSetValues::SetValues(clone_objects(v)),
        }
    }

    /// The value as an object: a set becomes the structure holding its
    /// items.
    pub fn into_object(self) -> (r: Object)
        ensures
            r == into_object_spec(self@),
    {
        match self {
            ObjectOrSetValues::Object(o) => o,
            ObjectOrSetValues::SetValues(v) => new_set(&v),
        }
    }

    /// The items of the value read as a set.
    pub fn set_values(&self, st: &Statements) -> (r: Vec<Object>)
        ensures
            r@ == items(self@, st@),
    {
        match self {
            ObjectOrSetValues::Object(o) => o.set_values(st),
            ObjectOrSetValues::SetValues(v) => clone_objects(v),
        }
    }

    /// Whether the value, read as a set, has an item.
    pub fn is_truthy(&self, st: &Statements) -> (r: bool)
        ensures
            r == truthy_val(self@, st@),
    {
        self.set_values(st).len() > 0
    }

    /// The number of distinct items of the value read as a set.
    pub fn correct_count(&self, st: &Statements) -> (r: usize)
        ensures
            r == count_val(self@, st@),
    {
        let its = self.set_values(st);
        distinct_objects(&its).len()
    }
}

impl EvaluationContext {
    /// The empty context.
    pub fn new() -> (r: EvaluationContext)
        ensures
            r@ == Seq::<Frame>::empty(),
    {
        let r = EvaluationContext { stack: Vec::new() };
        assert(r@ =~= Seq::<Frame>::empty());
        r
    }

    /// The function context `relative_depth` frames below the innermost one.
    pub fn function_context(&self, relative_depth: usize) -> (r: Option<&FunctionContext>)
        ensures
            match r {
                Some(fc) => relative_depth < self@.len() && fc@ == self@[self@.len() - 1 - relative_depth],
                None => relative_depth >= self@.len(),
            },
    {
        let len = self.stack.len();
        if relative_depth < len {
            Some(&self.stack[len - 1 - relative_depth])
        } else {
            None
        }
    }

    /// The parameter `relative_depth` frames below the innermost one; the
    /// empty structure when there is no such frame.
    pub fn parameter_value(&self, relative_depth: usize) -> (r: ObjectOrSetValues)
        ensures
            r@ == param_val(self@, relative_depth as int),
    {
        match self.function_context(relative_depth) {
            Some(fc) => fc.parameter.duplicate(),
            None => ObjectOrSetValues::Object(Object::Structure(Structure::new(Vec::new()))),
        }
    }

    /// The function `relative_depth` frames below the innermost one; the
    /// empty structure when there is no such frame.
    pub fn function_self(&self, relative_depth: usize) -> (r: Object)
        ensures
            r == self_val(self@, relative_depth as int),
    {
        match self.function_context(relative_depth) {
            Some(fc) => fc.function.duplicate(),
            None => Object::Structure(Structure::new(Vec::new())),
        }
    }

    /// Pushes a new function context onto the stack.
    pub fn push(&mut self, fc: FunctionContext)
        ensures
            final(self)@ == old(self)@.push(fc@),
    {
        self.stack.push(fc);
        assert(self@ =~= old(self)@.push(fc@));
    }

    /// Pops the innermost function context off the stack.
    pub fn pop(&mut self)
        ensures
            final(self)@ == pop_spec(old(self)@),
    {
        if self.stack.len() > 0 {
            self.stack.pop();
            assert(self@ =~= old(self)@.drop_last());
        }
    }
}

impl Default for EvaluationContext {
    fn default() -> (r: EvaluationContext)
        ensures
            r@ == Seq::<Frame>::empty(),
    {
        EvaluationContext::new()
    }
}


/// Evaluates `o` with at most `fuel` steps.
#[verifier::spinoff_prover]
#[verifier::rlimit(50)]
fn eval_with(o: &Object, st: &Statements, ctx: &mut EvaluationContext, fuel: u64) -> (r: ObjectOrSetValues)
    requires
        eval_fuel(fuel as nat, *o, st@, old(ctx)@) is Some,
    ensures
        eval_fuel(fuel as nat, *o, st@, old(ctx)@) == Some((r@, final(ctx)@)),
    decreases fuel, 0nat,
{
    if fuel == 0 {
        return ObjectOrSetValues::Object(Object::Abstract(Abstract(0)));
    }
    let f = fuel - 1;
    match o.node(st) {
        Some(Node::IsAbstract(inner)) => {
            let v = eval_with(&inner, st, ctx, f);
            let b = match v {
                ObjectOrSetValues::Object(Object::Abstract(_)) => true,
                _ => false,
            };
            ObjectOrSetValues::Object(new_bool(b))
        },
        Some(Node::Call(n)) => {
            let (p, g) = eval_two_with(&n.with, &n.callee, st, ctx, f);
            let callee = g.into_object();
            match callee.node_function_body(st) {
                Some(body) => {
                    ctx.push(FunctionContext { function: callee, parameter: p });
                    let r = eval_with(&body, st, ctx, f);
                    ctx.pop();
                    r
                },
                None => ObjectOrSetValues::Object(Object::Abstract(Abstract(0))),
            }
        },
        Some(Node::Multiply(b)) => {
            let (l, r) = eval_two_with(&b.left, &b.right, st, ctx, f);
            let left = l.into_object();
            let right = r.into_object();
            ObjectOrSetValues::Object(left.multiply(st, &right))
        },
        Some(Node::UnwrapOr(n)) => {
            let s = eval_with(&n.set, st, ctx, f);
            let its = s.set_values(st);
            if its.len() == 1 {
                ObjectOrSetValues::Object(its[0].duplicate())
            } else {
                eval_with(&n.default, st, ctx, f)
            }
        },
        Some(Node::Function(_)) => {
            let captured = capture_with(o, st, 0, ctx, f);
            ObjectOrSetValues::Object(captured)
        },
        Some(Node::Literal(x)) => ObjectOrSetValues::Object(x),
        Some(Node::And(b)) => {
            let l = eval_with(&b.left, st, ctx, f);
            if l.is_truthy(st) {
                let r = eval_with(&b.right, st, ctx, f);
                ObjectOrSetValues::Object(new_bool(r.is_truthy(st)))
            } else {
                ObjectOrSetValues::Object(new_bool(false))
            }
        },
        Some(Node::FunctionSelf(d)) => ObjectOrSetValues::Object(ctx.function_self(d as usize)),
        Some(Node::Parameter(d)) => ctx.parameter_value(d as usize),
        Some(Node::Count(x)) => {
            let v = eval_with(&x, st, ctx, f);
            let n = v.correct_count(st);
            ObjectOrSetValues::Object(Object::new_integer(n as i128))
        },
        Some(Node::QueryExists(q)) => {
            let (s, t, v) = eval_three_with(&q.subject, &q.tag, &q.value, st, ctx, f);
            let subject = s.into_object();
            let tag = t.into_object();
            let value = v.into_object();
            ObjectOrSetValues::Object(new_bool(st.statement_exists(&subject, &tag, &value)))
        },
        Some(Node::QueryValues(q)) => {
            let (s, t) = eval_two_with(&q.subject, &q.tag, st, ctx, f);
            let subject = s.into_object();
            let tag = t.into_object();
            ObjectOrSetValues::SetValues(st.query_values(&subject, &tag))
        },
        Some(Node::QuerySubjects(q)) => {
            let (t, v) = eval_two_with(&q.tag, &q.value, st, ctx, f);
            let tag = t.into_object();
            let value = v.into_object();
            ObjectOrSetValues::SetValues(st.query_subjects(&tag, &value))
        },
        Some(Node::QueryTags(q)) => {
            let (s, v) = eval_two_with(&q.subject, &q.value, st, ctx, f);
            let subject = s.into_object();
            let value = v.into_object();
            ObjectOrSetValues::SetValues(st.query_tags(&subject, &value))
        },
        Some(Node::QuerySubjectsAndTags(q)) => {
            let v = eval_with(&q.value, st, ctx, f);
            let value = v.into_object();
            ObjectOrSetValues::SetValues(st.query_subjects_and_tags(&value))
        },
        Some(Node::QuerySubjectsAndValues(q)) => {
            let t = eval_with(&q.tag, st, ctx, f);
            let tag = t.into_object();
            ObjectOrSetValues::SetValues(st.query_subjects_and_values(&tag))
        },
        Some(Node::QueryTagsAndValues(q)) => {
            let s = eval_with(&q.subject, st, ctx, f);
            let subject = s.into_object();
            ObjectOrSetValues::SetValues(st.query_tags_and_values(&subject))
        },
        Some(Node::Statements) => ObjectOrSetValues::SetValues(st.iter_owned()),
        Some(Node::Equal(b)) => {
            let (l, r) = eval_two_with(&b.left, &b.right, st, ctx, f);
            let left = l.into_object();
            let right = r.into_object();
            ObjectOrSetValues::Object(new_bool(left.same(&right)))
        },
        Some(Node::Or(b)) => {
            let l = eval_with(&b.left, st, ctx, f);
            if l.is_truthy(st) {
                ObjectOrSetValues::Object(new_bool(true))
            } else {
                let r = eval_with(&b.right, st, ctx, f);
                ObjectOrSetValues::Object(new_bool(r.is_truthy(st)))
            }
        },
        Some(Node::Xor(b)) => {
            let (l, r) = eval_two_with(&b.left, &b.right, st, ctx, f);
            let left = l.is_truthy(st);
            let right = r.is_truthy(st);
            ObjectOrSetValues::Object(new_bool((left || right) && !(left && right)))
        },
        Some(Node::Not(x)) => {
            let v = eval_with(&x, st, ctx, f);
            ObjectOrSetValues::Object(new_bool(!v.is_truthy(st)))
        },
        Some(Node::Add(b)) => {
            let (l, r) = eval_two_with(&b.left, &b.right, st, ctx, f);
            let left = l.into_object();
            let right = r.into_object();
            ObjectOrSetValues::Object(left.add(st, &right))
        },
        Some(Node::Union(b)) => {
            let (l, r) = eval_two_with(&b.left, &b.right, st, ctx, f);
            let mut left = l.set_values(st);
            let mut right = r.set_values(st);
            left.append(&mut right);
            ObjectOrSetValues::SetValues(left)
        },
        Some(Node::Mapping(m)) => {
            let (s, g) = eval_two_with(&m.set, &m.mapper_function, st, ctx, f);
            let its = s.set_values(st);
            let mapper = g.into_object();
            assert(its@.skip(0) =~= its@);
            ObjectOrSetValues::SetValues(map_items_with(&mapper, &its, 0, st, f))
        },
        Some(Node::Filter(m)) => {
            let (s, g) = eval_two_with(&m.set, &m.filter_function, st, ctx, f);
            let its = s.set_values(st);
            let filter = g.into_object();
            assert(its@.skip(0) =~= its@);
            ObjectOrSetValues::SetValues(filter_items_with(&filter, &its, 0, st, f))
        },
        Some(Node::Every(p)) => {
            let (s, g) = eval_two_with(&p.set, &p.predicate, st, ctx, f);
            let its = s.set_values(st);
            let predicate = g.into_object();
            assert(its@.skip(0) =~= its@);
            ObjectOrSetValues::Object(new_bool(every_items_with(&predicate, &its, 0, st, ctx, f)))
        },
        Some(Node::Any(p)) => {
            let (s, g) = eval_two_with(&p.set, &p.predicate, st, ctx, f);
            let its = s.set_values(st);
            let predicate = g.into_object();
            assert(its@.skip(0) =~= its@);
            ObjectOrSetValues::Object(new_bool(any_items_with(&predicate, &its, 0, st, ctx, f)))
        },
        Some(Node::Less(b)) => {
            let (l, r) = eval_two_with(&b.left, &b.right, st, ctx, f);
            let less = match (&l, &r) {
                (ObjectOrSetValues::Object(a), ObjectOrSetValues::Object(c)) => match (a.to_integer(st), c.to_integer(st)) {
                    (Some(x), Some(y)) => x < y,
                    _ => l.correct_count(st) < r.correct_count(st),
                },
                _ => l.correct_count(st) < r.correct_count(st),
            };
            ObjectOrSetValues::Object(new_bool(less))
        },
        Some(Node::If(n)) => {
            let v = eval_with(&n.condition, st, ctx, f);
            if v.is_truthy(st) {
                eval_with(&n.then_branch, st, ctx, f)
            } else {
                eval_with(&n.otherwise, st, ctx, f)
            }
        },
        None => match o {
            Object::Structure(s) => {
                if s.is_empty() {
                    ObjectOrSetValues::Object(o.duplicate())
                } else {
                    let props = s.to_vec();
                    assert(props@.skip(0) =~= props@);
                    match eval_props_with(&props, 0, st, ctx, f) {
                        Some(ps) => ObjectOrSetValues::Object(Object::Structure(Structure::new(ps))),
                        None => ObjectOrSetValues::Object(Object::Structure(Structure::new(Vec::new()))),
                    }
                }
            },
            _ => ObjectOrSetValues::Object(o.duplicate()),
        },
    }
}

/// Evaluates `a`, then `b`.
fn eval_two_with(a: &Object, b: &Object, st: &Statements, ctx: &mut EvaluationContext, fuel: u64) -> (r: (
    ObjectOrSetValues,
    ObjectOrSetValues,
))
    requires
        eval_two(fuel as nat, *a, *b, st@, old(ctx)@) is Some,
    ensures
        eval_two(fuel as nat, *a, *b, st@, old(ctx)@) == Some((r.0@, r.1@, final(ctx)@)),
    decreases fuel, 1nat,
{
    let x = eval_with(a, st, ctx, fuel);
    let y = eval_with(b, st, ctx, fuel);
    (x, y)
}

/// Evaluates `a`, then `b`, then `d`.
fn eval_three_with(a: &Object, b: &Object, d: &Object, st: &Statements, ctx: &mut EvaluationContext, fuel: u64) -> (r: (
    ObjectOrSetValues,
    ObjectOrSetValues,
    ObjectOrSetValues,
))
    requires
        eval_three(fuel as nat, *a, *b, *d, st@, old(ctx)@) is Some,
    ensures
        eval_three(fuel as nat, *a, *b, *d, st@, old(ctx)@) == Some((r.0@, r.1@, r.2@, final(ctx)@)),
    decreases fuel, 2nat,
{
    let (x, y) = eval_two_with(a, b, st, ctx, fuel);
    let z = eval_with(d, st, ctx, fuel);
    (x, y, z)
}

/// Evaluates the values of `props` from index `i` on.
fn eval_props_with(props: &Vec<Property>, i: usize, st: &Statements, ctx: &mut EvaluationContext, fuel: u64) -> (r: Option<Vec<Property>>)
    requires
        i <= props@.len(),
        eval_props(fuel as nat, props@.skip(i as int), st@, old(ctx)@) is Some,
    ensures
        eval_props(fuel as nat, props@.skip(i as int), st@, old(ctx)@) == Some((opt_props(r), final(ctx)@)),
    decreases fuel, 0nat,
{
    if fuel == 0 {
        return None;
    }
    let f = fuel - 1;
    if i == props.len() {
        assert(props@.skip(i as int) =~= Seq::<Property>::empty());
        return Some(Vec::new());
    }
    assert(props@.skip(i as int)[0] == props@[i as int]);
    assert(props@.skip(i as int).drop_first() =~= props@.skip(i as int + 1));
    let v = eval_with(&props[i].value, st, ctx, f);
    let value = v.into_object();
    let check = if value.same(&props[i].value) {
        Ok(())
    } else {
        valid_with(&value, st, false, f)
    };
    match check {
        Ok(()) => match eval_props_with(props, i + 1, st, ctx, f) {
            Some(mut rest) => {
                let ghost tail = rest@;
                let p = Property { tag: props[i].tag.duplicate(), value };
                rest.insert(0, p);
                assert(rest@ =~= seq![p] + tail);
                Some(rest)
            },
            None => None,
        },
        Err(_) => None,
    }
}

/// Captures `o` at `add` functions below the evaluation.
fn capture_with(o: &Object, st: &Statements, add: u64, ctx: &EvaluationContext, fuel: u64) -> (r: Object)
    requires
        add + fuel <= u64::MAX,
        capture_fuel(fuel as nat, *o, st@, add as nat, ctx@) is Some,
    ensures
        capture_fuel(fuel as nat, *o, st@, add as nat, ctx@) == Some(r),
    decreases fuel, 0nat,
{
    if fuel == 0 {
        return Object::Abstract(Abstract(0));
    }
    let f = fuel - 1;
    match o.node(st) {
        Some(Node::Function(body)) => {
            let b = capture_with(&body, st, add + 1, ctx, f);
            Object::new_node(Node::Function(b))
        },
        Some(Node::Parameter(d)) => {
            if d as u64 >= add {
                let v = ctx.parameter_value((d as u64 - add) as usize);
                Object::new_node(Node::Literal(v.into_object()))
            } else {
                o.duplicate()
            }
        },
        _ => match o {
            Object::Structure(s) => {
                if s.is_empty() {
                    o.duplicate()
                } else {
                    let props = s.to_vec();
                    assert(props@.skip(0) =~= props@);
                    match capture_props_with(&props, 0, st, add, ctx, f) {
                        Some(ps) => Object::Structure(Structure::new(ps)),
                        None => Object::Structure(Structure::new(Vec::new())),
                    }
                }
            },
            _ => o.duplicate(),
        },
    }
}

/// Captures the values of `props` from index `i` on.
fn capture_props_with(props: &Vec<Property>, i: usize, st: &Statements, add: u64, ctx: &EvaluationContext, fuel: u64) -> (r: Option<Vec<Property>>)
    requires
        i <= props@.len(),
        add + fuel <= u64::MAX,
        capture_props(fuel as nat, props@.skip(i as int), st@, add as nat, ctx@) is Some,
    ensures
        capture_props(fuel as nat, props@.skip(i as int), st@, add as nat, ctx@) == Some(opt_props(r)),
    decreases fuel, 0nat,
{
    if fuel == 0 {
        return None;
    }
    let f = fuel - 1;
    if i == props.len() {
        assert(props@.skip(i as int) =~= Seq::<Property>::empty());
        return Some(Vec::new());
    }
    assert(props@.skip(i as int)[0] == props@[i as int]);
    assert(props@.skip(i as int).drop_first() =~= props@.skip(i as int + 1));
    let value = capture_with(&props[i].value, st, add, ctx, f);
    let check = if value.same(&props[i].value) {
        Ok(())
    } else {
        valid_with(&value, st, false, f)
    };
    match check {
        Ok(()) => match capture_props_with(props, i + 1, st, add, ctx, f) {
            Some(mut rest) => {
                let ghost tail = rest@;
                let p = Property { tag: props[i].tag.duplicate(), value };
                rest.insert(0, p);
                assert(rest@ =~= seq![p] + tail);
                Some(rest)
            },
            None => None,
        },
        Err(_) => None,
    }
}

/// Checks `o` against the constraints of its tags.
fn valid_with(o: &Object, st: &Statements, recursive: bool, fuel: u64) -> (r: Result<(), KnowledgeError>)
    requires
        valid_fuel(fuel as nat, *o, st@, recursive) is Some,
    ensures
        valid_fuel(fuel as nat, *o, st@, recursive) == Some(r),
    decreases fuel, 0nat,
{
    if fuel == 0 {
        return Ok(());
    }
    match o {
        Object::Structure(s) => {
            if s.is_empty() {
                Ok(())
            } else {
                let props = s.to_vec();
                assert(props@.skip(0) =~= props@);
                valid_props_with(s, &props, 0, st, recursive, fuel - 1)
            }
        },
        _ => Ok(()),
    }
}

/// Checks the properties `props` of `s` from index `i` on.
fn valid_props_with(s: &Structure, props: &Vec<Property>, i: usize, st: &Statements, recursive: bool, fuel: u64) -> (r: Result<(), KnowledgeError>)
    requires
        i <= props@.len(),
        valid_props(fuel as nat, *s, props@.skip(i as int), st@, recursive) is Some,
    ensures
        valid_props(fuel as nat, *s, props@.skip(i as int), st@, recursive) == Some(r),
    decreases fuel, 0nat,
{
    if fuel == 0 {
        return Ok(());
    }
    let f = fuel - 1;
    if i == props.len() {
        assert(props@.skip(i as int) =~= Seq::<Property>::empty());
        return Ok(());
    }
    assert(props@.skip(i as int)[0] == props@[i as int]);
    assert(props@.skip(i as int).drop_first() =~= props@.skip(i as int + 1));
    let p = &props[i];
    let constraints = st.query_values(&p.tag, &Object::Abstract(Abstract(AXIOMATIC)));
    if constraints.len() == 0 {
        return Err(KnowledgeError::NeedsToBeTrueButIsFalse(StatementForm {
            subject: ObjectForm::Specific(p.tag.duplicate()),
            tag: ObjectForm::Specific(Object::Abstract(Abstract(AXIOMATIC))),
            value: ObjectForm::Any,
        }));
    }
    let mut params: Vec<ObjectOrSetValues> = Vec::new();
    params.push(ObjectOrSetValues::Object(Object::Structure(s.duplicate())));
    params.push(ObjectOrSetValues::Object(p.value.duplicate()));
    assert(vals(params@).skip(0) =~= seq![Val::Obj(Object::Structure(*s)), Val::Obj(p.value)]);
    let mut fresh = EvaluationContext::new();
    let result = call_with(&constraints[0], st, &params, 0, &mut fresh, f);
    if !result.is_truthy(st) {
        return Err(KnowledgeError::ValueOnSubjectDoesNotMatchTagsConstraint {
            subject: Object::Structure(s.duplicate()),
            tag: p.tag.duplicate(),
            value: p.value.duplicate(),
        });
    }
    if recursive {
        match valid_with(&p.tag, st, true, f) {
            Ok(()) => {},
            Err(e) => return Err(e),
        }
        match valid_with(&p.value, st, true, f) {
            Ok(()) => {},
            Err(e) => return Err(e),
        }
    }
    valid_props_with(s, props, i + 1, st, recursive, f)
}

/// Calls `o` with the parameters `params` from index `i` on.
fn call_with(o: &Object, st: &Statements, params: &Vec<ObjectOrSetValues>, i: usize, ctx: &mut EvaluationContext, fuel: u64) -> (r: ObjectOrSetValues)
    requires
        i <= params@.len(),
        call_fuel(fuel as nat, *o, st@, vals(params@).skip(i as int), old(ctx)@) is Some,
    ensures
        call_fuel(fuel as nat, *o, st@, vals(params@).skip(i as int), old(ctx)@) == Some((r@, final(ctx)@)),
    decreases fuel, 1nat,
{
    match o.node(st) {
        Some(Node::Function(body)) => {
            if i < params.len() {
                if fuel == 0 {
                    return ObjectOrSetValues::Object(Object::Abstract(Abstract(0)));
                }
                assert(vals(params@).skip(i as int)[0] == params@[i as int]@);
                assert(vals(params@).skip(i as int).drop_first() =~= vals(params@).skip(i as int + 1));
                ctx.push(FunctionContext { function: o.duplicate(), parameter: params[i].duplicate() });
                let r = call_with(&body, st, params, i + 1, ctx, fuel - 1);
                ctx.pop();
                r
            } else {
                eval_with(o, st, ctx, fuel)
            }
        },
        _ => eval_with(o, st, ctx, fuel),
    }
}

/// The results of calling `m` with each item from index `i` on.
fn map_items_with(m: &Object, its: &Vec<Object>, i: usize, st: &Statements, fuel: u64) -> (r: Vec<Object>)
    requires
        i <= its@.len(),
        map_items(fuel as nat, *m, its@.skip(i as int), st@) is Some,
    ensures
        map_items(fuel as nat, *m, its@.skip(i as int), st@) == Some(r@),
    decreases fuel, 0nat,
{
    if fuel == 0 {
        return Vec::new();
    }
    let f = fuel - 1;
    if i == its.len() {
        assert(its@.skip(i as int) =~= Seq::<Object>::empty());
        return Vec::new();
    }
    assert(its@.skip(i as int)[0] == its@[i as int]);
    assert(its@.skip(i as int).drop_first() =~= its@.skip(i as int + 1));
    let mut params: Vec<ObjectOrSetValues> = Vec::new();
    params.push(ObjectOrSetValues::Object(its[i].duplicate()));
    assert(vals(params@).skip(0) =~= seq![Val::Obj(its@[i as int])]);
    let mut fresh = EvaluationContext::new();
    let r = call_with(m, st, &params, 0, &mut fresh, f);
    let first = r.into_object();
    let mut rest = map_items_with(m, its, i + 1, st, f);
    let ghost tail = rest@;
    rest.insert(0, first);
    assert(rest@ =~= seq![first] + tail);
    rest
}

/// The items from index `i` on for which calling `g` is truthy.
fn filter_items_with(g: &Object, its: &Vec<Object>, i: usize, st: &Statements, fuel: u64) -> (r: Vec<Object>)
    requires
        i <= its@.len(),
        filter_items(fuel as nat, *g, its@.skip(i as int), st@) is Some,
    ensures
        filter_items(fuel as nat, *g, its@.skip(i as int), st@) == Some(r@),
    decreases fuel, 0nat,
{
    if fuel == 0 {
        return Vec::new();
    }
    let f = fuel - 1;
    if i == its.len() {
        assert(its@.skip(i as int) =~= Seq::<Object>::empty());
        return Vec::new();
    }
    assert(its@.skip(i as int)[0] == its@[i as int]);
    assert(its@.skip(i as int).drop_first() =~= its@.skip(i as int + 1));
    let mut params: Vec<ObjectOrSetValues> = Vec::new();
    params.push(ObjectOrSetValues::Object(its[i].duplicate()));
    assert(vals(params@).skip(0) =~= seq![Val::Obj(its@[i as int])]);
    let mut fresh = EvaluationContext::new();
    let r = call_with(g, st, &params, 0, &mut fresh, f);
    let keep = r.is_truthy(st);
    let mut rest = filter_items_with(g, its, i + 1, st, f);
    if keep {
        let ghost tail = rest@;
        rest.insert(0, its[i].duplicate());
        assert(rest@ =~= seq![its@[i as int]] + tail);
    }
    rest
}

/// Whether calling `p` with every item from index `i` on is truthy.
fn every_items_with(p: &Object, its: &Vec<Object>, i: usize, st: &Statements, ctx: &mut EvaluationContext, fuel: u64) -> (r: bool)
    requires
        i <= its@.len(),
        every_items(fuel as nat, *p, its@.skip(i as int), st@, old(ctx)@) is Some,
    ensures
        every_items(fuel as nat, *p, its@.skip(i as int), st@, old(ctx)@) == Some((r, final(ctx)@)),
    decreases fuel, 0nat,
{
    if fuel == 0 {
        return true;
    }
    let f = fuel - 1;
    if i == its.len() {
        assert(its@.skip(i as int) =~= Seq::<Object>::empty());
        return true;
    }
    assert(its@.skip(i as int)[0] == its@[i as int]);
    assert(its@.skip(i as int).drop_first() =~= its@.skip(i as int + 1));
    let mut params: Vec<ObjectOrSetValues> = Vec::new();
    params.push(ObjectOrSetValues::Object(its[i].duplicate()));
    assert(vals(params@).skip(0) =~= seq![Val::Obj(its@[i as int])]);
    let r = call_with(p, st, &params, 0, ctx, f);
    if r.is_truthy(st) {
        every_items_with(p, its, i + 1, st, ctx, f)
    } else {
        false
    }
}

/// Whether calling `p` with some item from index `i` on is truthy.
fn any_items_with(p: &Object, its: &Vec<Object>, i: usize, st: &Statements, ctx: &mut EvaluationContext, fuel: u64) -> (r: bool)
    requires
        i <= its@.len(),
        any_items(fuel as nat, *p, its@.skip(i as int), st@, old(ctx)@) is Some,
    ensures
        any_items(fuel as nat, *p, its@.skip(i as int), st@, old(ctx)@) == Some((r, final(ctx)@)),
    decreases fuel, 0nat,
{
    if fuel == 0 {
        return false;
    }
    let f = fuel - 1;
    if i == its.len() {
        assert(its@.skip(i as int) =~= Seq::<Object>::empty());
        return false;
    }
    assert(its@.skip(i as int)[0] == its@[i as int]);
    assert(its@.skip(i as int).drop_first() =~= its@.skip(i as int + 1));
    let mut params: Vec<ObjectOrSetValues> = Vec::new();
    params.push(ObjectOrSetValues::Object(its[i].duplicate()));
    assert(vals(params@).skip(0) =~= seq![Val::Obj(its@[i as int])]);
    let r = call_with(p, st, &params, 0, ctx, f);
    if r.is_truthy(st) {
        true
    } else {
        any_items_with(p, its, i + 1, st, ctx, f)
    }
}


impl Object {
    /// Evaluates `self` under `st` in the context `context`. A call pushes
    /// the callee and its argument for the evaluation of the callee's body
    /// and pops them afterwards.
    pub fn evaluate(&self, st: &Statements, context: &mut EvaluationContext) -> (r: ObjectOrSetValues)
        requires
            eval_fuel(fuel_limit(), *self, st@, old(context)@) is Some,
        ensures
            eval_fuel(fuel_limit(), *self, st@, old(context)@) == Some((r@, final(context)@)),
    {
        eval_with(self, st, context, u64::MAX)
    }

    /// Calls `self` with `parameters`: each parameter is bound to one
    /// nested function, innermost last; what is left is evaluated.
    pub fn call(&self, st: &Statements, parameters: &[ObjectOrSetValues], ctx: &mut EvaluationContext) -> (r: ObjectOrSetValues)
        requires
            call_fuel(fuel_limit(), *self, st@, vals(parameters@), old(ctx)@) is Some,
        ensures
            call_fuel(fuel_limit(), *self, st@, vals(parameters@), old(ctx)@) == Some((r@, final(ctx)@)),
    {
        let mut params: Vec<ObjectOrSetValues> = Vec::new();
        let mut i: usize = 0;
        while i < parameters.len()
            invariant
                i <= parameters@.len(),
                params@.len() == i,
                vals(params@) == vals(parameters@.take(i as int)),
            decreases parameters@.len() - i,
        {
            let ghost before = params@;
            params.push(parameters[i].duplicate());
            assert forall|j: int| 0 <= j <= i implies vals(params@)[j] == vals(parameters@.take(i as int + 1))[j] by {
                if j < i {
                    assert(params@[j] == before[j]);
                    assert(vals(before)[j] == vals(parameters@.take(i as int))[j]);
                }
            }
            assert(vals(params@) =~= vals(parameters@.take(i as int + 1)));
            i = i + 1;
        }
        assert(parameters@.take(i as int) =~= parameters@);
        assert(vals(params@).skip(0) =~= vals(params@));
        call_with(self, st, &params, 0, ctx, u64::MAX)
    }

    /// Captures `self` at `additional_depth` functions below the
    /// evaluation: parameters that reach out to the context are replaced by
    /// their values, as literals.
    pub fn capture(&self, st: &Statements, additional_depth: usize, ctx: &EvaluationContext) -> (r: ObjectOrSetValues)
        requires
            capture_fuel((u64::MAX - additional_depth) as nat, *self, st@, additional_depth as nat, ctx@) is Some,
        ensures
            r@ is Obj,
            capture_fuel((u64::MAX - additional_depth) as nat, *self, st@, additional_depth as nat, ctx@)
                == Some(into_object_spec(r@)),
    {
        let add = additional_depth as u64;
        ObjectOrSetValues::Object(capture_with(self, st, add, ctx, u64::MAX - add))
    }

    /// Checks `self` against the constraints of its tags under `st`; with
    /// `recursive`, its tags and values too.
    pub fn is_valid(&self, st: &Statements, recursive: bool) -> (r: Result<(), KnowledgeError>)
        requires
            valid_fuel(fuel_limit(), *self, st@, recursive) is Some,
        ensures
            valid_fuel(fuel_limit(), *self, st@, recursive) == Some(r),
    {
        valid_with(self, st, recursive, u64::MAX)
    }
}

impl From<Object> for ObjectOrSetValues {
    fn from(value: Object) -> (r: ObjectOrSetValues) {
        ObjectOrSetValues::Object(value)
    }
}

impl vstd::std_specs::convert::FromSpecImpl<Object> for ObjectOrSetValues {
    open spec fn obeys_from_spec() -> bool {
        true
    }

    open spec fn from_spec(v: Object) -> ObjectOrSetValues {
        ObjectOrSetValues::Object(v)
    }
}


/// The identity function `x |-> x`.
pub open spec fn identity_function() -> Object {
    node_object(Node::Function(node_object(Node::Parameter(0))))
}

/// A literal evaluates to what it holds, and leaves the context as it was.
pub proof fn law_literal_evaluates_to_content(x: Object, st: Seq<SimpleStatement>, c: Seq<Frame>)
    requires
        unmentioned(node_object(Node::Literal(x)), st),
    ensures
        eval_fuel(fuel_limit(), node_object(Node::Literal(x)), st, c) == Some((Val::Obj(x), c)),
{
    law_node_roundtrip(Node::Literal(x), st);
}

/// Calling the identity function gives back its argument, and leaves the
/// context as it was.
pub proof fn law_identity_returns_argument(x: Val, st: Seq<SimpleStatement>, c: Seq<Frame>)
    requires
        unmentioned(identity_function(), st),
        unmentioned(node_object(Node::Parameter(0)), st),
    ensures
        call_fuel(fuel_limit(), identity_function(), st, seq![x], c) == Some((x, c)),
{
    law_node_roundtrip(Node::Function(node_object(Node::Parameter(0))), st);
    law_node_roundtrip(Node::Parameter(0), st);
    let pushed = c.push(Frame { function: identity_function(), parameter: x });
    assert(seq![x].drop_first() =~= Seq::<Val>::empty());
    let p0 = node_object(Node::Parameter(0));
    assert(eval_fuel((fuel_limit() - 1) as nat, p0, st, pushed) == Some((x, pushed)));
    assert(call_fuel((fuel_limit() - 1) as nat, p0, st, seq![x].drop_first(), pushed) == Some((x, pushed)));
    assert(pushed.drop_last() =~= c);
    assert(pop_spec(pushed) == c);
}

/// A parameter that reaches beyond the context evaluates to the empty
/// structure.
pub proof fn law_parameter_out_of_scope(d: u32, st: Seq<SimpleStatement>, c: Seq<Frame>)
    requires
        unmentioned(node_object(Node::Parameter(d)), st),
        d >= c.len(),
    ensures
        eval_fuel(fuel_limit(), node_object(Node::Parameter(d)), st, c) == Some((Val::Obj(empty_object()), c)),
{
    law_node_roundtrip(Node::Parameter(d), st);
}


/// Calling an object without parameters, or calling an object that is not
/// a function, is evaluating it: the same value and the same context after,
/// and no parameter is evaluated.
pub proof fn law_call_without_binding_evaluates(o: Object, st: Seq<SimpleStatement>, ps: Seq<Val>, c: Seq<Frame>)
    requires
        ps.len() == 0 || !(decode(o, st) matches Some(Node::Function(_))),
    ensures
        call_fuel(fuel_limit(), o, st, ps, c) == eval_fuel(fuel_limit(), o, st, c),
{
}

/// Whether the outcome, if any, leaves the context `c` as it was.
pub open spec fn keeps(outcome: Option<(Val, Seq<Frame>)>, c: Seq<Frame>) -> bool {
    outcome is Some ==> outcome.unwrap().1 == c
}

#[verifier::spinoff_prover]
#[verifier::rlimit(80)]
proof fn lemma_eval_keeps(fuel: nat, o: Object, st: Seq<SimpleStatement>, c: Seq<Frame>)
    ensures
        keeps(eval_fuel(fuel, o, st, c), c),
    decreases fuel, 0nat,
{
    if fuel > 0 {
        let f = (fuel - 1) as nat;
        match decode(o, st) {
            Some(Node::IsAbstract(inner)) => lemma_eval_keeps(f, inner, st, c),
            Some(Node::Call(n)) => {
                lemma_eval_two_keeps(f, n.with, n.callee, st, c);
                if let Some((p, g, c2)) = eval_two(f, n.with, n.callee, st, c) {
                    let callee = into_object_spec(g);
                    if let Some(body) = sv(callee, st, FUNCTION) {
                        let pushed = c2.push(Frame { function: callee, parameter: p });
                        lemma_eval_keeps(f, body, st, pushed);
                        assert(pushed.drop_last() =~= c2);
                    }
                }
            },
            Some(Node::Multiply(b)) => lemma_eval_two_keeps(f, b.left, b.right, st, c),
            Some(Node::UnwrapOr(n)) => {
                lemma_eval_keeps(f, n.set, st, c);
                if let Some((_, c1)) = eval_fuel(f, n.set, st, c) {
                    lemma_eval_keeps(f, n.default, st, c1);
                }
            },
            Some(Node::And(b)) => {
                lemma_eval_keeps(f, b.left, st, c);
                if let Some((_, c1)) = eval_fuel(f, b.left, st, c) {
                    lemma_eval_keeps(f, b.right, st, c1);
                }
            },
            Some(Node::Or(b)) => {
                lemma_eval_keeps(f, b.left, st, c);
                if let Some((_, c1)) = eval_fuel(f, b.left, st, c) {
                    lemma_eval_keeps(f, b.right, st, c1);
                }
            },
            Some(Node::If(n)) => {
                lemma_eval_keeps(f, n.condition, st, c);
                if let Some((_, c1)) = eval_fuel(f, n.condition, st, c) {
                    lemma_eval_keeps(f, n.then_branch, st, c1);
                    lemma_eval_keeps(f, n.otherwise, st, c1);
                }
            },
            Some(Node::Count(x)) => lemma_eval_keeps(f, x, st, c),
            Some(Node::Not(x)) => lemma_eval_keeps(f, x, st, c),
            Some(Node::QueryExists(q)) => lemma_eval_three_keeps(f, q.subject, q.tag, q.value, st, c),
            Some(Node::QueryValues(q)) => lemma_eval_two_keeps(f, q.subject, q.tag, st, c),
            Some(Node::QuerySubjects(q)) => lemma_eval_two_keeps(f, q.tag, q.value, st, c),
            Some(Node::QueryTags(q)) => lemma_eval_two_keeps(f, q.subject, q.value, st, c),
            Some(Node::QuerySubjectsAndTags(q)) => lemma_eval_keeps(f, q.value, st, c),
            Some(Node::QuerySubjectsAndValues(q)) => lemma_eval_keeps(f, q.tag, st, c),
            Some(Node::QueryTagsAndValues(q)) => lemma_eval_keeps(f, q.subject, st, c),
            Some(Node::Equal(b)) => lemma_eval_two_keeps(f, b.left, b.right, st, c),
            Some(Node::Xor(b)) => lemma_eval_two_keeps(f, b.left, b.right, st, c),
            Some(Node::Add(b)) => lemma_eval_two_keeps(f, b.left, b.right, st, c),
            Some(Node::Union(b)) => lemma_eval_two_keeps(f, b.left, b.right, st, c),
            Some(Node::Less(b)) => lemma_eval_two_keeps(f, b.left, b.right, st, c),
            Some(Node::Mapping(m)) => lemma_eval_two_keeps(f, m.set, m.mapper_function, st, c),
            Some(Node::Filter(m)) => lemma_eval_two_keeps(f, m.set, m.filter_function, st, c),
            Some(Node::Every(p)) => {
                lemma_eval_two_keeps(f, p.set, p.predicate, st, c);
                if let Some((s, g, c1)) = eval_two(f, p.set, p.predicate, st, c) {
                    lemma_every_keeps(f, into_object_spec(g), items(s, st), st, c1);
                }
            },
            Some(Node::Any(p)) => {
                lemma_eval_two_keeps(f, p.set, p.predicate, st, c);
                if let Some((s, g, c1)) = eval_two(f, p.set, p.predicate, st, c) {
                    lemma_any_keeps(f, into_object_spec(g), items(s, st), st, c1);
                }
            },
            None => {
                if let Object::Structure(s) = o {
                    if s.seq().len() > 0 {
                        lemma_props_keep(f, s.seq(), st, c);
                    }
                }
            },
            _ => {},
        }
    }
}

proof fn lemma_eval_two_keeps(fuel: nat, a: Object, b: Object, st: Seq<SimpleStatement>, c: Seq<Frame>)
    ensures
        eval_two(fuel, a, b, st, c) is Some ==> eval_two(fuel, a, b, st, c).unwrap().2 == c,
    decreases fuel, 1nat,
{
    lemma_eval_keeps(fuel, a, st, c);
    if let Some((_, c1)) = eval_fuel(fuel, a, st, c) {
        lemma_eval_keeps(fuel, b, st, c1);
    }
}

proof fn lemma_eval_three_keeps(fuel: nat, a: Object, b: Object, d: Object, st: Seq<SimpleStatement>, c: Seq<Frame>)
    ensures
        eval_three(fuel, a, b, d, st, c) is Some ==> eval_three(fuel, a, b, d, st, c).unwrap().3 == c,
    decreases fuel, 2nat,
{
    lemma_eval_two_keeps(fuel, a, b, st, c);
    if let Some((_, _, c1)) = eval_two(fuel, a, b, st, c) {
        lemma_eval_keeps(fuel, d, st, c1);
    }
}

proof fn lemma_props_keep(fuel: nat, ps: Seq<Property>, st: Seq<SimpleStatement>, c: Seq<Frame>)
    ensures
        eval_props(fuel, ps, st, c) is Some ==> eval_props(fuel, ps, st, c).unwrap().1 == c,
    decreases fuel, 0nat,
{
    if fuel > 0 && ps.len() > 0 {
        let f = (fuel - 1) as nat;
        lemma_eval_keeps(f, ps[0].value, st, c);
        if let Some((_, c1)) = eval_fuel(f, ps[0].value, st, c) {
            lemma_props_keep(f, ps.drop_first(), st, c1);
        }
    }
}

proof fn lemma_call_keeps(fuel: nat, o: Object, st: Seq<SimpleStatement>, ps: Seq<Val>, c: Seq<Frame>)
    ensures
        keeps(call_fuel(fuel, o, st, ps, c), c),
    decreases fuel, 1nat,
{
    match decode(o, st) {
        Some(Node::Function(body)) => {
            if ps.len() > 0 {
                if fuel > 0 {
                    let pushed = c.push(Frame { function: o, parameter: ps[0] });
                    lemma_call_keeps((fuel - 1) as nat, body, st, ps.drop_first(), pushed);
                    assert(pushed.drop_last() =~= c);
                }
            } else {
                lemma_eval_keeps(fuel, o, st, c);
            }
        },
        _ => lemma_eval_keeps(fuel, o, st, c),
    }
}

proof fn lemma_every_keeps(fuel: nat, p: Object, its: Seq<Object>, st: Seq<SimpleStatement>, c: Seq<Frame>)
    ensures
        every_items(fuel, p, its, st, c) is Some ==> every_items(fuel, p, its, st, c).unwrap().1 == c,
    decreases fuel, 0nat,
{
    if fuel > 0 && its.len() > 0 {
        let f = (fuel - 1) as nat;
        lemma_call_keeps(f, p, st, seq![Val::Obj(its[0])], c);
        if let Some((_, c1)) = call_fuel(f, p, st, seq![Val::Obj(its[0])], c) {
            lemma_every_keeps(f, p, its.drop_first(), st, c1);
        }
    }
}

proof fn lemma_any_keeps(fuel: nat, p: Object, its: Seq<Object>, st: Seq<SimpleStatement>, c: Seq<Frame>)
    ensures
        any_items(fuel, p, its, st, c) is Some ==> any_items(fuel, p, its, st, c).unwrap().1 == c,
    decreases fuel, 0nat,
{
    if fuel > 0 && its.len() > 0 {
        let f = (fuel - 1) as nat;
        lemma_call_keeps(f, p, st, seq![Val::Obj(its[0])], c);
        if let Some((_, c1)) = call_fuel(f, p, st, seq![Val::Obj(its[0])], c) {
            lemma_any_keeps(f, p, its.drop_first(), st, c1);
        }
    }
}

/// Evaluating an object, or calling one, leaves the evaluation context as
/// it found it: every call pops what it pushed.
pub proof fn law_evaluation_restores_context(o: Object, st: Seq<SimpleStatement>, ps: Seq<Val>, c: Seq<Frame>)
    ensures
        keeps(eval_fuel(fuel_limit(), o, st, c), c),
        keeps(call_fuel(fuel_limit(), o, st, ps, c), c),
{
    lemma_eval_keeps(fuel_limit(), o, st, c);
    lemma_call_keeps(fuel_limit(), o, st, ps, c);
}


/// The empty structure has no values, reads as no node, and evaluates to
/// itself, when no statement is about it.
proof fn lemma_empty_plain(f: nat, st: Seq<SimpleStatement>, c: Seq<Frame>)
    requires
        f >= 1,
        unmentioned(empty_object(), st),
    ensures
        forall|t: u128| #[trigger] query_values_spec(st, empty_object(), abs(t)) == Seq::<Object>::empty(),
        decode(empty_object(), st) == None::<Node>,
        eval_fuel(f, empty_object(), st, c) == Some((Val::Obj(empty_object()), c)),
        !truthy_val(Val::Obj(empty_object()), st),
{
    lemma_structure_of(Seq::<Property>::empty());
    assert(canonical(Seq::<Property>::empty()) =~= Seq::<Property>::empty());
    assert forall|t: u128| #[trigger] query_values_spec(st, empty_object(), abs(t)) == Seq::<Object>::empty() by {
        lemma_stated_none(st, empty_object(), abs(t));
        assert(query_values_spec(st, empty_object(), abs(t)) =~= Seq::<Object>::empty());
    }
    lemma_decode_plain(empty_object(), st);
}

/// `true` and `false` read as no node, evaluate to themselves, and are
/// truthy exactly when they are `true`, when no statement is about them.
proof fn lemma_bool_plain(x: bool, f: nat, st: Seq<SimpleStatement>, c: Seq<Frame>)
    requires
        f >= 3,
        unmentioned(bool_value(true), st),
        unmentioned(bool_value(false), st),
    ensures
        decode(bool_value(x), st) == None::<Node>,
        eval_fuel(f, bool_value(x), st, c) == Some((Val::Obj(bool_value(x)), c)),
        truthy_val(Val::Obj(bool_value(x)), st) == x,
{
    let e = empty_object();
    lemma_empty_plain((f - 2) as nat, st, c);
    lemma_empty_plain(f, st, c);
    if x {
        let p = Property { tag: abs(CONTAINS), value: e };
        assert(contains_props(seq![e]) =~= seq![p]);
        assert(bool_value(true) == one(CONTAINS, e));
        lemma_read_one(CONTAINS, e, st);
        lemma_decode_plain(bool_value(true), st);
        lemma_structure_of(seq![p]);
        assert(insert_sorted(Seq::<Property>::empty(), p) =~= seq![p]);
        assert(canonical(seq![p]) =~= seq![p]) by {
            assert(seq![p].drop_last() =~= Seq::<Property>::empty());
            assert(seq![p].last() == p);
            assert(canonical(Seq::<Property>::empty()) =~= Seq::<Property>::empty());
        }
        assert(query_values_spec(st, bool_value(true), abs(CONTAINS)) == seq![e]);
        let s = Structure::of(seq![p]);
        assert(s.seq() == seq![p]);
        assert(seq![p].drop_first() =~= Seq::<Property>::empty());
        assert(eval_props((f - 2) as nat, Seq::<Property>::empty(), st, c) == Some((Some(Seq::<Property>::empty()), c)));
        assert(seq![p] + Seq::<Property>::empty() =~= seq![p]);
        assert(eval_props((f - 1) as nat, s.seq(), st, c) == Some((Some(seq![p]), c)));
    }
}

/// `and` of two booleans evaluates to the boolean of its truth table, and
/// leaves the context as it was.
#[verifier::rlimit(40)]
pub proof fn law_and_truth_table(a: bool, b: bool, st: Seq<SimpleStatement>, c: Seq<Frame>)
    requires
        unmentioned(bool_value(true), st),
        unmentioned(bool_value(false), st),
        unmentioned(node_object(Node::And(BinaryNode { left: bool_value(a), right: bool_value(b) })), st),
    ensures
        eval_fuel(fuel_limit(), node_object(Node::And(BinaryNode { left: bool_value(a), right: bool_value(b) })), st, c)
            == Some((Val::Obj(bool_value(a && b)), c)),
        truthy_val(Val::Obj(bool_value(a && b)), st) == (a && b),
{
    let f = (fuel_limit() - 1) as nat;
    let n = BinaryNode { left: bool_value(a), right: bool_value(b) };
    law_node_roundtrip(Node::And(n), st);
    lemma_bool_plain(a, f, st, c);
    lemma_bool_plain(b, f, st, c);
    lemma_bool_plain(a && b, f, st, c);
    lemma_bool_plain(false, f, st, c);
}

/// `or` of two booleans evaluates to the boolean of its truth table, and
/// leaves the context as it was.
#[verifier::rlimit(40)]
pub proof fn law_or_truth_table(a: bool, b: bool, st: Seq<SimpleStatement>, c: Seq<Frame>)
    requires
        unmentioned(bool_value(true), st),
        unmentioned(bool_value(false), st),
        unmentioned(node_object(Node::Or(BinaryNode { left: bool_value(a), right: bool_value(b) })), st),
    ensures
        eval_fuel(fuel_limit(), node_object(Node::Or(BinaryNode { left: bool_value(a), right: bool_value(b) })), st, c)
            == Some((Val::Obj(bool_value(a || b)), c)),
        truthy_val(Val::Obj(bool_value(a || b)), st) == (a || b),
{
    let f = (fuel_limit() - 1) as nat;
    let n = BinaryNode { left: bool_value(a), right: bool_value(b) };
    law_node_roundtrip(Node::Or(n), st);
    lemma_bool_plain(a, f, st, c);
    lemma_bool_plain(b, f, st, c);
    lemma_bool_plain(a || b, f, st, c);
    lemma_bool_plain(true, f, st, c);
}


impl From<Option<Object>> for ObjectForm {
    /// `None` is any object, `Some(o)` the specific object `o`.
    fn from(value: Option<Object>) -> (r: ObjectForm) {
        match value {
            None => ObjectForm::Any,
            Some(object) => ObjectForm::Specific(object),
        }
    }
}

impl vstd::std_specs::convert::FromSpecImpl<Option<Object>> for ObjectForm {
    open spec fn obeys_from_spec() -> bool {
        true
    }

    open spec fn from_spec(value: Option<Object>) -> ObjectForm {
        match value {
            None => ObjectForm::Any,
            Some(object) => ObjectForm::Specific(object),
        }
    }
}

impl ObjectForm {
    /// The specific object, if the form names one.
    pub fn into_option(self) -> (r: Option<Object>)
        ensures
            r == match self {
                ObjectForm::Any => None,
                ObjectForm::Specific(o) => Some(o),
            },
    {
        match self {
            ObjectForm::Any => None,
            ObjectForm::Specific(object) => Some(object),
        }
    }
}


/// The values of properties that all carry the tag `t` are their values in
/// order.
proof fn lemma_values_of_one_tag(q: Seq<Property>, t: Object)
    requires
        forall|i: int| 0 <= i < q.len() ==> (#[trigger] q[i]).tag == t,
    ensures
        values_of(q, t) == q.map_values(|p: Property| p.value),
    decreases q.len(),
{
    if q.len() > 0 {
        let rest = q.drop_first();
        assert forall|i: int| 0 <= i < rest.len() implies (#[trigger] rest[i]).tag == t by {
            assert(rest[i] == q[i + 1]);
        }
        lemma_values_of_one_tag(rest, t);
        assert(q.map_values(|p: Property| p.value) =~= seq![q[0].value] + rest.map_values(|p: Property| p.value));
    }
}

/// Removing repetitions from a sequence without any changes nothing.
proof fn lemma_distinct_of_distinct(s: Seq<Object>)
    requires
        s.no_duplicates(),
    ensures
        distinct(s) == s,
    decreases s.len(),
{
    if s.len() > 0 {
        let init = s.drop_last();
        assert(init.no_duplicates()) by {
            assert forall|i: int, j: int| 0 <= i < init.len() && 0 <= j < init.len() && i != j implies init[i] != init[j] by {
                assert(init[i] == s[i] && init[j] == s[j]);
            }
        }
        lemma_distinct_of_distinct(init);
        assert(!init.contains(s.last())) by {
            if init.contains(s.last()) {
                let i = choose|i: int| 0 <= i < init.len() && init[i] == s.last();
                assert(s[i] == s[s.len() - 1]);
            }
        }
        assert(init.push(s.last()) =~= s);
    }
}

/// Counting a literal set gives the number of its distinct items, and
/// leaves the context as it was.
#[verifier::rlimit(40)]
pub proof fn law_count_of_literal_set(elements: Seq<Object>, st: Seq<SimpleStatement>, c: Seq<Frame>)
    requires
        unmentioned(set_object(elements), st),
        unmentioned(node_object(Node::Literal(set_object(elements))), st),
        unmentioned(node_object(Node::Count(node_object(Node::Literal(set_object(elements))))), st),
    ensures
        eval_fuel(fuel_limit(), node_object(Node::Count(node_object(Node::Literal(set_object(elements))))), st, c)
            == Some((Val::Obj(integer(elements.to_set().len() as int)), c)),
{
    let set = set_object(elements);
    let lit = node_object(Node::Literal(set));
    law_node_roundtrip(Node::Count(lit), st);
    law_node_roundtrip(Node::Literal(set), st);
    let cp = contains_props(elements);
    let q = canonical(cp);
    lemma_structure_of(cp);
    assert forall|i: int| 0 <= i < q.len() implies (#[trigger] q[i]).tag == abs(CONTAINS) by {
        assert(q.contains(q[i]));
        assert(cp.contains(q[i]));
        let k = choose|k: int| 0 <= k < cp.len() && cp[k] == q[i];
    }
    lemma_values_of_one_tag(q, abs(CONTAINS));
    let vs = q.map_values(|p: Property| p.value);
    lemma_stated_none(st, set, abs(CONTAINS));
    assert(query_values_spec(st, set, abs(CONTAINS)) =~= vs);
    assert(vs.no_duplicates()) by {
        assert forall|i: int, j: int| 0 <= i < vs.len() && 0 <= j < vs.len() && i != j implies vs[i] != vs[j] by {
            assert(q[i].tag == abs(CONTAINS) && q[j].tag == abs(CONTAINS));
            assert(q[i] != q[j]);
        }
    }
    lemma_distinct_of_distinct(vs);
    assert(vs.to_set() =~= elements.to_set()) by {
        assert forall|x: Object| vs.contains(x) <==> elements.contains(x) by {
            let p = Property { tag: abs(CONTAINS), value: x };
            if vs.contains(x) {
                let i = choose|i: int| 0 <= i < vs.len() && vs[i] == x;
                assert(q[i] == p);
                assert(q.contains(p));
                assert(cp.contains(p));
                let k = choose|k: int| 0 <= k < cp.len() && cp[k] == p;
                assert(elements[k] == x);
            }
            if elements.contains(x) {
                let k = choose|k: int| 0 <= k < elements.len() && elements[k] == x;
                assert(cp[k] == p);
                assert(cp.contains(p));
                assert(q.contains(p));
                let i = choose|i: int| 0 <= i < q.len() && q[i] == p;
                assert(vs[i] == x);
            }
        }
    }
    vs.unique_seq_to_set();
    let f = (fuel_limit() - 1) as nat;
    assert(eval_fuel(f, lit, st, c) == Some((Val::Obj(set), c)));
    assert(items(Val::Obj(set), st) == vs);
    assert(count_val(Val::Obj(set), st) == elements.to_set().len());
}


/// The function `x |-> y |-> x`.
pub open spec fn constant_maker() -> Object {
    node_object(Node::Function(node_object(Node::Function(node_object(Node::Parameter(1))))))
}

/// The function `y |-> x` for the object `x`.
pub open spec fn constant_function(x: Object) -> Object {
    node_object(Node::Function(node_object(Node::Literal(x))))
}

/// Calling `x |-> y |-> x` with `x` captures `x`: it gives the function
/// that holds `x` as a literal, and calling that with any `y` gives `x`;
/// both calls leave the context as it was.
#[verifier::spinoff_prover]
#[verifier::rlimit(60)]
pub proof fn law_capture_makes_constant(x: Val, y: Val, st: Seq<SimpleStatement>, c: Seq<Frame>)
    requires
        unmentioned(constant_maker(), st),
        unmentioned(node_object(Node::Function(node_object(Node::Parameter(1)))), st),
        unmentioned(node_object(Node::Parameter(1)), st),
        unmentioned(constant_function(into_object_spec(x)), st),
        unmentioned(node_object(Node::Literal(into_object_spec(x))), st),
    ensures
        call_fuel(fuel_limit(), constant_maker(), st, seq![x], c)
            == Some((Val::Obj(constant_function(into_object_spec(x))), c)),
        call_fuel(fuel_limit(), constant_function(into_object_spec(x)), st, seq![y], c)
            == Some((Val::Obj(into_object_spec(x)), c)),
{
    let xo = into_object_spec(x);
    let p1 = node_object(Node::Parameter(1));
    let inner = node_object(Node::Function(p1));
    let lit = node_object(Node::Literal(xo));
    law_node_roundtrip(Node::Function(inner), st);
    law_node_roundtrip(Node::Function(p1), st);
    law_node_roundtrip(Node::Parameter(1), st);
    law_node_roundtrip(Node::Function(lit), st);
    law_node_roundtrip(Node::Literal(xo), st);
    let big = fuel_limit();
    let c1 = c.push(Frame { function: constant_maker(), parameter: x });
    assert(capture_fuel((big - 3) as nat, p1, st, 1, c1) == Some(lit));
    assert(capture_fuel((big - 2) as nat, inner, st, 0, c1) == Some(constant_function(xo)));
    assert(eval_fuel((big - 1) as nat, inner, st, c1) == Some((Val::Obj(constant_function(xo)), c1)));
    assert(seq![x].drop_first() =~= Seq::<Val>::empty());
    assert(call_fuel((big - 1) as nat, inner, st, Seq::<Val>::empty(), c1) == Some((Val::Obj(constant_function(xo)), c1)));
    assert(c1.drop_last() =~= c);
    let c2 = c.push(Frame { function: constant_function(xo), parameter: y });
    assert(seq![y].drop_first() =~= Seq::<Val>::empty());
    assert(eval_fuel((big - 1) as nat, lit, st, c2) == Some((Val::Obj(xo), c2)));
    assert(call_fuel((big - 1) as nat, lit, st, Seq::<Val>::empty(), c2) == Some((Val::Obj(xo), c2)));
    assert(c2.drop_last() =~= c);
}


/// Filtering `its` with `g` calls `g` on every item, item `i` with `i` fewer
/// steps; it keeps each item on which that call is truthy, and keeps only
/// such items.
#[verifier::spinoff_prover]
proof fn lemma_filter_items(fuel: nat, g: Object, its: Seq<Object>, st: Seq<SimpleStatement>)
    requires
        filter_items(fuel, g, its, st) is Some,
    ensures
        fuel > its.len(),
        forall|i: int| 0 <= i < its.len()
            ==> (#[trigger] call_fuel((fuel - 1 - i) as nat, g, st, seq![Val::Obj(its[i])], Seq::empty())) is Some,
        forall|i: int| 0 <= i < its.len()
            && truthy_val(call_fuel((fuel - 1 - i) as nat, g, st, seq![Val::Obj(its[i])], Seq::empty()).unwrap().0, st)
            ==> filter_items(fuel, g, its, st).unwrap().contains(#[trigger] its[i]),
        forall|x: Object| #[trigger] filter_items(fuel, g, its, st).unwrap().contains(x) ==> exists|i: int|
            0 <= i < its.len() && its[i] == x
            && truthy_val(call_fuel((fuel - 1 - i) as nat, g, st, seq![Val::Obj(its[i])], Seq::empty()).unwrap().0, st),
    decreases its.len(),
{
    if its.len() > 0 {
        let f = (fuel - 1) as nat;
        let rest = its.drop_first();
        lemma_filter_items(f, g, rest, st);
        let out = filter_items(fuel, g, its, st).unwrap();
        let r = call_fuel(f, g, st, seq![Val::Obj(its[0])], Seq::empty()).unwrap().0;
        let tail = filter_items(f, g, rest, st).unwrap();
        assert forall|i: int| 0 <= i < its.len()
            implies (#[trigger] call_fuel((fuel - 1 - i) as nat, g, st, seq![Val::Obj(its[i])], Seq::empty())) is Some by {
            if i > 0 {
                assert(rest[i - 1] == its[i]);
                assert(call_fuel((f - 1 - (i - 1)) as nat, g, st, seq![Val::Obj(rest[i - 1])], Seq::empty()) is Some);
            }
        }
        assert forall|i: int| 0 <= i < its.len()
            && truthy_val(call_fuel((fuel - 1 - i) as nat, g, st, seq![Val::Obj(its[i])], Seq::empty()).unwrap().0, st)
            implies out.contains(#[trigger] its[i]) by {
            if i == 0 {
                assert(out[0] == its[0]);
            } else {
                assert(rest[i - 1] == its[i]);
                assert(tail.contains(rest[i - 1]));
                let k = choose|k: int| 0 <= k < tail.len() && tail[k] == rest[i - 1];
                if truthy_val(r, st) {
                    assert(out[k + 1] == tail[k]);
                } else {
                    assert(out[k] == tail[k]);
                }
            }
        }
        assert forall|x: Object| #[trigger] out.contains(x) implies exists|i: int|
            0 <= i < its.len() && its[i] == x
            && truthy_val(call_fuel((fuel - 1 - i) as nat, g, st, seq![Val::Obj(its[i])], Seq::empty()).unwrap().0, st) by {
            let k = choose|k: int| 0 <= k < out.len() && out[k] == x;
            if truthy_val(r, st) && k == 0 {
                assert(its[0] == x);
            } else {
                let k2 = if truthy_val(r, st) { k - 1 } else { k };
                assert(tail[k2] == x);
                assert(tail.contains(x));
                let j = choose|j: int| 0 <= j < rest.len() && rest[j] == x
                    && truthy_val(call_fuel((f - 1 - j) as nat, g, st, seq![Val::Obj(rest[j])], Seq::empty()).unwrap().0, st);
                assert(its[j + 1] == x);
                assert((fuel - 1 - (j + 1)) as nat == (f - 1 - j) as nat);
            }
        }
    }
}

/// Evaluating a filter node gives exactly the items of its set on which
/// calling its filter function is truthy: the set and the function are
/// evaluated first, then the function is called on each item, the `i`th
/// with `i` fewer steps, and the items whose call is truthy are the result.
#[verifier::spinoff_prover]
pub proof fn law_filter_keeps_exactly_truthy_items(fuel: nat, o: Object, st: Seq<SimpleStatement>, c: Seq<Frame>)
    requires
        decode(o, st) matches Some(Node::Filter(_)),
        eval_fuel(fuel, o, st, c) is Some,
    ensures
        ({
            let m = decode(o, st).unwrap()->Filter_0;
            let (s, g, _) = eval_two((fuel - 1) as nat, m.set, m.filter_function, st, c).unwrap();
            let its = items(s, st);
            let f = into_object_spec(g);
            let out = items(eval_fuel(fuel, o, st, c).unwrap().0, st);
            &&& eval_two((fuel - 1) as nat, m.set, m.filter_function, st, c) is Some
            &&& forall|i: int| 0 <= i < its.len()
                ==> (#[trigger] call_fuel((fuel - 2 - i) as nat, f, st, seq![Val::Obj(its[i])], Seq::empty())) is Some
            &&& forall|i: int| 0 <= i < its.len()
                && truthy_val(call_fuel((fuel - 2 - i) as nat, f, st, seq![Val::Obj(its[i])], Seq::empty()).unwrap().0, st)
                ==> out.contains(#[trigger] its[i])
            &&& forall|x: Object| #[trigger] out.contains(x) ==> exists|i: int|
                0 <= i < its.len() && its[i] == x
                && truthy_val(call_fuel((fuel - 2 - i) as nat, f, st, seq![Val::Obj(its[i])], Seq::empty()).unwrap().0, st)
        }),
{
    let m = decode(o, st).unwrap()->Filter_0;
    let (s, g, _) = eval_two((fuel - 1) as nat, m.set, m.filter_function, st, c).unwrap();
    lemma_filter_items((fuel - 1) as nat, into_object_spec(g), items(s, st), st);
}

/// Mapping `its` with `m` gives, for each item `i`, what calling `m` on it
/// with `i` fewer steps gives, in order.
#[verifier::spinoff_prover]
proof fn lemma_map_items(fuel: nat, m: Object, its: Seq<Object>, st: Seq<SimpleStatement>)
    requires
        map_items(fuel, m, its, st) is Some,
    ensures
        fuel > its.len(),
        map_items(fuel, m, its, st).unwrap().len() == its.len(),
        forall|i: int| 0 <= i < its.len() ==> {
            &&& (#[trigger] call_fuel((fuel - 1 - i) as nat, m, st, seq![Val::Obj(its[i])], Seq::empty())) is Some
            &&& map_items(fuel, m, its, st).unwrap()[i]
                == into_object_spec(call_fuel((fuel - 1 - i) as nat, m, st, seq![Val::Obj(its[i])], Seq::empty()).unwrap().0)
        },
    decreases its.len(),
{
    if its.len() > 0 {
        let f = (fuel - 1) as nat;
        let rest = its.drop_first();
        lemma_map_items(f, m, rest, st);
        assert forall|i: int| 0 < i < its.len() implies #[trigger] its[i] == rest[i - 1]
            && (fuel - 1 - i) as nat == (f - 1 - (i - 1)) as nat by {}
    }
}

/// Checking that calling `p` on every item of `its` is truthy calls `p` on
/// each item in the context `c`, item `i` with `i` fewer steps, and gives
/// true exactly when every call is truthy.
#[verifier::spinoff_prover]
proof fn lemma_every_items(fuel: nat, p: Object, its: Seq<Object>, st: Seq<SimpleStatement>, c: Seq<Frame>)
    requires
        every_items(fuel, p, its, st, c) is Some,
    ensures
        every_items(fuel, p, its, st, c).unwrap().0 <==> forall|i: int| 0 <= i < its.len() ==> {
            &&& (#[trigger] call_fuel((fuel - 1 - i) as nat, p, st, seq![Val::Obj(its[i])], c)) is Some
            &&& truthy_val(call_fuel((fuel - 1 - i) as nat, p, st, seq![Val::Obj(its[i])], c).unwrap().0, st)
        },
    decreases its.len(),
{
    if its.len() > 0 {
        let f = (fuel - 1) as nat;
        let rest = its.drop_first();
        lemma_call_keeps(f, p, st, seq![Val::Obj(its[0])], c);
        if let Some((r, c1)) = call_fuel(f, p, st, seq![Val::Obj(its[0])], c) {
            if truthy_val(r, st) {
                lemma_every_items(f, p, rest, st, c);
                assert forall|i: int| 0 < i < its.len() implies #[trigger] its[i] == rest[i - 1]
                    && (fuel - 1 - i) as nat == (f - 1 - (i - 1)) as nat by {}
                if every_items(fuel, p, its, st, c).unwrap().0 {
                    assert forall|i: int| 0 <= i < its.len() implies {
                        &&& (#[trigger] call_fuel((fuel - 1 - i) as nat, p, st, seq![Val::Obj(its[i])], c)) is Some
                        &&& truthy_val(call_fuel((fuel - 1 - i) as nat, p, st, seq![Val::Obj(its[i])], c).unwrap().0, st)
                    } by {
                        if i > 0 {
                            assert(call_fuel((f - 1 - (i - 1)) as nat, p, st, seq![Val::Obj(rest[i - 1])], c) == call_fuel((fuel - 1 - i) as nat, p, st, seq![Val::Obj(its[i])], c));
                        }
                    }
                } else {
                    let j = choose|j: int| 0 <= j < rest.len() && !({
                        &&& (call_fuel((f - 1 - j) as nat, p, st, seq![Val::Obj(rest[j])], c)) is Some
                        &&& truthy_val(call_fuel((f - 1 - j) as nat, p, st, seq![Val::Obj(rest[j])], c).unwrap().0, st)
                    });
                    assert(its[j + 1] == rest[j]);
                    assert((fuel - 1 - (j + 1)) as nat == (f - 1 - j) as nat);
                    assert(call_fuel((f - 1 - j) as nat, p, st, seq![Val::Obj(rest[j])], c) == call_fuel((fuel - 1 - (j + 1)) as nat, p, st, seq![Val::Obj(its[j + 1])], c));
                }
            } else {
                assert(call_fuel((fuel - 1 - 0) as nat, p, st, seq![Val::Obj(its[0])], c) is Some);
            }
        }
    }
}

/// Checking that calling `p` on some item of `its` is truthy calls `p` on
/// the items in the context `c`, item `i` with `i` fewer steps, and gives
/// true exactly when some call is truthy.
#[verifier::spinoff_prover]
proof fn lemma_any_items(fuel: nat, p: Object, its: Seq<Object>, st: Seq<SimpleStatement>, c: Seq<Frame>)
    requires
        any_items(fuel, p, its, st, c) is Some,
    ensures
        any_items(fuel, p, its, st, c).unwrap().0 <==> exists|i: int| 0 <= i < its.len() && {
            &&& (#[trigger] call_fuel((fuel - 1 - i) as nat, p, st, seq![Val::Obj(its[i])], c)) is Some
            &&& truthy_val(call_fuel((fuel - 1 - i) as nat, p, st, seq![Val::Obj(its[i])], c).unwrap().0, st)
        },
    decreases its.len(),
{
    if its.len() > 0 {
        let f = (fuel - 1) as nat;
        let rest = its.drop_first();
        lemma_call_keeps(f, p, st, seq![Val::Obj(its[0])], c);
        if let Some((r, c1)) = call_fuel(f, p, st, seq![Val::Obj(its[0])], c) {
            if !truthy_val(r, st) {
                lemma_any_items(f, p, rest, st, c);
                assert forall|i: int| 0 < i < its.len() implies #[trigger] its[i] == rest[i - 1]
                    && (fuel - 1 - i) as nat == (f - 1 - (i - 1)) as nat by {}
                if any_items(fuel, p, its, st, c).unwrap().0 {
                    let j = choose|j: int| 0 <= j < rest.len() && {
                        &&& (call_fuel((f - 1 - j) as nat, p, st, seq![Val::Obj(rest[j])], c)) is Some
                        &&& truthy_val(call_fuel((f - 1 - j) as nat, p, st, seq![Val::Obj(rest[j])], c).unwrap().0, st)
                    };
                    assert(its[j + 1] == rest[j]);
                    assert((fuel - 1 - (j + 1)) as nat == (f - 1 - j) as nat);
                    assert(call_fuel((fuel - 1 - (j + 1)) as nat, p, st, seq![Val::Obj(its[j + 1])], c) is Some);
                } else {
                    assert forall|i: int| 0 <= i < its.len() implies !({
                        &&& (#[trigger] call_fuel((fuel - 1 - i) as nat, p, st, seq![Val::Obj(its[i])], c)) is Some
                        &&& truthy_val(call_fuel((fuel - 1 - i) as nat, p, st, seq![Val::Obj(its[i])], c).unwrap().0, st)
                    }) by {
                        if i > 0 {
                            assert(its[i] == rest[i - 1]);
                            assert(call_fuel((f - 1 - (i - 1)) as nat, p, st, seq![Val::Obj(rest[i - 1])], c) == call_fuel((fuel - 1 - i) as nat, p, st, seq![Val::Obj(its[i])], c));
                        }
                    }
                }
            } else {
                assert(call_fuel((fuel - 1 - 0) as nat, p, st, seq![Val::Obj(its[0])], c) is Some);
            }
        }
    }
}

/// Evaluating a mapping node gives, for each item of its set in order, what
/// calling its mapper function on the item gives: the set and the function
/// are evaluated first, then the function is called on the `i`th item with
/// `i` fewer steps, each in a fresh context.
#[verifier::spinoff_prover]
pub proof fn law_map_calls_each_item(fuel: nat, o: Object, st: Seq<SimpleStatement>, c: Seq<Frame>)
    requires
        decode(o, st) matches Some(Node::Mapping(_)),
        eval_fuel(fuel, o, st, c) is Some,
    ensures
        ({
            let m = decode(o, st).unwrap()->Mapping_0;
            let (s, g, _) = eval_two((fuel - 1) as nat, m.set, m.mapper_function, st, c).unwrap();
            let its = items(s, st);
            let f = into_object_spec(g);
            let out = items(eval_fuel(fuel, o, st, c).unwrap().0, st);
            &&& eval_two((fuel - 1) as nat, m.set, m.mapper_function, st, c) is Some
            &&& out.len() == its.len()
            &&& forall|i: int| 0 <= i < its.len() ==> {
                &&& (#[trigger] call_fuel((fuel - 2 - i) as nat, f, st, seq![Val::Obj(its[i])], Seq::empty())) is Some
                &&& out[i] == into_object_spec(call_fuel((fuel - 2 - i) as nat, f, st, seq![Val::Obj(its[i])], Seq::empty()).unwrap().0)
            }
        }),
{
    let m = decode(o, st).unwrap()->Mapping_0;
    let (s, g, _) = eval_two((fuel - 1) as nat, m.set, m.mapper_function, st, c).unwrap();
    lemma_map_items((fuel - 1) as nat, into_object_spec(g), items(s, st), st);
}

/// Evaluating an `every` node gives true exactly when calling its
/// predicate on each item of its set is truthy; each call is made in the
/// context the set and the predicate left, on the `i`th item with `i`
/// fewer steps.
#[verifier::spinoff_prover]
pub proof fn law_every_node(fuel: nat, o: Object, st: Seq<SimpleStatement>, c: Seq<Frame>)
    requires
        decode(o, st) matches Some(Node::Every(_)),
        eval_fuel(fuel, o, st, c) is Some,
    ensures
        ({
            let p = decode(o, st).unwrap()->Every_0;
            let (s, g, c1) = eval_two((fuel - 1) as nat, p.set, p.predicate, st, c).unwrap();
            let its = items(s, st);
            let f = into_object_spec(g);
            &&& eval_two((fuel - 1) as nat, p.set, p.predicate, st, c) is Some
            &&& eval_fuel(fuel, o, st, c).unwrap().0 == Val::Obj(bool_value(forall|i: int| 0 <= i < its.len() ==> {
                &&& (#[trigger] call_fuel((fuel - 2 - i) as nat, f, st, seq![Val::Obj(its[i])], c1)) is Some
                &&& truthy_val(call_fuel((fuel - 2 - i) as nat, f, st, seq![Val::Obj(its[i])], c1).unwrap().0, st)
            }))
        }),
{
    let p = decode(o, st).unwrap()->Every_0;
    let (s, g, c1) = eval_two((fuel - 1) as nat, p.set, p.predicate, st, c).unwrap();
    lemma_every_items((fuel - 1) as nat, into_object_spec(g), items(s, st), st, c1);
}

/// Evaluating an `any` node gives true exactly when calling its predicate
/// on some item of its set is truthy; each call is made in the context the
/// set and the predicate left, on the `i`th item with `i` fewer steps.
#[verifier::spinoff_prover]
pub proof fn law_any_node(fuel: nat, o: Object, st: Seq<SimpleStatement>, c: Seq<Frame>)
    requires
        decode(o, st) matches Some(Node::Any(_)),
        eval_fuel(fuel, o, st, c) is Some,
    ensures
        ({
            let p = decode(o, st).unwrap()->Any_0;
            let (s, g, c1) = eval_two((fuel - 1) as nat, p.set, p.predicate, st, c).unwrap();
            let its = items(s, st);
            let f = into_object_spec(g);
            &&& eval_two((fuel - 1) as nat, p.set, p.predicate, st, c) is Some
            &&& eval_fuel(fuel, o, st, c).unwrap().0 == Val::Obj(bool_value(exists|i: int| 0 <= i < its.len() && {
                &&& (#[trigger] call_fuel((fuel - 2 - i) as nat, f, st, seq![Val::Obj(its[i])], c1)) is Some
                &&& truthy_val(call_fuel((fuel - 2 - i) as nat, f, st, seq![Val::Obj(its[i])], c1).unwrap().0, st)
            }))
        }),
{
    let p = decode(o, st).unwrap()->Any_0;
    let (s, g, c1) = eval_two((fuel - 1) as nat, p.set, p.predicate, st, c).unwrap();
    lemma_any_items((fuel - 1) as nat, into_object_spec(g), items(s, st), st, c1);
}

/// `not` gives the boolean that is true exactly when its operand is not
/// truthy.
#[verifier::spinoff_prover]
pub proof fn law_not_node(fuel: nat, o: Object, st: Seq<SimpleStatement>, c: Seq<Frame>)
    requires
        decode(o, st) matches Some(Node::Not(_)),
        eval_fuel(fuel, o, st, c) is Some,
    ensures
        ({
            let x = decode(o, st).unwrap()->Not_0;
            &&& eval_fuel((fuel - 1) as nat, x, st, c) is Some
            &&& eval_fuel(fuel, o, st, c).unwrap().0
                == Val::Obj(bool_value(!truthy_val(eval_fuel((fuel - 1) as nat, x, st, c).unwrap().0, st)))
        }),
{
}

/// `and` gives the boolean that is true exactly when its left operand is
/// truthy and then its right one, evaluated after it, is too; a left one
/// that is not truthy leaves the right one unevaluated.
#[verifier::spinoff_prover]
pub proof fn law_and_node(fuel: nat, o: Object, st: Seq<SimpleStatement>, c: Seq<Frame>)
    requires
        decode(o, st) matches Some(Node::And(_)),
        eval_fuel(fuel, o, st, c) is Some,
    ensures
        ({
            let b = decode(o, st).unwrap()->And_0;
            let (l, c1) = eval_fuel((fuel - 1) as nat, b.left, st, c).unwrap();
            &&& eval_fuel((fuel - 1) as nat, b.left, st, c) is Some
            &&& !truthy_val(l, st) ==> eval_fuel(fuel, o, st, c).unwrap() == (Val::Obj(bool_value(false)), c1)
            &&& truthy_val(l, st) ==> eval_fuel(fuel, o, st, c).unwrap().0
                == Val::Obj(bool_value(truthy_val(eval_fuel((fuel - 1) as nat, b.right, st, c1).unwrap().0, st)))
        }),
{
}

/// `or` gives the boolean that is true exactly when its left operand is
/// truthy or else its right one, evaluated after it, is; a truthy left one
/// leaves the right one unevaluated.
#[verifier::spinoff_prover]
pub proof fn law_or_node(fuel: nat, o: Object, st: Seq<SimpleStatement>, c: Seq<Frame>)
    requires
        decode(o, st) matches Some(Node::Or(_)),
        eval_fuel(fuel, o, st, c) is Some,
    ensures
        ({
            let b = decode(o, st).unwrap()->Or_0;
            let (l, c1) = eval_fuel((fuel - 1) as nat, b.left, st, c).unwrap();
            &&& eval_fuel((fuel - 1) as nat, b.left, st, c) is Some
            &&& truthy_val(l, st) ==> eval_fuel(fuel, o, st, c).unwrap() == (Val::Obj(bool_value(true)), c1)
            &&& !truthy_val(l, st) ==> eval_fuel(fuel, o, st, c).unwrap().0
                == Val::Obj(bool_value(truthy_val(eval_fuel((fuel - 1) as nat, b.right, st, c1).unwrap().0, st)))
        }),
{
}

/// `xor` gives the boolean that is true exactly when one of its two
/// operands is truthy and the other is not.
#[verifier::spinoff_prover]
pub proof fn law_xor_node(fuel: nat, o: Object, st: Seq<SimpleStatement>, c: Seq<Frame>)
    requires
        decode(o, st) matches Some(Node::Xor(_)),
        eval_fuel(fuel, o, st, c) is Some,
    ensures
        ({
            let b = decode(o, st).unwrap()->Xor_0;
            let (l, r, _) = eval_two((fuel - 1) as nat, b.left, b.right, st, c).unwrap();
            &&& eval_two((fuel - 1) as nat, b.left, b.right, st, c) is Some
            &&& eval_fuel(fuel, o, st, c).unwrap().0 == Val::Obj(bool_value(
                (truthy_val(l, st) && !truthy_val(r, st)) || (!truthy_val(l, st) && truthy_val(r, st))))
        }),
{
}

/// `equal` gives the boolean that is true exactly when its two operands
/// are the same object.
#[verifier::spinoff_prover]
pub proof fn law_equal_node(fuel: nat, o: Object, st: Seq<SimpleStatement>, c: Seq<Frame>)
    requires
        decode(o, st) matches Some(Node::Equal(_)),
        eval_fuel(fuel, o, st, c) is Some,
    ensures
        ({
            let b = decode(o, st).unwrap()->Equal_0;
            let (l, r, _) = eval_two((fuel - 1) as nat, b.left, b.right, st, c).unwrap();
            &&& eval_two((fuel - 1) as nat, b.left, b.right, st, c) is Some
            &&& eval_fuel(fuel, o, st, c).unwrap().0 == Val::Obj(bool_value(into_object_spec(l) == into_object_spec(r)))
        }),
{
}

/// `less` of two objects that read as integers `x` and `y` gives the
/// boolean that is true exactly when `x < y`.
#[verifier::spinoff_prover]
pub proof fn law_less_integers(fuel: nat, o: Object, st: Seq<SimpleStatement>, c: Seq<Frame>, x: int, y: int)
    requires
        decode(o, st) matches Some(Node::Less(_)),
        eval_fuel(fuel, o, st, c) is Some,
        ({
            let b = decode(o, st).unwrap()->Less_0;
            let (l, r, _) = eval_two((fuel - 1) as nat, b.left, b.right, st, c).unwrap();
            &&& l matches Val::Obj(a) && to_integer_spec(a, st) == Some(x)
            &&& r matches Val::Obj(a) && to_integer_spec(a, st) == Some(y)
        }),
    ensures
        eval_fuel(fuel, o, st, c).unwrap().0 == Val::Obj(bool_value(x < y)),
{
}

/// `add` of two objects that read as integers `x` and `y` gives an object
/// that reads as `x + y` when that fits an `i128`, and the overflow marker
/// otherwise; an operand that reads as no integer gives the undefined
/// marker.
#[verifier::spinoff_prover]
pub proof fn law_add_integers(fuel: nat, o: Object, st: Seq<SimpleStatement>, c: Seq<Frame>)
    requires
        decode(o, st) matches Some(Node::Add(_)),
        eval_fuel(fuel, o, st, c) is Some,
    ensures
        ({
            let b = decode(o, st).unwrap()->Add_0;
            let (l, r, _) = eval_two((fuel - 1) as nat, b.left, b.right, st, c).unwrap();
            let x = to_integer_spec(into_object_spec(l), st);
            let y = to_integer_spec(into_object_spec(r), st);
            let v = eval_fuel(fuel, o, st, c).unwrap().0;
            &&& eval_two((fuel - 1) as nat, b.left, b.right, st, c) is Some
            &&& (x is Some && y is Some && i128::MIN <= x.unwrap() + y.unwrap() <= i128::MAX)
                ==> (v matches Val::Obj(a) && to_integer_spec(a, st) == Some(x.unwrap() + y.unwrap()))
            &&& (x is Some && y is Some && !(i128::MIN <= x.unwrap() + y.unwrap() <= i128::MAX))
                ==> v == Val::Obj(abs(ARITHMETIC_OVERFLOW))
            &&& (x is None || y is None) ==> v == Val::Obj(abs(UNDEFINED))
        }),
{
    let b = decode(o, st).unwrap()->Add_0;
    let (l, r, _) = eval_two((fuel - 1) as nat, b.left, b.right, st, c).unwrap();
    let x = to_integer_spec(into_object_spec(l), st);
    let y = to_integer_spec(into_object_spec(r), st);
    if x is Some && y is Some && i128::MIN <= x.unwrap() + y.unwrap() <= i128::MAX {
        law_integer_reads_back((x.unwrap() + y.unwrap()) as i128, st);
    }
}

/// `multiply` of two objects that read as integers `x` and `y` gives an
/// object that reads as `x * y` when that fits an `i128`, and the overflow
/// marker otherwise; an operand that reads as no integer gives the
/// undefined marker.
#[verifier::spinoff_prover]
pub proof fn law_multiply_integers(fuel: nat, o: Object, st: Seq<SimpleStatement>, c: Seq<Frame>)
    requires
        decode(o, st) matches Some(Node::Multiply(_)),
        eval_fuel(fuel, o, st, c) is Some,
    ensures
        ({
            let b = decode(o, st).unwrap()->Multiply_0;
            let (l, r, _) = eval_two((fuel - 1) as nat, b.left, b.right, st, c).unwrap();
            let x = to_integer_spec(into_object_spec(l), st);
            let y = to_integer_spec(into_object_spec(r), st);
            let v = eval_fuel(fuel, o, st, c).unwrap().0;
            &&& eval_two((fuel - 1) as nat, b.left, b.right, st, c) is Some
            &&& (x is Some && y is Some && i128::MIN <= x.unwrap() * y.unwrap() <= i128::MAX)
                ==> (v matches Val::Obj(a) && to_integer_spec(a, st) == Some(x.unwrap() * y.unwrap()))
            &&& (x is Some && y is Some && !(i128::MIN <= x.unwrap() * y.unwrap() <= i128::MAX))
                ==> v == Val::Obj(abs(ARITHMETIC_OVERFLOW))
            &&& (x is None || y is None) ==> v == Val::Obj(abs(UNDEFINED))
        }),
{
    let b = decode(o, st).unwrap()->Multiply_0;
    let (l, r, _) = eval_two((fuel - 1) as nat, b.left, b.right, st, c).unwrap();
    let x = to_integer_spec(into_object_spec(l), st);
    let y = to_integer_spec(into_object_spec(r), st);
    if x is Some && y is Some && i128::MIN <= x.unwrap() * y.unwrap() <= i128::MAX {
        law_integer_reads_back((x.unwrap() * y.unwrap()) as i128, st);
    }
}

/// `union` holds exactly the items of either operand.
#[verifier::spinoff_prover]
pub proof fn law_union_node(fuel: nat, o: Object, st: Seq<SimpleStatement>, c: Seq<Frame>)
    requires
        decode(o, st) matches Some(Node::Union(_)),
        eval_fuel(fuel, o, st, c) is Some,
    ensures
        ({
            let b = decode(o, st).unwrap()->Union_0;
            let (l, r, _) = eval_two((fuel - 1) as nat, b.left, b.right, st, c).unwrap();
            &&& eval_two((fuel - 1) as nat, b.left, b.right, st, c) is Some
            &&& forall|x: Object| #[trigger] items(eval_fuel(fuel, o, st, c).unwrap().0, st).contains(x)
                <==> (items(l, st).contains(x) || items(r, st).contains(x))
        }),
{
    let b = decode(o, st).unwrap()->Union_0;
    let (l, r, _) = eval_two((fuel - 1) as nat, b.left, b.right, st, c).unwrap();
    let a = items(l, st);
    let d = items(r, st);
    assert(items(eval_fuel(fuel, o, st, c).unwrap().0, st) == a + d);
    lemma_concat_contains(a, d);
}

/// The items of two sequences put together are the items of either.
proof fn lemma_concat_contains(a: Seq<Object>, d: Seq<Object>)
    ensures
        forall|x: Object| #[trigger] (a + d).contains(x) <==> (a.contains(x) || d.contains(x)),
{
    assert forall|x: Object| #[trigger] (a + d).contains(x) <==> (a.contains(x) || d.contains(x)) by {
        if (a + d).contains(x) {
            let j = choose|j: int| 0 <= j < (a + d).len() && (a + d)[j] == x;
            if j < a.len() {
                assert(a[j] == x);
            } else {
                assert(d[j - a.len()] == x);
            }
        }
        if a.contains(x) {
            let j = choose|j: int| 0 <= j < a.len() && a[j] == x;
            assert((a + d)[j] == x);
        }
        if d.contains(x) {
            let j = choose|j: int| 0 <= j < d.len() && d[j] == x;
            assert((a + d)[j + a.len()] == x);
        }
    }
}

/// `if` evaluates its condition, then the branch that the condition's
/// truthiness picks, in the context the condition left; the other branch
/// is not evaluated.
#[verifier::spinoff_prover]
pub proof fn law_if_node(fuel: nat, o: Object, st: Seq<SimpleStatement>, c: Seq<Frame>)
    requires
        decode(o, st) matches Some(Node::If(_)),
        eval_fuel(fuel, o, st, c) is Some,
    ensures
        ({
            let n = decode(o, st).unwrap()->If_0;
            let (v, c1) = eval_fuel((fuel - 1) as nat, n.condition, st, c).unwrap();
            &&& eval_fuel((fuel - 1) as nat, n.condition, st, c) is Some
            &&& truthy_val(v, st) ==> eval_fuel(fuel, o, st, c) == eval_fuel((fuel - 1) as nat, n.then_branch, st, c1)
            &&& !truthy_val(v, st) ==> eval_fuel(fuel, o, st, c) == eval_fuel((fuel - 1) as nat, n.otherwise, st, c1)
        }),
{
}

/// Checking the properties `ps` of `s` successfully means that each has a
/// tag with an `AXIOMATIC` constraint, and that calling that constraint
/// with `s` and the property's value, the `k`th with `k` fewer steps, is
/// truthy.
#[verifier::spinoff_prover]
proof fn lemma_valid_props_pass(fuel: nat, s: Structure, ps: Seq<Property>, st: Seq<SimpleStatement>, recursive: bool)
    requires
        valid_props(fuel, s, ps, st, recursive) == Some(Ok::<(), KnowledgeError>(())),
    ensures
        forall|k: int| 0 <= k < ps.len() ==> {
            let p = #[trigger] ps[k];
            let constraints = query_values_spec(st, p.tag, abs(AXIOMATIC));
            let call = call_fuel((fuel - 1 - k) as nat, constraints[0], st,
                seq![Val::Obj(Object::Structure(s)), Val::Obj(p.value)], Seq::empty());
            &&& fuel >= k + 1
            &&& constraints.len() > 0
            &&& call is Some
            &&& truthy_val(call.unwrap().0, st)
        },
    decreases ps.len(),
{
    if ps.len() > 0 {
        let f = (fuel - 1) as nat;
        let rest = ps.drop_first();
        let p = ps[0];
        let constraints = query_values_spec(st, p.tag, abs(AXIOMATIC));
        let r = call_fuel(f, constraints[0], st, seq![Val::Obj(Object::Structure(s)), Val::Obj(p.value)], Seq::empty()).unwrap().0;
        if recursive {
            match valid_fuel(f, p.tag, st, true) {
                Some(Ok(u)) => {
                    assert(u == ());
                    match valid_fuel(f, p.value, st, true) {
                        Some(Ok(w)) => {
                            assert(w == ());
                        },
                        _ => {},
                    }
                },
                _ => {},
            }
        }
        lemma_valid_props_pass(f, s, rest, st, recursive);
        assert forall|k: int| 0 < k < ps.len() implies #[trigger] ps[k] == rest[k - 1]
            && (fuel - 1 - k) as nat == (f - 1 - (k - 1)) as nat by {}
    }
}

/// A valid structure satisfies the constraint of each of its properties'
/// tags: the tag has an `AXIOMATIC` constraint, and calling it with the
/// structure and the property's value is truthy.
pub proof fn law_valid_structure_satisfies_constraints(fuel: nat, s: Structure, st: Seq<SimpleStatement>, recursive: bool)
    requires
        valid_fuel(fuel, Object::Structure(s), st, recursive) == Some(Ok::<(), KnowledgeError>(())),
        s.seq().len() > 0,
    ensures
        forall|k: int| 0 <= k < s.seq().len() ==> {
            let p = #[trigger] s.seq()[k];
            let constraints = query_values_spec(st, p.tag, abs(AXIOMATIC));
            let call = call_fuel((fuel - 2 - k) as nat, constraints[0], st,
                seq![Val::Obj(Object::Structure(s)), Val::Obj(p.value)], Seq::empty());
            &&& constraints.len() > 0
            &&& call is Some
            &&& truthy_val(call.unwrap().0, st)
        },
{
    lemma_valid_props_pass((fuel - 1) as nat, s, s.seq(), st, recursive);
}

/// `distinct(s)` holds each item of `s` once.
proof fn lemma_distinct(s: Seq<Object>)
    ensures
        distinct(s).no_duplicates(),
        forall|x: Object| #[trigger] distinct(s).contains(x) <==> s.contains(x),
    decreases s.len(),
{
    if s.len() > 0 {
        let rest = s.drop_last();
        lemma_distinct(rest);
        let r = distinct(rest);
        assert forall|x: Object| #[trigger] distinct(s).contains(x) <==> s.contains(x) by {
            if s.contains(x) {
                let k = choose|k: int| 0 <= k < s.len() && s[k] == x;
                if k < s.len() - 1 {
                    assert(rest[k] == x);
                    assert(rest.contains(x));
                    assert(r.contains(x));
                    let j = choose|j: int| 0 <= j < r.len() && r[j] == x;
                    if !r.contains(s.last()) {
                        assert(r.push(s.last())[j] == x);
                    }
                } else if !r.contains(s.last()) {
                    assert(r.push(s.last())[r.len() as int] == x);
                }
            }
            if distinct(s).contains(x) {
                if r.contains(x) {
                    assert(rest.contains(x));
                    let k = choose|k: int| 0 <= k < rest.len() && rest[k] == x;
                    assert(s[k] == x);
                } else {
                    let j = choose|j: int| 0 <= j < distinct(s).len() && distinct(s)[j] == x;
                    assert(j == r.len());
                    assert(s[s.len() - 1] == x);
                }
            }
        }
    }
}

/// `count` of a value gives the object of the number of different items
/// it holds, which reads back as that number.
#[verifier::spinoff_prover]
pub proof fn law_count_node(fuel: nat, o: Object, st: Seq<SimpleStatement>, c: Seq<Frame>)
    requires
        decode(o, st) matches Some(Node::Count(_)),
        eval_fuel(fuel, o, st, c) is Some,
    ensures
        ({
            let x = decode(o, st).unwrap()->Count_0;
            let v = eval_fuel((fuel - 1) as nat, x, st, c).unwrap().0;
            let n = items(v, st).to_set().len();
            &&& eval_fuel((fuel - 1) as nat, x, st, c) is Some
            &&& eval_fuel(fuel, o, st, c).unwrap().0 == Val::Obj(integer(n as int))
            &&& n <= i128::MAX ==> to_integer_spec(integer(n as int), st) == Some(n as int)
        }),
{
    let x = decode(o, st).unwrap()->Count_0;
    let v = eval_fuel((fuel - 1) as nat, x, st, c).unwrap().0;
    let its = items(v, st);
    lemma_distinct(its);
    assert(distinct(its).to_set() =~= its.to_set());
    distinct(its).unique_seq_to_set();
    let n = its.to_set().len();
    if n <= i128::MAX {
        law_integer_reads_back(n as i128, st);
    }
}

} // verus!
