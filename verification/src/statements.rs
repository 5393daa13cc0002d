//! A store of statements `(subject, tag, value)`, and the queries over it.
//! A query for the values of a subject on a tag yields the subject's own
//! properties with that tag first, then the values of the matching stored
//! statements that the subject does not already hold.

use vstd::prelude::*;

use crate::abstracts::{CONTAINS, STATEMENT_SUBJECT, STATEMENT_TAG, STATEMENT_VALUE};
use crate::nodes::{three, two};
use crate::object::{Abstract, Object, Property, Structure, abs, values_of};

verus! {

/// A statement `(subject, tag, value)`.
#[derive(Debug, PartialEq)]
pub struct SimpleStatement {
    pub subject: Object,
    pub tag: Object,
    pub value: Object,
}

/// A collection of statements.
#[derive(Debug)]
pub struct Statements {
    statements: Vec<SimpleStatement>,
}

impl View for Statements {
    type V = Seq<SimpleStatement>;

    closed spec fn view(&self) -> Seq<SimpleStatement> {
        self.statements@
    }
}

/// The values of `o`'s own properties tagged `tag`; none for an object that
/// is not a structure.
pub open spec fn own_values(o: Object, tag: Object) -> Seq<Object> {
    match o {
        Object::Structure(s) => s.values_spec(tag),
        _ => Seq::empty(),
    }
}

/// The values of the statements in `st` about `subject` and `tag` that the
/// subject does not already hold itself, in order.
pub open spec fn stated_values(st: Seq<SimpleStatement>, subject: Object, tag: Object) -> Seq<Object>
    decreases st.len(),
{
    if st.len() == 0 {
        Seq::empty()
    } else {
        let rest = stated_values(st.drop_first(), subject, tag);
        if st[0].subject == subject && st[0].tag == tag && !own_values(subject, tag).contains(st[0].value) {
            seq![st[0].value] + rest
        } else {
            rest
        }
    }
}

/// The values of `subject` on `tag`: its own, then the stated ones.
pub open spec fn query_values_spec(st: Seq<SimpleStatement>, subject: Object, tag: Object) -> Seq<Object> {
    own_values(subject, tag) + stated_values(st, subject, tag)
}

/// The only element of `s`, if it has exactly one.
pub open spec fn only(s: Seq<Object>) -> Option<Object> {
    if s.len() == 1 {
        Some(s[0])
    } else {
        None
    }
}

/// The first element of `s`, if it has one.
pub open spec fn first(s: Seq<Object>) -> Option<Object> {
    if s.len() > 0 {
        Some(s[0])
    } else {
        None
    }
}

/// Whether `v` holds an element equal to `o`.
pub fn contains_object(v: &Vec<Object>, o: &Object) -> (r: bool)
    ensures
        r == v@.contains(*o),
{
    let mut i: usize = 0;
    while i < v.len()
        invariant
            i <= v.len(),
            forall|j: int| 0 <= j < i ==> v@[j] != *o,
        decreases v.len() - i,
    {
        if v[i].same(o) {
            return true;
        }
        i = i + 1;
    }
    false
}

/// The item of `items` if it is the only one.
pub fn next_and_last(items: Vec<Object>) -> (r: Option<Object>)
    ensures
        r == only(items@),
{
    let mut items = items;
    if items.len() == 1 {
        items.pop()
    } else {
        None
    }
}

impl SimpleStatement {
    /// The statement `(subject, tag, value)` about an abstract subject.
    pub fn new(subject: Abstract, tag: Object, value: Object) -> (r: SimpleStatement)
        ensures
            r == (SimpleStatement { subject: Object::Abstract(subject), tag, value }),
    {
        SimpleStatement { subject: Object::Abstract(subject), tag, value }
    }
}

impl Statements {
    /// The store holding `statements`.
    pub fn from_vec(statements: Vec<SimpleStatement>) -> (r: Statements)
        ensures
            r@ == statements@,
    {
        Statements { statements }
    }

    /// The number of stored statements.
    pub fn len(&self) -> (r: usize)
        ensures
            r == self@.len(),
    {
        self.statements.len()
    }

    /// The values of `subject` on `tag`.
    pub fn query_values(&self, subject: &Object, tag: &Object) -> (r: Vec<Object>)
        ensures
            r@ == query_values_spec(self@, *subject, *tag),
    {
        let own = match subject {
            Object::Structure(s) => s.values(tag),
            _ => Vec::new(),
        };
        assert(own@ == own_values(*subject, *tag));
        let mut out = Vec::new();
        let mut i: usize = self.statements.len();
        while i > 0
            invariant
                i <= self.statements@.len(),
                own@ == own_values(*subject, *tag),
                out@ == stated_values(self.statements@.skip(i as int), *subject, *tag),
            decreases i,
        {
            i = i - 1;
            let st = &self.statements[i];
            let ghost tail = self.statements@.skip(i as int);
            assert(tail[0] == self.statements@[i as int]);
            assert(tail.drop_first() =~= self.statements@.skip(i as int + 1));
            if st.subject.same(subject) && st.tag.same(tag) && !contains_object(&own, &st.value) {
                let mut front = vec![st.value.duplicate()];
                front.append(&mut out);
                out = front;
                assert(out@ =~= seq![st.value] + stated_values(self.statements@.skip(i as int + 1), *subject, *tag));
            }
        }
        assert(self.statements@.skip(0) =~= self.statements@);
        let mut all = own;
        all.append(&mut out);
        all
    }
}


/// The objects that `pick` makes of the statements of `st` that `keep`
/// accepts, in order.
pub open spec fn picked(
    st: Seq<SimpleStatement>,
    keep: spec_fn(SimpleStatement) -> bool,
    pick: spec_fn(SimpleStatement) -> Object,
) -> Seq<Object>
    decreases st.len(),
{
    if st.len() == 0 {
        Seq::empty()
    } else {
        let rest = picked(st.drop_last(), keep, pick);
        if keep(st.last()) {
            rest.push(pick(st.last()))
        } else {
            rest
        }
    }
}

/// The subjects of the stored statements with tag `tag` and value `value`.
pub open spec fn query_subjects_spec(st: Seq<SimpleStatement>, tag: Object, value: Object) -> Seq<Object> {
    picked(st, |s: SimpleStatement| s.tag == tag && s.value == value, |s: SimpleStatement| s.subject)
}

/// The tags of `o`'s own properties with value `value`; none for an object
/// that is not a structure.
pub open spec fn own_tags(o: Object, value: Object) -> Seq<Object> {
    match o {
        Object::Structure(s) => tags_with_value(s.seq(), value),
        _ => Seq::empty(),
    }
}

/// The tags of the properties in `props` whose value is `value`, in order.
pub open spec fn tags_with_value(props: Seq<Property>, value: Object) -> Seq<Object>
    decreases props.len(),
{
    if props.len() == 0 {
        Seq::empty()
    } else {
        let rest = tags_with_value(props.drop_last(), value);
        if props.last().value == value {
            rest.push(props.last().tag)
        } else {
            rest
        }
    }
}

/// One more statement extends the picked objects by at most its own.
proof fn lemma_picked_step(
    st: Seq<SimpleStatement>,
    i: int,
    keep: spec_fn(SimpleStatement) -> bool,
    pick: spec_fn(SimpleStatement) -> Object,
)
    requires
        0 <= i < st.len(),
    ensures
        picked(st.take(i + 1), keep, pick) == if keep(st[i]) {
            picked(st.take(i), keep, pick).push(pick(st[i]))
        } else {
            picked(st.take(i), keep, pick)
        },
{
    assert(st.take(i + 1).drop_last() =~= st.take(i));
    assert(st.take(i + 1).last() == st[i]);
}

/// The tags under which `subject` has `value`: its own, then the stored
/// ones.
pub open spec fn query_tags_spec(st: Seq<SimpleStatement>, subject: Object, value: Object) -> Seq<Object> {
    own_tags(subject, value) + picked(
        st,
        |s: SimpleStatement| s.subject == subject && s.value == value,
        |s: SimpleStatement| s.tag,
    )
}

/// The pair `{(STATEMENT_TAG, tag), (STATEMENT_VALUE, value)}`.
pub open spec fn tag_value_pair(tag: Object, value: Object) -> Object {
    two(STATEMENT_TAG, tag, STATEMENT_VALUE, value)
}

/// The tag and value pairs of `subject`: its own properties, then the
/// stored statements about it.
pub open spec fn query_tags_and_values_spec(st: Seq<SimpleStatement>, subject: Object) -> Seq<Object> {
    let own = match subject {
        Object::Structure(s) => s.seq().map_values(|p: Property| tag_value_pair(p.tag, p.value)),
        _ => Seq::empty(),
    };
    own + picked(st, |s: SimpleStatement| s.subject == subject, |s: SimpleStatement| tag_value_pair(s.tag, s.value))
}

/// The subject and value pairs of the stored statements with tag `tag`.
pub open spec fn query_subjects_and_values_spec(st: Seq<SimpleStatement>, tag: Object) -> Seq<Object> {
    picked(
        st,
        |s: SimpleStatement| s.tag == tag,
        |s: SimpleStatement| two(STATEMENT_SUBJECT, s.subject, STATEMENT_VALUE, s.value),
    )
}

/// The subject and tag pairs of the stored statements with value `value`.
pub open spec fn query_subjects_and_tags_spec(st: Seq<SimpleStatement>, value: Object) -> Seq<Object> {
    picked(
        st,
        |s: SimpleStatement| s.value == value,
        |s: SimpleStatement| two(STATEMENT_SUBJECT, s.subject, STATEMENT_TAG, s.tag),
    )
}

/// The statement `s` written as a structure.
pub open spec fn statement_object(s: SimpleStatement) -> Object {
    three(STATEMENT_SUBJECT, s.subject, STATEMENT_TAG, s.tag, STATEMENT_VALUE, s.value)
}

/// Every stored statement, written as a structure.
pub open spec fn all_statements_spec(st: Seq<SimpleStatement>) -> Seq<Object> {
    picked(st, |s: SimpleStatement| true, |s: SimpleStatement| statement_object(s))
}

/// The structure `{(t1, v1), (t2, v2)}`.
fn pair(t1: u128, v1: &Object, t2: u128, v2: &Object) -> (r: Object)
    ensures
        r == two(t1, *v1, t2, *v2),
{
    let mut props: Vec<Property> = Vec::new();
    props.push(Property { tag: Object::Abstract(Abstract(t1)), value: v1.duplicate() });
    props.push(Property { tag: Object::Abstract(Abstract(t2)), value: v2.duplicate() });
    assert(props@ =~= seq![Property { tag: abs(t1), value: *v1 }, Property { tag: abs(t2), value: *v2 }]);
    Object::Structure(Structure::new(props))
}

impl Statements {
    /// The subjects of the stored statements `(_, tag, value)`.
    #[verifier::loop_isolation(false)]
    pub fn query_subjects(&self, tag: &Object, value: &Object) -> (r: Vec<Object>)
        ensures
            r@ == query_subjects_spec(self@, *tag, *value),
    {
        let ghost keep = |s: SimpleStatement| s.tag == *tag && s.value == *value;
        let ghost pick = |s: SimpleStatement| s.subject;
        let mut out: Vec<Object> = Vec::new();
        let mut i: usize = 0;
        while i < self.statements.len()
            invariant
                i <= self.statements@.len(),
                out@ == picked(self.statements@.take(i as int), keep, pick),
            decreases self.statements@.len() - i,
        {
            let s = &self.statements[i];
            proof {
                lemma_picked_step(self.statements@, i as int, keep, pick);
            }
            if s.tag.same(tag) && s.value.same(value) {
                out.push(s.subject.duplicate());
            }
            i = i + 1;
        }
        assert(self.statements@.take(i as int) =~= self.statements@);
        out
    }

    /// The tags under which `subject` has `value`.
    #[verifier::loop_isolation(false)]
    pub fn query_tags(&self, subject: &Object, value: &Object) -> (r: Vec<Object>)
        ensures
            r@ == query_tags_spec(self@, *subject, *value),
    {
        let ghost keep = |s: SimpleStatement| s.subject == *subject && s.value == *value;
        let ghost pick = |s: SimpleStatement| s.tag;
        let mut out: Vec<Object> = Vec::new();
        if let Object::Structure(st) = subject {
            let props = st.to_vec();
            let mut j: usize = 0;
            while j < props.len()
                invariant
                    j <= props@.len(),
                    out@ == tags_with_value(props@.take(j as int), *value),
                decreases props@.len() - j,
            {
                assert(props@.take(j as int + 1).drop_last() =~= props@.take(j as int));
                assert(props@.take(j as int + 1).last() == props@[j as int]);
                if props[j].value.same(value) {
                    out.push(props[j].tag.duplicate());
                }
                j = j + 1;
            }
            assert(props@.take(j as int) =~= props@);
        }
        assert(out@ == own_tags(*subject, *value));
        let ghost own = out@;
        let mut i: usize = 0;
        while i < self.statements.len()
            invariant
                i <= self.statements@.len(),
                out@ == own + picked(self.statements@.take(i as int), keep, pick),
            decreases self.statements@.len() - i,
        {
            let s = &self.statements[i];
            proof {
                lemma_picked_step(self.statements@, i as int, keep, pick);
            }
            if s.subject.same(subject) && s.value.same(value) {
                out.push(s.tag.duplicate());
            }
            i = i + 1;
        }
        assert(self.statements@.take(i as int) =~= self.statements@);
        out
    }

    /// The tag and value pairs of `subject`.
    #[verifier::loop_isolation(false)]
    pub fn query_tags_and_values(&self, subject: &Object) -> (r: Vec<Object>)
        ensures
            r@ == query_tags_and_values_spec(self@, *subject),
    {
        let ghost keep = |s: SimpleStatement| s.subject == *subject;
        let ghost pick = |s: SimpleStatement| tag_value_pair(s.tag, s.value);
        let mut out: Vec<Object> = Vec::new();
        if let Object::Structure(st) = subject {
            let props = st.to_vec();
            let mut j: usize = 0;
            while j < props.len()
                invariant
                    j <= props@.len(),
                    out@ == props@.take(j as int).map_values(|p: Property| tag_value_pair(p.tag, p.value)),
                decreases props@.len() - j,
            {
                out.push(pair(STATEMENT_TAG, &props[j].tag, STATEMENT_VALUE, &props[j].value));
                assert(out@ =~= props@.take(j as int + 1).map_values(|p: Property| tag_value_pair(p.tag, p.value)));
                j = j + 1;
            }
            assert(props@.take(j as int) =~= props@);
        }
        let ghost own = out@;
        let mut i: usize = 0;
        while i < self.statements.len()
            invariant
                i <= self.statements@.len(),
                out@ == own + picked(self.statements@.take(i as int), keep, pick),
            decreases self.statements@.len() - i,
        {
            let s = &self.statements[i];
            proof {
                lemma_picked_step(self.statements@, i as int, keep, pick);
            }
            if s.subject.same(subject) {
                out.push(pair(STATEMENT_TAG, &s.tag, STATEMENT_VALUE, &s.value));
            }
            i = i + 1;
        }
        assert(self.statements@.take(i as int) =~= self.statements@);
        out
    }

    /// The subject and value pairs of the stored statements with tag `tag`.
    #[verifier::loop_isolation(false)]
    pub fn query_subjects_and_values(&self, tag: &Object) -> (r: Vec<Object>)
        ensures
            r@ == query_subjects_and_values_spec(self@, *tag),
    {
        let ghost keep = |s: SimpleStatement| s.tag == *tag;
        let ghost pick = |s: SimpleStatement| two(STATEMENT_SUBJECT, s.subject, STATEMENT_VALUE, s.value);
        let mut out: Vec<Object> = Vec::new();
        let mut i: usize = 0;
        while i < self.statements.len()
            invariant
                i <= self.statements@.len(),
                out@ == picked(self.statements@.take(i as int), keep, pick),
            decreases self.statements@.len() - i,
        {
            let s = &self.statements[i];
            proof {
                lemma_picked_step(self.statements@, i as int, keep, pick);
            }
            if s.tag.same(tag) {
                out.push(pair(STATEMENT_SUBJECT, &s.subject, STATEMENT_VALUE, &s.value));
            }
            i = i + 1;
        }
        assert(self.statements@.take(i as int) =~= self.statements@);
        out
    }

    /// The subject and tag pairs of the stored statements with value `value`.
    #[verifier::loop_isolation(false)]
    pub fn query_subjects_and_tags(&self, value: &Object) -> (r: Vec<Object>)
        ensures
            r@ == query_subjects_and_tags_spec(self@, *value),
    {
        let ghost keep = |s: SimpleStatement| s.value == *value;
        let ghost pick = |s: SimpleStatement| two(STATEMENT_SUBJECT, s.subject, STATEMENT_TAG, s.tag);
        let mut out: Vec<Object> = Vec::new();
        let mut i: usize = 0;
        while i < self.statements.len()
            invariant
                i <= self.statements@.len(),
                out@ == picked(self.statements@.take(i as int), keep, pick),
            decreases self.statements@.len() - i,
        {
            let s = &self.statements[i];
            proof {
                lemma_picked_step(self.statements@, i as int, keep, pick);
            }
            if s.value.same(value) {
                out.push(pair(STATEMENT_SUBJECT, &s.subject, STATEMENT_TAG, &s.tag));
            }
            i = i + 1;
        }
        assert(self.statements@.take(i as int) =~= self.statements@);
        out
    }

    /// Every stored statement, written as a structure.
    #[verifier::loop_isolation(false)]
    pub fn iter_owned(&self) -> (r: Vec<Object>)
        ensures
            r@ == all_statements_spec(self@),
    {
        let ghost keep = |s: SimpleStatement| true;
        let ghost pick = |s: SimpleStatement| statement_object(s);
        let mut out: Vec<Object> = Vec::new();
        let mut i: usize = 0;
        while i < self.statements.len()
            invariant
                i <= self.statements@.len(),
                out@ == picked(self.statements@.take(i as int), keep, pick),
            decreases self.statements@.len() - i,
        {
            let s = &self.statements[i];
            proof {
                lemma_picked_step(self.statements@, i as int, keep, pick);
            }
            out.push(new_statement(s.subject.duplicate(), s.tag.duplicate(), s.value.duplicate()));
            i = i + 1;
        }
        assert(self.statements@.take(i as int) =~= self.statements@);
        out
    }

    /// Whether `subject` has `value` on `tag`, as its own property or by a
    /// stored statement.
    pub fn statement_exists(&self, subject: &Object, tag: &Object, value: &Object) -> (r: bool)
        ensures
            r == query_values_spec(self@, *subject, *tag).contains(*value),
    {
        let values = self.query_values(subject, tag);
        contains_object(&values, value)
    }
}


impl SimpleStatement {
    /// Whether the two statements are equal.
    pub fn same(&self, other: &SimpleStatement) -> (r: bool)
        ensures
            r == (*self == *other),
    {
        self.subject.same(&other.subject) && self.tag.same(&other.tag) && self.value.same(&other.value)
    }
}

impl Statements {
    /// The stored statement at `index`.
    pub fn statement(&self, index: usize) -> (r: &SimpleStatement)
        requires
            index < self@.len(),
        ensures
            *r == self@[index as int],
    {
        &self.statements[index]
    }

    /// Whether `s` is stored.
    pub fn contains_statement(&self, s: &SimpleStatement) -> (r: bool)
        ensures
            r == self@.contains(*s),
    {
        let mut i: usize = 0;
        while i < self.statements.len()
            invariant
                i <= self.statements@.len(),
                forall|j: int| 0 <= j < i ==> self.statements@[j] != *s,
            decreases self.statements@.len() - i,
        {
            if self.statements[i].same(s) {
                return true;
            }
            i = i + 1;
        }
        false
    }
}


impl Property {
    /// The property `(CONTAINS, value)`.
    pub fn new_contains(value: Object) -> (r: Property)
        ensures
            r == (Property { tag: abs(CONTAINS), value }),
    {
        Property { tag: Object::Abstract(Abstract(CONTAINS)), value }
    }

    /// The property `(STATEMENT_SUBJECT, value)`.
    pub fn new_statement_subject(value: Object) -> (r: Property)
        ensures
            r == (Property { tag: abs(STATEMENT_SUBJECT), value }),
    {
        Property { tag: Object::Abstract(Abstract(STATEMENT_SUBJECT)), value }
    }

    /// The property `(STATEMENT_TAG, value)`.
    pub fn new_statement_tag(value: Object) -> (r: Property)
        ensures
            r == (Property { tag: abs(STATEMENT_TAG), value }),
    {
        Property { tag: Object::Abstract(Abstract(STATEMENT_TAG)), value }
    }

    /// The property `(STATEMENT_VALUE, value)`.
    pub fn new_statement_value(value: Object) -> (r: Property)
        ensures
            r == (Property { tag: abs(STATEMENT_VALUE), value }),
    {
        Property { tag: Object::Abstract(Abstract(STATEMENT_VALUE)), value }
    }
}

/// The statement `(subject, tag, value)` written as a structure.
pub fn new_statement(subject: Object, tag: Object, value: Object) -> (r: Object)
    ensures
        r == statement_object(SimpleStatement { subject, tag, value }),
{
    let mut props: Vec<Property> = Vec::new();
    props.push(Property::new_statement_subject(subject));
    props.push(Property::new_statement_tag(tag));
    props.push(Property::new_statement_value(value));
    assert(props@ =~= seq![
        Property { tag: abs(STATEMENT_SUBJECT), value: subject },
        Property { tag: abs(STATEMENT_TAG), value: tag },
        Property { tag: abs(STATEMENT_VALUE), value: value },
    ]);
    Object::Structure(Structure::new(props))
}


/// A fact: a target object with a tag and a value.
#[derive(Debug, PartialEq)]
pub struct Fact {
    pub target: Object,
    pub tag: Object,
    pub value: Object,
}

/// A specific object, or any object.
#[derive(Debug, PartialEq)]
pub enum ObjectOrAny {
    Object(Object),
    Any,
}

/// A pattern of facts: each part a specific object or any.
#[derive(Debug, PartialEq)]
pub struct FactPattern {
    pub target: ObjectOrAny,
    pub tag: ObjectOrAny,
    pub value: ObjectOrAny,
}

impl From<Fact> for FactPattern {
    /// The pattern that matches exactly the fact.
    fn from(fact: Fact) -> (r: FactPattern) {
        FactPattern {
            target: ObjectOrAny::Object(fact.target),
            tag: ObjectOrAny::Object(fact.tag),
            value: ObjectOrAny::Object(fact.value),
        }
    }
}

impl vstd::std_specs::convert::FromSpecImpl<Fact> for FactPattern {
    open spec fn obeys_from_spec() -> bool {
        true
    }

    open spec fn from_spec(fact: Fact) -> FactPattern {
        FactPattern {
            target: ObjectOrAny::Object(fact.target),
            tag: ObjectOrAny::Object(fact.tag),
            value: ObjectOrAny::Object(fact.value),
        }
    }
}


/// Why an inference failed.
#[derive(Debug, PartialEq)]
pub enum Error {
    /// No proof was found for the facts of the pattern.
    CouldNotProveTheorem(FactPattern),
}

/// The values of `ps` on `tag` are the values of its properties tagged `tag`.
proof fn lemma_values_of_contains(ps: Seq<Property>, tag: Object)
    ensures
        forall|x: Object| #[trigger] values_of(ps, tag).contains(x) <==> ps.contains(Property { tag, value: x }),
    decreases ps.len(),
{
    if ps.len() > 0 {
        let rest = ps.drop_first();
        lemma_values_of_contains(rest, tag);
        assert forall|x: Object| #[trigger] values_of(ps, tag).contains(x) <==> ps.contains(Property { tag, value: x }) by {
            let p = Property { tag, value: x };
            if ps.contains(p) {
                let k = choose|k: int| 0 <= k < ps.len() && ps[k] == p;
                if k > 0 {
                    assert(rest[k - 1] == p);
                    assert(rest.contains(p));
                    assert(values_of(rest, tag).contains(x));
                    let j = choose|j: int| 0 <= j < values_of(rest, tag).len() && values_of(rest, tag)[j] == x;
                    if ps[0].tag == tag {
                        assert(values_of(ps, tag)[j + 1] == x);
                    } else {
                        assert(values_of(ps, tag)[j] == x);
                    }
                } else {
                    assert(values_of(ps, tag)[0] == x);
                }
            }
            if values_of(ps, tag).contains(x) {
                let j = choose|j: int| 0 <= j < values_of(ps, tag).len() && values_of(ps, tag)[j] == x;
                if ps[0].tag == tag && j == 0 {
                    assert(ps[0] == p);
                } else {
                    let j2 = if ps[0].tag == tag { j - 1 } else { j };
                    assert(values_of(rest, tag)[j2] == x);
                    assert(values_of(rest, tag).contains(x));
                    let k = choose|k: int| 0 <= k < rest.len() && rest[k] == p;
                    assert(ps[k + 1] == p);
                }
            }
        }
    }
}

/// The tags of `ps` with value `value` are the tags of its properties with
/// that value.
proof fn lemma_tags_with_value_contains(ps: Seq<Property>, value: Object)
    ensures
        forall|t: Object| #[trigger] tags_with_value(ps, value).contains(t) <==> ps.contains(Property { tag: t, value }),
    decreases ps.len(),
{
    if ps.len() > 0 {
        let rest = ps.drop_last();
        lemma_tags_with_value_contains(rest, value);
        assert forall|t: Object| #[trigger] tags_with_value(ps, value).contains(t) <==> ps.contains(Property { tag: t, value }) by {
            let p = Property { tag: t, value };
            let r = tags_with_value(rest, value);
            if ps.contains(p) {
                let k = choose|k: int| 0 <= k < ps.len() && ps[k] == p;
                if k < ps.len() - 1 {
                    assert(rest[k] == p);
                    assert(rest.contains(p));
                    assert(r.contains(t));
                    let j = choose|j: int| 0 <= j < r.len() && r[j] == t;
                    assert(tags_with_value(ps, value)[j] == t);
                } else {
                    assert(tags_with_value(ps, value) == r.push(t));
                    assert(tags_with_value(ps, value)[r.len() as int] == t);
                }
            }
            if tags_with_value(ps, value).contains(t) {
                let j = choose|j: int| 0 <= j < tags_with_value(ps, value).len() && tags_with_value(ps, value)[j] == t;
                if ps.last().value == value && j == r.len() {
                    assert(ps[ps.len() - 1] == p);
                } else {
                    assert(r[j] == t);
                    assert(r.contains(t));
                    let k = choose|k: int| 0 <= k < rest.len() && rest[k] == p;
                    assert(ps[k] == p);
                }
            }
        }
    }
}

/// `picked` holds exactly what `pick` makes of the statements that `keep`
/// accepts.
proof fn lemma_picked_contains(
    st: Seq<SimpleStatement>,
    keep: spec_fn(SimpleStatement) -> bool,
    pick: spec_fn(SimpleStatement) -> Object,
)
    ensures
        forall|x: Object| #[trigger] picked(st, keep, pick).contains(x)
            <==> exists|i: int| 0 <= i < st.len() && keep(st[i]) && pick(st[i]) == x,
    decreases st.len(),
{
    if st.len() > 0 {
        let rest = st.drop_last();
        lemma_picked_contains(rest, keep, pick);
        assert forall|x: Object| #[trigger] picked(st, keep, pick).contains(x)
            <==> exists|i: int| 0 <= i < st.len() && keep(st[i]) && pick(st[i]) == x by {
            let r = picked(rest, keep, pick);
            let out = picked(st, keep, pick);
            if exists|i: int| 0 <= i < st.len() && keep(st[i]) && pick(st[i]) == x {
                let i = choose|i: int| 0 <= i < st.len() && keep(st[i]) && pick(st[i]) == x;
                if i < st.len() - 1 {
                    assert(rest[i] == st[i]);
                    assert(r.contains(x));
                    let j = choose|j: int| 0 <= j < r.len() && r[j] == x;
                    assert(out[j] == x);
                } else {
                    assert(out == r.push(x));
                    assert(out[r.len() as int] == x);
                }
            }
            if out.contains(x) {
                let j = choose|j: int| 0 <= j < out.len() && out[j] == x;
                if keep(st.last()) && j == r.len() {
                    assert(pick(st[st.len() - 1]) == x);
                } else {
                    assert(r[j] == x);
                    assert(r.contains(x));
                    let i = choose|i: int| 0 <= i < rest.len() && keep(rest[i]) && pick(rest[i]) == x;
                    assert(st[i] == rest[i]);
                }
            }
        }
    }
}

/// The stated values of `subject` on `tag` are the values of the stored
/// statements about them that the subject does not hold itself.
proof fn lemma_stated_values_contains(st: Seq<SimpleStatement>, subject: Object, tag: Object)
    ensures
        forall|x: Object| #[trigger] stated_values(st, subject, tag).contains(x) <==> (!own_values(subject, tag).contains(x)
            && exists|i: int| 0 <= i < st.len() && st[i].subject == subject && st[i].tag == tag && st[i].value == x),
    decreases st.len(),
{
    if st.len() > 0 {
        let rest = st.drop_first();
        lemma_stated_values_contains(rest, subject, tag);
        assert forall|x: Object| #[trigger] stated_values(st, subject, tag).contains(x) <==> (!own_values(subject, tag).contains(x)
            && exists|i: int| 0 <= i < st.len() && st[i].subject == subject && st[i].tag == tag && st[i].value == x) by {
            let r = stated_values(rest, subject, tag);
            let out = stated_values(st, subject, tag);
            let takes = st[0].subject == subject && st[0].tag == tag && !own_values(subject, tag).contains(st[0].value);
            if !own_values(subject, tag).contains(x)
                && exists|i: int| 0 <= i < st.len() && st[i].subject == subject && st[i].tag == tag && st[i].value == x {
                let i = choose|i: int| 0 <= i < st.len() && st[i].subject == subject && st[i].tag == tag && st[i].value == x;
                if i > 0 {
                    assert(rest[i - 1] == st[i]);
                    assert(r.contains(x));
                    let j = choose|j: int| 0 <= j < r.len() && r[j] == x;
                    if takes {
                        assert(out[j + 1] == x);
                    } else {
                        assert(out[j] == x);
                    }
                } else {
                    assert(out[0] == x);
                }
            }
            if out.contains(x) {
                let j = choose|j: int| 0 <= j < out.len() && out[j] == x;
                if takes && j == 0 {
                    assert(st[0].value == x);
                } else {
                    let j2 = if takes { j - 1 } else { j };
                    assert(r[j2] == x);
                    assert(r.contains(x));
                    let i = choose|i: int| 0 <= i < rest.len() && rest[i].subject == subject && rest[i].tag == tag && rest[i].value == x;
                    assert(st[i + 1] == rest[i]);
                }
            }
        }
    }
}

/// The values of `subject` on `tag` are its own values on `tag`, and the
/// values of the stored statements `(subject, tag, _)`, and nothing else.
pub proof fn law_query_values_members(st: Seq<SimpleStatement>, subject: Object, tag: Object)
    ensures
        forall|x: Object| #[trigger] query_values_spec(st, subject, tag).contains(x) <==> (
            (subject matches Object::Structure(s) && s.seq().contains(Property { tag, value: x }))
            || exists|i: int| 0 <= i < st.len() && st[i].subject == subject && st[i].tag == tag && st[i].value == x),
{
    if let Object::Structure(s) = subject {
        lemma_values_of_contains(s.seq(), tag);
    }
    lemma_stated_values_contains(st, subject, tag);
    assert forall|x: Object| #[trigger] query_values_spec(st, subject, tag).contains(x) <==> (
        own_values(subject, tag).contains(x) || stated_values(st, subject, tag).contains(x)) by {
        let a = own_values(subject, tag);
        let b = stated_values(st, subject, tag);
        let q = a + b;
        if q.contains(x) {
            let j = choose|j: int| 0 <= j < q.len() && q[j] == x;
            if j < a.len() {
                assert(a[j] == x);
            } else {
                assert(b[j - a.len()] == x);
            }
        }
        if a.contains(x) {
            let j = choose|j: int| 0 <= j < a.len() && a[j] == x;
            assert(q[j] == x);
        }
        if b.contains(x) {
            let j = choose|j: int| 0 <= j < b.len() && b[j] == x;
            assert(q[j + a.len()] == x);
        }
    }
}

/// The subjects of `(_, tag, value)` are the subjects of the stored
/// statements with that tag and that value, and nothing else.
pub proof fn law_query_subjects_members(st: Seq<SimpleStatement>, tag: Object, value: Object)
    ensures
        forall|x: Object| #[trigger] query_subjects_spec(st, tag, value).contains(x) <==> exists|i: int|
            0 <= i < st.len() && st[i].tag == tag && st[i].value == value && st[i].subject == x,
{
    lemma_picked_contains(st, |s: SimpleStatement| s.tag == tag && s.value == value, |s: SimpleStatement| s.subject);
}

/// The tags of `(subject, _, value)` are the tags of the subject's own
/// properties with that value, and of the stored statements with that
/// subject and that value, and nothing else.
pub proof fn law_query_tags_members(st: Seq<SimpleStatement>, subject: Object, value: Object)
    ensures
        forall|x: Object| #[trigger] query_tags_spec(st, subject, value).contains(x) <==> (
            (subject matches Object::Structure(s) && s.seq().contains(Property { tag: x, value }))
            || exists|i: int| 0 <= i < st.len() && st[i].subject == subject && st[i].value == value && st[i].tag == x),
{
    if let Object::Structure(s) = subject {
        lemma_tags_with_value_contains(s.seq(), value);
    }
    let keep = |s: SimpleStatement| s.subject == subject && s.value == value;
    let pick = |s: SimpleStatement| s.tag;
    lemma_picked_contains(st, keep, pick);
    assert forall|x: Object| #[trigger] query_tags_spec(st, subject, value).contains(x) <==> (
        own_tags(subject, value).contains(x) || picked(st, keep, pick).contains(x)) by {
        let a = own_tags(subject, value);
        let b = picked(st, keep, pick);
        let q = a + b;
        if q.contains(x) {
            let j = choose|j: int| 0 <= j < q.len() && q[j] == x;
            if j < a.len() {
                assert(a[j] == x);
            } else {
                assert(b[j - a.len()] == x);
            }
        }
        if a.contains(x) {
            let j = choose|j: int| 0 <= j < a.len() && a[j] == x;
            assert(q[j] == x);
        }
        if b.contains(x) {
            let j = choose|j: int| 0 <= j < b.len() && b[j] == x;
            assert(q[j + a.len()] == x);
        }
    }
}

/// The subject and value pairs of `tag` are those of the stored statements
/// with that tag, and nothing else.
pub proof fn law_query_subjects_and_values_members(st: Seq<SimpleStatement>, tag: Object)
    ensures
        forall|x: Object| #[trigger] query_subjects_and_values_spec(st, tag).contains(x) <==> exists|i: int|
            0 <= i < st.len() && st[i].tag == tag && x == two(STATEMENT_SUBJECT, st[i].subject, STATEMENT_VALUE, st[i].value),
{
    lemma_picked_contains(
        st,
        |s: SimpleStatement| s.tag == tag,
        |s: SimpleStatement| two(STATEMENT_SUBJECT, s.subject, STATEMENT_VALUE, s.value),
    );
}

/// The subject and tag pairs of `value` are those of the stored statements
/// with that value, and nothing else.
pub proof fn law_query_subjects_and_tags_members(st: Seq<SimpleStatement>, value: Object)
    ensures
        forall|x: Object| #[trigger] query_subjects_and_tags_spec(st, value).contains(x) <==> exists|i: int|
            0 <= i < st.len() && st[i].value == value && x == two(STATEMENT_SUBJECT, st[i].subject, STATEMENT_TAG, st[i].tag),
{
    lemma_picked_contains(
        st,
        |s: SimpleStatement| s.value == value,
        |s: SimpleStatement| two(STATEMENT_SUBJECT, s.subject, STATEMENT_TAG, s.tag),
    );
}

/// The tag and value pairs of `subject` are those of its own properties and
/// of the stored statements with that subject, and nothing else.
pub proof fn law_query_tags_and_values_members(st: Seq<SimpleStatement>, subject: Object)
    ensures
        forall|x: Object| #[trigger] query_tags_and_values_spec(st, subject).contains(x) <==> (
            (subject matches Object::Structure(s) && exists|k: int|
                0 <= k < s.seq().len() && x == two(STATEMENT_TAG, s.seq()[k].tag, STATEMENT_VALUE, s.seq()[k].value))
            || exists|i: int| 0 <= i < st.len() && st[i].subject == subject
                && x == two(STATEMENT_TAG, st[i].tag, STATEMENT_VALUE, st[i].value)),
{
    let keep = |s: SimpleStatement| s.subject == subject;
    let pick = |s: SimpleStatement| tag_value_pair(s.tag, s.value);
    lemma_picked_contains(st, keep, pick);
    let a = match subject {
        Object::Structure(s) => s.seq().map_values(|p: Property| tag_value_pair(p.tag, p.value)),
        _ => Seq::empty(),
    };
    let b = picked(st, keep, pick);
    assert(query_tags_and_values_spec(st, subject) == a + b);
    assert forall|x: Object| #[trigger] query_tags_and_values_spec(st, subject).contains(x) <==> (
            (subject matches Object::Structure(s) && exists|k: int|
                0 <= k < s.seq().len() && x == two(STATEMENT_TAG, s.seq()[k].tag, STATEMENT_VALUE, s.seq()[k].value))
            || exists|i: int| 0 <= i < st.len() && st[i].subject == subject
                && x == two(STATEMENT_TAG, st[i].tag, STATEMENT_VALUE, st[i].value)) by {
        let q = a + b;
        if q.contains(x) {
            let j = choose|j: int| 0 <= j < q.len() && q[j] == x;
            if j < a.len() {
                assert(a[j] == x);
            } else {
                assert(b[j - a.len()] == x);
                assert(b.contains(x));
            }
        }
        if let Object::Structure(s) = subject {
            if exists|k: int| 0 <= k < s.seq().len() && x == two(STATEMENT_TAG, s.seq()[k].tag, STATEMENT_VALUE, s.seq()[k].value) {
                let k = choose|k: int| 0 <= k < s.seq().len() && x == two(STATEMENT_TAG, s.seq()[k].tag, STATEMENT_VALUE, s.seq()[k].value);
                assert(a[k] == x);
                assert(q[k] == x);
            }
        }
        if b.contains(x) {
            let j = choose|j: int| 0 <= j < b.len() && b[j] == x;
            assert(q[j + a.len()] == x);
        }
    }
}

} // verus!
