//! Built-in objects of the data format, and the functions that read
//! structures as statements and build nodes.

use vstd::prelude::*;

use crate::object::{Abstract, Object, Property, Structure, abs};
use crate::object::integer::natural;

verus! {

/// Denotes that the subject is a set that contains the associated value.
pub const CONTAINS: u128 = 1;
/// Denotes that a tag states truth; its value is the tag's constraint.
pub const AXIOMATIC: u128 = 2;
/// Denotes that a tag's values are computed by its value.
pub const COMPUTED: u128 = 3;
/// The subject slot of a statement.
pub const STATEMENT_SUBJECT: u128 = 4;
/// The tag slot of a statement.
pub const STATEMENT_TAG: u128 = 5;
/// The value slot of a statement.
pub const STATEMENT_VALUE: u128 = 6;
/// A statement.
pub const STATEMENT: u128 = 7;
/// Knowledge.
pub const KNOWLEDGE: u128 = 8;
/// The natural number zero.
pub const ZERO: u128 = 9;
/// Denotes that the subject is the successor of the value.
pub const SUCCESSOR_OF: u128 = 10;
/// The body of a function node.
pub const NODE_FUNCTION_BODY: u128 = 11;
/// A literal node.
pub const NODE_LITERAL: u128 = 12;
/// A conjunction node.
pub const NODE_AND: u128 = 13;
/// An existence node.
pub const NODE_EXISTS: u128 = 14;
/// A parameter node.
pub const NODE_PARAMETER: u128 = 15;
/// Natural numbers.
pub const IS_NATURAL_NUMBER: u128 = 16;
/// A counting node.
pub const NODE_COUNT: u128 = 17;
/// A query node.
pub const NODE_QUERY: u128 = 18;
/// An equality node.
pub const NODE_EQUAL: u128 = 19;
/// A disjunction node.
pub const NODE_OR: u128 = 20;
/// An exclusive-or node.
pub const NODE_XOR: u128 = 21;
/// A negation node.
pub const NODE_NOT: u128 = 22;
/// Nodes.
pub const NODE: u128 = 23;
/// Tags.
pub const TAG: u128 = 24;
/// A node that refers to an enclosing function.
pub const NODE_FUNCTION_SELF: u128 = 25;
/// Denotes that the subject is the predecessor of the value.
pub const PREDECESSOR_OF: u128 = 26;


/// A statement read from a structure: its subject, tag and value slots.
#[derive(Debug, PartialEq)]
pub struct Statement<'a> {
    pub subject: &'a Object,
    pub tag: &'a Object,
    pub value: &'a Object,
}

/// The number of properties of an object: none for an abstract object or a
/// character.
pub open spec fn property_count_spec(o: Object) -> nat {
    match o {
        Object::Structure(s) => s.seq().len(),
        _ => 0,
    }
}

/// `true` is the set holding only the empty structure, `false` the empty
/// structure.
pub open spec fn bool_object(b: bool) -> Object {
    if b {
        Object::Structure(Structure::of(seq![Property { tag: abs(CONTAINS), value: Object::Structure(Structure::of(Seq::empty())) }]))
    } else {
        Object::Structure(Structure::of(Seq::empty()))
    }
}

/// An object is truthy when it is a structure with at least one property.
pub open spec fn truthy(o: Object) -> bool {
    match o {
        Object::Structure(s) => s.seq().len() > 0,
        _ => false,
    }
}

/// Whether `s` has exactly one property tagged `tag`.
pub open spec fn exactly_one(s: Structure, tag: Object) -> bool {
    s.values_spec(tag).len() == 1
}

/// Whether `s` has exactly one subject, one tag and one value.
pub open spec fn is_statement_spec(s: Structure) -> bool {
    &&& exactly_one(s, abs(STATEMENT_SUBJECT))
    &&& exactly_one(s, abs(STATEMENT_TAG))
    &&& exactly_one(s, abs(STATEMENT_VALUE))
}

/// The properties `(tag, nodes[i])` for each node, in order.
pub open spec fn tagged(tag: Object, nodes: Seq<Object>) -> Seq<Property> {
    nodes.map_values(|node: Object| Property { tag, value: node })
}

/// `bool_object` holds what the two constructors build.
proof fn lemma_empty_structure()
    ensures
        Structure::of(Seq::empty()).seq() == Seq::<Property>::empty(),
{
    crate::object::lemma_structure_of(Seq::empty());
}

impl Object {
    /// The natural number `n`: `ZERO`, or the successor of `n - 1`.
    pub fn from_natural(n: u64) -> (r: Object)
        ensures
            r == natural(n as nat),
    {
        Object::natural_number(n)
    }

    /// The node `not expr`: `{(NODE_NOT, expr)}`.
    pub fn node_not(expr: Object) -> (r: Object)
        ensures
            r == Object::Structure(Structure::of(seq![Property { tag: abs(NODE_NOT), value: expr }])),
    {
        Object::Structure(Structure::single(Object::Abstract(Abstract(NODE_NOT)), expr))
    }

    /// The number of properties this object has; zero for objects that are
    /// not structures.
    pub fn property_count(&self) -> (r: usize)
        requires
            property_count_spec(*self) <= usize::MAX,
        ensures
            r == property_count_spec(*self),
    {
        match self {
            Object::Structure(s) => s.len(),
            _ => 0,
        }
    }

    /// Converts a boolean to an object: `true` to `{(CONTAINS, {})}`,
    /// `false` to `{}`.
    pub fn from_bool(b: bool) -> (r: Object)
        ensures
            r == bool_object(b),
    {
        proof {
            lemma_empty_structure();
        }
        if b {
            let e = Structure::empty();
            proof {
                lemma_structure_empty_is_of(e);
            }
            Object::Structure(Object::Structure(e).to_set_of_self())
        } else {
            let e = Structure::empty();
            proof {
                lemma_structure_empty_is_of(e);
            }
            Object::Structure(e)
        }
    }

    /// The set holding only `self`.
    pub fn to_set_of_self(self) -> (r: Structure)
        ensures
            r == Structure::of(seq![Property { tag: abs(CONTAINS), value: self }]),
            r.seq() == seq![Property { tag: abs(CONTAINS), value: self }],
    {
        Structure::single(Object::Abstract(Abstract(CONTAINS)), self)
    }

    /// The structure of `self`, if it is one.
    pub fn structure(&self) -> (r: Option<&Structure>)
        ensures
            match *self {
                Object::Structure(s) => r == Some(&s),
                _ => r.is_none(),
            },
    {
        match self {
            Object::Structure(s) => Some(s),
            _ => None,
        }
    }

    /// Whether `self` is a structure with at least one property.
    pub fn is_truthy(&self) -> (r: bool)
        ensures
            r == truthy(*self),
    {
        match self {
            Object::Structure(s) => !s.is_empty(),
            _ => false,
        }
    }
}

/// Any structure without properties is the empty structure.
proof fn lemma_structure_empty_is_of(e: Structure)
    requires
        e.seq() == Seq::<Property>::empty(),
    ensures
        e == Structure::of(Seq::empty()),
{
    crate::object::lemma_structure_empty(e);
}

/// Builds the structure `{(tag, nodes[0]), (tag, nodes[1]), ...}`.
fn tagged_structure(tag: u128, nodes: Vec<Object>) -> (r: Structure)
    ensures
        r == Structure::of(tagged(abs(tag), nodes@)),
{
    let mut properties: Vec<Property> = Vec::new();
    let mut i: usize = 0;
    while i < nodes.len()
        invariant
            i <= nodes.len(),
            properties@ =~= tagged(abs(tag), nodes@.take(i as int)),
        decreases nodes.len() - i,
    {
        properties.push(Property { tag: Object::Abstract(Abstract(tag)), value: nodes[i].duplicate() });
        i = i + 1;
        assert(tagged(abs(tag), nodes@.take(i as int)) =~= tagged(abs(tag), nodes@.take(i as int - 1)).push(Property { tag: abs(tag), value: nodes@[i as int - 1] }));
    }
    assert(nodes@.take(nodes.len() as int) =~= nodes@);
    Structure::new(properties)
}

impl Structure {
    /// Whether `self` has exactly one property tagged `tag`.
    pub fn has_exactly_one_value_on(&self, tag: &Object) -> (r: bool)
        ensures
            r == exactly_one(*self, *tag),
    {
        let values = self.values(tag);
        values.len() == 1
    }

    /// Whether `self` has exactly one subject, one tag and one value.
    pub fn is_statement(&self) -> (r: bool)
        ensures
            r == is_statement_spec(*self),
    {
        self.has_exactly_one_value_on(&Object::Abstract(Abstract(STATEMENT_SUBJECT)))
            && self.has_exactly_one_value_on(&Object::Abstract(Abstract(STATEMENT_TAG)))
            && self.has_exactly_one_value_on(&Object::Abstract(Abstract(STATEMENT_VALUE)))
    }

    /// Reads `self` as a statement: the first subject, the first tag, and,
    /// for the value slot, the first tag again.
    pub fn parse_statement<'a>(&'a self) -> (r: Option<Statement<'a>>)
        ensures
            match r {
                Some(st) => {
                    &&& self.values_spec(abs(STATEMENT_SUBJECT)).len() > 0
                    &&& self.values_spec(abs(STATEMENT_TAG)).len() > 0
                    &&& *st.subject == self.values_spec(abs(STATEMENT_SUBJECT))[0]
                    &&& *st.tag == self.values_spec(abs(STATEMENT_TAG))[0]
                    &&& *st.value == self.values_spec(abs(STATEMENT_TAG))[0]
                },
                None => self.values_spec(abs(STATEMENT_SUBJECT)).len() == 0
                    || self.values_spec(abs(STATEMENT_TAG)).len() == 0,
            },
    {
        let subject = match self.first_value(&Object::Abstract(Abstract(STATEMENT_SUBJECT))) {
            Some(o) => o,
            None => return None,
        };
        let tag = match self.first_value(&Object::Abstract(Abstract(STATEMENT_TAG))) {
            Some(o) => o,
            None => return None,
        };
        let value = match self.first_value(&Object::Abstract(Abstract(STATEMENT_TAG))) {
            Some(o) => o,
            None => return None,
        };
        Some(Statement { subject, tag, value })
    }

    /// The function node `{(NODE_FUNCTION_BODY, body)}`.
    pub fn node_function(body: Object) -> (r: Structure)
        ensures
            r == Structure::of(seq![Property { tag: abs(NODE_FUNCTION_BODY), value: body }]),
    {
        Structure::single(Object::Abstract(Abstract(NODE_FUNCTION_BODY)), body)
    }

    /// The equality node `{(NODE_EQUAL, node) ...}` over the given nodes.
    pub fn node_equal(nodes: Vec<Object>) -> (r: Structure)
        ensures
            r == Structure::of(tagged(abs(NODE_EQUAL), nodes@)),
    {
        tagged_structure(NODE_EQUAL, nodes)
    }

    /// The conjunction node `{(NODE_AND, node) ...}` over the given nodes.
    pub fn node_and(nodes: Vec<Object>) -> (r: Structure)
        ensures
            r == Structure::of(tagged(abs(NODE_AND), nodes@)),
    {
        tagged_structure(NODE_AND, nodes)
    }

    /// The existence node `{(NODE_EXISTS, statement_node)}`.
    pub fn node_exists(statement_node: Object) -> (r: Structure)
        ensures
            r == Structure::of(seq![Property { tag: abs(NODE_EXISTS), value: statement_node }]),
    {
        Structure::single(Object::Abstract(Abstract(NODE_EXISTS)), statement_node)
    }

    /// The parameter node `{(NODE_PARAMETER, node)}`.
    pub fn node_parameter(node: Object) -> (r: Structure)
        ensures
            r == Structure::of(seq![Property { tag: abs(NODE_PARAMETER), value: node }]),
    {
        Structure::single(Object::Abstract(Abstract(NODE_PARAMETER)), node)
    }

    /// The counting node `{(NODE_COUNT, node)}`.
    pub fn node_count(node: Object) -> (r: Structure)
        ensures
            r == Structure::of(seq![Property { tag: abs(NODE_COUNT), value: node }]),
    {
        Structure::single(Object::Abstract(Abstract(NODE_COUNT)), node)
    }

    /// The query node `{(NODE_QUERY, query)}`.
    pub fn node_query(query: Object) -> (r: Structure)
        ensures
            r == Structure::of(seq![Property { tag: abs(NODE_QUERY), value: query }]),
    {
        Structure::single(Object::Abstract(Abstract(NODE_QUERY)), query)
    }
}

/// A structure that is a statement parses as one (its subject and tag
/// slots are filled), and the subject and tag it parses to are its only
/// subject and tag.
pub proof fn law_statement_parses(s: Structure)
    requires
        is_statement_spec(s),
    ensures
        s.values_spec(abs(STATEMENT_SUBJECT)).len() > 0,
        s.values_spec(abs(STATEMENT_TAG)).len() > 0,
        s.values_spec(abs(STATEMENT_SUBJECT)) == seq![s.values_spec(abs(STATEMENT_SUBJECT))[0]],
        s.values_spec(abs(STATEMENT_TAG)) == seq![s.values_spec(abs(STATEMENT_TAG))[0]],
{
    assert(s.values_spec(abs(STATEMENT_SUBJECT)) =~= seq![s.values_spec(abs(STATEMENT_SUBJECT))[0]]);
    assert(s.values_spec(abs(STATEMENT_TAG)) =~= seq![s.values_spec(abs(STATEMENT_TAG))[0]]);
}

} // verus!
