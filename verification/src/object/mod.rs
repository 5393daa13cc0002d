//! The universal data model: an object is either abstract (nothing but an
//! identity), a character, or a structure, which is a finite set of
//! properties; a property pairs a tag object with a value object.

use vstd::prelude::*;

pub mod integer;
pub mod order;

use order::{lemma_ord_prop, lemma_ord_prop_trans, ord_prop};
use crate::objects::{PREDECESSOR_OF, SUCCESSOR_OF, ZERO};

verus! {

/// An abstract object, identified by a number.
#[derive(Clone, Copy, Debug, PartialEq, Eq, Hash, PartialOrd, Ord, Structural)]
pub struct Abstract(pub u128);

/// An object of the data format.
#[derive(Debug, PartialEq, Eq, PartialOrd, Ord)]
pub enum Object {
    Abstract(Abstract),
    Structure(Structure),
    Character(char),
}

/// A `(tag, value)` pair of a structure.
#[derive(Debug, PartialEq, Eq, PartialOrd, Ord)]
pub struct Property {
    pub tag: Object,
    pub value: Object,
}

/// The properties of a structure, as a list.
///
/// `Chain(true, n)` is the one property `(SUCCESSOR_OF, n - 1)` of the
/// integer `n`, and `Chain(false, n)` the one property `(PREDECESSOR_OF,
/// -(n - 1))` of the integer `-n`, where the integer one step nearer to
/// zero is again such a chain, or `ZERO`. Integers so take the same room
/// whatever their size.
#[derive(Debug, PartialEq, Eq, PartialOrd, Ord)]
pub enum Properties {
    Empty,
    Cons(Box<Property>, Box<Properties>),
    Chain(bool, u128),
}

/// A finite set of properties. Each property occurs once, and the
/// properties are listed in the order of [`order::ord_prop`], so that two
/// structures with the same properties are equal.
#[derive(Debug, PartialEq, Eq, PartialOrd, Ord)]
pub struct Structure {
    pub(crate) properties: Properties,
}

/// The 128 bits of a fresh ULID.
///
/// Calls `ulid::Ulid::new`, which combines the current time with random
/// bits; nothing is claimed of the result.
#[verifier::external_body]
fn fresh_ulid() -> (r: u128) {
    ulid::Ulid::new().0
}

impl Abstract {
    /// A new abstract object, whose identity is a fresh ULID.
    pub fn unique() -> (r: Abstract) {
        Abstract(fresh_ulid())
    }
}

/// The abstract object with identity `id`.
pub open spec fn abs(id: u128) -> Object {
    Object::Abstract(Abstract(id))
}

impl Properties {
    /// The properties in list order.
    pub closed spec fn seq(self) -> Seq<Property>
        decreases self,
    {
        match self {
            Properties::Empty => Seq::empty(),
            Properties::Cons(p, rest) => seq![*p] + rest.seq(),
            Properties::Chain(up, n) => seq![chain_step(up, n)],
        }
    }
}

/// The tag of a chain: `SUCCESSOR_OF` upward, `PREDECESSOR_OF` downward.
pub open spec fn chain_tag(up: bool) -> Object {
    if up {
        abs(SUCCESSOR_OF)
    } else {
        abs(PREDECESSOR_OF)
    }
}

/// The integer one step nearer to zero than the chain of length `n`.
pub(crate) open spec fn chain_next(up: bool, n: u128) -> Object {
    if n <= 1 {
        abs(ZERO)
    } else {
        Object::Structure(Structure { properties: Properties::Chain(up, (n - 1) as u128) })
    }
}

/// The one property of the chain of length `n`.
pub(crate) open spec fn chain_step(up: bool, n: u128) -> Property {
    Property { tag: chain_tag(up), value: chain_next(up, n) }
}

/// The chain that holds exactly the property `p`, if `p` is the step of a
/// chain: a successor-of or predecessor-of tag with `ZERO`, or with a
/// chain in the same direction that can grow by one.
pub(crate) open spec fn chain_of(p: Property) -> Option<(bool, u128)> {
    if p.tag == abs(SUCCESSOR_OF) || p.tag == abs(PREDECESSOR_OF) {
        let up = p.tag == abs(SUCCESSOR_OF);
        match p.value {
            Object::Abstract(a) => if a.0 == ZERO {
                Some((up, 1u128))
            } else {
                None
            },
            Object::Structure(t) => match t.properties {
                Properties::Chain(u, k) => if u == up && 1 <= k < u128::MAX {
                    Some((up, (k + 1) as u128))
                } else {
                    None
                },
                _ => None,
            },
            _ => None,
        }
    } else {
        None
    }
}

/// The list that stands for the properties `s`: a chain when `s` is the one
/// step of a chain, the plain list otherwise.
pub(crate) open spec fn canon_list(s: Seq<Property>) -> Properties {
    if s.len() == 1 && chain_of(s[0]) is Some {
        Properties::Chain(chain_of(s[0]).unwrap().0, chain_of(s[0]).unwrap().1)
    } else {
        list_of(s)
    }
}

/// The list that stands for `s` lists `s`.
pub(crate) proof fn lemma_canon_seq(s: Seq<Property>)
    ensures
        canon_list(s).seq() == s,
{
    if s.len() == 1 && chain_of(s[0]) is Some {
        assert(canon_list(s).seq() =~= s);
    } else {
        lemma_seq_of_list(s);
    }
}

/// A chain of positive length stands for its own step.
pub(crate) proof fn lemma_chain_canonical(up: bool, n: u128)
    requires
        n >= 1,
    ensures
        canon_list(seq![chain_step(up, n)]) == Properties::Chain(up, n),
{
    let p = chain_step(up, n);
    assert(seq![p][0] == p);
}

/// The list holding the properties of `s`, in order.
pub open spec fn list_of(s: Seq<Property>) -> Properties
    decreases s.len(),
{
    if s.len() == 0 {
        Properties::Empty
    } else {
        Properties::Cons(Box::new(s[0]), Box::new(list_of(s.drop_first())))
    }
}


/// The sequence of the list of `s` is `s`.
pub proof fn lemma_seq_of_list(s: Seq<Property>)
    ensures
        list_of(s).seq() == s,
    decreases s.len(),
{
    if s.len() > 0 {
        lemma_seq_of_list(s.drop_first());
        assert(seq![s[0]] + s.drop_first() =~= s);
    }
}

/// The values of the properties of `s` whose tag is `tag`, in order.
pub open spec fn values_of(s: Seq<Property>, tag: Object) -> Seq<Object>
    decreases s.len(),
{
    if s.len() == 0 {
        Seq::empty()
    } else {
        let rest = values_of(s.drop_first(), tag);
        if s[0].tag == tag {
            seq![s[0].value] + rest
        } else {
            rest
        }
    }
}


/// Whether the properties of `s` are in strictly increasing order.
pub open spec fn sorted(s: Seq<Property>) -> bool {
    forall|i: int, j: int| 0 <= i < j < s.len() ==> ord_prop(s[i], s[j]) < 0
}

/// `s` with `p` put in its place: before the first property that comes
/// after it, unless it is there already.
pub open spec fn insert_sorted(s: Seq<Property>, p: Property) -> Seq<Property>
    decreases s.len(),
{
    if s.len() == 0 {
        seq![p]
    } else if ord_prop(p, s[0]) < 0 {
        seq![p] + s
    } else if ord_prop(p, s[0]) == 0 {
        s
    } else {
        seq![s[0]] + insert_sorted(s.drop_first(), p)
    }
}

/// The properties of `s`, each once, in order.
pub open spec fn canonical(s: Seq<Property>) -> Seq<Property>
    decreases s.len(),
{
    if s.len() == 0 {
        Seq::empty()
    } else {
        insert_sorted(canonical(s.drop_last()), s.last())
    }
}

/// A sorted sequence has no duplicates.
pub proof fn lemma_sorted_distinct(s: Seq<Property>)
    requires
        sorted(s),
    ensures
        s.no_duplicates(),
{
    assert forall|i: int, j: int| 0 <= i < s.len() && 0 <= j < s.len() && i != j implies s[i] != s[j] by {
        lemma_ord_prop(s[i], s[j]);
        lemma_ord_prop(s[j], s[i]);
        lemma_ord_prop(s[i], s[i]);
    }
}

/// Inserting into a sorted sequence keeps it sorted and adds exactly `p`.
pub proof fn lemma_insert_sorted(s: Seq<Property>, p: Property)
    requires
        sorted(s),
    ensures
        sorted(insert_sorted(s, p)),
        forall|q: Property|
            #![trigger insert_sorted(s, p).contains(q)]
            #![trigger s.contains(q)]
            insert_sorted(s, p).contains(q) <==> (s.contains(q) || q == p),
    decreases s.len(),
{
    let r = insert_sorted(s, p);
    if s.len() == 0 {
        assert(r =~= seq![p]);
        assert forall|q: Property| r.contains(q) <==> (s.contains(q) || q == p) by {
            if r.contains(q) {
                assert(r[0] == q);
            }
            if q == p {
                assert(r[0] == q);
            }
        }
    } else {
        lemma_ord_prop(p, s[0]);
        if ord_prop(p, s[0]) < 0 {
            assert forall|i: int, j: int| 0 <= i < j < r.len() implies ord_prop(r[i], r[j]) < 0 by {
                if i == 0 {
                    if j > 1 {
                        lemma_ord_prop_trans(p, s[0], s[j - 1]);
                    }
                } else {
                    assert(r[i] == s[i - 1] && r[j] == s[j - 1]);
                }
            }
            assert forall|q: Property| r.contains(q) <==> (s.contains(q) || q == p) by {
                if r.contains(q) {
                    let i = choose|i: int| 0 <= i < r.len() && r[i] == q;
                    if i > 0 {
                        assert(s[i - 1] == q);
                    }
                }
                if s.contains(q) {
                    let i = choose|i: int| 0 <= i < s.len() && s[i] == q;
                    assert(r[i + 1] == q);
                }
                if q == p {
                    assert(r[0] == q);
                }
            }
        } else if ord_prop(p, s[0]) == 0 {
            assert(s.contains(p)) by {
                assert(s[0] == p);
            }
        } else {
            let t = s.drop_first();
            assert(sorted(t)) by {
                assert forall|i: int, j: int| 0 <= i < j < t.len() implies ord_prop(t[i], t[j]) < 0 by {
                    assert(t[i] == s[i + 1] && t[j] == s[j + 1]);
                }
            }
            lemma_insert_sorted(t, p);
            let rest = insert_sorted(t, p);
            assert(r == seq![s[0]] + rest);
            assert forall|x: Property| rest.contains(x) implies ord_prop(s[0], x) < 0 by {
                if x == p {
                    lemma_ord_prop(s[0], p);
                } else {
                    assert(t.contains(x));
                    let i = choose|i: int| 0 <= i < t.len() && t[i] == x;
                    assert(s[i + 1] == x);
                }
            }
            assert forall|i: int, j: int| 0 <= i < j < r.len() implies ord_prop(r[i], r[j]) < 0 by {
                if i == 0 {
                    assert(r[j] == rest[j - 1]);
                    assert(rest.contains(rest[j - 1]));
                } else {
                    assert(r[i] == rest[i - 1] && r[j] == rest[j - 1]);
                }
            }
            assert forall|q: Property| r.contains(q) <==> (s.contains(q) || q == p) by {
                if r.contains(q) {
                    let i = choose|i: int| 0 <= i < r.len() && r[i] == q;
                    if i == 0 {
                        assert(s[0] == q);
                    } else {
                        assert(rest[i - 1] == q);
                        assert(rest.contains(q));
                        if q != p {
                            assert(t.contains(q));
                            let k = choose|k: int| 0 <= k < t.len() && t[k] == q;
                            assert(s[k + 1] == q);
                        }
                    }
                }
                if s.contains(q) {
                    let i = choose|i: int| 0 <= i < s.len() && s[i] == q;
                    if i == 0 {
                        assert(r[0] == q);
                    } else {
                        assert(t[i - 1] == q);
                        assert(t.contains(q));
                        assert(rest.contains(q));
                        let k = choose|k: int| 0 <= k < rest.len() && rest[k] == q;
                        assert(r[k + 1] == q);
                    }
                }
                if q == p {
                    assert(t.contains(q) || q == p);
                    assert(rest.contains(q));
                    let k = choose|k: int| 0 <= k < rest.len() && rest[k] == q;
                    assert(r[k + 1] == q);
                }
            }
        }
    }
}

/// The canonical sequence is sorted and holds exactly the elements of `s`.
pub proof fn lemma_canonical(s: Seq<Property>)
    ensures
        sorted(canonical(s)),
        canonical(s).no_duplicates(),
        forall|p: Property| canonical(s).contains(p) <==> s.contains(p),
    decreases s.len(),
{
    if s.len() > 0 {
        let init = s.drop_last();
        lemma_canonical(init);
        lemma_insert_sorted(canonical(init), s.last());
        assert forall|p: Property| s.contains(p) <==> (init.contains(p) || p == s.last()) by {
            if s.contains(p) {
                let i = choose|i: int| 0 <= i < s.len() && s[i] == p;
                if i < s.len() - 1 {
                    assert(init[i] == p);
                }
            }
            if init.contains(p) {
                let i = choose|i: int| 0 <= i < init.len() && init[i] == p;
                assert(s[i] == p);
            }
            if p == s.last() {
                assert(s[s.len() - 1] == p);
            }
        }
    }
    lemma_sorted_distinct(canonical(s));
}

/// Inserting a property that comes after every one of a sequence appends
/// it.
proof fn lemma_insert_last(s: Seq<Property>, p: Property)
    requires
        forall|i: int| 0 <= i < s.len() ==> ord_prop(#[trigger] s[i], p) < 0,
    ensures
        insert_sorted(s, p) == s.push(p),
    decreases s.len(),
{
    if s.len() > 0 {
        lemma_ord_prop(s[0], p);
        let t = s.drop_first();
        assert forall|i: int| 0 <= i < t.len() implies ord_prop(#[trigger] t[i], p) < 0 by {
            assert(t[i] == s[i + 1]);
        }
        lemma_insert_last(t, p);
        assert(seq![s[0]] + t.push(p) =~= s.push(p));
    }
}

/// A sorted sequence is its own canonical sequence.
pub proof fn lemma_canonical_sorted(s: Seq<Property>)
    requires
        sorted(s),
    ensures
        canonical(s) == s,
    decreases s.len(),
{
    if s.len() > 0 {
        let init = s.drop_last();
        assert(sorted(init)) by {
            assert forall|i: int, j: int| 0 <= i < j < init.len() implies ord_prop(init[i], init[j]) < 0 by {
                assert(init[i] == s[i] && init[j] == s[j]);
            }
        }
        lemma_canonical_sorted(init);
        assert forall|i: int| 0 <= i < init.len() implies ord_prop(#[trigger] init[i], s.last()) < 0 by {
            assert(init[i] == s[i]);
        }
        lemma_insert_last(init, s.last());
        assert(init.push(s.last()) =~= s);
    }
}

/// Where the scan for `p` stops at `k`, inserting puts `p` at `k` unless it
/// is there already.
proof fn lemma_insert_at(s: Seq<Property>, p: Property, k: int)
    requires
        0 <= k <= s.len(),
        forall|i: int| 0 <= i < k ==> ord_prop(#[trigger] s[i], p) < 0,
        k < s.len() ==> ord_prop(s[k], p) >= 0,
    ensures
        insert_sorted(s, p) == if k < s.len() && ord_prop(s[k], p) == 0 {
            s
        } else {
            s.take(k) + seq![p] + s.skip(k)
        },
    decreases k,
{
    if s.len() == 0 {
        assert(s.take(0) + seq![p] + s.skip(0) =~= seq![p]);
    } else if k == 0 {
        lemma_ord_prop(s[0], p);
        if ord_prop(s[0], p) == 0 {
        } else {
            assert(s.take(0) + seq![p] + s.skip(0) =~= seq![p] + s);
        }
    } else {
        lemma_ord_prop(s[0], p);
        let t = s.drop_first();
        assert forall|i: int| 0 <= i < k - 1 implies ord_prop(#[trigger] t[i], p) < 0 by {
            assert(t[i] == s[i + 1]);
        }
        if k < s.len() {
            assert(t[k - 1] == s[k]);
        }
        lemma_insert_at(t, p, k - 1);
        if !(k < s.len() && ord_prop(s[k], p) == 0) {
            assert(seq![s[0]] + (t.take(k - 1) + seq![p] + t.skip(k - 1)) =~= s.take(k) + seq![p] + s.skip(k));
        } else {
            assert(seq![s[0]] + t =~= s);
        }
    }
}

impl Structure {
    /// The properties of the structure, in order.
    pub closed spec fn seq(self) -> Seq<Property> {
        self.properties.seq()
    }

    /// The properties are listed in strictly increasing order, so each
    /// occurs once, and the list is the one that stands for them.
    #[verifier::type_invariant]
    spec fn well_formed(self) -> bool {
        self.is_canonical()
    }

    /// Whether the properties are in strictly increasing order and listed
    /// by the list that stands for them.
    pub closed spec fn is_canonical(self) -> bool {
        sorted(self.properties.seq()) && self.properties == canon_list(self.properties.seq())
    }

    /// The structure that holds each property of `s` once, in order.
    pub closed spec fn of(s: Seq<Property>) -> Structure {
        Structure { properties: canon_list(canonical(s)) }
    }

    /// The values of the properties tagged `tag`, in order.
    pub open spec fn values_spec(self, tag: Object) -> Seq<Object> {
        values_of(self.seq(), tag)
    }
}

/// A structure built from a sequence holds exactly its elements, each once,
/// in order.
pub proof fn lemma_structure_of(s: Seq<Property>)
    ensures
        Structure::of(s).seq() == canonical(s),
        sorted(Structure::of(s).seq()),
        Structure::of(s).seq().no_duplicates(),
        forall|p: Property| Structure::of(s).seq().contains(p) <==> s.contains(p),
        Structure::of(s).is_canonical(),
{
    lemma_canon_seq(canonical(s));
    lemma_canonical(s);
}

/// A structure is a set of properties: two sequences with the same
/// elements, in whatever order and however often, build the same structure.
pub proof fn law_structure_is_a_set(s: Seq<Property>, t: Seq<Property>)
    requires
        forall|p: Property| s.contains(p) <==> t.contains(p),
    ensures
        Structure::of(s) == Structure::of(t),
{
    lemma_canonical(s);
    lemma_canonical(t);
    assert forall|p: Property| canonical(s).contains(p) <==> canonical(t).contains(p) by {
        assert(canonical(s).contains(p) <==> s.contains(p));
        assert(canonical(t).contains(p) <==> t.contains(p));
    }
    lemma_sorted_unique(canonical(s), canonical(t));
}

/// Two sorted sequences with the same elements are equal.
pub proof fn lemma_sorted_unique(a: Seq<Property>, b: Seq<Property>)
    requires
        sorted(a),
        sorted(b),
        forall|p: Property| a.contains(p) <==> b.contains(p),
    ensures
        a == b,
    decreases a.len() + b.len(),
{
    if a.len() == 0 {
        if b.len() > 0 {
            assert(b.contains(b[0]));
        }
        assert(a =~= b);
    } else if b.len() == 0 {
        assert(a.contains(a[0]));
    } else {
        assert(a.contains(a[0]));
        assert(b.contains(b[0]));
        let i = choose|i: int| 0 <= i < b.len() && b[i] == a[0];
        let j = choose|j: int| 0 <= j < a.len() && a[j] == b[0];
        if i > 0 {
            lemma_ord_prop(b[0], b[i]);
            if j > 0 {
                lemma_ord_prop(a[0], a[j]);
            }
        }
        if j > 0 {
            lemma_ord_prop(a[0], a[j]);
        }
        assert(a[0] == b[0]) by {
            if i > 0 && j > 0 {
                lemma_ord_prop(b[0], a[0]);
            } else if i > 0 {
                lemma_ord_prop(b[0], b[i]);
            } else if j > 0 {
                lemma_ord_prop(a[0], a[j]);
            }
        }
        let a1 = a.drop_first();
        let b1 = b.drop_first();
        assert(sorted(a1)) by {
            assert forall|x: int, y: int| 0 <= x < y < a1.len() implies ord_prop(a1[x], a1[y]) < 0 by {
                assert(a1[x] == a[x + 1] && a1[y] == a[y + 1]);
            }
        }
        assert(sorted(b1)) by {
            assert forall|x: int, y: int| 0 <= x < y < b1.len() implies ord_prop(b1[x], b1[y]) < 0 by {
                assert(b1[x] == b[x + 1] && b1[y] == b[y + 1]);
            }
        }
        assert forall|p: Property| a1.contains(p) <==> b1.contains(p) by {
            if a1.contains(p) {
                let x = choose|x: int| 0 <= x < a1.len() && a1[x] == p;
                assert(a[x + 1] == p);
                lemma_ord_prop(a[0], a[x + 1]);
                lemma_ord_prop(a[0], a[0]);
                assert(b.contains(p));
                let y = choose|y: int| 0 <= y < b.len() && b[y] == p;
                if y == 0 {
                    assert(p == a[0]);
                } else {
                    assert(b1[y - 1] == p);
                }
            }
            if b1.contains(p) {
                let y = choose|y: int| 0 <= y < b1.len() && b1[y] == p;
                assert(b[y + 1] == p);
                lemma_ord_prop(b[0], b[y + 1]);
                lemma_ord_prop(b[0], b[0]);
                assert(a.contains(p));
                let x = choose|x: int| 0 <= x < a.len() && a[x] == p;
                if x == 0 {
                    assert(p == b[0]);
                } else {
                    assert(a1[x - 1] == p);
                }
            }
        }
        lemma_sorted_unique(a1, b1);
        assert(a =~= seq![a[0]] + a1);
        assert(b =~= seq![b[0]] + b1);
    }
}

/// Two canonical structures with the same property sequence are the same
/// structure.
pub proof fn lemma_structure_ext(a: Structure, b: Structure)
    requires
        a.seq() == b.seq(),
        a.is_canonical(),
        b.is_canonical(),
    ensures
        a == b,
{
}

/// A structure without properties is the structure of no properties.
pub proof fn lemma_structure_empty(e: Structure)
    requires
        e.seq() == Seq::<Property>::empty(),
    ensures
        e == Structure::of(Seq::empty()),
{
    assert(canonical(Seq::<Property>::empty()) =~= Seq::<Property>::empty());
    match e.properties {
        Properties::Empty => {},
        Properties::Cons(p, rest) => {
            assert(e.seq()[0] == *p);
        },
        Properties::Chain(up, n) => {
            assert(e.seq()[0] == chain_step(up, n));
        },
    }
}

/// The single-property structure is the list that stands for that one
/// property.
pub(crate) proof fn lemma_single(tag: Object, value: Object)
    ensures
        Object::Structure(Structure::of(seq![Property { tag, value }])) == Object::Structure(Structure {
            properties: canon_list(seq![Property { tag, value }]),
        }),
        chain_of(Property { tag, value }) is None ==> canon_list(seq![Property { tag, value }])
            == Properties::Cons(Box::new(Property { tag, value }), Box::new(Properties::Empty)),
{
    let p = Property { tag, value };
    assert(canonical(seq![p]) =~= seq![p]) by {
        assert(seq![p].drop_last() =~= Seq::<Property>::empty());
        assert(seq![p].last() == p);
        assert(canonical(Seq::<Property>::empty()) =~= Seq::<Property>::empty());
        assert(insert_sorted(Seq::<Property>::empty(), p) =~= seq![p]);
    }
    assert(seq![p].drop_first() =~= Seq::<Property>::empty());
    assert(seq![p][0] == p);
    assert(list_of(Seq::<Property>::empty()) == Properties::Empty);
}

impl Properties {
    /// Whether the two lists are equal.
    pub fn same(&self, other: &Properties) -> (r: bool)
        ensures
            r == (*self == *other),
        decreases self,
    {
        match (self, other) {
            (Properties::Empty, Properties::Empty) => true,
            (Properties::Cons(p, rest), Properties::Cons(q, other_rest)) => {
                if (**p).same(q) {
                    (**rest).same(other_rest)
                } else {
                    false
                }
            },
            (Properties::Chain(up, n), Properties::Chain(other_up, m)) => *up == *other_up && *n == *m,
            _ => false,
        }
    }

    /// A copy of the list.
    pub fn duplicate(&self) -> (r: Properties)
        ensures
            r == *self,
        decreases self,
    {
        match self {
            Properties::Empty => Properties::Empty,
            Properties::Cons(p, rest) => Properties::Cons(
                Box::new((**p).duplicate()),
                Box::new((**rest).duplicate()),
            ),
            Properties::Chain(up, n) => Properties::Chain(*up, *n),
        }
    }

    /// Appends the values of the properties tagged `tag` to `out`.
    fn collect_values(&self, tag: &Object, out: &mut Vec<Object>)
        ensures
            final(out)@ == old(out)@ + values_of(self.seq(), *tag),
        decreases self,
    {
        match self {
            Properties::Empty => {
                assert(old(out)@ + values_of(self.seq(), *tag) =~= old(out)@);
            },
            Properties::Cons(p, rest) => {
                let ghost s = self.seq();
                assert(s.drop_first() =~= rest.seq());
                assert(s[0] == **p);
                if (**p).tag.same(tag) {
                    out.push((**p).value.duplicate());
                }
                (**rest).collect_values(tag, out);
                assert(final(out)@ =~= old(out)@ + values_of(s, *tag));
            },
            Properties::Chain(up, n) => {
                let p = chain_property(*up, *n);
                let ghost s = self.seq();
                assert(s.drop_first() =~= Seq::<Property>::empty());
                assert(s[0] == p);
                assert(values_of(s.drop_first(), *tag) =~= Seq::<Object>::empty());
                if p.tag.same(tag) {
                    out.push(p.value);
                }
                assert(final(out)@ =~= old(out)@ + values_of(s, *tag));
            },
        }
    }

    /// The value of the first property tagged `tag`, which is no tag of a
    /// chain.
    fn first_value<'a>(&'a self, tag: &Object) -> (r: Option<&'a Object>)
        requires
            *tag != abs(SUCCESSOR_OF),
            *tag != abs(PREDECESSOR_OF),
        ensures
            match r {
                Some(o) => values_of(self.seq(), *tag).len() > 0 && *o == values_of(self.seq(), *tag)[0],
                None => values_of(self.seq(), *tag).len() == 0,
            },
        decreases self,
    {
        match self {
            Properties::Empty => None,
            Properties::Cons(p, rest) => {
                let ghost s = self.seq();
                assert(s.drop_first() =~= rest.seq());
                if (**p).tag.same(tag) {
                    Some(&(**p).value)
                } else {
                    (**rest).first_value(tag)
                }
            },
            Properties::Chain(up, n) => {
                let ghost s = self.seq();
                assert(s.drop_first() =~= Seq::<Property>::empty());
                assert(s[0] == chain_step(*up, *n));
                assert(values_of(s.drop_first(), *tag) =~= Seq::<Object>::empty());
                assert(values_of(s, *tag) =~= Seq::<Object>::empty());
                None
            },
        }
    }

    /// Appends copies of the properties to `out`.
    fn collect_properties(&self, out: &mut Vec<Property>)
        ensures
            final(out)@ == old(out)@ + self.seq(),
        decreases self,
    {
        match self {
            Properties::Empty => {
                assert(old(out)@ + self.seq() =~= old(out)@);
            },
            Properties::Cons(p, rest) => {
                out.push((**p).duplicate());
                (**rest).collect_properties(out);
                assert(final(out)@ =~= old(out)@ + self.seq());
            },
            Properties::Chain(up, n) => {
                out.push(chain_property(*up, *n));
                assert(final(out)@ =~= old(out)@ + self.seq());
            },
        }
    }

    /// The number of properties in the list.
    fn count(&self) -> (r: usize)
        requires
            self.seq().len() <= usize::MAX,
        ensures
            r == self.seq().len(),
        decreases self,
    {
        match self {
            Properties::Empty => 0,
            Properties::Cons(_, rest) => 1 + (**rest).count(),
            Properties::Chain(_, _) => 1,
        }
    }
}

impl Property {
    /// Whether the two properties are equal.
    pub fn same(&self, other: &Property) -> (r: bool)
        ensures
            r == (*self == *other),
        decreases self,
    {
        if self.tag.same(&other.tag) {
            self.value.same(&other.value)
        } else {
            false
        }
    }

    /// A copy of the property.
    pub fn duplicate(&self) -> (r: Property)
        ensures
            r == *self,
        decreases self,
    {
        Property { tag: self.tag.duplicate(), value: self.value.duplicate() }
    }
}

impl Object {
    /// Whether the two objects are equal.
    pub fn same(&self, other: &Object) -> (r: bool)
        ensures
            r == (*self == *other),
        decreases self,
    {
        match (self, other) {
            (Object::Abstract(a), Object::Abstract(b)) => a.0 == b.0,
            (Object::Structure(s), Object::Structure(t)) => s.properties.same(&t.properties),
            (Object::Character(c), Object::Character(d)) => *c == *d,
            _ => false,
        }
    }

    /// A copy of the object.
    pub fn duplicate(&self) -> (r: Object)
        ensures
            r == *self,
        decreases self,
    {
        match self {
            Object::Abstract(a) => Object::Abstract(Abstract(a.0)),
            Object::Structure(s) => Object::Structure(s.duplicate()),
            Object::Character(c) => Object::Character(*c),
        }
    }
}

/// Whether `p` is one of the elements of `v`.
/// Puts `p` into its place in `v`, unless it is there already.
fn insert_in_order(v: &mut Vec<Property>, p: Property)
    ensures
        final(v)@ == insert_sorted(old(v)@, p),
{
    let mut k: usize = 0;
    while k < v.len() && v[k].compare(&p) < 0
        invariant
            k <= v@.len(),
            v@ == old(v)@,
            forall|i: int| 0 <= i < k ==> ord_prop(#[trigger] v@[i], p) < 0,
        decreases v@.len() - k,
    {
        k = k + 1;
    }
    proof {
        lemma_insert_at(v@, p, k as int);
    }
    if k < v.len() && v[k].compare(&p) == 0 {
        return;
    }
    v.insert(k, p);
    assert(v@ =~= old(v)@.take(k as int) + seq![p] + old(v)@.skip(k as int));
}


/// The plain list holding the elements of `v`, in order.
fn list_from_vec(v: Vec<Property>) -> (r: Properties)
    ensures
        r == list_of(v@),
{
    let mut v = v;
    let ghost all = v@;
    let mut list = Properties::Empty;
    while v.len() > 0
        invariant
            v@ == all.take(v@.len() as int),
            v@.len() <= all.len(),
            list == list_of(all.skip(v@.len() as int)),
        decreases v.len(),
    {
        let p = v.pop().unwrap();
        let ghost n = v@.len() as int;
        assert(all[n] == p);
        proof {
            let t = all.skip(n);
            assert(t[0] == p);
            assert(t.drop_first() =~= all.skip(n + 1));
        }
        list = Properties::Cons(Box::new(p), Box::new(list));
        assert(v@ =~= all.take(n));
    }
    assert(all.skip(0) =~= all);
    list
}

/// The step of the chain of length `n`.
fn chain_property(up: bool, n: u128) -> (r: Property)
    ensures
        r == chain_step(up, n),
{
    let tag = if up { Object::Abstract(Abstract(SUCCESSOR_OF)) } else { Object::Abstract(Abstract(PREDECESSOR_OF)) };
    if n <= 1 {
        Property { tag, value: Object::Abstract(Abstract(ZERO)) }
    } else {
        Property { tag, value: Object::Structure(Structure::chain(up, n - 1)) }
    }
}

/// The list that stands for the one property `p`.
fn canon_single(p: Property) -> (r: Properties)
    ensures
        r == canon_list(seq![p]),
{
    proof {
        assert(seq![p][0] == p);
        assert(seq![p].drop_first() =~= Seq::<Property>::empty());
        assert(list_of(Seq::<Property>::empty()) == Properties::Empty);
    }
    let up: bool = match &p.tag {
        Object::Abstract(a) => {
            if a.0 == SUCCESSOR_OF {
                true
            } else if a.0 == PREDECESSOR_OF {
                false
            } else {
                return Properties::Cons(Box::new(p), Box::new(Properties::Empty));
            }
        },
        _ => {
            return Properties::Cons(Box::new(p), Box::new(Properties::Empty));
        },
    };
    let length: Option<u128> = match &p.value {
        Object::Abstract(a) => if a.0 == ZERO {
            Some(1)
        } else {
            None
        },
        Object::Structure(t) => match &t.properties {
            Properties::Chain(u, k) => if *u == up && 1 <= *k && *k < u128::MAX {
                Some(*k + 1)
            } else {
                None
            },
            _ => None,
        },
        _ => None,
    };
    match length {
        Some(n) => Properties::Chain(up, n),
        None => Properties::Cons(Box::new(p), Box::new(Properties::Empty)),
    }
}

/// The list that stands for the elements of `v`.
fn canon_from_vec(v: Vec<Property>) -> (r: Properties)
    ensures
        r == canon_list(v@),
{
    if v.len() == 1 {
        let ghost all = v@;
        let mut v = v;
        let p = v.pop().unwrap();
        assert(all =~= seq![p]);
        canon_single(p)
    } else {
        list_from_vec(v)
    }
}

impl Structure {
    /// The structure without properties.
    pub fn empty() -> (r: Structure)
        ensures
            r.seq() == Seq::<Property>::empty(),
    {
        Structure { properties: Properties::Empty }
    }

    /// The structure holding the given properties, each once, in order.
    pub fn new(properties: Vec<Property>) -> (r: Structure)
        ensures
            r == Structure::of(properties@),
            r.seq() == canonical(properties@),
    {
        let mut ordered: Vec<Property> = Vec::new();
        let mut i: usize = 0;
        while i < properties.len()
            invariant
                i <= properties.len(),
                ordered@ == canonical(properties@.take(i as int)),
            decreases properties.len() - i,
        {
            assert(properties@.take(i as int + 1).drop_last() =~= properties@.take(i as int));
            assert(properties@.take(i as int + 1).last() == properties@[i as int]);
            insert_in_order(&mut ordered, properties[i].duplicate());
            i = i + 1;
        }
        assert(properties@.take(properties.len() as int) =~= properties@);
        proof {
            lemma_canonical(properties@);
            lemma_canon_seq(ordered@);
        }
        Structure { properties: canon_from_vec(ordered) }
    }

    /// The structure with the single property `(tag, value)`.
    pub fn single(tag: Object, value: Object) -> (r: Structure)
        ensures
            r.seq() == seq![Property { tag, value }],
            r == Structure::of(seq![Property { tag, value }]),
    {
        proof {
            lemma_single(tag, value);
            lemma_canon_seq(seq![Property { tag, value }]);
            lemma_structure_of(seq![Property { tag, value }]);
        }
        Structure { properties: canon_single(Property { tag, value }) }
    }

    /// The chain of length `n`: the integer `n` upward, `-n` downward.
    pub(crate) fn chain(up: bool, n: u128) -> (r: Structure)
        requires
            n >= 1,
        ensures
            r.properties == Properties::Chain(up, n),
    {
        proof {
            lemma_chain_canonical(up, n);
        }
        Structure { properties: Properties::Chain(up, n) }
    }

    /// A copy of the structure.
    pub fn duplicate(&self) -> (r: Structure)
        ensures
            r == *self,
        decreases self,
    {
        proof {
            use_type_invariant(self);
        }
        Structure { properties: self.properties.duplicate() }
    }

    /// Whether the two structures are equal.
    pub fn same(&self, other: &Structure) -> (r: bool)
        ensures
            r == (*self == *other),
    {
        self.properties.same(&other.properties)
    }

    /// The values of the properties tagged `tag`, in order.
    pub fn values(&self, tag: &Object) -> (r: Vec<Object>)
        ensures
            r@ == self.values_spec(*tag),
    {
        let mut out = Vec::new();
        self.properties.collect_values(tag, &mut out);
        assert(out@ =~= self.values_spec(*tag));
        out
    }

    /// The value of the first property tagged `tag`, if there is one.
    pub fn first_value<'a>(&'a self, tag: &Object) -> (r: Option<&'a Object>)
        requires
            *tag != abs(SUCCESSOR_OF),
            *tag != abs(PREDECESSOR_OF),
        ensures
            match r {
                Some(o) => self.values_spec(*tag).len() > 0 && *o == self.values_spec(*tag)[0],
                None => self.values_spec(*tag).len() == 0,
            },
    {
        self.properties.first_value(tag)
    }

    /// Copies of the properties, in order.
    pub fn to_vec(&self) -> (r: Vec<Property>)
        ensures
            r@ == self.seq(),
    {
        let mut out = Vec::new();
        self.properties.collect_properties(&mut out);
        assert(out@ =~= self.seq());
        out
    }

    /// The number of properties.
    pub fn len(&self) -> (r: usize)
        requires
            self.seq().len() <= usize::MAX,
        ensures
            r == self.seq().len(),
    {
        self.properties.count()
    }

    /// Whether the structure has no property.
    pub fn is_empty(&self) -> (r: bool)
        ensures
            r == (self.seq().len() == 0),
    {
        match &self.properties {
            Properties::Empty => true,
            _ => false,
        }
    }
}

impl Clone for Object {
    fn clone(&self) -> (r: Object)
        ensures
            r == *self,
    {
        self.duplicate()
    }
}

impl Clone for Property {
    fn clone(&self) -> (r: Property)
        ensures
            r == *self,
    {
        self.duplicate()
    }
}

impl Clone for Structure {
    fn clone(&self) -> (r: Structure)
        ensures
            r == *self,
    {
        self.duplicate()
    }
}

} // verus!
