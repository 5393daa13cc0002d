//! A total order on objects, by which a structure lists its properties.
//!
//! Abstract objects come first, ordered by number; then structures, ordered
//! by their property lists, property by property, a shorter list before a
//! longer one with the same beginning; then characters, by code point.

use vstd::prelude::*;

use super::{Object, Properties, Property};

verus! {

/// The order of two numbers: `-1`, `0` or `1`.
pub open spec fn ord_num(x: int, y: int) -> int {
    if x < y {
        -1
    } else if x == y {
        0
    } else {
        1
    }
}

/// The order of two objects: `-1` when `a` comes first, `0` when they are
/// equal, `1` when `b` comes first.
pub closed spec fn ord_obj(a: Object, b: Object) -> int
    decreases a,
{
    match (a, b) {
        (Object::Abstract(x), Object::Abstract(y)) => ord_num(x.0 as int, y.0 as int),
        (Object::Abstract(_), _) => -1,
        (Object::Structure(_), Object::Abstract(_)) => 1,
        (Object::Structure(s), Object::Structure(t)) => ord_list(s.properties, t.properties),
        (Object::Structure(_), Object::Character(_)) => -1,
        (Object::Character(x), Object::Character(y)) => ord_num(x as int, y as int),
        (Object::Character(_), _) => 1,
    }
}

/// The order of two property lists.
pub closed spec fn ord_list(l: Properties, m: Properties) -> int
    decreases l,
{
    match (l, m) {
        (Properties::Cons(p, r), Properties::Cons(q, r2)) => {
            let c = ord_prop(*p, *q);
            if c != 0 {
                c
            } else {
                ord_list(*r, *r2)
            }
        },
        (Properties::Chain(up, n), Properties::Chain(up2, n2)) => {
            let c = ord_num(if up { 1 } else { 0 }, if up2 { 1 } else { 0 });
            if c != 0 {
                c
            } else {
                ord_num(n as int, n2 as int)
            }
        },
        _ => ord_num(list_rank(l), list_rank(m)),
    }
}

/// Lists come empty first, then plain, then chains.
pub open spec fn list_rank(l: Properties) -> int {
    match l {
        Properties::Empty => 0,
        Properties::Cons(_, _) => 1,
        Properties::Chain(_, _) => 2,
    }
}

/// The order of two properties: by tag, then by value.
pub closed spec fn ord_prop(p: Property, q: Property) -> int
    decreases p,
{
    let c = ord_obj(p.tag, q.tag);
    if c != 0 {
        c
    } else {
        ord_obj(p.value, q.value)
    }
}

/// The order is `0` exactly on equal objects, and swapping the two negates
/// it.
pub proof fn lemma_ord_obj(a: Object, b: Object)
    ensures
        ord_obj(a, b) == 0 <==> a == b,
        ord_obj(b, a) == -ord_obj(a, b),
        -1 <= ord_obj(a, b) <= 1,
    decreases a,
{
    match (a, b) {
        (Object::Structure(s), Object::Structure(t)) => {
            lemma_ord_list(s.properties, t.properties);
        },
        _ => {},
    }
}

/// The order of lists is `0` exactly on equal lists, and antisymmetric.
pub proof fn lemma_ord_list(l: Properties, m: Properties)
    ensures
        ord_list(l, m) == 0 <==> l == m,
        ord_list(m, l) == -ord_list(l, m),
        -1 <= ord_list(l, m) <= 1,
    decreases l,
{
    match (l, m) {
        (Properties::Cons(p, r), Properties::Cons(q, r2)) => {
            lemma_ord_prop(*p, *q);
            lemma_ord_list(*r, *r2);
        },
        _ => {},
    }
}

/// The order of properties is `0` exactly on equal properties, and
/// antisymmetric.
pub proof fn lemma_ord_prop(p: Property, q: Property)
    ensures
        ord_prop(p, q) == 0 <==> p == q,
        ord_prop(q, p) == -ord_prop(p, q),
        -1 <= ord_prop(p, q) <= 1,
    decreases p,
{
    lemma_ord_obj(p.tag, q.tag);
    lemma_ord_obj(p.value, q.value);
}

/// The order of objects is transitive.
pub proof fn lemma_ord_obj_trans(a: Object, b: Object, c: Object)
    requires
        ord_obj(a, b) < 0,
        ord_obj(b, c) < 0,
    ensures
        ord_obj(a, c) < 0,
    decreases a,
{
    match (a, b, c) {
        (Object::Structure(s), Object::Structure(t), Object::Structure(u)) => {
            lemma_ord_list_trans(s.properties, t.properties, u.properties);
        },
        _ => {},
    }
}

/// The order of lists is transitive.
pub proof fn lemma_ord_list_trans(l: Properties, m: Properties, n: Properties)
    requires
        ord_list(l, m) < 0,
        ord_list(m, n) < 0,
    ensures
        ord_list(l, n) < 0,
    decreases l,
{
    match (l, m, n) {
        (Properties::Cons(p, r), Properties::Cons(q, r2), Properties::Cons(w, r3)) => {
            lemma_ord_prop(*p, *q);
            lemma_ord_prop(*q, *w);
            lemma_ord_prop(*p, *w);
            if ord_prop(*p, *q) < 0 && ord_prop(*q, *w) < 0 {
                lemma_ord_prop_trans(*p, *q, *w);
            } else if ord_prop(*p, *q) == 0 && ord_prop(*q, *w) == 0 {
                lemma_ord_list_trans(*r, *r2, *r3);
            }
        },
        _ => {},
    }
}

/// The order of properties is transitive.
pub proof fn lemma_ord_prop_trans(p: Property, q: Property, w: Property)
    requires
        ord_prop(p, q) < 0,
        ord_prop(q, w) < 0,
    ensures
        ord_prop(p, w) < 0,
    decreases p,
{
    lemma_ord_obj(p.tag, q.tag);
    lemma_ord_obj(q.tag, w.tag);
    lemma_ord_obj(p.tag, w.tag);
    lemma_ord_obj(p.value, q.value);
    lemma_ord_obj(q.value, w.value);
    if ord_obj(p.tag, q.tag) < 0 && ord_obj(q.tag, w.tag) < 0 {
        lemma_ord_obj_trans(p.tag, q.tag, w.tag);
    } else if ord_obj(p.tag, q.tag) == 0 && ord_obj(q.tag, w.tag) == 0 {
        lemma_ord_obj_trans(p.value, q.value, w.value);
    }
}

impl Object {
    /// The order of `self` and `other`: `-1`, `0` or `1`.
    pub fn compare(&self, other: &Object) -> (r: i8)
        ensures
            r == ord_obj(*self, *other),
        decreases self,
    {
        match (self, other) {
            (Object::Abstract(x), Object::Abstract(y)) => if x.0 < y.0 {
                -1
            } else if x.0 == y.0 {
                0
            } else {
                1
            },
            (Object::Abstract(_), _) => -1,
            (Object::Structure(_), Object::Abstract(_)) => 1,
            (Object::Structure(s), Object::Structure(t)) => s.properties.compare(&t.properties),
            (Object::Structure(_), Object::Character(_)) => -1,
            (Object::Character(x), Object::Character(y)) => if *x < *y {
                -1
            } else if *x == *y {
                0
            } else {
                1
            },
            (Object::Character(_), _) => 1,
        }
    }
}

impl Properties {
    /// The order of `self` and `other`.
    pub fn compare(&self, other: &Properties) -> (r: i8)
        ensures
            r == ord_list(*self, *other),
        decreases self,
    {
        match (self, other) {
            (Properties::Cons(p, r), Properties::Cons(q, r2)) => {
                let c = (**p).compare(q);
                if c != 0 {
                    c
                } else {
                    (**r).compare(r2)
                }
            },
            (Properties::Chain(up, n), Properties::Chain(up2, n2)) => {
                if *up != *up2 {
                    if *up2 {
                        -1
                    } else {
                        1
                    }
                } else if *n < *n2 {
                    -1
                } else if *n == *n2 {
                    0
                } else {
                    1
                }
            },
            _ => {
                let a: i8 = match self {
                    Properties::Empty => 0,
                    Properties::Cons(_, _) => 1,
                    Properties::Chain(_, _) => 2,
                };
                let b: i8 = match other {
                    Properties::Empty => 0,
                    Properties::Cons(_, _) => 1,
                    Properties::Chain(_, _) => 2,
                };
                if a < b {
                    -1
                } else if a == b {
                    0
                } else {
                    1
                }
            },
        }
    }
}

impl Property {
    /// The order of `self` and `other`: by tag, then by value.
    pub fn compare(&self, other: &Property) -> (r: i8)
        ensures
            r == ord_prop(*self, *other),
        decreases self,
    {
        let c = self.tag.compare(&other.tag);
        if c != 0 {
            c
        } else {
            self.value.compare(&other.value)
        }
    }
}

} // verus!
