//! Integers as objects: zero is the abstract object `ZERO`; a positive
//! number is the structure holding only `(SUCCESSOR_OF, its predecessor)`;
//! a negative number is the structure holding only `(PREDECESSOR_OF, its
//! successor)`. Such a structure is held as a chain, whose size does not
//! grow with the number.

use vstd::prelude::*;

use super::{Abstract, Object, Properties, Property, Structure, abs, canon_list, chain_of};
use crate::objects::{PREDECESSOR_OF, SUCCESSOR_OF, ZERO};

verus! {

/// The structure with the single property `(tag, value)`.
pub open spec fn single(tag: Object, value: Object) -> Object {
    Object::Structure(Structure::of(seq![Property { tag, value }]))
}

/// The object standing for the integer `i`.
pub open spec fn integer(i: int) -> Object
    decreases (if i >= 0 { i } else { -i }),
{
    if i == 0 {
        abs(ZERO)
    } else if i > 0 {
        single(abs(SUCCESSOR_OF), integer(i - 1))
    } else {
        single(abs(PREDECESSOR_OF), integer(i + 1))
    }
}

/// The object standing for the natural number `n`.
pub open spec fn natural(n: nat) -> Object {
    integer(n as int)
}

/// What an integer object looks like, one level deep: `ZERO`, a chain
/// within the range of a `u128` count, and a plain one-property structure
/// beyond it.
pub(crate) proof fn lemma_integer_shape(i: int)
    ensures
        i == 0 ==> integer(i) == abs(ZERO),
        0 < i <= u128::MAX ==> integer(i) == Object::Structure(Structure {
            properties: Properties::Chain(true, i as u128),
        }),
        -(u128::MAX as int) <= i < 0 ==> integer(i) == Object::Structure(Structure {
            properties: Properties::Chain(false, (-i) as u128),
        }),
        i > u128::MAX ==> integer(i) == Object::Structure(Structure {
            properties: Properties::Cons(
                Box::new(Property { tag: abs(SUCCESSOR_OF), value: integer(i - 1) }),
                Box::new(Properties::Empty),
            ),
        }),
        i < -(u128::MAX as int) ==> integer(i) == Object::Structure(Structure {
            properties: Properties::Cons(
                Box::new(Property { tag: abs(PREDECESSOR_OF), value: integer(i + 1) }),
                Box::new(Properties::Empty),
            ),
        }),
    decreases (if i >= 0 { i } else { -i }),
{
    if i > 0 {
        let p = Property { tag: abs(SUCCESSOR_OF), value: integer(i - 1) };
        super::lemma_single(abs(SUCCESSOR_OF), integer(i - 1));
        lemma_integer_shape(i - 1);
        assert(seq![p][0] == p);
        assert(seq![p].drop_first() =~= Seq::<Property>::empty());
    } else if i < 0 {
        let p = Property { tag: abs(PREDECESSOR_OF), value: integer(i + 1) };
        super::lemma_single(abs(PREDECESSOR_OF), integer(i + 1));
        lemma_integer_shape(i + 1);
        assert(seq![p][0] == p);
        assert(seq![p].drop_first() =~= Seq::<Property>::empty());
    }
}

/// Different integers are different objects.
pub proof fn law_integer_injective(i: int, j: int)
    requires
        integer(i) == integer(j),
    ensures
        i == j,
    decreases (if i >= 0 { i } else { -i }),
{
    lemma_integer_shape(i);
    lemma_integer_shape(j);
    if i > u128::MAX && j > u128::MAX {
        law_integer_injective(i - 1, j - 1);
    } else if i < -(u128::MAX as int) && j < -(u128::MAX as int) {
        law_integer_injective(i + 1, j + 1);
    }
}

/// Whether `o` is exactly the object of a natural number that a `u128`
/// counts.
pub closed spec fn is_only_natural(o: Object) -> bool {
    match o {
        Object::Abstract(a) => a.0 == ZERO,
        Object::Structure(s) => match s.properties {
            Properties::Chain(up, n) => up && n >= 1,
            _ => false,
        },
        Object::Character(_) => false,
    }
}

/// Every natural number that a `u128` counts is recognized as one.
pub proof fn law_natural_is_only_natural(n: nat)
    requires
        n <= u128::MAX,
    ensures
        is_only_natural(natural(n)),
{
    lemma_integer_shape(n as int);
}

/// Every object recognized as a natural number is the object of one.
pub proof fn law_only_natural_is_natural(o: Object)
    requires
        is_only_natural(o),
    ensures
        exists|n: nat| n <= u128::MAX && natural(n) == o,
{
    match o {
        Object::Abstract(a) => {
            lemma_integer_shape(0);
            assert(natural(0) == o);
        },
        Object::Structure(s) => match s.properties {
            Properties::Chain(up, n) => {
                lemma_integer_shape(n as int);
                assert(natural(n as nat) == o);
            },
            _ => {},
        },
        Object::Character(_) => {},
    }
}

impl Object {
    /// Whether `self` is exactly the object of some natural number.
    pub fn is_only_natural_number(&self) -> (r: bool)
        ensures
            r == is_only_natural(*self),
            r <==> exists|n: nat| n <= u128::MAX && natural(n) == *self,
    {
        let r = match self {
            Object::Abstract(a) => a.0 == ZERO,
            Object::Structure(s) => match &s.properties {
                Properties::Chain(up, n) => *up && *n >= 1,
                _ => false,
            },
            Object::Character(_) => false,
        };
        proof {
            if r {
                law_only_natural_is_natural(*self);
            } else if exists|n: nat| n <= u128::MAX && natural(n) == *self {
                let n = choose|n: nat| n <= u128::MAX && natural(n) == *self;
                law_natural_is_only_natural(n);
            }
        }
        r
    }

    /// The natural number `n` as an object, `ZERO` with `n` times
    /// `SUCCESSOR_OF` around it.
    pub fn natural_number(n: u64) -> (r: Object)
        ensures
            r == natural(n as nat),
    {
        proof {
            lemma_integer_shape(n as int);
        }
        if n == 0 {
            Object::Abstract(Abstract(ZERO))
        } else {
            Object::Structure(Structure::chain(true, n as u128))
        }
    }

    /// The integer `i` as an object.
    pub fn new_integer(i: i128) -> (r: Object)
        ensures
            r == integer(i as int),
    {
        proof {
            lemma_integer_shape(i as int);
        }
        if i == 0 {
            Object::Abstract(Abstract(ZERO))
        } else if i > 0 {
            Object::Structure(Structure::chain(true, i as u128))
        } else {
            let n: u128 = (-(i + 1)) as u128 + 1;
            Object::Structure(Structure::chain(false, n))
        }
    }

    /// The integer that `self` stands for exactly, if it is one whose value
    /// fits an `i128`.
    pub fn exact_integer(&self) -> (r: Option<i128>)
        ensures
            match r {
                Some(i) => *self == integer(i as int),
                None => forall|i: i128| *self != integer(i as int),
            },
    {
        let r: Option<i128> = match self {
            Object::Abstract(a) => if a.0 == ZERO {
                Some(0)
            } else {
                None
            },
            Object::Structure(s) => match &s.properties {
                Properties::Chain(up, n) => {
                    if *n == 0 {
                        None
                    } else if *up {
                        if *n <= 170141183460469231731687303715884105727u128 {
                            Some(*n as i128)
                        } else {
                            None
                        }
                    } else if *n < 170141183460469231731687303715884105728u128 {
                        Some(-(*n as i128))
                    } else if *n == 170141183460469231731687303715884105728u128 {
                        Some(i128::MIN)
                    } else {
                        None
                    }
                },
                _ => None,
            },
            Object::Character(_) => None,
        };
        proof {
            match r {
                Some(i) => {
                    lemma_integer_shape(i as int);
                },
                None => {
                    assert forall|i: i128| *self != integer(i as int) by {
                        lemma_integer_shape(i as int);
                    }
                },
            }
        }
        r
    }
}

} // verus!
