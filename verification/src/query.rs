//! Queries on a root structure that holds its statements as `CONTAINS`
//! values, with the built-in answers for axiomatic and computed tags and for
//! knowledge.

use vstd::prelude::*;

use crate::object::{Abstract, Object, Structure, abs};
use crate::objects::{AXIOMATIC, COMPUTED, CONTAINS, KNOWLEDGE, STATEMENT_SUBJECT, STATEMENT_TAG, is_statement_spec};

verus! {

/// The placeholder that answers which constraint constrains `AXIOMATIC`.
pub const AXIOMATIC_CONSTRAINT: u128 = 999_999_999;

/// The answer to a query on a root structure: at most one object, or the
/// values of `subject` on `tag` listed axiomatically from the root.
#[derive(Debug, PartialEq)]
pub enum QueryValuesResult {
    Single(Option<Object>),
    Axiomatic { subject: Object, tag: Object },
}

/// The statements that `s` holds.
pub open spec fn stated(s: Structure) -> Seq<Object> {
    s.values_spec(abs(CONTAINS))
}

/// Whether each of `vs` is a structure that reads as a statement.
pub open spec fn all_statements(vs: Seq<Object>) -> bool {
    forall|i: int| 0 <= i < vs.len() ==> (#[trigger] vs[i] matches Object::Structure(t) && is_statement_spec(t))
}

/// The tag of the statement `o`.
pub open spec fn statement_tag(o: Object) -> Object {
    match o {
        Object::Structure(t) => t.values_spec(abs(STATEMENT_TAG))[0],
        _ => o,
    }
}

/// The subject of the statement `o`.
pub open spec fn statement_subject(o: Object) -> Object {
    match o {
        Object::Structure(t) => t.values_spec(abs(STATEMENT_SUBJECT))[0],
        _ => o,
    }
}

/// Whether `tag` has an `AXIOMATIC` value of its own, or `s` states one for
/// it.
pub open spec fn has_constraint(s: Structure, tag: Object) -> bool {
    ||| (tag matches Object::Structure(t) && t.values_spec(abs(AXIOMATIC)).len() > 0)
    ||| exists|i: int| 0 <= i < stated(s).len()
            && statement_subject(#[trigger] stated(s)[i]) == tag
            && statement_tag(stated(s)[i]) == abs(AXIOMATIC)
}

/// Whether checking that `s` is knowledge comes to an answer: it does when
/// `s` holds something that is no statement, when it holds nothing, and
/// when the tag of its first statement has no constraint; otherwise the
/// check goes on to call that constraint, which is not defined.
pub open spec fn knowledge_check_ends(s: Structure) -> bool {
    let vs = stated(s);
    ||| !all_statements(vs)
    ||| vs.len() == 0
    ||| (statement_tag(vs[0]) != abs(AXIOMATIC) && !has_constraint(s, statement_tag(vs[0])))
}

/// Whether the query of `subject` on `tag` comes to an answer: a query on
/// a tag that is neither `AXIOMATIC` nor `KNOWLEDGE` asks for the tag's
/// computation, and asking for that of `COMPUTED` asks for itself again.
pub open spec fn query_ends(subject: Object, tag: Object) -> bool {
    ||| tag == abs(AXIOMATIC)
    ||| (subject == abs(AXIOMATIC) && tag == abs(COMPUTED))
    ||| (tag == abs(KNOWLEDGE) && (subject matches Object::Structure(s) ==> knowledge_check_ends(s)))
}

/// The answer to the query of `subject` on `tag`, where it comes to one.
pub open spec fn query_result(subject: Object, tag: Object) -> QueryValuesResult {
    if subject == abs(AXIOMATIC) && tag == abs(AXIOMATIC) {
        QueryValuesResult::Single(Some(abs(AXIOMATIC_CONSTRAINT)))
    } else if subject == abs(AXIOMATIC) && tag == abs(COMPUTED) {
        QueryValuesResult::Single(None)
    } else if tag == abs(KNOWLEDGE) {
        QueryValuesResult::Single(
            match subject {
                Object::Structure(s) => if stated(s).len() == 0 {
                    Some(Object::Structure(Structure::of(Seq::empty())))
                } else {
                    None
                },
                _ => None,
            },
        )
    } else {
        QueryValuesResult::Axiomatic { subject, tag }
    }
}

/// The values of `subject` on `tag` under the root structure `root`, from
/// which an axiomatic listing reads the stated values. The
/// pair `(AXIOMATIC, AXIOMATIC)` answers the placeholder constraint,
/// `(AXIOMATIC, COMPUTED)` nothing, and a `KNOWLEDGE` query the empty
/// structure exactly for a structure that is knowledge, which one that
/// holds no statement is; a query on `AXIOMATIC` lists the values
/// axiomatically, the subject's own first.
pub fn query_values(root: &Structure, subject: &Object, tag: &Object) -> (r: QueryValuesResult)
    requires
        query_ends(*subject, *tag),
    ensures
        r == query_result(*subject, *tag),
{
    let axiomatic = Object::Abstract(Abstract(AXIOMATIC));
    if subject.same(&axiomatic) && tag.same(&axiomatic) {
        return QueryValuesResult::Single(Some(Object::Abstract(Abstract(AXIOMATIC_CONSTRAINT))));
    }
    if subject.same(&axiomatic) && tag.same(&Object::Abstract(Abstract(COMPUTED))) {
        return QueryValuesResult::Single(None);
    }
    if tag.same(&Object::Abstract(Abstract(KNOWLEDGE))) {
        return QueryValuesResult::Single(
            match subject {
                Object::Structure(s) => if s.values(&Object::Abstract(Abstract(CONTAINS))).len() == 0 {
                    let e = Structure::empty();
                    proof {
                        crate::object::lemma_structure_empty(e);
                    }
                    Some(Object::Structure(e))
                } else {
                    None
                },
                _ => None,
            },
        );
    }
    QueryValuesResult::Axiomatic { subject: subject.duplicate(), tag: tag.duplicate() }
}

} // verus!
