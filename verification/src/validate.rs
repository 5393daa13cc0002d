//! Validation of structures as statements and of roots as knowledge.

use vstd::prelude::*;

use crate::object::{Abstract, Object, Property, Structure, abs};
use crate::objects::{CONTAINS, STATEMENT_SUBJECT, STATEMENT_TAG, STATEMENT_VALUE};

verus! {

/// Why a structure is not what it should be.
#[derive(Debug, PartialEq)]
pub enum ValidationError {
    FoundPropertyOn { subject: Object, property: Property },
    MissingPropertyOn { subject: Object, form: PropertyForm },
}

/// The form of a property that is missing.
#[derive(Debug, PartialEq)]
pub enum PropertyForm {
    Exact(Property),
    SomeTagAndExactValue(Object),
    SomeValueAndExactTag(Object),
}

/// The outcome of checking that `target` has exactly one value on `tag`.
/// A missing value is reported as a missing statement subject.
pub open spec fn cardinality_of_1_spec(target: Structure, tag: Object) -> Result<(), ValidationError> {
    let values = target.values_spec(tag);
    if values.len() == 0 {
        Err(ValidationError::MissingPropertyOn {
            subject: Object::Structure(target),
            form: PropertyForm::SomeValueAndExactTag(abs(STATEMENT_SUBJECT)),
        })
    } else if values.len() >= 2 {
        Err(ValidationError::FoundPropertyOn {
            subject: Object::Structure(target),
            property: Property { tag, value: values[1] },
        })
    } else {
        Ok(())
    }
}

/// The outcome of checking that `s` has exactly one subject, tag and value,
/// in that order.
pub open spec fn statement_spec(s: Structure) -> Result<(), ValidationError> {
    match cardinality_of_1_spec(s, abs(STATEMENT_SUBJECT)) {
        Err(e) => Err(e),
        Ok(()) => match cardinality_of_1_spec(s, abs(STATEMENT_TAG)) {
            Err(e) => Err(e),
            Ok(()) => cardinality_of_1_spec(s, abs(STATEMENT_VALUE)),
        },
    }
}

/// The outcome of checking the set members `members` of `root`, in order:
/// each has to be a structure that is a statement.
pub open spec fn members_spec(root: Structure, members: Seq<Object>) -> Result<(), ValidationError>
    decreases members.len(),
{
    if members.len() == 0 {
        Ok(())
    } else {
        match members[0] {
            Object::Structure(s) => match statement_spec(s) {
                Err(e) => Err(e),
                Ok(()) => members_spec(root, members.drop_first()),
            },
            other => Err(ValidationError::FoundPropertyOn {
                subject: Object::Structure(root),
                property: Property { tag: abs(CONTAINS), value: other },
            }),
        }
    }
}

/// The outcome of checking that every member of `root` is a statement.
pub open spec fn knowledge_spec(root: Structure) -> Result<(), ValidationError> {
    members_spec(root, root.values_spec(abs(CONTAINS)))
}

/// Checks that `target` has exactly one value on `tag`.
pub fn cardinality_of_1(target: &Structure, tag: &Object) -> (r: Result<(), ValidationError>)
    ensures
        r == cardinality_of_1_spec(*target, *tag),
{
    let mut values = target.values(tag);
    if values.len() == 0 {
        return Err(ValidationError::MissingPropertyOn {
            subject: Object::Structure(target.duplicate()),
            form: PropertyForm::SomeValueAndExactTag(Object::Abstract(Abstract(STATEMENT_SUBJECT))),
        });
    }
    if values.len() >= 2 {
        let value = values.remove(1);
        return Err(ValidationError::FoundPropertyOn {
            subject: Object::Structure(target.duplicate()),
            property: Property { tag: tag.duplicate(), value },
        });
    }
    Ok(())
}

/// Checks that `structure` has exactly one subject, tag and value.
pub fn statement(structure: &Structure) -> (r: Result<(), ValidationError>)
    ensures
        r == statement_spec(*structure),
{
    cardinality_of_1(structure, &Object::Abstract(Abstract(STATEMENT_SUBJECT)))?;
    cardinality_of_1(structure, &Object::Abstract(Abstract(STATEMENT_TAG)))?;
    cardinality_of_1(structure, &Object::Abstract(Abstract(STATEMENT_VALUE)))
}

/// Checks that every object that `root` contains is a statement.
pub fn knowledge(root: &Structure) -> (r: Result<(), ValidationError>)
    ensures
        r == knowledge_spec(*root),
{
    let members = root.values(&Object::Abstract(Abstract(CONTAINS)));
    let ghost all = members@;
    let mut i: usize = 0;
    assert(all.skip(0) =~= all);
    while i < members.len()
        invariant
            i <= members.len(),
            members@ == all,
            knowledge_spec(*root) == members_spec(*root, all.skip(i as int)),
        decreases members.len() - i,
    {
        assert(all.skip(i as int)[0] == all[i as int]);
        assert(all.skip(i as int).drop_first() =~= all.skip(i as int + 1));
        match &members[i] {
            Object::Structure(s) => {
                statement(s)?;
            },
            other => {
                return Err(ValidationError::FoundPropertyOn {
                    subject: Object::Structure(root.duplicate()),
                    property: Property { tag: Object::Abstract(Abstract(CONTAINS)), value: other.duplicate() },
                });
            },
        }
        i = i + 1;
    }
    assert(all.skip(i as int) =~= Seq::<Object>::empty());
    Ok(())
}

/// Checks whether `object` is a tag of `root`; every object is accepted.
pub fn is_tag(root: &Structure, object: &Object) -> (r: Result<(), ValidationError>)
    ensures
        r == Ok::<(), ValidationError>(()),
{
    Ok(())
}

/// A root whose members are all statements passes the knowledge check, and
/// a structure that is a statement passes the statement check.
pub proof fn law_statements_validate(s: Structure)
    ensures
        statement_spec(s) == Ok::<(), ValidationError>(()) <==> crate::objects::is_statement_spec(s),
{
}

} // verus!
