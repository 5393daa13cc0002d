//! Knowledge: a store of statements that includes the base statements and
//! whose every statement satisfies the axiomatic constraint of its tag.

use vstd::prelude::*;

use crate::abstracts::{AXIOMATIC, FUNCTION};
use crate::base::{base, base_spec};
use crate::eval::{
    EvaluationContext, KnowledgeError, ObjectForm, ObjectOrSetValues, StatementForm, Val, call_fuel, eval_fuel,
    truthy_val, valid_fuel, vals,
};
use crate::object::{Abstract, Object, abs};
use crate::parse::fuel_limit;
use crate::statements::{
    SimpleStatement, Statements, new_statement, query_subjects_and_tags_spec, query_subjects_and_values_spec,
    query_subjects_spec, query_tags_and_values_spec, query_tags_spec, query_values_spec, statement_object,
};

verus! {

/// Whether every base statement is stored in `st`.
pub open spec fn includes_base(st: Seq<SimpleStatement>) -> bool {
    forall|i: int| 0 <= i < base_spec().len() ==> st.contains(#[trigger] base_spec()[i])
}

/// Checks the statements `ss` of `st` in order: the tag of each needs an
/// `AXIOMATIC` constraint and must not be a function, and the constraint,
/// called with the subject and the value, has to be truthy.
pub open spec fn statements_checked(st: Seq<SimpleStatement>, ss: Seq<SimpleStatement>) -> Option<Result<(), KnowledgeError>>
    decreases ss.len(),
{
    if ss.len() == 0 {
        Some(Ok(()))
    } else {
        let s = ss[0];
        let constraints = query_values_spec(st, s.tag, abs(AXIOMATIC));
        if constraints.len() == 0 {
            Some(Err(KnowledgeError::NeedsToBeTrueButIsFalse(StatementForm {
                subject: ObjectForm::Specific(s.tag),
                tag: ObjectForm::Specific(abs(AXIOMATIC)),
                value: ObjectForm::Any,
            })))
        } else if query_values_spec(st, s.tag, abs(FUNCTION)).len() > 0 {
            Some(Err(KnowledgeError::NeedsToBeFalseButIsTrue(StatementForm {
                subject: ObjectForm::Specific(s.tag),
                tag: ObjectForm::Specific(abs(FUNCTION)),
                value: ObjectForm::Any,
            })))
        } else {
            match call_fuel(fuel_limit(), constraints[0], st, seq![Val::Obj(s.subject), Val::Obj(s.value)], Seq::empty()) {
                Some((r, _)) => if truthy_val(r, st) {
                    statements_checked(st, ss.drop_first())
                } else {
                    Some(Err(KnowledgeError::ValueOnSubjectDoesNotMatchTagsConstraint {
                        subject: s.subject,
                        tag: s.tag,
                        value: s.value,
                    }))
                },
                None => None,
            }
        }
    }
}

/// Checks the statements `ss`, each written as a structure, recursively
/// against the constraints of their tags.
pub open spec fn statement_objects_checked(st: Seq<SimpleStatement>, ss: Seq<SimpleStatement>) -> Option<Result<(), KnowledgeError>>
    decreases ss.len(),
{
    if ss.len() == 0 {
        Some(Ok(()))
    } else {
        match valid_fuel(fuel_limit(), statement_object(ss[0]), st, true) {
            Some(Ok(())) => statement_objects_checked(st, ss.drop_first()),
            other => other,
        }
    }
}

/// The outcome of checking that `st` is knowledge: it includes the base
/// statements, each statement satisfies the constraint of its tag, and
/// each statement, written as a structure, is valid recursively.
pub open spec fn knowledge_outcome(st: Seq<SimpleStatement>) -> Option<Result<(), KnowledgeError>> {
    if !includes_base(st) {
        Some(Err(KnowledgeError::IsNotSupersetOfBase))
    } else {
        match statements_checked(st, st) {
            Some(Ok(())) => statement_objects_checked(st, st),
            other => other,
        }
    }
}

impl Statements {
    /// Whether every base statement is stored.
    fn includes_base(&self) -> (r: bool)
        ensures
            r == includes_base(self@),
    {
        let b = base();
        let mut i: usize = 0;
        while i < b.len()
            invariant
                i <= b@.len(),
                b@ == base_spec(),
                forall|j: int| 0 <= j < i ==> self@.contains(#[trigger] base_spec()[j]),
            decreases b@.len() - i,
        {
            if !self.contains_statement(b.statement(i)) {
                return false;
            }
            i = i + 1;
        }
        true
    }

    /// Checks the stored statements from index `i` on.
    fn statements_checked_from(&self, i: usize) -> (r: Result<(), KnowledgeError>)
        requires
            i <= self@.len(),
            statements_checked(self@, self@.skip(i as int)) is Some,
        ensures
            statements_checked(self@, self@.skip(i as int)) == Some(r),
        decreases self@.len() - i,
    {
        if i == self.len() {
            assert(self@.skip(i as int) =~= Seq::<SimpleStatement>::empty());
            return Ok(());
        }
        assert(self@.skip(i as int)[0] == self@[i as int]);
        assert(self@.skip(i as int).drop_first() =~= self@.skip(i as int + 1));
        let s = self.statement(i);
        let constraints = self.query_values(&s.tag, &Object::Abstract(Abstract(AXIOMATIC)));
        if constraints.len() == 0 {
            return Err(KnowledgeError::NeedsToBeTrueButIsFalse(StatementForm {
                subject: ObjectForm::Specific(s.tag.duplicate()),
                tag: ObjectForm::Specific(Object::Abstract(Abstract(AXIOMATIC))),
                value: ObjectForm::Any,
            }));
        }
        if self.query_values(&s.tag, &Object::Abstract(Abstract(FUNCTION))).len() > 0 {
            return Err(KnowledgeError::NeedsToBeFalseButIsTrue(StatementForm {
                subject: ObjectForm::Specific(s.tag.duplicate()),
                tag: ObjectForm::Specific(Object::Abstract(Abstract(FUNCTION))),
                value: ObjectForm::Any,
            }));
        }
        let params = [
            ObjectOrSetValues::Object(s.subject.duplicate()),
            ObjectOrSetValues::Object(s.value.duplicate()),
        ];
        assert(vals(params@) =~= seq![Val::Obj(s.subject), Val::Obj(s.value)]);
        let mut ctx = EvaluationContext::new();
        let result = constraints[0].call(self, &params, &mut ctx);
        if !result.is_truthy(self) {
            return Err(KnowledgeError::ValueOnSubjectDoesNotMatchTagsConstraint {
                subject: s.subject.duplicate(),
                tag: s.tag.duplicate(),
                value: s.value.duplicate(),
            });
        }
        self.statements_checked_from(i + 1)
    }

    /// Checks the stored statements from index `i` on, each written as a
    /// structure, recursively.
    fn statement_objects_checked_from(&self, i: usize) -> (r: Result<(), KnowledgeError>)
        requires
            i <= self@.len(),
            statement_objects_checked(self@, self@.skip(i as int)) is Some,
        ensures
            statement_objects_checked(self@, self@.skip(i as int)) == Some(r),
        decreases self@.len() - i,
    {
        if i == self.len() {
            assert(self@.skip(i as int) =~= Seq::<SimpleStatement>::empty());
            return Ok(());
        }
        assert(self@.skip(i as int)[0] == self@[i as int]);
        assert(self@.skip(i as int).drop_first() =~= self@.skip(i as int + 1));
        let s = self.statement(i);
        let o = new_statement(s.subject.duplicate(), s.tag.duplicate(), s.value.duplicate());
        match o.is_valid(self, true) {
            Ok(()) => self.statement_objects_checked_from(i + 1),
            Err(e) => Err(e),
        }
    }

    /// Checks that the statements are knowledge: they include the base
    /// statements, each satisfies the axiomatic constraint of its tag, and
    /// each, written as a structure, is valid recursively.
    pub fn is_knowledge(&self) -> (r: Result<(), KnowledgeError>)
        requires
            knowledge_outcome(self@) is Some,
        ensures
            knowledge_outcome(self@) == Some(r),
    {
        if !self.includes_base() {
            return Err(KnowledgeError::IsNotSupersetOfBase);
        }
        assert(self@.skip(0) =~= self@);
        match self.statements_checked_from(0) {
            Ok(()) => self.statement_objects_checked_from(0),
            Err(e) => Err(e),
        }
    }
}


/// A store of statements that is knowledge.
pub struct Knowledge(Statements);

impl View for Knowledge {
    type V = Seq<SimpleStatement>;

    closed spec fn view(&self) -> Seq<SimpleStatement> {
        self.0@
    }
}

impl Knowledge {
    #[verifier::type_invariant]
    spec fn is_knowledge(self) -> bool {
        knowledge_outcome(self.0@) matches Some(Ok(_))
    }

    /// The knowledge of `statements`, or why they are not knowledge.
    pub fn new(statements: Statements) -> (r: Result<Knowledge, KnowledgeError>)
        requires
            knowledge_outcome(statements@) is Some,
        ensures
            match r {
                Ok(k) => knowledge_outcome(statements@) matches Some(Ok(_)) && k@ == statements@,
                Err(e) => knowledge_outcome(statements@) == Some(Err::<(), KnowledgeError>(e)),
            },
    {
        match statements.is_knowledge() {
            Ok(()) => Ok(Knowledge(statements)),
            Err(e) => Err(e),
        }
    }

    /// The underlying statements.
    pub fn composite(&self) -> (r: &Statements)
        ensures
            r@ == self@,
    {
        &self.0
    }

    /// The values of `subject` on `tag`.
    pub fn query_values(&self, subject: Object, tag: Object) -> (r: Vec<Object>)
        ensures
            r@ == query_values_spec(self@, subject, tag),
    {
        self.0.query_values(&subject, &tag)
    }

    /// The subjects of the statements `(_, tag, value)`.
    pub fn query_subjects(&self, tag: Object, value: Object) -> (r: Vec<Object>)
        ensures
            r@ == query_subjects_spec(self@, tag, value),
    {
        self.0.query_subjects(&tag, &value)
    }

    /// The subject and value pairs of the statements with tag `tag`.
    pub fn query_subjects_and_values(&self, tag: Object) -> (r: Vec<Object>)
        ensures
            r@ == query_subjects_and_values_spec(self@, tag),
    {
        self.0.query_subjects_and_values(&tag)
    }

    /// The tags under which `subject` has `value`.
    pub fn query_tags(&self, subject: Object, value: Object) -> (r: Vec<Object>)
        ensures
            r@ == query_tags_spec(self@, subject, value),
    {
        self.0.query_tags(&subject, &value)
    }

    /// The tag and value pairs of `subject`.
    pub fn query_tags_and_values(&self, subject: Object) -> (r: Vec<Object>)
        ensures
            r@ == query_tags_and_values_spec(self@, subject),
    {
        self.0.query_tags_and_values(&subject)
    }

    /// The subject and tag pairs of the statements with value `value`.
    pub fn query_subjects_and_tags(&self, value: Object) -> (r: Vec<Object>)
        ensures
            r@ == query_subjects_and_tags_spec(self@, value),
    {
        self.0.query_subjects_and_tags(&value)
    }

    /// Whether `subject` has `value` on `tag`.
    pub fn query_exists(&self, subject: Object, tag: Object, value: Object) -> (r: bool)
        ensures
            r == query_values_spec(self@, subject, tag).contains(value),
    {
        self.0.statement_exists(&subject, &tag, &value)
    }

    /// Evaluates `node` under the knowledge, in an empty context.
    pub fn evaluate(&self, node: Object) -> (r: ObjectOrSetValues)
        requires
            eval_fuel(fuel_limit(), node, self@, Seq::empty()) is Some,
        ensures
            eval_fuel(fuel_limit(), node, self@, Seq::empty()).unwrap().0 == r@,
    {
        let mut ctx = EvaluationContext::new();
        node.evaluate(&self.0, &mut ctx)
    }

    /// Calls `callee` with the parameter `with` under the knowledge, in an
    /// empty context.
    pub fn call(&self, callee: Object, with: Object) -> (r: ObjectOrSetValues)
        requires
            call_fuel(fuel_limit(), callee, self@, seq![Val::Obj(with)], Seq::empty()) is Some,
        ensures
            call_fuel(fuel_limit(), callee, self@, seq![Val::Obj(with)], Seq::empty()).unwrap().0 == r@,
    {
        let mut ctx = EvaluationContext::new();
        let params = [ObjectOrSetValues::Object(with)];
        assert(vals(params@) =~= seq![Val::Obj(with)]);
        callee.call(&self.0, &params, &mut ctx)
    }
}


/// Knowledge includes the base statements, and each of its statements has
/// a tag with an `AXIOMATIC` constraint.
pub proof fn law_knowledge_includes_base(st: Seq<SimpleStatement>)
    requires
        knowledge_outcome(st) matches Some(Ok(_)),
    ensures
        includes_base(st),
        forall|i: int| 0 <= i < st.len() ==> #[trigger] query_values_spec(st, st[i].tag, abs(AXIOMATIC)).len() > 0,
{
    assert forall|i: int| 0 <= i < st.len() implies #[trigger] query_values_spec(st, st[i].tag, abs(AXIOMATIC)).len() > 0 by {
        lemma_checked_statements_constrained(st, st, i);
    }
}

/// A statement of a sequence that passes the statement check has a tag
/// with an `AXIOMATIC` constraint.
proof fn lemma_checked_statements_constrained(st: Seq<SimpleStatement>, ss: Seq<SimpleStatement>, i: int)
    requires
        statements_checked(st, ss) matches Some(Ok(_)),
        0 <= i < ss.len(),
    ensures
        query_values_spec(st, ss[i].tag, abs(AXIOMATIC)).len() > 0,
    decreases ss.len(),
{
    if i > 0 {
        assert(ss.drop_first()[i - 1] == ss[i]);
        lemma_checked_statements_constrained(st, ss.drop_first(), i - 1);
    }
}

/// Every statement of `ss` passes its tag's check when checking `ss` succeeds: the tag has an
/// `AXIOMATIC` constraint and no `FUNCTION` value, and calling the
/// constraint with the subject and the value gives a truthy result.
proof fn lemma_checked_all_pass(st: Seq<SimpleStatement>, ss: Seq<SimpleStatement>)
    requires
        statements_checked(st, ss) == Some(Ok::<(), KnowledgeError>(())),
    ensures
        forall|i: int| 0 <= i < ss.len() ==> {
            let s = #[trigger] ss[i];
            let constraints = query_values_spec(st, s.tag, abs(AXIOMATIC));
            &&& constraints.len() > 0
            &&& query_values_spec(st, s.tag, abs(FUNCTION)).len() == 0
            &&& call_fuel(fuel_limit(), constraints[0], st, seq![Val::Obj(s.subject), Val::Obj(s.value)], Seq::empty()) is Some
            &&& truthy_val(call_fuel(fuel_limit(), constraints[0], st, seq![Val::Obj(s.subject), Val::Obj(s.value)], Seq::empty()).unwrap().0, st)
        },
    decreases ss.len(),
{
    if ss.len() > 0 {
        lemma_checked_all_pass(st, ss.drop_first());
        assert forall|i: int| 0 < i < ss.len() implies #[trigger] ss[i] == ss.drop_first()[i - 1] by {}
    }
}

/// When every statement before `ss[i]` passes its tag's check, and the
/// constraint of `ss[i]`'s tag, called with its subject and value, is
/// falsy, checking `ss` fails on `ss[i]`.
proof fn lemma_checked_first_failure(st: Seq<SimpleStatement>, ss: Seq<SimpleStatement>, i: int)
    requires
        0 <= i < ss.len(),
        forall|j: int| 0 <= j <= i ==> {
            let s = #[trigger] ss[j];
            let constraints = query_values_spec(st, s.tag, abs(AXIOMATIC));
            &&& constraints.len() > 0
            &&& query_values_spec(st, s.tag, abs(FUNCTION)).len() == 0
            &&& call_fuel(fuel_limit(), constraints[0], st, seq![Val::Obj(s.subject), Val::Obj(s.value)], Seq::empty()) is Some
            &&& (j < i <==> truthy_val(call_fuel(fuel_limit(), constraints[0], st, seq![Val::Obj(s.subject), Val::Obj(s.value)], Seq::empty()).unwrap().0, st))
        },
    ensures
        statements_checked(st, ss) == Some(Err::<(), KnowledgeError>(KnowledgeError::ValueOnSubjectDoesNotMatchTagsConstraint {
            subject: ss[i].subject,
            tag: ss[i].tag,
            value: ss[i].value,
        })),
    decreases i,
{
    let s0 = ss[0];
    if i > 0 {
        let rest = ss.drop_first();
        assert forall|j: int| 0 <= j <= i - 1 implies #[trigger] rest[j] == ss[j + 1] by {}
        lemma_checked_first_failure(st, rest, i - 1);
    }
}

/// A store that is knowledge satisfies the constraint of every statement's
/// tag: the tag has an `AXIOMATIC` constraint and is no function, and the
/// constraint called with the statement's subject and value is truthy.
pub proof fn law_knowledge_satisfies_constraints(st: Seq<SimpleStatement>)
    requires
        knowledge_outcome(st) == Some(Ok::<(), KnowledgeError>(())),
    ensures
        forall|i: int| 0 <= i < st.len() ==> {
            let s = #[trigger] st[i];
            let constraints = query_values_spec(st, s.tag, abs(AXIOMATIC));
            &&& constraints.len() > 0
            &&& query_values_spec(st, s.tag, abs(FUNCTION)).len() == 0
            &&& call_fuel(fuel_limit(), constraints[0], st, seq![Val::Obj(s.subject), Val::Obj(s.value)], Seq::empty()) is Some
            &&& truthy_val(call_fuel(fuel_limit(), constraints[0], st, seq![Val::Obj(s.subject), Val::Obj(s.value)], Seq::empty()).unwrap().0, st)
        },
{
    match statements_checked(st, st) {
        Some(Ok(u)) => {
            assert(u == ());
        },
        _ => {},
    }
    lemma_checked_all_pass(st, st);
}

/// A store that includes the base, in which every statement before `st[i]`
/// satisfies its tag's constraint but `st[i]` does not, is rejected for
/// `st[i]`: its subject, tag and value do not match the tag's constraint.
pub proof fn law_knowledge_rejects_first_violation(st: Seq<SimpleStatement>, i: int)
    requires
        includes_base(st),
        0 <= i < st.len(),
        forall|j: int| 0 <= j <= i ==> {
            let s = #[trigger] st[j];
            let constraints = query_values_spec(st, s.tag, abs(AXIOMATIC));
            &&& constraints.len() > 0
            &&& query_values_spec(st, s.tag, abs(FUNCTION)).len() == 0
            &&& call_fuel(fuel_limit(), constraints[0], st, seq![Val::Obj(s.subject), Val::Obj(s.value)], Seq::empty()) is Some
            &&& (j < i <==> truthy_val(call_fuel(fuel_limit(), constraints[0], st, seq![Val::Obj(s.subject), Val::Obj(s.value)], Seq::empty()).unwrap().0, st))
        },
    ensures
        knowledge_outcome(st) == Some(Err::<(), KnowledgeError>(KnowledgeError::ValueOnSubjectDoesNotMatchTagsConstraint {
            subject: st[i].subject,
            tag: st[i].tag,
            value: st[i].value,
        })),
{
    lemma_checked_first_failure(st, st, i);
}

} // verus!
