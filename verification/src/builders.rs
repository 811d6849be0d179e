//! Construction of terms, one operation per term shape.
//!
//! Every builder returns a new owned term. Sub-terms are taken by reference
//! and copied, so a term that was built once can be placed under several
//! parents. Builders never renumber: binder counts, depths and identifiers
//! go into the result exactly as given.

use lalrpop_intern::InternedString;
use vstd::prelude::*;
use crate::name::intern;
use crate::term::{
    Application, ApplicationView, BoundVariable, Clause, ClauseImplication,
    ClauseImplicationView, Constant, Goal, GoalView, Leaf, LeafView, Quantification,
    QuantificationView, UniverseIndex, clauses_view, copy_clauses, copy_leaves, leaves_view,
};

verus! {

impl Constant {
    /// The program constant with the given interned name.
    pub fn program(name: InternedString) -> (constant: Constant)
        ensures
            constant == Constant::Program(name),
    {
        Constant::Program(name)
    }

    /// The program constant called `name`, which is interned on the calling
    /// thread first.
    pub fn named(name: &str) -> (constant: Constant)
        ensures
            constant is Program,
    {
        Constant::program(intern(name))
    }

    /// The skolemized constant of the universe with the given counter.
    pub fn skolem(counter: usize) -> (constant: Constant)
        ensures
            constant == Constant::Skolemized(UniverseIndex { counter }),
    {
        Constant::Skolemized(UniverseIndex { counter })
    }
}

impl Application {
    /// `constant` applied to copies of `args`, in order.
    pub fn new(constant: Constant, args: &Vec<Leaf>) -> (application: Application)
        ensures
            application@ == (ApplicationView { constant, args: leaves_view(args@) }),
    {
        Application { constant, args: copy_leaves(args) }
    }
}

impl Leaf {
    /// The inference variable with identifier `id`.
    pub fn var(id: usize) -> (leaf: Leaf)
        ensures
            leaf@ == LeafView::InferenceVariable(id),
    {
        Leaf::InferenceVariable(id)
    }

    /// The variable bound `depth` binders up.
    pub fn bound(depth: usize) -> (leaf: Leaf)
        ensures
            leaf@ == LeafView::BoundVariable(depth),
    {
        Leaf::BoundVariable(BoundVariable { depth })
    }

    /// A copy of `application` as a term.
    pub fn apply(application: &Application) -> (leaf: Leaf)
        ensures
            leaf@ == LeafView::Application(application@),
    {
        Leaf::Application(application.clone())
    }
}

impl<T> Quantification<T> {
    /// `inner` under `binders` binders.
    pub fn new(binders: usize, inner: T) -> (quantified: Quantification<T>)
        ensures
            quantified == (Quantification { binders, inner }),
    {
        Quantification { binders, inner }
    }
}

impl Goal {
    /// The goal that always holds.
    pub fn truth() -> (goal: Goal)
        ensures
            goal@ == GoalView::True,
    {
        Goal::True
    }

    /// The conjunction of copies of `left` and `right`.
    pub fn and(left: &Goal, right: &Goal) -> (goal: Goal)
        ensures
            goal@ == GoalView::And(Box::new(left@), Box::new(right@)),
    {
        Goal::And(Box::new(left.clone()), Box::new(right.clone()))
    }

    /// The disjunction of copies of `left` and `right`.
    pub fn or(left: &Goal, right: &Goal) -> (goal: Goal)
        ensures
            goal@ == GoalView::Or(Box::new(left@), Box::new(right@)),
    {
        Goal::Or(Box::new(left.clone()), Box::new(right.clone()))
    }

    /// `consequence` under the assumption of every clause of `guard`.
    pub fn implies(guard: &Vec<Clause>, consequence: &Goal) -> (goal: Goal)
        ensures
            goal@ == GoalView::Implication(clauses_view(guard@), Box::new(consequence@)),
    {
        Goal::Implication(copy_clauses(guard), Box::new(consequence.clone()))
    }

    /// A copy of `inner` under `binders` universal binders.
    pub fn for_all(binders: usize, inner: &Goal) -> (goal: Goal)
        ensures
            goal@ == GoalView::ForAll(Box::new(QuantificationView { binders, inner: inner@ })),
    {
        Goal::ForAll(Box::new(Quantification::new(binders, inner.clone())))
    }

    /// A copy of `inner` under `binders` existential binders.
    pub fn there_exists(binders: usize, inner: &Goal) -> (goal: Goal)
        ensures
            goal@ == GoalView::Exists(Box::new(QuantificationView { binders, inner: inner@ })),
    {
        Goal::Exists(Box::new(Quantification::new(binders, inner.clone())))
    }

    /// The goal that a copy of `application` holds.
    pub fn leaf(application: &Application) -> (goal: Goal)
        ensures
            goal@ == GoalView::Leaf(application@),
    {
        Goal::Leaf(application.clone())
    }
}

impl ClauseImplication {
    /// The unconditional fact that a copy of `consequence` holds.
    pub fn fact(consequence: &Application) -> (implication: ClauseImplication)
        ensures
            implication@ == (ClauseImplicationView {
                condition: None,
                consequence: consequence@,
            }),
    {
        ClauseImplication { condition: None, consequence: consequence.clone() }
    }

    /// The rule that a copy of `consequence` holds whenever a copy of
    /// `condition` does.
    pub fn implies(condition: &Goal, consequence: &Application) -> (implication:
        ClauseImplication)
        ensures
            implication@ == (ClauseImplicationView {
                condition: Some(condition@),
                consequence: consequence@,
            }),
    {
        ClauseImplication { condition: Some(condition.clone()), consequence: consequence.clone() }
    }
}

impl Quantification<ClauseImplication> {
    /// Closes a copy of `consequence` into a clause without binders and
    /// without a guard.
    pub fn fact(consequence: &Application) -> (clause: Clause)
        ensures
            clause@ == (QuantificationView {
                binders: 0usize,
                inner: ClauseImplicationView { condition: None, consequence: consequence@ },
            }),
    {
        Quantification::new(0, ClauseImplication::fact(consequence))
    }
}

} // verus!
