//! The terms of the logic: constants, leaves, applications, goals and
//! clauses.
//!
//! Terms are trees. A term owns its sub-terms and is not changed once it is
//! built. Each kind of term has a view, a value of the same shape in which
//! sequences stand for vectors; contracts speak of terms by their views.

use lalrpop_intern::InternedString;
use vstd::prelude::*;

verus! {

/// The universe that a skolemized constant was introduced in.
#[derive(Clone, Copy, Debug, PartialEq, Eq, Hash, Structural)]
pub struct UniverseIndex {
    pub counter: usize,
}

/// The head symbol of an application.
#[derive(Clone, Copy, Debug, Eq, Hash)]
pub enum Constant {
    /// A constant that the program names.
    Program(InternedString),
    /// A constant that stands for an unknown of its universe. Within one
    /// session there is one such constant per counter.
    Skolemized(UniverseIndex),
}

/// A reference to a binder: `depth` counts the binders between the
/// reference and the one it means, from the innermost outwards.
#[derive(Clone, Copy, Debug, PartialEq, Eq, Hash, Structural)]
pub struct BoundVariable {
    pub depth: usize,
}

/// A term.
#[derive(Debug)]
pub enum Leaf {
    /// A variable to be solved for, by its identifier.
    InferenceVariable(usize),
    /// A variable bound by an enclosing quantification.
    BoundVariable(BoundVariable),
    Application(Application),
}

/// A constant applied to arguments. Nothing here fixes how many arguments a
/// constant takes.
#[derive(Debug)]
pub struct Application {
    pub constant: Constant,
    pub args: Vec<Leaf>,
}

/// `inner` under `binders` binders.
#[derive(Debug)]
pub struct Quantification<T> {
    pub binders: usize,
    pub inner: T,
}

/// A formula to be proved.
#[derive(Debug)]
pub enum Goal {
    True,
    And(Box<Goal>, Box<Goal>),
    Or(Box<Goal>, Box<Goal>),
    /// The goal on the right, to be proved with the clauses on the left
    /// assumed.
    Implication(Vec<Clause>, Box<Goal>),
    ForAll(Box<Quantification<Goal>>),
    Exists(Box<Quantification<Goal>>),
    /// The goal that the application holds.
    Leaf(Application),
}

/// `consequence` holds if `condition` does; without a condition it holds
/// outright.
#[derive(Debug)]
pub struct ClauseImplication {
    pub condition: Option<Goal>,
    pub consequence: Application,
}

/// A fact or rule of the program.
pub type Clause = Quantification<ClauseImplication>;

/// The view of a `Leaf`.
pub enum LeafView {
    InferenceVariable(usize),
    BoundVariable(usize),
    Application(ApplicationView),
}

/// The view of an `Application`.
pub struct ApplicationView {
    pub constant: Constant,
    pub args: Seq<LeafView>,
}

/// The view of a `Quantification`, over the view of what it binds.
pub struct QuantificationView<T> {
    pub binders: usize,
    pub inner: T,
}

/// The view of a `Goal`.
pub enum GoalView {
    True,
    And(Box<GoalView>, Box<GoalView>),
    Or(Box<GoalView>, Box<GoalView>),
    Implication(Seq<ClauseView>, Box<GoalView>),
    ForAll(Box<QuantificationView<GoalView>>),
    Exists(Box<QuantificationView<GoalView>>),
    Leaf(ApplicationView),
}

/// The view of a `ClauseImplication`.
pub struct ClauseImplicationView {
    pub condition: Option<GoalView>,
    pub consequence: ApplicationView,
}

/// The view of a `Clause`.
pub type ClauseView = QuantificationView<ClauseImplicationView>;

/// The view of a leaf.
pub open spec fn leaf_view(l: Leaf) -> LeafView
    decreases l,
{
    match l {
        Leaf::InferenceVariable(n) => LeafView::InferenceVariable(n),
        Leaf::BoundVariable(b) => LeafView::BoundVariable(b.depth),
        Leaf::Application(a) => LeafView::Application(application_view(a)),
    }
}

/// The views of the leaves of `s`, in order.
pub open spec fn leaves_view(s: Seq<Leaf>) -> Seq<LeafView>
    decreases s,
{
    Seq::new(s.len(), |i: int| if 0 <= i < s.len() { leaf_view(s[i]) } else { arbitrary() })
}

/// The view of an application.
pub open spec fn application_view(a: Application) -> ApplicationView
    decreases a,
{
    ApplicationView { constant: a.constant, args: leaves_view(a.args@) }
}

/// The view of a goal.
pub open spec fn goal_view(g: Goal) -> GoalView
    decreases g,
{
    match g {
        Goal::True => GoalView::True,
        Goal::And(a, b) => GoalView::And(Box::new(goal_view(*a)), Box::new(goal_view(*b))),
        Goal::Or(a, b) => GoalView::Or(Box::new(goal_view(*a)), Box::new(goal_view(*b))),
        Goal::Implication(clauses, consequence) => GoalView::Implication(
            clauses_view(clauses@),
            Box::new(goal_view(*consequence)),
        ),
        Goal::ForAll(q) => GoalView::ForAll(
            Box::new(QuantificationView { binders: q.binders, inner: goal_view(q.inner) }),
        ),
        Goal::Exists(q) => GoalView::Exists(
            Box::new(QuantificationView { binders: q.binders, inner: goal_view(q.inner) }),
        ),
        Goal::Leaf(a) => GoalView::Leaf(application_view(a)),
    }
}

/// The view of a clause without its binders.
pub open spec fn implication_view(c: ClauseImplication) -> ClauseImplicationView
    decreases c,
{
    ClauseImplicationView {
        condition: match c.condition {
            Some(g) => Some(goal_view(g)),
            None => None,
        },
        consequence: application_view(c.consequence),
    }
}

/// The view of a clause.
pub open spec fn clause_view(c: Clause) -> ClauseView
    decreases c,
{
    QuantificationView { binders: c.binders, inner: implication_view(c.inner) }
}

/// The views of the clauses of `s`, in order.
pub open spec fn clauses_view(s: Seq<Clause>) -> Seq<ClauseView>
    decreases s,
{
    Seq::new(s.len(), |i: int| if 0 <= i < s.len() { clause_view(s[i]) } else { arbitrary() })
}

impl View for Leaf {
    type V = LeafView;

    open spec fn view(&self) -> LeafView {
        leaf_view(*self)
    }
}

impl View for Application {
    type V = ApplicationView;

    open spec fn view(&self) -> ApplicationView {
        application_view(*self)
    }
}

impl View for Goal {
    type V = GoalView;

    open spec fn view(&self) -> GoalView {
        goal_view(*self)
    }
}

impl View for ClauseImplication {
    type V = ClauseImplicationView;

    open spec fn view(&self) -> ClauseImplicationView {
        implication_view(*self)
    }
}

impl<T: View> View for Quantification<T> {
    type V = QuantificationView<T::V>;

    open spec fn view(&self) -> QuantificationView<T::V> {
        QuantificationView { binders: self.binders, inner: self.inner@ }
    }
}

impl Clone for Leaf {
    fn clone(&self) -> (copy: Leaf)
        ensures
            copy@ == self@,
        decreases self,
    {
        match self {
            Leaf::InferenceVariable(n) => Leaf::InferenceVariable(*n),
            Leaf::BoundVariable(b) => Leaf::BoundVariable(*b),
            Leaf::Application(a) => Leaf::Application(a.clone()),
        }
    }
}

/// Copies of the leaves of `leaves`, in order.
pub fn copy_leaves(leaves: &Vec<Leaf>) -> (copies: Vec<Leaf>)
    ensures
        leaves_view(copies@) == leaves_view(leaves@),
    decreases leaves,
{
    let mut copies: Vec<Leaf> = Vec::new();
    let mut i: usize = 0;
    while i < leaves.len()
        invariant
            i <= leaves.len(),
            copies@.len() == i,
            forall|j: int| 0 <= j < i ==> copies@[j]@ == leaves@[j]@,
        decreases leaves.len() - i,
    {
        copies.push(leaves[i].clone());
        i += 1;
    }
    assert(leaves_view(copies@) =~= leaves_view(leaves@));
    copies
}

impl Clone for Application {
    fn clone(&self) -> (copy: Application)
        ensures
            copy@ == self@,
        decreases self,
    {
        Application { constant: self.constant, args: copy_leaves(&self.args) }
    }
}

impl Clone for Goal {
    fn clone(&self) -> (copy: Goal)
        ensures
            copy@ == self@,
        decreases self,
    {
        match self {
            Goal::True => Goal::True,
            Goal::And(a, b) => Goal::And(Box::new((**a).clone()), Box::new((**b).clone())),
            Goal::Or(a, b) => Goal::Or(Box::new((**a).clone()), Box::new((**b).clone())),
            Goal::Implication(clauses, consequence) => Goal::Implication(
                copy_clauses(clauses),
                Box::new((**consequence).clone()),
            ),
            Goal::ForAll(q) => Goal::ForAll(
                Box::new(Quantification { binders: q.binders, inner: q.inner.clone() }),
            ),
            Goal::Exists(q) => Goal::Exists(
                Box::new(Quantification { binders: q.binders, inner: q.inner.clone() }),
            ),
            Goal::Leaf(a) => Goal::Leaf(a.clone()),
        }
    }
}

impl Clone for ClauseImplication {
    fn clone(&self) -> (copy: ClauseImplication)
        ensures
            copy@ == self@,
        decreases self,
    {
        let condition = match &self.condition {
            Some(g) => Some(g.clone()),
            None => None,
        };
        ClauseImplication { condition, consequence: self.consequence.clone() }
    }
}

/// Copies of the clauses of `clauses`, in order.
pub fn copy_clauses(clauses: &Vec<Clause>) -> (copies: Vec<Clause>)
    ensures
        clauses_view(copies@) == clauses_view(clauses@),
    decreases clauses,
{
    let mut copies: Vec<Clause> = Vec::new();
    let mut i: usize = 0;
    while i < clauses.len()
        invariant
            i <= clauses.len(),
            copies@.len() == i,
            forall|j: int| 0 <= j < i ==> copies@[j]@ == clauses@[j]@,
        decreases clauses.len() - i,
    {
        let clause = &clauses[i];
        copies.push(Quantification { binders: clause.binders, inner: clause.inner.clone() });
        i += 1;
    }
    assert(clauses_view(copies@) =~= clauses_view(clauses@));
    copies
}

impl<T: Clone> Clone for Quantification<T> {
    fn clone(&self) -> (copy: Quantification<T>)
        ensures
            copy.binders == self.binders,
            cloned::<T>(self.inner, copy.inner),
    {
        Quantification { binders: self.binders, inner: self.inner.clone() }
    }
}

} // verus!
