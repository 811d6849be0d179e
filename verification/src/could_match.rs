//! A quick test of whether two terms could ever be made equal.
//!
//! The test looks only at the shape of the terms: it never binds a variable.
//! It may answer `true` for terms that do not unify, and never answers
//! `false` for terms that do.

use vstd::prelude::*;
use crate::term::{
    Application, ApplicationView, Clause, ClauseView, Leaf, LeafView, QuantificationView,
};

verus! {

/// Two terms could match unless both are applications and either their
/// constants differ or two arguments in the same position could not match.
/// Arguments are paired from the left; where one application has more
/// arguments than the other, the surplus is not looked at.
pub open spec fn leaves_could_match(a: LeafView, b: LeafView) -> bool
    decreases a,
{
    match (a, b) {
        (LeafView::Application(x), LeafView::Application(y)) => {
            &&& x.constant == y.constant
            &&& forall|i: int|
                0 <= i < x.args.len() && i < y.args.len() ==> leaves_could_match(
                    x.args[i],
                    #[trigger] y.args[i],
                )
        },
        _ => true,
    }
}

/// Two applications at the head of a goal or a clause could match when they
/// have the same constant, the same number of arguments, and arguments that
/// could match position by position.
pub open spec fn applications_could_match(a: ApplicationView, b: ApplicationView) -> bool {
    &&& a.constant == b.constant
    &&& a.args.len() == b.args.len()
    &&& forall|i: int|
        0 <= i < a.args.len() ==> leaves_could_match(a.args[i], #[trigger] b.args[i])
}

/// A clause could match a goal when its consequence could. Neither its
/// binders nor its condition take part.
pub open spec fn clause_could_match(clause: ClauseView, goal: ApplicationView) -> bool {
    applications_could_match(clause.inner.consequence, goal)
}

impl Leaf {
    /// Whether `self` and `other` could match.
    pub fn could_match(&self, other: &Leaf) -> (could: bool)
        ensures
            could == leaves_could_match(self@, other@),
        decreases self,
    {
        match (self, other) {
            (Leaf::Application(x), Leaf::Application(y)) => {
                if x.constant != y.constant {
                    return false;
                }
                let mut i: usize = 0;
                while i < x.args.len() && i < y.args.len()
                    invariant
                        *self matches Leaf::Application(head) && head == *x,
                        *other matches Leaf::Application(head) && head == *y,
                        i <= x.args.len(),
                        i <= y.args.len(),
                        forall|j: int|
                            0 <= j < i ==> leaves_could_match(x@.args[j], #[trigger] y@.args[j]),
                    decreases x.args.len() - i,
                {
                    if !x.args[i].could_match(&y.args[i]) {
                        assert(!leaves_could_match(x@.args[i as int], y@.args[i as int]));
                        return false;
                    }
                    i += 1;
                }
                true
            },
            _ => true,
        }
    }
}

impl Application {
    /// Whether `self` and `other`, as heads, could match.
    pub fn could_match(&self, other: &Application) -> (could: bool)
        ensures
            could == applications_could_match(self@, other@),
    {
        if self.constant != other.constant || self.args.len() != other.args.len() {
            return false;
        }
        let mut i: usize = 0;
        while i < self.args.len()
            invariant
                self.args.len() == other.args.len(),
                i <= self.args.len(),
                forall|j: int|
                    0 <= j < i ==> leaves_could_match(self@.args[j], #[trigger] other@.args[j]),
            decreases self.args.len() - i,
        {
            if !self.args[i].could_match(&other.args[i]) {
                assert(!leaves_could_match(self@.args[i as int], other@.args[i as int]));
                return false;
            }
            i += 1;
        }
        true
    }
}

impl Clause {
    /// Whether the consequence of this clause could match `goal`.
    pub fn could_match(&self, goal: &Application) -> (could: bool)
        ensures
            could == clause_could_match(self@, goal@),
    {
        self.inner.consequence.could_match(goal)
    }
}

/// `term` with every variable in it, free or bound, replaced by what
/// `replacement` gives for it.
pub open spec fn instantiate(replacement: spec_fn(LeafView) -> LeafView, term: LeafView) -> LeafView
    decreases term,
{
    match term {
        LeafView::Application(a) => LeafView::Application(
            instantiate_application(replacement, a),
        ),
        _ => replacement(term),
    }
}

/// `application` with every variable in its arguments replaced.
pub open spec fn instantiate_application(
    replacement: spec_fn(LeafView) -> LeafView,
    application: ApplicationView,
) -> ApplicationView
    decreases application,
{
    ApplicationView {
        constant: application.constant,
        args: Seq::new(
            application.args.len(),
            |i: int|
                if 0 <= i < application.args.len() {
                    instantiate(replacement, application.args[i])
                } else {
                    arbitrary()
                },
        ),
    }
}

/// The test is sound for terms: two terms that have a common instance,
/// each under a replacement of its own, could match.
pub proof fn lemma_unifiable_leaves_could_match(
    left: spec_fn(LeafView) -> LeafView,
    right: spec_fn(LeafView) -> LeafView,
    a: LeafView,
    b: LeafView,
)
    requires
        instantiate(left, a) == instantiate(right, b),
    ensures
        leaves_could_match(a, b),
    decreases a,
{
    match (a, b) {
        (LeafView::Application(x), LeafView::Application(y)) => {
            let xi = instantiate_application(left, x);
            let yi = instantiate_application(right, y);
            assert(xi == yi);
            assert forall|i: int| 0 <= i < x.args.len() && i < y.args.len() implies leaves_could_match(
                x.args[i],
                #[trigger] y.args[i],
            ) by {
                assert(xi.args[i] == yi.args[i]);
                lemma_unifiable_leaves_could_match(left, right, x.args[i], y.args[i]);
            }
        },
        _ => {},
    }
}

/// The test is sound for heads: two applications that have a common
/// instance could match.
pub proof fn lemma_unifiable_applications_could_match(
    left: spec_fn(LeafView) -> LeafView,
    right: spec_fn(LeafView) -> LeafView,
    a: ApplicationView,
    b: ApplicationView,
)
    requires
        instantiate_application(left, a) == instantiate_application(right, b),
    ensures
        applications_could_match(a, b),
{
    let ai = instantiate_application(left, a);
    let bi = instantiate_application(right, b);
    assert(ai == bi);
    assert(ai.args.len() == a.args.len());
    assert(bi.args.len() == b.args.len());
    assert forall|i: int| 0 <= i < a.args.len() implies leaves_could_match(
        a.args[i],
        #[trigger] b.args[i],
    ) by {
        assert(ai.args[i] == instantiate(left, a.args[i]));
        assert(bi.args[i] == instantiate(right, b.args[i]));
        lemma_unifiable_leaves_could_match(left, right, a.args[i], b.args[i]);
    }
}

/// A clause that the test rejects has a consequence with another constant
/// or another number of arguments than the goal, or an argument that could
/// not match the goal's; a clause that it accepts agrees with the goal in
/// constant and in number of arguments.
pub proof fn lemma_match_agrees_on_head(clause: ClauseView, goal: ApplicationView)
    requires
        clause_could_match(clause, goal),
    ensures
        clause.inner.consequence.constant == goal.constant,
        clause.inner.consequence.args.len() == goal.args.len(),
{
}

/// The number of binders around a clause has no part in the test: a clause
/// without binders could match exactly when the same clause under any
/// number of binders could.
pub proof fn lemma_binders_do_not_matter(clause: ClauseView, binders: usize, goal: ApplicationView)
    ensures
        clause_could_match(clause, goal) == clause_could_match(
            QuantificationView { binders, inner: clause.inner },
            goal,
        ),
{
}

} // verus!
