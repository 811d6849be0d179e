//! `==` on terms.
//!
//! Two terms are equal when they are the same term as values: the same
//! shape, the same constants, identifiers, depths and binder counts.

use vstd::prelude::*;
use vstd::std_specs::cmp::PartialEqSpec;
use vstd::std_specs::cmp::PartialEqSpecImpl;
use crate::name::same_name;
use crate::term::{
    Application, ClauseImplication, Constant, Goal, Leaf, Quantification, clauses_view,
    leaves_view,
};

verus! {

impl PartialEq for Constant {
    fn eq(&self, other: &Constant) -> (equal: bool) {
        match (self, other) {
            (Constant::Program(a), Constant::Program(b)) => same_name(a, b),
            (Constant::Skolemized(a), Constant::Skolemized(b)) => a.counter == b.counter,
            _ => false,
        }
    }
}

impl PartialEqSpecImpl for Constant {
    open spec fn obeys_eq_spec() -> bool {
        true
    }

    open spec fn eq_spec(&self, other: &Constant) -> bool {
        *self == *other
    }
}

fn same_leaf(a: &Leaf, b: &Leaf) -> (same: bool)
    ensures
        same == (a@ == b@),
    decreases a,
{
    match (a, b) {
        (Leaf::InferenceVariable(x), Leaf::InferenceVariable(y)) => *x == *y,
        (Leaf::BoundVariable(x), Leaf::BoundVariable(y)) => x.depth == y.depth,
        (Leaf::Application(x), Leaf::Application(y)) => same_application(x, y),
        _ => false,
    }
}

fn same_application(a: &Application, b: &Application) -> (same: bool)
    ensures
        same == (a@ == b@),
    decreases a,
{
    if a.constant != b.constant {
        return false;
    }
    if a.args.len() != b.args.len() {
        assert(a@.args.len() != b@.args.len());
        return false;
    }
    let mut i: usize = 0;
    while i < a.args.len()
        invariant
            a.constant == b.constant,
            a.args.len() == b.args.len(),
            i <= a.args.len(),
            forall|j: int| 0 <= j < i ==> a.args@[j]@ == b.args@[j]@,
        decreases a.args.len() - i,
    {
        if !same_leaf(&a.args[i], &b.args[i]) {
            assert(a@.args[i as int] != b@.args[i as int]);
            return false;
        }
        i += 1;
    }
    assert(leaves_view(a.args@) =~= leaves_view(b.args@));
    true
}

fn same_goal(a: &Goal, b: &Goal) -> (same: bool)
    ensures
        same == (a@ == b@),
    decreases a,
{
    match (a, b) {
        (Goal::True, Goal::True) => true,
        (Goal::And(a1, a2), Goal::And(b1, b2)) => same_goal(a1, b1) && same_goal(a2, b2),
        (Goal::Or(a1, a2), Goal::Or(b1, b2)) => same_goal(a1, b1) && same_goal(a2, b2),
        (Goal::Implication(guard_a, then_a), Goal::Implication(guard_b, then_b)) => {
            if guard_a.len() != guard_b.len() {
                assert(clauses_view(guard_a@).len() != clauses_view(guard_b@).len());
                return false;
            }
            let mut i: usize = 0;
            while i < guard_a.len()
                invariant
                    *a matches Goal::Implication(guard, _) && guard == *guard_a,
                    *b matches Goal::Implication(guard, _) && guard == *guard_b,
                    guard_a.len() == guard_b.len(),
                    i <= guard_a.len(),
                    forall|j: int| 0 <= j < i ==> guard_a@[j]@ == guard_b@[j]@,
                decreases guard_a.len() - i,
            {
                let x = &guard_a[i];
                let y = &guard_b[i];
                if x.binders != y.binders || !same_implication(&x.inner, &y.inner) {
                    assert(clauses_view(guard_a@)[i as int] != clauses_view(guard_b@)[i as int]);
                    return false;
                }
                i += 1;
            }
            assert(clauses_view(guard_a@) =~= clauses_view(guard_b@));
            same_goal(then_a, then_b)
        },
        (Goal::ForAll(x), Goal::ForAll(y)) => x.binders == y.binders && same_goal(
            &x.inner,
            &y.inner,
        ),
        (Goal::Exists(x), Goal::Exists(y)) => x.binders == y.binders && same_goal(
            &x.inner,
            &y.inner,
        ),
        (Goal::Leaf(x), Goal::Leaf(y)) => same_application(x, y),
        _ => false,
    }
}

fn same_implication(a: &ClauseImplication, b: &ClauseImplication) -> (same: bool)
    ensures
        same == (a@ == b@),
    decreases a,
{
    let same_condition = match (&a.condition, &b.condition) {
        (Some(x), Some(y)) => same_goal(x, y),
        (None, None) => true,
        _ => false,
    };
    same_condition && same_application(&a.consequence, &b.consequence)
}

impl PartialEq for Leaf {
    fn eq(&self, other: &Leaf) -> (equal: bool) {
        same_leaf(self, other)
    }
}

impl PartialEqSpecImpl for Leaf {
    open spec fn obeys_eq_spec() -> bool {
        true
    }

    open spec fn eq_spec(&self, other: &Leaf) -> bool {
        self@ == other@
    }
}

impl PartialEq for Application {
    fn eq(&self, other: &Application) -> (equal: bool) {
        same_application(self, other)
    }
}

impl PartialEqSpecImpl for Application {
    open spec fn obeys_eq_spec() -> bool {
        true
    }

    open spec fn eq_spec(&self, other: &Application) -> bool {
        self@ == other@
    }
}

impl PartialEq for Goal {
    fn eq(&self, other: &Goal) -> (equal: bool) {
        same_goal(self, other)
    }
}

impl PartialEqSpecImpl for Goal {
    open spec fn obeys_eq_spec() -> bool {
        true
    }

    open spec fn eq_spec(&self, other: &Goal) -> bool {
        self@ == other@
    }
}

impl PartialEq for ClauseImplication {
    fn eq(&self, other: &ClauseImplication) -> (equal: bool) {
        same_implication(self, other)
    }
}

impl PartialEqSpecImpl for ClauseImplication {
    open spec fn obeys_eq_spec() -> bool {
        true
    }

    open spec fn eq_spec(&self, other: &ClauseImplication) -> bool {
        self@ == other@
    }
}

impl<T: PartialEq> PartialEq for Quantification<T> {
    fn eq(&self, other: &Quantification<T>) -> (equal: bool) {
        self.binders == other.binders && self.inner == other.inner
    }
}

impl<T: PartialEq> PartialEqSpecImpl for Quantification<T> {
    open spec fn obeys_eq_spec() -> bool {
        T::obeys_eq_spec()
    }

    open spec fn eq_spec(&self, other: &Quantification<T>) -> bool {
        self.binders == other.binders && self.inner.eq_spec(&other.inner)
    }
}

} // verus!
