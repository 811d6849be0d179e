//! The lowered program: its clauses in declaration order and the set of
//! traits that were declared coinductive.

use std::collections::BTreeSet;
use vstd::prelude::*;
use crate::could_match::{
    clause_could_match, instantiate_application, lemma_unifiable_applications_could_match,
};
use crate::term::{Application, ApplicationView, Clause, ClauseView, LeafView, clauses_view};

verus! {

/// Identifies a trait of the program.
#[derive(Clone, Copy, Debug, PartialEq, Eq, Hash, Structural)]
pub struct TraitId {
    pub index: u32,
}

/// What lowering a program yields. It is built once and then only read.
#[derive(Debug)]
pub struct Environment {
    program_clauses: Vec<Clause>,
    coinductive_traits: BTreeSet<u32>,
}

/// The view of an `Environment`.
pub struct EnvironmentView {
    pub program_clauses: Seq<ClauseView>,
    pub coinductive_traits: Set<TraitId>,
}

impl View for Environment {
    type V = EnvironmentView;

    closed spec fn view(&self) -> EnvironmentView {
        EnvironmentView {
            program_clauses: clauses_view(self.program_clauses@),
            coinductive_traits: Set::new(
                |id: TraitId| self.coinductive_traits@.contains(id.index),
            ),
        }
    }
}

/// The clauses of `clauses` that could match `goal`, in the order in which
/// they stand in `clauses`.
pub open spec fn matching_clauses(clauses: Seq<ClauseView>, goal: ApplicationView) -> Seq<
    ClauseView,
> {
    clauses.filter(|clause: ClauseView| clause_could_match(clause, goal))
}

/// How `matching_clauses` grows when one more clause is looked at.
proof fn lemma_matching_clauses_step(clauses: Seq<ClauseView>, goal: ApplicationView, i: int)
    requires
        0 <= i < clauses.len(),
    ensures
        matching_clauses(clauses.take(i + 1), goal) == if clause_could_match(clauses[i], goal) {
            matching_clauses(clauses.take(i), goal).push(clauses[i])
        } else {
            matching_clauses(clauses.take(i), goal)
        },
{
    reveal(Seq::filter);
    assert(clauses.take(i + 1).drop_last() =~= clauses.take(i));
}

/// Every clause that is picked for a goal has the goal's constant at the
/// head of its consequence, applied to as many arguments as the goal has.
pub proof fn lemma_matching_clauses_agree_on_head(
    clauses: Seq<ClauseView>,
    goal: ApplicationView,
    k: int,
)
    requires
        0 <= k < matching_clauses(clauses, goal).len(),
    ensures
        matching_clauses(clauses, goal)[k].inner.consequence.constant == goal.constant,
        matching_clauses(clauses, goal)[k].inner.consequence.args.len() == goal.args.len(),
{
    let picked = |clause: ClauseView| clause_could_match(clause, goal);
    clauses.lemma_filter_pred(picked, k);
    assert(picked(matching_clauses(clauses, goal)[k]));
}

/// The pick leaves out no clause that can be used on the goal: a clause
/// whose consequence has an instance in common with the goal is among the
/// clauses picked for it.
pub proof fn lemma_unifiable_clause_is_picked(
    clauses: Seq<ClauseView>,
    goal: ApplicationView,
    p: int,
    left: spec_fn(LeafView) -> LeafView,
    right: spec_fn(LeafView) -> LeafView,
)
    requires
        0 <= p < clauses.len(),
        instantiate_application(left, clauses[p].inner.consequence) == instantiate_application(
            right,
            goal,
        ),
    ensures
        matching_clauses(clauses, goal).contains(clauses[p]),
{
    lemma_unifiable_applications_could_match(left, right, clauses[p].inner.consequence, goal);
    let picked = |clause: ClauseView| clause_could_match(clause, goal);
    assert(picked(clauses[p]));
    clauses.lemma_filter_contains(picked, p);
}

/// The positions in `clauses` of the clauses that could match `goal`, in
/// increasing order.
spec fn matching_positions(clauses: Seq<ClauseView>, goal: ApplicationView) -> Seq<int>
    decreases clauses.len(),
{
    if clauses.len() == 0 {
        Seq::empty()
    } else {
        let earlier = matching_positions(clauses.drop_last(), goal);
        if clause_could_match(clauses.last(), goal) {
            earlier.push(clauses.len() - 1)
        } else {
            earlier
        }
    }
}

/// `picked` holds the clauses of `clauses` that could match `goal`, each
/// once and in the order of `clauses`: `positions` names, for each picked
/// clause, where it stands in `clauses`; the positions increase strictly,
/// and no position whose clause could match is left out.
pub open spec fn picks_in_order(
    positions: Seq<int>,
    picked: Seq<ClauseView>,
    clauses: Seq<ClauseView>,
    goal: ApplicationView,
) -> bool {
    &&& positions.len() == picked.len()
    &&& forall|k: int|
        0 <= k < positions.len() ==> 0 <= #[trigger] positions[k] < clauses.len() && picked[k]
            == clauses[positions[k]]
    &&& forall|j: int, k: int|
        0 <= j < k < positions.len() ==> #[trigger] positions[j] < #[trigger] positions[k]
    &&& forall|p: int|
        0 <= p < clauses.len() && clause_could_match(#[trigger] clauses[p], goal)
            ==> positions.contains(p)
}

/// The clauses picked for a goal come in the order in which they stand in
/// the program.
pub proof fn lemma_matching_clauses_keep_order(clauses: Seq<ClauseView>, goal: ApplicationView)
    ensures
        exists|positions: Seq<int>| #[trigger]
            picks_in_order(positions, matching_clauses(clauses, goal), clauses, goal),
{
    lemma_positions_of_matching_clauses(clauses, goal);
    assert(picks_in_order(
        matching_positions(clauses, goal),
        matching_clauses(clauses, goal),
        clauses,
        goal,
    ));
}

proof fn lemma_positions_of_matching_clauses(clauses: Seq<ClauseView>, goal: ApplicationView)
    ensures
        matching_positions(clauses, goal).len() == matching_clauses(clauses, goal).len(),
        forall|k: int|
            0 <= k < matching_positions(clauses, goal).len() ==> 0 <= #[trigger] matching_positions(
                clauses,
                goal,
            )[k] < clauses.len() && matching_clauses(clauses, goal)[k]
                == clauses[matching_positions(clauses, goal)[k]],
        forall|j: int, k: int|
            0 <= j < k < matching_positions(clauses, goal).len() ==> #[trigger] matching_positions(
                clauses,
                goal,
            )[j] < #[trigger] matching_positions(clauses, goal)[k],
        forall|p: int|
            0 <= p < clauses.len() && clause_could_match(#[trigger] clauses[p], goal)
                ==> matching_positions(clauses, goal).contains(p),
    decreases clauses.len(),
{
    reveal(Seq::filter);
    if clauses.len() > 0 {
        let shorter = clauses.drop_last();
        let earlier = matching_positions(shorter, goal);
        let positions = matching_positions(clauses, goal);
        lemma_positions_of_matching_clauses(shorter, goal);
        assert forall|p: int|
            0 <= p < clauses.len() && clause_could_match(
                #[trigger] clauses[p],
                goal,
            ) implies positions.contains(p) by {
            if p < shorter.len() {
                assert(shorter[p] == clauses[p]);
                let k = choose|k: int| 0 <= k < earlier.len() && earlier[k] == p;
                assert(positions[k] == p);
            } else {
                assert(positions[positions.len() - 1] == p);
            }
        }
    }
}

impl Environment {
    /// The environment with the given clauses, in the given order, in which
    /// exactly the traits of `coinductive_traits` are coinductive.
    pub fn new(program_clauses: Vec<Clause>, coinductive_traits: &Vec<TraitId>) -> (environment:
        Environment)
        ensures
            environment@ == (EnvironmentView {
                program_clauses: clauses_view(program_clauses@),
                coinductive_traits: coinductive_traits@.to_set(),
            }),
    {
        let mut declared: BTreeSet<u32> = BTreeSet::new();
        let mut i: usize = 0;
        while i < coinductive_traits.len()
            invariant
                i <= coinductive_traits.len(),
                forall|index: u32|
                    declared@.contains(index) <==> exists|j: int|
                        0 <= j < i && (#[trigger] coinductive_traits@[j]).index == index,
            decreases coinductive_traits.len() - i,
        {
            declared.insert(coinductive_traits[i].index);
            i += 1;
        }
        let environment = Environment { program_clauses, coinductive_traits: declared };
        assert(environment@.coinductive_traits =~= coinductive_traits@.to_set()) by {
            assert forall|id: TraitId|
                environment@.coinductive_traits.contains(id) implies coinductive_traits@.to_set().contains(
                id,
            ) by {
                let j = choose|j: int|
                    0 <= j < coinductive_traits@.len() && (#[trigger] coinductive_traits@[j]).index
                        == id.index;
                assert(coinductive_traits@[j] == id);
            }
        }
        environment
    }

    /// The clauses of the program, in declaration order.
    pub fn program_clauses(&self) -> (clauses: &Vec<Clause>)
        ensures
            clauses_view(clauses@) == self@.program_clauses,
    {
        &self.program_clauses
    }

    /// Whether `trait_id` was declared coinductive.
    pub fn is_coinductive_trait(&self, trait_id: TraitId) -> (coinductive: bool)
        ensures
            coinductive == self@.coinductive_traits.contains(trait_id),
    {
        self.coinductive_traits.contains(&trait_id.index)
    }

    /// Appends to `vec` a copy of every clause that could match `goal`, in
    /// declaration order.
    pub fn program_clauses_that_could_match(&self, goal: &Application, vec: &mut Vec<Clause>)
        ensures
            clauses_view(final(vec)@) == clauses_view(old(vec)@) + matching_clauses(
                self@.program_clauses,
                goal@,
            ),
    {
        let ghost all = clauses_view(self.program_clauses@);
        let mut i: usize = 0;
        assert(all.take(0) =~= Seq::empty());
        assert(matching_clauses(all.take(0), goal@) =~= Seq::empty()) by {
            reveal(Seq::filter);
        }
        while i < self.program_clauses.len()
            invariant
                i <= self.program_clauses.len(),
                all == clauses_view(self.program_clauses@),
                clauses_view(vec@) =~= clauses_view(old(vec)@) + matching_clauses(
                    all.take(i as int),
                    goal@,
                ),
            decreases self.program_clauses.len() - i,
        {
            let clause = &self.program_clauses[i];
            proof {
                lemma_matching_clauses_step(all, goal@, i as int);
            }
            if clause.could_match(goal) {
                let ghost before = vec@;
                vec.push(clause.clone());
                assert(clauses_view(vec@) =~= clauses_view(before).push(clause@));
            }
            i += 1;
        }
        assert(all.take(i as int) =~= all);
    }
}

} // verus!
