//! The database of one solving session.
//!
//! It owns the program text and the solver configuration, keeps the
//! environment that was lowered from the text, and answers the solver's two
//! questions from it. Lowering itself is done by the caller's front end; the
//! database decides when it is needed and what becomes of its outcome.

use vstd::prelude::*;
use crate::environment::{
    Environment, EnvironmentView, TraitId, lemma_matching_clauses_agree_on_head,
    lemma_matching_clauses_keep_order, matching_clauses, picks_in_order,
};
use crate::error::ChalkError;
use crate::term::{Application, ApplicationView, Clause, ClauseView, Goal, clauses_view};

verus! {

/// The strategy by which goals are to be solved. The database stores the
/// choice; it does not act on it.
#[derive(Clone, Copy, Debug, PartialEq, Eq, Structural)]
pub enum SolverChoice {
    /// Tabled resolution, which truncates terms larger than `max_size`.
    SLG { max_size: usize },
    /// Recursive resolution, which gives up beyond `overflow_depth`.
    Recursive { overflow_depth: usize, caching_enabled: bool },
}

/// The state of one solving session: either nothing is lowered, or the
/// environment of the current program text is at hand.
#[derive(Debug)]
pub struct ChalkDatabase {
    program_text: String,
    solver_choice: SolverChoice,
    environment: Option<Environment>,
    derivations: u64,
}

/// The database as a value: its two inputs, the environment it holds, if
/// any, and how often it has had a program lowered.
pub struct DatabaseView {
    pub program_text: Seq<char>,
    pub solver_choice: SolverChoice,
    pub environment: Option<EnvironmentView>,
    pub derivations: u64,
}

/// The outcome of lowering a program, with the environment as a value.
pub open spec fn outcome_view(outcome: Result<Environment, ChalkError>) -> Result<
    EnvironmentView,
    ChalkError,
> {
    match outcome {
        Ok(environment) => Ok(environment@),
        Err(error) => Err(error),
    }
}

/// One more than `count`, unless `count` is the largest count there is.
pub open spec fn one_more(count: u64) -> u64 {
    if count < u64::MAX {
        (count + 1) as u64
    } else {
        count
    }
}

impl DatabaseView {
    /// The state of a new session.
    pub open spec fn initial(program_text: Seq<char>, solver_choice: SolverChoice) -> DatabaseView {
        DatabaseView { program_text, solver_choice, environment: None, derivations: 0 }
    }

    /// Whether an environment is at hand.
    pub open spec fn is_lowered(self) -> bool {
        self.environment is Some
    }

    /// The state after the program text was written.
    pub open spec fn with_program_text(self, program_text: Seq<char>) -> DatabaseView {
        DatabaseView { program_text, environment: None, ..self }
    }

    /// The state after the solver choice was written.
    pub open spec fn with_solver_choice(self, solver_choice: SolverChoice) -> DatabaseView {
        DatabaseView { solver_choice, environment: None, ..self }
    }

    /// The state after a requested derivation ended in `outcome`. A lowered
    /// database has no use for an outcome and stays as it is.
    pub open spec fn lowered(self, outcome: Result<EnvironmentView, ChalkError>) -> DatabaseView {
        if self.is_lowered() {
            self
        } else {
            DatabaseView {
                environment: match outcome {
                    Ok(environment) => Some(environment),
                    Err(_) => None,
                },
                derivations: one_more(self.derivations),
                ..self
            }
        }
    }

    /// The failure that a requested derivation reports when it ended in
    /// `outcome`.
    pub open spec fn failure(self, outcome: Result<EnvironmentView, ChalkError>) -> Option<
        ChalkError,
    > {
        match outcome {
            Err(error) if !self.is_lowered() => Some(error),
            _ => None,
        }
    }

    /// The clauses that are served for `goal`.
    pub open spec fn clauses_that_could_match(self, goal: ApplicationView) -> Seq<ClauseView> {
        match self.environment {
            Some(environment) => matching_clauses(environment.program_clauses, goal),
            None => Seq::empty(),
        }
    }

    /// Whether `trait_id` is served as coinductive.
    pub open spec fn is_coinductive_trait(self, trait_id: TraitId) -> bool {
        match self.environment {
            Some(environment) => environment.coinductive_traits.contains(trait_id),
            None => false,
        }
    }
}

impl View for ChalkDatabase {
    type V = DatabaseView;

    closed spec fn view(&self) -> DatabaseView {
        DatabaseView {
            program_text: self.program_text@,
            solver_choice: self.solver_choice,
            environment: match self.environment {
                Some(environment) => Some(environment@),
                None => None,
            },
            derivations: self.derivations,
        }
    }
}

impl ChalkDatabase {
    /// The environment that the database holds, if it holds one.
    pub closed spec fn cached(&self) -> Option<Environment> {
        self.environment
    }

    /// The view shows the cached environment as a value.
    pub proof fn lemma_view_of_cached(&self)
        ensures
            self@.environment == match self.cached() {
                Some(environment) => Some(environment@),
                None => None,
            },
    {
    }

    /// A database for `program_text` and `solver_choice`, with nothing
    /// lowered yet.
    pub fn with(program_text: &str, solver_choice: SolverChoice) -> (db: ChalkDatabase)
        ensures
            db@ == DatabaseView::initial(program_text@, solver_choice),
    {
        ChalkDatabase {
            program_text: program_text.to_owned(),
            solver_choice,
            environment: None,
            derivations: 0,
        }
    }

    /// Replaces the program text. Whatever was lowered from the old text is
    /// forgotten.
    pub fn set_program_text(&mut self, program_text: &str)
        ensures
            final(self)@ == old(self)@.with_program_text(program_text@),
    {
        self.program_text = program_text.to_owned();
        self.environment = None;
    }

    /// Replaces the solver choice. Whatever was lowered before is forgotten.
    pub fn set_solver_choice(&mut self, solver_choice: SolverChoice)
        ensures
            final(self)@ == old(self)@.with_solver_choice(solver_choice),
    {
        self.solver_choice = solver_choice;
        self.environment = None;
    }

    /// The program text as last written.
    pub fn program_text(&self) -> (text: &str)
        ensures
            text@ == self@.program_text,
    {
        self.program_text.as_str()
    }

    /// The solver choice as last written.
    pub fn solver_choice(&self) -> (choice: SolverChoice)
        ensures
            choice == self@.solver_choice,
    {
        self.solver_choice
    }

    /// Whether an environment is at hand.
    pub fn is_lowered(&self) -> (lowered: bool)
        ensures
            lowered == self@.is_lowered(),
    {
        self.environment.is_some()
    }

    /// How often a program has been lowered for this database.
    pub fn derivations(&self) -> (count: u64)
        ensures
            count == self@.derivations,
    {
        self.derivations
    }

    /// The environment at hand, if any. Nothing is lowered for this.
    pub fn cached_environment(&self) -> (environment: Option<&Environment>)
        ensures
            match environment {
                Some(environment) => self.cached() == Some(*environment),
                None => self.cached() is None,
            },
    {
        self.environment.as_ref()
    }

    /// The text that has to be lowered before the database can answer from
    /// an environment; `None` when an environment is at hand.
    pub fn program_to_lower(&self) -> (text: Option<&str>)
        ensures
            match text {
                Some(text) => !self@.is_lowered() && text@ == self@.program_text,
                None => self@.is_lowered(),
            },
    {
        if self.environment.is_none() {
            Some(self.program_text.as_str())
        } else {
            None
        }
    }

    /// Takes the outcome of lowering the program text. Without an
    /// environment at hand, the derivation is counted, a success is kept and
    /// a failure is handed back; with one, the outcome is dropped.
    pub fn record_lowering(&mut self, outcome: Result<Environment, ChalkError>) -> (result: Result<
        (),
        ChalkError,
    >)
        ensures
            final(self)@ == old(self)@.lowered(outcome_view(outcome)),
            result == match old(self)@.failure(outcome_view(outcome)) {
                Some(error) => Err::<(), ChalkError>(error),
                None => Ok(()),
            },
            !old(self)@.is_lowered() ==> final(self).cached() == outcome.ok(),
            old(self)@.is_lowered() ==> final(self).cached() == old(self).cached(),
    {
        if self.environment.is_some() {
            return Ok(());
        }
        if self.derivations < u64::MAX {
            self.derivations = self.derivations + 1;
        }
        match outcome {
            Ok(environment) => {
                self.environment = Some(environment);
                Ok(())
            },
            Err(error) => Err(error),
        }
    }

    /// Hands out the environment of the current program text. With one at
    /// hand, `lower` is not called. Without, `lower` is called once on the
    /// program text and its outcome is recorded.
    pub fn environment<L>(&mut self, lower: L) -> (result: Result<&Environment, ChalkError>)
        where L: FnOnce(&str) -> Result<Environment, ChalkError>
        requires
            old(self).may_derive(lower),
        ensures
            old(self).derives(lower, *final(self), result.err()),
            result matches Ok(environment) ==> final(self).cached() == Some(*environment),
    {
        if self.environment.is_none() {
            let outcome = lower(self.program_text.as_str());
            if let Err(error) = self.record_lowering(outcome) {
                return Err(error);
            }
        }
        Ok(self.environment.as_ref().unwrap())
    }

    /// Runs `op` on the environment of the current program text, which is
    /// lowered first if it has to be. `op` gets the environment as its
    /// argument and is not run when lowering fails.
    pub fn with_program<L, F, R>(&mut self, lower: L, op: F) -> (result: Result<R, ChalkError>)
        where
            L: FnOnce(&str) -> Result<Environment, ChalkError>,
            F: FnOnce(&Environment) -> R,
        requires
            old(self).may_derive(lower),
            old(self).may_use(lower, op),
        ensures
            old(self).derives(lower, *final(self), result.err()),
            result matches Ok(value) ==> final(self).cached() matches Some(environment)
                && call_ensures(op, (&environment,), value),
    {
        match self.environment(lower) {
            Ok(environment) => Ok(op(environment)),
            Err(error) => Err(error),
        }
    }

    /// Lowers the goal written in `text` against the environment of the
    /// current program text, which is lowered first if it has to be. Where
    /// that fails, its failure is the answer and `lower_goal` is not run;
    /// otherwise the answer is what `lower_goal` makes of `text`.
    pub fn parse_and_lower_goal<L, G>(&mut self, text: &str, lower: L, lower_goal: G) -> (result:
        Result<Goal, ChalkError>)
        where
            L: FnOnce(&str) -> Result<Environment, ChalkError>,
            G: FnOnce(&str, &Environment) -> Result<Goal, ChalkError>,
        requires
            old(self).may_derive(lower),
            old(self).may_lower_goal(lower, text, lower_goal),
        ensures
            exists|failure: Option<ChalkError>|
                {
                    &&& #[trigger] old(self).derives(lower, *final(self), failure)
                    &&& match failure {
                        Some(error) => result == Err::<Goal, ChalkError>(error),
                        None => final(self).cached() matches Some(environment) && call_ensures(
                            lower_goal,
                            (text, &environment),
                            result,
                        ),
                    }
                },
    {
        match self.environment(lower) {
            Ok(environment) => {
                let result = lower_goal(text, environment);
                assert(old(self).derives(lower, *self, None));
                result
            },
            Err(error) => {
                assert(old(self).derives(lower, *self, Some(error)));
                Err(error)
            },
        }
    }
}

impl ChalkDatabase {
    /// `lower` may be called on the program text whenever the database has
    /// nothing lowered.
    pub open spec fn may_derive<L: FnOnce(&str) -> Result<Environment, ChalkError>>(
        &self,
        lower: L,
    ) -> bool {
        !self@.is_lowered() ==> forall|text: &str|
            text@ == self@.program_text ==> #[trigger] call_requires(lower, (text,))
    }

    /// `op` may be called on whatever environment a request for it hands
    /// out.
    pub open spec fn may_use<L, F, R>(&self, lower: L, op: F) -> bool
        where
            L: FnOnce(&str) -> Result<Environment, ChalkError>,
            F: FnOnce(&Environment) -> R,
    {
        forall|after: ChalkDatabase, environment: Environment|
            #[trigger] self.derives(lower, after, None) && after.cached() == Some(environment)
                ==> #[trigger] call_requires(op, (&environment,))
    }

    /// `lower_goal` may be called on `text` and whatever environment a
    /// request for it hands out.
    pub open spec fn may_lower_goal<L, G>(&self, lower: L, text: &str, lower_goal: G) -> bool
        where
            L: FnOnce(&str) -> Result<Environment, ChalkError>,
            G: FnOnce(&str, &Environment) -> Result<Goal, ChalkError>,
    {
        forall|after: ChalkDatabase, environment: Environment|
            #[trigger] self.derives(lower, after, None) && after.cached() == Some(environment)
                ==> #[trigger] call_requires(lower_goal, (text, &environment))
    }

    /// A request for the environment took the database from `self` to
    /// `after` and reported `failure`: either nothing changed, because an
    /// environment was at hand, or `lower` was run on the program text and
    /// its outcome recorded.
    pub open spec fn derives<L: FnOnce(&str) -> Result<Environment, ChalkError>>(
        &self,
        lower: L,
        after: ChalkDatabase,
        failure: Option<ChalkError>,
    ) -> bool {
        if self@.is_lowered() {
            &&& after@ == self@
            &&& after.cached() == self.cached()
            &&& failure is None
        } else {
            exists|text: &str, outcome: Result<Environment, ChalkError>|
                {
                    &&& text@ == self@.program_text
                    &&& #[trigger] call_ensures(lower, (text,), outcome)
                    &&& after@ == self@.lowered(outcome_view(outcome))
                    &&& after.cached() == outcome.ok()
                    &&& failure == outcome.err()
                }
        }
    }
}

/// Tells the solver which traits are coinductive: those for which a cycle
/// in a proof counts as success.
pub trait IsCoinductive {
    /// The traits that count as coinductive.
    spec fn coinductive_traits(&self) -> Set<TraitId>;

    /// Whether `trait_id` counts as coinductive.
    fn is_coinductive_trait(&self, trait_id: TraitId) -> (coinductive: bool)
        ensures
            coinductive == self.coinductive_traits().contains(trait_id),
    ;
}

/// Serves the solver the program clauses worth trying on a goal.
pub trait ProgramClauseSet: IsCoinductive {
    /// The clauses that are served from, in declaration order.
    spec fn program_clauses(&self) -> Seq<ClauseView>;

    /// Appends to `vec` a copy of every clause that could match `goal`, in
    /// declaration order. What `vec` held before stays in front.
    fn program_clauses_that_could_match(&self, goal: &Application, vec: &mut Vec<Clause>)
        ensures
            clauses_view(final(vec)@) == clauses_view(old(vec)@) + matching_clauses(
                self.program_clauses(),
                goal@,
            ),
    ;
}

impl IsCoinductive for ChalkDatabase {
    /// Without an environment no trait counts as coinductive.
    open spec fn coinductive_traits(&self) -> Set<TraitId> {
        match self@.environment {
            Some(environment) => environment.coinductive_traits,
            None => Set::empty(),
        }
    }

    fn is_coinductive_trait(&self, trait_id: TraitId) -> (coinductive: bool)
        ensures
            coinductive == self@.is_coinductive_trait(trait_id),
    {
        match &self.environment {
            Some(environment) => environment.is_coinductive_trait(trait_id),
            None => false,
        }
    }
}

impl ProgramClauseSet for ChalkDatabase {
    /// Without an environment there are no clauses to serve.
    open spec fn program_clauses(&self) -> Seq<ClauseView> {
        match self@.environment {
            Some(environment) => environment.program_clauses,
            None => Seq::empty(),
        }
    }

    fn program_clauses_that_could_match(&self, goal: &Application, vec: &mut Vec<Clause>)
        ensures
            clauses_view(final(vec)@) == clauses_view(old(vec)@)
                + self@.clauses_that_could_match(goal@),
    {
        match &self.environment {
            Some(environment) => environment.program_clauses_that_could_match(goal, vec),
            None => {
                proof {
                    reveal(Seq::filter);
                    assert(clauses_view(vec@) =~= clauses_view(vec@) + Seq::<ClauseView>::empty());
                }
            },
        }
    }
}

/// Asking twice is as good as asking once. When the first request leaves an
/// environment at hand, a second request on the unchanged database changes
/// nothing: it answers from the same environment and counts no derivation,
/// whatever lowering would have given. The first request counts one
/// derivation when it had to lower, and none when it did not.
pub proof fn lemma_second_request_is_answered_from_cache(
    db: DatabaseView,
    first: Result<EnvironmentView, ChalkError>,
    second: Result<EnvironmentView, ChalkError>,
)
    requires
        db.is_lowered() || first is Ok,
    ensures
        db.lowered(first).lowered(second) == db.lowered(first),
        db.lowered(first).environment == if db.is_lowered() {
            db.environment
        } else {
            Some(first->Ok_0)
        },
        db.is_lowered() ==> db.lowered(first).derivations == db.derivations,
        !db.is_lowered() && db.derivations < u64::MAX ==> db.lowered(first).derivations
            == db.derivations + 1,
{
}

/// Writing the program text invalidates. The database has nothing lowered
/// afterwards, the next request lowers again and is counted, and what it
/// leaves at hand is the outcome of that lowering alone: the environment of
/// the old text is gone whether the new text lowers or not.
pub proof fn lemma_new_text_is_lowered_anew(
    db: DatabaseView,
    program_text: Seq<char>,
    outcome: Result<EnvironmentView, ChalkError>,
)
    ensures
        !db.with_program_text(program_text).is_lowered(),
        db.with_program_text(program_text).derivations == db.derivations,
        db.with_program_text(program_text).lowered(outcome).program_text == program_text,
        db.with_program_text(program_text).lowered(outcome).environment == match outcome {
            Ok(environment) => Some(environment),
            Err(_) => None::<EnvironmentView>,
        },
        db.derivations < u64::MAX ==> db.with_program_text(program_text).lowered(
            outcome,
        ).derivations == db.derivations + 1,
{
}

/// Writing the solver choice invalidates in the same way.
pub proof fn lemma_new_choice_is_lowered_anew(
    db: DatabaseView,
    solver_choice: SolverChoice,
    outcome: Result<EnvironmentView, ChalkError>,
)
    ensures
        !db.with_solver_choice(solver_choice).is_lowered(),
        db.with_solver_choice(solver_choice).lowered(outcome).environment == match outcome {
            Ok(environment) => Some(environment),
            Err(_) => None::<EnvironmentView>,
        },
        db.derivations < u64::MAX ==> db.with_solver_choice(solver_choice).lowered(
            outcome,
        ).derivations == db.derivations + 1,
{
}

/// Every clause that a database serves for a goal has the goal's constant at
/// the head of its consequence, applied to as many arguments as the goal
/// has.
pub proof fn lemma_served_clauses_agree_on_head(db: DatabaseView, goal: ApplicationView, k: int)
    requires
        0 <= k < db.clauses_that_could_match(goal).len(),
    ensures
        db.clauses_that_could_match(goal)[k].inner.consequence.constant == goal.constant,
        db.clauses_that_could_match(goal)[k].inner.consequence.args.len() == goal.args.len(),
{
    lemma_matching_clauses_agree_on_head(db.environment->Some_0.program_clauses, goal, k);
}

/// A database serves clauses in the order of the program.
pub proof fn lemma_served_clauses_keep_order(db: DatabaseView, goal: ApplicationView)
    requires
        db.is_lowered(),
    ensures
        exists|positions: Seq<int>| #[trigger]
            picks_in_order(
                positions,
                db.clauses_that_could_match(goal),
                db.environment->Some_0.program_clauses,
                goal,
            ),
{
    let clauses = db.environment->Some_0.program_clauses;
    lemma_matching_clauses_keep_order(clauses, goal);
    let positions = choose|positions: Seq<int>| #[trigger]
        picks_in_order(positions, matching_clauses(clauses, goal), clauses, goal);
    assert(picks_in_order(positions, db.clauses_that_could_match(goal), clauses, goal));
}

/// A trait is served as coinductive exactly when an environment is at hand
/// that was built with it among the declared traits.
pub proof fn lemma_coinductive_when_declared(
    db: DatabaseView,
    program_clauses: Seq<ClauseView>,
    declared: Seq<TraitId>,
    trait_id: TraitId,
)
    requires
        db.environment == Some(
            EnvironmentView { program_clauses, coinductive_traits: declared.to_set() },
        ),
    ensures
        db.is_coinductive_trait(trait_id) == declared.contains(trait_id),
{
}

/// After a derivation that failed the database still has nothing lowered,
/// serves no clause for any goal and counts no trait as coinductive. The
/// failure does not stand in the way of another attempt.
pub proof fn lemma_failed_derivation_degrades(
    db: DatabaseView,
    error: ChalkError,
    goal: ApplicationView,
    trait_id: TraitId,
    retry: Result<EnvironmentView, ChalkError>,
)
    requires
        !db.is_lowered(),
    ensures
        db.failure(Err(error)) == Some(error),
        !db.lowered(Err(error)).is_lowered(),
        db.lowered(Err(error)).clauses_that_could_match(goal) == Seq::<ClauseView>::empty(),
        !db.lowered(Err(error)).is_coinductive_trait(trait_id),
        retry matches Ok(environment) ==> db.lowered(Err(error)).lowered(retry).environment
            == Some(environment),
{
}

} // verus!
