use chalk::db::{ChalkDatabase, IsCoinductive, ProgramClauseSet, SolverChoice};
use chalk::environment::{Environment, TraitId};
use chalk::error::ChalkError;
use chalk::term::{Application, Clause, ClauseImplication, Constant, Goal, Leaf, Quantification};
use std::cell::Cell;

const FOO_FOR_BAR: &str = "trait Foo { } struct Bar { } impl Foo for Bar { }";

fn unit(name: &str) -> Leaf {
    Leaf::apply(&Application::new(Constant::named(name), &Vec::new()))
}

fn implemented(implemented_trait: &str, implementor: &str) -> Application {
    Application::new(Constant::named(implemented_trait), &vec![unit(implementor)])
}

/// A front end for the tests: every `impl T for S` of the text becomes the
/// fact `T(S)`, every `#[coinductive] trait` takes the next trait identifier,
/// and a text without any declaration is refused.
fn lower(text: &str) -> Result<Environment, ChalkError> {
    let words: Vec<&str> = text.split_whitespace().collect();
    if words.is_empty() {
        return Err(ChalkError::Syntax("empty program".to_string()));
    }
    let mut clauses = Vec::new();
    let mut coinductive = Vec::new();
    let mut traits = 0;
    for (at, word) in words.iter().enumerate() {
        if *word == "trait" {
            if at > 0 && words[at - 1] == "#[coinductive]" {
                coinductive.push(TraitId { index: traits });
            }
            traits += 1;
        }
        if *word == "impl" {
            if at + 3 >= words.len() || words[at + 2] != "for" {
                return Err(ChalkError::Syntax("impl without for".to_string()));
            }
            if !words.contains(&"trait") {
                return Err(ChalkError::Lowering(format!("unknown trait {}", words[at + 1])));
            }
            clauses.push(Clause::fact(&implemented(words[at + 1], words[at + 3])));
        }
    }
    Ok(Environment::new(clauses, &coinductive))
}

/// Goals of the tests are written `T(S)`.
fn lower_goal(text: &str, _program: &Environment) -> Result<Goal, ChalkError> {
    match text.strip_suffix(')').and_then(|rest| rest.split_once('(')) {
        Some((implemented_trait, implementor)) => Ok(Goal::leaf(&implemented(implemented_trait, implementor))),
        None => Err(ChalkError::Syntax(format!("not a goal: {}", text))),
    }
}

fn served(db: &ChalkDatabase, goal: &Application) -> Vec<Clause> {
    let mut clauses = Vec::new();
    db.program_clauses_that_could_match(goal, &mut clauses);
    clauses
}

#[test]
fn new_database_stores_its_inputs_and_has_nothing_lowered() {
    let db = ChalkDatabase::with(FOO_FOR_BAR, SolverChoice::SLG { max_size: 10 });
    assert_eq!(db.program_text(), FOO_FOR_BAR);
    assert_eq!(db.solver_choice(), SolverChoice::SLG { max_size: 10 });
    assert!(!db.is_lowered());
    assert_eq!(db.derivations(), 0);
    assert!(db.cached_environment().is_none());
    assert_eq!(db.program_to_lower(), Some(FOO_FOR_BAR));
}

#[test]
fn end_to_end_foo_for_bar() {
    let mut db = ChalkDatabase::with(FOO_FOR_BAR, SolverChoice::SLG { max_size: 10 });
    {
        let environment = db.environment(lower).expect("the program lowers");
        let clauses = environment.program_clauses();
        assert_eq!(clauses.len(), 1);
        assert_eq!(clauses[0].inner.consequence, implemented("Foo", "Bar"));
        assert_eq!(clauses[0].inner.condition, None);
    }
    let goal = db.parse_and_lower_goal("Foo(Bar)", lower, lower_goal).expect("the goal lowers");
    assert_eq!(
        goal,
        Goal::Leaf(Application { constant: Constant::named("Foo"), args: vec![unit("Bar")] })
    );
    match goal {
        Goal::Leaf(application) => {
            let clauses = served(&db, &application);
            assert_eq!(clauses, vec![Clause::fact(&implemented("Foo", "Bar"))]);
        }
        _ => panic!("not a leaf"),
    }
}

#[test]
fn second_request_is_answered_from_the_cache() {
    let runs = Cell::new(0);
    let counting = |text: &str| {
        runs.set(runs.get() + 1);
        lower(text)
    };
    let mut db = ChalkDatabase::with(
        "trait Foo { } #[coinductive] trait Send { } impl Foo for Bar { } impl Send for Bar { }",
        SolverChoice::Recursive { overflow_depth: 100, caching_enabled: true },
    );
    let (first_clauses, first_coinductive) = {
        let first = db.environment(&counting).expect("the program lowers");
        (first.program_clauses().clone(), first.is_coinductive_trait(TraitId { index: 1 }))
    };
    assert_eq!(db.derivations(), 1);
    assert_eq!(runs.get(), 1);
    let (second_clauses, second_coinductive) = {
        let second = db.environment(&counting).expect("the environment is at hand");
        (second.program_clauses().clone(), second.is_coinductive_trait(TraitId { index: 1 }))
    };
    assert_eq!(db.derivations(), 1);
    assert_eq!(runs.get(), 1);
    assert_eq!(first_clauses, second_clauses);
    assert_eq!(
        first_clauses,
        vec![
            Clause::fact(&implemented("Foo", "Bar")),
            Clause::fact(&implemented("Send", "Bar")),
        ]
    );
    assert!(first_coinductive);
    assert_eq!(first_coinductive, second_coinductive);
}

#[test]
fn new_program_text_is_lowered_anew() {
    let mut db = ChalkDatabase::with(FOO_FOR_BAR, SolverChoice::SLG { max_size: 10 });
    db.environment(lower).expect("the program lowers");
    assert_eq!(db.derivations(), 1);
    db.set_program_text("trait Baz { } impl Baz for Qux { }");
    assert!(!db.is_lowered());
    assert!(db.cached_environment().is_none());
    assert_eq!(db.program_text(), "trait Baz { } impl Baz for Qux { }");
    assert_eq!(db.derivations(), 1);
    assert!(served(&db, &implemented("Foo", "Bar")).is_empty());
    {
        let environment = db.environment(lower).expect("the new program lowers");
        assert_eq!(
            environment.program_clauses(),
            &vec![Clause::fact(&implemented("Baz", "Qux"))]
        );
    }
    assert_eq!(db.derivations(), 2);
    assert!(served(&db, &implemented("Foo", "Bar")).is_empty());
    assert_eq!(served(&db, &implemented("Baz", "Qux")).len(), 1);
}

#[test]
fn the_same_text_written_again_is_lowered_anew() {
    let mut db = ChalkDatabase::with(FOO_FOR_BAR, SolverChoice::SLG { max_size: 10 });
    db.environment(lower).expect("the program lowers");
    db.set_program_text(FOO_FOR_BAR);
    assert!(!db.is_lowered());
    db.environment(lower).expect("the program lowers");
    assert_eq!(db.derivations(), 2);
}

#[test]
fn new_solver_choice_invalidates() {
    let mut db = ChalkDatabase::with(FOO_FOR_BAR, SolverChoice::SLG { max_size: 10 });
    db.environment(lower).expect("the program lowers");
    db.set_solver_choice(SolverChoice::SLG { max_size: 20 });
    assert_eq!(db.solver_choice(), SolverChoice::SLG { max_size: 20 });
    assert_eq!(db.program_text(), FOO_FOR_BAR);
    assert!(!db.is_lowered());
    db.environment(lower).expect("the program lowers");
    assert_eq!(db.derivations(), 2);
}

#[test]
fn matches_come_in_declaration_order_behind_what_was_there() {
    let a = Application::new(Constant::named("Foo"), &vec![Leaf::bound(0)]);
    let b = implemented("Baz", "Bar");
    let c = implemented("Foo", "Bar");
    let d = implemented("Foo", "Qux");
    let e = Application::new(Constant::named("Foo"), &vec![unit("Bar"), unit("Bar")]);
    let clauses = vec![
        Quantification::new(1, ClauseImplication::fact(&a)),
        Clause::fact(&b),
        Clause::fact(&c),
        Clause::fact(&d),
        Clause::fact(&e),
        Quantification::new(0, ClauseImplication::implies(&Goal::leaf(&b), &c)),
    ];
    let mut db = ChalkDatabase::with("", SolverChoice::SLG { max_size: 10 });
    db.record_lowering(Ok(Environment::new(clauses.clone(), &Vec::new()))).expect("recorded");
    let mut out = vec![Clause::fact(&d)];
    db.program_clauses_that_could_match(&implemented("Foo", "Bar"), &mut out);
    assert_eq!(
        out,
        vec![Clause::fact(&d), clauses[0].clone(), clauses[2].clone(), clauses[5].clone()]
    );
    for clause in &out[1..] {
        assert!(clause.inner.consequence.constant == Constant::named("Foo"));
        assert_eq!(clause.inner.consequence.args.len(), 1);
    }
    assert!(served(&db, &implemented("Nothing", "Bar")).is_empty());
}

#[test]
fn coinductive_only_when_declared() {
    let mut db = ChalkDatabase::with(
        "trait Foo { } #[coinductive] trait Send { } trait Baz { } #[coinductive] trait Sync { }",
        SolverChoice::SLG { max_size: 10 },
    );
    db.environment(lower).expect("the program lowers");
    assert!(!db.is_coinductive_trait(TraitId { index: 0 }));
    assert!(db.is_coinductive_trait(TraitId { index: 1 }));
    assert!(!db.is_coinductive_trait(TraitId { index: 2 }));
    assert!(db.is_coinductive_trait(TraitId { index: 3 }));
    assert!(!db.is_coinductive_trait(TraitId { index: 4 }));
    assert!(!db.is_coinductive_trait(TraitId { index: u32::MAX }));
}

#[test]
fn environment_answers_as_it_was_built() {
    let clauses = vec![Clause::fact(&implemented("Foo", "Bar"))];
    let declared = vec![TraitId { index: 7 }, TraitId { index: 2 }, TraitId { index: 7 }];
    let environment = Environment::new(clauses.clone(), &declared);
    assert_eq!(environment.program_clauses(), &clauses);
    assert!(environment.is_coinductive_trait(TraitId { index: 7 }));
    assert!(environment.is_coinductive_trait(TraitId { index: 2 }));
    assert!(!environment.is_coinductive_trait(TraitId { index: 0 }));
    let mut out = Vec::new();
    environment.program_clauses_that_could_match(&implemented("Foo", "Bar"), &mut out);
    assert_eq!(out, clauses);
    let empty = Environment::new(Vec::new(), &Vec::new());
    assert!(empty.program_clauses().is_empty());
    assert!(!empty.is_coinductive_trait(TraitId { index: 7 }));
}

#[test]
fn queries_degrade_when_nothing_is_lowered() {
    let db = ChalkDatabase::with(FOO_FOR_BAR, SolverChoice::SLG { max_size: 10 });
    assert!(served(&db, &implemented("Foo", "Bar")).is_empty());
    assert!(!db.is_coinductive_trait(TraitId { index: 0 }));
}

#[test]
fn queries_degrade_when_lowering_fails() {
    let mut db = ChalkDatabase::with("", SolverChoice::SLG { max_size: 10 });
    match db.environment(lower) {
        Err(error) => assert_eq!(error, ChalkError::Syntax("empty program".to_string())),
        Ok(_) => panic!("the empty program must not lower"),
    }
    assert!(!db.is_lowered());
    assert_eq!(db.derivations(), 1);
    let mut out = vec![Clause::fact(&implemented("Kept", "Bar"))];
    db.program_clauses_that_could_match(&implemented("Foo", "Bar"), &mut out);
    assert_eq!(out, vec![Clause::fact(&implemented("Kept", "Bar"))]);
    assert!(!db.is_coinductive_trait(TraitId { index: 0 }));
    assert!(!db.is_coinductive_trait(TraitId { index: 1 }));
}

#[test]
fn a_failed_derivation_can_be_retried_after_the_text_is_mended() {
    let mut db = ChalkDatabase::with("impl Foo", SolverChoice::SLG { max_size: 10 });
    assert_eq!(
        db.environment(lower).err(),
        Some(ChalkError::Syntax("impl without for".to_string()))
    );
    assert_eq!(
        db.environment(lower).err(),
        Some(ChalkError::Syntax("impl without for".to_string()))
    );
    assert_eq!(db.derivations(), 2);
    db.set_program_text("impl Foo for Bar { }");
    assert_eq!(
        db.environment(lower).err(),
        Some(ChalkError::Lowering("unknown trait Foo".to_string()))
    );
    db.set_program_text(FOO_FOR_BAR);
    assert!(db.environment(lower).is_ok());
    assert_eq!(db.derivations(), 4);
    assert_eq!(served(&db, &implemented("Foo", "Bar")).len(), 1);
}

#[test]
fn with_program_hands_the_environment_to_the_operation() {
    let mut db = ChalkDatabase::with(FOO_FOR_BAR, SolverChoice::SLG { max_size: 10 });
    let count = db.with_program(lower, |program: &Environment| program.program_clauses().len());
    assert_eq!(count, Ok(1));
    assert_eq!(db.derivations(), 1);
    let head = db.with_program(lower, |program: &Environment| {
        program.program_clauses()[0].inner.consequence.clone()
    });
    assert_eq!(head, Ok(implemented("Foo", "Bar")));
    assert_eq!(db.derivations(), 1);
}

#[test]
fn with_program_reports_the_failure_and_does_not_run_the_operation() {
    let ran = Cell::new(false);
    let mut db = ChalkDatabase::with("", SolverChoice::SLG { max_size: 10 });
    let result = db.with_program(lower, |_program: &Environment| ran.set(true));
    assert_eq!(result, Err(ChalkError::Syntax("empty program".to_string())));
    assert!(!ran.get());
    assert!(!db.is_lowered());
}

#[test]
fn goal_is_lowered_against_the_current_program() {
    let mut db = ChalkDatabase::with(FOO_FOR_BAR, SolverChoice::SLG { max_size: 10 });
    let seen = Cell::new(0);
    let goal = db.parse_and_lower_goal("Foo(Bar)", lower, |text: &str, program: &Environment| {
        seen.set(program.program_clauses().len());
        lower_goal(text, program)
    });
    assert_eq!(goal, Ok(Goal::leaf(&implemented("Foo", "Bar"))));
    assert_eq!(seen.get(), 1);
    assert!(db.is_lowered());
    assert_eq!(db.derivations(), 1);
}

#[test]
fn goal_failure_is_reported_and_leaves_the_environment_at_hand() {
    let mut db = ChalkDatabase::with(FOO_FOR_BAR, SolverChoice::SLG { max_size: 10 });
    let goal = db.parse_and_lower_goal("Foo Bar", lower, lower_goal);
    assert_eq!(goal, Err(ChalkError::Syntax("not a goal: Foo Bar".to_string())));
    assert!(db.is_lowered());
    let unknown = db.parse_and_lower_goal("Foo(Bar)", lower, |_: &str, _: &Environment| {
        Err(ChalkError::Lowering("unknown type Bar".to_string()))
    });
    assert_eq!(unknown, Err(ChalkError::Lowering("unknown type Bar".to_string())));
    assert_eq!(db.derivations(), 1);
}

#[test]
fn program_failure_comes_before_the_goal() {
    let ran = Cell::new(false);
    let mut db = ChalkDatabase::with("", SolverChoice::SLG { max_size: 10 });
    let goal = db.parse_and_lower_goal("Foo(Bar)", lower, |text: &str, program: &Environment| {
        ran.set(true);
        lower_goal(text, program)
    });
    assert_eq!(goal, Err(ChalkError::Syntax("empty program".to_string())));
    assert!(!ran.get());
}

#[test]
fn recorded_outcome_is_kept_only_when_nothing_is_at_hand() {
    let mut db = ChalkDatabase::with(FOO_FOR_BAR, SolverChoice::SLG { max_size: 10 });
    assert_eq!(db.program_to_lower(), Some(FOO_FOR_BAR));
    assert_eq!(
        db.record_lowering(Err(ChalkError::Lowering("no".to_string()))),
        Err(ChalkError::Lowering("no".to_string()))
    );
    assert_eq!(db.derivations(), 1);
    assert_eq!(db.program_to_lower(), Some(FOO_FOR_BAR));
    let first = Environment::new(vec![Clause::fact(&implemented("Foo", "Bar"))], &Vec::new());
    assert_eq!(db.record_lowering(Ok(first)), Ok(()));
    assert_eq!(db.derivations(), 2);
    assert_eq!(db.program_to_lower(), None);
    let late = Environment::new(Vec::new(), &vec![TraitId { index: 0 }]);
    assert_eq!(db.record_lowering(Ok(late)), Ok(()));
    assert_eq!(db.record_lowering(Err(ChalkError::Syntax("late".to_string()))), Ok(()));
    assert_eq!(db.derivations(), 2);
    assert_eq!(served(&db, &implemented("Foo", "Bar")).len(), 1);
    assert!(!db.is_coinductive_trait(TraitId { index: 0 }));
    match db.cached_environment() {
        Some(environment) => assert_eq!(environment.program_clauses().len(), 1),
        None => panic!("an environment was recorded"),
    }
}

#[test]
fn error_text_is_the_message() {
    assert_eq!(ChalkError::Syntax("unexpected `}`".to_string()).error_text(), "unexpected `}`");
    assert_eq!(ChalkError::Lowering("unknown trait".to_string()).error_text(), "unknown trait");
    assert_ne!(ChalkError::Syntax("x".to_string()), ChalkError::Lowering("x".to_string()));
}
