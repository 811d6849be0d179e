use chalk::term::{Application, Clause, ClauseImplication, Constant, Goal, Leaf, Quantification};

fn constant(name: &str) -> Leaf {
    Leaf::apply(&Application::new(Constant::named(name), &Vec::new()))
}

fn apply(name: &str, args: Vec<Leaf>) -> Application {
    Application::new(Constant::named(name), &args)
}

#[test]
fn equal_applications_could_match() {
    let goal = apply("Foo", vec![constant("Bar")]);
    assert!(goal.could_match(&goal.clone()));
    assert!(Clause::fact(&goal).could_match(&goal));
}

#[test]
fn another_head_constant_cannot_match() {
    let clause = Clause::fact(&apply("Foo", vec![constant("Bar")]));
    assert!(!clause.could_match(&apply("Baz", vec![constant("Bar")])));
}

#[test]
fn another_head_arity_cannot_match() {
    let clause = Clause::fact(&apply("Foo", vec![constant("Bar")]));
    assert!(!clause.could_match(&apply("Foo", Vec::new())));
    assert!(!clause.could_match(&apply("Foo", vec![constant("Bar"), constant("Bar")])));
}

#[test]
fn another_argument_constant_cannot_match() {
    let clause = Clause::fact(&apply("Foo", vec![constant("Bar")]));
    assert!(!clause.could_match(&apply("Foo", vec![constant("Baz")])));
}

#[test]
fn variables_could_match_anything() {
    let clause = Clause::fact(&apply("Foo", vec![Leaf::bound(0)]));
    assert!(clause.could_match(&apply("Foo", vec![constant("Bar")])));
    assert!(clause.could_match(&apply("Foo", vec![Leaf::var(4)])));
    let goal = apply("Foo", vec![Leaf::var(0)]);
    assert!(Clause::fact(&apply("Foo", vec![constant("Bar")])).could_match(&goal));
    assert!(Leaf::var(1).could_match(&constant("Bar")));
    assert!(constant("Bar").could_match(&Leaf::bound(3)));
    assert!(Leaf::var(1).could_match(&Leaf::bound(1)));
}

#[test]
fn the_test_is_coarse() {
    let clause = Clause::fact(&apply("Eq", vec![Leaf::bound(0), Leaf::bound(0)]));
    assert!(clause.could_match(&apply("Eq", vec![constant("A"), constant("B")])));
}

#[test]
fn mismatch_deep_inside_is_found() {
    let vec_of = |inner: Leaf| Leaf::apply(&apply("Vec", vec![inner]));
    let clause = Clause::fact(&apply("Foo", vec![vec_of(vec_of(constant("A")))]));
    assert!(clause.could_match(&apply("Foo", vec![vec_of(vec_of(constant("A")))])));
    assert!(clause.could_match(&apply("Foo", vec![vec_of(Leaf::var(0))])));
    assert!(!clause.could_match(&apply("Foo", vec![vec_of(vec_of(constant("B")))])));
    assert!(!clause.could_match(&apply("Foo", vec![vec_of(constant("A"))])));
}

#[test]
fn later_arguments_are_looked_at_too() {
    let clause = Clause::fact(&apply("Pair", vec![constant("A"), constant("B")]));
    assert!(clause.could_match(&apply("Pair", vec![constant("A"), constant("B")])));
    assert!(!clause.could_match(&apply("Pair", vec![constant("A"), constant("C")])));
    assert!(!clause.could_match(&apply("Pair", vec![constant("C"), constant("B")])));
}

#[test]
fn surplus_arguments_inside_a_term_are_not_looked_at() {
    let one = Leaf::apply(&apply("Vec", vec![constant("A")]));
    let two = Leaf::apply(&apply("Vec", vec![constant("A"), constant("B")]));
    assert!(one.could_match(&two));
    assert!(two.could_match(&one));
    let other = Leaf::apply(&apply("Vec", vec![constant("C"), constant("B")]));
    assert!(!one.could_match(&other));
}

#[test]
fn skolemized_constants_match_by_counter() {
    let a = Application::new(Constant::skolem(1), &Vec::new());
    let b = Application::new(Constant::skolem(2), &Vec::new());
    assert!(a.could_match(&a.clone()));
    assert!(!a.could_match(&b));
    assert!(!a.could_match(&apply("Foo", Vec::new())));
}

#[test]
fn binders_and_condition_take_no_part() {
    let goal = apply("Foo", vec![constant("Bar")]);
    let bare = Clause::fact(&goal);
    let bound = Quantification::new(3, ClauseImplication::fact(&goal));
    let guarded = Quantification::new(
        0,
        ClauseImplication::implies(&Goal::leaf(&apply("Never", Vec::new())), &goal),
    );
    let other = apply("Baz", vec![constant("Bar")]);
    for clause in [&bare, &bound, &guarded] {
        assert!(clause.could_match(&goal));
        assert!(!clause.could_match(&other));
    }
}
