use unison_core::eval::Env;
use unison_core::types::{Id, MatchCase, Pattern, Reference, Symbol, Term, ABT};
use unison_core::value::{EvalError, Frame, Value, Values};

fn sym(t: &str) -> Symbol {
    Symbol { num: 0, text: t.to_string() }
}
fn var(t: &str) -> ABT<Term> {
    ABT::Var(sym(t))
}
fn tm(t: Term) -> ABT<Term> {
    ABT::Tm(t)
}
fn int_lit(n: i64) -> ABT<Term> {
    tm(Term::Int(n))
}
fn nat_lit(n: u64) -> ABT<Term> {
    tm(Term::Nat(n))
}
fn boolean(b: bool) -> ABT<Term> {
    tm(Term::Boolean(b))
}
fn builtin(name: &str) -> ABT<Term> {
    tm(Term::Ref(Reference::Builtin(name.to_string())))
}
fn app(f: ABT<Term>, x: ABT<Term>) -> ABT<Term> {
    tm(Term::App(Box::new(f), Box::new(x)))
}
fn app2(f: ABT<Term>, x: ABT<Term>, y: ABT<Term>) -> ABT<Term> {
    app(app(f, x), y)
}
fn lam(x: &str, body: ABT<Term>) -> ABT<Term> {
    tm(Term::Lam(Box::new(ABT::Abs(sym(x), Box::new(body)))))
}
fn let_in(x: &str, value: ABT<Term>, body: ABT<Term>) -> ABT<Term> {
    tm(Term::Let(false, Box::new(value), Box::new(ABT::Abs(sym(x), Box::new(body)))))
}
fn if_then(c: ABT<Term>, a: ABT<Term>, b: ABT<Term>) -> ABT<Term> {
    tm(Term::If(Box::new(c), Box::new(a), Box::new(b)))
}

fn run<'a>(env: &'a Env, t: &'a ABT<Term>) -> Result<Value<'a>, EvalError> {
    t.eval(env, &Frame::new(None), 1000)
}

fn run_int(t: &ABT<Term>) -> Result<i64, EvalError> {
    let env = Env::new();
    match run(&env, t)? {
        Value::Int(i) => Ok(i),
        _ => Err(EvalError::BadOperands),
    }
}

fn run_bool(t: &ABT<Term>) -> Result<bool, EvalError> {
    let env = Env::new();
    match run(&env, t)? {
        Value::Boolean(b) => Ok(b),
        _ => Err(EvalError::BadOperands),
    }
}

fn factorial_program(n: i64) -> ABT<Term> {
    let body = if_then(
        app2(builtin("Int.=="), var("n"), int_lit(0)),
        int_lit(1),
        app2(
            builtin("Int.*"),
            var("n"),
            app(var("fac"), app2(builtin("Int.-"), var("n"), int_lit(1))),
        ),
    );
    let group = tm(Term::LetRec(false, vec![Box::new(lam("n", body))], Box::new(app(var("fac"), int_lit(n)))));
    ABT::Cycle(Box::new(ABT::Abs(sym("fac"), Box::new(group))))
}

#[test]
fn recursive_factorial_of_five() {
    assert_eq!(run_int(&factorial_program(5)), Ok(120));
    assert_eq!(run_int(&factorial_program(0)), Ok(1));
}

#[test]
fn recursion_runs_out_of_fuel() {
    let t = factorial_program(100000);
    let env = Env::new();
    assert_eq!(t.eval(&env, &Frame::new(None), 200).err(), Some(EvalError::OutOfFuel));
    assert_eq!(int_lit(1).eval(&env, &Frame::new(None), 0).err(), Some(EvalError::OutOfFuel));
}

#[test]
fn int_plus_zero_is_identity() {
    for a in [0i64, 1, -1, 42, i64::MAX, i64::MIN] {
        assert_eq!(run_int(&app2(builtin("Int.+"), int_lit(a), int_lit(0))), Ok(a));
    }
}

#[test]
fn universal_equality_is_reflexive() {
    let samples = vec![int_lit(-3), nat_lit(7), boolean(true), tm(Term::Char('q')), tm(Term::Text("t".to_string()))];
    for s in samples {
        let copy = match &s {
            ABT::Tm(Term::Int(i)) => int_lit(*i),
            ABT::Tm(Term::Nat(n)) => nat_lit(*n),
            ABT::Tm(Term::Boolean(b)) => boolean(*b),
            ABT::Tm(Term::Char(c)) => tm(Term::Char(*c)),
            ABT::Tm(Term::Text(t)) => tm(Term::Text(t.clone())),
            _ => unreachable!(),
        };
        assert_eq!(run_bool(&app2(builtin("Universal.=="), s, copy)), Ok(true));
    }
    assert_eq!(run_bool(&app2(builtin("Universal.=="), int_lit(1), int_lit(2))), Ok(false));
}

#[test]
fn arithmetic_table() {
    assert_eq!(run_int(&app2(builtin("Int.-"), int_lit(3), int_lit(10))), Ok(-7));
    assert_eq!(run_int(&app2(builtin("Int.*"), int_lit(6), int_lit(7))), Ok(42));
    assert_eq!(run_int(&app2(builtin("Int./"), int_lit(-7), int_lit(2))), Ok(-3));
    assert_eq!(run_int(&app2(builtin("Int.mod"), int_lit(-7), int_lit(2))), Ok(-1));
    assert_eq!(run_int(&app2(builtin("Int.pow"), int_lit(3), nat_lit(4))), Ok(81));
    assert_eq!(run_int(&app2(builtin("Int.+"), int_lit(i64::MAX), int_lit(1))), Ok(i64::MIN));
    assert_eq!(run_int(&app(builtin("Int.negate"), int_lit(5))), Ok(-5));
    assert_eq!(run_int(&app(builtin("Int.increment"), int_lit(5))), Ok(6));
    assert_eq!(run_int(&app(builtin("Nat.toInt"), nat_lit(9))), Ok(9));
    assert_eq!(run_int(&app2(builtin("Universal.compare"), int_lit(1), int_lit(2))), Ok(-1));
    assert_eq!(run_int(&app2(builtin("Universal.compare"), nat_lit(2), nat_lit(2))), Ok(0));
    assert_eq!(run_bool(&app(builtin("Int.isEven"), int_lit(4))), Ok(true));
    assert_eq!(run_bool(&app(builtin("Int.isOdd"), int_lit(-3))), Ok(false));
    assert_eq!(run_bool(&app(builtin("Boolean.not"), boolean(true))), Ok(false));
    assert_eq!(run_bool(&app2(builtin("Int.<"), int_lit(1), int_lit(2))), Ok(true));
    assert_eq!(run_bool(&app2(builtin("Universal.>"), tm(Term::Char('b')), tm(Term::Char('a')))), Ok(true));
    let env = Env::new();
    let t = app2(builtin("Nat.+"), nat_lit(2), nat_lit(3));
    assert!(matches!(run(&env, &t), Ok(Value::Nat(5))));
    let t = app(builtin("Nat.increment"), nat_lit(u64::MAX));
    assert!(matches!(run(&env, &t), Ok(Value::Nat(0))));
    let t = app2(builtin("Nat.shiftLeft"), nat_lit(8), nat_lit(1));
    assert!(matches!(run(&env, &t), Ok(Value::Nat(4))));
}

#[test]
fn arithmetic_errors() {
    assert_eq!(run_int(&app2(builtin("Int./"), int_lit(1), int_lit(0))), Err(EvalError::Arithmetic));
    assert_eq!(run_int(&app2(builtin("Int.+"), int_lit(1), nat_lit(0))), Err(EvalError::BadOperands));
    assert_eq!(run_int(&app2(builtin("No.such"), int_lit(1), int_lit(0))), Err(EvalError::BadOperands));
}

#[test]
fn partial_builtin_waits_for_its_argument() {
    let env = Env::new();
    let t = app(builtin("Int.+"), int_lit(1));
    match run(&env, &t) {
        Ok(Value::PartialNativeApp(name, Values::Cons(_, _))) => assert_eq!(name, "Int.+"),
        _ => panic!("expected a partial application"),
    }
    let t = builtin("Int.+");
    assert!(matches!(run(&env, &t), Ok(Value::Ref(_))));
}

#[test]
fn closures_capture_their_frame() {
    let t = let_in("y", int_lit(10), app(lam("x", app2(builtin("Int.+"), var("x"), var("y"))), int_lit(5)));
    assert_eq!(run_int(&t), Ok(15));
}

#[test]
fn let_binds_in_order() {
    let t = let_in("x", int_lit(1), let_in("x", int_lit(2), var("x")));
    assert_eq!(run_int(&t), Ok(2));
}

#[test]
fn and_or_and_conditionals() {
    let t = tm(Term::And(Box::new(boolean(true)), Box::new(boolean(false))));
    assert_eq!(run_bool(&t), Ok(false));
    let t = tm(Term::Or(Box::new(boolean(true)), Box::new(boolean(false))));
    assert_eq!(run_bool(&t), Ok(true));
    assert_eq!(run_int(&if_then(boolean(false), int_lit(1), int_lit(2))), Ok(2));
    assert_eq!(run_int(&if_then(int_lit(0), int_lit(1), int_lit(2))), Err(EvalError::BadOperands));
}

#[test]
fn sequences_evaluate_in_order() {
    let env = Env::new();
    let t = tm(Term::Sequence(vec![Box::new(int_lit(1)), Box::new(app2(builtin("Int.+"), int_lit(2), int_lit(3)))]));
    match run(&env, &t) {
        Ok(Value::Sequence(Values::Cons(a, rest))) => {
            assert!(matches!(*a, Value::Int(1)));
            match *rest {
                Values::Cons(b, tail) => {
                    assert!(matches!(*b, Value::Int(5)));
                    assert!(matches!(*tail, Values::Nil));
                }
                Values::Nil => panic!("too short"),
            }
        }
        _ => panic!("expected a sequence"),
    }
    assert!(matches!(run(&env, &builtin("Sequence.empty")), Ok(Value::Sequence(Values::Nil))));
    match run(&env, &builtin("Text.empty")) {
        Ok(Value::Text(t)) => assert_eq!(t, ""),
        _ => panic!("expected text"),
    }
}

fn two_tag_match(tag: usize) -> ABT<Term> {
    let r = Reference::Builtin("Switch".to_string());
    let case = MatchCase(
        Pattern::Constructor(Reference::Builtin("Switch".to_string()), 0, vec![]),
        None,
        Box::new(int_lit(1)),
    );
    tm(Term::Match(Box::new(tm(Term::Constructor(r, tag))), vec![case]))
}

#[test]
fn match_exhaustion_is_an_error() {
    assert_eq!(run_int(&two_tag_match(0)), Ok(1));
    assert_eq!(run_int(&two_tag_match(1)), Err(EvalError::NoMatch));
}

#[test]
fn match_binds_and_guards() {
    let r = Reference::Builtin("Pair".to_string());
    let scrutinee = app2(tm(Term::Constructor(r, 0)), int_lit(3), int_lit(4));
    let pat = || Pattern::Constructor(Reference::Builtin("Pair".to_string()), 0, vec![Pattern::Var, Pattern::Var]);
    let body = || {
        ABT::Abs(sym("a"), Box::new(ABT::Abs(sym("b"), Box::new(app2(builtin("Int.-"), var("a"), var("b"))))))
    };
    let guard_false = ABT::Abs(sym("a"), Box::new(ABT::Abs(sym("b"), Box::new(boolean(false)))));
    let cases = vec![
        MatchCase(pat(), Some(Box::new(guard_false)), Box::new(int_lit(100))),
        MatchCase(pat(), None, Box::new(body())),
    ];
    let t = tm(Term::Match(Box::new(scrutinee), cases));
    assert_eq!(run_int(&t), Ok(-1));
}

#[test]
fn definitions_load_from_the_store() {
    let mut env = Env::new();
    env.add(unison_core::types::Hash(vec![9, 9]), app2(builtin("Int.*"), int_lit(6), int_lit(7)));
    let t = tm(Term::Ref(Reference::DerivedId(Id(unison_core::types::Hash(vec![9, 9]), 0, 1))));
    match run(&env, &t) {
        Ok(Value::Int(42)) => {}
        _ => panic!("expected 42"),
    }
    let missing = tm(Term::Ref(Reference::DerivedId(Id(unison_core::types::Hash(vec![1]), 0, 1))));
    assert_eq!(run(&env, &missing).err(), Some(EvalError::TermNotFound));
}

#[test]
fn evaluation_errors() {
    assert_eq!(run_int(&var("nope")), Err(EvalError::UnboundVariable));
    assert_eq!(run_int(&app(int_lit(1), int_lit(2))), Err(EvalError::NotAFunction));
    assert_eq!(run_int(&ABT::Abs(sym("x"), Box::new(int_lit(1)))), Err(EvalError::Malformed));
    let handle = tm(Term::Handle(Box::new(int_lit(1)), Box::new(int_lit(2))));
    assert_eq!(run_int(&handle), Err(EvalError::Unimplemented));
}

#[test]
fn arena_hands_back_what_was_put() {
    let mut gc = unison_core::value::GC::new();
    assert_eq!(gc.put(Value::Int(4)), 0);
    assert_eq!(gc.put(Value::Boolean(true)), 1);
    assert!(matches!(gc.get(0), Value::Int(4)));
    assert!(matches!(gc.get(1), Value::Boolean(true)));
}

#[test]
fn texts_compare_character_by_character() {
    let text = |t: &str| tm(Term::Text(t.to_string()));
    assert_eq!(run_int(&app2(builtin("Universal.compare"), text("abc"), text("abd"))), Ok(-1));
    assert_eq!(run_int(&app2(builtin("Universal.compare"), text("ab"), text("a"))), Ok(1));
    assert_eq!(run_int(&app2(builtin("Universal.compare"), text(""), text(""))), Ok(0));
    assert_eq!(run_bool(&app2(builtin("Universal.<="), text("b"), text("ab"))), Ok(false));
}
