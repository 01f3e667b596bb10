use unison_core::types::{Id, Pattern, Reference, SeqOp};
use unison_core::value::{Frame, Value, Values};

fn list<'a>(items: Vec<Value<'a>>) -> Values<'a> {
    let mut out = Values::Nil;
    for v in items.into_iter().rev() {
        out = Values::Cons(Box::new(v), Box::new(out));
    }
    out
}

fn ints(vs: &Values) -> Vec<i64> {
    let mut out = vec![];
    let mut cur = vs;
    while let Values::Cons(h, t) = cur {
        match **h {
            Value::Int(i) => out.push(i),
            _ => panic!("not an int"),
        }
        cur = t;
    }
    out
}

fn seq_ints(v: &Value) -> Vec<i64> {
    match v {
        Value::Sequence(vs) => ints(vs),
        _ => panic!("not a sequence"),
    }
}

fn nth<'a, 'b>(vs: &'b Values<'a>, i: usize) -> &'b Value<'a> {
    let mut cur = vs;
    let mut k = i;
    loop {
        match cur {
            Values::Cons(h, t) => {
                if k == 0 {
                    return h;
                }
                k -= 1;
                cur = t;
            }
            Values::Nil => panic!("too short"),
        }
    }
}

fn len(vs: &Values) -> usize {
    let mut n = 0;
    let mut cur = vs;
    while let Values::Cons(_, t) = cur {
        n += 1;
        cur = t;
    }
    n
}

fn seq_pattern(a: Pattern, op: SeqOp, b: Pattern) -> Pattern {
    Pattern::SequenceOp(Box::new(a), op, Box::new(b))
}

#[test]
fn cons_splits_head_and_tail() {
    let v = Value::Sequence(list(vec![Value::Int(1), Value::Int(2), Value::Int(3)]));
    let p = seq_pattern(Pattern::Var, SeqOp::Cons, Pattern::Var);
    let b = p.match_(&v).unwrap();
    assert_eq!(len(&b), 2);
    assert!(matches!(nth(&b, 0), Value::Int(1)));
    assert_eq!(seq_ints(nth(&b, 1)), vec![2, 3]);
}

#[test]
fn snoc_splits_init_and_last() {
    let v = Value::Sequence(list(vec![Value::Int(1), Value::Int(2), Value::Int(3)]));
    let p = seq_pattern(Pattern::Var, SeqOp::Snoc, Pattern::Var);
    let b = p.match_(&v).unwrap();
    assert_eq!(len(&b), 2);
    assert_eq!(seq_ints(nth(&b, 0)), vec![1, 2]);
    assert!(matches!(nth(&b, 1), Value::Int(3)));
}

#[test]
fn cons_and_snoc_reject_empty() {
    let v = Value::Sequence(Values::Nil);
    assert!(seq_pattern(Pattern::Var, SeqOp::Cons, Pattern::Var).match_(&v).is_none());
    assert!(seq_pattern(Pattern::Var, SeqOp::Snoc, Pattern::Var).match_(&v).is_none());
}

#[test]
fn concat_with_literal_front_splits_at_its_length() {
    let v = Value::Sequence(list(vec![Value::Int(1), Value::Int(2), Value::Int(3)]));
    let front = Pattern::SequenceLiteral(vec![Pattern::Int(1), Pattern::Var]);
    let b = seq_pattern(front, SeqOp::Concat, Pattern::Var).match_(&v).unwrap();
    assert_eq!(len(&b), 2);
    assert!(matches!(nth(&b, 0), Value::Int(2)));
    assert_eq!(seq_ints(nth(&b, 1)), vec![3]);
}

#[test]
fn concat_with_literal_back_splits_before_it() {
    let v = Value::Sequence(list(vec![Value::Int(1), Value::Int(2), Value::Int(3)]));
    let back = Pattern::SequenceLiteral(vec![Pattern::Var]);
    let b = seq_pattern(Pattern::Var, SeqOp::Concat, back).match_(&v).unwrap();
    assert_eq!(seq_ints(nth(&b, 0)), vec![1, 2]);
    assert!(matches!(nth(&b, 1), Value::Int(3)));
    let too_long = Pattern::SequenceLiteral(vec![Pattern::Var, Pattern::Var, Pattern::Var, Pattern::Var]);
    assert!(seq_pattern(Pattern::Var, SeqOp::Concat, too_long).match_(&v).is_none());
}

#[test]
fn concat_without_literal_takes_leftmost_split() {
    let v = Value::Sequence(list(vec![Value::Int(1), Value::Int(2)]));
    let b = seq_pattern(Pattern::Var, SeqOp::Concat, Pattern::Var).match_(&v).unwrap();
    assert_eq!(seq_ints(nth(&b, 0)), Vec::<i64>::new());
    assert_eq!(seq_ints(nth(&b, 1)), vec![1, 2]);
    // the first split whose left side is non-empty
    let nonempty = seq_pattern(Pattern::Var, SeqOp::Cons, Pattern::Unbound);
    let b = seq_pattern(nonempty, SeqOp::Concat, Pattern::Var).match_(&v).unwrap();
    assert!(matches!(nth(&b, 0), Value::Int(1)));
    assert_eq!(seq_ints(nth(&b, 1)), vec![2]);
}

#[test]
fn sequence_literal_needs_same_length() {
    let v = Value::Sequence(list(vec![Value::Int(1), Value::Int(2)]));
    let two = Pattern::SequenceLiteral(vec![Pattern::Var, Pattern::Int(2)]);
    assert_eq!(ints(&two.match_(&v).unwrap()), vec![1]);
    let three = Pattern::SequenceLiteral(vec![Pattern::Var, Pattern::Var, Pattern::Var]);
    assert!(three.match_(&v).is_none());
}

#[test]
fn constructor_bindings_in_order() {
    let r = Reference::Builtin("Optional".to_string());
    let pr = Reference::Builtin("Optional".to_string());
    let v = Value::PartialConstructor(&r, 1, list(vec![Value::Int(10), Value::Int(20)]));
    let p = Pattern::Constructor(pr, 1, vec![Pattern::Var, Pattern::As(Box::new(Pattern::Var))]);
    assert_eq!(ints(&p.match_(&v).unwrap()), vec![10, 20, 20]);
    // arity mismatch is no match
    let p1 = Pattern::Constructor(Reference::Builtin("Optional".to_string()), 1, vec![Pattern::Var]);
    assert!(p1.match_(&v).is_none());
    // another tag is no match
    let p2 = Pattern::Constructor(
        Reference::Builtin("Optional".to_string()),
        0,
        vec![Pattern::Var, Pattern::Var],
    );
    assert!(p2.match_(&v).is_none());
}

#[test]
fn nullary_constructor_compares_tag() {
    let r = Reference::DerivedId(Id(unison_core::types::Hash(vec![1, 2]), 0, 1));
    let v = Value::Constructor(&r, 0);
    let same = Pattern::Constructor(
        Reference::DerivedId(Id(unison_core::types::Hash(vec![1, 2]), 0, 1)),
        0,
        vec![],
    );
    assert_eq!(len(&same.match_(&v).unwrap()), 0);
    let other_tag = Pattern::Constructor(
        Reference::DerivedId(Id(unison_core::types::Hash(vec![1, 2]), 0, 1)),
        1,
        vec![],
    );
    assert!(other_tag.match_(&v).is_none());
}

#[test]
fn literal_patterns() {
    let t = "hi".to_string();
    assert!(Pattern::Int(3).match_(&Value::Int(3)).is_some());
    assert!(Pattern::Int(3).match_(&Value::Int(4)).is_none());
    assert!(Pattern::Int(3).match_(&Value::Nat(3)).is_none());
    assert!(Pattern::Nat(3).match_(&Value::Nat(3)).is_some());
    assert!(Pattern::Boolean(true).match_(&Value::Boolean(false)).is_none());
    assert!(Pattern::Char('x').match_(&Value::Char('x')).is_some());
    assert!(Pattern::Text("hi".to_string()).match_(&Value::Text(&t)).is_some());
    assert!(Pattern::Text("ho".to_string()).match_(&Value::Text(&t)).is_none());
    assert_eq!(len(&Pattern::Unbound.match_(&Value::Int(1)).unwrap()), 0);
}

#[test]
fn effect_patterns() {
    let pure = Value::RequestPure(Box::new(Value::Int(5)));
    assert_eq!(ints(&Pattern::EffectPure(Box::new(Pattern::Var)).match_(&pure).unwrap()), vec![5]);
    let r = Reference::Builtin("Ask".to_string());
    let req = Value::RequestWithContinuation(&r, 0, list(vec![Value::Int(7)]), 3, Box::new(Frame::new(None)));
    assert!(Pattern::EffectPure(Box::new(Pattern::Var)).match_(&req).is_none());
    let bind = Pattern::EffectBind(
        Reference::Builtin("Ask".to_string()),
        0,
        vec![Pattern::Var],
        Box::new(Pattern::Var),
    );
    let b = bind.match_(&req).unwrap();
    assert_eq!(len(&b), 2);
    assert!(matches!(nth(&b, 0), Value::Int(7)));
    assert!(matches!(nth(&b, 1), Value::Continuation(3, _)));
    let unbound = Pattern::EffectBind(
        Reference::Builtin("Ask".to_string()),
        0,
        vec![Pattern::Var],
        Box::new(Pattern::Unbound),
    );
    assert_eq!(len(&unbound.match_(&req).unwrap()), 1);
}
