//! Matching values against patterns: literals, constructors, sequences and effects.
use vstd::prelude::*;
use crate::types::{Pattern, Reference, Id, SeqOp};
use crate::value::{Value, Values, same_text};

verus! {

broadcast use vstd::std_specs::vec::group_vec_axioms;

/// Whether two byte strings are equal.
pub fn same_bytes(a: &Vec<u8>, b: &Vec<u8>) -> (r: bool)
    ensures
        r == (a@ == b@),
{
    if a.len() != b.len() {
        return false;
    }
    let mut i: usize = 0;
    while i < a.len()
        invariant
            a@.len() == b@.len(),
            i <= a@.len(),
            a@.subrange(0, i as int) == b@.subrange(0, i as int),
        decreases a@.len() - i,
    {
        if a[i] != b[i] {
            assert(a@[i as int] != b@[i as int]);
            return false;
        }
        assert(a@.subrange(0, i + 1) =~= a@.subrange(0, i as int).push(a@[i as int]));
        assert(b@.subrange(0, i + 1) =~= b@.subrange(0, i as int).push(b@[i as int]));
        i = i + 1;
    }
    assert(a@ =~= a@.subrange(0, i as int));
    assert(b@ =~= b@.subrange(0, i as int));
    true
}

/// Whether two references name the same builtin or the same definition.
pub fn same_ref(a: &Reference, b: &Reference) -> (r: bool)
    ensures
        r == (a@ == b@),
{
    match (a, b) {
        (Reference::Builtin(x), Reference::Builtin(y)) => same_text(x, y),
        (Reference::DerivedId(Id(h1, i1, n1)), Reference::DerivedId(Id(h2, i2, n2))) => {
            same_bytes(&h1.0, &h2.0) && *i1 == *i2 && *n1 == *n2
        },
        _ => false,
    }
}

/// The sub-patterns `ps[i..]` matched one by one against `vs`, their bindings joined in
/// order. `None` if any of them fails.
pub open spec fn match_list<'a>(ps: Vec<Pattern>, i: int, vs: Values<'a>) -> Option<Values<'a>>
    decreases ps, 0nat, (ps.len() - i) as nat,
{
    if i < 0 || i >= ps.len() {
        Some(Values::Nil)
    } else {
        match vs {
            Values::Nil => None,
            Values::Cons(h, t) => match match_pattern(ps[i], *h) {
                None => None,
                Some(b) => match match_list(ps, i + 1, *t) {
                    None => None,
                    Some(rest) => Some(b.append(rest)),
                },
            },
        }
    }
}

/// Both halves of a split, for the sequence pattern `p` with sides `one` and `two`:
/// `one` against the sequence `front`, `two` against `back`.
pub open spec fn match_split<'a>(
    p: Pattern,
    one: Pattern,
    two: Pattern,
    front: Values<'a>,
    back: Values<'a>,
) -> Option<Values<'a>>
    decreases p, 0nat, 0nat,
{
    if p matches Pattern::SequenceOp(x, _, y) && *x == one && *y == two {
        match match_pattern(one, Value::Sequence(front)) {
            None => None,
            Some(a) => match match_pattern(two, Value::Sequence(back)) {
                None => None,
                Some(b) => Some(a.append(b)),
            },
        }
    } else {
        None
    }
}

/// A split of `front ++ back` whose sides match `one` and `two`, trying the split points
/// from left to right; the first that matches wins.
pub open spec fn match_leftmost<'a>(
    p: Pattern,
    one: Pattern,
    two: Pattern,
    front: Values<'a>,
    back: Values<'a>,
) -> Option<Values<'a>>
    decreases p, 1nat, back.len(),
{
    if p matches Pattern::SequenceOp(x, SeqOp::Concat, y) && *x == one && *y == two {
        match match_split(p, one, two, front, back) {
            Some(b) => Some(b),
            None => match back {
                Values::Nil => None,
                Values::Cons(h, t) => match_leftmost(
                    p,
                    one,
                    two,
                    front.append(Values::single(*h)),
                    *t,
                ),
            },
        }
    } else {
        None
    }
}

/// Whether `p` matches `v`, and if so the values it binds, left to right and depth first.
pub open spec fn match_pattern<'a>(p: Pattern, v: Value<'a>) -> Option<Values<'a>>
    decreases p, 3nat, 0nat,
{
    match p {
        Pattern::Unbound => Some(Values::Nil),
        Pattern::Var => Some(Values::single(v)),
        Pattern::Boolean(a) => if v == Value::<'a>::Boolean(a) {
            Some(Values::Nil)
        } else {
            None
        },
        Pattern::Int(a) => if v == Value::<'a>::Int(a) {
            Some(Values::Nil)
        } else {
            None
        },
        Pattern::Nat(a) => if v == Value::<'a>::Nat(a) {
            Some(Values::Nil)
        } else {
            None
        },
        Pattern::Float(a) => if v == Value::<'a>::Float(a) {
            Some(Values::Nil)
        } else {
            None
        },
        Pattern::Char(a) => if v == Value::<'a>::Char(a) {
            Some(Values::Nil)
        } else {
            None
        },
        Pattern::Text(a) => if v matches Value::Text(b) && a@ == b@ {
            Some(Values::Nil)
        } else {
            None
        },
        Pattern::As(inner) => match match_pattern(*inner, v) {
            None => None,
            Some(b) => Some(Values::Cons(Box::new(v), Box::new(b))),
        },
        Pattern::EffectPure(inner) => match v {
            Value::RequestPure(x) => match_pattern(*inner, *x),
            _ => None,
        },
        Pattern::EffectBind(r, n, args, k) => match v {
            Value::RequestWithContinuation(tr, tn, targs, tidx, tk) => if r@ == tr@ && n == tn
                && args.len() == targs.len() {
                match match_list(args, 0, targs) {
                    None => None,
                    Some(b) => match *k {
                        Pattern::Unbound => Some(b),
                        Pattern::Var => Some(b.append(Values::single(Value::Continuation(tidx, tk)))),
                        _ => None,
                    },
                }
            } else {
                None
            },
            _ => None,
        },
        Pattern::SequenceLiteral(ps) => match v {
            Value::Sequence(items) => if ps.len() == items.len() {
                match_list(ps, 0, items)
            } else {
                None
            },
            _ => None,
        },
        Pattern::SequenceOp(one, op, two) => match v {
            Value::Sequence(items) => match op {
                SeqOp::Cons => match items {
                    Values::Cons(h, t) => match match_pattern(*one, *h) {
                        None => None,
                        Some(a) => match match_pattern(*two, Value::Sequence(*t)) {
                            None => None,
                            Some(b) => Some(a.append(b)),
                        },
                    },
                    Values::Nil => None,
                },
                SeqOp::Snoc => if items.len() > 0 {
                    let k = items.len() - 1;
                    match match_pattern(*one, Value::Sequence(items.take(k))) {
                        None => None,
                        Some(a) => match match_pattern(*two, items.nth(k)) {
                            None => None,
                            Some(b) => Some(a.append(b)),
                        },
                    }
                } else {
                    None
                },
                SeqOp::Concat => match *one {
                    Pattern::SequenceLiteral(ps) => if items.len() >= ps.len() {
                        match_split(p, *one, *two, items.take(ps.len() as int), items.skip(ps.len() as int))
                    } else {
                        None
                    },
                    _ => match *two {
                        Pattern::SequenceLiteral(ps) => if items.len() >= ps.len() {
                            let k = items.len() - ps.len();
                            match_split(p, *one, *two, items.take(k), items.skip(k))
                        } else {
                            None
                        },
                        _ => match_leftmost(p, *one, *two, Values::Nil, items),
                    },
                },
            },
            _ => None,
        },
        Pattern::Constructor(r, n, children) => if children.len() > 0 {
            match v {
                Value::PartialConstructor(tr, tn, args) => if r@ == tr@ && n == tn && args.len()
                    == children.len() {
                    match_list(children, 0, args)
                } else {
                    None
                },
                _ => None,
            }
        } else {
            match v {
                Value::Constructor(tr, tn) => if r@ == tr@ && n == tn {
                    Some(Values::Nil)
                } else {
                    None
                },
                _ => None,
            }
        },
    }
}

/// Whether `vs` holds exactly `m` values.
fn has_len(vs: &Values, m: usize) -> (r: bool)
    ensures
        r == (vs.len() == m),
    decreases vs,
{
    match vs {
        Values::Nil => m == 0,
        Values::Cons(_, t) => m > 0 && has_len(t, m - 1),
    }
}

/// Whether `vs` holds at least `m` values.
fn has_at_least(vs: &Values, m: usize) -> (r: bool)
    ensures
        r == (vs.len() >= m),
    decreases vs,
{
    if m == 0 {
        return true;
    }
    match vs {
        Values::Nil => false,
        Values::Cons(_, t) => has_at_least(t, m - 1),
    }
}

/// `vs` split before its last `m` values, if it has that many.
fn split_back<'a>(vs: &Values<'a>, m: usize) -> (r: Option<(Values<'a>, Values<'a>)>)
    ensures
        vs.len() >= m ==> r == Some(
            (vs.take(vs.len() - m), vs.skip(vs.len() - m)),
        ),
        vs.len() < m ==> r is None,
    decreases vs,
{
    if has_len(vs, m) {
        return Some((Values::Nil, vs.copy()));
    }
    match vs {
        Values::Nil => None,
        Values::Cons(h, t) => match split_back(t, m) {
            None => None,
            Some((a, b)) => Some((Values::Cons(Box::new(h.copy()), Box::new(a)), b)),
        },
    }
}

proof fn lemma_skip_nth<'a>(vs: Values<'a>, k: int)
    requires
        0 <= k < vs.len(),
    ensures
        vs.skip(k) == Values::Cons(Box::new(vs.nth(k)), Box::new(vs.skip(k + 1))),
    decreases vs,
{
    if let Values::Cons(_, t) = vs {
        if k > 0 {
            lemma_skip_nth(*t, k - 1);
        }
    }
}

impl Pattern {
    fn match_list<'a>(ps: &Vec<Pattern>, i: usize, vs: &Values<'a>) -> (r: Option<Values<'a>>)
        requires
            i <= ps@.len(),
        ensures
            r == match_list(*ps, i as int, *vs),
        decreases *ps, 0nat, (ps.len() - i) as nat,
    {
        if i >= ps.len() {
            return Some(Values::Nil);
        }
        match vs {
            Values::Nil => None,
            Values::Cons(h, t) => {
                proof {
                    let pv = *ps;
                    assert(decreases_to!(pv => pv[i as int]));
                }
                match ps[i].match_(h) {
                    None => None,
                    Some(b) => match Pattern::match_list(ps, i + 1, t) {
                        None => None,
                        Some(rest) => Some(b.concat(rest)),
                    },
                }
            },
        }
    }

    fn match_split<'a>(&self, one: &Pattern, two: &Pattern, front: Values<'a>, back: Values<'a>) -> (r:
        Option<Values<'a>>)
        requires
            self matches Pattern::SequenceOp(x, _, y) && *x == *one && *y == *two,
        ensures
            r == match_split(*self, *one, *two, front, back),
        decreases *self, 0nat, 0nat,
    {
        match one.match_(&Value::Sequence(front)) {
            None => None,
            Some(a) => match two.match_(&Value::Sequence(back)) {
                None => None,
                Some(b) => Some(a.concat(b)),
            },
        }
    }

    fn match_leftmost<'a>(
        &self,
        one: &Pattern,
        two: &Pattern,
        front: Values<'a>,
        back: &Values<'a>,
    ) -> (r: Option<Values<'a>>)
        requires
            self matches Pattern::SequenceOp(x, SeqOp::Concat, y) && *x == *one && *y == *two,
        ensures
            r == match_leftmost(*self, *one, *two, front, *back),
        decreases *self, 1nat, back.len(),
    {
        match self.match_split(one, two, front.copy(), back.copy()) {
            Some(b) => Some(b),
            None => match back {
                Values::Nil => None,
                Values::Cons(h, t) => {
                    let next = front.concat(Values::Cons(Box::new(h.copy()), Box::new(Values::Nil)));
                    self.match_leftmost(one, two, next, t)
                },
            },
        }
    }

    /// Matches this pattern against `v`: `None` when it does not match, else the values it
    /// binds, in the order that the binders of the case's body expect them.
    pub fn match_<'a>(&self, v: &Value<'a>) -> (r: Option<Values<'a>>)
        ensures
            r == match_pattern(*self, *v),
        decreases *self, 3nat, 0nat,
    {
        match self {
            Pattern::Unbound => Some(Values::Nil),
            Pattern::Var => Some(Values::Cons(Box::new(v.copy()), Box::new(Values::Nil))),
            Pattern::Boolean(a) => match v {
                Value::Boolean(b) if *a == *b => Some(Values::Nil),
                _ => None,
            },
            Pattern::Int(a) => match v {
                Value::Int(b) if *a == *b => Some(Values::Nil),
                _ => None,
            },
            Pattern::Nat(a) => match v {
                Value::Nat(b) if *a == *b => Some(Values::Nil),
                _ => None,
            },
            Pattern::Float(a) => match v {
                Value::Float(b) if *a == *b => Some(Values::Nil),
                _ => None,
            },
            Pattern::Char(a) => match v {
                Value::Char(b) if *a == *b => Some(Values::Nil),
                _ => None,
            },
            Pattern::Text(a) => match v {
                Value::Text(b) if same_text(a, b) => Some(Values::Nil),
                _ => None,
            },
            Pattern::As(inner) => match inner.match_(v) {
                None => None,
                Some(b) => Some(Values::Cons(Box::new(v.copy()), Box::new(b))),
            },
            Pattern::EffectPure(inner) => match v {
                Value::RequestPure(x) => inner.match_(x),
                _ => None,
            },
            Pattern::EffectBind(r, n, args, k) => match v {
                Value::RequestWithContinuation(tr, tn, targs, tidx, tk) => {
                    if same_ref(r, tr) && *n == *tn && has_len(targs, args.len()) {
                        match Pattern::match_list(args, 0, targs) {
                            None => None,
                            Some(b) => match **k {
                                Pattern::Unbound => Some(b),
                                Pattern::Var => Some(
                                    b.concat(
                                        Values::Cons(
                                            Box::new(Value::Continuation(*tidx, Box::new(tk.copy()))),
                                            Box::new(Values::Nil),
                                        ),
                                    ),
                                ),
                                _ => None,
                            },
                        }
                    } else {
                        None
                    }
                },
                _ => None,
            },
            Pattern::SequenceLiteral(ps) => match v {
                Value::Sequence(items) => if has_len(items, ps.len()) {
                    Pattern::match_list(ps, 0, items)
                } else {
                    None
                },
                _ => None,
            },
            Pattern::SequenceOp(one, op, two) => match v {
                Value::Sequence(items) => match op {
                    SeqOp::Cons => match items {
                        Values::Cons(h, t) => match one.match_(h) {
                            None => None,
                            Some(a) => match two.match_(&Value::Sequence(t.copy())) {
                                None => None,
                                Some(b) => Some(a.concat(b)),
                            },
                        },
                        Values::Nil => None,
                    },
                    SeqOp::Snoc => match split_back(items, 1) {
                        None => None,
                        Some((front, back)) => {
                            proof {
                                lemma_skip_nth(*items, items.len() - 1);
                            }
                            match one.match_(&Value::Sequence(front)) {
                                None => None,
                                Some(a) => match back {
                                    Values::Cons(last, _) => match two.match_(&last) {
                                        None => None,
                                        Some(b) => Some(a.concat(b)),
                                    },
                                    Values::Nil => None,
                                },
                            }
                        },
                    },
                    SeqOp::Concat => match &**one {
                        Pattern::SequenceLiteral(ps) => if has_at_least(items, ps.len()) {
                            self.match_split(one, two, items.take_n(ps.len()), items.skip_n(ps.len()))
                        } else {
                            None
                        },
                        _ => match &**two {
                            Pattern::SequenceLiteral(ps) => match split_back(items, ps.len()) {
                                Some((front, back)) => self.match_split(one, two, front, back),
                                None => None,
                            },
                            _ => self.match_leftmost(one, two, Values::Nil, items),
                        },
                    },
                },
                _ => None,
            },
            Pattern::Constructor(r, n, children) => if children.len() > 0 {
                match v {
                    Value::PartialConstructor(tr, tn, args) => {
                        if same_ref(r, tr) && *n == *tn && has_len(args, children.len()) {
                            Pattern::match_list(children, 0, args)
                        } else {
                            None
                        }
                    },
                    _ => None,
                }
            } else {
                match v {
                    Value::Constructor(tr, tn) => if same_ref(r, tr) && *n == *tn {
                        Some(Values::Nil)
                    } else {
                        None
                    },
                    _ => None,
                }
            },
        }
    }
}

/// A constructor pattern with two sub-patterns, matched against the same constructor
/// applied to two values, binds what the first sub-pattern binds and then what the second
/// binds.
pub proof fn lemma_constructor_bindings_in_order<'a>(
    r: Reference,
    n: usize,
    ps: Vec<Pattern>,
    tr: &'a Reference,
    v0: Value<'a>,
    v1: Value<'a>,
    b0: Values<'a>,
    b1: Values<'a>,
)
    requires
        ps@.len() == 2,
        r@ == tr@,
        match_pattern(ps@[0], v0) == Some(b0),
        match_pattern(ps@[1], v1) == Some(b1),
    ensures
        match_pattern(
            Pattern::Constructor(r, n, ps),
            Value::PartialConstructor(
                tr,
                n,
                Values::Cons(Box::new(v0), Box::new(Values::single(v1))),
            ),
        ) == Some(b0.append(b1)),
{
    crate::value::lemma_append_nil(b1);
    let args = Values::Cons(Box::new(v0), Box::new(Values::single(v1)));
    assert(Values::single(v1).len() == 1);
    assert(args.len() == 2);
    assert(match_list(ps, 2, Values::Nil) == Some(Values::<'a>::Nil));
    assert(match_list(ps, 1, Values::single(v1)) == Some(b1));
    assert(match_list(ps, 0, args) == Some(b0.append(b1)));
}

/// `Cons` splits a sequence into its first value and the rest.
pub proof fn lemma_cons_splits_head<'a>(one: Pattern, two: Pattern, h: Value<'a>, t: Values<'a>, a: Values<'a>, b: Values<'a>)
    requires
        match_pattern(one, h) == Some(a),
        match_pattern(two, Value::Sequence(t)) == Some(b),
    ensures
        match_pattern(
            Pattern::SequenceOp(Box::new(one), SeqOp::Cons, Box::new(two)),
            Value::Sequence(Values::Cons(Box::new(h), Box::new(t))),
        ) == Some(a.append(b)),
{
}

/// `Cons` matches no empty sequence.
pub proof fn lemma_cons_rejects_empty<'a>(one: Pattern, two: Pattern)
    ensures
        match_pattern(
            Pattern::SequenceOp(Box::new(one), SeqOp::Cons, Box::new(two)),
            Value::<'a>::Sequence(Values::Nil),
        ) is None,
{
}

} // verus!
