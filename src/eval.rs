//! The evaluator: a definition store and an environment-passing interpreter over binding
//! trees, with recursion through self-naming closures.
use vstd::prelude::*;
use crate::types::{ABT, Term, MatchCase, Reference, Id, Pattern};
use crate::value::{Value, Values, Bindings, Frame, EvalError};
use crate::pattern::{match_pattern, same_bytes};
use crate::builtins::{native_unary, native_binary, apply_unary, apply_binary, is_name};

verus! {

broadcast use vstd::std_specs::vec::group_vec_axioms;

/// The definitions that evaluation can load, each under the hash of its content, and the
/// empty text that `Text.empty` stands for.
pub struct Env {
    pub terms: Vec<(crate::types::Hash, ABT<Term>)>,
    pub empty_text: String,
}

/// The position of the first definition stored under hash `h`.
pub open spec fn find_def(defs: Seq<(crate::types::Hash, ABT<Term>)>, h: Seq<u8>) -> Option<int>
    decreases defs.len(),
{
    if defs.len() == 0 {
        None
    } else if defs[0].0@ == h {
        Some(0)
    } else {
        match find_def(defs.drop_first(), h) {
            Some(i) => Some(i + 1),
            None => None,
        }
    }
}

pub proof fn lemma_find_def_bounds(defs: Seq<(crate::types::Hash, ABT<Term>)>, h: Seq<u8>)
    ensures
        find_def(defs, h) matches Some(i) ==> 0 <= i < defs.len() && defs[i].0@ == h,
    decreases defs.len(),
{
    if defs.len() > 0 && defs[0].0@ != h {
        lemma_find_def_bounds(defs.drop_first(), h);
    }
}

impl Env {
    pub open spec fn wf(&self) -> bool {
        self.empty_text@ == Seq::<char>::empty()
    }

    /// A store with no definitions.
    pub fn new() -> (r: Env)
        ensures
            r.wf(),
            r.terms@.len() == 0,
    {
        Env { terms: Vec::new(), empty_text: String::new() }
    }

    /// Adds the definition `t` under hash `h`. An earlier definition under the same hash
    /// keeps precedence.
    pub fn add(&mut self, h: crate::types::Hash, t: ABT<Term>)
        ensures
            final(self).terms@ == old(self).terms@.push((h, t)),
            final(self).empty_text == old(self).empty_text,
    {
        self.terms.push((h, t));
    }

    /// The definition stored under `h`.
    pub open spec fn def_of<'a>(&'a self, h: Seq<u8>) -> Option<&'a ABT<Term>> {
        match find_def(self.terms@, h) {
            Some(i) => Some(&self.terms@[i].1),
            None => None,
        }
    }

    pub fn load<'a>(&'a self, h: &crate::types::Hash) -> (r: Option<&'a ABT<Term>>)
        ensures
            r == self.def_of(h@),
    {
        let mut i: usize = 0;
        assert(self.terms@.skip(0) =~= self.terms@);
        while i < self.terms.len()
            invariant
                i <= self.terms@.len(),
                find_def(self.terms@, h@) == match find_def(self.terms@.skip(i as int), h@) {
                    Some(j) => Some(j + i),
                    None => None::<int>,
                },
            decreases self.terms@.len() - i,
        {
            proof {
                lemma_find_def_bounds(self.terms@, h@);
                assert(self.terms@.skip(i as int).drop_first() =~= self.terms@.skip(i + 1));
            }
            if same_bytes(&self.terms[i].0.0, &h.0) {
                return Some(&self.terms[i].1);
            }
            i = i + 1;
        }
        proof {
            lemma_find_def_bounds(self.terms@, h@);
        }
        None
    }
}

/// The group of a recursive binding: its bindings and its body, found under the chain of
/// binders that names them.
pub open spec fn cycle_group<'a>(t: &'a ABT<Term>) -> Option<(&'a Vec<Box<ABT<Term>>>, &'a ABT<Term>)>
    decreases t,
{
    match t {
        ABT::Abs(_, rest) => match &**rest {
            ABT::Tm(Term::LetRec(_, things, body)) => Some((things, &**body)),
            _ => cycle_group(&**rest),
        },
        _ => None,
    }
}

/// The number of binders before a recursive group.
pub open spec fn cycle_len(t: &ABT<Term>) -> nat
    decreases t,
{
    match t {
        ABT::Abs(_, rest) => match &**rest {
            ABT::Tm(Term::LetRec(_, _, _)) => 1,
            _ => 1 + cycle_len(&**rest),
        },
        _ => 0,
    }
}

/// Evaluates `t` in frame `f`, nesting at most `fuel` evaluations deep.
pub open spec fn eval_abt<'a>(env: &'a Env, t: &'a ABT<Term>, f: Frame<'a>, fuel: nat) -> Result<
    Value<'a>,
    EvalError,
>
    decreases fuel, 0nat, 0nat,
{
    if fuel == 0 {
        Err(EvalError::OutOfFuel)
    } else {
        let k = (fuel - 1) as nat;
        match t {
            ABT::Var(sym) => match f.bindings.lookup(sym.text@) {
                Some(v) => Ok(v),
                None => Err(EvalError::UnboundVariable),
            },
            ABT::Cycle(inner) => match cycle_group(&**inner) {
                Some((things, body)) => if cycle_len(&**inner) == things.len() {
                    install(env, &**inner, things, body, 0, f, f, k)
                } else {
                    Err(EvalError::Malformed)
                },
                None => Err(EvalError::Malformed),
            },
            ABT::Abs(_, _) => Err(EvalError::Malformed),
            ABT::Tm(term) => eval_term(env, term, f, k),
        }
    }
}

/// Binds the functions of a recursive group, from binder `chain` (the `i`-th) on, each
/// under its own name and able to call itself by it; then evaluates the group's body.
/// Each binding is evaluated in the frame `outer` where the group stands.
pub open spec fn install<'a>(
    env: &'a Env,
    chain: &'a ABT<Term>,
    things: &'a Vec<Box<ABT<Term>>>,
    body: &'a ABT<Term>,
    i: int,
    outer: Frame<'a>,
    acc: Frame<'a>,
    fuel: nat,
) -> Result<Value<'a>, EvalError>
    decreases fuel, 1nat, (things.len() - i) as nat,
{
    if i < 0 || i >= things.len() {
        Err(EvalError::Malformed)
    } else {
        match chain {
            ABT::Abs(sym, rest) => match eval_abt(env, &*things[i], outer, fuel) {
                Ok(Value::ScopedFunction(b, fr)) => {
                    let acc2 = acc.bound(&sym.text, Value::CycleFunction(b, fr, &sym.text));
                    match &**rest {
                        ABT::Tm(Term::LetRec(_, _, _)) => eval_abt(env, body, acc2, fuel),
                        _ => install(env, &**rest, things, body, i + 1, outer, acc2, fuel),
                    }
                },
                Ok(_) => Err(EvalError::Malformed),
                Err(e) => Err(e),
            },
            _ => Err(EvalError::Malformed),
        }
    }
}

/// Evaluates the body `t` of a case with `bs` bound, in order, to the binders that open it.
pub open spec fn eval_with<'a>(env: &'a Env, t: &'a ABT<Term>, bs: Values<'a>, f: Frame<'a>, fuel: nat) -> Result<
    Value<'a>,
    EvalError,
>
    decreases fuel, 1nat, bs.len(),
{
    match bs {
        Values::Nil => eval_abt(env, t, f, fuel),
        Values::Cons(h, rest) => match t {
            ABT::Abs(sym, inner) => eval_with(env, &**inner, *rest, f.bound(&sym.text, *h), fuel),
            _ => Err(EvalError::Malformed),
        },
    }
}

/// The items of a sequence from the `i`-th on, evaluated in order.
pub open spec fn eval_items<'a>(env: &'a Env, items: &'a Vec<Box<ABT<Term>>>, i: int, f: Frame<'a>, fuel: nat) -> Result<
    Values<'a>,
    EvalError,
>
    decreases fuel, 1nat, (items.len() - i) as nat,
{
    if i < 0 || i >= items.len() {
        Ok(Values::Nil)
    } else {
        match eval_abt(env, &*items[i], f, fuel) {
            Err(e) => Err(e),
            Ok(v) => match eval_items(env, items, i + 1, f, fuel) {
                Err(e) => Err(e),
                Ok(rest) => Ok(Values::Cons(Box::new(v), Box::new(rest))),
            },
        }
    }
}

/// Whether pattern `p` with guard `g` selects `v`: the pattern's bindings when it matches
/// and the guard, evaluated with them, gives true.
pub open spec fn guarded_match<'a>(
    env: &'a Env,
    p: Pattern,
    g: &'a Option<Box<ABT<Term>>>,
    v: Value<'a>,
    f: Frame<'a>,
    fuel: nat,
) -> Result<Option<Values<'a>>, EvalError>
    decreases fuel, 2nat, 0nat,
{
    match match_pattern(p, v) {
        None => Ok(None),
        Some(bs) => match g {
            None => Ok(Some(bs)),
            Some(g) => match eval_with(env, &**g, bs, f, fuel) {
                Ok(Value::Boolean(true)) => Ok(Some(bs)),
                Ok(_) => Ok(None),
                Err(e) => Err(e),
            },
        },
    }
}

/// The first case from the `i`-th on whose pattern matches `v` and whose guard, if any,
/// gives true, evaluated with the pattern's bindings.
pub open spec fn eval_cases<'a>(
    env: &'a Env,
    cases: &'a Vec<MatchCase>,
    i: int,
    v: Value<'a>,
    f: Frame<'a>,
    fuel: nat,
) -> Result<Value<'a>, EvalError>
    decreases fuel, 3nat, (cases.len() - i) as nat,
{
    if i < 0 || i >= cases.len() {
        Err(EvalError::NoMatch)
    } else {
        let c = &cases[i];
        match guarded_match(env, c.0, &c.1, v, f, fuel) {
            Ok(None) => eval_cases(env, cases, i + 1, v, f, fuel),
            Ok(Some(bs)) => eval_with(env, &*c.2, bs, f, fuel),
            Err(e) => Err(e),
        }
    }
}

/// Applies the function value `g` to the argument term `x`, evaluated in `f`.
pub open spec fn apply<'a>(env: &'a Env, g: Value<'a>, x: &'a ABT<Term>, f: Frame<'a>, fuel: nat) -> Result<
    Value<'a>,
    EvalError,
>
    decreases fuel, 1nat, 0nat,
{
    match g {
        Value::Constructor(r, u) => match eval_abt(env, x, f, fuel) {
            Ok(a) => Ok(Value::PartialConstructor(r, u, Values::single(a))),
            Err(e) => Err(e),
        },
        Value::PartialConstructor(r, u, args) => match eval_abt(env, x, f, fuel) {
            Ok(a) => Ok(Value::PartialConstructor(r, u, args.append(Values::single(a)))),
            Err(e) => Err(e),
        },
        Value::PartialNativeApp(name, args) => match eval_abt(env, x, f, fuel) {
            Ok(a) => match args {
                Values::Cons(one, rest) => if *rest == Values::<'a>::Nil {
                    native_binary(name@, *one, a)
                } else {
                    Err(EvalError::BadOperands)
                },
                Values::Nil => Err(EvalError::BadOperands),
            },
            Err(e) => Err(e),
        },
        Value::Ref(r) => match r {
            Reference::Builtin(name) => match eval_abt(env, x, f, fuel) {
                Ok(a) => match native_unary(name@, a) {
                    Some(v) => Ok(v),
                    None => Ok(Value::PartialNativeApp(name, Values::single(a))),
                },
                Err(e) => Err(e),
            },
            _ => Err(EvalError::NotAFunction),
        },
        Value::CycleFunction(body, fr, self_name) => match body {
            ABT::Abs(name, inner) => match eval_abt(env, x, f, fuel) {
                Ok(a) => eval_abt(
                    env,
                    &**inner,
                    fr.bound(self_name, Value::CycleFunction(body, fr, self_name)).bound(&name.text, a),
                    fuel,
                ),
                Err(e) => Err(e),
            },
            _ => Err(EvalError::Malformed),
        },
        Value::ScopedFunction(body, fr) => match body {
            ABT::Abs(name, inner) => match eval_abt(env, x, f, fuel) {
                Ok(a) => eval_abt(env, &**inner, fr.bound(&name.text, a), fuel),
                Err(e) => Err(e),
            },
            _ => Err(EvalError::Malformed),
        },
        _ => Err(EvalError::NotAFunction),
    }
}

/// Both operands of `And` or `Or`, evaluated in order, as booleans.
pub open spec fn eval_bools<'a>(env: &'a Env, a: &'a ABT<Term>, b: &'a ABT<Term>, f: Frame<'a>, fuel: nat) -> Result<
    (bool, bool),
    EvalError,
>
    decreases fuel, 1nat, 0nat,
{
    match eval_abt(env, a, f, fuel) {
        Err(e) => Err(e),
        Ok(x) => match eval_abt(env, b, f, fuel) {
            Err(e) => Err(e),
            Ok(y) => match (x, y) {
                (Value::Boolean(p), Value::Boolean(q)) => Ok((p, q)),
                _ => Err(EvalError::BadOperands),
            },
        },
    }
}

pub open spec fn eval_term<'a>(env: &'a Env, t: &'a Term, f: Frame<'a>, fuel: nat) -> Result<
    Value<'a>,
    EvalError,
>
    decreases fuel, 4nat, 0nat,
{
    match t {
        Term::Int(i) => Ok(Value::Int(*i)),
        Term::Nat(n) => Ok(Value::Nat(*n)),
        Term::Float(w) => Ok(Value::Float(*w)),
        Term::Boolean(b) => Ok(Value::Boolean(*b)),
        Term::Text(s) => Ok(Value::Text(s)),
        Term::Char(c) => Ok(Value::Char(*c)),
        Term::Blank => Ok(Value::Blank),
        Term::TermLink(r) => Ok(Value::TermLink(r)),
        Term::TypeLink(r) => Ok(Value::TypeLink(r)),
        Term::Ref(r) => match r {
            Reference::DerivedId(Id(h, _, _)) => match env.def_of(h@) {
                Some(d) => eval_abt(env, d, Frame { origin: Some(h), bindings: Bindings::Empty }, fuel),
                None => Err(EvalError::TermNotFound),
            },
            Reference::Builtin(name) => if name@ == "Text.empty"@ {
                Ok(Value::Text(&env.empty_text))
            } else if name@ == "Sequence.empty"@ {
                Ok(Value::Sequence(Values::Nil))
            } else {
                Ok(Value::Ref(r))
            },
        },
        Term::Constructor(r, n) => Ok(Value::Constructor(r, *n)),
        Term::Request(_, _) | Term::Handle(_, _) | Term::LetRec(_, _, _) => Err(
            EvalError::Unimplemented,
        ),
        Term::Let(_, value, contents) => match &**contents {
            ABT::Abs(name, body) => match eval_abt(env, &**value, f, fuel) {
                Ok(v) => eval_abt(env, &**body, f.bound(&name.text, v), fuel),
                Err(e) => Err(e),
            },
            _ => Err(EvalError::Malformed),
        },
        Term::Match(scrutinee, cases) => match eval_abt(env, &**scrutinee, f, fuel) {
            Ok(v) => eval_cases(env, cases, 0, v, f, fuel),
            Err(e) => Err(e),
        },
        Term::Ann(inner, _) => eval_abt(env, &**inner, f, fuel),
        Term::Sequence(items) => match eval_items(env, items, 0, f, fuel) {
            Ok(vs) => Ok(Value::Sequence(vs)),
            Err(e) => Err(e),
        },
        Term::If(c, a, b) => match eval_abt(env, &**c, f, fuel) {
            Ok(Value::Boolean(true)) => eval_abt(env, &**a, f, fuel),
            Ok(Value::Boolean(false)) => eval_abt(env, &**b, f, fuel),
            Ok(_) => Err(EvalError::BadOperands),
            Err(e) => Err(e),
        },
        Term::And(a, b) => match eval_bools(env, &**a, &**b, f, fuel) {
            Ok((p, q)) => Ok(Value::Boolean(p && q)),
            Err(e) => Err(e),
        },
        Term::Or(a, b) => match eval_bools(env, &**a, &**b, f, fuel) {
            Ok((p, q)) => Ok(Value::Boolean(p || q)),
            Err(e) => Err(e),
        },
        Term::Lam(contents) => Ok(Value::ScopedFunction(&**contents, f)),
        Term::App(g, x) => match eval_abt(env, &**g, f, fuel) {
            Ok(gv) => apply(env, gv, &**x, f, fuel),
            Err(e) => Err(e),
        },
    }
}

fn find_cycle_group<'a>(t: &'a ABT<Term>) -> (r: Option<(&'a Vec<Box<ABT<Term>>>, &'a ABT<Term>)>)
    ensures
        r == cycle_group(t),
    decreases t,
{
    match t {
        ABT::Abs(_, rest) => match &**rest {
            ABT::Tm(Term::LetRec(_, things, body)) => Some((things, &**body)),
            _ => find_cycle_group(&**rest),
        },
        _ => None,
    }
}

fn chain_has_len(t: &ABT<Term>, n: usize) -> (r: bool)
    ensures
        r == (cycle_len(t) == n),
    decreases t,
{
    match t {
        ABT::Abs(_, rest) => match &**rest {
            ABT::Tm(Term::LetRec(_, _, _)) => n == 1,
            _ => n > 0 && chain_has_len(&**rest, n - 1),
        },
        _ => n == 0,
    }
}

fn install_exec<'a>(
    env: &'a Env,
    chain: &'a ABT<Term>,
    things: &'a Vec<Box<ABT<Term>>>,
    body: &'a ABT<Term>,
    i: usize,
    outer: &Frame<'a>,
    acc: Frame<'a>,
    fuel: u64,
) -> (r: Result<Value<'a>, EvalError>)
    ensures
        r == install(env, chain, things, body, i as int, *outer, acc, fuel as nat),
    decreases fuel, 1nat, (things.len() - i) as nat,
{
    if i >= things.len() {
        return Err(EvalError::Malformed);
    }
    match chain {
        ABT::Abs(sym, rest) => match things[i].eval(env, outer, fuel) {
            Ok(Value::ScopedFunction(b, fr)) => {
                let cf = Value::CycleFunction(b, fr, &sym.text);
                let acc2 = Frame {
                    origin: acc.origin,
                    bindings: Bindings::Bind(&sym.text, Box::new(cf), Box::new(acc.bindings)),
                };
                match &**rest {
                    ABT::Tm(Term::LetRec(_, _, _)) => body.eval(env, &acc2, fuel),
                    _ => install_exec(env, &**rest, things, body, i + 1, outer, acc2, fuel),
                }
            },
            Ok(_) => Err(EvalError::Malformed),
            Err(e) => Err(e),
        },
        _ => Err(EvalError::Malformed),
    }
}

fn eval_items_exec<'a>(
    env: &'a Env,
    items: &'a Vec<Box<ABT<Term>>>,
    i: usize,
    f: &Frame<'a>,
    fuel: u64,
) -> (r: Result<Values<'a>, EvalError>)
    ensures
        r == eval_items(env, items, i as int, *f, fuel as nat),
    decreases fuel, 1nat, (items.len() - i) as nat,
{
    if i >= items.len() {
        return Ok(Values::Nil);
    }
    let v = items[i].eval(env, f, fuel)?;
    let rest = eval_items_exec(env, items, i + 1, f, fuel)?;
    Ok(Values::Cons(Box::new(v), Box::new(rest)))
}

fn eval_cases_exec<'a>(
    env: &'a Env,
    cases: &'a Vec<MatchCase>,
    i: usize,
    v: &Value<'a>,
    f: &Frame<'a>,
    fuel: u64,
) -> (r: Result<Value<'a>, EvalError>)
    ensures
        r == eval_cases(env, cases, i as int, *v, *f, fuel as nat),
    decreases fuel, 3nat, (cases.len() - i) as nat,
{
    if i >= cases.len() {
        return Err(EvalError::NoMatch);
    }
    let c = &cases[i];
    match c.0.matches(v, &c.1, env, f, fuel)? {
        None => eval_cases_exec(env, cases, i + 1, v, f, fuel),
        Some(bs) => c.2.eval_with_bindings(env, f, bs, fuel),
    }
}

fn apply_exec<'a>(env: &'a Env, g: Value<'a>, x: &'a ABT<Term>, f: &Frame<'a>, fuel: u64) -> (r: Result<
    Value<'a>,
    EvalError,
>)
    ensures
        r == apply(env, g, x, *f, fuel as nat),
    decreases fuel, 1nat, 0nat,
{
    match g {
        Value::Constructor(r, u) => {
            let a = x.eval(env, f, fuel)?;
            Ok(Value::PartialConstructor(r, u, Values::Cons(Box::new(a), Box::new(Values::Nil))))
        },
        Value::PartialConstructor(r, u, args) => {
            let a = x.eval(env, f, fuel)?;
            Ok(
                Value::PartialConstructor(
                    r,
                    u,
                    args.concat(Values::Cons(Box::new(a), Box::new(Values::Nil))),
                ),
            )
        },
        Value::PartialNativeApp(name, args) => {
            let a = x.eval(env, f, fuel)?;
            match args {
                Values::Cons(one, rest) => match *rest {
                    Values::Nil => apply_binary(name, &one, &a),
                    _ => Err(EvalError::BadOperands),
                },
                Values::Nil => Err(EvalError::BadOperands),
            }
        },
        Value::Ref(r) => match r {
            Reference::Builtin(name) => {
                let a = x.eval(env, f, fuel)?;
                match apply_unary(name, &a) {
                    Some(v) => Ok(v),
                    None => Ok(
                        Value::PartialNativeApp(name, Values::Cons(Box::new(a), Box::new(Values::Nil))),
                    ),
                }
            },
            _ => Err(EvalError::NotAFunction),
        },
        Value::CycleFunction(body, fr, self_name) => match body {
            ABT::Abs(name, inner) => {
                let a = x.eval(env, f, fuel)?;
                let again = Value::CycleFunction(body, fr.copy(), self_name);
                let call = fr.with(self_name, again).with(&name.text, a);
                inner.eval(env, &call, fuel)
            },
            _ => Err(EvalError::Malformed),
        },
        Value::ScopedFunction(body, fr) => match body {
            ABT::Abs(name, inner) => {
                let a = x.eval(env, f, fuel)?;
                let call = fr.with(&name.text, a);
                inner.eval(env, &call, fuel)
            },
            _ => Err(EvalError::Malformed),
        },
        _ => Err(EvalError::NotAFunction),
    }
}

fn eval_bools_exec<'a>(env: &'a Env, a: &'a ABT<Term>, b: &'a ABT<Term>, f: &Frame<'a>, fuel: u64) -> (r:
    Result<(bool, bool), EvalError>)
    ensures
        r == eval_bools(env, a, b, *f, fuel as nat),
    decreases fuel, 1nat, 0nat,
{
    let x = a.eval(env, f, fuel)?;
    let y = b.eval(env, f, fuel)?;
    match (x, y) {
        (Value::Boolean(p), Value::Boolean(q)) => Ok((p, q)),
        _ => Err(EvalError::BadOperands),
    }
}

impl Pattern {
    /// Matches this pattern against `v` and then runs the guard, if any, with the
    /// bindings: the bindings when both succeed, `None` when either says no.
    pub fn matches<'a>(
        &self,
        v: &Value<'a>,
        guard: &'a Option<Box<ABT<Term>>>,
        env: &'a Env,
        f: &Frame<'a>,
        fuel: u64,
    ) -> (r: Result<Option<Values<'a>>, EvalError>)
        ensures
            r == guarded_match(env, *self, guard, *v, *f, fuel as nat),
        decreases fuel, 2nat, 0nat,
    {
        match self.match_(v) {
            None => Ok(None),
            Some(bs) => match guard {
                None => Ok(Some(bs)),
                Some(g) => match g.eval_with_bindings(env, f, bs.copy(), fuel)? {
                    Value::Boolean(true) => Ok(Some(bs)),
                    _ => Ok(None),
                },
            },
        }
    }
}

impl ABT<Term> {
    /// Evaluates this tree in frame `f`. Each nested evaluation takes one unit of `fuel`;
    /// evaluation that would nest deeper fails with `OutOfFuel`.
    pub fn eval<'a>(&'a self, env: &'a Env, f: &Frame<'a>, fuel: u64) -> (r: Result<Value<'a>, EvalError>)
        ensures
            r == eval_abt(env, self, *f, fuel as nat),
        decreases fuel, 0nat, 0nat,
    {
        if fuel == 0 {
            return Err(EvalError::OutOfFuel);
        }
        let k = fuel - 1;
        match self {
            ABT::Var(sym) => match f.lookup(&sym.text) {
                Some(v) => Ok(v),
                None => Err(EvalError::UnboundVariable),
            },
            ABT::Cycle(inner) => match find_cycle_group(&**inner) {
                Some((things, body)) => if chain_has_len(&**inner, things.len()) {
                    install_exec(env, &**inner, things, body, 0, f, f.copy(), k)
                } else {
                    Err(EvalError::Malformed)
                },
                None => Err(EvalError::Malformed),
            },
            ABT::Abs(_, _) => Err(EvalError::Malformed),
            ABT::Tm(term) => term.eval(env, f, k),
        }
    }

    /// Evaluates this case body with `bs` bound, in order, to the binders that open it.
    pub fn eval_with_bindings<'a>(&'a self, env: &'a Env, f: &Frame<'a>, bs: Values<'a>, fuel: u64) -> (r:
        Result<Value<'a>, EvalError>)
        ensures
            r == eval_with(env, self, bs, *f, fuel as nat),
        decreases fuel, 1nat, bs.len(),
    {
        match bs {
            Values::Nil => self.eval(env, f, fuel),
            Values::Cons(h, rest) => match self {
                ABT::Abs(sym, inner) => {
                    let next = f.with(&sym.text, *h);
                    inner.eval_with_bindings(env, &next, *rest, fuel)
                },
                _ => Err(EvalError::Malformed),
            },
        }
    }
}

impl Term {
    /// Evaluates this node in frame `f` (see `ABT::eval`).
    pub fn eval<'a>(&'a self, env: &'a Env, f: &Frame<'a>, fuel: u64) -> (r: Result<Value<'a>, EvalError>)
        ensures
            r == eval_term(env, self, *f, fuel as nat),
        decreases fuel, 4nat, 0nat,
    {
        match self {
            Term::Int(i) => Ok(Value::Int(*i)),
            Term::Nat(n) => Ok(Value::Nat(*n)),
            Term::Float(w) => Ok(Value::Float(*w)),
            Term::Boolean(b) => Ok(Value::Boolean(*b)),
            Term::Text(s) => Ok(Value::Text(s)),
            Term::Char(c) => Ok(Value::Char(*c)),
            Term::Blank => Ok(Value::Blank),
            Term::TermLink(r) => Ok(Value::TermLink(r)),
            Term::TypeLink(r) => Ok(Value::TypeLink(r)),
            Term::Ref(r) => match r {
                Reference::DerivedId(Id(h, _, _)) => match env.load(h) {
                    Some(d) => d.eval(env, &Frame::new(Some(h)), fuel),
                    None => Err(EvalError::TermNotFound),
                },
                Reference::Builtin(name) => if is_name(name, "Text.empty") {
                    Ok(Value::Text(&env.empty_text))
                } else if is_name(name, "Sequence.empty") {
                    Ok(Value::Sequence(Values::Nil))
                } else {
                    Ok(Value::Ref(r))
                },
            },
            Term::Constructor(r, n) => Ok(Value::Constructor(r, *n)),
            Term::Request(_, _) | Term::Handle(_, _) | Term::LetRec(_, _, _) => Err(
                EvalError::Unimplemented,
            ),
            Term::Let(_, value, contents) => match &**contents {
                ABT::Abs(name, body) => {
                    let v = value.eval(env, f, fuel)?;
                    body.eval(env, &f.with(&name.text, v), fuel)
                },
                _ => Err(EvalError::Malformed),
            },
            Term::Match(scrutinee, cases) => {
                let v = scrutinee.eval(env, f, fuel)?;
                eval_cases_exec(env, cases, 0, &v, f, fuel)
            },
            Term::Ann(inner, _) => inner.eval(env, f, fuel),
            Term::Sequence(items) => Ok(Value::Sequence(eval_items_exec(env, items, 0, f, fuel)?)),
            Term::If(c, a, b) => match c.eval(env, f, fuel)? {
                Value::Boolean(true) => a.eval(env, f, fuel),
                Value::Boolean(false) => b.eval(env, f, fuel),
                _ => Err(EvalError::BadOperands),
            },
            Term::And(a, b) => {
                let (p, q) = eval_bools_exec(env, &**a, &**b, f, fuel)?;
                Ok(Value::Boolean(p && q))
            },
            Term::Or(a, b) => {
                let (p, q) = eval_bools_exec(env, &**a, &**b, f, fuel)?;
                Ok(Value::Boolean(p || q))
            },
            Term::Lam(contents) => Ok(Value::ScopedFunction(&**contents, f.copy())),
            Term::App(g, x) => {
                let gv = g.eval(env, f, fuel)?;
                apply_exec(env, gv, &**x, f, fuel)
            },
        }
    }
}

/// A match whose cases from the `i`-th on all fail to match the scrutinee's value is an
/// exhaustion failure: no case is chosen by default.
pub proof fn lemma_no_case_matches<'a>(
    env: &'a Env,
    cases: &'a Vec<MatchCase>,
    i: int,
    v: Value<'a>,
    f: Frame<'a>,
    fuel: nat,
)
    requires
        0 <= i <= cases.len(),
        forall|j: int| i <= j < cases.len() ==> (#[trigger] match_pattern(cases[j].0, v)) is None,
    ensures
        eval_cases(env, cases, i, v, f, fuel) == Err::<Value<'a>, EvalError>(EvalError::NoMatch),
    decreases cases.len() - i,
{
    if i < cases.len() {
        assert(match_pattern(cases[i].0, v) is None);
        assert(guarded_match(env, cases[i].0, &cases[i].1, v, f, fuel) == Ok::<
            Option<Values<'a>>,
            EvalError,
        >(None));
        lemma_no_case_matches(env, cases, i + 1, v, f, fuel);
    }
}

} // verus!
