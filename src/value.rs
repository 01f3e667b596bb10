//! Runtime values, frames of bindings, and an append-only value store.
use vstd::prelude::*;
use crate::types::{Reference, Referent, ABT, Term};

verus! {

/// A runtime value. Values borrow the terms they come from (texts, references, function
/// bodies) for `'a`, so a closure never copies code and never outlives it.
#[derive(Debug)]
pub enum Value<'a> {
    Int(i64),
    Nat(u64),
    Float(u64),
    Boolean(bool),
    Text(&'a String),
    Char(char),
    Blank,
    Ref(&'a Reference),
    Constructor(&'a Reference, usize),
    Request(&'a Reference, usize),
    TermLink(&'a Referent),
    TypeLink(&'a Reference),
    Sequence(Values<'a>),
    /// A constructor and the arguments given to it so far.
    PartialConstructor(&'a Reference, usize, Values<'a>),
    /// A builtin operator's name and the arguments given to it so far.
    PartialNativeApp(&'a String, Values<'a>),
    /// A lambda's body (a binder) and a snapshot of the frame that made it.
    ScopedFunction(&'a ABT<Term>, Frame<'a>),
    /// A function of a recursive group: as above, and the name it calls itself by.
    CycleFunction(&'a ABT<Term>, Frame<'a>, &'a String),
    /// The result of a computation that performed no request.
    RequestPure(Box<Value<'a>>),
    /// A suspended request: its ability, its operation, its arguments and the place and
    /// frame to resume at.
    RequestWithContinuation(&'a Reference, usize, Values<'a>, usize, Box<Frame<'a>>),
    /// A captured continuation: the place and frame to resume at.
    Continuation(usize, Box<Frame<'a>>),
}

/// Why an evaluation failed.
#[derive(PartialEq, Eq, Structural, Clone, Copy, Debug)]
pub enum EvalError {
    /// A variable that the active frame does not bind.
    UnboundVariable,
    /// A definition that the store does not hold.
    TermNotFound,
    /// A match none of whose cases matches its scrutinee.
    NoMatch,
    /// An application of a value that is not a function.
    NotAFunction,
    /// A builtin, condition or operator given operands it has no rule for.
    BadOperands,
    /// A division or remainder by zero, or one whose quotient does not fit.
    Arithmetic,
    /// A tree whose shape the evaluator cannot run (a binder where a term is due).
    Malformed,
    /// Effect handlers, requests, and recursive groups outside a cycle.
    Unimplemented,
    /// Evaluation nested deeper than its fuel allows.
    OutOfFuel,
}

/// An ordered list of values.
#[derive(Debug)]
pub enum Values<'a> {
    Nil,
    Cons(Box<Value<'a>>, Box<Values<'a>>),
}

/// Variable bindings, the most recent first.
#[derive(Debug)]
pub enum Bindings<'a> {
    Empty,
    Bind(&'a String, Box<Value<'a>>, Box<Bindings<'a>>),
}

/// One frame of evaluation: the definition whose code runs in it (none at the top) and
/// its variable bindings.
#[derive(Debug)]
pub struct Frame<'a> {
    pub origin: Option<&'a crate::types::Hash>,
    pub bindings: Bindings<'a>,
}

impl<'a> Values<'a> {
    pub open spec fn len(self) -> nat
        decreases self,
    {
        match self {
            Values::Nil => 0,
            Values::Cons(_, t) => 1 + t.len(),
        }
    }

    pub open spec fn nth(self, i: int) -> Value<'a>
        decreases self,
    {
        match self {
            Values::Nil => Value::Blank,
            Values::Cons(h, t) => if i <= 0 {
                *h
            } else {
                t.nth(i - 1)
            },
        }
    }

    pub open spec fn append(self, other: Values<'a>) -> Values<'a>
        decreases self,
    {
        match self {
            Values::Nil => other,
            Values::Cons(h, t) => Values::Cons(h, Box::new(t.append(other))),
        }
    }

    /// The first `k` values.
    pub open spec fn take(self, k: int) -> Values<'a>
        decreases self,
    {
        match self {
            Values::Nil => Values::Nil,
            Values::Cons(h, t) => if k <= 0 {
                Values::Nil
            } else {
                Values::Cons(h, Box::new(t.take(k - 1)))
            },
        }
    }

    /// All but the first `k` values.
    pub open spec fn skip(self, k: int) -> Values<'a>
        decreases self,
    {
        match self {
            Values::Nil => Values::Nil,
            Values::Cons(h, t) => if k <= 0 {
                self
            } else {
                t.skip(k - 1)
            },
        }
    }

    pub open spec fn single(v: Value<'a>) -> Values<'a> {
        Values::Cons(Box::new(v), Box::new(Values::Nil))
    }

    pub fn copy(&self) -> (r: Values<'a>)
        ensures
            r == *self,
        decreases self,
    {
        match self {
            Values::Nil => Values::Nil,
            Values::Cons(h, t) => Values::Cons(Box::new(h.copy()), Box::new(t.copy())),
        }
    }

    /// This list followed by `other`.
    pub fn concat(self, other: Values<'a>) -> (r: Values<'a>)
        ensures
            r == self.append(other),
        decreases self,
    {
        match self {
            Values::Nil => other,
            Values::Cons(h, t) => Values::Cons(h, Box::new((*t).concat(other))),
        }
    }

    pub fn take_n(&self, k: usize) -> (r: Values<'a>)
        ensures
            r == self.take(k as int),
        decreases self,
    {
        match self {
            Values::Nil => Values::Nil,
            Values::Cons(h, t) => if k == 0 {
                Values::Nil
            } else {
                Values::Cons(Box::new(h.copy()), Box::new(t.take_n(k - 1)))
            },
        }
    }

    pub fn skip_n(&self, k: usize) -> (r: Values<'a>)
        ensures
            r == self.skip(k as int),
        decreases self,
    {
        match self {
            Values::Nil => Values::Nil,
            Values::Cons(_, t) => if k == 0 {
                self.copy()
            } else {
                t.skip_n(k - 1)
            },
        }
    }
}

pub proof fn lemma_append_nil<'a>(a: Values<'a>)
    ensures
        a.append(Values::Nil) == a,
    decreases a,
{
    if let Values::Cons(_, t) = a {
        lemma_append_nil(*t);
    }
}



/// Whether two texts hold the same characters.
pub fn same_text(a: &String, b: &String) -> (r: bool)
    ensures
        r == (a@ == b@),
{
    a.eq(b)
}

impl<'a> Bindings<'a> {
    /// The value most recently bound to `name`.
    pub open spec fn lookup(self, name: Seq<char>) -> Option<Value<'a>>
        decreases self,
    {
        match self {
            Bindings::Empty => None,
            Bindings::Bind(n, v, rest) => if n@ == name {
                Some(*v)
            } else {
                rest.lookup(name)
            },
        }
    }

    pub fn copy(&self) -> (r: Bindings<'a>)
        ensures
            r == *self,
        decreases self,
    {
        match self {
            Bindings::Empty => Bindings::Empty,
            Bindings::Bind(n, v, rest) => Bindings::Bind(
                n,
                Box::new(v.copy()),
                Box::new(rest.copy()),
            ),
        }
    }

    pub fn get(&self, name: &String) -> (r: Option<Value<'a>>)
        ensures
            r == self.lookup(name@),
        decreases self,
    {
        match self {
            Bindings::Empty => None,
            Bindings::Bind(n, v, rest) => if same_text(n, name) {
                Some(v.copy())
            } else {
                rest.get(name)
            },
        }
    }
}

impl<'a> Frame<'a> {
    /// A frame with no bindings, for code of `origin`.
    pub fn new(origin: Option<&'a crate::types::Hash>) -> (r: Frame<'a>)
        ensures
            r.origin == origin,
            r.bindings == Bindings::<'a>::Empty,
    {
        Frame { origin, bindings: Bindings::Empty }
    }

    pub fn copy(&self) -> (r: Frame<'a>)
        ensures
            r == *self,
        decreases self,
    {
        Frame { origin: self.origin, bindings: self.bindings.copy() }
    }

    /// This frame with `name` bound to `v`.
    pub open spec fn bound(self, name: &'a String, v: Value<'a>) -> Frame<'a> {
        Frame { origin: self.origin, bindings: Bindings::Bind(name, Box::new(v), Box::new(self.bindings)) }
    }

    pub fn with(&self, name: &'a String, v: Value<'a>) -> (r: Frame<'a>)
        ensures
            r == self.bound(name, v),
    {
        Frame { origin: self.origin, bindings: Bindings::Bind(name, Box::new(v), Box::new(self.bindings.copy())) }
    }

    /// The value that `name` stands for in this frame.
    pub fn lookup(&self, name: &String) -> (r: Option<Value<'a>>)
        ensures
            r == self.bindings.lookup(name@),
    {
        self.bindings.get(name)
    }
}

impl<'a> Value<'a> {
    pub fn copy(&self) -> (r: Value<'a>)
        ensures
            r == *self,
        decreases self,
    {
        match self {
            Value::Int(i) => Value::Int(*i),
            Value::Nat(n) => Value::Nat(*n),
            Value::Float(w) => Value::Float(*w),
            Value::Boolean(b) => Value::Boolean(*b),
            Value::Text(s) => Value::Text(s),
            Value::Char(c) => Value::Char(*c),
            Value::Blank => Value::Blank,
            Value::Ref(r) => Value::Ref(r),
            Value::Constructor(r, n) => Value::Constructor(r, *n),
            Value::Request(r, n) => Value::Request(r, *n),
            Value::TermLink(r) => Value::TermLink(r),
            Value::TypeLink(r) => Value::TypeLink(r),
            Value::Sequence(vs) => Value::Sequence(vs.copy()),
            Value::PartialConstructor(r, n, vs) => Value::PartialConstructor(r, *n, vs.copy()),
            Value::PartialNativeApp(s, vs) => Value::PartialNativeApp(s, vs.copy()),
            Value::ScopedFunction(b, f) => Value::ScopedFunction(b, f.copy()),
            Value::CycleFunction(b, f, s) => Value::CycleFunction(b, f.copy(), s),
            Value::RequestPure(v) => Value::RequestPure(Box::new(v.copy())),
            Value::RequestWithContinuation(r, n, vs, i, f) => Value::RequestWithContinuation(
                r,
                *n,
                vs.copy(),
                *i,
                Box::new(f.copy()),
            ),
            Value::Continuation(i, f) => Value::Continuation(*i, Box::new(f.copy())),
        }
    }
}

/// An append-only store of values, addressed by the position each was put at.
pub struct GC<'a> {
    values: Vec<Value<'a>>,
}

impl<'a> GC<'a> {
    /// The values stored so far, in the order they were put.
    pub closed spec fn stored(&self) -> Seq<Value<'a>> {
        self.values@
    }

    pub fn new() -> (r: GC<'a>)
        ensures
            r.stored() == Seq::<Value<'a>>::empty(),
    {
        GC { values: Vec::new() }
    }

    /// Stores `v` and returns its position.
    pub fn put(&mut self, v: Value<'a>) -> (r: usize)
        ensures
            final(self).stored() == old(self).stored().push(v),
            r == old(self).stored().len(),
    {
        self.values.push(v);
        self.values.len() - 1
    }

    /// The value stored at position `n`.
    pub fn get(&self, n: usize) -> (r: &Value<'a>)
        requires
            n < self.stored().len(),
        ensures
            *r == self.stored()[n as int],
    {
        &self.values[n]
    }
}

} // verus!
