//! The term model: symbols, references, patterns, types and terms as binding trees, with
//! the views that the decoder's contracts are stated over.
use vstd::prelude::*;

verus! {

broadcast use vstd::std_specs::vec::group_vec_axioms;

/// A variable identity: a disambiguating number and its display text.
#[derive(Clone, Debug)]
pub struct Symbol {
    pub num: usize,
    pub text: String,
}

pub struct SymbolV {
    pub num: usize,
    pub text: Seq<char>,
}

impl View for Symbol {
    type V = SymbolV;

    open spec fn view(&self) -> SymbolV {
        SymbolV { num: self.num, text: self.text@ }
    }
}

impl Symbol {
    /// An exact copy of the symbol.
    pub fn copy(&self) -> (r: Symbol)
        ensures
            r == *self,
    {
        Symbol { num: self.num, text: self.text.clone() }
    }
}

#[derive(PartialEq, Eq, Structural, Clone, Copy, Debug)]
pub enum ConstructorType {
    Data,
    Effect,
}

/// The raw bytes of a content hash.
#[derive(Clone, Debug)]
pub struct Hash(pub Vec<u8>);

impl View for Hash {
    type V = Seq<u8>;

    open spec fn view(&self) -> Seq<u8> {
        self.0@
    }
}

/// One definition inside a hash group: the hash, its position and the group's size.
#[derive(Clone, Debug)]
pub struct Id(pub Hash, pub usize, pub usize);

#[derive(Clone, Debug)]
pub enum Reference {
    Builtin(String),
    DerivedId(Id),
}

pub enum ReferenceV {
    Builtin(Seq<char>),
    DerivedId(Seq<u8>, usize, usize),
}

impl View for Reference {
    type V = ReferenceV;

    open spec fn view(&self) -> ReferenceV {
        match self {
            Reference::Builtin(s) => ReferenceV::Builtin(s@),
            Reference::DerivedId(Id(h, i, n)) => ReferenceV::DerivedId(h@, *i, *n),
        }
    }
}

#[derive(Clone, Debug)]
pub enum Referent {
    Ref(Reference),
    Con(Reference, usize, ConstructorType),
}

pub enum ReferentV {
    Ref(ReferenceV),
    Con(ReferenceV, usize, ConstructorType),
}

impl View for Referent {
    type V = ReferentV;

    open spec fn view(&self) -> ReferentV {
        match self {
            Referent::Ref(r) => ReferentV::Ref(r@),
            Referent::Con(r, n, c) => ReferentV::Con(r@, *n, *c),
        }
    }
}

#[derive(PartialEq, Eq, Structural, Clone, Copy, Debug)]
pub enum SeqOp {
    Cons,
    Snoc,
    Concat,
}

#[derive(Debug)]
pub enum Kind {
    Star,
    Arrow(Box<Kind>, Box<Kind>),
}

/// A pattern of a match case. A float literal is held as the 64-bit word that the wire
/// format carries for it.
#[derive(Debug)]
pub enum Pattern {
    Unbound,
    Var,
    Boolean(bool),
    Int(i64),
    Nat(u64),
    Float(u64),
    Text(String),
    Char(char),
    Constructor(Reference, usize, Vec<Pattern>),
    As(Box<Pattern>),
    EffectPure(Box<Pattern>),
    EffectBind(Reference, usize, Vec<Pattern>, Box<Pattern>),
    SequenceLiteral(Vec<Pattern>),
    SequenceOp(Box<Pattern>, SeqOp, Box<Pattern>),
}

pub enum PatternV {
    Unbound,
    Var,
    Boolean(bool),
    Int(i64),
    Nat(u64),
    Float(u64),
    Text(Seq<char>),
    Char(char),
    Constructor(ReferenceV, usize, Seq<PatternV>),
    As(Box<PatternV>),
    EffectPure(Box<PatternV>),
    EffectBind(ReferenceV, usize, Seq<PatternV>, Box<PatternV>),
    SequenceLiteral(Seq<PatternV>),
    SequenceOp(Box<PatternV>, SeqOp, Box<PatternV>),
}

pub open spec fn patterns_v(v: Vec<Pattern>) -> Seq<PatternV>
    decreases v,
{
    Seq::new(v@.len(), |i: int| if 0 <= i < v.len() { pattern_v(v[i]) } else { PatternV::Unbound })
}

pub open spec fn pattern_v(p: Pattern) -> PatternV
    decreases p,
{
    match p {
        Pattern::Unbound => PatternV::Unbound,
        Pattern::Var => PatternV::Var,
        Pattern::Boolean(b) => PatternV::Boolean(b),
        Pattern::Int(i) => PatternV::Int(i),
        Pattern::Nat(n) => PatternV::Nat(n),
        Pattern::Float(w) => PatternV::Float(w),
        Pattern::Text(s) => PatternV::Text(s@),
        Pattern::Char(c) => PatternV::Char(c),
        Pattern::Constructor(r, n, ps) => PatternV::Constructor(r@, n, patterns_v(ps)),
        Pattern::As(p) => PatternV::As(Box::new(pattern_v(*p))),
        Pattern::EffectPure(p) => PatternV::EffectPure(Box::new(pattern_v(*p))),
        Pattern::EffectBind(r, n, ps, k) => PatternV::EffectBind(
            r@,
            n,
            patterns_v(ps),
            Box::new(pattern_v(*k)),
        ),
        Pattern::SequenceLiteral(ps) => PatternV::SequenceLiteral(patterns_v(ps)),
        Pattern::SequenceOp(a, op, b) => PatternV::SequenceOp(
            Box::new(pattern_v(*a)),
            op,
            Box::new(pattern_v(*b)),
        ),
    }
}

/// An abstract binding tree over a payload: a variable, a binder, a group of mutually
/// recursive binders, or a payload node.
#[derive(Debug)]
pub enum ABT<Content> {
    Var(Symbol),
    Cycle(Box<ABT<Content>>),
    Abs(Symbol, Box<ABT<Content>>),
    Tm(Content),
}

pub enum AbtV<C> {
    Var(SymbolV),
    Cycle(Box<AbtV<C>>),
    Abs(SymbolV, Box<AbtV<C>>),
    Tm(C),
}

/// The node of a type.
#[derive(Debug)]
pub enum Type {
    Ref(Reference),
    Arrow(Box<ABT<Type>>, Box<ABT<Type>>),
    Ann(Box<ABT<Type>>, Kind),
    App(Box<ABT<Type>>, Box<ABT<Type>>),
    Effect(Box<ABT<Type>>, Box<ABT<Type>>),
    Effects(Vec<ABT<Type>>),
    Forall(Box<ABT<Type>>),
    IntroOuter(Box<ABT<Type>>),
}

pub enum TypeV {
    Ref(ReferenceV),
    Arrow(Box<AbtV<TypeV>>, Box<AbtV<TypeV>>),
    Ann(Box<AbtV<TypeV>>, Kind),
    App(Box<AbtV<TypeV>>, Box<AbtV<TypeV>>),
    Effect(Box<AbtV<TypeV>>, Box<AbtV<TypeV>>),
    Effects(Seq<AbtV<TypeV>>),
    Forall(Box<AbtV<TypeV>>),
    IntroOuter(Box<AbtV<TypeV>>),
}

pub open spec fn abt_types_v(v: Vec<ABT<Type>>) -> Seq<AbtV<TypeV>>
    decreases v,
{
    Seq::new(
        v@.len(),
        |i: int|
            if 0 <= i < v.len() {
                abt_type_v(v[i])
            } else {
                AbtV::Tm(TypeV::Effects(Seq::empty()))
            },
    )
}

pub open spec fn type_v(t: Type) -> TypeV
    decreases t,
{
    match t {
        Type::Ref(r) => TypeV::Ref(r@),
        Type::Arrow(a, b) => TypeV::Arrow(Box::new(abt_type_v(*a)), Box::new(abt_type_v(*b))),
        Type::Ann(a, k) => TypeV::Ann(Box::new(abt_type_v(*a)), k),
        Type::App(a, b) => TypeV::App(Box::new(abt_type_v(*a)), Box::new(abt_type_v(*b))),
        Type::Effect(a, b) => TypeV::Effect(Box::new(abt_type_v(*a)), Box::new(abt_type_v(*b))),
        Type::Effects(v) => TypeV::Effects(abt_types_v(v)),
        Type::Forall(a) => TypeV::Forall(Box::new(abt_type_v(*a))),
        Type::IntroOuter(a) => TypeV::IntroOuter(Box::new(abt_type_v(*a))),
    }
}

pub open spec fn abt_type_v(a: ABT<Type>) -> AbtV<TypeV>
    decreases a,
{
    match a {
        ABT::Var(s) => AbtV::Var(s@),
        ABT::Cycle(b) => AbtV::Cycle(Box::new(abt_type_v(*b))),
        ABT::Abs(s, b) => AbtV::Abs(s@, Box::new(abt_type_v(*b))),
        ABT::Tm(t) => AbtV::Tm(type_v(t)),
    }
}

/// One case of a match: its pattern, an optional guard and its body.
#[derive(Debug)]
pub struct MatchCase(pub Pattern, pub Option<Box<ABT<Term>>>, pub Box<ABT<Term>>);

pub struct MatchCaseV(pub PatternV, pub Option<AbtV<TermV>>, pub AbtV<TermV>);

/// The node of a term as decoded. A float literal is held as the 64-bit word that the
/// wire format carries for it.
#[derive(Debug)]
pub enum Term {
    Int(i64),
    Nat(u64),
    Float(u64),
    Boolean(bool),
    Text(String),
    Char(char),
    Blank,
    Ref(Reference),
    Constructor(Reference, usize),
    Request(Reference, usize),
    Handle(Box<ABT<Term>>, Box<ABT<Term>>),
    App(Box<ABT<Term>>, Box<ABT<Term>>),
    Ann(Box<ABT<Term>>, ABT<Type>),
    Sequence(Vec<Box<ABT<Term>>>),
    If(Box<ABT<Term>>, Box<ABT<Term>>, Box<ABT<Term>>),
    And(Box<ABT<Term>>, Box<ABT<Term>>),
    Or(Box<ABT<Term>>, Box<ABT<Term>>),
    Lam(Box<ABT<Term>>),
    LetRec(bool, Vec<Box<ABT<Term>>>, Box<ABT<Term>>),
    Let(bool, Box<ABT<Term>>, Box<ABT<Term>>),
    Match(Box<ABT<Term>>, Vec<MatchCase>),
    TermLink(Referent),
    TypeLink(Reference),
}

pub enum TermV {
    Int(i64),
    Nat(u64),
    Float(u64),
    Boolean(bool),
    Text(Seq<char>),
    Char(char),
    Blank,
    Ref(ReferenceV),
    Constructor(ReferenceV, usize),
    Request(ReferenceV, usize),
    Handle(Box<AbtV<TermV>>, Box<AbtV<TermV>>),
    App(Box<AbtV<TermV>>, Box<AbtV<TermV>>),
    Ann(Box<AbtV<TermV>>, AbtV<TypeV>),
    Sequence(Seq<AbtV<TermV>>),
    If(Box<AbtV<TermV>>, Box<AbtV<TermV>>, Box<AbtV<TermV>>),
    And(Box<AbtV<TermV>>, Box<AbtV<TermV>>),
    Or(Box<AbtV<TermV>>, Box<AbtV<TermV>>),
    Lam(Box<AbtV<TermV>>),
    LetRec(bool, Seq<AbtV<TermV>>, Box<AbtV<TermV>>),
    Let(bool, Box<AbtV<TermV>>, Box<AbtV<TermV>>),
    Match(Box<AbtV<TermV>>, Seq<MatchCaseV>),
    TermLink(ReferentV),
    TypeLink(ReferenceV),
}

pub open spec fn abts_v(v: Vec<Box<ABT<Term>>>) -> Seq<AbtV<TermV>>
    decreases v,
{
    Seq::new(v@.len(), |i: int| if 0 <= i < v.len() { abt_term_v(*v[i]) } else { AbtV::Tm(TermV::Blank) })
}

pub open spec fn case_v(c: MatchCase) -> MatchCaseV
    decreases c,
{
    MatchCaseV(
        pattern_v(c.0),
        match c.1 {
            Some(g) => Some(abt_term_v(*g)),
            None => None,
        },
        abt_term_v(*c.2),
    )
}

pub open spec fn cases_v(v: Vec<MatchCase>) -> Seq<MatchCaseV>
    decreases v,
{
    Seq::new(
        v@.len(),
        |i: int|
            if 0 <= i < v.len() {
                case_v(v[i])
            } else {
                MatchCaseV(PatternV::Unbound, None, AbtV::Tm(TermV::Blank))
            },
    )
}

pub open spec fn term_v(t: Term) -> TermV
    decreases t,
{
    match t {
        Term::Int(i) => TermV::Int(i),
        Term::Nat(n) => TermV::Nat(n),
        Term::Float(w) => TermV::Float(w),
        Term::Boolean(b) => TermV::Boolean(b),
        Term::Text(s) => TermV::Text(s@),
        Term::Char(c) => TermV::Char(c),
        Term::Blank => TermV::Blank,
        Term::Ref(r) => TermV::Ref(r@),
        Term::Constructor(r, n) => TermV::Constructor(r@, n),
        Term::Request(r, n) => TermV::Request(r@, n),
        Term::Handle(a, b) => TermV::Handle(Box::new(abt_term_v(*a)), Box::new(abt_term_v(*b))),
        Term::App(a, b) => TermV::App(Box::new(abt_term_v(*a)), Box::new(abt_term_v(*b))),
        Term::Ann(a, t) => TermV::Ann(Box::new(abt_term_v(*a)), abt_type_v(t)),
        Term::Sequence(v) => TermV::Sequence(abts_v(v)),
        Term::If(a, b, c) => TermV::If(
            Box::new(abt_term_v(*a)),
            Box::new(abt_term_v(*b)),
            Box::new(abt_term_v(*c)),
        ),
        Term::And(a, b) => TermV::And(Box::new(abt_term_v(*a)), Box::new(abt_term_v(*b))),
        Term::Or(a, b) => TermV::Or(Box::new(abt_term_v(*a)), Box::new(abt_term_v(*b))),
        Term::Lam(a) => TermV::Lam(Box::new(abt_term_v(*a))),
        Term::LetRec(f, v, b) => TermV::LetRec(f, abts_v(v), Box::new(abt_term_v(*b))),
        Term::Let(f, a, b) => TermV::Let(f, Box::new(abt_term_v(*a)), Box::new(abt_term_v(*b))),
        Term::Match(a, cs) => TermV::Match(Box::new(abt_term_v(*a)), cases_v(cs)),
        Term::TermLink(r) => TermV::TermLink(r@),
        Term::TypeLink(r) => TermV::TypeLink(r@),
    }
}

pub open spec fn abt_term_v(a: ABT<Term>) -> AbtV<TermV>
    decreases a,
{
    match a {
        ABT::Var(s) => AbtV::Var(s@),
        ABT::Cycle(b) => AbtV::Cycle(Box::new(abt_term_v(*b))),
        ABT::Abs(s, b) => AbtV::Abs(s@, Box::new(abt_term_v(*b))),
        ABT::Tm(t) => AbtV::Tm(term_v(t)),
    }
}

} // verus!
