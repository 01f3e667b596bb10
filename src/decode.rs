//! Decoding binding trees of terms and types, resolving each variable against the
//! binders around it and the free symbols listed up front.
use vstd::prelude::*;
use crate::types::{
    Symbol, SymbolV, ConstructorType, SeqOp, Kind, ReferenceV, ReferentV, PatternV, Pattern,
    Reference, Referent, Id, AbtV, TypeV, TermV, MatchCaseV, pattern_v, patterns_v,
    abt_types_v, abt_type_v, type_v, abts_v, abt_term_v, term_v, case_v, cases_v, ABT, Type,
    Term, MatchCase,
};
use crate::codec::{
    Parsed, DecodeError, Buffer, parse_u8, parse_usize, parse_text, parse_bytes, parse_bool,
    parse_i64, parse_u64, parse_char, parse_symbol, symbol_bytes, varint_bytes, varint_at,
    lemma_varint_round_trip,
};
use vstd::utf8::{encode_utf8, encode_utf8_valid_utf8, encode_utf8_decode_utf8};

verus! {

broadcast use vstd::std_specs::vec::group_vec_axioms;

/// Decoding only moves forward: a step that does not, within the stream, ends decoding.
pub open spec fn moved(s: Seq<u8>, p: int, q: int) -> bool {
    p < q <= s.len()
}

/// The views of a list of symbols.
pub open spec fn syms_v(v: Seq<Symbol>) -> Seq<SymbolV> {
    v.map_values(|s: Symbol| s@)
}

pub open spec fn parse_ctype(s: Seq<u8>, p: int) -> Parsed<ConstructorType> {
    match parse_u8(s, p) {
        Ok((0, q)) => Ok((ConstructorType::Data, q)),
        Ok((1, q)) => Ok((ConstructorType::Effect, q)),
        Ok((t, _)) => Err(DecodeError::UnknownTag(t)),
        Err(e) => Err(e),
    }
}

pub open spec fn parse_seqop(s: Seq<u8>, p: int) -> Parsed<SeqOp> {
    match parse_u8(s, p) {
        Ok((0, q)) => Ok((SeqOp::Cons, q)),
        Ok((1, q)) => Ok((SeqOp::Snoc, q)),
        Ok((2, q)) => Ok((SeqOp::Concat, q)),
        Ok((t, _)) => Err(DecodeError::UnknownTag(t)),
        Err(e) => Err(e),
    }
}

/// A reference: tag 0 and a builtin's name, or tag 1, a hash, a position and a count.
pub open spec fn parse_reference(s: Seq<u8>, p: int) -> Parsed<ReferenceV> {
    match parse_u8(s, p) {
        Ok((0, q)) => match parse_text(s, q) {
            Ok((t, r)) => Ok((ReferenceV::Builtin(t), r)),
            Err(e) => Err(e),
        },
        Ok((1, q)) => match parse_bytes(s, q) {
            Ok((h, r)) => match parse_usize(s, r) {
                Ok((i, r2)) => match parse_usize(s, r2) {
                    Ok((n, r3)) => Ok((ReferenceV::DerivedId(h, i, n), r3)),
                    Err(e) => Err(e),
                },
                Err(e) => Err(e),
            },
            Err(e) => Err(e),
        },
        Ok((t, _)) => Err(DecodeError::UnknownTag(t)),
        Err(e) => Err(e),
    }
}

pub open spec fn parse_referent(s: Seq<u8>, p: int) -> Parsed<ReferentV> {
    match parse_u8(s, p) {
        Ok((0, q)) => match parse_reference(s, q) {
            Ok((r, q2)) => Ok((ReferentV::Ref(r), q2)),
            Err(e) => Err(e),
        },
        Ok((1, q)) => match parse_reference(s, q) {
            Ok((r, q2)) => match parse_usize(s, q2) {
                Ok((n, q3)) => match parse_ctype(s, q3) {
                    Ok((c, q4)) => Ok((ReferentV::Con(r, n, c), q4)),
                    Err(e) => Err(e),
                },
                Err(e) => Err(e),
            },
            Err(e) => Err(e),
        },
        Ok((t, _)) => Err(DecodeError::UnknownTag(t)),
        Err(e) => Err(e),
    }
}

pub open spec fn parse_kind(s: Seq<u8>, p: int) -> Parsed<Kind>
    decreases s.len() - p,
{
    if !(0 <= p < s.len()) {
        Err(DecodeError::UnexpectedEnd)
    } else if s[p] == 0 {
        Ok((Kind::Star, p + 1))
    } else if s[p] == 1 {
        match parse_kind(s, p + 1) {
            Ok((a, q)) => if !moved(s, p, q) {
                Err(DecodeError::UnexpectedEnd)
            } else {
                match parse_kind(s, q) {
                    Ok((b, r)) => Ok((Kind::Arrow(Box::new(a), Box::new(b)), r)),
                    Err(e) => Err(e),
                }
            },
            Err(e) => Err(e),
        }
    } else {
        Err(DecodeError::UnknownTag(s[p]))
    }
}

/// `n` patterns, one after another.
pub open spec fn parse_patterns(s: Seq<u8>, p: int, n: nat) -> Parsed<Seq<PatternV>>
    decreases s.len() - p, 1nat, n,
{
    if n == 0 {
        Ok((Seq::empty(), p))
    } else if !(0 <= p < s.len()) {
        Err(DecodeError::UnexpectedEnd)
    } else {
        match parse_pattern(s, p) {
            Ok((x, q)) => if !moved(s, p, q) {
                Err(DecodeError::UnexpectedEnd)
            } else {
                match parse_patterns(s, q, (n - 1) as nat) {
                    Ok((xs, r)) => Ok((seq![x] + xs, r)),
                    Err(e) => Err(e),
                }
            },
            Err(e) => Err(e),
        }
    }
}

/// A length, then that many patterns.
pub open spec fn parse_pattern_list(s: Seq<u8>, p: int) -> Parsed<Seq<PatternV>>
    decreases s.len() - p, 2nat, 0nat,
{
    if !(0 <= p < s.len()) {
        Err(DecodeError::UnexpectedEnd)
    } else {
        match parse_usize(s, p) {
            Ok((n, q)) => if !moved(s, p, q) {
                Err(DecodeError::UnexpectedEnd)
            } else {
                parse_patterns(s, q, n as nat)
            },
            Err(e) => Err(e),
        }
    }
}

pub open spec fn parse_pattern(s: Seq<u8>, p: int) -> Parsed<PatternV>
    decreases s.len() - p, 0nat, 0nat,
{
    if !(0 <= p < s.len()) {
        Err(DecodeError::UnexpectedEnd)
    } else {
        let q = p + 1;
        let tag = s[p];
        if tag == 0 {
            Ok((PatternV::Unbound, q))
        } else if tag == 1 {
            Ok((PatternV::Var, q))
        } else if tag == 2 {
            match parse_bool(s, q) {
                Ok((b, r)) => Ok((PatternV::Boolean(b), r)),
                Err(e) => Err(e),
            }
        } else if tag == 3 {
            match parse_i64(s, q) {
                Ok((i, r)) => Ok((PatternV::Int(i), r)),
                Err(e) => Err(e),
            }
        } else if tag == 4 {
            match parse_u64(s, q) {
                Ok((n, r)) => Ok((PatternV::Nat(n), r)),
                Err(e) => Err(e),
            }
        } else if tag == 5 {
            match parse_u64(s, q) {
                Ok((w, r)) => Ok((PatternV::Float(w), r)),
                Err(e) => Err(e),
            }
        } else if tag == 6 {
            match parse_reference(s, q) {
                Ok((rf, r)) => match parse_usize(s, r) {
                    Ok((n, r2)) => if !moved(s, p, r2) {
                        Err(DecodeError::UnexpectedEnd)
                    } else {
                        match parse_pattern_list(s, r2) {
                            Ok((ps, r3)) => Ok((PatternV::Constructor(rf, n, ps), r3)),
                            Err(e) => Err(e),
                        }
                    },
                    Err(e) => Err(e),
                },
                Err(e) => Err(e),
            }
        } else if tag == 7 {
            match parse_pattern(s, q) {
                Ok((x, r)) => Ok((PatternV::As(Box::new(x)), r)),
                Err(e) => Err(e),
            }
        } else if tag == 8 {
            match parse_pattern(s, q) {
                Ok((x, r)) => Ok((PatternV::EffectPure(Box::new(x)), r)),
                Err(e) => Err(e),
            }
        } else if tag == 9 {
            match parse_reference(s, q) {
                Ok((rf, r)) => match parse_usize(s, r) {
                    Ok((n, r2)) => if !moved(s, p, r2) {
                        Err(DecodeError::UnexpectedEnd)
                    } else {
                        match parse_pattern_list(s, r2) {
                            Ok((ps, r3)) => if !moved(s, p, r3) {
                                Err(DecodeError::UnexpectedEnd)
                            } else {
                                match parse_pattern(s, r3) {
                                    Ok((k, r4)) => Ok(
                                        (PatternV::EffectBind(rf, n, ps, Box::new(k)), r4),
                                    ),
                                    Err(e) => Err(e),
                                }
                            },
                            Err(e) => Err(e),
                        }
                    },
                    Err(e) => Err(e),
                },
                Err(e) => Err(e),
            }
        } else if tag == 10 {
            match parse_pattern_list(s, q) {
                Ok((ps, r)) => Ok((PatternV::SequenceLiteral(ps), r)),
                Err(e) => Err(e),
            }
        } else if tag == 11 {
            match parse_pattern(s, q) {
                Ok((a, r)) => match parse_seqop(s, r) {
                    Ok((op, r2)) => if !moved(s, p, r2) {
                        Err(DecodeError::UnexpectedEnd)
                    } else {
                        match parse_pattern(s, r2) {
                            Ok((b, r3)) => Ok(
                                (PatternV::SequenceOp(Box::new(a), op, Box::new(b)), r3),
                            ),
                            Err(e) => Err(e),
                        }
                    },
                    Err(e) => Err(e),
                },
                Err(e) => Err(e),
            }
        } else if tag == 12 {
            match parse_text(s, q) {
                Ok((t, r)) => Ok((PatternV::Text(t), r)),
                Err(e) => Err(e),
            }
        } else if tag == 13 {
            match parse_char(s, q) {
                Ok((c, r)) => Ok((PatternV::Char(c), r)),
                Err(e) => Err(e),
            }
        } else {
            Err(DecodeError::UnknownTag(tag))
        }
    }
}

/// `n` symbols, one after another.
pub open spec fn parse_symbols(s: Seq<u8>, p: int, n: nat) -> Parsed<Seq<SymbolV>>
    decreases n,
{
    if n == 0 {
        Ok((Seq::empty(), p))
    } else {
        match parse_symbol(s, p) {
            Ok((x, q)) => match parse_symbols(s, q, (n - 1) as nat) {
                Ok((xs, r)) => Ok((seq![x] + xs, r)),
                Err(e) => Err(e),
            },
            Err(e) => Err(e),
        }
    }
}

/// A length, then that many symbols.
pub open spec fn parse_symbol_list(s: Seq<u8>, p: int) -> Parsed<Seq<SymbolV>> {
    match parse_usize(s, p) {
        Ok((n, q)) => parse_symbols(s, q, n as nat),
        Err(e) => Err(e),
    }
}

/// A variable: tag 0 and an index into the bound symbols (innermost first), or tag 1
/// and an index into the free ones.
pub open spec fn parse_var(s: Seq<u8>, p: int, env: Seq<SymbolV>, fvs: Seq<SymbolV>) -> Parsed<
    SymbolV,
> {
    match parse_u8(s, p) {
        Ok((0, q)) => match parse_usize(s, q) {
            Ok((i, r)) => if i < env.len() {
                Ok((env[i as int], r))
            } else {
                Err(DecodeError::BadIndex)
            },
            Err(e) => Err(e),
        },
        Ok((1, q)) => match parse_usize(s, q) {
            Ok((i, r)) => if i < fvs.len() {
                Ok((fvs[i as int], r))
            } else {
                Err(DecodeError::BadIndex)
            },
            Err(e) => Err(e),
        },
        Ok((t, _)) => Err(DecodeError::UnknownTag(t)),
        Err(e) => Err(e),
    }
}

/// A binding tree of types under the bound symbols `env` and the free symbols `fvs`:
/// tag 0 a variable, 1 a node, 2 a binder whose symbol is in scope in its body, 3 a
/// recursive group.
pub open spec fn parse_abt_type(s: Seq<u8>, p: int, env: Seq<SymbolV>, fvs: Seq<SymbolV>) -> Parsed<
    AbtV<TypeV>,
>
    decreases s.len() - p, 0nat, 0nat,
{
    if !(0 <= p < s.len()) {
        Err(DecodeError::UnexpectedEnd)
    } else if s[p] == 0 {
        match parse_var(s, p + 1, env, fvs) {
            Ok((v, q)) => Ok((AbtV::Var(v), q)),
            Err(e) => Err(e),
        }
    } else if s[p] == 1 {
        match parse_type(s, p + 1, env, fvs) {
            Ok((t, q)) => Ok((AbtV::Tm(t), q)),
            Err(e) => Err(e),
        }
    } else if s[p] == 2 {
        match parse_symbol(s, p + 1) {
            Ok((v, q)) => if !moved(s, p, q) {
                Err(DecodeError::UnexpectedEnd)
            } else {
                match parse_abt_type(s, q, seq![v] + env, fvs) {
                    Ok((b, r)) => Ok((AbtV::Abs(v, Box::new(b)), r)),
                    Err(e) => Err(e),
                }
            },
            Err(e) => Err(e),
        }
    } else if s[p] == 3 {
        match parse_abt_type(s, p + 1, env, fvs) {
            Ok((b, q)) => Ok((AbtV::Cycle(Box::new(b)), q)),
            Err(e) => Err(e),
        }
    } else {
        Err(DecodeError::UnknownTag(s[p]))
    }
}

/// `n` binding trees of types, one after another.
pub open spec fn parse_abt_types(
    s: Seq<u8>,
    p: int,
    n: nat,
    env: Seq<SymbolV>,
    fvs: Seq<SymbolV>,
) -> Parsed<Seq<AbtV<TypeV>>>
    decreases s.len() - p, 1nat, n,
{
    if n == 0 {
        Ok((Seq::empty(), p))
    } else if !(0 <= p < s.len()) {
        Err(DecodeError::UnexpectedEnd)
    } else {
        match parse_abt_type(s, p, env, fvs) {
            Ok((x, q)) => if !moved(s, p, q) {
                Err(DecodeError::UnexpectedEnd)
            } else {
                match parse_abt_types(s, q, (n - 1) as nat, env, fvs) {
                    Ok((xs, r)) => Ok((seq![x] + xs, r)),
                    Err(e) => Err(e),
                }
            },
            Err(e) => Err(e),
        }
    }
}

/// Two binding trees of types, one after the other.
pub open spec fn parse_type_pair(s: Seq<u8>, p: int, env: Seq<SymbolV>, fvs: Seq<SymbolV>) -> Parsed<
    (AbtV<TypeV>, AbtV<TypeV>),
>
    decreases s.len() - p, 1nat, 0nat,
{
    if !(0 <= p < s.len()) {
        Err(DecodeError::UnexpectedEnd)
    } else {
        match parse_abt_type(s, p, env, fvs) {
            Ok((a, q)) => if !moved(s, p, q) {
                Err(DecodeError::UnexpectedEnd)
            } else {
                match parse_abt_type(s, q, env, fvs) {
                    Ok((b, r)) => Ok(((a, b), r)),
                    Err(e) => Err(e),
                }
            },
            Err(e) => Err(e),
        }
    }
}

pub open spec fn parse_type(s: Seq<u8>, p: int, env: Seq<SymbolV>, fvs: Seq<SymbolV>) -> Parsed<
    TypeV,
>
    decreases s.len() - p, 2nat, 0nat,
{
    if !(0 <= p < s.len()) {
        Err(DecodeError::UnexpectedEnd)
    } else {
        let q = p + 1;
        let tag = s[p];
        if tag == 0 {
            match parse_reference(s, q) {
                Ok((r, q2)) => Ok((TypeV::Ref(r), q2)),
                Err(e) => Err(e),
            }
        } else if tag == 1 || tag == 3 || tag == 4 {
            match parse_type_pair(s, q, env, fvs) {
                Ok(((a, b), r)) => Ok(
                    (
                        if tag == 1 {
                            TypeV::Arrow(Box::new(a), Box::new(b))
                        } else if tag == 3 {
                            TypeV::App(Box::new(a), Box::new(b))
                        } else {
                            TypeV::Effect(Box::new(a), Box::new(b))
                        },
                        r,
                    ),
                ),
                Err(e) => Err(e),
            }
        } else if tag == 2 {
            match parse_abt_type(s, q, env, fvs) {
                Ok((a, r)) => match parse_kind(s, r) {
                    Ok((k, r2)) => Ok((TypeV::Ann(Box::new(a), k), r2)),
                    Err(e) => Err(e),
                },
                Err(e) => Err(e),
            }
        } else if tag == 5 {
            match parse_usize(s, q) {
                Ok((n, r)) => if !moved(s, p, r) {
                    Err(DecodeError::UnexpectedEnd)
                } else {
                    match parse_abt_types(s, r, n as nat, env, fvs) {
                        Ok((ts, r2)) => Ok((TypeV::Effects(ts), r2)),
                        Err(e) => Err(e),
                    }
                },
                Err(e) => Err(e),
            }
        } else if tag == 6 || tag == 7 {
            match parse_abt_type(s, q, env, fvs) {
                Ok((a, r)) => Ok(
                    (
                        if tag == 6 {
                            TypeV::Forall(Box::new(a))
                        } else {
                            TypeV::IntroOuter(Box::new(a))
                        },
                        r,
                    ),
                ),
                Err(e) => Err(e),
            }
        } else {
            Err(DecodeError::UnknownTag(tag))
        }
    }
}

/// A whole type: its free symbols, then its tree with no bound symbols.
pub open spec fn parse_type_top(s: Seq<u8>, p: int) -> Parsed<AbtV<TypeV>> {
    match parse_symbol_list(s, p) {
        Ok((fvs, q)) => parse_abt_type(s, q, Seq::empty(), fvs),
        Err(e) => Err(e),
    }
}

/// A binding tree of terms under the bound symbols `env` and the free symbols `fvs`,
/// with the same four tags as for types.
pub open spec fn parse_abt_term(s: Seq<u8>, p: int, env: Seq<SymbolV>, fvs: Seq<SymbolV>) -> Parsed<
    AbtV<TermV>,
>
    decreases s.len() - p, 0nat, 0nat,
{
    if !(0 <= p < s.len()) {
        Err(DecodeError::UnexpectedEnd)
    } else if s[p] == 0 {
        match parse_var(s, p + 1, env, fvs) {
            Ok((v, q)) => Ok((AbtV::Var(v), q)),
            Err(e) => Err(e),
        }
    } else if s[p] == 1 {
        match parse_term(s, p + 1, env, fvs) {
            Ok((t, q)) => Ok((AbtV::Tm(t), q)),
            Err(e) => Err(e),
        }
    } else if s[p] == 2 {
        match parse_symbol(s, p + 1) {
            Ok((v, q)) => if !moved(s, p, q) {
                Err(DecodeError::UnexpectedEnd)
            } else {
                match parse_abt_term(s, q, seq![v] + env, fvs) {
                    Ok((b, r)) => Ok((AbtV::Abs(v, Box::new(b)), r)),
                    Err(e) => Err(e),
                }
            },
            Err(e) => Err(e),
        }
    } else if s[p] == 3 {
        match parse_abt_term(s, p + 1, env, fvs) {
            Ok((b, q)) => Ok((AbtV::Cycle(Box::new(b)), q)),
            Err(e) => Err(e),
        }
    } else {
        Err(DecodeError::UnknownTag(s[p]))
    }
}

/// `n` binding trees of terms, one after another.
pub open spec fn parse_abt_terms(
    s: Seq<u8>,
    p: int,
    n: nat,
    env: Seq<SymbolV>,
    fvs: Seq<SymbolV>,
) -> Parsed<Seq<AbtV<TermV>>>
    decreases s.len() - p, 1nat, n,
{
    if n == 0 {
        Ok((Seq::empty(), p))
    } else if !(0 <= p < s.len()) {
        Err(DecodeError::UnexpectedEnd)
    } else {
        match parse_abt_term(s, p, env, fvs) {
            Ok((x, q)) => if !moved(s, p, q) {
                Err(DecodeError::UnexpectedEnd)
            } else {
                match parse_abt_terms(s, q, (n - 1) as nat, env, fvs) {
                    Ok((xs, r)) => Ok((seq![x] + xs, r)),
                    Err(e) => Err(e),
                }
            },
            Err(e) => Err(e),
        }
    }
}

/// A length, then that many binding trees of terms.
pub open spec fn parse_abt_term_list(
    s: Seq<u8>,
    p: int,
    env: Seq<SymbolV>,
    fvs: Seq<SymbolV>,
) -> Parsed<Seq<AbtV<TermV>>>
    decreases s.len() - p, 2nat, 0nat,
{
    match parse_usize(s, p) {
        Ok((n, q)) => if !moved(s, p, q) {
            Err(DecodeError::UnexpectedEnd)
        } else {
            parse_abt_terms(s, q, n as nat, env, fvs)
        },
        Err(e) => Err(e),
    }
}

/// Two binding trees of terms, one after the other.
pub open spec fn parse_term_pair(s: Seq<u8>, p: int, env: Seq<SymbolV>, fvs: Seq<SymbolV>) -> Parsed<
    (AbtV<TermV>, AbtV<TermV>),
>
    decreases s.len() - p, 1nat, 0nat,
{
    if !(0 <= p < s.len()) {
        Err(DecodeError::UnexpectedEnd)
    } else {
        match parse_abt_term(s, p, env, fvs) {
            Ok((a, q)) => if !moved(s, p, q) {
                Err(DecodeError::UnexpectedEnd)
            } else {
                match parse_abt_term(s, q, env, fvs) {
                    Ok((b, r)) => Ok(((a, b), r)),
                    Err(e) => Err(e),
                }
            },
            Err(e) => Err(e),
        }
    }
}

/// An optional guard: tag 0 for none, tag 1 and a binding tree.
pub open spec fn parse_guard(s: Seq<u8>, p: int, env: Seq<SymbolV>, fvs: Seq<SymbolV>) -> Parsed<
    Option<AbtV<TermV>>,
>
    decreases s.len() - p, 0nat, 0nat,
{
    if !(0 <= p < s.len()) {
        Err(DecodeError::UnexpectedEnd)
    } else if s[p] == 0 {
        Ok((None, p + 1))
    } else if s[p] == 1 {
        match parse_abt_term(s, p + 1, env, fvs) {
            Ok((g, q)) => Ok((Some(g), q)),
            Err(e) => Err(e),
        }
    } else {
        Err(DecodeError::UnknownTag(s[p]))
    }
}

/// A match case: its pattern, its optional guard and its body.
pub open spec fn parse_case(s: Seq<u8>, p: int, env: Seq<SymbolV>, fvs: Seq<SymbolV>) -> Parsed<
    MatchCaseV,
>
    decreases s.len() - p, 0nat, 0nat,
{
    match parse_pattern(s, p) {
        Ok((pat, q)) => if !moved(s, p, q) {
            Err(DecodeError::UnexpectedEnd)
        } else {
            match parse_guard(s, q, env, fvs) {
                Ok((g, r)) => if !moved(s, p, r) {
                    Err(DecodeError::UnexpectedEnd)
                } else {
                    match parse_abt_term(s, r, env, fvs) {
                        Ok((b, r2)) => Ok((MatchCaseV(pat, g, b), r2)),
                        Err(e) => Err(e),
                    }
                },
                Err(e) => Err(e),
            }
        },
        Err(e) => Err(e),
    }
}

/// `n` match cases, one after another.
pub open spec fn parse_cases(
    s: Seq<u8>,
    p: int,
    n: nat,
    env: Seq<SymbolV>,
    fvs: Seq<SymbolV>,
) -> Parsed<Seq<MatchCaseV>>
    decreases s.len() - p, 1nat, n,
{
    if n == 0 {
        Ok((Seq::empty(), p))
    } else if !(0 <= p < s.len()) {
        Err(DecodeError::UnexpectedEnd)
    } else {
        match parse_case(s, p, env, fvs) {
            Ok((x, q)) => if !moved(s, p, q) {
                Err(DecodeError::UnexpectedEnd)
            } else {
                match parse_cases(s, q, (n - 1) as nat, env, fvs) {
                    Ok((xs, r)) => Ok((seq![x] + xs, r)),
                    Err(e) => Err(e),
                }
            },
            Err(e) => Err(e),
        }
    }
}

pub open spec fn parse_term(s: Seq<u8>, p: int, env: Seq<SymbolV>, fvs: Seq<SymbolV>) -> Parsed<
    TermV,
>
    decreases s.len() - p, 3nat, 0nat,
{
    if !(0 <= p < s.len()) {
        Err(DecodeError::UnexpectedEnd)
    } else {
        let q = p + 1;
        let tag = s[p];
        if tag == 0 {
            match parse_i64(s, q) {
                Ok((i, r)) => Ok((TermV::Int(i), r)),
                Err(e) => Err(e),
            }
        } else if tag == 1 || tag == 2 {
            match parse_u64(s, q) {
                Ok((n, r)) => Ok(
                    (
                        if tag == 1 {
                            TermV::Nat(n)
                        } else {
                            TermV::Float(n)
                        },
                        r,
                    ),
                ),
                Err(e) => Err(e),
            }
        } else if tag == 3 {
            match parse_bool(s, q) {
                Ok((b, r)) => Ok((TermV::Boolean(b), r)),
                Err(e) => Err(e),
            }
        } else if tag == 4 {
            match parse_text(s, q) {
                Ok((t, r)) => Ok((TermV::Text(t), r)),
                Err(e) => Err(e),
            }
        } else if tag == 5 || tag == 21 {
            match parse_reference(s, q) {
                Ok((rf, r)) => Ok(
                    (
                        if tag == 5 {
                            TermV::Ref(rf)
                        } else {
                            TermV::TypeLink(rf)
                        },
                        r,
                    ),
                ),
                Err(e) => Err(e),
            }
        } else if tag == 6 || tag == 7 {
            match parse_reference(s, q) {
                Ok((rf, r)) => match parse_usize(s, r) {
                    Ok((n, r2)) => Ok(
                        (
                            if tag == 6 {
                                TermV::Constructor(rf, n)
                            } else {
                                TermV::Request(rf, n)
                            },
                            r2,
                        ),
                    ),
                    Err(e) => Err(e),
                },
                Err(e) => Err(e),
            }
        } else if tag == 8 || tag == 9 || tag == 13 || tag == 14 || tag == 17 {
            match parse_term_pair(s, q, env, fvs) {
                Ok(((a, b), r)) => Ok(
                    (
                        if tag == 8 {
                            TermV::Handle(Box::new(a), Box::new(b))
                        } else if tag == 9 {
                            TermV::App(Box::new(a), Box::new(b))
                        } else if tag == 13 {
                            TermV::And(Box::new(a), Box::new(b))
                        } else if tag == 14 {
                            TermV::Or(Box::new(a), Box::new(b))
                        } else {
                            TermV::Let(false, Box::new(a), Box::new(b))
                        },
                        r,
                    ),
                ),
                Err(e) => Err(e),
            }
        } else if tag == 10 {
            match parse_abt_term(s, q, env, fvs) {
                Ok((a, r)) => match parse_type_top(s, r) {
                    Ok((t, r2)) => Ok((TermV::Ann(Box::new(a), t), r2)),
                    Err(e) => Err(e),
                },
                Err(e) => Err(e),
            }
        } else if tag == 11 {
            match parse_abt_term_list(s, q, env, fvs) {
                Ok((ts, r)) => Ok((TermV::Sequence(ts), r)),
                Err(e) => Err(e),
            }
        } else if tag == 12 {
            match parse_term_pair(s, q, env, fvs) {
                Ok(((a, b), r)) => if !moved(s, p, r) {
                    Err(DecodeError::UnexpectedEnd)
                } else {
                    match parse_abt_term(s, r, env, fvs) {
                        Ok((c, r2)) => Ok(
                            (TermV::If(Box::new(a), Box::new(b), Box::new(c)), r2),
                        ),
                        Err(e) => Err(e),
                    }
                },
                Err(e) => Err(e),
            }
        } else if tag == 15 {
            match parse_abt_term(s, q, env, fvs) {
                Ok((a, r)) => Ok((TermV::Lam(Box::new(a)), r)),
                Err(e) => Err(e),
            }
        } else if tag == 16 {
            match parse_abt_term_list(s, q, env, fvs) {
                Ok((ts, r)) => if !moved(s, p, r) {
                    Err(DecodeError::UnexpectedEnd)
                } else {
                    match parse_abt_term(s, r, env, fvs) {
                        Ok((b, r2)) => Ok((TermV::LetRec(false, ts, Box::new(b)), r2)),
                        Err(e) => Err(e),
                    }
                },
                Err(e) => Err(e),
            }
        } else if tag == 18 {
            match parse_abt_term(s, q, env, fvs) {
                Ok((a, r)) => match parse_usize(s, r) {
                    Ok((n, r2)) => if !moved(s, p, r2) {
                        Err(DecodeError::UnexpectedEnd)
                    } else {
                        match parse_cases(s, r2, n as nat, env, fvs) {
                            Ok((cs, r3)) => Ok((TermV::Match(Box::new(a), cs), r3)),
                            Err(e) => Err(e),
                        }
                    },
                    Err(e) => Err(e),
                },
                Err(e) => Err(e),
            }
        } else if tag == 19 {
            match parse_char(s, q) {
                Ok((c, r)) => Ok((TermV::Char(c), r)),
                Err(e) => Err(e),
            }
        } else if tag == 20 {
            match parse_referent(s, q) {
                Ok((rf, r)) => Ok((TermV::TermLink(rf), r)),
                Err(e) => Err(e),
            }
        } else {
            Err(DecodeError::UnknownTag(tag))
        }
    }
}

/// A whole term: its free symbols, then its tree with no bound symbols.
pub open spec fn parse_term_top(s: Seq<u8>, p: int) -> Parsed<AbtV<TermV>> {
    match parse_symbol_list(s, p) {
        Ok((fvs, q)) => parse_abt_term(s, q, Seq::empty(), fvs),
        Err(e) => Err(e),
    }
}

/// `r` is what decoding should give: the value (seen through `view`) and the position
/// `end` after it, or the same error.
pub open spec fn decoded<T, V>(
    r: Result<T, DecodeError>,
    want: Parsed<V>,
    view: spec_fn(T) -> V,
    end: int,
) -> bool {
    match want {
        Ok((v, q)) => r matches Ok(x) && view(x) == v && end == q,
        Err(e) => r matches Err(e2) && e2 == e,
    }
}

proof fn lemma_patterns_v_cons(v: Vec<Pattern>, w: Vec<Pattern>, x: Pattern)
    requires
        w@ == v@.insert(0, x),
    ensures
        patterns_v(w) == seq![pattern_v(x)] + patterns_v(v),
{
    assert(patterns_v(w) =~= seq![pattern_v(x)] + patterns_v(v));
}

impl Buffer {
    pub fn get_ctype(&mut self) -> (r: Result<ConstructorType, DecodeError>)
        ensures
            final(self).buf == old(self).buf,
            r is Ok ==> old(self).idx < final(self).idx <= old(self).buf@.len(),
            decoded(
                r,
                parse_ctype(old(self).buf@, old(self).idx as int),
                |x: ConstructorType| x,
                final(self).idx as int,
            ),
    {
        let tag = self.get_u8()?;
        if tag == 0 {
            Ok(ConstructorType::Data)
        } else if tag == 1 {
            Ok(ConstructorType::Effect)
        } else {
            Err(DecodeError::UnknownTag(tag))
        }
    }

    pub fn get_seqop(&mut self) -> (r: Result<SeqOp, DecodeError>)
        ensures
            final(self).buf == old(self).buf,
            r is Ok ==> old(self).idx < final(self).idx <= old(self).buf@.len(),
            decoded(
                r,
                parse_seqop(old(self).buf@, old(self).idx as int),
                |x: SeqOp| x,
                final(self).idx as int,
            ),
    {
        let tag = self.get_u8()?;
        if tag == 0 {
            Ok(SeqOp::Cons)
        } else if tag == 1 {
            Ok(SeqOp::Snoc)
        } else if tag == 2 {
            Ok(SeqOp::Concat)
        } else {
            Err(DecodeError::UnknownTag(tag))
        }
    }

    pub fn get_reference(&mut self) -> (r: Result<Reference, DecodeError>)
        ensures
            final(self).buf == old(self).buf,
            r is Ok ==> old(self).idx < final(self).idx <= old(self).buf@.len(),
            decoded(
                r,
                parse_reference(old(self).buf@, old(self).idx as int),
                |x: Reference| x@,
                final(self).idx as int,
            ),
    {
        let tag = self.get_u8()?;
        if tag == 0 {
            let t = self.get_text()?;
            Ok(Reference::Builtin(t))
        } else if tag == 1 {
            let h = self.get_hash()?;
            let i = self.get_usize()?;
            let n = self.get_usize()?;
            Ok(Reference::DerivedId(Id(h, i, n)))
        } else {
            Err(DecodeError::UnknownTag(tag))
        }
    }

    pub fn get_referent(&mut self) -> (r: Result<Referent, DecodeError>)
        ensures
            final(self).buf == old(self).buf,
            r is Ok ==> old(self).idx < final(self).idx <= old(self).buf@.len(),
            decoded(
                r,
                parse_referent(old(self).buf@, old(self).idx as int),
                |x: Referent| x@,
                final(self).idx as int,
            ),
    {
        let tag = self.get_u8()?;
        if tag == 0 {
            let rf = self.get_reference()?;
            Ok(Referent::Ref(rf))
        } else if tag == 1 {
            let rf = self.get_reference()?;
            let n = self.get_usize()?;
            let c = self.get_ctype()?;
            Ok(Referent::Con(rf, n, c))
        } else {
            Err(DecodeError::UnknownTag(tag))
        }
    }

    pub fn get_kind(&mut self) -> (r: Result<Kind, DecodeError>)
        ensures
            final(self).buf == old(self).buf,
            r is Ok ==> old(self).idx < final(self).idx <= old(self).buf@.len(),
            decoded(
                r,
                parse_kind(old(self).buf@, old(self).idx as int),
                |x: Kind| x,
                final(self).idx as int,
            ),
        decreases old(self).buf@.len() - old(self).idx,
    {
        let tag = self.get_u8()?;
        if tag == 0 {
            Ok(Kind::Star)
        } else if tag == 1 {
            let a = self.get_kind()?;
            let b = self.get_kind()?;
            Ok(Kind::Arrow(Box::new(a), Box::new(b)))
        } else {
            Err(DecodeError::UnknownTag(tag))
        }
    }

    /// `n` patterns, one after another.
    fn get_patterns(&mut self, n: usize) -> (r: Result<Vec<Pattern>, DecodeError>)
        requires
            old(self).idx <= old(self).buf@.len(),
        ensures
            final(self).buf == old(self).buf,
            r is Ok ==> old(self).idx <= final(self).idx <= old(self).buf@.len(),
            n > 0 && r is Ok ==> old(self).idx < final(self).idx,
            decoded(
                r,
                parse_patterns(old(self).buf@, old(self).idx as int, n as nat),
                |x: Vec<Pattern>| patterns_v(x),
                final(self).idx as int,
            ),
        decreases old(self).buf@.len() - old(self).idx, 1nat, n,
    {
        if n == 0 {
            let v: Vec<Pattern> = Vec::new();
            assert(patterns_v(v) =~= Seq::empty());
            return Ok(v);
        }
        if self.idx >= self.buf.len() {
            return Err(DecodeError::UnexpectedEnd);
        }
        let x = self.get_pattern()?;
        let rest = self.get_patterns(n - 1)?;
        let mut out = rest;
        let ghost before = out;
        out.insert(0, x);
        proof {
            lemma_patterns_v_cons(before, out, x);
        }
        Ok(out)
    }

    /// A length, then that many patterns.
    pub fn get_pattern_list(&mut self) -> (r: Result<Vec<Pattern>, DecodeError>)
        ensures
            final(self).buf == old(self).buf,
            r is Ok ==> old(self).idx < final(self).idx <= old(self).buf@.len(),
            decoded(
                r,
                parse_pattern_list(old(self).buf@, old(self).idx as int),
                |x: Vec<Pattern>| patterns_v(x),
                final(self).idx as int,
            ),
        decreases old(self).buf@.len() - old(self).idx, 2nat, 0nat,
    {
        if self.idx >= self.buf.len() {
            return Err(DecodeError::UnexpectedEnd);
        }
        let n = self.get_usize()?;
        self.get_patterns(n)
    }

    pub fn get_pattern(&mut self) -> (r: Result<Pattern, DecodeError>)
        ensures
            final(self).buf == old(self).buf,
            r is Ok ==> old(self).idx < final(self).idx <= old(self).buf@.len(),
            decoded(
                r,
                parse_pattern(old(self).buf@, old(self).idx as int),
                |x: Pattern| pattern_v(x),
                final(self).idx as int,
            ),
        decreases old(self).buf@.len() - old(self).idx, 0nat, 0nat,
    {
        let tag = self.get_u8()?;
        if tag == 0 {
            Ok(Pattern::Unbound)
        } else if tag == 1 {
            Ok(Pattern::Var)
        } else if tag == 2 {
            Ok(Pattern::Boolean(self.get_bool()?))
        } else if tag == 3 {
            Ok(Pattern::Int(self.get_i64()?))
        } else if tag == 4 {
            Ok(Pattern::Nat(self.get_u64()?))
        } else if tag == 5 {
            Ok(Pattern::Float(self.get_u64()?))
        } else if tag == 6 {
            let rf = self.get_reference()?;
            let n = self.get_usize()?;
            let ps = self.get_pattern_list()?;
            Ok(Pattern::Constructor(rf, n, ps))
        } else if tag == 7 {
            let x = self.get_pattern()?;
            Ok(Pattern::As(Box::new(x)))
        } else if tag == 8 {
            let x = self.get_pattern()?;
            Ok(Pattern::EffectPure(Box::new(x)))
        } else if tag == 9 {
            let rf = self.get_reference()?;
            let n = self.get_usize()?;
            let ps = self.get_pattern_list()?;
            let k = self.get_pattern()?;
            Ok(Pattern::EffectBind(rf, n, ps, Box::new(k)))
        } else if tag == 10 {
            let ps = self.get_pattern_list()?;
            Ok(Pattern::SequenceLiteral(ps))
        } else if tag == 11 {
            let a = self.get_pattern()?;
            let op = self.get_seqop()?;
            let b = self.get_pattern()?;
            Ok(Pattern::SequenceOp(Box::new(a), op, Box::new(b)))
        } else if tag == 12 {
            Ok(Pattern::Text(self.get_text()?))
        } else if tag == 13 {
            Ok(Pattern::Char(self.get_char()?))
        } else {
            Err(DecodeError::UnknownTag(tag))
        }
    }
}

proof fn lemma_abt_types_v_cons(v: Vec<ABT<Type>>, w: Vec<ABT<Type>>, x: ABT<Type>)
    requires
        w@ == v@.insert(0, x),
    ensures
        abt_types_v(w) == seq![abt_type_v(x)] + abt_types_v(v),
{
    assert(abt_types_v(w) =~= seq![abt_type_v(x)] + abt_types_v(v));
}

proof fn lemma_abts_v_cons(v: Vec<Box<ABT<Term>>>, w: Vec<Box<ABT<Term>>>, x: Box<ABT<Term>>)
    requires
        w@ == v@.insert(0, x),
    ensures
        abts_v(w) == seq![abt_term_v(*x)] + abts_v(v),
{
    assert(abts_v(w) =~= seq![abt_term_v(*x)] + abts_v(v));
}

proof fn lemma_cases_v_cons(v: Vec<MatchCase>, w: Vec<MatchCase>, x: MatchCase)
    requires
        w@ == v@.insert(0, x),
    ensures
        cases_v(w) == seq![case_v(x)] + cases_v(v),
{
    assert(cases_v(w) =~= seq![case_v(x)] + cases_v(v));
}

/// The scope `env` with `v` bound innermost.
fn scope_with(v: &Symbol, env: &Vec<Symbol>) -> (r: Vec<Symbol>)
    ensures
        syms_v(r@) == seq![v@] + syms_v(env@),
{
    let mut out: Vec<Symbol> = Vec::new();
    out.push(v.copy());
    let mut i: usize = 0;
    while i < env.len()
        invariant
            i <= env@.len(),
            out@ == seq![*v] + env@.subrange(0, i as int),
        decreases env@.len() - i,
    {
        out.push(env[i].copy());
        i = i + 1;
        assert(out@ =~= seq![*v] + env@.subrange(0, i as int));
    }
    assert(env@.subrange(0, env@.len() as int) =~= env@);
    assert(syms_v(out@) =~= seq![v@] + syms_v(env@));
    out
}

impl Buffer {
    /// `n` symbols, one after another.
    fn get_symbols(&mut self, n: usize) -> (r: Result<Vec<Symbol>, DecodeError>)
        requires
            old(self).idx <= old(self).buf@.len(),
        ensures
            final(self).buf == old(self).buf,
            r is Ok ==> old(self).idx <= final(self).idx <= old(self).buf@.len(),
            decoded(
                r,
                parse_symbols(old(self).buf@, old(self).idx as int, n as nat),
                |x: Vec<Symbol>| syms_v(x@),
                final(self).idx as int,
            ),
    {
        let mut out: Vec<Symbol> = Vec::new();
        let mut i: usize = 0;
        let ghost s = self.buf@;
        while i < n
            invariant
                self.buf == old(self).buf,
                s == self.buf@,
                old(self).idx <= self.idx <= self.buf@.len(),
                i <= n,
                parse_symbols(s, old(self).idx as int, n as nat) == match parse_symbols(
                    s,
                    self.idx as int,
                    (n - i) as nat,
                ) {
                    Ok((xs, e)) => Ok((syms_v(out@) + xs, e)),
                    Err(e) => Err(e),
                },
            decreases n - i,
        {
            let x = self.get_symbol()?;
            let ghost before = out@;
            out.push(x);
            assert(syms_v(out@) =~= syms_v(before) + seq![x@]);
            i = i + 1;
            proof {
                match parse_symbols(s, self.idx as int, (n - i) as nat) {
                    Ok((xs, e)) => {
                        assert(syms_v(before) + (seq![x@] + xs) =~= syms_v(out@) + xs);
                    },
                    Err(e) => {},
                }
            }
        }
        assert(syms_v(out@) + Seq::empty() =~= syms_v(out@));
        Ok(out)
    }

    /// A length, then that many symbols.
    pub fn get_symbol_list(&mut self) -> (r: Result<Vec<Symbol>, DecodeError>)
        ensures
            final(self).buf == old(self).buf,
            r is Ok ==> old(self).idx < final(self).idx <= old(self).buf@.len(),
            decoded(
                r,
                parse_symbol_list(old(self).buf@, old(self).idx as int),
                |x: Vec<Symbol>| syms_v(x@),
                final(self).idx as int,
            ),
    {
        let n = self.get_usize()?;
        self.get_symbols(n)
    }

    fn get_var(&mut self, env: &Vec<Symbol>, fvs: &Vec<Symbol>) -> (r: Result<Symbol, DecodeError>)
        ensures
            final(self).buf == old(self).buf,
            r is Ok ==> old(self).idx < final(self).idx <= old(self).buf@.len(),
            decoded(
                r,
                parse_var(old(self).buf@, old(self).idx as int, syms_v(env@), syms_v(fvs@)),
                |x: Symbol| x@,
                final(self).idx as int,
            ),
    {
        let tag = self.get_u8()?;
        if tag == 0 {
            let i = self.get_usize()?;
            if i < env.len() {
                Ok(env[i].copy())
            } else {
                Err(DecodeError::BadIndex)
            }
        } else if tag == 1 {
            let i = self.get_usize()?;
            if i < fvs.len() {
                Ok(fvs[i].copy())
            } else {
                Err(DecodeError::BadIndex)
            }
        } else {
            Err(DecodeError::UnknownTag(tag))
        }
    }

    pub fn get_abt_type(&mut self, env: &Vec<Symbol>, fvs: &Vec<Symbol>) -> (r: Result<
        ABT<Type>,
        DecodeError,
    >)
        ensures
            final(self).buf == old(self).buf,
            r is Ok ==> old(self).idx < final(self).idx <= old(self).buf@.len(),
            decoded(
                r,
                parse_abt_type(old(self).buf@, old(self).idx as int, syms_v(env@), syms_v(fvs@)),
                |x: ABT<Type>| abt_type_v(x),
                final(self).idx as int,
            ),
        decreases old(self).buf@.len() - old(self).idx, 0nat, 0nat,
    {
        let tag = self.get_u8()?;
        if tag == 0 {
            let v = self.get_var(env, fvs)?;
            Ok(ABT::Var(v))
        } else if tag == 1 {
            let t = self.get_type(env, fvs)?;
            Ok(ABT::Tm(t))
        } else if tag == 2 {
            let v = self.get_symbol()?;
            let inner = scope_with(&v, env);
            let b = self.get_abt_type(&inner, fvs)?;
            Ok(ABT::Abs(v, Box::new(b)))
        } else if tag == 3 {
            let b = self.get_abt_type(env, fvs)?;
            Ok(ABT::Cycle(Box::new(b)))
        } else {
            Err(DecodeError::UnknownTag(tag))
        }
    }

    fn get_abt_types(&mut self, n: usize, env: &Vec<Symbol>, fvs: &Vec<Symbol>) -> (r: Result<
        Vec<ABT<Type>>,
        DecodeError,
    >)
        requires
            old(self).idx <= old(self).buf@.len(),
        ensures
            final(self).buf == old(self).buf,
            r is Ok ==> old(self).idx <= final(self).idx <= old(self).buf@.len(),
            n > 0 && r is Ok ==> old(self).idx < final(self).idx,
            decoded(
                r,
                parse_abt_types(
                    old(self).buf@,
                    old(self).idx as int,
                    n as nat,
                    syms_v(env@),
                    syms_v(fvs@),
                ),
                |x: Vec<ABT<Type>>| abt_types_v(x),
                final(self).idx as int,
            ),
        decreases old(self).buf@.len() - old(self).idx, 1nat, n,
    {
        if n == 0 {
            let v: Vec<ABT<Type>> = Vec::new();
            assert(abt_types_v(v) =~= Seq::empty());
            return Ok(v);
        }
        if self.idx >= self.buf.len() {
            return Err(DecodeError::UnexpectedEnd);
        }
        let x = self.get_abt_type(env, fvs)?;
        let mut out = self.get_abt_types(n - 1, env, fvs)?;
        let ghost before = out;
        out.insert(0, x);
        proof {
            lemma_abt_types_v_cons(before, out, x);
        }
        Ok(out)
    }

    fn get_type_pair(&mut self, env: &Vec<Symbol>, fvs: &Vec<Symbol>) -> (r: Result<
        (ABT<Type>, ABT<Type>),
        DecodeError,
    >)
        ensures
            final(self).buf == old(self).buf,
            r is Ok ==> old(self).idx < final(self).idx <= old(self).buf@.len(),
            decoded(
                r,
                parse_type_pair(old(self).buf@, old(self).idx as int, syms_v(env@), syms_v(fvs@)),
                |x: (ABT<Type>, ABT<Type>)| (abt_type_v(x.0), abt_type_v(x.1)),
                final(self).idx as int,
            ),
        decreases old(self).buf@.len() - old(self).idx, 1nat, 0nat,
    {
        if self.idx >= self.buf.len() {
            return Err(DecodeError::UnexpectedEnd);
        }
        let a = self.get_abt_type(env, fvs)?;
        let b = self.get_abt_type(env, fvs)?;
        Ok((a, b))
    }

    pub fn get_type(&mut self, env: &Vec<Symbol>, fvs: &Vec<Symbol>) -> (r: Result<
        Type,
        DecodeError,
    >)
        ensures
            final(self).buf == old(self).buf,
            r is Ok ==> old(self).idx < final(self).idx <= old(self).buf@.len(),
            decoded(
                r,
                parse_type(old(self).buf@, old(self).idx as int, syms_v(env@), syms_v(fvs@)),
                |x: Type| type_v(x),
                final(self).idx as int,
            ),
        decreases old(self).buf@.len() - old(self).idx, 2nat, 0nat,
    {
        let tag = self.get_u8()?;
        if tag == 0 {
            Ok(Type::Ref(self.get_reference()?))
        } else if tag == 1 || tag == 3 || tag == 4 {
            let (a, b) = self.get_type_pair(env, fvs)?;
            if tag == 1 {
                Ok(Type::Arrow(Box::new(a), Box::new(b)))
            } else if tag == 3 {
                Ok(Type::App(Box::new(a), Box::new(b)))
            } else {
                Ok(Type::Effect(Box::new(a), Box::new(b)))
            }
        } else if tag == 2 {
            let a = self.get_abt_type(env, fvs)?;
            let k = self.get_kind()?;
            Ok(Type::Ann(Box::new(a), k))
        } else if tag == 5 {
            let n = self.get_usize()?;
            let ts = self.get_abt_types(n, env, fvs)?;
            Ok(Type::Effects(ts))
        } else if tag == 6 {
            let a = self.get_abt_type(env, fvs)?;
            Ok(Type::Forall(Box::new(a)))
        } else if tag == 7 {
            let a = self.get_abt_type(env, fvs)?;
            Ok(Type::IntroOuter(Box::new(a)))
        } else {
            Err(DecodeError::UnknownTag(tag))
        }
    }

    /// A whole type: its free symbols, then its tree with no bound symbols.
    pub fn get_type_top(&mut self) -> (r: Result<ABT<Type>, DecodeError>)
        ensures
            final(self).buf == old(self).buf,
            r is Ok ==> old(self).idx < final(self).idx <= old(self).buf@.len(),
            decoded(
                r,
                parse_type_top(old(self).buf@, old(self).idx as int),
                |x: ABT<Type>| abt_type_v(x),
                final(self).idx as int,
            ),
    {
        let fvs = self.get_symbol_list()?;
        let env: Vec<Symbol> = Vec::new();
        assert(syms_v(env@) =~= Seq::empty());
        self.get_abt_type(&env, &fvs)
    }
}

impl Buffer {
    pub fn get_abt_term(&mut self, env: &Vec<Symbol>, fvs: &Vec<Symbol>) -> (r: Result<
        ABT<Term>,
        DecodeError,
    >)
        ensures
            final(self).buf == old(self).buf,
            r is Ok ==> old(self).idx < final(self).idx <= old(self).buf@.len(),
            decoded(
                r,
                parse_abt_term(old(self).buf@, old(self).idx as int, syms_v(env@), syms_v(fvs@)),
                |x: ABT<Term>| abt_term_v(x),
                final(self).idx as int,
            ),
        decreases old(self).buf@.len() - old(self).idx, 0nat, 0nat,
    {
        let tag = self.get_u8()?;
        if tag == 0 {
            let v = self.get_var(env, fvs)?;
            Ok(ABT::Var(v))
        } else if tag == 1 {
            let t = self.get_term_node(env, fvs)?;
            Ok(ABT::Tm(t))
        } else if tag == 2 {
            let v = self.get_symbol()?;
            let inner = scope_with(&v, env);
            let b = self.get_abt_term(&inner, fvs)?;
            Ok(ABT::Abs(v, Box::new(b)))
        } else if tag == 3 {
            let b = self.get_abt_term(env, fvs)?;
            Ok(ABT::Cycle(Box::new(b)))
        } else {
            Err(DecodeError::UnknownTag(tag))
        }
    }

    fn get_abt_terms(&mut self, n: usize, env: &Vec<Symbol>, fvs: &Vec<Symbol>) -> (r: Result<
        Vec<Box<ABT<Term>>>,
        DecodeError,
    >)
        requires
            old(self).idx <= old(self).buf@.len(),
        ensures
            final(self).buf == old(self).buf,
            r is Ok ==> old(self).idx <= final(self).idx <= old(self).buf@.len(),
            n > 0 && r is Ok ==> old(self).idx < final(self).idx,
            decoded(
                r,
                parse_abt_terms(
                    old(self).buf@,
                    old(self).idx as int,
                    n as nat,
                    syms_v(env@),
                    syms_v(fvs@),
                ),
                |x: Vec<Box<ABT<Term>>>| abts_v(x),
                final(self).idx as int,
            ),
        decreases old(self).buf@.len() - old(self).idx, 1nat, n,
    {
        if n == 0 {
            let v: Vec<Box<ABT<Term>>> = Vec::new();
            assert(abts_v(v) =~= Seq::empty());
            return Ok(v);
        }
        if self.idx >= self.buf.len() {
            return Err(DecodeError::UnexpectedEnd);
        }
        let x = Box::new(self.get_abt_term(env, fvs)?);
        let mut out = self.get_abt_terms(n - 1, env, fvs)?;
        let ghost before = out;
        out.insert(0, x);
        proof {
            lemma_abts_v_cons(before, out, x);
        }
        Ok(out)
    }

    fn get_abt_term_list(&mut self, env: &Vec<Symbol>, fvs: &Vec<Symbol>) -> (r: Result<
        Vec<Box<ABT<Term>>>,
        DecodeError,
    >)
        ensures
            final(self).buf == old(self).buf,
            r is Ok ==> old(self).idx < final(self).idx <= old(self).buf@.len(),
            decoded(
                r,
                parse_abt_term_list(
                    old(self).buf@,
                    old(self).idx as int,
                    syms_v(env@),
                    syms_v(fvs@),
                ),
                |x: Vec<Box<ABT<Term>>>| abts_v(x),
                final(self).idx as int,
            ),
        decreases old(self).buf@.len() - old(self).idx, 2nat, 0nat,
    {
        let n = self.get_usize()?;
        self.get_abt_terms(n, env, fvs)
    }

    fn get_term_pair(&mut self, env: &Vec<Symbol>, fvs: &Vec<Symbol>) -> (r: Result<
        (ABT<Term>, ABT<Term>),
        DecodeError,
    >)
        ensures
            final(self).buf == old(self).buf,
            r is Ok ==> old(self).idx < final(self).idx <= old(self).buf@.len(),
            decoded(
                r,
                parse_term_pair(old(self).buf@, old(self).idx as int, syms_v(env@), syms_v(fvs@)),
                |x: (ABT<Term>, ABT<Term>)| (abt_term_v(x.0), abt_term_v(x.1)),
                final(self).idx as int,
            ),
        decreases old(self).buf@.len() - old(self).idx, 1nat, 0nat,
    {
        if self.idx >= self.buf.len() {
            return Err(DecodeError::UnexpectedEnd);
        }
        let a = self.get_abt_term(env, fvs)?;
        let b = self.get_abt_term(env, fvs)?;
        Ok((a, b))
    }

    fn get_guard(&mut self, env: &Vec<Symbol>, fvs: &Vec<Symbol>) -> (r: Result<
        Option<Box<ABT<Term>>>,
        DecodeError,
    >)
        ensures
            final(self).buf == old(self).buf,
            r is Ok ==> old(self).idx < final(self).idx <= old(self).buf@.len(),
            decoded(
                r,
                parse_guard(old(self).buf@, old(self).idx as int, syms_v(env@), syms_v(fvs@)),
                |x: Option<Box<ABT<Term>>>|
                    match x {
                        Some(g) => Some(abt_term_v(*g)),
                        None => None,
                    },
                final(self).idx as int,
            ),
        decreases old(self).buf@.len() - old(self).idx, 0nat, 0nat,
    {
        let tag = self.get_u8()?;
        if tag == 0 {
            Ok(None)
        } else if tag == 1 {
            let g = self.get_abt_term(env, fvs)?;
            Ok(Some(Box::new(g)))
        } else {
            Err(DecodeError::UnknownTag(tag))
        }
    }

    pub fn get_case(&mut self, env: &Vec<Symbol>, fvs: &Vec<Symbol>) -> (r: Result<
        MatchCase,
        DecodeError,
    >)
        ensures
            final(self).buf == old(self).buf,
            r is Ok ==> old(self).idx < final(self).idx <= old(self).buf@.len(),
            decoded(
                r,
                parse_case(old(self).buf@, old(self).idx as int, syms_v(env@), syms_v(fvs@)),
                |x: MatchCase| case_v(x),
                final(self).idx as int,
            ),
        decreases old(self).buf@.len() - old(self).idx, 0nat, 0nat,
    {
        let pat = self.get_pattern()?;
        let g = self.get_guard(env, fvs)?;
        let b = self.get_abt_term(env, fvs)?;
        Ok(MatchCase(pat, g, Box::new(b)))
    }

    fn get_cases(&mut self, n: usize, env: &Vec<Symbol>, fvs: &Vec<Symbol>) -> (r: Result<
        Vec<MatchCase>,
        DecodeError,
    >)
        requires
            old(self).idx <= old(self).buf@.len(),
        ensures
            final(self).buf == old(self).buf,
            r is Ok ==> old(self).idx <= final(self).idx <= old(self).buf@.len(),
            n > 0 && r is Ok ==> old(self).idx < final(self).idx,
            decoded(
                r,
                parse_cases(
                    old(self).buf@,
                    old(self).idx as int,
                    n as nat,
                    syms_v(env@),
                    syms_v(fvs@),
                ),
                |x: Vec<MatchCase>| cases_v(x),
                final(self).idx as int,
            ),
        decreases old(self).buf@.len() - old(self).idx, 1nat, n,
    {
        if n == 0 {
            let v: Vec<MatchCase> = Vec::new();
            assert(cases_v(v) =~= Seq::empty());
            return Ok(v);
        }
        if self.idx >= self.buf.len() {
            return Err(DecodeError::UnexpectedEnd);
        }
        let x = self.get_case(env, fvs)?;
        let mut out = self.get_cases(n - 1, env, fvs)?;
        let ghost before = out;
        out.insert(0, x);
        proof {
            lemma_cases_v_cons(before, out, x);
        }
        Ok(out)
    }

    #[verifier::rlimit(100)]
    #[verifier::spinoff_prover]
    pub fn get_term_node(&mut self, env: &Vec<Symbol>, fvs: &Vec<Symbol>) -> (r: Result<
        Term,
        DecodeError,
    >)
        ensures
            final(self).buf == old(self).buf,
            r is Ok ==> old(self).idx < final(self).idx <= old(self).buf@.len(),
            decoded(
                r,
                parse_term(old(self).buf@, old(self).idx as int, syms_v(env@), syms_v(fvs@)),
                |x: Term| term_v(x),
                final(self).idx as int,
            ),
        decreases old(self).buf@.len() - old(self).idx, 3nat, 0nat,
    {
        let tag = self.get_u8()?;
        if tag == 0 {
            Ok(Term::Int(self.get_i64()?))
        } else if tag == 1 {
            Ok(Term::Nat(self.get_u64()?))
        } else if tag == 2 {
            Ok(Term::Float(self.get_u64()?))
        } else if tag == 3 {
            Ok(Term::Boolean(self.get_bool()?))
        } else if tag == 4 {
            Ok(Term::Text(self.get_text()?))
        } else if tag == 5 {
            Ok(Term::Ref(self.get_reference()?))
        } else if tag == 21 {
            Ok(Term::TypeLink(self.get_reference()?))
        } else if tag == 6 || tag == 7 {
            let rf = self.get_reference()?;
            let n = self.get_usize()?;
            if tag == 6 {
                Ok(Term::Constructor(rf, n))
            } else {
                Ok(Term::Request(rf, n))
            }
        } else if tag == 8 || tag == 9 || tag == 13 || tag == 14 || tag == 17 {
            let (a, b) = self.get_term_pair(env, fvs)?;
            let (a, b) = (Box::new(a), Box::new(b));
            if tag == 8 {
                Ok(Term::Handle(a, b))
            } else if tag == 9 {
                Ok(Term::App(a, b))
            } else if tag == 13 {
                Ok(Term::And(a, b))
            } else if tag == 14 {
                Ok(Term::Or(a, b))
            } else {
                Ok(Term::Let(false, a, b))
            }
        } else if tag == 10 {
            let a = self.get_abt_term(env, fvs)?;
            let t = self.get_type_top()?;
            Ok(Term::Ann(Box::new(a), t))
        } else if tag == 11 {
            Ok(Term::Sequence(self.get_abt_term_list(env, fvs)?))
        } else if tag == 12 {
            let (a, b) = self.get_term_pair(env, fvs)?;
            let c = self.get_abt_term(env, fvs)?;
            Ok(Term::If(Box::new(a), Box::new(b), Box::new(c)))
        } else if tag == 15 {
            let a = self.get_abt_term(env, fvs)?;
            Ok(Term::Lam(Box::new(a)))
        } else if tag == 16 {
            let ts = self.get_abt_term_list(env, fvs)?;
            let b = self.get_abt_term(env, fvs)?;
            Ok(Term::LetRec(false, ts, Box::new(b)))
        } else if tag == 18 {
            let a = self.get_abt_term(env, fvs)?;
            let n = self.get_usize()?;
            let cs = self.get_cases(n, env, fvs)?;
            Ok(Term::Match(Box::new(a), cs))
        } else if tag == 19 {
            Ok(Term::Char(self.get_char()?))
        } else if tag == 20 {
            Ok(Term::TermLink(self.get_referent()?))
        } else {
            Err(DecodeError::UnknownTag(tag))
        }
    }

    /// A whole term: its free symbols, then its tree with no bound symbols.
    pub fn get_term(&mut self) -> (r: Result<ABT<Term>, DecodeError>)
        ensures
            final(self).buf == old(self).buf,
            r is Ok ==> old(self).idx < final(self).idx <= old(self).buf@.len(),
            decoded(
                r,
                parse_term_top(old(self).buf@, old(self).idx as int),
                |x: ABT<Term>| abt_term_v(x),
                final(self).idx as int,
            ),
    {
        let fvs = self.get_symbol_list()?;
        let env: Vec<Symbol> = Vec::new();
        assert(syms_v(env@) =~= Seq::empty());
        self.get_abt_term(&env, &fvs)
    }
}

/// Decoding the bytes of a symbol, wherever they stand, gives that symbol.
pub proof fn lemma_parse_symbol_bytes(s: Seq<u8>, p: int, num: nat, text: Seq<char>)
    requires
        0 <= p,
        num <= usize::MAX,
        encode_utf8(text).len() <= usize::MAX,
        p + symbol_bytes(num, text).len() <= s.len(),
        s.subrange(p, p + symbol_bytes(num, text).len()) == symbol_bytes(num, text),
    ensures
        parse_symbol(s, p) == Ok::<(SymbolV, int), DecodeError>(
            (SymbolV { num: num as usize, text }, p + symbol_bytes(num, text).len()),
        ),
{
    let enc = encode_utf8(text);
    let a = varint_bytes(num);
    let b = varint_bytes(enc.len());
    let sb = symbol_bytes(num, text);
    let p1 = p + a.len();
    let p2 = p1 + b.len();
    let whole = s.subrange(p, p + sb.len());
    assert(s.subrange(p, p1) =~= whole.subrange(0, a.len() as int));
    assert(sb.subrange(0, a.len() as int) =~= a);
    lemma_varint_round_trip(num, s, p);
    assert(s.subrange(p1, p2) =~= whole.subrange(a.len() as int, (a.len() + b.len()) as int));
    assert(sb.subrange(a.len() as int, (a.len() + b.len()) as int) =~= b);
    lemma_varint_round_trip(enc.len(), s, p1);
    assert(s.subrange(p2, p2 + enc.len()) =~= whole.subrange((a.len() + b.len()) as int, sb.len() as int));
    assert(sb.subrange((a.len() + b.len()) as int, sb.len() as int) =~= enc);
    encode_utf8_valid_utf8(text);
    encode_utf8_decode_utf8(text);
}

/// Under a binder, bound index 0 names that binder's own symbol, whatever the enclosing
/// scope already binds.
pub proof fn lemma_binder_scoping(
    s: Seq<u8>,
    num: nat,
    text: Seq<char>,
    env: Seq<SymbolV>,
    fvs: Seq<SymbolV>,
)
    requires
        num <= usize::MAX,
        encode_utf8(text).len() <= usize::MAX,
        s == seq![2u8] + symbol_bytes(num, text) + seq![0u8, 0u8, 0u8],
    ensures
        ({
            let v = SymbolV { num: num as usize, text };
            parse_abt_term(s, 0, env, fvs) == Ok::<(AbtV<TermV>, int), DecodeError>(
                (AbtV::Abs(v, Box::new(AbtV::Var(v))), s.len() as int),
            )
        }),
{
    let sb = symbol_bytes(num, text);
    let q = 1 + sb.len() as int;
    assert(s.subrange(1, q) =~= sb);
    lemma_parse_symbol_bytes(s, 1, num, text);
    let v = SymbolV { num: num as usize, text };
    assert(s[q] == 0 && s[q + 1] == 0 && s[q + 2] == 0);
    assert(varint_at(s, q + 2) == Some((0nat, q + 3)));
    assert(parse_var(s, q + 1, seq![v] + env, fvs) == Ok::<(SymbolV, int), DecodeError>((v, q + 3)));
    assert(parse_abt_term(s, q, seq![v] + env, fvs) == Ok::<(AbtV<TermV>, int), DecodeError>(
        (AbtV::Var(v), q + 3),
    ));
    assert(parse_symbol(s, 1) == Ok::<(SymbolV, int), DecodeError>((v, q)));
    assert(moved(s, 0, q));
    assert(s[0] == 2);
}

/// Binders resolve by position, not by text: under two binders, bound index 1 names the
/// outer one, even where both have the same text.
pub proof fn lemma_nested_binders_resolve_by_position(
    s: Seq<u8>,
    num1: nat,
    text1: Seq<char>,
    num2: nat,
    text2: Seq<char>,
    env: Seq<SymbolV>,
    fvs: Seq<SymbolV>,
)
    requires
        num1 <= usize::MAX,
        num2 <= usize::MAX,
        encode_utf8(text1).len() <= usize::MAX,
        encode_utf8(text2).len() <= usize::MAX,
        s == seq![2u8] + symbol_bytes(num1, text1) + seq![2u8] + symbol_bytes(num2, text2) + seq![
            0u8,
            0u8,
            1u8,
        ],
    ensures
        ({
            let v1 = SymbolV { num: num1 as usize, text: text1 };
            let v2 = SymbolV { num: num2 as usize, text: text2 };
            parse_abt_term(s, 0, env, fvs) == Ok::<(AbtV<TermV>, int), DecodeError>(
                (AbtV::Abs(v1, Box::new(AbtV::Abs(v2, Box::new(AbtV::Var(v1))))), s.len() as int),
            )
        }),
{
    let sb1 = symbol_bytes(num1, text1);
    let sb2 = symbol_bytes(num2, text2);
    let q1 = 1 + sb1.len() as int;
    let q2 = q1 + 1 + sb2.len() as int;
    assert(s.subrange(1, q1) =~= sb1);
    lemma_parse_symbol_bytes(s, 1, num1, text1);
    assert(s[q1] == 2);
    assert(s.subrange(q1 + 1, q2) =~= sb2);
    lemma_parse_symbol_bytes(s, q1 + 1, num2, text2);
    let v1 = SymbolV { num: num1 as usize, text: text1 };
    let v2 = SymbolV { num: num2 as usize, text: text2 };
    let env2 = seq![v2] + (seq![v1] + env);
    assert(s[q2] == 0 && s[q2 + 1] == 0 && s[q2 + 2] == 1);
    assert(varint_at(s, q2 + 2) == Some((1nat, q2 + 3)));
    assert(env2[1] == v1);
    assert(parse_var(s, q2 + 1, env2, fvs) == Ok::<(SymbolV, int), DecodeError>((v1, q2 + 3)));
    assert(parse_abt_term(s, q2, env2, fvs) == Ok::<(AbtV<TermV>, int), DecodeError>(
        (AbtV::Var(v1), q2 + 3),
    ));
    assert(parse_symbol(s, q1 + 1) == Ok::<(SymbolV, int), DecodeError>((v2, q2)));
    assert(moved(s, q1, q2));
    assert(parse_symbol(s, 1) == Ok::<(SymbolV, int), DecodeError>((v1, q1)));
    assert(moved(s, 0, q1));
    assert(s[0] == 2);
    assert(parse_abt_term(s, q1, seq![v1] + env, fvs) == Ok::<(AbtV<TermV>, int), DecodeError>(
        (AbtV::Abs(v2, Box::new(AbtV::Var(v1))), q2 + 3),
    ));
}

} // verus!
