//! The builtin operators: integer, natural and boolean arithmetic and the generic
//! comparisons.
use vstd::prelude::*;
use crate::types::{Referent, ConstructorType};
use crate::value::{Value, Values, EvalError, same_text};
use crate::pattern::same_ref;
use vstd::string::StrSliceExecFns;

verus! {

/// Whether `s` holds the characters of `lit`.
pub fn is_name(s: &String, lit: &str) -> (r: bool)
    ensures
        r == (s@ == lit@),
{
    let t = lit.to_owned();
    same_text(s, &t)
}

/// `a` to the power `n`, wrapping on overflow.
pub open spec fn int_pow(a: i64, n: nat) -> i64
    decreases n,
{
    if n == 0 {
        1
    } else {
        int_pow(a, (n - 1) as nat).wrapping_mul(a)
    }
}

/// `a` to the power `n`, wrapping on overflow.
pub open spec fn nat_pow(a: u64, n: nat) -> u64
    decreases n,
{
    if n == 0 {
        1
    } else {
        nat_pow(a, (n - 1) as nat).wrapping_mul(a)
    }
}

fn int_power(a: i64, n: u32) -> (r: i64)
    ensures
        r == int_pow(a, n as nat),
{
    let mut r: i64 = 1;
    let mut i: u32 = 0;
    while i < n
        invariant
            i <= n,
            r == int_pow(a, i as nat),
        decreases n - i,
    {
        r = r.wrapping_mul(a);
        i = i + 1;
    }
    r
}

fn nat_power(a: u64, n: u32) -> (r: u64)
    ensures
        r == nat_pow(a, n as nat),
{
    let mut r: u64 = 1;
    let mut i: u32 = 0;
    while i < n
        invariant
            i <= n,
            r == nat_pow(a, i as nat),
        decreases n - i,
    {
        r = r.wrapping_mul(a);
        i = i + 1;
    }
    r
}

/// What a one-argument builtin gives for `v`, if it has a rule for it.
pub open spec fn native_unary<'a>(name: Seq<char>, v: Value<'a>) -> Option<Value<'a>> {
    match v {
        Value::Int(i) => if name == "Int.increment"@ {
            Some(Value::Int(i.wrapping_add(1)))
        } else if name == "Int.negate"@ {
            Some(Value::Int(0i64.wrapping_sub(i)))
        } else if name == "Int.isEven"@ {
            Some(Value::Boolean(i.checked_rem(2) == Some(0i64)))
        } else if name == "Int.isOdd"@ {
            Some(Value::Boolean(i.checked_rem(2) == Some(1i64)))
        } else {
            None
        },
        Value::Nat(n) => if name == "Nat.increment"@ {
            Some(Value::Nat(n.wrapping_add(1)))
        } else if name == "Nat.isEven"@ {
            Some(Value::Boolean(n % 2 == 0))
        } else if name == "Nat.isOdd"@ {
            Some(Value::Boolean(n % 2 == 1))
        } else if name == "Nat.toInt"@ {
            Some(Value::Int(n as i64))
        } else {
            None
        },
        Value::Boolean(b) => if name == "Boolean.not"@ {
            Some(Value::Boolean(!b))
        } else {
            None
        },
        _ => None,
    }
}

/// A quotient or remainder, or the error for a zero divisor.
pub open spec fn checked<'a, T>(r: Option<T>, f: spec_fn(T) -> Value<'a>) -> Result<Value<'a>, EvalError> {
    match r {
        Some(x) => Ok(f(x)),
        None => Err(EvalError::Arithmetic),
    }
}

/// What a two-argument builtin on integers gives.
pub open spec fn int_binary<'a>(name: Seq<char>, a: i64, b: i64) -> Result<Value<'a>, EvalError> {
    if name == "Int.+"@ {
        Ok(Value::Int(a.wrapping_add(b)))
    } else if name == "Int.-"@ {
        Ok(Value::Int(a.wrapping_sub(b)))
    } else if name == "Int.*"@ {
        Ok(Value::Int(a.wrapping_mul(b)))
    } else if name == "Int./"@ {
        checked(a.checked_div(b), |x: i64| Value::Int(x))
    } else if name == "Int.<"@ {
        Ok(Value::Boolean(a < b))
    } else if name == "Int.<="@ {
        Ok(Value::Boolean(a <= b))
    } else if name == "Int.>"@ {
        Ok(Value::Boolean(a > b))
    } else if name == "Int.>="@ {
        Ok(Value::Boolean(a >= b))
    } else if name == "Int.=="@ {
        Ok(Value::Boolean(a == b))
    } else if name == "Int.and"@ {
        Ok(Value::Int(a & b))
    } else if name == "Int.or"@ {
        Ok(Value::Int(a | b))
    } else if name == "Int.xor"@ {
        Ok(Value::Int(a ^ b))
    } else if name == "Int.mod"@ {
        checked(a.checked_rem(b), |x: i64| Value::Int(x))
    } else {
        Err(EvalError::BadOperands)
    }
}

/// What a two-argument builtin on an integer and a natural gives. As the operator table
/// names them, `shiftLeft` moves bits toward the low end and `shiftRight` toward the high
/// end.
pub open spec fn int_nat_binary<'a>(name: Seq<char>, a: i64, b: u64) -> Result<Value<'a>, EvalError> {
    if name == "Int.pow"@ {
        Ok(Value::Int(int_pow(a, (b as u32) as nat)))
    } else if name == "Int.shiftLeft"@ {
        Ok(Value::Int(a.wrapping_shr(b as u32)))
    } else if name == "Int.shiftRight"@ {
        Ok(Value::Int(a.wrapping_shl(b as u32)))
    } else {
        Err(EvalError::BadOperands)
    }
}

/// What a two-argument builtin on naturals gives.
pub open spec fn nat_binary<'a>(name: Seq<char>, a: u64, b: u64) -> Result<Value<'a>, EvalError> {
    if name == "Nat.+"@ {
        Ok(Value::Nat(a.wrapping_add(b)))
    } else if name == "Nat.*"@ {
        Ok(Value::Nat(a.wrapping_mul(b)))
    } else if name == "Nat./"@ {
        checked(a.checked_div(b), |x: u64| Value::Nat(x))
    } else if name == "Nat.>"@ {
        Ok(Value::Boolean(a > b))
    } else if name == "Nat.>="@ {
        Ok(Value::Boolean(a >= b))
    } else if name == "Nat.<"@ {
        Ok(Value::Boolean(a < b))
    } else if name == "Nat.<="@ {
        Ok(Value::Boolean(a <= b))
    } else if name == "Nat.=="@ {
        Ok(Value::Boolean(a == b))
    } else if name == "Nat.and"@ {
        Ok(Value::Nat(a & b))
    } else if name == "Nat.or"@ {
        Ok(Value::Nat(a | b))
    } else if name == "Nat.xor"@ {
        Ok(Value::Nat(a ^ b))
    } else if name == "Nat.mod"@ {
        checked(a.checked_rem(b), |x: u64| Value::Nat(x))
    } else if name == "Nat.pow"@ {
        Ok(Value::Nat(nat_pow(a, (b as u32) as nat)))
    } else if name == "Nat.shiftLeft"@ {
        Ok(Value::Nat(a.wrapping_shr(b as u32)))
    } else if name == "Nat.shiftRight"@ {
        Ok(Value::Nat(a.wrapping_shl(b as u32)))
    } else {
        Err(EvalError::BadOperands)
    }
}

/// Whether a value is plain data: literals, references and links, and sequences and
/// constructor applications of plain data. Only plain data can be compared.
pub open spec fn is_data<'a>(v: Value<'a>) -> bool
    decreases v, 1nat,
{
    match v {
        Value::Int(_) | Value::Nat(_) | Value::Float(_) | Value::Boolean(_) | Value::Text(_)
        | Value::Char(_) | Value::Blank | Value::Ref(_) | Value::Constructor(_, _) | Value::Request(
            _,
            _,
        ) | Value::TermLink(_) | Value::TypeLink(_) => true,
        Value::Sequence(vs) => all_data(vs),
        Value::PartialConstructor(_, _, vs) => all_data(vs),
        _ => false,
    }
}

pub open spec fn all_data<'a>(vs: Values<'a>) -> bool
    decreases vs, 0nat,
{
    match vs {
        Values::Nil => true,
        Values::Cons(h, t) => is_data(*h) && all_data(*t),
    }
}

/// Structural equality of plain data; texts and references compare by content.
pub open spec fn data_eq<'a>(a: Value<'a>, b: Value<'a>) -> bool
    decreases a, 1nat,
{
    match (a, b) {
        (Value::Text(x), Value::Text(y)) => x@ == y@,
        (Value::Ref(x), Value::Ref(y)) => x@ == y@,
        (Value::TypeLink(x), Value::TypeLink(y)) => x@ == y@,
        (Value::TermLink(x), Value::TermLink(y)) => x@ == y@,
        (Value::Constructor(x, n), Value::Constructor(y, m)) => x@ == y@ && n == m,
        (Value::Request(x, n), Value::Request(y, m)) => x@ == y@ && n == m,
        (Value::Sequence(xs), Value::Sequence(ys)) => all_eq(xs, ys),
        (Value::PartialConstructor(x, n, xs), Value::PartialConstructor(y, m, ys)) => x@ == y@ && n
            == m && all_eq(xs, ys),
        (Value::Int(x), Value::Int(y)) => x == y,
        (Value::Nat(x), Value::Nat(y)) => x == y,
        (Value::Float(x), Value::Float(y)) => x == y,
        (Value::Boolean(x), Value::Boolean(y)) => x == y,
        (Value::Char(x), Value::Char(y)) => x == y,
        (Value::Blank, Value::Blank) => true,
        _ => false,
    }
}

pub open spec fn all_eq<'a>(xs: Values<'a>, ys: Values<'a>) -> bool
    decreases xs, 0nat,
{
    match (xs, ys) {
        (Values::Nil, Values::Nil) => true,
        (Values::Cons(x, xt), Values::Cons(y, yt)) => data_eq(*x, *y) && all_eq(*xt, *yt),
        _ => false,
    }
}

/// How two texts order, character by character: -1, 0 or 1.
pub open spec fn text_order(a: Seq<char>, b: Seq<char>) -> i64
    decreases a.len(),
{
    if a.len() == 0 {
        if b.len() == 0 {
            0i64
        } else {
            -1i64
        }
    } else if b.len() == 0 {
        1i64
    } else if (a[0] as u32) < (b[0] as u32) {
        -1i64
    } else if (a[0] as u32) > (b[0] as u32) {
        1i64
    } else {
        text_order(a.drop_first(), b.drop_first())
    }
}

/// How two plain scalars of the same kind order, if they do: -1, 0 or 1.
pub open spec fn compare<'a>(a: Value<'a>, b: Value<'a>) -> Option<i64> {
    let c = |lt: bool, gt: bool| if lt { -1i64 } else if gt { 1i64 } else { 0i64 };
    match (a, b) {
        (Value::Int(x), Value::Int(y)) => Some(c(x < y, x > y)),
        (Value::Nat(x), Value::Nat(y)) => Some(c(x < y, x > y)),
        (Value::Boolean(x), Value::Boolean(y)) => Some(c(!x && y, x && !y)),
        (Value::Char(x), Value::Char(y)) => Some(c((x as u32) < (y as u32), (x as u32) > (y as u32))),
        (Value::Text(x), Value::Text(y)) => Some(text_order(x@, y@)),
        _ => None,
    }
}

/// What the generic comparisons give.
pub open spec fn universal_binary<'a>(name: Seq<char>, a: Value<'a>, b: Value<'a>) -> Result<
    Value<'a>,
    EvalError,
> {
    if name == "Universal.=="@ {
        if is_data(a) && is_data(b) {
            Ok(Value::Boolean(data_eq(a, b)))
        } else {
            Err(EvalError::BadOperands)
        }
    } else {
        match compare(a, b) {
            None => Err(EvalError::BadOperands),
            Some(c) => if name == "Universal.<"@ {
                Ok(Value::Boolean(c < 0))
            } else if name == "Universal.>"@ {
                Ok(Value::Boolean(c > 0))
            } else if name == "Universal.<="@ {
                Ok(Value::Boolean(c <= 0))
            } else if name == "Universal.>="@ {
                Ok(Value::Boolean(c >= 0))
            } else if name == "Universal.compare"@ {
                Ok(Value::Int(c))
            } else {
                Err(EvalError::BadOperands)
            },
        }
    }
}

/// The names of the generic comparisons.
pub open spec fn universal_name(name: Seq<char>) -> bool {
    name == "Universal.=="@ || name == "Universal.<"@ || name == "Universal.>"@ || name
        == "Universal.<="@ || name == "Universal.>="@ || name == "Universal.compare"@
}

/// What a two-argument builtin gives for `a` and `b`.
pub open spec fn native_binary<'a>(name: Seq<char>, a: Value<'a>, b: Value<'a>) -> Result<
    Value<'a>,
    EvalError,
> {
    if universal_name(name) {
        universal_binary(name, a, b)
    } else {
        match (a, b) {
            (Value::Int(x), Value::Int(y)) => int_binary(name, x, y),
            (Value::Int(x), Value::Nat(y)) => int_nat_binary(name, x, y),
            (Value::Nat(x), Value::Nat(y)) => nat_binary(name, x, y),
            _ => Err(EvalError::BadOperands),
        }
    }
}

fn is_data_exec(v: &Value) -> (r: bool)
    ensures
        r == is_data(*v),
    decreases *v, 1nat,
{
    match v {
        Value::Sequence(vs) => all_data_exec(vs),
        Value::PartialConstructor(_, _, vs) => all_data_exec(vs),
        Value::Int(_) | Value::Nat(_) | Value::Float(_) | Value::Boolean(_) | Value::Text(_)
        | Value::Char(_) | Value::Blank | Value::Ref(_) | Value::Constructor(_, _) | Value::Request(
            _,
            _,
        ) | Value::TermLink(_) | Value::TypeLink(_) => true,
        _ => false,
    }
}

fn all_data_exec(vs: &Values) -> (r: bool)
    ensures
        r == all_data(*vs),
    decreases *vs, 0nat,
{
    match vs {
        Values::Nil => true,
        Values::Cons(h, t) => is_data_exec(h) && all_data_exec(t),
    }
}

fn same_referent(a: &Referent, b: &Referent) -> (r: bool)
    ensures
        r == (a@ == b@),
{
    match (a, b) {
        (Referent::Ref(x), Referent::Ref(y)) => same_ref(x, y),
        (Referent::Con(x, n, c), Referent::Con(y, m, d)) => same_ref(x, y) && *n == *m && (match (
            c,
            d,
        ) {
            (ConstructorType::Data, ConstructorType::Data) => true,
            (ConstructorType::Effect, ConstructorType::Effect) => true,
            _ => false,
        }),
        _ => false,
    }
}

fn data_eq_exec(a: &Value, b: &Value) -> (r: bool)
    ensures
        r == data_eq(*a, *b),
    decreases *a, 1nat,
{
    match (a, b) {
        (Value::Text(x), Value::Text(y)) => same_text(x, y),
        (Value::Ref(x), Value::Ref(y)) => same_ref(x, y),
        (Value::TypeLink(x), Value::TypeLink(y)) => same_ref(x, y),
        (Value::TermLink(x), Value::TermLink(y)) => same_referent(x, y),
        (Value::Constructor(x, n), Value::Constructor(y, m)) => same_ref(x, y) && *n == *m,
        (Value::Request(x, n), Value::Request(y, m)) => same_ref(x, y) && *n == *m,
        (Value::Sequence(xs), Value::Sequence(ys)) => all_eq_exec(xs, ys),
        (Value::PartialConstructor(x, n, xs), Value::PartialConstructor(y, m, ys)) => same_ref(x, y)
            && *n == *m && all_eq_exec(xs, ys),
        (Value::Int(x), Value::Int(y)) => *x == *y,
        (Value::Nat(x), Value::Nat(y)) => *x == *y,
        (Value::Float(x), Value::Float(y)) => *x == *y,
        (Value::Boolean(x), Value::Boolean(y)) => *x == *y,
        (Value::Char(x), Value::Char(y)) => *x == *y,
        (Value::Blank, Value::Blank) => true,
        _ => false,
    }
}

fn all_eq_exec(xs: &Values, ys: &Values) -> (r: bool)
    ensures
        r == all_eq(*xs, *ys),
    decreases *xs, 0nat,
{
    match (xs, ys) {
        (Values::Nil, Values::Nil) => true,
        (Values::Cons(x, xt), Values::Cons(y, yt)) => data_eq_exec(x, y) && all_eq_exec(xt, yt),
        _ => false,
    }
}

fn text_order_exec(a: &String, b: &String) -> (r: i64)
    ensures
        r == text_order(a@, b@),
{
    let x = a.as_str();
    let y = b.as_str();
    let n = x.unicode_len();
    let m = y.unicode_len();
    let mut i: usize = 0;
    assert(a@.skip(0) =~= a@ && b@.skip(0) =~= b@);
    while i < n && i < m
        invariant
            n == x@.len(),
            m == y@.len(),
            i <= n,
            i <= m,
            x@ == a@,
            y@ == b@,
            text_order(a@, b@) == text_order(a@.skip(i as int), b@.skip(i as int)),
        decreases n - i,
    {
        let c = x.get_char(i);
        let d = y.get_char(i);
        assert(a@.skip(i as int)[0] == c && b@.skip(i as int)[0] == d);
        if (c as u32) < (d as u32) {
            return -1;
        }
        if (c as u32) > (d as u32) {
            return 1;
        }
        assert(a@.skip(i as int).drop_first() =~= a@.skip(i + 1));
        assert(b@.skip(i as int).drop_first() =~= b@.skip(i + 1));
        i = i + 1;
    }
    assert(a@.skip(i as int).len() == 0 || b@.skip(i as int).len() == 0);
    if i < n {
        1
    } else if i < m {
        -1
    } else {
        0
    }
}

fn order(lt: bool, gt: bool) -> (r: i64)
    ensures
        r == (if lt { -1i64 } else if gt { 1i64 } else { 0i64 }),
{
    if lt { -1 } else if gt { 1 } else { 0 }
}

fn compare_exec<'a>(a: &Value<'a>, b: &Value<'a>) -> (r: Option<i64>)
    ensures
        r == compare(*a, *b),
{
    match (a, b) {
        (Value::Int(x), Value::Int(y)) => Some(order(*x < *y, *x > *y)),
        (Value::Nat(x), Value::Nat(y)) => Some(order(*x < *y, *x > *y)),
        (Value::Boolean(x), Value::Boolean(y)) => Some(order(!*x && *y, *x && !*y)),
        (Value::Char(x), Value::Char(y)) => Some(order((*x as u32) < (*y as u32), (*x as u32) > (*y as u32))),
        (Value::Text(x), Value::Text(y)) => Some(text_order_exec(x, y)),
        _ => None,
    }
}

/// Applies a one-argument builtin to `v`; `None` when it has no rule for it.
pub fn apply_unary<'a>(name: &String, v: &Value<'a>) -> (r: Option<Value<'a>>)
    ensures
        r == native_unary(name@, *v),
{
    match v {
        Value::Int(i) => {
            let i = *i;
            if is_name(name, "Int.increment") {
                Some(Value::Int(i.wrapping_add(1)))
            } else if is_name(name, "Int.negate") {
                Some(Value::Int(0i64.wrapping_sub(i)))
            } else if is_name(name, "Int.isEven") {
                Some(Value::Boolean(i.checked_rem(2) == Some(0i64)))
            } else if is_name(name, "Int.isOdd") {
                Some(Value::Boolean(i.checked_rem(2) == Some(1i64)))
            } else {
                None
            }
        },
        Value::Nat(n) => {
            let n = *n;
            if is_name(name, "Nat.increment") {
                Some(Value::Nat(n.wrapping_add(1)))
            } else if is_name(name, "Nat.isEven") {
                Some(Value::Boolean(n % 2 == 0))
            } else if is_name(name, "Nat.isOdd") {
                Some(Value::Boolean(n % 2 == 1))
            } else if is_name(name, "Nat.toInt") {
                Some(Value::Int(n as i64))
            } else {
                None
            }
        },
        Value::Boolean(b) => if is_name(name, "Boolean.not") {
            Some(Value::Boolean(!*b))
        } else {
            None
        },
        _ => None,
    }
}

fn int_binary_exec<'a>(name: &String, a: i64, b: i64) -> (r: Result<Value<'a>, EvalError>)
    ensures
        r == int_binary::<'a>(name@, a, b),
{
    if is_name(name, "Int.+") {
        Ok(Value::Int(a.wrapping_add(b)))
    } else if is_name(name, "Int.-") {
        Ok(Value::Int(a.wrapping_sub(b)))
    } else if is_name(name, "Int.*") {
        Ok(Value::Int(a.wrapping_mul(b)))
    } else if is_name(name, "Int./") {
        match a.checked_div(b) {
            Some(x) => Ok(Value::Int(x)),
            None => Err(EvalError::Arithmetic),
        }
    } else if is_name(name, "Int.<") {
        Ok(Value::Boolean(a < b))
    } else if is_name(name, "Int.<=") {
        Ok(Value::Boolean(a <= b))
    } else if is_name(name, "Int.>") {
        Ok(Value::Boolean(a > b))
    } else if is_name(name, "Int.>=") {
        Ok(Value::Boolean(a >= b))
    } else if is_name(name, "Int.==") {
        Ok(Value::Boolean(a == b))
    } else if is_name(name, "Int.and") {
        Ok(Value::Int(a & b))
    } else if is_name(name, "Int.or") {
        Ok(Value::Int(a | b))
    } else if is_name(name, "Int.xor") {
        Ok(Value::Int(a ^ b))
    } else if is_name(name, "Int.mod") {
        match a.checked_rem(b) {
            Some(x) => Ok(Value::Int(x)),
            None => Err(EvalError::Arithmetic),
        }
    } else {
        Err(EvalError::BadOperands)
    }
}

fn int_nat_binary_exec<'a>(name: &String, a: i64, b: u64) -> (r: Result<Value<'a>, EvalError>)
    ensures
        r == int_nat_binary::<'a>(name@, a, b),
{
    if is_name(name, "Int.pow") {
        Ok(Value::Int(int_power(a, b as u32)))
    } else if is_name(name, "Int.shiftLeft") {
        Ok(Value::Int(a.wrapping_shr(b as u32)))
    } else if is_name(name, "Int.shiftRight") {
        Ok(Value::Int(a.wrapping_shl(b as u32)))
    } else {
        Err(EvalError::BadOperands)
    }
}

fn nat_binary_exec<'a>(name: &String, a: u64, b: u64) -> (r: Result<Value<'a>, EvalError>)
    ensures
        r == nat_binary::<'a>(name@, a, b),
{
    if is_name(name, "Nat.+") {
        Ok(Value::Nat(a.wrapping_add(b)))
    } else if is_name(name, "Nat.*") {
        Ok(Value::Nat(a.wrapping_mul(b)))
    } else if is_name(name, "Nat./") {
        match a.checked_div(b) {
            Some(x) => Ok(Value::Nat(x)),
            None => Err(EvalError::Arithmetic),
        }
    } else if is_name(name, "Nat.>") {
        Ok(Value::Boolean(a > b))
    } else if is_name(name, "Nat.>=") {
        Ok(Value::Boolean(a >= b))
    } else if is_name(name, "Nat.<") {
        Ok(Value::Boolean(a < b))
    } else if is_name(name, "Nat.<=") {
        Ok(Value::Boolean(a <= b))
    } else if is_name(name, "Nat.==") {
        Ok(Value::Boolean(a == b))
    } else if is_name(name, "Nat.and") {
        Ok(Value::Nat(a & b))
    } else if is_name(name, "Nat.or") {
        Ok(Value::Nat(a | b))
    } else if is_name(name, "Nat.xor") {
        Ok(Value::Nat(a ^ b))
    } else if is_name(name, "Nat.mod") {
        match a.checked_rem(b) {
            Some(x) => Ok(Value::Nat(x)),
            None => Err(EvalError::Arithmetic),
        }
    } else if is_name(name, "Nat.pow") {
        Ok(Value::Nat(nat_power(a, b as u32)))
    } else if is_name(name, "Nat.shiftLeft") {
        Ok(Value::Nat(a.wrapping_shr(b as u32)))
    } else if is_name(name, "Nat.shiftRight") {
        Ok(Value::Nat(a.wrapping_shl(b as u32)))
    } else {
        Err(EvalError::BadOperands)
    }
}

/// Applies a two-argument builtin to `a` and `b`.
pub fn apply_binary<'a>(name: &String, a: &Value<'a>, b: &Value<'a>) -> (r: Result<Value<'a>, EvalError>)
    ensures
        r == native_binary(name@, *a, *b),
{
    if is_name(name, "Universal.==") {
        if is_data_exec(a) && is_data_exec(b) {
            Ok(Value::Boolean(data_eq_exec(a, b)))
        } else {
            Err(EvalError::BadOperands)
        }
    } else if is_name(name, "Universal.<") || is_name(name, "Universal.>") || is_name(
        name,
        "Universal.<=",
    ) || is_name(name, "Universal.>=") || is_name(name, "Universal.compare") {
        match compare_exec(a, b) {
            None => Err(EvalError::BadOperands),
            Some(c) => if is_name(name, "Universal.<") {
                Ok(Value::Boolean(c < 0))
            } else if is_name(name, "Universal.>") {
                Ok(Value::Boolean(c > 0))
            } else if is_name(name, "Universal.<=") {
                Ok(Value::Boolean(c <= 0))
            } else if is_name(name, "Universal.>=") {
                Ok(Value::Boolean(c >= 0))
            } else {
                Ok(Value::Int(c))
            },
        }
    } else {
        match (a, b) {
            (Value::Int(x), Value::Int(y)) => int_binary_exec(name, *x, *y),
            (Value::Int(x), Value::Nat(y)) => int_nat_binary_exec(name, *x, *y),
            (Value::Nat(x), Value::Nat(y)) => nat_binary_exec(name, *x, *y),
            _ => Err(EvalError::BadOperands),
        }
    }
}

/// Adding zero with `Int.+` gives the other operand back.
pub proof fn lemma_int_add_zero<'a>(a: i64)
    ensures
        native_binary("Int.+"@, Value::<'a>::Int(a), Value::<'a>::Int(0)) == Ok::<Value<'a>, EvalError>(
            Value::Int(a),
        ),
{
    reveal_strlit("Int.+");
    reveal_strlit("Universal.==");
    reveal_strlit("Universal.<");
    reveal_strlit("Universal.>");
    reveal_strlit("Universal.<=");
    reveal_strlit("Universal.>=");
    reveal_strlit("Universal.compare");
    assert(!universal_name("Int.+"@)) by {
        assert("Int.+"@[0] != "Universal.=="@[0]);
        assert("Int.+"@ != "Universal.=="@);
        assert("Int.+"@ != "Universal.<"@);
        assert("Int.+"@ != "Universal.>"@);
        assert("Int.+"@ != "Universal.<="@);
        assert("Int.+"@ != "Universal.>="@);
        assert("Int.+"@ != "Universal.compare"@);
    }
}

/// Every plain datum equals itself.
pub proof fn lemma_data_eq_refl<'a>(v: Value<'a>)
    requires
        is_data(v),
    ensures
        data_eq(v, v),
    decreases v, 1nat,
{
    match v {
        Value::Sequence(vs) => lemma_all_eq_refl(vs),
        Value::PartialConstructor(_, _, vs) => lemma_all_eq_refl(vs),
        _ => {},
    }
}

pub proof fn lemma_all_eq_refl<'a>(vs: Values<'a>)
    requires
        all_data(vs),
    ensures
        all_eq(vs, vs),
    decreases vs, 0nat,
{
    if let Values::Cons(h, t) = vs {
        lemma_data_eq_refl(*h);
        lemma_all_eq_refl(*t);
    }
}

/// `Universal.==` of a plain datum and itself is true.
pub proof fn lemma_universal_eq_reflexive<'a>(v: Value<'a>)
    requires
        is_data(v),
    ensures
        native_binary("Universal.=="@, v, v) == Ok::<Value<'a>, EvalError>(Value::Boolean(true)),
{
    lemma_data_eq_refl(v);
}

} // verus!
