use unison_core::codec::{encode_varint, Buffer, DecodeError};
use unison_core::eval::Env;
use unison_core::types::{Kind, Pattern, SeqOp, Term, Type, ABT};
use unison_core::value::{EvalError, Frame, Value};

fn varint(n: usize) -> Vec<u8> {
    encode_varint(n)
}

fn decode_term(bytes: Vec<u8>) -> Result<ABT<Term>, DecodeError> {
    let mut buf = Buffer::new(bytes);
    buf.get_term()
}

fn i64_bytes(n: i64) -> Vec<u8> {
    (n as u64).to_be_bytes().to_vec()
}

/// `Tm(Int(n))`
fn int_term(n: i64) -> Vec<u8> {
    let mut out = vec![1, 0];
    out.extend(i64_bytes(n));
    out
}

/// `Tm(Boolean(b))`
fn bool_term(b: bool) -> Vec<u8> {
    vec![1, 3, if b { 1 } else { 0 }]
}

/// `Tm(Ref(Builtin(name)))`
fn builtin_term(name: &str) -> Vec<u8> {
    let mut out = vec![1, 5, 0];
    out.extend(varint(name.len()));
    out.extend(name.as_bytes());
    out
}

/// `Tm(App(f, x))`
fn app_term(f: Vec<u8>, x: Vec<u8>) -> Vec<u8> {
    let mut out = vec![1, 9];
    out.extend(f);
    out.extend(x);
    out
}

fn symbol(num: usize, text: &str) -> Vec<u8> {
    let mut out = varint(num);
    out.extend(varint(text.len()));
    out.extend(text.as_bytes());
    out
}

fn eval_bytes(env: &Env, t: &ABT<Term>) -> Result<i64, EvalError> {
    let frame = Frame::new(None);
    match t.eval(env, &frame, 1000)? {
        Value::Int(i) => Ok(i),
        _ => Err(EvalError::BadOperands),
    }
}

#[test]
fn varint_round_trip_boundaries() {
    for n in [0usize, 1, 127, 128, 300, 16383, 16384, 1 << 40] {
        let bytes = encode_varint(n);
        let mut buf = Buffer::new(bytes.clone());
        assert_eq!(buf.get_usize(), Ok(n));
        assert!(buf.at_end());
    }
    assert_eq!(encode_varint(127), vec![127]);
    assert_eq!(encode_varint(128), vec![128, 1]);
    assert_eq!(encode_varint(16384), vec![128, 128, 1]);
}

#[test]
fn varint_first_byte_is_least_significant() {
    let mut buf = Buffer::new(vec![0x81, 0x01]);
    assert_eq!(buf.get_usize(), Ok(129));
}

#[test]
fn decode_errors() {
    assert_eq!(Buffer::new(vec![]).get_u8(), Err(DecodeError::UnexpectedEnd));
    assert_eq!(decode_term(vec![0, 9]).err(), Some(DecodeError::UnknownTag(9)));
    // a bound variable with an empty scope
    assert_eq!(decode_term(vec![0, 0, 0, 0]).err(), Some(DecodeError::BadIndex));
    let mut b = Buffer::new(vec![2, 0xff, 0xfe]);
    assert_eq!(b.get_text().err(), Some(DecodeError::InvalidText));
}

#[test]
fn if_true_then_one_else_two() {
    let mut bytes = vec![0u8];
    bytes.extend([1, 12]);
    bytes.extend(bool_term(true));
    bytes.extend(int_term(1));
    bytes.extend(int_term(2));
    let t = decode_term(bytes).unwrap();
    let env = Env::new();
    assert_eq!(eval_bytes(&env, &t), Ok(1));
}

#[test]
fn let_x_three_in_x_plus_four() {
    let mut bytes = vec![0u8];
    bytes.extend([1, 17]);
    bytes.extend(int_term(3));
    bytes.push(2);
    bytes.extend(symbol(0, "x"));
    let var_x = vec![0u8, 0, 0];
    bytes.extend(app_term(app_term(builtin_term("Int.+"), var_x), int_term(4)));
    let t = decode_term(bytes).unwrap();
    let env = Env::new();
    assert_eq!(eval_bytes(&env, &t), Ok(7));
}

#[test]
fn binder_variable_resolves_to_its_binder() {
    // Abs(x, Var(bound 0)) with no free symbols
    let mut bytes = vec![0u8, 2];
    bytes.extend(symbol(4, "x"));
    bytes.extend([0, 0, 0]);
    match decode_term(bytes).unwrap() {
        ABT::Abs(s, body) => match *body {
            ABT::Var(v) => {
                assert_eq!(v.text, "x");
                assert_eq!(v.num, 4);
                assert_eq!(s.num, 4);
            }
            _ => panic!("expected a variable"),
        },
        _ => panic!("expected a binder"),
    }
}

#[test]
fn nested_binders_resolve_by_position() {
    // Abs(x#1, Abs(x#2, Var(bound 1))): the outer x, though both have the same text
    let mut bytes = vec![0u8, 2];
    bytes.extend(symbol(1, "x"));
    bytes.push(2);
    bytes.extend(symbol(2, "x"));
    bytes.extend([0, 0, 1]);
    match decode_term(bytes).unwrap() {
        ABT::Abs(_, body) => match *body {
            ABT::Abs(_, inner) => match *inner {
                ABT::Var(v) => assert_eq!((v.num, v.text.as_str()), (1, "x")),
                _ => panic!("expected a variable"),
            },
            _ => panic!("expected a binder"),
        },
        _ => panic!("expected a binder"),
    }
}

#[test]
fn free_variables_come_from_the_header() {
    let mut bytes = varint(2);
    bytes.extend(symbol(0, "a"));
    bytes.extend(symbol(0, "b"));
    bytes.extend([0, 1, 1]);
    match decode_term(bytes).unwrap() {
        ABT::Var(v) => assert_eq!(v.text, "b"),
        _ => panic!("expected a variable"),
    }
}

#[test]
fn decode_primitives() {
    let mut b = Buffer::new(vec![0, 0, 0, 0, 0, 0, 1, 2, 1, 7, 0xff, 0xff, 0xff, 0xff, 0xff, 0xff, 0xff, 0xff, 65]);
    assert_eq!(b.get_u64(), Ok(258));
    assert_eq!(b.get_bool(), Ok(true));
    assert_eq!(b.get_bool(), Ok(false));
    assert_eq!(b.get_i64(), Ok(-1));
    assert_eq!(b.get_char(), Ok('A'));
    assert_eq!(b.get_u64(), Err(DecodeError::UnexpectedEnd));
    let mut t = Buffer::new(vec![3, b'a', 0xc3, 0xa9]);
    assert_eq!(t.get_text().unwrap(), "aé");
    let mut big = Buffer::new(vec![0xff, 0xff, 0xff, 0xff, 0xff, 0xff, 0xff, 0xff, 0xff, 0xff, 0x7f]);
    assert_eq!(big.get_usize(), Err(DecodeError::TooLarge));
}

#[test]
fn decode_patterns_and_types() {
    // SequenceOp(Var, Cons, As(Unbound))
    let mut b = Buffer::new(vec![11, 1, 0, 7, 0]);
    match b.get_pattern().unwrap() {
        Pattern::SequenceOp(a, SeqOp::Cons, c) => {
            assert!(matches!(*a, Pattern::Var));
            assert!(matches!(*c, Pattern::As(_)));
        }
        _ => panic!("expected a sequence pattern"),
    }
    let mut bad = Buffer::new(vec![14]);
    assert_eq!(bad.get_pattern().err(), Some(DecodeError::UnknownTag(14)));
    // a type with no free symbols: Ann(Tm(Ref(Builtin "Nat")), Arrow(Star, Star))
    let mut bytes = vec![0u8, 1, 2, 1, 0, 0, 3];
    bytes.extend(b"Nat");
    bytes.extend([1, 0, 0]);
    let mut tb = Buffer::new(bytes);
    match tb.get_type_top().unwrap() {
        ABT::Tm(Type::Ann(_, Kind::Arrow(_, _))) => {}
        _ => panic!("expected an annotated type"),
    }
    assert!(tb.at_end());
}

#[test]
fn decode_match_with_guard() {
    // Match(Tm(Int 1), [MatchCase(Int 1, Some(Tm(Boolean true)), Tm(Int 2))])
    let mut bytes = vec![0u8, 1, 18];
    bytes.extend(int_term(1));
    bytes.push(1);
    bytes.push(3);
    bytes.extend(i64_bytes(1));
    bytes.push(1);
    bytes.extend(bool_term(true));
    bytes.extend(int_term(2));
    let t = decode_term(bytes).unwrap();
    let env = Env::new();
    assert_eq!(eval_bytes(&env, &t), Ok(2));
}
