use rustua::bignum::BigNum;
use rustua::errors::EvalError;
use rustua::escape::ParseEscapeCharacter;
use rustua::lexer::tokenize;
use rustua::runtime::{eval, Runtime};
use rustua::stdlib::Stdlib;
use rustua::token::Token;
use rustua::value::{IntoValue, Value};
use rustua::Rustua;

fn int_val(n: i64) -> Value {
    n.into_value()
}

#[test]
fn precedence_mul_binds_tighter() {
    let mut rt = Runtime::new();
    assert_eq!(rt.eval("2 + 3 * 4").unwrap(), int_val(14));
    assert_eq!(rt.eval("(2 + 3) * 4").unwrap(), int_val(20));
}

#[test]
fn subtraction_is_left_associative() {
    let mut rt = Runtime::new();
    assert_eq!(rt.eval("10 - 3 - 2").unwrap(), int_val(5));
}

#[test]
fn arithmetic_is_overridable() {
    let mut rt = Runtime::new()
        .register_function_raw("add", |_args: Vec<Value>| Ok(42i64.into_value()));
    assert_eq!(rt.eval("1+1").unwrap(), int_val(42));
}

#[test]
fn arity_mismatch_is_reported() {
    let mut rt = Runtime::new().register_function("pair", |(a, b): (i64, i64)| a + b);
    match rt.eval("pair(1)") {
        Err(EvalError::InCall(name, inner)) => {
            assert_eq!(name, "pair");
            match *inner {
                EvalError::ArityMismatch { expected, got } => {
                    assert_eq!(expected, 2);
                    assert_eq!(got, 1);
                }
                other => panic!("unexpected inner error: {:?}", other),
            }
        }
        other => panic!("unexpected result: {:?}", other),
    }
}

#[test]
fn type_mismatch_never_coerces() {
    let mut rt = Runtime::new();
    match rt.eval("add(1, \"x\")") {
        Err(EvalError::InCall(name, inner)) => {
            assert_eq!(name, "add");
            assert!(matches!(*inner, EvalError::TypeMismatch { .. }));
        }
        other => panic!("unexpected result: {:?}", other),
    }
}

#[test]
fn string_escapes_decode() {
    let mut rt = Runtime::new();
    assert_eq!(rt.eval("\"a\\tb\"").unwrap(), Value::Str("a\tb".to_string()));
    assert_eq!(
        rt.eval("\"q\\n\\r\\0\\\\\\\"\\'\\b\\f\\v\\a\"").unwrap(),
        Value::Str("q\n\r\0\\\"'\u{8}\u{c}\u{b}\u{7}".to_string())
    );
}

#[test]
fn unknown_function_is_reported() {
    let mut rt = Runtime::new();
    match rt.eval("nope(1)") {
        Err(EvalError::FunctionNotFound(name)) => assert_eq!(name, "nope"),
        other => panic!("unexpected result: {:?}", other),
    }
}

#[test]
fn two_syntax_errors_give_two_entries() {
    let mut rt = Runtime::new();
    match rt.eval("1 + * 2 ) 3") {
        Err(EvalError::Parse(errors)) => {
            assert!(errors.len() >= 2);
            assert_ne!(errors[0].span, errors[1].span);
        }
        other => panic!("unexpected result: {:?}", other),
    }
}

#[test]
fn arbitrary_precision_addition() {
    let mut rt = Runtime::new();
    assert_eq!(
        rt.eval("99999999999999999999 + 1").unwrap(),
        Value::Int(BigNum::from_u128(100000000000000000000u128))
    );
    assert_eq!(
        rt.eval("99999999999999999999 * 99999999999999999999 - 1").unwrap(),
        rt.eval("(99999999999999999999 + 1) * (99999999999999999999 - 1)").unwrap()
    );
}

#[test]
fn float_arithmetic_is_ieee() {
    let mut rt = Runtime::new();
    assert_eq!(rt.eval("5.0 / 2.0").unwrap(), Value::Float(2.5f64.to_bits()));
    assert_eq!(rt.eval("0.5 + 0.25").unwrap(), Value::Float(0.75f64.to_bits()));
    assert_eq!(rt.eval("1.5 * 4.0 - 2.0").unwrap(), Value::Float(4.0f64.to_bits()));
    assert_eq!(rt.eval("-2.5e1").unwrap(), Value::Float((-25.0f64).to_bits()));
}

#[test]
fn conversions_go_both_ways() {
    let mut rt = Runtime::new();
    assert_eq!(rt.eval("int(2.9)").unwrap(), int_val(2));
    assert_eq!(rt.eval("int(-2.9)").unwrap(), int_val(-2));
    assert_eq!(rt.eval("float(3)").unwrap(), Value::Float(3.0f64.to_bits()));
    assert_eq!(rt.eval("int(\"123\")").unwrap(), int_val(123));
    assert_eq!(rt.eval("float(\"2.5\")").unwrap(), Value::Float(2.5f64.to_bits()));
    assert_eq!(rt.eval("1 + int(2.5)").unwrap(), int_val(3));
}

#[test]
fn bad_conversions_are_errors() {
    let mut rt = Runtime::new();
    match rt.eval("int(\"abc\")") {
        Err(EvalError::InCall(name, inner)) => {
            assert_eq!(name, "int");
            assert!(matches!(*inner, EvalError::TypeMismatch { .. }));
        }
        other => panic!("unexpected result: {:?}", other),
    }
    match rt.eval("1 / 0") {
        Err(EvalError::InCall(name, inner)) => {
            assert_eq!(name, "div");
            assert!(matches!(*inner, EvalError::DivisionByZero));
        }
        other => panic!("unexpected result: {:?}", other),
    }
}

#[test]
fn arg_errors_short_circuit() {
    let mut rt = Runtime::new();
    match rt.eval("add(nope(1), alsonope(2))") {
        Err(EvalError::InArgs(name, inner)) => {
            assert_eq!(name, "add");
            match *inner {
                EvalError::FunctionNotFound(n) => assert_eq!(n, "nope"),
                other => panic!("unexpected inner error: {:?}", other),
            }
        }
        other => panic!("unexpected result: {:?}", other),
    }
}

#[test]
fn parse_failures_are_collected() {
    let mut rt = Runtime::new();
    assert!(matches!(rt.eval(""), Err(EvalError::Parse(_))));
    assert!(matches!(rt.eval("1 2"), Err(EvalError::Parse(_))));
    assert!(matches!(rt.eval("(1 + 2"), Err(EvalError::Parse(_))));
    assert!(matches!(rt.eval("\"abc"), Err(EvalError::Parse(_))));
    assert!(matches!(rt.eval("bare_name"), Err(EvalError::Parse(_))));
}

#[test]
fn calls_take_argument_lists() {
    let mut rt = Runtime::new().register_function("repeat", |(s, n): (String, usize)| s.repeat(n));
    assert_eq!(
        rt.eval("repeat(\"ab\", 2 + 1)").unwrap(),
        Value::Str("ababab".to_string())
    );
    assert_eq!(
        rt.eval("repeat(\"x\", 2,)").unwrap(),
        Value::Str("xx".to_string())
    );
}

#[test]
fn rustua_wraps_the_runtime() {
    let mut rt = Rustua::new().register_function("triple", |(a,): (i64,)| a * 3);
    assert_eq!(rt.eval("triple(4) + 2").unwrap(), int_val(14));
    assert_eq!(rt.eval("10 - 3 - 2").unwrap(), int_val(5));
}

#[test]
fn standalone_eval_matches_method() {
    let mut rt = Runtime::new();
    assert_eq!(eval(&mut rt, "6 * 7").unwrap(), int_val(42));
}

#[test]
fn stdlib_can_be_reinstalled() {
    let mut rt = Runtime::new()
        .register_function_raw("add", |_args: Vec<Value>| Ok(0i64.into_value()))
        .prepare_stdlib();
    assert_eq!(rt.eval("1 + 1").unwrap(), int_val(2));
}

#[test]
fn escape_decoding_stands_alone() {
    assert_eq!("a\\tb".parse_escape_character(), Ok("a\tb".to_string()));
    assert_eq!("plain".parse_escape_character(), Ok("plain".to_string()));
    assert_eq!("bad\\q".parse_escape_character(), Err(()));
    assert_eq!("trail\\".parse_escape_character(), Err(()));
}

#[test]
fn tokens_describe_themselves() {
    let toks = tokenize("2 + nope(\"hi\")");
    assert_eq!(toks.len(), 6);
    assert!(matches!(&toks[0].0, Token::Int(s) if s == "2"));
    assert!(matches!(&toks[1].0, Token::Add));
    assert!(matches!(&toks[2].0, Token::Var(s) if s == "nope"));
    assert!(matches!(&toks[4].0, Token::Str(s) if s == "hi"));
    assert_eq!(toks[0].1.lo, 0);
    assert_eq!(toks[0].1.hi, 1);
    assert_eq!(toks[1].0.display_string(), "+".to_string());
    assert_eq!(toks[2].0.display_string(), "Var(nope)".to_string());
}

#[test]
fn negative_literals_lex_greedily() {
    let mut rt = Runtime::new();
    assert_eq!(rt.eval("2 - 1").unwrap(), int_val(1));
    assert!(matches!(rt.eval("2 -1"), Err(EvalError::Parse(_))));
    assert_eq!(rt.eval("2 - -1").unwrap(), int_val(3));
    assert_eq!(rt.eval("-3 + 5").unwrap(), int_val(2));
}

#[test]
fn float_literal_shapes() {
    let mut rt = Runtime::new();
    assert_eq!(rt.eval("2. + 1.").unwrap(), Value::Float(3.0f64.to_bits()));
    assert_eq!(rt.eval("float(0) + .5").unwrap(), Value::Float(0.5f64.to_bits()));
    assert_eq!(rt.eval("2e3 / 1e3").unwrap(), Value::Float(2.0f64.to_bits()));
    // a second leading zero cannot extend an integer literal, so this
    // lexes as two adjacent numbers and fails to parse
    assert!(matches!(rt.eval("00.5"), Err(EvalError::Parse(_))));
}

#[test]
fn calls_nest_inside_operator_chains() {
    let mut rt = Runtime::new().register_function("sq", |(a,): (i64,)| a * a);
    assert_eq!(rt.eval("sq(2) + sq(3) * sq(1)").unwrap(), int_val(13));
    assert_eq!(rt.eval("sq(sq(2) - 1)").unwrap(), int_val(9));
    assert_eq!(rt.eval("mul(add(1, 2), 4)").unwrap(), int_val(12));
}

#[test]
fn int_truncates_every_finite_double() {
    let mut rt = Runtime::new();
    // 2^100 is exactly representable as a double
    assert_eq!(
        rt.eval("int(1267650600228229401496703205376.0)").unwrap(),
        Value::Int(BigNum::from_u128(1u128 << 100))
    );
    assert_eq!(
        rt.eval("int(-1267650600228229401496703205376.0)").unwrap(),
        Value::Int(BigNum::from_parts(true, 1u128 << 100))
    );
    assert_eq!(rt.eval("int(2.5e15)").unwrap(), int_val(2500000000000000));
    // the smallest subnormal and negative zero truncate to zero
    assert_eq!(rt.eval("int(5e-324)").unwrap(), int_val(0));
    assert_eq!(rt.eval("int(-0.5)").unwrap(), int_val(0));
}

#[test]
fn int_rejects_nan_and_infinity() {
    let mut rt = Runtime::new();
    match rt.eval("int(1.0 / 0.0)") {
        Err(EvalError::InCall(name, inner)) => {
            assert_eq!(name, "int");
            assert!(matches!(*inner, EvalError::TypeMismatch { .. }));
        }
        other => panic!("unexpected result: {:?}", other),
    }
    match rt.eval("int(0.0 / 0.0)") {
        Err(EvalError::InCall(name, inner)) => {
            assert_eq!(name, "int");
            assert!(matches!(*inner, EvalError::TypeMismatch { .. }));
        }
        other => panic!("unexpected result: {:?}", other),
    }
}
