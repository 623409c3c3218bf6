use vstd::prelude::*;

use crate::bignum::{big_add, big_div, big_from_decimal, big_mul, big_sub, big_to_decimal,
    is_dec_digit, spec_dec_repr, spec_dec_repr_nat, spec_digit_char, spec_parse_int, trunc_div};
use crate::errors::EvalError;
use crate::floats::{f64_add, f64_div, f64_mul, f64_of_decimal, f64_sub, float_add, float_div,
    float_mul, float_parse, float_sub, float_trunc, is_signed_digits, spec_f64_trunc};
use crate::dyn_function::raw_behavior;
use crate::runtime::Runtime;
use crate::value::{value_wf, Value, ValueModel};

verus! {

/// Exactly what the built-in `add` returns: two integers give their
/// exact sum, two doubles their IEEE sum; any other shape is an error.
pub open spec fn add_post(vals: Seq<Value>, r: Result<Value, EvalError>) -> bool {
    if vals.len() != 2 {
        r matches Err(EvalError::ArityMismatch { expected, got }) && expected == 2 && got
            == vals.len()
    } else {
        match (vals[0]@, vals[1]@) {
            (ValueModel::Int(a), ValueModel::Int(b)) => r matches Ok(v) && v@ == ValueModel::Int(
                a + b,
            ) && value_wf(v),
            (ValueModel::Float(x), ValueModel::Float(y)) => r == Ok::<Value, EvalError>(
                Value::Float(f64_add(x, y)),
            ),
            _ => r matches Err(EvalError::TypeMismatch { position }) && position == 1,
        }
    }
}

/// As `add_post`, for the exact difference.
pub open spec fn sub_post(vals: Seq<Value>, r: Result<Value, EvalError>) -> bool {
    if vals.len() != 2 {
        r matches Err(EvalError::ArityMismatch { expected, got }) && expected == 2 && got
            == vals.len()
    } else {
        match (vals[0]@, vals[1]@) {
            (ValueModel::Int(a), ValueModel::Int(b)) => r matches Ok(v) && v@ == ValueModel::Int(
                a - b,
            ) && value_wf(v),
            (ValueModel::Float(x), ValueModel::Float(y)) => r == Ok::<Value, EvalError>(
                Value::Float(f64_sub(x, y)),
            ),
            _ => r matches Err(EvalError::TypeMismatch { position }) && position == 1,
        }
    }
}

/// As `add_post`, for the exact product.
pub open spec fn mul_post(vals: Seq<Value>, r: Result<Value, EvalError>) -> bool {
    if vals.len() != 2 {
        r matches Err(EvalError::ArityMismatch { expected, got }) && expected == 2 && got
            == vals.len()
    } else {
        match (vals[0]@, vals[1]@) {
            (ValueModel::Int(a), ValueModel::Int(b)) => r matches Ok(v) && v@ == ValueModel::Int(
                a * b,
            ) && value_wf(v),
            (ValueModel::Float(x), ValueModel::Float(y)) => r == Ok::<Value, EvalError>(
                Value::Float(f64_mul(x, y)),
            ),
            _ => r matches Err(EvalError::TypeMismatch { position }) && position == 1,
        }
    }
}

/// As `add_post`, for the quotient: integer division truncates toward
/// zero and rejects a zero divisor; double division is the IEEE one.
pub open spec fn div_post(vals: Seq<Value>, r: Result<Value, EvalError>) -> bool {
    if vals.len() != 2 {
        r matches Err(EvalError::ArityMismatch { expected, got }) && expected == 2 && got
            == vals.len()
    } else {
        match (vals[0]@, vals[1]@) {
            (ValueModel::Int(a), ValueModel::Int(b)) => if b == 0 {
                r == Err::<Value, EvalError>(EvalError::DivisionByZero)
            } else {
                r matches Ok(v) && v@ == ValueModel::Int(trunc_div(a, b)) && value_wf(v)
            },
            (ValueModel::Float(x), ValueModel::Float(y)) => r == Ok::<Value, EvalError>(
                Value::Float(f64_div(x, y)),
            ),
            _ => r matches Err(EvalError::TypeMismatch { position }) && position == 1,
        }
    }
}

/// Exactly what the built-in `float` returns: integers convert through
/// their decimal spelling, doubles pass through, and strings parse as
/// decimal numbers or fail.
pub open spec fn float_post(vals: Seq<Value>, r: Result<Value, EvalError>) -> bool {
    if vals.len() != 1 {
        r matches Err(EvalError::ArityMismatch { expected, got }) && expected == 1 && got
            == vals.len()
    } else {
        match vals[0]@ {
            ValueModel::Int(a) => r matches Ok(v) && (v@ matches ValueModel::Float(bits)
                && f64_of_decimal(spec_dec_repr(a)) == Some(bits)),
            ValueModel::Float(x) => r == Ok::<Value, EvalError>(Value::Float(x)),
            ValueModel::Str(s) => match f64_of_decimal(s) {
                Some(bits) => r == Ok::<Value, EvalError>(Value::Float(bits)),
                None => r matches Err(EvalError::TypeMismatch { position }) && position == 0,
            },
        }
    }
}

/// Exactly what the built-in `int` returns: integers pass through,
/// finite doubles truncate toward zero (NaN and the infinities are
/// errors), and strings parse as integers or fail.
pub open spec fn int_post(vals: Seq<Value>, r: Result<Value, EvalError>) -> bool {
    if vals.len() != 1 {
        r matches Err(EvalError::ArityMismatch { expected, got }) && expected == 1 && got
            == vals.len()
    } else {
        match vals[0]@ {
            ValueModel::Int(_) => r matches Ok(v) && v == vals[0],
            ValueModel::Float(x) => match spec_f64_trunc(x) {
                Some(iv) => r matches Ok(v) && v@ == ValueModel::Int(iv) && value_wf(v),
                None => r matches Err(EvalError::TypeMismatch { position }) && position == 0,
            },
            ValueModel::Str(s) => match spec_parse_int(s) {
                Some(nv) => r matches Ok(v) && v@ == ValueModel::Int(nv) && value_wf(v),
                None => r matches Err(EvalError::TypeMismatch { position }) && position == 0,
            },
        }
    }
}

fn builtin_add(args: Vec<Value>) -> (r: Result<Value, EvalError>)
    ensures
        add_post(args@, r),
{
    if args.len() != 2 {
        return Err(EvalError::ArityMismatch { expected: 2, got: args.len() });
    }
    match (&args[0], &args[1]) {
        (Value::Int(a), Value::Int(b)) => Ok(Value::Int(big_add(a, b))),
        (Value::Float(x), Value::Float(y)) => Ok(Value::Float(float_add(*x, *y))),
        _ => Err(EvalError::TypeMismatch { position: 1 }),
    }
}

fn builtin_sub(args: Vec<Value>) -> (r: Result<Value, EvalError>)
    ensures
        sub_post(args@, r),
{
    if args.len() != 2 {
        return Err(EvalError::ArityMismatch { expected: 2, got: args.len() });
    }
    match (&args[0], &args[1]) {
        (Value::Int(a), Value::Int(b)) => Ok(Value::Int(big_sub(a, b))),
        (Value::Float(x), Value::Float(y)) => Ok(Value::Float(float_sub(*x, *y))),
        _ => Err(EvalError::TypeMismatch { position: 1 }),
    }
}

fn builtin_mul(args: Vec<Value>) -> (r: Result<Value, EvalError>)
    ensures
        mul_post(args@, r),
{
    if args.len() != 2 {
        return Err(EvalError::ArityMismatch { expected: 2, got: args.len() });
    }
    match (&args[0], &args[1]) {
        (Value::Int(a), Value::Int(b)) => Ok(Value::Int(big_mul(a, b))),
        (Value::Float(x), Value::Float(y)) => Ok(Value::Float(float_mul(*x, *y))),
        _ => Err(EvalError::TypeMismatch { position: 1 }),
    }
}

fn builtin_div(args: Vec<Value>) -> (r: Result<Value, EvalError>)
    ensures
        div_post(args@, r),
{
    if args.len() != 2 {
        return Err(EvalError::ArityMismatch { expected: 2, got: args.len() });
    }
    match (&args[0], &args[1]) {
        (Value::Int(a), Value::Int(b)) => {
            if b.is_zero() {
                Err(EvalError::DivisionByZero)
            } else {
                Ok(Value::Int(big_div(a, b)))
            }
        },
        (Value::Float(x), Value::Float(y)) => Ok(Value::Float(float_div(*x, *y))),
        _ => Err(EvalError::TypeMismatch { position: 1 }),
    }
}

/// The decimal spelling of an integer is an optionally signed digit
/// run, so double conversion always accepts it.
proof fn lemma_dec_repr_nat_digits(n: nat)
    ensures
        spec_dec_repr_nat(n).len() > 0,
        forall|i: int|
            0 <= i < spec_dec_repr_nat(n).len() ==> is_dec_digit(
                #[trigger] spec_dec_repr_nat(n)[i],
            ),
    decreases n,
{
    if n < 10 {
        assert(spec_digit_char(n as int) as u32 == 48 + n);
    } else {
        lemma_dec_repr_nat_digits(n / 10);
        assert(spec_digit_char((n % 10) as int) as u32 == 48 + n % 10);
        assert(forall|i: int|
            0 <= i < spec_dec_repr_nat(n / 10).len() ==> spec_dec_repr_nat(n)[i]
                == #[trigger] spec_dec_repr_nat(n / 10)[i]);
    }
}

proof fn lemma_dec_repr_signed(v: int)
    ensures
        is_signed_digits(spec_dec_repr(v)),
{
    if v < 0 {
        lemma_dec_repr_nat_digits((-v) as nat);
        let s = spec_dec_repr(v);
        let d = spec_dec_repr_nat((-v) as nat);
        assert(s.len() == 1 + d.len());
        assert(s[0] == '-');
        assert(forall|i: int| 1 <= i < s.len() ==> s[i] == #[trigger] d[i - 1]);
        assert('-' as u32 == 45);
    } else {
        lemma_dec_repr_nat_digits(v as nat);
        let s = spec_dec_repr(v);
        assert(is_dec_digit(s[0]));
        assert(s[0] as u32 != 45);
    }
}

fn builtin_float(args: Vec<Value>) -> (r: Result<Value, EvalError>)
    ensures
        float_post(args@, r),
{
    if args.len() != 1 {
        return Err(EvalError::ArityMismatch { expected: 1, got: args.len() });
    }
    match &args[0] {
        Value::Int(a) => {
            let text = big_to_decimal(a);
            proof {
                lemma_dec_repr_signed(a@);
            }
            match float_parse(text.as_str()) {
                Some(bits) => Ok(Value::Float(bits)),
                None => vstd::pervasive::unreached(),
            }
        },
        Value::Float(x) => Ok(Value::Float(*x)),
        Value::Str(s) => {
            match float_parse(s.as_str()) {
                Some(bits) => Ok(Value::Float(bits)),
                None => Err(EvalError::TypeMismatch { position: 0 }),
            }
        },
    }
}

fn builtin_int(args: Vec<Value>) -> (r: Result<Value, EvalError>)
    ensures
        int_post(args@, r),
{
    if args.len() != 1 {
        return Err(EvalError::ArityMismatch { expected: 1, got: args.len() });
    }
    let mut args = args;
    let v0 = args.remove(0);
    match v0 {
        Value::Int(b) => Ok(Value::Int(b)),
        Value::Float(x) => {
            match float_trunc(x) {
                Some(b) => Ok(Value::Int(b)),
                None => Err(EvalError::TypeMismatch { position: 0 }),
            }
        },
        Value::Str(s) => {
            match big_from_decimal(s.as_str()) {
                Some(b) => Ok(Value::Int(b)),
                None => Err(EvalError::TypeMismatch { position: 0 }),
            }
        },
    }
}

/// The registry maps `name` to a function every result of which the
/// given predicate admits.
pub open spec fn dispatches_to(
    rt: Runtime,
    name: Seq<char>,
    post: spec_fn(Seq<Value>, Result<Value, EvalError>) -> bool,
) -> bool {
    &&& rt.spec_lookup(name) is Some
    &&& forall|args: Seq<Value>, res: Result<Value, EvalError>|
        #[trigger] rt.fn_behavior(name, args, res) ==> post(args, res)
}

/// The names the standard installation claims for itself.
pub open spec fn is_stdlib_name(n: Seq<char>) -> bool {
    n == "add"@ || n == "sub"@ || n == "mul"@ || n == "div"@ || n == "float"@ || n == "int"@
}

/// The six standard registrations: the four arithmetic operators and
/// the two explicit conversions, each behaving exactly as its
/// postcondition predicate says.
pub open spec fn stdlib_installed(rt: Runtime) -> bool {
    &&& dispatches_to(rt, "add"@, |vals: Seq<Value>, res: Result<Value, EvalError>| add_post(vals, res))
    &&& dispatches_to(rt, "sub"@, |vals: Seq<Value>, res: Result<Value, EvalError>| sub_post(vals, res))
    &&& dispatches_to(rt, "mul"@, |vals: Seq<Value>, res: Result<Value, EvalError>| mul_post(vals, res))
    &&& dispatches_to(rt, "div"@, |vals: Seq<Value>, res: Result<Value, EvalError>| div_post(vals, res))
    &&& dispatches_to(rt, "float"@, |vals: Seq<Value>, res: Result<Value, EvalError>| float_post(vals, res))
    &&& dispatches_to(rt, "int"@, |vals: Seq<Value>, res: Result<Value, EvalError>| int_post(vals, res))
}

/// Installation of the standard functions into a registry-bearing
/// value: the six names come to behave as their postcondition
/// predicates say, and every other entry stays as it was.
pub trait Stdlib: Sized {
    /// The registry this value carries.
    spec fn registry(&self) -> Runtime;

    fn prepare_stdlib(self) -> (r: Self)
        ensures
            stdlib_installed(r.registry()),
            forall|n: Seq<char>|
                !is_stdlib_name(n) ==> (#[trigger] r.registry().spec_lookup(n) is Some
                    <==> self.registry().spec_lookup(n) is Some),
            forall|n: Seq<char>, args: Seq<Value>, res: Result<Value, EvalError>|
                !is_stdlib_name(n) ==> (#[trigger] r.registry().fn_behavior(n, args, res)
                    <==> self.registry().fn_behavior(n, args, res)),
    ;
}

impl Stdlib for Runtime {
    open spec fn registry(&self) -> Runtime {
        *self
    }

    /// Registers `add`, `sub`, `mul`, `div`, `float` and `int`.
    fn prepare_stdlib(self) -> (r: Self) {
        install_stdlib(self)
    }
}

/// Registers the standard functions, shadowing any existing entries
/// under their names and leaving every other entry untouched.
pub fn install_stdlib(rt: Runtime) -> (r: Runtime)
    ensures
        stdlib_installed(r),
        forall|n: Seq<char>|
            !is_stdlib_name(n) ==> (#[trigger] r.spec_lookup(n) is Some <==> rt.spec_lookup(
                n,
            ) is Some),
        forall|n: Seq<char>, args: Seq<Value>, res: Result<Value, EvalError>|
            !is_stdlib_name(n) ==> (#[trigger] r.fn_behavior(n, args, res) <==> rt.fn_behavior(
                n,
                args,
                res,
            )),
{
    proof {
        reveal_strlit("add");
        reveal_strlit("sub");
        reveal_strlit("mul");
        reveal_strlit("div");
        reveal_strlit("float");
        reveal_strlit("int");
        assert("add"@ != "sub"@) by {
            assert("add"@[0] == 'a');
            assert("sub"@[0] == 's');
        }
        assert("add"@ != "mul"@) by {
            assert("add"@[0] == 'a');
            assert("mul"@[0] == 'm');
        }
        assert("add"@ != "div"@) by {
            assert("add"@[0] == 'a');
            assert("div"@[0] == 'd');
        }
        assert("add"@ != "float"@) by {
            assert("add"@[0] == 'a');
            assert("float"@[0] == 'f');
        }
        assert("add"@ != "int"@) by {
            assert("add"@[0] == 'a');
            assert("int"@[0] == 'i');
        }
        assert("sub"@ != "mul"@) by {
            assert("sub"@[0] == 's');
            assert("mul"@[0] == 'm');
        }
        assert("sub"@ != "div"@) by {
            assert("sub"@[0] == 's');
            assert("div"@[0] == 'd');
        }
        assert("sub"@ != "float"@) by {
            assert("sub"@[0] == 's');
            assert("float"@[0] == 'f');
        }
        assert("sub"@ != "int"@) by {
            assert("sub"@[0] == 's');
            assert("int"@[0] == 'i');
        }
        assert("mul"@ != "div"@) by {
            assert("mul"@[0] == 'm');
            assert("div"@[0] == 'd');
        }
        assert("mul"@ != "float"@) by {
            assert("mul"@[0] == 'm');
            assert("float"@[0] == 'f');
        }
        assert("mul"@ != "int"@) by {
            assert("mul"@[0] == 'm');
            assert("int"@[0] == 'i');
        }
        assert("div"@ != "float"@) by {
            assert("div"@[0] == 'd');
            assert("float"@[0] == 'f');
        }
        assert("div"@ != "int"@) by {
            assert("div"@[0] == 'd');
            assert("int"@[0] == 'i');
        }
        assert("float"@ != "int"@) by {
            assert("float"@[0] == 'f');
            assert("int"@[0] == 'i');
        }
    }
    let rt1 = rt.register_function_raw("add", builtin_add);
    let rt2 = rt1.register_function_raw("sub", builtin_sub);
    let rt3 = rt2.register_function_raw("mul", builtin_mul);
    let rt4 = rt3.register_function_raw("div", builtin_div);
    let rt5 = rt4.register_function_raw("float", builtin_float);
    let rt6 = rt5.register_function_raw("int", builtin_int);
    proof {
        assert forall|args: Seq<Value>, res: Result<Value, EvalError>|
            #[trigger] rt6.fn_behavior("add"@, args, res) implies add_post(args, res) by {
            reveal_strlit("add");
            reveal_strlit("sub");
            reveal_strlit("mul");
            reveal_strlit("div");
            reveal_strlit("float");
            reveal_strlit("int");
            assert(rt1.fn_behavior("add"@, args, res));
            assert(raw_behavior(builtin_add, args, res));
        }
        assert forall|args: Seq<Value>, res: Result<Value, EvalError>|
            #[trigger] rt6.fn_behavior("sub"@, args, res) implies sub_post(args, res) by {
            reveal_strlit("add");
            reveal_strlit("sub");
            reveal_strlit("mul");
            reveal_strlit("div");
            reveal_strlit("float");
            reveal_strlit("int");
            assert(rt2.fn_behavior("sub"@, args, res));
            assert(raw_behavior(builtin_sub, args, res));
        }
        assert forall|args: Seq<Value>, res: Result<Value, EvalError>|
            #[trigger] rt6.fn_behavior("mul"@, args, res) implies mul_post(args, res) by {
            reveal_strlit("add");
            reveal_strlit("sub");
            reveal_strlit("mul");
            reveal_strlit("div");
            reveal_strlit("float");
            reveal_strlit("int");
            assert(rt3.fn_behavior("mul"@, args, res));
            assert(raw_behavior(builtin_mul, args, res));
        }
        assert forall|args: Seq<Value>, res: Result<Value, EvalError>|
            #[trigger] rt6.fn_behavior("div"@, args, res) implies div_post(args, res) by {
            reveal_strlit("add");
            reveal_strlit("sub");
            reveal_strlit("mul");
            reveal_strlit("div");
            reveal_strlit("float");
            reveal_strlit("int");
            assert(rt4.fn_behavior("div"@, args, res));
            assert(raw_behavior(builtin_div, args, res));
        }
        assert forall|args: Seq<Value>, res: Result<Value, EvalError>|
            #[trigger] rt6.fn_behavior("float"@, args, res) implies float_post(args, res) by {
            reveal_strlit("add");
            reveal_strlit("sub");
            reveal_strlit("mul");
            reveal_strlit("div");
            reveal_strlit("float");
            reveal_strlit("int");
            assert(rt5.fn_behavior("float"@, args, res));
            assert(raw_behavior(builtin_float, args, res));
        }
        assert forall|args: Seq<Value>, res: Result<Value, EvalError>|
            #[trigger] rt6.fn_behavior("int"@, args, res) implies int_post(args, res) by {
            reveal_strlit("add");
            reveal_strlit("sub");
            reveal_strlit("mul");
            reveal_strlit("div");
            reveal_strlit("float");
            reveal_strlit("int");
            assert(raw_behavior(builtin_int, args, res));
        }
    }
    rt6
}

impl Runtime {
    /// An evaluator whose registry holds the six standard functions
    /// and nothing else.
    pub fn new() -> (r: Runtime)
        ensures
            stdlib_installed(r),
            forall|n: Seq<char>| !is_stdlib_name(n) ==> #[trigger] r.spec_lookup(n) is None,
    {
        let base = Runtime::empty();
        install_stdlib(base)
    }
}

} // verus!
