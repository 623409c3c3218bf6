use rustua::bignum::BigNum;
use rustua::dyn_function::DynFunction;
use rustua::floats::Float64;
use rustua::value::{ConvertError, FromValue, IntoValue, IntoValueMulti, Value};
use rustua::IntoDynFn;

#[test]
fn test_fn_trait() {
    let con = 2;
    let sub = move |(x, y): (i32, i32)| x - y - con;
    let args = (10, 4).into_value_multi();
    let f = sub.into_dyn_fn();
    let ret = f.func.call_with_vec_value(args).unwrap();
    let ret: i32 = FromValue::from_value(ret).unwrap();
    assert_eq!(ret, 4);
}

#[test]
fn test_fn_trait_multi_type() {
    let repeat = |(s, n): (String, usize)| s.repeat(n);
    let args = ("ab".to_string(), 3).into_value_multi();
    let f = repeat.into_dyn_fn();
    let ret = f.func.call_with_vec_value(args).unwrap();
    let ret: String = FromValue::from_value(ret).unwrap();
    assert_eq!(ret, "ababab".to_string());
}

#[test]
fn test_fn_trait_float() {
    let div = |(x, y): (Float64, Float64)| {
        Float64::from_bits((f64::from_bits(x.to_bits()) / f64::from_bits(y.to_bits())).to_bits())
    };
    let args = (
        Float64::from_bits(5.0f64.to_bits()),
        Float64::from_bits(2.0f64.to_bits()),
    )
        .into_value_multi();
    let f = div.into_dyn_fn();
    let ret = f.func.call_with_vec_value(args).unwrap();
    let ret: Float64 = FromValue::from_value(ret).unwrap();
    assert_eq!(f64::from_bits(ret.to_bits()), 2.5);
}

#[test]
fn round_trip_machine_ints() {
    let v = 123i8.into_value();
    assert_eq!(<i8 as FromValue>::from_value(v), Ok(123i8));
    let v = (-44i64).into_value();
    assert_eq!(<i64 as FromValue>::from_value(v), Ok(-44i64));
    let v = u128::MAX.into_value();
    assert_eq!(<u128 as FromValue>::from_value(v), Ok(u128::MAX));
    let v = i128::MIN.into_value();
    assert_eq!(<i128 as FromValue>::from_value(v), Ok(i128::MIN));
    let v = 0usize.into_value();
    assert_eq!(<usize as FromValue>::from_value(v), Ok(0usize));
}

#[test]
fn round_trip_string_and_float() {
    let v = "hello".to_string().into_value();
    assert_eq!(<String as FromValue>::from_value(v), Ok("hello".to_string()));
    let bits = 2.75f64.to_bits();
    let v = Float64::from_bits(bits).into_value();
    assert_eq!(<Float64 as FromValue>::from_value(v), Ok(Float64::from_bits(bits)));
}

#[test]
fn out_of_range_never_wraps() {
    let v = Value::Int(BigNum::from_i128(300));
    assert_eq!(<i8 as FromValue>::from_value(v), Err(ConvertError::RangeOverflow));
    let v = Value::Int(BigNum::from_i128(-1));
    assert_eq!(<u64 as FromValue>::from_value(v), Err(ConvertError::RangeOverflow));
    let v = Value::Int(BigNum::from_u128(1u128 << 70));
    assert_eq!(<u32 as FromValue>::from_value(v), Err(ConvertError::RangeOverflow));
}

#[test]
fn type_mismatch_on_foreign_variant() {
    let v = Value::Str("5".to_string());
    assert_eq!(<i32 as FromValue>::from_value(v), Err(ConvertError::TypeMismatch));
    let v = Value::Int(BigNum::from_i128(5));
    assert_eq!(<String as FromValue>::from_value(v), Err(ConvertError::TypeMismatch));
    let v = Value::Int(BigNum::from_i128(5));
    assert_eq!(<Float64 as FromValue>::from_value(v), Err(ConvertError::TypeMismatch));
}
