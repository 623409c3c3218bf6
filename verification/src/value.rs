use vstd::prelude::*;

use crate::bignum::BigNum;
use crate::errors::EvalError;
use crate::floats::Float64;

verus! {

/// The tagged result type of evaluation: an arbitrary-precision
/// integer, a double (carried as its IEEE 754 bit pattern), or a
/// string.
#[derive(Debug, Clone)]
pub enum Value {
    Int(BigNum),
    Float(u64),
    Str(String),
}

/// Mathematical model of a `Value`.
pub enum ValueModel {
    Int(int),
    Float(u64),
    Str(Seq<char>),
}

impl View for Value {
    type V = ValueModel;

    open spec fn view(&self) -> ValueModel {
        match self {
            Value::Int(b) => ValueModel::Int(b@),
            Value::Float(bits) => ValueModel::Float(*bits),
            Value::Str(s) => ValueModel::Str(s@),
        }
    }
}

/// Integer payloads are kept canonical, so that structural equality of
/// values agrees with equality of the numbers they denote.
pub open spec fn value_wf(v: Value) -> bool {
    match v {
        Value::Int(b) => b.wf(),
        _ => true,
    }
}

/// The models of a sequence of values.
pub open spec fn models_of(vs: Seq<Value>) -> Seq<ValueModel> {
    vs.map_values(|v: Value| v@)
}

impl PartialEq for Value {
    /// Structural equality: same variant, same payload representation.
    fn eq(&self, other: &Value) -> (r: bool) {
        match (self, other) {
            (Value::Int(a), Value::Int(b)) => a.eq_repr(b),
            (Value::Float(x), Value::Float(y)) => x == y,
            (Value::Str(s), Value::Str(t)) => <String as PartialEq>::eq(s, t),
            _ => false,
        }
    }
}

impl vstd::std_specs::cmp::PartialEqSpecImpl for Value {
    open spec fn obeys_eq_spec() -> bool {
        true
    }

    open spec fn eq_spec(&self, other: &Value) -> bool {
        match (self, other) {
            (Value::Int(a), Value::Int(b)) => a.same_repr(b),
            (Value::Float(x), Value::Float(y)) => x == y,
            (Value::Str(s), Value::Str(t)) => s@ == t@,
            _ => false,
        }
    }
}

/// Why a single value refused to convert to a native type.
#[derive(Debug, Clone, Copy, PartialEq, Eq, Structural)]
pub enum ConvertError {
    /// The value's variant is not the expected family.
    TypeMismatch,
    /// A wide integer does not fit the target width.
    RangeOverflow,
}

/// Conversion into a `Value`: total for every supported native type.
pub trait IntoValue {
    /// The model of the value this converts to.
    spec fn spec_into_value(self) -> ValueModel;

    fn into_value(self) -> (r: Value)
        ensures
            r@ == self.spec_into_value(),
            value_wf(r),
    ;
}

/// Checked conversion out of a `Value`: fails on a foreign variant or
/// an out-of-range integer, never truncating or wrapping.
pub trait FromValue: Sized {
    /// Exactly which results the conversion may give on a value with
    /// this model.
    spec fn from_value_spec(v: ValueModel, r: Result<Self, ConvertError>) -> bool;

    fn from_value(v: Value) -> (r: Result<Self, ConvertError>)
        ensures
            Self::from_value_spec(v@, r),
    ;
}

/// Conversion of a fixed-arity native tuple into a value sequence.
pub trait IntoValueMulti {
    spec fn spec_into_value_multi(self) -> Seq<ValueModel>;

    fn into_value_multi(self) -> (r: Vec<Value>)
        ensures
            models_of(r@) == self.spec_into_value_multi(),
            forall|k: int| 0 <= k < r@.len() ==> value_wf(#[trigger] r@[k]),
    ;
}

/// Positional checked conversion of a value sequence into a native
/// tuple: a length mismatch is an arity error, and a failing position
/// is named in the error.
pub trait FromValueMulti: Sized {
    spec fn from_value_multi_spec(vs: Seq<ValueModel>, r: Result<Self, EvalError>) -> bool;

    fn from_value_multi(v: Vec<Value>) -> (r: Result<Self, EvalError>)
        ensures
            Self::from_value_multi_spec(models_of(v@), r),
    ;
}

/// The built-in machine integer types: each knows its bounds and how
/// to pass through the arbitrary-precision representation.
pub trait NumInt: Sized + Copy {
    /// The integer this machine value denotes.
    spec fn as_int(self) -> int;

    spec fn min_int() -> int;

    spec fn max_int() -> int;

    /// The machine value denoting `n`, for `n` within bounds.
    spec fn of_int(n: int) -> Self;

    /// Every machine value lies within its type's bounds, and its
    /// integer denotes it back.
    proof fn lemma_in_range(self)
        ensures
            Self::min_int() <= self.as_int() <= Self::max_int(),
            Self::of_int(self.as_int()) == self,
    ;

    fn to_bignum(self) -> (r: BigNum)
        ensures
            r@ == self.as_int(),
            r.wf(),
    ;

    fn from_bignum(v: &BigNum) -> (r: Result<Self, ConvertError>)
        ensures
            r == if Self::min_int() <= v@ <= Self::max_int() {
                Result::<Self, ConvertError>::Ok(Self::of_int(v@))
            } else {
                Result::<Self, ConvertError>::Err(ConvertError::RangeOverflow)
            },
    ;
}

impl<T: NumInt> IntoValue for T {
    open spec fn spec_into_value(self) -> ValueModel {
        ValueModel::Int(self.as_int())
    }

    fn into_value(self) -> (r: Value) {
        Value::Int(self.to_bignum())
    }
}

impl<T: NumInt> FromValue for T {
    open spec fn from_value_spec(v: ValueModel, r: Result<T, ConvertError>) -> bool {
        match v {
            ValueModel::Int(n) => r == if T::min_int() <= n <= T::max_int() {
                Result::<T, ConvertError>::Ok(T::of_int(n))
            } else {
                Result::<T, ConvertError>::Err(ConvertError::RangeOverflow)
            },
            _ => r == Result::<T, ConvertError>::Err(ConvertError::TypeMismatch),
        }
    }

    fn from_value(v: Value) -> (r: Result<T, ConvertError>) {
        match v {
            Value::Int(b) => T::from_bignum(&b),
            _ => Err(ConvertError::TypeMismatch),
        }
    }
}

impl IntoValue for String {
    open spec fn spec_into_value(self) -> ValueModel {
        ValueModel::Str(self@)
    }

    fn into_value(self) -> (r: Value) {
        Value::Str(self)
    }
}

impl FromValue for String {
    open spec fn from_value_spec(v: ValueModel, r: Result<String, ConvertError>) -> bool {
        match v {
            ValueModel::Str(s) => r matches Ok(t) && t@ == s,
            _ => r == Result::<String, ConvertError>::Err(ConvertError::TypeMismatch),
        }
    }

    fn from_value(v: Value) -> (r: Result<String, ConvertError>) {
        match v {
            Value::Str(s) => Ok(s),
            _ => Err(ConvertError::TypeMismatch),
        }
    }
}

impl IntoValue for Float64 {
    open spec fn spec_into_value(self) -> ValueModel {
        ValueModel::Float(self.bits)
    }

    fn into_value(self) -> (r: Value) {
        Value::Float(self.bits)
    }
}

impl FromValue for Float64 {
    open spec fn from_value_spec(v: ValueModel, r: Result<Float64, ConvertError>) -> bool {
        match v {
            ValueModel::Float(bits) => r == Result::<Float64, ConvertError>::Ok(
                Float64 { bits },
            ),
            _ => r == Result::<Float64, ConvertError>::Err(ConvertError::TypeMismatch),
        }
    }

    fn from_value(v: Value) -> (r: Result<Float64, ConvertError>) {
        match v {
            Value::Float(bits) => Ok(Float64 { bits }),
            _ => Err(ConvertError::TypeMismatch),
        }
    }
}

} // verus!
