use vstd::prelude::*;

use crate::floats::Float64;
use crate::value::{ConvertError, FromValue, IntoValue, NumInt, ValueModel};

verus! {

/// Round trip for every machine integer type: decoding an encoded
/// value can only reproduce the original.
pub proof fn lemma_int_round_trip<T: NumInt>(x: T, r: Result<T, ConvertError>)
    requires
        <T as FromValue>::from_value_spec(<T as IntoValue>::spec_into_value(x), r),
    ensures
        r == Ok::<T, ConvertError>(x),
{
    x.lemma_in_range();
}

/// An integer outside a machine type's bounds can only fail decoding
/// with a range error, never wrap.
pub proof fn lemma_int_narrowing_fails<T: NumInt>(n: int, r: Result<T, ConvertError>)
    requires
        <T as FromValue>::from_value_spec(ValueModel::Int(n), r),
        n < T::min_int() || n > T::max_int(),
    ensures
        r == Err::<T, ConvertError>(ConvertError::RangeOverflow),
{
}

/// Round trip for strings: decoding an encoded string can only
/// reproduce its text.
pub proof fn lemma_string_round_trip(x: String, r: Result<String, ConvertError>)
    requires
        <String as FromValue>::from_value_spec(x.spec_into_value(), r),
    ensures
        r matches Ok(t) && t@ == x@,
{
}

/// Round trip for doubles: decoding an encoded double can only
/// reproduce the same bit pattern.
pub proof fn lemma_float_round_trip(x: Float64, r: Result<Float64, ConvertError>)
    requires
        <Float64 as FromValue>::from_value_spec(x.spec_into_value(), r),
    ensures
        r == Ok::<Float64, ConvertError>(x),
{
}

} // verus!
