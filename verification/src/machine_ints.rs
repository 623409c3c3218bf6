use vstd::prelude::*;

use crate::bignum::BigNum;
use crate::value::{ConvertError, NumInt};

verus! {

impl NumInt for i8 {
    open spec fn as_int(self) -> int {
        self as int
    }

    open spec fn min_int() -> int {
        i8::MIN as int
    }

    open spec fn max_int() -> int {
        i8::MAX as int
    }

    open spec fn of_int(n: int) -> i8 {
        n as i8
    }

    proof fn lemma_in_range(self) {
    }

    fn to_bignum(self) -> (r: BigNum) {
        if self < 0 {
            BigNum::from_parts(true, (-(self as i128)) as u128)
        } else {
            BigNum::from_parts(false, self as u128)
        }
    }

    fn from_bignum(v: &BigNum) -> (r: Result<i8, ConvertError>) {
        match v.to_parts() {
            None => Err(ConvertError::RangeOverflow),
            Some((neg, mag)) => {
                if neg {
                    if mag <= 0x80u128 {
                        Ok((-(mag as i128)) as i8)
                    } else {
                        Err(ConvertError::RangeOverflow)
                    }
                } else {
                    if mag <= 0x7fu128 {
                        Ok(mag as i8)
                    } else {
                        Err(ConvertError::RangeOverflow)
                    }
                }
            },
        }
    }
}

impl NumInt for i16 {
    open spec fn as_int(self) -> int {
        self as int
    }

    open spec fn min_int() -> int {
        i16::MIN as int
    }

    open spec fn max_int() -> int {
        i16::MAX as int
    }

    open spec fn of_int(n: int) -> i16 {
        n as i16
    }

    proof fn lemma_in_range(self) {
    }

    fn to_bignum(self) -> (r: BigNum) {
        if self < 0 {
            BigNum::from_parts(true, (-(self as i128)) as u128)
        } else {
            BigNum::from_parts(false, self as u128)
        }
    }

    fn from_bignum(v: &BigNum) -> (r: Result<i16, ConvertError>) {
        match v.to_parts() {
            None => Err(ConvertError::RangeOverflow),
            Some((neg, mag)) => {
                if neg {
                    if mag <= 0x8000u128 {
                        Ok((-(mag as i128)) as i16)
                    } else {
                        Err(ConvertError::RangeOverflow)
                    }
                } else {
                    if mag <= 0x7fffu128 {
                        Ok(mag as i16)
                    } else {
                        Err(ConvertError::RangeOverflow)
                    }
                }
            },
        }
    }
}

impl NumInt for i32 {
    open spec fn as_int(self) -> int {
        self as int
    }

    open spec fn min_int() -> int {
        i32::MIN as int
    }

    open spec fn max_int() -> int {
        i32::MAX as int
    }

    open spec fn of_int(n: int) -> i32 {
        n as i32
    }

    proof fn lemma_in_range(self) {
    }

    fn to_bignum(self) -> (r: BigNum) {
        if self < 0 {
            BigNum::from_parts(true, (-(self as i128)) as u128)
        } else {
            BigNum::from_parts(false, self as u128)
        }
    }

    fn from_bignum(v: &BigNum) -> (r: Result<i32, ConvertError>) {
        match v.to_parts() {
            None => Err(ConvertError::RangeOverflow),
            Some((neg, mag)) => {
                if neg {
                    if mag <= 0x8000_0000u128 {
                        Ok((-(mag as i128)) as i32)
                    } else {
                        Err(ConvertError::RangeOverflow)
                    }
                } else {
                    if mag <= 0x7fff_ffffu128 {
                        Ok(mag as i32)
                    } else {
                        Err(ConvertError::RangeOverflow)
                    }
                }
            },
        }
    }
}

impl NumInt for i64 {
    open spec fn as_int(self) -> int {
        self as int
    }

    open spec fn min_int() -> int {
        i64::MIN as int
    }

    open spec fn max_int() -> int {
        i64::MAX as int
    }

    open spec fn of_int(n: int) -> i64 {
        n as i64
    }

    proof fn lemma_in_range(self) {
    }

    fn to_bignum(self) -> (r: BigNum) {
        if self < 0 {
            BigNum::from_parts(true, (-(self as i128)) as u128)
        } else {
            BigNum::from_parts(false, self as u128)
        }
    }

    fn from_bignum(v: &BigNum) -> (r: Result<i64, ConvertError>) {
        match v.to_parts() {
            None => Err(ConvertError::RangeOverflow),
            Some((neg, mag)) => {
                if neg {
                    if mag <= 0x8000_0000_0000_0000u128 {
                        Ok((-(mag as i128)) as i64)
                    } else {
                        Err(ConvertError::RangeOverflow)
                    }
                } else {
                    if mag <= 0x7fff_ffff_ffff_ffffu128 {
                        Ok(mag as i64)
                    } else {
                        Err(ConvertError::RangeOverflow)
                    }
                }
            },
        }
    }
}

impl NumInt for isize {
    open spec fn as_int(self) -> int {
        self as int
    }

    open spec fn min_int() -> int {
        isize::MIN as int
    }

    open spec fn max_int() -> int {
        isize::MAX as int
    }

    open spec fn of_int(n: int) -> isize {
        n as isize
    }

    proof fn lemma_in_range(self) {
    }

    fn to_bignum(self) -> (r: BigNum) {
        if self < 0 {
            BigNum::from_parts(true, (-(self as i128)) as u128)
        } else {
            BigNum::from_parts(false, self as u128)
        }
    }

    fn from_bignum(v: &BigNum) -> (r: Result<isize, ConvertError>) {
        match v.to_parts() {
            None => Err(ConvertError::RangeOverflow),
            Some((neg, mag)) => {
                if neg {
                    if mag <= (isize::MAX as u128) + 1 {
                        Ok((-(mag as i128)) as isize)
                    } else {
                        Err(ConvertError::RangeOverflow)
                    }
                } else {
                    if mag <= isize::MAX as u128 {
                        Ok(mag as isize)
                    } else {
                        Err(ConvertError::RangeOverflow)
                    }
                }
            },
        }
    }
}

impl NumInt for u8 {
    open spec fn as_int(self) -> int {
        self as int
    }

    open spec fn min_int() -> int {
        0
    }

    open spec fn max_int() -> int {
        u8::MAX as int
    }

    open spec fn of_int(n: int) -> u8 {
        n as u8
    }

    proof fn lemma_in_range(self) {
    }

    fn to_bignum(self) -> (r: BigNum) {
        BigNum::from_parts(false, self as u128)
    }

    fn from_bignum(v: &BigNum) -> (r: Result<u8, ConvertError>) {
        match v.to_parts() {
            None => Err(ConvertError::RangeOverflow),
            Some((neg, mag)) => {
                if neg {
                    if mag == 0 {
                        Ok(0)
                    } else {
                        Err(ConvertError::RangeOverflow)
                    }
                } else {
                    if mag <= u8::MAX as u128 {
                        Ok(mag as u8)
                    } else {
                        Err(ConvertError::RangeOverflow)
                    }
                }
            },
        }
    }
}

impl NumInt for u16 {
    open spec fn as_int(self) -> int {
        self as int
    }

    open spec fn min_int() -> int {
        0
    }

    open spec fn max_int() -> int {
        u16::MAX as int
    }

    open spec fn of_int(n: int) -> u16 {
        n as u16
    }

    proof fn lemma_in_range(self) {
    }

    fn to_bignum(self) -> (r: BigNum) {
        BigNum::from_parts(false, self as u128)
    }

    fn from_bignum(v: &BigNum) -> (r: Result<u16, ConvertError>) {
        match v.to_parts() {
            None => Err(ConvertError::RangeOverflow),
            Some((neg, mag)) => {
                if neg {
                    if mag == 0 {
                        Ok(0)
                    } else {
                        Err(ConvertError::RangeOverflow)
                    }
                } else {
                    if mag <= u16::MAX as u128 {
                        Ok(mag as u16)
                    } else {
                        Err(ConvertError::RangeOverflow)
                    }
                }
            },
        }
    }
}

impl NumInt for u32 {
    open spec fn as_int(self) -> int {
        self as int
    }

    open spec fn min_int() -> int {
        0
    }

    open spec fn max_int() -> int {
        u32::MAX as int
    }

    open spec fn of_int(n: int) -> u32 {
        n as u32
    }

    proof fn lemma_in_range(self) {
    }

    fn to_bignum(self) -> (r: BigNum) {
        BigNum::from_parts(false, self as u128)
    }

    fn from_bignum(v: &BigNum) -> (r: Result<u32, ConvertError>) {
        match v.to_parts() {
            None => Err(ConvertError::RangeOverflow),
            Some((neg, mag)) => {
                if neg {
                    if mag == 0 {
                        Ok(0)
                    } else {
                        Err(ConvertError::RangeOverflow)
                    }
                } else {
                    if mag <= u32::MAX as u128 {
                        Ok(mag as u32)
                    } else {
                        Err(ConvertError::RangeOverflow)
                    }
                }
            },
        }
    }
}

impl NumInt for u64 {
    open spec fn as_int(self) -> int {
        self as int
    }

    open spec fn min_int() -> int {
        0
    }

    open spec fn max_int() -> int {
        u64::MAX as int
    }

    open spec fn of_int(n: int) -> u64 {
        n as u64
    }

    proof fn lemma_in_range(self) {
    }

    fn to_bignum(self) -> (r: BigNum) {
        BigNum::from_parts(false, self as u128)
    }

    fn from_bignum(v: &BigNum) -> (r: Result<u64, ConvertError>) {
        match v.to_parts() {
            None => Err(ConvertError::RangeOverflow),
            Some((neg, mag)) => {
                if neg {
                    if mag == 0 {
                        Ok(0)
                    } else {
                        Err(ConvertError::RangeOverflow)
                    }
                } else {
                    if mag <= u64::MAX as u128 {
                        Ok(mag as u64)
                    } else {
                        Err(ConvertError::RangeOverflow)
                    }
                }
            },
        }
    }
}

impl NumInt for usize {
    open spec fn as_int(self) -> int {
        self as int
    }

    open spec fn min_int() -> int {
        0
    }

    open spec fn max_int() -> int {
        usize::MAX as int
    }

    open spec fn of_int(n: int) -> usize {
        n as usize
    }

    proof fn lemma_in_range(self) {
    }

    fn to_bignum(self) -> (r: BigNum) {
        BigNum::from_parts(false, self as u128)
    }

    fn from_bignum(v: &BigNum) -> (r: Result<usize, ConvertError>) {
        match v.to_parts() {
            None => Err(ConvertError::RangeOverflow),
            Some((neg, mag)) => {
                if neg {
                    if mag == 0 {
                        Ok(0)
                    } else {
                        Err(ConvertError::RangeOverflow)
                    }
                } else {
                    if mag <= usize::MAX as u128 {
                        Ok(mag as usize)
                    } else {
                        Err(ConvertError::RangeOverflow)
                    }
                }
            },
        }
    }
}

impl NumInt for i128 {
    open spec fn as_int(self) -> int {
        self as int
    }

    open spec fn min_int() -> int {
        i128::MIN as int
    }

    open spec fn max_int() -> int {
        i128::MAX as int
    }

    open spec fn of_int(n: int) -> i128 {
        n as i128
    }

    proof fn lemma_in_range(self) {
    }

    fn to_bignum(self) -> (r: BigNum) {
        if self < 0 {
            if self == i128::MIN {
                BigNum::from_parts(true, 0x8000_0000_0000_0000_0000_0000_0000_0000u128)
            } else {
                BigNum::from_parts(true, (-self) as u128)
            }
        } else {
            BigNum::from_parts(false, self as u128)
        }
    }

    fn from_bignum(v: &BigNum) -> (r: Result<i128, ConvertError>) {
        match v.to_parts() {
            None => Err(ConvertError::RangeOverflow),
            Some((neg, mag)) => {
                if neg {
                    if mag == 0x8000_0000_0000_0000_0000_0000_0000_0000u128 {
                        Ok(i128::MIN)
                    } else if mag < 0x8000_0000_0000_0000_0000_0000_0000_0000u128 {
                        Ok(-(mag as i128))
                    } else {
                        Err(ConvertError::RangeOverflow)
                    }
                } else {
                    if mag <= i128::MAX as u128 {
                        Ok(mag as i128)
                    } else {
                        Err(ConvertError::RangeOverflow)
                    }
                }
            },
        }
    }
}

impl NumInt for u128 {
    open spec fn as_int(self) -> int {
        self as int
    }

    open spec fn min_int() -> int {
        0
    }

    open spec fn max_int() -> int {
        u128::MAX as int
    }

    open spec fn of_int(n: int) -> u128 {
        n as u128
    }

    proof fn lemma_in_range(self) {
    }

    fn to_bignum(self) -> (r: BigNum) {
        BigNum::from_parts(false, self)
    }

    fn from_bignum(v: &BigNum) -> (r: Result<u128, ConvertError>) {
        match v.to_parts() {
            None => Err(ConvertError::RangeOverflow),
            Some((neg, mag)) => {
                if neg {
                    if mag == 0 {
                        Ok(0)
                    } else {
                        Err(ConvertError::RangeOverflow)
                    }
                } else {
                    Ok(mag)
                }
            },
        }
    }
}

} // verus!
