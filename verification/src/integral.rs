//! The integer types of the machine as `Integral` types.

use crate::numlib::Integral;
use vstd::prelude::*;

verus! {

impl Integral for u8 {
    open spec fn least() -> int {
        0
    }

    open spec fn greatest() -> int {
        u8::MAX as int
    }

    open spec fn value(self) -> int {
        self as int
    }

    proof fn lemma_bounds() {
    }

    fn is_signed() -> (signed: bool) {
        false
    }

    fn from_sign_magnitude(negative: bool, magnitude: u128) -> (r: Option<u8>) {
        if (negative && magnitude != 0) || magnitude > u8::MAX as u128 {
            None
        } else {
            Some(magnitude as u8)
        }
    }
}

impl Integral for u16 {
    open spec fn least() -> int {
        0
    }

    open spec fn greatest() -> int {
        u16::MAX as int
    }

    open spec fn value(self) -> int {
        self as int
    }

    proof fn lemma_bounds() {
    }

    fn is_signed() -> (signed: bool) {
        false
    }

    fn from_sign_magnitude(negative: bool, magnitude: u128) -> (r: Option<u16>) {
        if (negative && magnitude != 0) || magnitude > u16::MAX as u128 {
            None
        } else {
            Some(magnitude as u16)
        }
    }
}

impl Integral for u32 {
    open spec fn least() -> int {
        0
    }

    open spec fn greatest() -> int {
        u32::MAX as int
    }

    open spec fn value(self) -> int {
        self as int
    }

    proof fn lemma_bounds() {
    }

    fn is_signed() -> (signed: bool) {
        false
    }

    fn from_sign_magnitude(negative: bool, magnitude: u128) -> (r: Option<u32>) {
        if (negative && magnitude != 0) || magnitude > u32::MAX as u128 {
            None
        } else {
            Some(magnitude as u32)
        }
    }
}

impl Integral for u64 {
    open spec fn least() -> int {
        0
    }

    open spec fn greatest() -> int {
        u64::MAX as int
    }

    open spec fn value(self) -> int {
        self as int
    }

    proof fn lemma_bounds() {
    }

    fn is_signed() -> (signed: bool) {
        false
    }

    fn from_sign_magnitude(negative: bool, magnitude: u128) -> (r: Option<u64>) {
        if (negative && magnitude != 0) || magnitude > u64::MAX as u128 {
            None
        } else {
            Some(magnitude as u64)
        }
    }
}

impl Integral for u128 {
    open spec fn least() -> int {
        0
    }

    open spec fn greatest() -> int {
        u128::MAX as int
    }

    open spec fn value(self) -> int {
        self as int
    }

    proof fn lemma_bounds() {
    }

    fn is_signed() -> (signed: bool) {
        false
    }

    fn from_sign_magnitude(negative: bool, magnitude: u128) -> (r: Option<u128>) {
        if (negative && magnitude != 0) || magnitude > u128::MAX as u128 {
            None
        } else {
            Some(magnitude as u128)
        }
    }
}

impl Integral for usize {
    open spec fn least() -> int {
        0
    }

    open spec fn greatest() -> int {
        usize::MAX as int
    }

    open spec fn value(self) -> int {
        self as int
    }

    proof fn lemma_bounds() {
    }

    fn is_signed() -> (signed: bool) {
        false
    }

    fn from_sign_magnitude(negative: bool, magnitude: u128) -> (r: Option<usize>) {
        if (negative && magnitude != 0) || magnitude > usize::MAX as u128 {
            None
        } else {
            Some(magnitude as usize)
        }
    }
}

impl Integral for i8 {
    open spec fn least() -> int {
        i8::MIN as int
    }

    open spec fn greatest() -> int {
        i8::MAX as int
    }

    open spec fn value(self) -> int {
        self as int
    }

    proof fn lemma_bounds() {
    }

    fn is_signed() -> (signed: bool) {
        true
    }

    fn from_sign_magnitude(negative: bool, magnitude: u128) -> (r: Option<i8>) {
        if negative {
            if magnitude > i8::MAX as u128 + 1 {
                None
            } else {
                Some((0 - magnitude as i128) as i8)
            }
        } else if magnitude > i8::MAX as u128 {
            None
        } else {
            Some(magnitude as i8)
        }
    }
}

impl Integral for i16 {
    open spec fn least() -> int {
        i16::MIN as int
    }

    open spec fn greatest() -> int {
        i16::MAX as int
    }

    open spec fn value(self) -> int {
        self as int
    }

    proof fn lemma_bounds() {
    }

    fn is_signed() -> (signed: bool) {
        true
    }

    fn from_sign_magnitude(negative: bool, magnitude: u128) -> (r: Option<i16>) {
        if negative {
            if magnitude > i16::MAX as u128 + 1 {
                None
            } else {
                Some((0 - magnitude as i128) as i16)
            }
        } else if magnitude > i16::MAX as u128 {
            None
        } else {
            Some(magnitude as i16)
        }
    }
}

impl Integral for i32 {
    open spec fn least() -> int {
        i32::MIN as int
    }

    open spec fn greatest() -> int {
        i32::MAX as int
    }

    open spec fn value(self) -> int {
        self as int
    }

    proof fn lemma_bounds() {
    }

    fn is_signed() -> (signed: bool) {
        true
    }

    fn from_sign_magnitude(negative: bool, magnitude: u128) -> (r: Option<i32>) {
        if negative {
            if magnitude > i32::MAX as u128 + 1 {
                None
            } else {
                Some((0 - magnitude as i128) as i32)
            }
        } else if magnitude > i32::MAX as u128 {
            None
        } else {
            Some(magnitude as i32)
        }
    }
}

impl Integral for i64 {
    open spec fn least() -> int {
        i64::MIN as int
    }

    open spec fn greatest() -> int {
        i64::MAX as int
    }

    open spec fn value(self) -> int {
        self as int
    }

    proof fn lemma_bounds() {
    }

    fn is_signed() -> (signed: bool) {
        true
    }

    fn from_sign_magnitude(negative: bool, magnitude: u128) -> (r: Option<i64>) {
        if negative {
            if magnitude > i64::MAX as u128 + 1 {
                None
            } else {
                Some((0 - magnitude as i128) as i64)
            }
        } else if magnitude > i64::MAX as u128 {
            None
        } else {
            Some(magnitude as i64)
        }
    }
}

impl Integral for isize {
    open spec fn least() -> int {
        isize::MIN as int
    }

    open spec fn greatest() -> int {
        isize::MAX as int
    }

    open spec fn value(self) -> int {
        self as int
    }

    proof fn lemma_bounds() {
    }

    fn is_signed() -> (signed: bool) {
        true
    }

    fn from_sign_magnitude(negative: bool, magnitude: u128) -> (r: Option<isize>) {
        if negative {
            if magnitude > isize::MAX as u128 + 1 {
                None
            } else {
                Some((0 - magnitude as i128) as isize)
            }
        } else if magnitude > isize::MAX as u128 {
            None
        } else {
            Some(magnitude as isize)
        }
    }
}

impl Integral for i128 {
    open spec fn least() -> int {
        i128::MIN as int
    }

    open spec fn greatest() -> int {
        i128::MAX as int
    }

    open spec fn value(self) -> int {
        self as int
    }

    proof fn lemma_bounds() {
    }

    fn is_signed() -> (signed: bool) {
        true
    }

    fn from_sign_magnitude(negative: bool, magnitude: u128) -> (r: Option<i128>) {
        if negative {
            if magnitude > i128::MAX as u128 + 1 {
                None
            } else if magnitude == i128::MAX as u128 + 1 {
                Some(i128::MIN)
            } else {
                Some(0 - magnitude as i128)
            }
        } else if magnitude > i128::MAX as u128 {
            None
        } else {
            Some(magnitude as i128)
        }
    }
}

} // verus!
