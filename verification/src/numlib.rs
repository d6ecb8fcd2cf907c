//! Parsing integers in any base from 2 to 36, with a message where the text
//! is no number.

use crate::text::{decimal, push_decimal};
use vstd::prelude::*;
use vstd::string::StrSliceExecFns;

verus! {

/// What a character stands for as a digit: `0` to `9`, then the letters of
/// either case from 10 on. `None` for any other character.
pub open spec fn digit_of(c: char) -> Option<int> {
    if '0' <= c <= '9' {
        Some(c as int - '0' as int)
    } else if 'a' <= c <= 'z' {
        Some(c as int - 'a' as int + 10)
    } else if 'A' <= c <= 'Z' {
        Some(c as int - 'A' as int + 10)
    } else {
        None
    }
}

/// Whether the character is a digit in the base.
pub open spec fn is_digit(c: char, radix: int) -> bool {
    digit_of(c) matches Some(d) && d < radix
}

/// Whether all characters are digits in the base.
pub open spec fn all_digits(digits: Seq<char>, radix: int) -> bool {
    forall|i: int| 0 <= i < digits.len() ==> is_digit(#[trigger] digits[i], radix)
}

/// The number that digits write in the base.
pub open spec fn value_of(digits: Seq<char>, radix: int) -> int
    decreases digits.len(),
{
    if digits.len() == 0 {
        0
    } else {
        value_of(digits.drop_last(), radix) * radix + digit_of(digits.last()).unwrap_or(0)
    }
}

/// Whether the text begins with a minus sign that a type with values from
/// `least` on accepts: types without negative values accept none.
pub open spec fn is_negative(text: Seq<char>, least: int) -> bool {
    text.len() > 0 && text[0] == '-' && least < 0
}

/// The digits of a text: all that follows the sign, or all of it where it
/// has no sign.
pub open spec fn digits_of(text: Seq<char>, least: int) -> Seq<char> {
    if text.len() > 0 && (text[0] == '+' || is_negative(text, least)) {
        text.skip(1)
    } else {
        text
    }
}

/// The number that a text writes in the base, for a type with values from
/// `least` to `greatest`: an optional sign, then at least one digit; and the
/// number has to lie within the type's values.
pub open spec fn parsed(text: Seq<char>, radix: int, least: int, greatest: int) -> Option<int> {
    let digits = digits_of(text, least);
    let magnitude = value_of(digits, radix);
    let number = if is_negative(text, least) {
        -magnitude
    } else {
        magnitude
    };
    if digits.len() > 0 && all_digits(digits, radix) && least <= number <= greatest {
        Some(number)
    } else {
        None
    }
}

/// An integer type of the machine.
pub trait Integral: Sized {
    /// The least value of the type.
    spec fn least() -> int;

    /// The greatest value of the type.
    spec fn greatest() -> int;

    /// The value as a number.
    spec fn value(self) -> int;

    /// The values of the type include 0 and fit in 128 bits.
    proof fn lemma_bounds()
        ensures
            i128::MIN <= Self::least() <= 0,
            0 <= Self::greatest() <= u128::MAX,
    ;

    /// Whether the type has negative values.
    fn is_signed() -> (signed: bool)
        ensures
            signed == (Self::least() < 0),
    ;

    /// The value with the given sign and magnitude, if the type has it.
    fn from_sign_magnitude(negative: bool, magnitude: u128) -> (r: Option<Self>)
        ensures
            match r {
                Some(n) => n.value() == signed_value(negative, magnitude) && Self::least()
                    <= n.value() <= Self::greatest(),
                None => !(Self::least() <= signed_value(negative, magnitude) <= Self::greatest()),
            },
    ;
}

/// The number with the given sign and magnitude.
pub open spec fn signed_value(negative: bool, magnitude: u128) -> int {
    if negative {
        -(magnitude as int)
    } else {
        magnitude as int
    }
}

/// The message for a text that is no number of the type.
pub open spec fn invalid_number_text(text: Seq<char>, radix: u32) -> Seq<char> {
    "\""@ + text + "\" is not a valid base-"@ + decimal(radix as nat) + " number for this type"@
}

/// More digits write no smaller a number.
pub proof fn lemma_value_grows(digits: Seq<char>, radix: int, k: int)
    requires
        0 <= k <= digits.len(),
        2 <= radix,
        all_digits(digits, radix),
    ensures
        0 <= value_of(digits.take(k), radix) <= value_of(digits, radix),
    decreases digits.len() - k,
{
    lemma_value_not_negative(digits.take(k), radix);
    if k == digits.len() {
        assert(digits.take(k) =~= digits);
    } else {
        let more = digits.take(k + 1);
        assert(more.drop_last() =~= digits.take(k));
        assert(is_digit(digits[k], radix));
        assert(more.last() == digits[k]);
        let v = value_of(digits.take(k), radix);
        assert(v <= v * radix) by (nonlinear_arith)
            requires
                0 <= v,
                2 <= radix,
        ;
        lemma_value_grows(digits, radix, k + 1);
    }
}

/// Digits write a number that is not negative.
pub proof fn lemma_value_not_negative(digits: Seq<char>, radix: int)
    requires
        2 <= radix,
    ensures
        0 <= value_of(digits, radix),
    decreases digits.len(),
{
    if digits.len() > 0 {
        lemma_value_not_negative(digits.drop_last(), radix);
        let v = value_of(digits.drop_last(), radix);
        assert(0 <= v * radix) by (nonlinear_arith)
            requires
                0 <= v,
                2 <= radix,
        ;
    }
}

/// One digit of an ASCII text, as a number, if it is a digit in the base.
pub fn digit_value(byte: u8, radix: u32) -> (digit: Option<u32>)
    requires
        byte < 128,
    ensures
        match digit {
            Some(d) => is_digit(byte as char, radix as int) && digit_of(byte as char) == Some(
                d as int,
            ),
            None => !is_digit(byte as char, radix as int),
        },
{
    let d: u32 = if 48 <= byte && byte <= 57 {
        (byte - 48) as u32
    } else if 97 <= byte && byte <= 122 {
        (byte - 97) as u32 + 10
    } else if 65 <= byte && byte <= 90 {
        (byte - 65) as u32 + 10
    } else {
        return None;
    };
    if d < radix {
        Some(d)
    } else {
        None
    }
}

/// The sign and the magnitude that a text writes in the base, if the text is
/// an optional sign and at least one digit, and the magnitude fits in 128
/// bits. A minus sign counts as a sign only where `signed` says so.
pub fn parse_sign_magnitude(s: &str, radix: u32, signed: bool) -> (r: Option<(bool, u128)>)
    requires
        2 <= radix <= 36,
    ensures
        ({
            let least: int = if signed {
                -1
            } else {
                0
            };
            let digits = digits_of(s@, least);
            match r {
                Some((negative, magnitude)) => digits.len() > 0 && all_digits(
                    digits,
                    radix as int,
                ) && negative == is_negative(s@, least) && magnitude == value_of(
                    digits,
                    radix as int,
                ),
                None => !(digits.len() > 0 && all_digits(digits, radix as int) && value_of(
                    digits,
                    radix as int,
                ) <= u128::MAX),
            }
        }),
{
    let ghost least: int = if signed {
        -1
    } else {
        0
    };
    let ghost digits = digits_of(s@, least);
    if !s.is_ascii() {
        proof {
            let i = choose|i: int| 0 <= i < s@.len() && !('\0' <= #[trigger] s@[i] <= '\u{7f}');
            if digits.len() == s@.len() {
                assert(!is_digit(digits[i], radix as int));
            } else {
                assert(i > 0);
                assert(!is_digit(digits[i - 1], radix as int));
            }
        }
        return None;
    }
    let len = s.unicode_len();
    if len == 0 {
        return None;
    }
    let first = s.get_ascii(0);
    let negative = signed && first == 45;
    let start: usize = if first == 43 || negative {
        1
    } else {
        0
    };
    if start == len {
        return None;
    }
    assert(digits =~= s@.skip(start as int));
    let mut magnitude: u128 = 0;
    let mut i: usize = start;
    assert(digits.take(0) =~= Seq::<char>::empty());
    while i < len
        invariant
            start <= i <= len,
            len == s@.len(),
            s.is_ascii(),
            2 <= radix <= 36,
            digits == s@.skip(start as int),
            digits == digits_of(s@, least),
            least == (if signed {
                -1int
            } else {
                0int
            }),
            all_digits(digits.take(i - start), radix as int),
            magnitude == value_of(digits.take(i - start), radix as int),
        decreases len - i,
    {
        let byte = s.get_ascii(i);
        let ghost k = i - start;
        proof {
            assert(digits[k] == s@[i as int]);
            assert(digits.take(k + 1).drop_last() =~= digits.take(k));
            assert(digits.take(k + 1).last() == digits[k]);
            assert(byte as char == s@[i as int]);
        }
        let digit = match digit_value(byte, radix) {
            Some(d) => d,
            None => {
                return None;
            },
        };
        proof {
            assert forall|j: int| 0 <= j < k + 1 implies is_digit(
                #[trigger] digits.take(k + 1)[j],
                radix as int,
            ) by {
                if j < k {
                    assert(digits.take(k + 1)[j] == digits.take(k)[j]);
                }
            }
        }
        let grown = match magnitude.checked_mul(radix as u128) {
            Some(m) => m.checked_add(digit as u128),
            None => None,
        };
        match grown {
            Some(m) => {
                magnitude = m;
            },
            None => {
                proof {
                    if all_digits(digits, radix as int) {
                        lemma_value_grows(digits, radix as int, k + 1);
                    }
                }
                return None;
            },
        }
        i = i + 1;
    }
    assert(digits.take(len - start) =~= digits);
    Some((negative, magnitude))
}

/// The message for a text that is no number of the type.
pub fn invalid_number(s: &str, radix: u32) -> (message: String)
    ensures
        message@ == invalid_number_text(s@, radix),
{
    let mut message = String::from_str("\"");
    message.append(s);
    message.append("\" is not a valid base-");
    push_decimal(&mut message, radix as u64);
    message.append(" number for this type");
    message
}

/// Parses a text into an integer of the wanted type, in the given base. The
/// text is an optional sign and at least one digit; a minus sign is taken
/// only by the types that have negative values. Where the text is no such
/// number, or the number is none of the type, the error is a message that
/// says so.
pub fn parse_int<T: Integral>(s: &String, radix: u32) -> (r: Result<T, String>)
    requires
        2 <= radix <= 36,
    ensures
        match r {
            Ok(n) => parsed(s@, radix as int, T::least(), T::greatest()) == Some(n.value()),
            Err(message) => parsed(s@, radix as int, T::least(), T::greatest()) is None
                && message@ == invalid_number_text(s@, radix),
        },
{
    proof {
        T::lemma_bounds();
    }
    let signed = T::is_signed();
    let found = match parse_sign_magnitude(s.as_str(), radix, signed) {
        Some((negative, magnitude)) => T::from_sign_magnitude(negative, magnitude),
        None => None,
    };
    match found {
        Some(n) => Ok(n),
        None => Err(invalid_number(s.as_str(), radix)),
    }
}

} // verus!
