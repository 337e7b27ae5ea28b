//! Reading the text of a path segment as a value.

use crate::text::chars_of;
use crate::text::same_chars;
use vstd::prelude::*;

verus! {

/// Why a path parameter could not be had.
#[derive(PartialEq, Eq, Clone, Copy, Debug, Structural)]
pub enum ParamError {
    /// No parameter of that name was registered with the route.
    UnknownParam,
    /// The path has no segment at the parameter's place.
    MissingSegment,
    /// The segment does not read as a value of the type asked for.
    Unreadable,
}

/// A type whose values can be read from the text of a path segment.
pub trait FromParam: Sized {
    /// The type of the values read.
    type Inner;

    /// What `from_param` may give for a text. An implementation that says
    /// nothing here promises nothing.
    open spec fn reads(param: Seq<char>, r: Result<Self::Inner, ParamError>) -> bool {
        true
    }

    /// Reads `param` as a value.
    fn from_param(param: String) -> (r: Result<Self::Inner, ParamError>)
        ensures
            Self::reads(param@, r),
    ;
}

/// Whether `c` is one of the digits `0` to `9`.
pub open spec fn is_digit(c: char) -> bool {
    '0' <= c <= '9'
}

/// The number that a text of digits writes in base ten.
pub open spec fn digits_value(digits: Seq<char>) -> nat
    decreases digits.len(),
{
    if digits.len() == 0 {
        0
    } else {
        (digits_value(digits.drop_last()) * 10 + (digits.last() as u32 - '0' as u32)) as nat
    }
}

/// Whether every character of `s` is a digit.
pub open spec fn all_digits(s: Seq<char>) -> bool {
    forall|i: int| 0 <= i < s.len() ==> is_digit(#[trigger] s[i])
}

/// The integer that `text` writes: a `+` or, for a signed type, a `-` may
/// come first; at least one digit follows, and nothing else.
pub open spec fn decimal(text: Seq<char>, signed: bool) -> Option<int> {
    let negative = signed && text.len() > 0 && text[0] == '-';
    let digits = if text.len() > 0 && (text[0] == '+' || negative) {
        text.skip(1)
    } else {
        text
    };
    if digits.len() > 0 && all_digits(digits) {
        Some(
            if negative {
                -(digits_value(digits) as int)
            } else {
                digits_value(digits) as int
            },
        )
    } else {
        None
    }
}

/// The integer that `text` writes, where it lies between `min` and `max`.
pub open spec fn reads_integer(text: Seq<char>, signed: bool, min: int, max: int) -> Option<int> {
    match decimal(text, signed) {
        Some(v) => if min <= v <= max {
            Some(v)
        } else {
            None
        },
        None => None,
    }
}

/// Reads `text` as an integer between `min` and `max`.
pub fn parse_integer(text: &Vec<char>, signed: bool, min: i128, max: i128) -> (r: Option<i128>)
    requires
        -0x1_0000_0000_0000_0000 <= min <= 0 <= max <= 0x1_0000_0000_0000_0000,
    ensures
        r == match reads_integer(text@, signed, min as int, max as int) {
            Some(v) => Some(v as i128),
            None => None,
        },
{
    let n = text.len();
    let negative = signed && n > 0 && text[0] == '-';
    let start: usize = if n > 0 && (text[0] == '+' || negative) {
        1
    } else {
        0
    };
    let ghost digits = if start == 1 {
        text@.skip(1)
    } else {
        text@
    };
    if start == n {
        return None;
    }
    let limit: i128 = 0x1_0000_0000_0000_0000;
    let mut acc: i128 = 0;
    let mut over = false;
    let mut i: usize = start;
    assert(digits.take(0) =~= Seq::<char>::empty());
    while i < n
        invariant
            start <= i <= n,
            n == text.len(),
            limit == 0x1_0000_0000_0000_0000,
            digits == text@.skip(start as int),
            negative == (signed && n > 0 && text@[0] == '-'),
            start == if n > 0 && (text@[0] == '+' || negative) {
                1usize
            } else {
                0usize
            },
            all_digits(digits.take(i - start)),
            0 <= acc <= limit,
            !over ==> acc == digits_value(digits.take(i - start)),
            over ==> digits_value(digits.take(i - start)) > limit,
        decreases n - i,
    {
        let c = text[i];
        proof {
            assert(digits.take(i + 1 - start).drop_last() =~= digits.take(i - start));
            assert(digits.take(i + 1 - start).last() == c);
        }
        if !('0' <= c && c <= '9') {
            proof {
                assert(digits[i - start] == c);
                assert(!all_digits(digits));
                assert(text@.skip(0) =~= text@);
            }
            return None;
        }
        let d: i128 = (c as u32 - '0' as u32) as i128;
        if !over {
            let next: i128 = acc * 10 + d;
            if next > limit {
                over = true;
            } else {
                acc = next;
            }
        }
        assert(all_digits(digits.take(i + 1 - start))) by {
            assert forall|k: int| 0 <= k < i + 1 - start implies is_digit(
                #[trigger] digits.take(i + 1 - start)[k],
            ) by {
                if k < i - start {
                    assert(digits.take(i - start)[k] == digits[k]);
                }
            }
        }
        i += 1;
    }
    proof {
        assert(digits.take(n - start) =~= digits);
        assert(text@.skip(0) =~= text@);
    }
    if over {
        return None;
    }
    let value: i128 = if negative {
        -acc
    } else {
        acc
    };
    if min <= value && value <= max {
        Some(value)
    } else {
        None
    }
}

impl FromParam for String {
    type Inner = String;

    open spec fn reads(param: Seq<char>, r: Result<String, ParamError>) -> bool {
        r is Ok && r->Ok_0@ == param
    }

    /// A text reads as itself.
    fn from_param(param: String) -> (r: Result<String, ParamError>) {
        Ok(param)
    }
}

impl FromParam for bool {
    type Inner = bool;

    open spec fn reads(param: Seq<char>, r: Result<bool, ParamError>) -> bool {
        r == if param == "true"@ {
            Ok::<bool, ParamError>(true)
        } else if param == "false"@ {
            Ok(false)
        } else {
            Err(ParamError::Unreadable)
        }
    }

    /// `true` and `false` read as themselves, and nothing else reads.
    fn from_param(param: String) -> (r: Result<bool, ParamError>) {
        let chars = chars_of(param.as_str());
        if same_chars(&chars, &chars_of("true")) {
            Ok(true)
        } else if same_chars(&chars, &chars_of("false")) {
            Ok(false)
        } else {
            Err(ParamError::Unreadable)
        }
    }
}

impl FromParam for i32 {
    type Inner = i32;

    open spec fn reads(param: Seq<char>, r: Result<i32, ParamError>) -> bool {
        r == match reads_integer(param, true, i32::MIN as int, i32::MAX as int) {
            Some(v) => Ok::<i32, ParamError>(v as i32),
            None => Err(ParamError::Unreadable),
        }
    }

    /// Reads a decimal integer that fits the type.
    fn from_param(param: String) -> (r: Result<i32, ParamError>) {
        match parse_integer(&chars_of(param.as_str()), true, i32::MIN as i128, i32::MAX as i128) {
            Some(v) => Ok(v as i32),
            None => Err(ParamError::Unreadable),
        }
    }
}

impl FromParam for i64 {
    type Inner = i64;

    open spec fn reads(param: Seq<char>, r: Result<i64, ParamError>) -> bool {
        r == match reads_integer(param, true, i64::MIN as int, i64::MAX as int) {
            Some(v) => Ok::<i64, ParamError>(v as i64),
            None => Err(ParamError::Unreadable),
        }
    }

    /// Reads a decimal integer that fits the type.
    fn from_param(param: String) -> (r: Result<i64, ParamError>) {
        match parse_integer(&chars_of(param.as_str()), true, i64::MIN as i128, i64::MAX as i128) {
            Some(v) => Ok(v as i64),
            None => Err(ParamError::Unreadable),
        }
    }
}

impl FromParam for u32 {
    type Inner = u32;

    open spec fn reads(param: Seq<char>, r: Result<u32, ParamError>) -> bool {
        r == match reads_integer(param, false, 0, u32::MAX as int) {
            Some(v) => Ok::<u32, ParamError>(v as u32),
            None => Err(ParamError::Unreadable),
        }
    }

    /// Reads a decimal integer that fits the type.
    fn from_param(param: String) -> (r: Result<u32, ParamError>) {
        match parse_integer(&chars_of(param.as_str()), false, 0, u32::MAX as i128) {
            Some(v) => Ok(v as u32),
            None => Err(ParamError::Unreadable),
        }
    }
}

impl FromParam for u64 {
    type Inner = u64;

    open spec fn reads(param: Seq<char>, r: Result<u64, ParamError>) -> bool {
        r == match reads_integer(param, false, 0, u64::MAX as int) {
            Some(v) => Ok::<u64, ParamError>(v as u64),
            None => Err(ParamError::Unreadable),
        }
    }

    /// Reads a decimal integer that fits the type.
    fn from_param(param: String) -> (r: Result<u64, ParamError>) {
        match parse_integer(&chars_of(param.as_str()), false, 0, u64::MAX as i128) {
            Some(v) => Ok(v as u64),
            None => Err(ParamError::Unreadable),
        }
    }
}

impl FromParam for usize {
    type Inner = usize;

    open spec fn reads(param: Seq<char>, r: Result<usize, ParamError>) -> bool {
        r == match reads_integer(param, false, 0, usize::MAX as int) {
            Some(v) => Ok::<usize, ParamError>(v as usize),
            None => Err(ParamError::Unreadable),
        }
    }

    /// Reads a decimal integer that fits the type.
    fn from_param(param: String) -> (r: Result<usize, ParamError>) {
        match parse_integer(&chars_of(param.as_str()), false, 0, usize::MAX as i128) {
            Some(v) => Ok(v as usize),
            None => Err(ParamError::Unreadable),
        }
    }
}

} // verus!
