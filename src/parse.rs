//! Decimal integers as they travel in protocol fields and configuration.
use vstd::prelude::*;
use crate::error::AuthError;
use crate::num::{num_parse_decimal, Num};

verus! {

/// An ASCII decimal digit or the separator `_`.
pub open spec fn is_digit_or_sep(c: char) -> bool {
    (48 <= (c as u32) && (c as u32) <= 57) || c == '_'
}

/// The value of decimal digits, separators skipped.
pub open spec fn digits_value(s: Seq<char>) -> nat
    decreases s.len(),
{
    if s.len() == 0 {
        0
    } else if s.last() == '_' {
        digits_value(s.drop_last())
    } else {
        digits_value(s.drop_last()) * 10 + ((s.last() as u32) - 48) as nat
    }
}

/// An unsigned decimal: an optional `+` (not followed by another `+`), then a
/// digit or separator string that is not empty and does not start with `_`.
pub open spec fn unsigned_decimal(s: Seq<char>) -> Option<nat> {
    let t = if s.len() > 0 && s[0] == '+' && !(s.len() > 1 && s[1] == '+') {
        s.drop_first()
    } else {
        s
    };
    if t.len() > 0 && t[0] != '_' && forall|i: int| 0 <= i < t.len() ==> is_digit_or_sep(#[trigger] t[i]) {
        Some(digits_value(t))
    } else {
        None
    }
}

/// The integer that a decimal string spells: an optional `-` (not followed by
/// `+`) before an unsigned decimal.
pub open spec fn decimal_value(s: Seq<char>) -> Option<int> {
    if s.len() > 0 && s[0] == '-' && !(s.len() > 1 && s[1] == '+') {
        match unsigned_decimal(s.drop_first()) {
            Some(v) => Some(-(v as int)),
            None => None,
        }
    } else {
        match unsigned_decimal(s) {
            Some(v) => Some(v as int),
            None => None,
        }
    }
}

/// Reads a non-negative decimal integer of any size; anything else is
/// `MalformedInput`.
pub fn parse_unsigned(s: &str) -> (r: Result<Num, AuthError>)
    ensures
        match decimal_value(s@) {
            Some(v) => if v >= 0 {
                r is Ok && r->Ok_0@ == v
            } else {
                r == Err::<Num, AuthError>(AuthError::MalformedInput)
            },
            None => r == Err::<Num, AuthError>(AuthError::MalformedInput),
        },
{
    match num_parse_decimal(s) {
        Some((negative, n)) => if negative {
            Err(AuthError::MalformedInput)
        } else {
            Ok(n)
        },
        None => Err(AuthError::MalformedInput),
    }
}

/// Reads a decimal integer of either sign and any size, as a sign (`true` for
/// negative) and an absolute value; anything else is `MalformedInput`.
pub fn parse_signed(s: &str) -> (r: Result<(bool, Num), AuthError>)
    ensures
        match decimal_value(s@) {
            Some(v) => r is Ok && r->Ok_0.0 == (v < 0) && r->Ok_0.1@ == (if v < 0 { -v } else { v }),
            None => r == Err::<(bool, Num), AuthError>(AuthError::MalformedInput),
        },
{
    match num_parse_decimal(s) {
        Some(v) => Ok(v),
        None => Err(AuthError::MalformedInput),
    }
}

} // verus!
