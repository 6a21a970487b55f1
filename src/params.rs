//! The group that both roles compute in.
use vstd::prelude::*;
use crate::arith::pow;
use crate::error::AuthError;
use crate::num::{mod_pow, Num};
use crate::parse::{decimal_value, parse_unsigned};

verus! {

/// The configuration record: the four group parameters as decimal strings.
pub struct Parameters {
    pub p: String,
    pub q: String,
    pub g: String,
    pub h: String,
}

/// Modulus `p`, subgroup order `q`, and the two generators `g` and `h`.
#[derive(Debug, Clone, PartialEq, Eq)]
pub struct GroupParameters {
    pub p: Num,
    pub q: Num,
    pub g: Num,
    pub h: Num,
}

/// Whether a field reads as a non-negative decimal integer.
pub open spec fn is_unsigned_field(s: Seq<char>) -> bool {
    decimal_value(s) is Some && decimal_value(s)->0 >= 0
}

impl GroupParameters {
    /// What every computation needs: a modulus above one and a positive order.
    pub open spec fn wf(&self) -> bool {
        self.p@ > 1 && self.q@ > 0
    }

    /// Moreover `q` divides `p - 1`, and `g^q` and `h^q` are one modulo `p`:
    /// the order of each generator divides `q`.
    pub open spec fn is_group(&self) -> bool {
        &&& self.wf()
        &&& (self.p@ - 1) % (self.q@ as int) == 0
        &&& mod_pow(self.g@ as int, self.q@, self.p@ as int) == 1
        &&& mod_pow(self.h@ as int, self.q@, self.p@ as int) == 1
    }

    /// Parameters with a modulus above one and a positive order, else `None`.
    pub fn new(p: Num, q: Num, g: Num, h: Num) -> (r: Option<GroupParameters>)
        ensures
            r is Some <==> (p@ > 1 && q@ > 0),
            r is Some ==> r->0 == (GroupParameters { p, q, g, h }),
    {
        let one = Num::from_u64(1);
        if !p.le(&one) && !q.le(&Num::from_u64(0)) {
            Some(GroupParameters { p, q, g, h })
        } else {
            None
        }
    }

    /// Whether the subgroup conditions of `is_group` hold.
    pub fn is_valid_group(&self) -> (r: bool)
        requires
            self.wf(),
        ensures
            r == self.is_group(),
    {
        let one = Num::from_u64(1);
        let zero = Num::from_u64(0);
        self.p.sub(&one).rem(&self.q).eq(&zero) && pow(&self.g, &self.q, &self.p).eq(&one) && pow(
            &self.h,
            &self.q,
            &self.p,
        ).eq(&one)
    }

    /// Reads the four decimal fields of a configuration record, of any size. A
    /// field that is not a non-negative decimal integer, a modulus below two or
    /// an order of zero is `MalformedInput`.
    pub fn from_parameters(params: &Parameters) -> (r: Result<GroupParameters, AuthError>)
        ensures
            (is_unsigned_field(params.p@) && is_unsigned_field(params.q@) && is_unsigned_field(
                params.g@,
            ) && is_unsigned_field(params.h@) && decimal_value(params.p@)->0 > 1 && decimal_value(
                params.q@,
            )->0 > 0) ==> r is Ok && r->Ok_0.p@ == decimal_value(params.p@)->0 && r->Ok_0.q@
                == decimal_value(params.q@)->0 && r->Ok_0.g@ == decimal_value(params.g@)->0
                && r->Ok_0.h@ == decimal_value(params.h@)->0,
            !(is_unsigned_field(params.p@) && is_unsigned_field(params.q@) && is_unsigned_field(
                params.g@,
            ) && is_unsigned_field(params.h@) && decimal_value(params.p@)->0 > 1 && decimal_value(
                params.q@,
            )->0 > 0) ==> r == Err::<GroupParameters, AuthError>(AuthError::MalformedInput),
    {
        let p = parse_unsigned(params.p.as_str());
        let q = parse_unsigned(params.q.as_str());
        let g = parse_unsigned(params.g.as_str());
        let h = parse_unsigned(params.h.as_str());
        match (p, q, g, h) {
            (Ok(p), Ok(q), Ok(g), Ok(h)) => match GroupParameters::new(p, q, g, h) {
                Some(gp) => Ok(gp),
                None => Err(AuthError::MalformedInput),
            },
            _ => Err(AuthError::MalformedInput),
        }
    }
}

} // verus!
