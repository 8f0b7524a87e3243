//! Non-negative whole numbers.

use vstd::prelude::*;

use crate::text::{decimal_of, push_decimal};

verus! {

/// A whole number that is at least zero: a table number, a quantity or a
/// preparation time. The store keeps these as signed 32-bit integers, so the
/// type wraps an `i32` whose sign has been checked.
#[derive(Debug)]
pub struct Nat(i32);

impl View for Nat {
    type V = int;

    closed spec fn view(&self) -> int {
        self.0 as int
    }
}

/// What `Nat::parse` says about a negative number.
pub const NEGATIVE_MESSAGE: &'static str = " is negative: it must be zero or more.";

/// The message with which `Nat::parse` rejects `n`.
pub open spec fn negative_message(n: int) -> Seq<char> {
    decimal_of(n) + NEGATIVE_MESSAGE@
}

impl Nat {
    #[verifier::type_invariant]
    spec fn inv(self) -> bool {
        self.0 >= 0
    }

    /// Accepts `n` when it is zero or more.
    pub fn parse(n: i32) -> (r: Result<Nat, String>)
        ensures
            r is Ok <==> n >= 0,
            r matches Ok(v) ==> v@ == n as int,
            r matches Err(e) ==> e@ == negative_message(n as int),
    {
        if n < 0 {
            let mut e = String::new();
            push_decimal(&mut e, n);
            e.append(NEGATIVE_MESSAGE);
            Err(e)
        } else {
            Ok(Nat(n))
        }
    }

    /// The wrapped number.
    pub fn as_ref(&self) -> (r: &i32)
        ensures
            *r as int == self@,
            *r >= 0,
    {
        proof {
            use_type_invariant(self);
        }
        &self.0
    }
}

} // verus!
