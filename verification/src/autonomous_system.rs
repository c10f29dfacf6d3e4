//! The autonomous-system number. AS numbers are 16-bit numbers between 1 and
//! 65534 or 32-bit numbers between 131072 and 4294967294; everything else is
//! reserved and rejected.

use vstd::prelude::*;
use vstd::string::StringExecFns;

use crate::metadata::MetadataError;
use crate::numbers::dec_digits;
use crate::numbers::push_decimal;

verus! {

/// `n` lies in one of the two legal AS number ranges.
pub open spec fn valid_asn(n: u32) -> bool {
    (1 <= n <= 65534) || (131072 <= n <= 4294967294)
}

/// A validated autonomous-system number; zero stands for an absent one.
#[derive(Debug, Clone, Copy, PartialEq, Eq, Structural)]
pub struct Number {
    inner: u32,
}

impl View for Number {
    type V = u32;

    closed spec fn view(&self) -> u32 {
        self.inner
    }
}

impl Default for Number {
    /// The number standing for an absent `asn` header.
    fn default() -> (r: Number)
        ensures
            r@ == 0,
    {
        Number { inner: 0 }
    }
}

/// The rendering of an AS number: `AS` followed by its decimal value.
pub open spec fn spec_render(n: u32) -> Seq<char> {
    "AS"@ + dec_digits(n as int)
}

impl Number {
    /// Validate a numeric value against the legal AS number ranges.
    pub fn try_from(n: u32) -> (r: Result<Number, MetadataError>)
        ensures
            valid_asn(n) ==> (r matches Ok(a) && a@ == n),
            !valid_asn(n) ==> (r matches Err(e) && e matches MetadataError::OutOfRange {
                field,
                value,
            } && field@ == "asn"@ && value == n),
    {
        if (1 <= n && n <= 65534) || (131072 <= n && n <= 4294967294) {
            Ok(Number { inner: n })
        } else {
            Err(MetadataError::OutOfRange { field: String::from_str("asn"), value: n })
        }
    }

    /// The numeric value.
    pub fn value(&self) -> (r: u32)
        ensures
            r == self@,
    {
        self.inner
    }

    /// Render the number as `AS<value>`.
    pub fn render(&self) -> (r: String)
        ensures
            r@ == spec_render(self@),
    {
        let mut out = String::from_str("AS");
        push_decimal(self.inner, &mut out);
        out
    }
}

} // verus!
