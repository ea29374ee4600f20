//! An HTTP status code, held as its numeric value.
//!
//! The agent's failure messages embed a status in its protocol's standard
//! numeric-plus-reason-phrase form (`500 Internal Server Error`). The reason
//! phrase lookup is the http crate's; everything else here is plain data.

use vstd::prelude::*;

verus! {

/// The standard one-line rendering of a status code: the decimal value, a
/// space, and the canonical reason phrase — a function of the code alone.
pub uninterp spec fn status_display(code: int) -> Seq<char>;

/// Relies on `http::StatusCode`: `from_u16` accepts exactly 100..=999, so it
/// cannot fail below, and `Display` writes the numeric code followed by its
/// canonical reason phrase, determined by the code alone.
#[verifier::external_body]
fn status_line(code: u16) -> (r: String)
    requires
        100 <= code <= 999,
    ensures
        r@ == status_display(code as int),
{
    match http::StatusCode::from_u16(code) {
        Ok(status) => status.to_string(),
        Err(_) => String::new(),
    }
}

/// An HTTP status code. Values outside 100..=999 are rejected when the code
/// is constructed, never later.
#[derive(Debug, Clone, Copy, PartialEq, Eq, Structural)]
pub struct StatusCode {
    code: u16,
}

impl StatusCode {
    /// The numeric value held.
    pub closed spec fn spec_code(self) -> u16 {
        self.code
    }

    #[verifier::type_invariant]
    spec fn range_inv(self) -> bool {
        100 <= self.code <= 999
    }

    /// Accepts exactly the values a status line can carry, as the underlying
    /// protocol type does.
    pub fn from_u16(code: u16) -> (r: Option<StatusCode>)
        ensures
            100 <= code <= 999 ==> (r matches Some(s) && s.spec_code() == code),
            !(100 <= code <= 999) ==> r is None,
    {
        if 100 <= code && code <= 999 {
            Some(StatusCode { code })
        } else {
            None
        }
    }

    /// The numeric value back out.
    pub fn as_u16(&self) -> (r: u16)
        ensures
            r == self.spec_code(),
            100 <= r <= 999,
    {
        proof {
            use_type_invariant(self);
        }
        self.code
    }

    /// The standard `code reason-phrase` line.
    pub fn display(&self) -> (r: String)
        ensures
            r@ == status_display(self.spec_code() as int),
    {
        proof {
            use_type_invariant(self);
        }
        status_line(self.code)
    }
}

} // verus!
