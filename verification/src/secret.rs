//! A credential that must never leak through debug output.
//!
//! The value itself stays reachable through [`Secret::secret`]; anything that
//! prints a secret is expected to use [`Secret::debug_text`] instead.

use vstd::prelude::*;

verus! {

#[derive(PartialEq, Eq, Hash)]
pub struct Secret {
    value: String,
}

impl Secret {
    pub fn new(value: String) -> (r: Secret)
        ensures
            r@ == value@,
    {
        Secret { value }
    }

    /// The underlying value, for handing to a backend that authenticates with it.
    pub fn secret(&self) -> (r: &String)
        ensures
            r@ == self@,
    {
        &self.value
    }

    /// What a log line shows in place of the value.
    pub fn debug_text(&self) -> (r: &'static str)
        ensures
            r@ == "Secret(<redacted>)"@,
    {
        "Secret(<redacted>)"
    }
}

impl Clone for Secret {
    fn clone(&self) -> (r: Self)
        ensures
            r@ == self@,
    {
        Secret { value: self.value.clone() }
    }
}

impl View for Secret {
    type V = Seq<char>;

    closed spec fn view(&self) -> Seq<char> {
        self.value@
    }
}

} // verus!
