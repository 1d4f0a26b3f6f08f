//! The error that IMS procedures share: a stable code.

use vstd::prelude::*;

verus! {

#[derive(Debug, Clone, Copy, PartialEq, Eq)]
pub struct ImsError {
    code: &'static str,
}

impl ImsError {
    pub closed spec fn code_spec(&self) -> Seq<char> {
        self.code@
    }

    pub fn new(code: &'static str) -> (r: Self)
        ensures
            r.code_spec() == code@,
    {
        ImsError { code }
    }

    pub fn code(&self) -> (r: &'static str)
        ensures
            r@ == self.code_spec(),
    {
        self.code
    }
}

} // verus!
