//! Cellular IMS error taxonomy: a stable code plus an optional detail.

use crate::text::{chars_of, opt_text, push_str, string_of};
use vstd::prelude::*;

pub mod code;

verus! {

/// An error that carries a stable code and an optional detail suffix.
#[derive(Debug, Clone)]
pub struct CellularImsError {
    code: &'static str,
    detail: Option<String>,
}

impl CellularImsError {
    pub closed spec fn code_spec(&self) -> Seq<char> {
        self.code@
    }

    pub closed spec fn detail_spec(&self) -> Option<Seq<char>> {
        opt_text(self.detail)
    }

    /// The rendered error: `code` or `code:detail`.
    pub open spec fn rendered(&self) -> Seq<char> {
        match self.detail_spec() {
            Some(detail) => self.code_spec() + seq![':'] + detail,
            None => self.code_spec(),
        }
    }

    pub fn new(code: &'static str) -> (r: Self)
        ensures
            r.code_spec() == code@,
            r.detail_spec() is None,
    {
        CellularImsError { code, detail: None }
    }

    pub fn with_detail(code: &'static str, detail: String) -> (r: Self)
        ensures
            r.code_spec() == code@,
            r.detail_spec() == Some(detail@),
    {
        CellularImsError { code, detail: Some(detail) }
    }

    pub fn code(&self) -> (r: &'static str)
        ensures
            r@ == self.code_spec(),
    {
        self.code
    }

    pub fn detail(&self) -> (r: Option<&str>)
        ensures
            match r {
                Some(detail) => self.detail_spec() == Some(detail@),
                None => self.detail_spec() is None,
            },
    {
        match &self.detail {
            Some(detail) => Some(detail.as_str()),
            None => None,
        }
    }

    pub fn render(&self) -> (r: String)
        ensures
            r@ == self.rendered(),
    {
        let mut out: Vec<char> = chars_of(self.code);
        match &self.detail {
            Some(detail) => {
                out.push(':');
                push_str(&mut out, detail.as_str());
            },
            None => {},
        }
        assert(out@ =~= self.rendered());
        string_of(out.as_slice())
    }
}

pub type CellularImsResult<T> = Result<T, CellularImsError>;

} // verus!
