//! The errors a page handler can end in, and the response each one becomes.

use vstd::prelude::*;

verus! {

/// An error a page handler can return. A missing row becomes `NotFound`; every
/// failure underneath (a database call among them) becomes `Server`, whose
/// cause is logged and never shown to the visitor.
#[derive(Debug, Clone, Copy, PartialEq, Eq, Structural)]
pub enum PageError {
    NotFound,
    Server,
}

/// The HTTP status each error is answered with.
pub open spec fn status_spec(e: PageError) -> u16 {
    match e {
        PageError::NotFound => 404,
        PageError::Server => 500,
    }
}

/// The message shown on each error page, in English (the page translates it).
pub open spec fn message_spec(e: PageError) -> Seq<char> {
    match e {
        PageError::NotFound => "Page not found."@,
        PageError::Server => "Something went wrong. Please try again."@,
    }
}

impl PageError {
    /// The HTTP status the error is answered with: 404 or 500, never 200.
    pub fn status(self) -> (r: u16)
        ensures
            r == status_spec(self),
    {
        match self {
            PageError::NotFound => 404,
            PageError::Server => 500,
        }
    }

    /// The English message on the error page. It says what happened to the
    /// visitor's request, never what failed underneath.
    pub fn message(self) -> (r: &'static str)
        ensures
            r@ == message_spec(self),
    {
        match self {
            PageError::NotFound => "Page not found.",
            PageError::Server => "Something went wrong. Please try again.",
        }
    }

    /// The large code the error page shows.
    pub fn code_text(self) -> (r: &'static str)
        ensures
            r@ == match self {
                PageError::NotFound => "404"@,
                PageError::Server => "500"@,
            },
    {
        match self {
            PageError::NotFound => "404",
            PageError::Server => "500",
        }
    }
}

} // verus!
