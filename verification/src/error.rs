use vstd::prelude::*;

verus! {

/// An error of the rewrite or of the semantic check.
///
/// A planning error reports invalid user input; a not-implemented error a
/// recognized but unsupported construct; an internal error an upstream
/// invariant that did not hold.
#[derive(Debug)]
pub enum Error {
    Planning(String),
    NotImplemented(String),
    Internal(String),
}

impl Error {
    /// The category and message, as one line of text.
    pub open spec fn spec_text(self) -> Seq<char> {
        match self {
            Error::Planning(m) => "Error during planning: "@ + m@,
            Error::NotImplemented(m) => "This feature is not implemented: "@ + m@,
            Error::Internal(m) => "Internal error: "@ + m@,
        }
    }

    /// The raw message, without its category.
    pub open spec fn spec_message(self) -> Seq<char> {
        match self {
            Error::Planning(m) => m@,
            Error::NotImplemented(m) => m@,
            Error::Internal(m) => m@,
        }
    }

    /// The raw message, without its category.
    pub fn message(&self) -> (r: &String)
        ensures
            r@ == self.spec_message(),
    {
        match self {
            Error::Planning(m) => m,
            Error::NotImplemented(m) => m,
            Error::Internal(m) => m,
        }
    }

    /// The category and message, as one line of text.
    pub fn text(&self) -> (r: String)
        ensures
            r@ == self.spec_text(),
    {
        let mut s = String::new();
        match self {
            Error::Planning(m) => {
                s.append("Error during planning: ");
                s.append(m.as_str());
            },
            Error::NotImplemented(m) => {
                s.append("This feature is not implemented: ");
                s.append(m.as_str());
            },
            Error::Internal(m) => {
                s.append("Internal error: ");
                s.append(m.as_str());
            },
        }
        s
    }
}

} // verus!
