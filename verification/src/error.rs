//! What the front end reports about a source text or an interface.

use vstd::prelude::*;

verus! {

/// What can be wrong with a source text or with an interface.
#[derive(Debug, PartialEq, Eq)]
pub enum Error {
    /// A codepoint that changes the direction of text, at a byte offset.
    BidirectionalOverrideCodepoint { position: usize },
    /// A codepoint that Unicode deprecates or discourages, at a byte offset.
    DeprecatedCodepoint { position: usize },
    /// A control code other than line feed, carriage return and tab, at a
    /// byte offset.
    ControlCode { position: usize },
    /// A name that nothing declares, with the declared names that are close
    /// to it.
    NotDefined { ident: String, candidates: Vec<String> },
    /// A name that is declared twice, with the places of both declarations
    /// in their list.
    AlreadyDefined { ident: String, first: usize, second: usize },
    /// Aliases that lead back to themselves, with the names on the way.
    RecursiveType { idents: Vec<String> },
    /// A flags declaration with more fields than an integer can back.
    TooManyFlags { count: usize },
    /// Several independent errors, in the order in which they were met.
    Multi { errors: Vec<Error> },
}

impl Error {
    /// The error for a codepoint that changes the direction of text.
    pub fn bidirectional_override_codepoint(position: usize) -> (e: Error)
        ensures
            e == (Error::BidirectionalOverrideCodepoint { position }),
    {
        Error::BidirectionalOverrideCodepoint { position }
    }

    /// The error for a codepoint that Unicode deprecates or discourages.
    pub fn deprecated_codepoint(position: usize) -> (e: Error)
        ensures
            e == (Error::DeprecatedCodepoint { position }),
    {
        Error::DeprecatedCodepoint { position }
    }

    /// The error for a control code.
    pub fn control_code(position: usize) -> (e: Error)
        ensures
            e == (Error::ControlCode { position }),
    {
        Error::ControlCode { position }
    }
}

} // verus!
