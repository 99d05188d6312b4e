//! Errors reported by the library.
use vstd::prelude::*;

verus! {

/// The failures that Rix reports. Outside errors (I/O, Git) are carried by
/// their message.
#[derive(Debug, Clone, PartialEq, Eq)]
pub enum RixError {
    IOError(String),
    ParseError(String),
    MissingSystemDependency(String),
    InvalidNixSyntax(String),
    GitError(String),
}

/// Mathematical view of an error.
pub enum ErrorView {
    IOError(Seq<char>),
    ParseError(Seq<char>),
    MissingSystemDependency(Seq<char>),
    InvalidNixSyntax(Seq<char>),
    GitError(Seq<char>),
}

impl View for RixError {
    type V = ErrorView;

    open spec fn view(&self) -> ErrorView {
        match self {
            RixError::IOError(m) => ErrorView::IOError(m@),
            RixError::ParseError(m) => ErrorView::ParseError(m@),
            RixError::MissingSystemDependency(m) => ErrorView::MissingSystemDependency(m@),
            RixError::InvalidNixSyntax(m) => ErrorView::InvalidNixSyntax(m@),
            RixError::GitError(m) => ErrorView::GitError(m@),
        }
    }
}

/// The text with which an error is shown to the user.
pub open spec fn describe_spec(e: RixError) -> Seq<char> {
    match e {
        RixError::IOError(m) => "I/O Error: "@ + m@,
        RixError::ParseError(m) => "Parse Error: "@ + m@,
        RixError::MissingSystemDependency(m) => "Missing System Dependency: "@ + m@,
        RixError::InvalidNixSyntax(m) => "Invalid Nix Syntax: "@ + m@,
        RixError::GitError(m) => "Git Repository Error: "@ + m@,
    }
}

impl RixError {
    /// The text with which the error is shown to the user.
    pub fn describe(&self) -> (s: String)
        ensures
            s@ == describe_spec(*self),
    {
        let (prefix, m) = match self {
            RixError::IOError(m) => ("I/O Error: ", m),
            RixError::ParseError(m) => ("Parse Error: ", m),
            RixError::MissingSystemDependency(m) => ("Missing System Dependency: ", m),
            RixError::InvalidNixSyntax(m) => ("Invalid Nix Syntax: ", m),
            RixError::GitError(m) => ("Git Repository Error: ", m),
        };
        let s = String::from_str(prefix);
        s.concat(m.as_str())
    }
}

} // verus!
