//! The errors of the library.

use vstd::prelude::*;
use vstd::std_specs::convert::FromSpecImpl;
use vstd::string::StringExecFns;

verus! {

/// The error type of the standard library's input and output. The
/// library only carries such a value; it never looks inside.
#[verifier::external_type_specification]
#[verifier::external_body]
pub struct ExIoError(std::io::Error);

/// What can go wrong while a filing is converted.
#[derive(Debug)]
pub enum FecError {
    /// A line could not be parsed; the text says why.
    ParseError(String),
    /// Reading or writing failed.
    Io(std::io::Error),
}

/// `Display` of `std::io::Error`: the error as a text. What the text says
/// is up to the operating system.
#[verifier::external_body]
fn io_error_text(error: &std::io::Error) -> (text: String) {
    format!("{}", error)
}

impl FecError {
    /// Whether this is a parsing error.
    pub open spec fn is_parse_error(&self) -> bool {
        self is ParseError
    }

    /// Whether this is a parsing error whose text begins with `prefix`.
    pub open spec fn is_parse_error_about(&self, prefix: Seq<char>) -> bool {
        match self {
            FecError::ParseError(reason) => prefix.is_prefix_of(reason@),
            FecError::Io(_) => false,
        }
    }

    /// The error as a text: what kind of error it is, a colon, and the
    /// error's own text.
    pub fn message(&self) -> (text: String)
        ensures
            match self {
                FecError::ParseError(reason) => text@ == "Parsing error: "@ + reason@,
                FecError::Io(_) => "I/O error: "@.is_prefix_of(text@),
            },
    {
        match self {
            FecError::ParseError(reason) => {
                String::from_str("Parsing error: ").concat(reason.as_str())
            },
            FecError::Io(error) => {
                let detail = io_error_text(error);
                let text = String::from_str("I/O error: ").concat(detail.as_str());
                text
            },
        }
    }
}

impl From<std::io::Error> for FecError {
    /// An input or output error as an error of the library.
    fn from(error: std::io::Error) -> (converted: Self) {
        FecError::Io(error)
    }
}

impl FromSpecImpl<std::io::Error> for FecError {
    open spec fn obeys_from_spec() -> bool {
        true
    }

    open spec fn from_spec(error: std::io::Error) -> Self {
        FecError::Io(error)
    }
}

} // verus!
