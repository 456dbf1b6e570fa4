//! What can go wrong.

use syntect::Error as EngineError;
use vstd::prelude::*;
use vstd::std_specs::convert::FromSpecImpl;
use vstd::string::StringExecFns;

verus! {

/// Why a document could not be highlighted.
#[derive(Debug)]
pub enum Error {
    /// No theme is available under the given name. The pass itself never
    /// reports this: it is for the code that selects a theme by name.
    InvalidTheme(String),
    /// The engine could not render the text of a code block.
    HighlightError(EngineError),
}

impl Error {
    /// The message of an error, as a sequence of characters.
    pub open spec fn message_text(self) -> Seq<char> {
        match self {
            Error::InvalidTheme(name) => "theme '"@ + name@ + "' is not available"@,
            Error::HighlightError(_) => "error highlighting code"@,
        }
    }

    /// A one-line description of the error.
    pub fn message(&self) -> (text: String)
        ensures
            text@ == self.message_text(),
    {
        match self {
            Error::InvalidTheme(name) => {
                let mut text = String::from_str("theme '");
                text.append(name.as_str());
                text.append("' is not available");
                text
            },
            Error::HighlightError(_) => String::from_str("error highlighting code"),
        }
    }
}

impl From<EngineError> for Error {
    fn from(failure: EngineError) -> (error: Error) {
        Error::HighlightError(failure)
    }
}

impl FromSpecImpl<EngineError> for Error {
    open spec fn obeys_from_spec() -> bool {
        true
    }

    open spec fn from_spec(failure: EngineError) -> Error {
        Error::HighlightError(failure)
    }
}

} // verus!
