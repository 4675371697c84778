//! The errors that abort a render: an unknown module name, a style
//! descriptor that does not parse, a format string a provider rejects, and
//! wrapped operating-environment failures.

use vstd::prelude::*;

verus! {

/// A fatal render error.
#[derive(Debug, Clone, PartialEq)]
pub enum PromptError {
    /// A placeholder names a module with no registered provider.
    UnknownModule(String),
    /// A style descriptor failed to parse; carries the module it decorated.
    StyleError { module: String, error: String },
    /// A provider rejected its format field; carries the accepted values.
    InvalidFormat { module: String, format: String, valid_formats: String },
    /// An I/O failure from the operating environment, as a message.
    IoError(String),
    /// Bytes from the environment were not valid UTF-8.
    Utf8Error(String),
}

/// The mathematical value of a `PromptError`.
#[verifier::ext_equal]
pub enum ErrorV {
    UnknownModule(Seq<char>),
    StyleError { module: Seq<char>, error: Seq<char> },
    InvalidFormat { module: Seq<char>, format: Seq<char>, valid_formats: Seq<char> },
    IoError(Seq<char>),
    Utf8Error(Seq<char>),
}

impl View for PromptError {
    type V = ErrorV;

    open spec fn view(&self) -> ErrorV {
        match self {
            PromptError::UnknownModule(m) => ErrorV::UnknownModule(m@),
            PromptError::StyleError { module, error } => ErrorV::StyleError {
                module: module@,
                error: error@,
            },
            PromptError::InvalidFormat { module, format, valid_formats } => ErrorV::InvalidFormat {
                module: module@,
                format: format@,
                valid_formats: valid_formats@,
            },
            PromptError::IoError(m) => ErrorV::IoError(m@),
            PromptError::Utf8Error(m) => ErrorV::Utf8Error(m@),
        }
    }
}

impl DeepView for PromptError {
    type V = ErrorV;

    open spec fn deep_view(&self) -> ErrorV {
        self.view()
    }
}

/// The user-facing description of an error.
pub open spec fn spec_error_message(e: ErrorV) -> Seq<char> {
    match e {
        ErrorV::UnknownModule(m) => "Unknown module: "@ + m,
        ErrorV::StyleError { module, error } => "Style error for module '"@ + module + "': "@
            + error,
        ErrorV::InvalidFormat { module, format, valid_formats } => "Invalid format '"@ + format
            + "' for module '"@ + module + "'. Valid formats: "@ + valid_formats,
        ErrorV::IoError(m) => "I/O error: "@ + m,
        ErrorV::Utf8Error(_) => "UTF-8 conversion error"@,
    }
}

impl PromptError {
    /// The user-facing description of this error.
    pub fn message(&self) -> (r: String)
        ensures
            r@ == spec_error_message(self@),
    {
        match self {
            PromptError::UnknownModule(m) => {
                let mut s = String::new();
                s.append("Unknown module: ");
                s.append(m.as_str());
                proof {
                    assert(s@ =~= spec_error_message(self@));
                }
                s
            },
            PromptError::StyleError { module, error } => {
                let mut s = String::new();
                s.append("Style error for module '");
                s.append(module.as_str());
                s.append("': ");
                s.append(error.as_str());
                proof {
                    assert(s@ =~= spec_error_message(self@));
                }
                s
            },
            PromptError::InvalidFormat { module, format, valid_formats } => {
                let mut s = String::new();
                s.append("Invalid format '");
                s.append(format.as_str());
                s.append("' for module '");
                s.append(module.as_str());
                s.append("'. Valid formats: ");
                s.append(valid_formats.as_str());
                proof {
                    assert(s@ =~= spec_error_message(self@));
                }
                s
            },
            PromptError::IoError(m) => {
                let mut s = String::new();
                s.append("I/O error: ");
                s.append(m.as_str());
                proof {
                    assert(s@ =~= spec_error_message(self@));
                }
                s
            },
            PromptError::Utf8Error(_) => {
                let mut s = String::new();
                s.append("UTF-8 conversion error");
                proof {
                    assert(s@ =~= spec_error_message(self@));
                }
                s
            },
        }
    }
}

} // verus!
