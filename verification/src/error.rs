//! The errors of the library and its command-line tool.

use vstd::prelude::*;

verus! {

/// What can go wrong while collecting options or writing documentation.
/// Each variant carries the message of the error that caused it.
#[derive(Debug)]
pub enum NixDocError {
    Io(String),
    GitOperation(String),
    Path(String),
    NoWorkDir,
    InvalidPath(String),
    GitClone(String, String),
    WalkDir(String),
    StdError(String),
    Csv(String),
    Serialization(String),
    Utf8(String),
}

/// The message an error is shown with.
pub open spec fn error_message(e: NixDocError) -> Seq<char> {
    match e {
        NixDocError::Io(m) => "IO error: "@ + m@,
        NixDocError::GitOperation(m) => "Git operation failed: "@ + m@,
        NixDocError::Path(m) => "Path error: "@ + m@,
        NixDocError::NoWorkDir => "No repository work directory found"@,
        NixDocError::InvalidPath(m) => "Not a valid local path or git repository: "@ + m@,
        NixDocError::GitClone(a, b) => "Failed to clone repository: "@ + a@ + ", "@ + b@,
        NixDocError::WalkDir(m) => "Walkdir error: "@ + m@,
        NixDocError::StdError(m) => "Standard error: "@ + m@,
        NixDocError::Csv(m) => "CSV error: "@ + m@,
        NixDocError::Serialization(m) => "Serialization error: "@ + m@,
        NixDocError::Utf8(m) => "UTF-8 conversion error: "@ + m@,
    }
}

fn prefixed(p: &str, m: &String) -> (r: String)
    ensures
        r@ == p@ + m@,
{
    let mut v = crate::text::chars_of(p);
    crate::text::push_str(&mut v, m.as_str());
    crate::text::string_of(v.as_slice())
}

impl NixDocError {
    /// The message this error is shown with.
    pub fn message(&self) -> (r: String)
        ensures
            r@ == error_message(*self),
    {
        match self {
            NixDocError::Io(m) => prefixed("IO error: ", m),
            NixDocError::GitOperation(m) => prefixed("Git operation failed: ", m),
            NixDocError::Path(m) => prefixed("Path error: ", m),
            NixDocError::NoWorkDir => {
                let v = crate::text::chars_of("No repository work directory found");
                crate::text::string_of(v.as_slice())
            },
            NixDocError::InvalidPath(m) => prefixed("Not a valid local path or git repository: ", m),
            NixDocError::GitClone(a, b) => {
                let mut v = crate::text::chars_of("Failed to clone repository: ");
                crate::text::push_str(&mut v, a.as_str());
                crate::text::push_str(&mut v, ", ");
                crate::text::push_str(&mut v, b.as_str());
                crate::text::string_of(v.as_slice())
            },
            NixDocError::WalkDir(m) => prefixed("Walkdir error: ", m),
            NixDocError::StdError(m) => prefixed("Standard error: ", m),
            NixDocError::Csv(m) => prefixed("CSV error: ", m),
            NixDocError::Serialization(m) => prefixed("Serialization error: ", m),
            NixDocError::Utf8(m) => prefixed("UTF-8 conversion error: ", m),
        }
    }

    /// A CSV error carrying `message`.
    pub fn csv_error(message: &str) -> (r: Self)
        ensures
            r matches NixDocError::Csv(m) && m@ == message@,
    {
        let v = crate::text::chars_of(message);
        NixDocError::Csv(crate::text::string_of(v.as_slice()))
    }
}

} // verus!
