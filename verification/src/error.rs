//! The error taxonomy of the migration engine. Every error is fatal to the
//! current run: the first one aborts the remaining apply list.
use vstd::prelude::*;
use vstd::string::StringExecFns;

verus! {

/// The reconciler found a file whose checksum differs from the checksum
/// recorded in the history table at the same rank.
#[derive(Debug)]
pub struct ChecksumMismatchError {
    pub file_name: String,
    pub file_checksum: i32,
    pub applied_checksum: i32,
}

/// Template expansion met a placeholder whose name is not in the map.
#[derive(Debug)]
pub struct MissingVariableTemplateError {
    pub name: String,
}

/// An error of the migration engine.
#[derive(Debug)]
pub enum Error {
    /// A string-wrapped error from a layer that has no richer variant.
    Message(String),
    /// An error returned by the database backend, as its message.
    Database(String),
    ChecksumMismatchError(ChecksumMismatchError),
    MissingVariableTemplateError(MissingVariableTemplateError),
}

impl ChecksumMismatchError {
    /// The rendering of this error, as `to_string` returns it.
    pub open spec fn spec_string(&self) -> Seq<char> {
        "ChecksumMismatchError { file_name: \""@ + self.file_name@ + "\", file_checksum: "@
            + crate::strutil::spec_i32_decimal(self.file_checksum) + ", applied_checksum: "@
            + crate::strutil::spec_i32_decimal(self.applied_checksum) + " }"@
    }

    /// Renders the error as text.
    pub fn to_string(&self) -> (r: String)
        ensures
            r@ == self.spec_string(),
    {
        let mut out = String::new();
        out.append("ChecksumMismatchError { file_name: \"");
        out.append(self.file_name.as_str());
        out.append("\", file_checksum: ");
        let fc = crate::strutil::i32_decimal(self.file_checksum);
        out.append(fc.as_str());
        out.append(", applied_checksum: ");
        let ac = crate::strutil::i32_decimal(self.applied_checksum);
        out.append(ac.as_str());
        out.append(" }");
        out
    }
}

impl MissingVariableTemplateError {
    /// The rendering of this error, as `to_string` returns it.
    pub open spec fn spec_string(&self) -> Seq<char> {
        "MissingVariableTemplateError { name: \""@ + self.name@ + "\" }"@
    }

    /// Renders the error as text.
    pub fn to_string(&self) -> (r: String)
        ensures
            r@ == self.spec_string(),
    {
        let mut out = String::new();
        out.append("MissingVariableTemplateError { name: \"");
        out.append(self.name.as_str());
        out.append("\" }");
        out
    }
}

impl Error {
    /// The rendering of this error, as `to_string` returns it: the variant
    /// name around the contents, in the style of a debug formatter.
    pub open spec fn spec_string(&self) -> Seq<char> {
        match self {
            Error::Message(s) => "Message(\""@ + s@ + "\")"@,
            Error::Database(s) => "Database(\""@ + s@ + "\")"@,
            Error::ChecksumMismatchError(e) => "ChecksumMismatchError("@ + e.spec_string()
                + ")"@,
            Error::MissingVariableTemplateError(e) => "MissingVariableTemplateError("@
                + e.spec_string() + ")"@,
        }
    }

    /// Renders the error as text.
    pub fn to_string(&self) -> (r: String)
        ensures
            r@ == self.spec_string(),
    {
        match self {
            Error::Message(s) => {
                let mut out = String::new();
                out.append("Message(\"");
                out.append(s.as_str());
                out.append("\")");
                out
            },
            Error::Database(s) => {
                let mut out = String::new();
                out.append("Database(\"");
                out.append(s.as_str());
                out.append("\")");
                out
            },
            Error::ChecksumMismatchError(e) => {
                let mut out = String::new();
                out.append("ChecksumMismatchError(");
                let inner = e.to_string();
                out.append(inner.as_str());
                out.append(")");
                out
            },
            Error::MissingVariableTemplateError(e) => {
                let mut out = String::new();
                out.append("MissingVariableTemplateError(");
                let inner = e.to_string();
                out.append(inner.as_str());
                out.append(")");
                out
            },
        }
    }
}

} // verus!
