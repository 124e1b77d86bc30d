//! The error taxonomy of the build pipeline. Every stage reports one of
//! these variants; messages carry enough context (file path, directory
//! name) to localize the fault.

use vstd::prelude::*;

verus! {

use vstd::string::StringExecFns;

/// An error of the build-and-preview pipeline.
#[derive(Debug)]
pub enum Error {
    /// A directory that was expected to exist does not.
    DirectoryNotFound(String),
    /// A required directory of the site layout is missing.
    MissingDirectory(String),
    /// An input/output failure, by message.
    Io(String),
    /// A template could not be registered or rendered.
    Template(String),
    /// A content file's metadata header was rejected; names the file.
    Frontmatter { file: String, message: String },
    /// The site configuration file could not be parsed.
    ConfigParse(String),
    /// Any other failure, by message.
    Other(String),
}

impl Error {
    /// A human-readable message for the error, naming its context.
    pub fn describe(&self) -> (r: String)
        ensures
            r@ == match self {
                Error::DirectoryNotFound(p) => "Directory not found: "@ + p@,
                Error::MissingDirectory(d) => "Required directory missing: "@ + d@,
                Error::Io(m) => "IO error: "@ + m@,
                Error::Template(m) => "Template error: "@ + m@,
                Error::Frontmatter { file, message } => "Frontmatter error in "@ + file@ + ": "@
                    + message@,
                Error::ConfigParse(m) => "Configuration parse error: "@ + m@,
                Error::Other(m) => m@,
            },
    {
        match self {
            Error::DirectoryNotFound(p) => {
                let mut r = String::from_str("Directory not found: ");
                r.append(p.as_str());
                r
            },
            Error::MissingDirectory(d) => {
                let mut r = String::from_str("Required directory missing: ");
                r.append(d.as_str());
                r
            },
            Error::Io(m) => {
                let mut r = String::from_str("IO error: ");
                r.append(m.as_str());
                r
            },
            Error::Template(m) => {
                let mut r = String::from_str("Template error: ");
                r.append(m.as_str());
                r
            },
            Error::Frontmatter { file, message } => {
                let mut r = String::from_str("Frontmatter error in ");
                r.append(file.as_str());
                r.append(": ");
                r.append(message.as_str());
                r
            },
            Error::ConfigParse(m) => {
                let mut r = String::from_str("Configuration parse error: ");
                r.append(m.as_str());
                r
            },
            Error::Other(m) => String::from_str(m.as_str()),
        }
    }
}

} // verus!
