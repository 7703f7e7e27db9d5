//! The error taxonomy of the builder.
//!
//! Every failure of the pipeline falls in one of five classes: a required
//! input subdirectory is absent, a template cannot be registered, a content
//! file is malformed, rendering fails, or the filesystem refuses a read or
//! write. Each variant carries a descriptive message.
use vstd::prelude::*;

verus! {

/// An error of the build pipeline. Each variant carries a human-readable
/// message; the variant itself says which stage failed.
#[derive(Debug, Clone)]
pub enum BuildError {
    /// A required input subdirectory (`templates/`, `posts/`) does not exist.
    Path(String),
    /// A template file is unreadable or fails to compile.
    Template(String),
    /// A content file does not split into one metadata block and one body,
    /// or its metadata does not parse into a valid front matter record.
    Format(String),
    /// The named template is absent, a referenced field is undefined on the
    /// document, or the output cannot be produced.
    Render(String),
    /// A generic filesystem failure, propagated unchanged.
    Io(String),
}

impl BuildError {
    /// The message carried by the error, whatever its variant.
    pub fn message(&self) -> (r: String)
        ensures
            r@ == self.spec_message(),
    {
        match self {
            BuildError::Path(m) => m.clone(),
            BuildError::Template(m) => m.clone(),
            BuildError::Format(m) => m.clone(),
            BuildError::Render(m) => m.clone(),
            BuildError::Io(m) => m.clone(),
        }
    }

    /// The message carried by the error, as a sequence of characters.
    pub open spec fn spec_message(&self) -> Seq<char> {
        match self {
            BuildError::Path(m) => m@,
            BuildError::Template(m) => m@,
            BuildError::Format(m) => m@,
            BuildError::Render(m) => m@,
            BuildError::Io(m) => m@,
        }
    }
}

} // verus!
