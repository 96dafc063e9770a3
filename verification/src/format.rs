//! The target formats.

use vstd::prelude::*;

verus! {

/// The tag of a target format: one per backend.
#[derive(Clone, Copy, Debug, PartialEq, Eq, Hash, Structural)]
pub enum Format {
    /// Structured data.
    JSON,
    /// An imperative script.
    Script,
    /// Documentation for a human reader.
    Markdown,
}

impl Format {
    /// The name under which the format is reported.
    pub open spec fn name(self) -> Seq<char> {
        match self {
            Format::JSON => "json"@,
            Format::Script => "script"@,
            Format::Markdown => "markdown"@,
        }
    }

    /// The name under which the format is reported.
    pub fn label(&self) -> (r: &'static str)
        ensures
            r@ == self.name(),
    {
        match self {
            Format::JSON => "json",
            Format::Script => "script",
            Format::Markdown => "markdown",
        }
    }
}

} // verus!
