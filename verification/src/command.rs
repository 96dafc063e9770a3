//! The uniform result of a generation: one artifact.

use crate::format::Format;
use crate::ir::view_text;
use vstd::prelude::*;

verus! {

/// One generated artifact: the format it was produced for, where it is
/// meant to go, and its text. The destination is absent where the caller
/// wants the text only; the text is absent where the backend wrote the
/// artifact itself.
#[derive(Debug, PartialEq, Eq)]
pub struct CommandResult {
    format: Format,
    destination: Option<String>,
    content: Option<String>,
}

/// The mathematical model of a [`CommandResult`].
pub struct CommandResultView {
    pub format: Format,
    pub destination: Option<Seq<char>>,
    pub content: Option<Seq<char>>,
}

impl View for CommandResult {
    type V = CommandResultView;

    closed spec fn view(&self) -> CommandResultView {
        CommandResultView {
            format: self.format,
            destination: view_text(self.destination),
            content: view_text(self.content),
        }
    }
}

impl CommandResult {
    /// A result with the format, destination and text given.
    pub fn new(format: Format, destination: Option<String>, content: Option<String>) -> (r:
        CommandResult)
        ensures
            r@ == (CommandResultView {
                format,
                destination: view_text(destination),
                content: view_text(content),
            }),
    {
        CommandResult { format, destination, content }
    }

    /// The format that the artifact was produced for.
    pub fn format(&self) -> (r: Format)
        ensures
            r == self@.format,
    {
        self.format
    }

    /// Where the artifact is meant to go, where a destination was given.
    pub fn destination(&self) -> (r: Option<&str>)
        ensures
            r is Some <==> self@.destination is Some,
            r matches Some(t) ==> self@.destination == Some(t@),
    {
        match &self.destination {
            Some(t) => Some(t.as_str()),
            None => None,
        }
    }

    /// The text of the artifact, where the backend returned it.
    pub fn content(&self) -> (r: Option<&str>)
        ensures
            r is Some <==> self@.content is Some,
            r matches Some(t) ==> self@.content == Some(t@),
    {
        match &self.content {
            Some(t) => Some(t.as_str()),
            None => None,
        }
    }
}

} // verus!
