//! The two kinds of error: a technique model that cannot be built, and a
//! backend that cannot render one.

use crate::format::Format;
use crate::text::{digits, push_digits};
use vstd::prelude::*;
use vstd::string::StringExecFns;

verus! {

/// Why no technique model could be built. Calls and parameters are named by
/// their positions in the intermediate representation, counted from 0.
#[derive(Clone, Copy, Debug, PartialEq, Eq, Structural)]
pub enum ConversionError {
    /// The reordering directive is not a permutation of the calls.
    InvalidOrder,
    /// The value of this parameter nests lists and records too deeply.
    NestingTooDeep { call: usize, parameter: usize },
    /// This parameter has the name of an earlier parameter of its call.
    DuplicateParameter { call: usize, parameter: usize },
}

impl ConversionError {
    /// The text of the error for a human reader.
    pub open spec fn text(self) -> Seq<char> {
        match self {
            ConversionError::InvalidOrder => {
                "the reordering directive is not a permutation of the calls"@
            },
            ConversionError::NestingTooDeep { call, parameter } => "call "@ + digits(call as nat)
                + ", parameter "@ + digits(parameter as nat) + ": the value is nested too deeply"@,
            ConversionError::DuplicateParameter { call, parameter } => "call "@ + digits(
                call as nat,
            ) + ", parameter "@ + digits(parameter as nat) + ": the name is used twice"@,
        }
    }

    /// The text of the error for a human reader.
    pub fn message(&self) -> (r: String)
        ensures
            r@ == self.text(),
    {
        match self {
            ConversionError::InvalidOrder => String::from_str(
                "the reordering directive is not a permutation of the calls",
            ),
            ConversionError::NestingTooDeep { call, parameter } => {
                let mut r = String::from_str("call ");
                push_digits(&mut r, *call as u64);
                r.append(", parameter ");
                push_digits(&mut r, *parameter as u64);
                r.append(": the value is nested too deeply");
                r
            },
            ConversionError::DuplicateParameter { call, parameter } => {
                let mut r = String::from_str("call ");
                push_digits(&mut r, *call as u64);
                r.append(", parameter ");
                push_digits(&mut r, *parameter as u64);
                r.append(": the name is used twice");
                r
            },
        }
    }
}

/// Why a backend could not render a technique model.
#[derive(Clone, Copy, Debug, PartialEq, Eq, Structural)]
pub enum Fault {
    /// The value of this parameter cannot be written in the target format.
    Unrepresentable { call: usize, parameter: usize },
    /// The backend cannot lower this call.
    Unsupported { call: usize },
    /// The backend wrote the artifact itself, and writing failed.
    Io,
    /// No backend is registered for the format.
    NoBackend,
}

impl Fault {
    /// The text of the fault for a human reader.
    pub open spec fn text(self) -> Seq<char> {
        match self {
            Fault::Unrepresentable { call, parameter } => "call "@ + digits(call as nat)
                + ", parameter "@ + digits(parameter as nat)
                + ": the value cannot be represented"@,
            Fault::Unsupported { call } => "call "@ + digits(call as nat)
                + ": the call is not supported"@,
            Fault::Io => "the artifact could not be written"@,
            Fault::NoBackend => "no backend is registered"@,
        }
    }

    /// The text of the fault for a human reader.
    pub fn message(&self) -> (r: String)
        ensures
            r@ == self.text(),
    {
        match self {
            Fault::Unrepresentable { call, parameter } => {
                let mut r = String::from_str("call ");
                push_digits(&mut r, *call as u64);
                r.append(", parameter ");
                push_digits(&mut r, *parameter as u64);
                r.append(": the value cannot be represented");
                r
            },
            Fault::Unsupported { call } => {
                let mut r = String::from_str("call ");
                push_digits(&mut r, *call as u64);
                r.append(": the call is not supported");
                r
            },
            Fault::Io => String::from_str("the artifact could not be written"),
            Fault::NoBackend => String::from_str("no backend is registered"),
        }
    }
}

/// The failure of one backend on one technique: which backend, on which
/// source, and why.
#[derive(Debug, PartialEq, Eq)]
pub struct GenerationError {
    pub format: Format,
    pub source: String,
    pub fault: Fault,
}

/// The mathematical model of a [`GenerationError`].
pub struct GenerationErrorView {
    pub format: Format,
    pub source: Seq<char>,
    pub fault: Fault,
}

impl View for GenerationError {
    type V = GenerationErrorView;

    open spec fn view(&self) -> GenerationErrorView {
        GenerationErrorView { format: self.format, source: self.source@, fault: self.fault }
    }
}

impl GenerationErrorView {
    /// The text of the error for a human reader: the source reference, the
    /// backend's name and the fault.
    pub open spec fn text(self) -> Seq<char> {
        self.source + ": "@ + self.format.name() + ": "@ + self.fault.text()
    }
}

impl GenerationError {
    /// The failure of the backend of `format` on the technique that came
    /// from `source`.
    pub fn new(format: Format, source: &str, fault: Fault) -> (r: GenerationError)
        ensures
            r@ == (GenerationErrorView { format, source: source@, fault }),
    {
        GenerationError { format, source: String::from_str(source), fault }
    }

    /// The text of the error for a human reader.
    pub fn message(&self) -> (r: String)
        ensures
            r@ == self@.text(),
    {
        let mut r = self.source.clone();
        r.append(": ");
        r.append(self.format.label());
        r.append(": ");
        let fault = self.fault.message();
        r.append(fault.as_str());
        r
    }
}

impl Clone for GenerationError {
    fn clone(&self) -> (r: Self)
        ensures
            r@ == self@,
    {
        GenerationError { format: self.format, source: self.source.clone(), fault: self.fault }
    }
}

} // verus!
