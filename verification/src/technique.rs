//! The technique model: the canonical form of one technique that every
//! backend reads.

use crate::condition::{Condition, ConditionView};
use crate::ir::{view_guard, view_text, Version};
use crate::value::{Value, ValueView};
use vstd::prelude::*;

pub mod conversion;
pub mod tree;

verus! {

/// The model of an optional source reference.
pub open spec fn view_source(source: Option<&str>) -> Option<Seq<char>> {
    match source {
        Some(s) => Some(s@),
        None => None,
    }
}

/// How deeply the value of a parameter may nest lists and records.
pub const MAX_NESTING_DEPTH: usize = 16;

/// One parameter of a method call.
#[derive(Debug, PartialEq, Eq)]
pub struct Parameter {
    name: String,
    value: Value,
}

/// The mathematical model of a [`Parameter`].
pub struct ParameterView {
    pub name: Seq<char>,
    pub value: ValueView,
}

impl View for Parameter {
    type V = ParameterView;

    closed spec fn view(&self) -> ParameterView {
        ParameterView { name: self.name@, value: self.value@ }
    }
}

/// One method call of a technique.
#[derive(Debug, PartialEq, Eq)]
pub struct MethodCall {
    method: String,
    parameters: Vec<Parameter>,
    condition: Option<Condition>,
    id: Option<String>,
}

/// The mathematical model of a [`MethodCall`].
pub struct MethodCallView {
    pub method: Seq<char>,
    pub parameters: Seq<ParameterView>,
    pub condition: Option<ConditionView>,
    pub id: Option<Seq<char>>,
}

impl MethodCallView {
    /// What holds of every method call of a model: no value nests deeper
    /// than the limit, and no two parameters share a name.
    pub open spec fn well_formed(self) -> bool {
        &&& forall|k: int|
            0 <= k < self.parameters.len() ==> (#[trigger] self.parameters[k]).value.depth()
                <= MAX_NESTING_DEPTH
        &&& forall|j: int, k: int|
            0 <= j < k < self.parameters.len() ==> (#[trigger] self.parameters[j]).name
                != (#[trigger] self.parameters[k]).name
    }
}

impl View for MethodCall {
    type V = MethodCallView;

    closed spec fn view(&self) -> MethodCallView {
        MethodCallView {
            method: self.method@,
            parameters: self.parameters@.map_values(|p: Parameter| p@),
            condition: view_guard(self.condition),
            id: view_text(self.id),
        }
    }
}

/// The technique model. It is built once, from the intermediate
/// representation, and nothing changes it afterwards.
#[derive(Debug, PartialEq, Eq)]
pub struct Technique {
    id: String,
    name: String,
    version: Version,
    calls: Vec<MethodCall>,
}

/// The mathematical model of a [`Technique`].
pub struct TechniqueView {
    pub id: Seq<char>,
    pub name: Seq<char>,
    pub version: Version,
    pub calls: Seq<MethodCallView>,
}

impl TechniqueView {
    /// What holds of every model: each of its method calls is well formed.
    pub open spec fn well_formed(self) -> bool {
        forall|i: int| 0 <= i < self.calls.len() ==> (#[trigger] self.calls[i]).well_formed()
    }
}

impl View for Technique {
    type V = TechniqueView;

    closed spec fn view(&self) -> TechniqueView {
        TechniqueView {
            id: self.id@,
            name: self.name@,
            version: self.version,
            calls: self.calls@.map_values(|c: MethodCall| c@),
        }
    }
}

impl Parameter {
    /// The name of the parameter.
    pub fn name(&self) -> (r: &str)
        ensures
            r@ == self@.name,
    {
        self.name.as_str()
    }

    /// The value of the parameter.
    pub fn value(&self) -> (r: &Value)
        ensures
            r@ == self@.value,
    {
        &self.value
    }
}

impl MethodCall {
    #[verifier::type_invariant]
    spec fn sound(self) -> bool {
        self@.well_formed()
    }

    /// The identifier of the method that is called.
    pub fn method(&self) -> (r: &str)
        ensures
            r@ == self@.method,
    {
        self.method.as_str()
    }

    /// The parameters, in their order. No two of them share a name, and
    /// none nests deeper than the limit.
    pub fn parameters(&self) -> (r: &Vec<Parameter>)
        ensures
            r@.map_values(|p: Parameter| p@) == self@.parameters,
            self@.well_formed(),
    {
        proof {
            use_type_invariant(self);
        }
        &self.parameters
    }

    /// The guard condition, where the call has one.
    pub fn condition(&self) -> (r: Option<&Condition>)
        ensures
            r is Some <==> self@.condition is Some,
            r matches Some(c) ==> self@.condition == Some(c@),
    {
        self.condition.as_ref()
    }

    /// The identifier by which diagnostics and conditions refer to the
    /// call, where it has one.
    pub fn id(&self) -> (r: Option<&str>)
        ensures
            r is Some <==> self@.id is Some,
            r matches Some(t) ==> self@.id == Some(t@),
    {
        match &self.id {
            Some(t) => Some(t.as_str()),
            None => None,
        }
    }
}

impl Technique {
    #[verifier::type_invariant]
    spec fn sound(self) -> bool {
        self@.well_formed()
    }

    /// The identifier of the technique.
    pub fn id(&self) -> (r: &str)
        ensures
            r@ == self@.id,
    {
        self.id.as_str()
    }

    /// The name of the technique for a human reader.
    pub fn name(&self) -> (r: &str)
        ensures
            r@ == self@.name,
    {
        self.name.as_str()
    }

    /// The version of the technique.
    pub fn version(&self) -> (r: Version)
        ensures
            r == self@.version,
    {
        self.version
    }

    /// The method calls, in the order in which they are to run.
    pub fn calls(&self) -> (r: &Vec<MethodCall>)
        ensures
            r@.map_values(|c: MethodCall| c@) == self@.calls,
            self@.well_formed(),
    {
        proof {
            use_type_invariant(self);
        }
        &self.calls
    }
}

} // verus!
