//! Guard conditions: boolean predicates over the outcomes of earlier calls
//! and over external facts.

use crate::json_value::{
    lemma_view_elements, lemma_view_members, view_elements, view_members, JsonValue, JsonView,
};
use vstd::prelude::*;
use vstd::string::StringExecFns;

verus! {

/// How a method call ended.
#[derive(Clone, Copy, Debug, PartialEq, Eq, Structural)]
pub enum Outcome {
    Kept,
    Repaired,
    Failed,
}

impl Outcome {
    /// The name under which the outcome is written.
    pub open spec fn name(self) -> Seq<char> {
        match self {
            Outcome::Kept => "kept"@,
            Outcome::Repaired => "repaired"@,
            Outcome::Failed => "failed"@,
        }
    }

    /// The name under which the outcome is written.
    pub fn label(&self) -> (r: &'static str)
        ensures
            r@ == self.name(),
    {
        match self {
            Outcome::Kept => "kept",
            Outcome::Repaired => "repaired",
            Outcome::Failed => "failed",
        }
    }
}

/// A guard condition.
#[derive(Debug, PartialEq, Eq)]
pub enum Condition {
    /// The external fact of this name holds.
    Fact(String),
    /// The earlier call with this identifier ended with this outcome.
    Call { call: String, outcome: Outcome },
    Not(Box<Condition>),
    And(Box<Condition>, Box<Condition>),
    Or(Box<Condition>, Box<Condition>),
}

/// The mathematical model of a [`Condition`].
pub enum ConditionView {
    Fact(Seq<char>),
    Call { call: Seq<char>, outcome: Outcome },
    Not(Box<ConditionView>),
    And(Box<ConditionView>, Box<ConditionView>),
    Or(Box<ConditionView>, Box<ConditionView>),
}

/// The model of one condition.
pub open spec fn view_condition(c: Condition) -> ConditionView
    decreases c,
{
    match c {
        Condition::Fact(name) => ConditionView::Fact(name@),
        Condition::Call { call, outcome } => ConditionView::Call { call: call@, outcome },
        Condition::Not(inner) => ConditionView::Not(Box::new(view_condition(*inner))),
        Condition::And(left, right) => ConditionView::And(
            Box::new(view_condition(*left)),
            Box::new(view_condition(*right)),
        ),
        Condition::Or(left, right) => ConditionView::Or(
            Box::new(view_condition(*left)),
            Box::new(view_condition(*right)),
        ),
    }
}

impl View for Condition {
    type V = ConditionView;

    open spec fn view(&self) -> ConditionView {
        view_condition(*self)
    }
}

impl ConditionView {
    /// The nested predicate structure of the condition: an object with one
    /// member named after the operator, or, for the outcome of a call, with
    /// the call's identifier and the outcome's name.
    pub open spec fn json(self) -> JsonView
        decreases self,
    {
        match self {
            ConditionView::Fact(name) => JsonView::Object(seq![("fact"@, JsonView::String(name))]),
            ConditionView::Call { call, outcome } => JsonView::Object(
                seq![
                    ("call"@, JsonView::String(call)),
                    ("outcome"@, JsonView::String(outcome.name())),
                ],
            ),
            ConditionView::Not(inner) => JsonView::Object(seq![("not"@, inner.json())]),
            ConditionView::And(left, right) => JsonView::Object(
                seq![("and"@, JsonView::Array(seq![left.json(), right.json()]))],
            ),
            ConditionView::Or(left, right) => JsonView::Object(
                seq![("or"@, JsonView::Array(seq![left.json(), right.json()]))],
            ),
        }
    }
}

/// An object with the one member given.
fn object_of(name: &str, value: JsonValue) -> (r: JsonValue)
    ensures
        r@ == JsonView::Object(seq![(name@, value@)]),
{
    let mut members: Vec<(String, JsonValue)> = Vec::new();
    members.push((String::from_str(name), value));
    proof {
        lemma_view_members(members@);
        assert(view_members(members@) =~= seq![(name@, value@)]);
    }
    JsonValue::Object(members)
}

/// An array of the two elements given.
fn pair_of(first: JsonValue, second: JsonValue) -> (r: JsonValue)
    ensures
        r@ == JsonView::Array(seq![first@, second@]),
{
    let mut elements: Vec<JsonValue> = Vec::new();
    elements.push(first);
    elements.push(second);
    proof {
        lemma_view_elements(elements@);
        assert(view_elements(elements@) =~= seq![first@, second@]);
    }
    JsonValue::Array(elements)
}

impl Condition {
    /// The nested predicate structure of the condition.
    pub fn to_json(&self) -> (r: JsonValue)
        ensures
            r@ == self@.json(),
        decreases *self,
    {
        match self {
            Condition::Fact(name) => object_of("fact", JsonValue::String(name.clone())),
            Condition::Call { call, outcome } => {
                let mut members: Vec<(String, JsonValue)> = Vec::new();
                members.push((String::from_str("call"), JsonValue::String(call.clone())));
                members.push(
                    (
                        String::from_str("outcome"),
                        JsonValue::String(String::from_str(outcome.label())),
                    ),
                );
                proof {
                    lemma_view_members(members@);
                    assert(view_members(members@) =~= seq![
                        ("call"@, JsonView::String(call@)),
                        ("outcome"@, JsonView::String(outcome.name())),
                    ]);
                }
                JsonValue::Object(members)
            },
            Condition::Not(inner) => object_of("not", inner.to_json()),
            Condition::And(left, right) => object_of(
                "and",
                pair_of(left.to_json(), right.to_json()),
            ),
            Condition::Or(left, right) => object_of("or", pair_of(left.to_json(), right.to_json())),
        }
    }
}

impl Clone for Condition {
    fn clone(&self) -> (r: Self)
        ensures
            r@ == self@,
        decreases *self,
    {
        match self {
            Condition::Fact(name) => Condition::Fact(name.clone()),
            Condition::Call { call, outcome } => Condition::Call {
                call: call.clone(),
                outcome: *outcome,
            },
            Condition::Not(inner) => Condition::Not(Box::new((**inner).clone())),
            Condition::And(left, right) => Condition::And(
                Box::new((**left).clone()),
                Box::new((**right).clone()),
            ),
            Condition::Or(left, right) => Condition::Or(
                Box::new((**left).clone()),
                Box::new((**right).clone()),
            ),
        }
    }
}

} // verus!
