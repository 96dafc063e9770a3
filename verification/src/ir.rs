//! The intermediate representation of a technique, as the passes before
//! generation hand it over.

use crate::condition::{view_condition, Condition, ConditionView};
use crate::text::{digits, push_digits};
use crate::value::{Value, ValueView};
use vstd::prelude::*;

verus! {

/// A version marker. Versions are ordered by their major number, then by
/// their minor number.
#[derive(Clone, Copy, Debug, PartialEq, Eq, Structural)]
pub struct Version {
    pub major: u32,
    pub minor: u32,
}

impl Version {
    /// The text of the version: the major number, a dot, the minor number.
    pub open spec fn text(self) -> Seq<char> {
        digits(self.major as nat) + seq!['.'] + digits(self.minor as nat)
    }

    /// Whether this version comes before `other`.
    pub open spec fn precedes(self, other: Version) -> bool {
        self.major < other.major || (self.major == other.major && self.minor < other.minor)
    }

    /// The version with these numbers.
    pub fn new(major: u32, minor: u32) -> (r: Version)
        ensures
            r == (Version { major, minor }),
    {
        Version { major, minor }
    }

    /// The text of the version.
    pub fn to_text(&self) -> (r: String)
        ensures
            r@ == self.text(),
    {
        let mut r = String::new();
        push_digits(&mut r, self.major as u64);
        r.push('.');
        push_digits(&mut r, self.minor as u64);
        assert(r@ =~= self.text());
        r
    }

    /// Whether this version comes before `other`.
    pub fn is_before(&self, other: &Version) -> (r: bool)
        ensures
            r == self.precedes(*other),
    {
        self.major < other.major || (self.major == other.major && self.minor < other.minor)
    }
}

/// Where a construct stood in the source text. It says nothing of what the
/// construct means.
#[derive(Clone, Copy, Debug, PartialEq, Eq, Structural)]
pub struct Span {
    pub line: u32,
    pub column: u32,
}

/// The model of an optional text.
pub open spec fn view_text(text: Option<String>) -> Option<Seq<char>> {
    match text {
        Some(t) => Some(t@),
        None => None,
    }
}

/// The model of an optional guard condition.
pub open spec fn view_guard(guard: Option<Condition>) -> Option<ConditionView> {
    match guard {
        Some(c) => Some(view_condition(c)),
        None => None,
    }
}

/// One parameter of a call as it was written.
#[derive(Debug, PartialEq, Eq)]
pub struct IrParameter {
    pub name: String,
    pub value: Value,
    pub span: Span,
}

/// The mathematical model of an [`IrParameter`].
pub struct IrParameterView {
    pub name: Seq<char>,
    pub value: ValueView,
    pub span: Span,
}

impl View for IrParameter {
    type V = IrParameterView;

    open spec fn view(&self) -> IrParameterView {
        IrParameterView { name: self.name@, value: self.value@, span: self.span }
    }
}

/// One method call as it was written.
#[derive(Debug, PartialEq, Eq)]
pub struct IrCall {
    pub method: String,
    pub parameters: Vec<IrParameter>,
    pub condition: Option<Condition>,
    pub id: Option<String>,
    pub span: Span,
}

/// The mathematical model of an [`IrCall`].
pub struct IrCallView {
    pub method: Seq<char>,
    pub parameters: Seq<IrParameterView>,
    pub condition: Option<ConditionView>,
    pub id: Option<Seq<char>>,
    pub span: Span,
}

impl View for IrCall {
    type V = IrCallView;

    open spec fn view(&self) -> IrCallView {
        IrCallView {
            method: self.method@,
            parameters: self.parameters@.map_values(|p: IrParameter| p@),
            condition: view_guard(self.condition),
            id: view_text(self.id),
            span: self.span,
        }
    }
}

/// A technique as it was written: its calls in the order of the source
/// text, and, where the source gave one, a reordering directive. The
/// directive lists positions in `calls`: the call that is to run first, then
/// the one that is to run second, and so on.
#[derive(Debug, PartialEq, Eq)]
pub struct IrTechnique {
    pub id: String,
    pub name: String,
    pub version: Version,
    pub calls: Vec<IrCall>,
    pub order: Option<Vec<usize>>,
}

/// The mathematical model of an [`IrTechnique`].
pub struct IrTechniqueView {
    pub id: Seq<char>,
    pub name: Seq<char>,
    pub version: Version,
    pub calls: Seq<IrCallView>,
    pub order: Option<Seq<usize>>,
}

/// The model of an optional reordering directive.
pub open spec fn view_order(order: Option<Vec<usize>>) -> Option<Seq<usize>> {
    match order {
        Some(o) => Some(o@),
        None => None,
    }
}

impl View for IrTechnique {
    type V = IrTechniqueView;

    open spec fn view(&self) -> IrTechniqueView {
        IrTechniqueView {
            id: self.id@,
            name: self.name@,
            version: self.version,
            calls: self.calls@.map_values(|c: IrCall| c@),
            order: view_order(self.order),
        }
    }
}

impl Clone for IrParameter {
    fn clone(&self) -> (r: Self)
        ensures
            r@ == self@,
    {
        IrParameter { name: self.name.clone(), value: self.value.clone(), span: self.span }
    }
}

impl Clone for IrCall {
    fn clone(&self) -> (r: Self)
        ensures
            r@ == self@,
    {
        let mut parameters: Vec<IrParameter> = Vec::new();
        let mut k: usize = 0;
        while k < self.parameters.len()
            invariant
                k <= self.parameters@.len(),
                parameters@.len() == k,
                forall|j: int| 0 <= j < k ==> (#[trigger] parameters@[j])@ == self.parameters@[j]@,
            decreases self.parameters@.len() - k,
        {
            parameters.push(self.parameters[k].clone());
            k += 1;
        }
        let condition = match &self.condition {
            Some(c) => Some(c.clone()),
            None => None,
        };
        let id = match &self.id {
            Some(t) => Some(t.clone()),
            None => None,
        };
        assert(parameters@.map_values(|p: IrParameter| p@) =~= self@.parameters);
        IrCall { method: self.method.clone(), parameters, condition, id, span: self.span }
    }
}

impl Clone for IrTechnique {
    fn clone(&self) -> (r: Self)
        ensures
            r@ == self@,
    {
        let mut calls: Vec<IrCall> = Vec::new();
        let mut i: usize = 0;
        while i < self.calls.len()
            invariant
                i <= self.calls@.len(),
                calls@.len() == i,
                forall|j: int| 0 <= j < i ==> (#[trigger] calls@[j])@ == self.calls@[j]@,
            decreases self.calls@.len() - i,
        {
            calls.push(self.calls[i].clone());
            i += 1;
        }
        let order = match &self.order {
            Some(positions) => {
                let mut copy: Vec<usize> = Vec::new();
                let mut k: usize = 0;
                while k < positions.len()
                    invariant
                        k <= positions@.len(),
                        copy@ == positions@.take(k as int),
                    decreases positions@.len() - k,
                {
                    copy.push(positions[k]);
                    assert(positions@.take(k as int).push(positions@[k as int])
                        =~= positions@.take(k as int + 1));
                    k += 1;
                }
                assert(positions@.take(k as int) =~= positions@);
                Some(copy)
            },
            None => None,
        };
        assert(calls@.map_values(|c: IrCall| c@) =~= self@.calls);
        IrTechnique {
            id: self.id.clone(),
            name: self.name.clone(),
            version: self.version,
            calls,
            order,
        }
    }
}

/// Whether `order` names each of `count` positions exactly once.
pub open spec fn is_permutation(order: Seq<usize>, count: nat) -> bool {
    &&& order.len() == count
    &&& forall|k: int| 0 <= k < order.len() ==> (#[trigger] order[k]) < count
    &&& forall|j: int, k: int|
        0 <= j < k < order.len() ==> (#[trigger] order[j]) != (#[trigger] order[k])
}

/// Whether `order` names each of `count` positions exactly once.
pub fn check_permutation(order: &Vec<usize>, count: usize) -> (r: bool)
    ensures
        r == is_permutation(order@, count as nat),
{
    if order.len() != count {
        return false;
    }
    let mut seen: Vec<bool> = Vec::new();
    let mut i: usize = 0;
    while i < count
        invariant
            i <= count,
            seen@.len() == i,
            forall|p: int| 0 <= p < i ==> !(#[trigger] seen@[p]),
        decreases count - i,
    {
        seen.push(false);
        i += 1;
    }
    let mut k: usize = 0;
    while k < count
        invariant
            k <= count,
            order@.len() == count,
            seen@.len() == count,
            forall|j: int| 0 <= j < k ==> (#[trigger] order@[j]) < count,
            forall|j: int| 0 <= j < k ==> seen@[(#[trigger] order@[j]) as int],
            forall|p: int|
                0 <= p < count && (#[trigger] seen@[p]) ==> exists|j: int|
                    0 <= j < k && (#[trigger] order@[j]) == p,
            forall|i: int, j: int|
                0 <= i < j < k ==> (#[trigger] order@[i]) != (#[trigger] order@[j]),
        decreases count - k,
    {
        let position = order[k];
        if position >= count {
            return false;
        }
        if seen[position] {
            proof {
                let j = choose|j: int| 0 <= j < k && (#[trigger] order@[j]) == position;
                assert(order@[j] == order@[k as int]);
            }
            return false;
        }
        seen.set(position, true);
        k += 1;
    }
    true
}

} // verus!
