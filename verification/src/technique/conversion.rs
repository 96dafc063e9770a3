//! Building the technique model from the intermediate representation.

use crate::error::ConversionError;
use crate::ir::{
    check_permutation, is_permutation, IrCall, IrCallView, IrParameterView, IrTechnique,
    IrTechniqueView,
};
use crate::technique::{
    MethodCall, MethodCallView, Parameter, ParameterView, Technique, TechniqueView,
    MAX_NESTING_DEPTH,
};
use vstd::prelude::*;

verus! {

impl IrCallView {
    /// What is wrong with the parameter at position `k` of the call at
    /// position `call`, if anything: its value nests too deeply, or, failing
    /// that, an earlier parameter of the call has its name.
    pub open spec fn parameter_fault(self, call: usize, k: int) -> Option<ConversionError> {
        if self.parameters[k].value.depth() > MAX_NESTING_DEPTH {
            Some(ConversionError::NestingTooDeep { call, parameter: k as usize })
        } else if exists|j: int|
            0 <= j < k && (#[trigger] self.parameters[j]).name == self.parameters[k].name {
            Some(ConversionError::DuplicateParameter { call, parameter: k as usize })
        } else {
            None
        }
    }

    /// The fault of the first faulty parameter among the first `n`.
    pub open spec fn fault_within(self, call: usize, n: int) -> Option<ConversionError>
        decreases n,
    {
        if n <= 0 {
            None
        } else {
            match self.fault_within(call, n - 1) {
                Some(e) => Some(e),
                None => self.parameter_fault(call, n - 1),
            }
        }
    }

    /// The fault of the first faulty parameter of the call.
    pub open spec fn fault(self, call: usize) -> Option<ConversionError> {
        self.fault_within(call, self.parameters.len() as int)
    }

    /// The method call that stands for this call in the model: what it
    /// means, without where it stood.
    pub open spec fn lowered(self) -> MethodCallView {
        MethodCallView {
            method: self.method,
            parameters: self.parameters.map_values(
                |p: IrParameterView| ParameterView { name: p.name, value: p.value },
            ),
            condition: self.condition,
            id: self.id,
        }
    }
}

impl IrTechniqueView {
    /// Whether the reordering directive, if there is one, names each call
    /// exactly once.
    pub open spec fn order_valid(self) -> bool {
        match self.order {
            Some(order) => is_permutation(order, self.calls.len()),
            None => true,
        }
    }

    /// The position in the source text of the call that runs as number `i`.
    pub open spec fn source_of(self, i: int) -> int {
        match self.order {
            Some(order) => order[i] as int,
            None => i,
        }
    }

    /// The fault of the first faulty call among the first `n` of the source
    /// text.
    pub open spec fn fault_within(self, n: int) -> Option<ConversionError>
        decreases n,
    {
        if n <= 0 {
            None
        } else {
            match self.fault_within(n - 1) {
                Some(e) => Some(e),
                None => self.calls[n - 1].fault((n - 1) as usize),
            }
        }
    }

    /// The model that the representation stands for, or why it has none.
    /// The calls of the model are those of the representation, in the order
    /// of the directive where there is one, else in the order of the source
    /// text.
    pub open spec fn build(self) -> Result<TechniqueView, ConversionError> {
        if !self.order_valid() {
            Err(ConversionError::InvalidOrder)
        } else {
            match self.fault_within(self.calls.len() as int) {
                Some(e) => Err(e),
                None => Ok(
                    TechniqueView {
                        id: self.id,
                        name: self.name,
                        version: self.version,
                        calls: Seq::new(
                            self.calls.len(),
                            |i: int| self.calls[self.source_of(i)].lowered(),
                        ),
                    },
                ),
            }
        }
    }
}

/// Once a fault is found among the first `m` parameters, looking at more of
/// them finds the same fault.
pub proof fn lemma_call_fault_stays(call: IrCallView, index: usize, m: int, n: int)
    requires
        0 <= m <= n,
        call.fault_within(index, m) is Some,
    ensures
        call.fault_within(index, n) == call.fault_within(index, m),
    decreases n - m,
{
    if m < n {
        lemma_call_fault_stays(call, index, m, n - 1);
    }
}

/// No fault is found among the first `n` parameters exactly when none of
/// them has one.
pub proof fn lemma_call_fault_none(call: IrCallView, index: usize, n: int)
    requires
        0 <= n,
    ensures
        call.fault_within(index, n) is None <==> forall|k: int|
            0 <= k < n ==> (#[trigger] call.parameter_fault(index, k)) is None,
    decreases n,
{
    if n > 0 {
        lemma_call_fault_none(call, index, n - 1);
        if call.fault_within(index, n) is None {
            assert forall|k: int| 0 <= k < n implies (#[trigger] call.parameter_fault(
                index,
                k,
            )) is None by {}
        } else {
            if call.fault_within(index, n - 1) is None {
                assert(call.parameter_fault(index, n - 1) is Some);
            }
        }
    }
}

/// Once a fault is found among the first `m` calls, looking at more of
/// them finds the same fault.
pub proof fn lemma_fault_stays(ir: IrTechniqueView, m: int, n: int)
    requires
        0 <= m <= n,
        ir.fault_within(m) is Some,
    ensures
        ir.fault_within(n) == ir.fault_within(m),
    decreases n - m,
{
    if m < n {
        lemma_fault_stays(ir, m, n - 1);
    }
}

/// No fault is found among the first `n` calls exactly when none of them
/// has one.
pub proof fn lemma_fault_none(ir: IrTechniqueView, n: int)
    requires
        0 <= n,
    ensures
        ir.fault_within(n) is None <==> forall|i: int|
            0 <= i < n ==> (#[trigger] ir.calls[i]).fault(i as usize) is None,
    decreases n,
{
    if n > 0 {
        lemma_fault_none(ir, n - 1);
        if ir.fault_within(n) is None {
            assert forall|i: int| 0 <= i < n implies (#[trigger] ir.calls[i]).fault(
                i as usize,
            ) is None by {}
        } else {
            if ir.fault_within(n - 1) is None {
                assert(ir.calls[n - 1].fault((n - 1) as usize) is Some);
            }
        }
    }
}

/// A call without a fault lowers to a well-formed method call.
pub proof fn lemma_lowered_well_formed(call: IrCallView, index: usize)
    requires
        call.fault(index) is None,
    ensures
        call.lowered().well_formed(),
{
    lemma_call_fault_none(call, index, call.parameters.len() as int);
    let lowered = call.lowered();
    assert forall|k: int| 0 <= k < lowered.parameters.len() implies (
    #[trigger] lowered.parameters[k]).value.depth() <= MAX_NESTING_DEPTH by {
        assert(call.parameter_fault(index, k) is None);
    }
    assert forall|j: int, k: int| 0 <= j < k < lowered.parameters.len() implies (
    #[trigger] lowered.parameters[j]).name != (#[trigger] lowered.parameters[k]).name by {
        assert(call.parameter_fault(index, k) is None);
        assert(call.parameters[j].name == lowered.parameters[j].name);
    }
}

/// The fault of the first faulty parameter of the call, if it has one.
/// `index` is the position of the call in the source text.
pub fn check_call(call: &IrCall, index: usize) -> (r: Option<ConversionError>)
    ensures
        r == call@.fault(index),
{
    let count = call.parameters.len();
    let mut k: usize = 0;
    while k < count
        invariant
            k <= count,
            count == call.parameters@.len(),
            call@.fault_within(index, k as int) is None,
        decreases count - k,
    {
        let parameter = &call.parameters[k];
        assert(call@.parameters[k as int] == parameter@);
        if !parameter.value.within_depth(MAX_NESTING_DEPTH) {
            proof {
                lemma_call_fault_stays(call@, index, k + 1, count as int);
            }
            return Some(ConversionError::NestingTooDeep { call: index, parameter: k });
        }
        let mut found = false;
        let mut j: usize = 0;
        while j < k
            invariant
                j <= k,
                k < count,
                count == call.parameters@.len(),
                *parameter == call.parameters@[k as int],
                found == exists|m: int|
                    0 <= m < j && (#[trigger] call@.parameters[m]).name
                        == call@.parameters[k as int].name,
            decreases k - j,
        {
            let earlier = &call.parameters[j];
            assert(call@.parameters[j as int] == earlier@);
            assert(call@.parameters[k as int] == parameter@);
            if earlier.name == parameter.name {
                found = true;
            }
            j += 1;
        }
        if found {
            proof {
                lemma_call_fault_stays(call@, index, k + 1, count as int);
            }
            return Some(ConversionError::DuplicateParameter { call: index, parameter: k });
        }
        k += 1;
    }
    None
}

impl MethodCall {
    /// The method call that stands for a call without a fault.
    fn lower(call: &IrCall, Ghost(index): Ghost<usize>) -> (r: MethodCall)
        requires
            call@.fault(index) is None,
        ensures
            r@ == call@.lowered(),
    {
        let mut parameters: Vec<Parameter> = Vec::new();
        let mut k: usize = 0;
        while k < call.parameters.len()
            invariant
                k <= call.parameters@.len(),
                parameters@.len() == k,
                forall|j: int|
                    0 <= j < k ==> (#[trigger] parameters@[j])@ == (ParameterView {
                        name: call.parameters@[j].name@,
                        value: call.parameters@[j].value@,
                    }),
            decreases call.parameters@.len() - k,
        {
            let source = &call.parameters[k];
            parameters.push(Parameter { name: source.name.clone(), value: source.value.clone() });
            k += 1;
        }
        let condition = match &call.condition {
            Some(c) => Some(c.clone()),
            None => None,
        };
        let id = match &call.id {
            Some(t) => Some(t.clone()),
            None => None,
        };
        proof {
            lemma_lowered_well_formed(call@, index);
            assert(parameters@.map_values(|p: Parameter| p@) =~= call@.lowered().parameters);
        }
        MethodCall { method: call.method.clone(), parameters, condition, id }
    }
}

impl Technique {
    /// Builds the model that the intermediate representation stands for.
    /// It fails where the reordering directive is not a permutation of the
    /// calls, and else on the first call, in the order of the source text,
    /// with a parameter that nests too deeply or repeats a name.
    pub fn from_ir(ir: &IrTechnique) -> (r: Result<Technique, ConversionError>)
        ensures
            match ir@.build() {
                Ok(model) => r is Ok && r->Ok_0@ == model,
                Err(e) => r is Err && r->Err_0 == e,
            },
            r matches Ok(t) ==> t@.well_formed(),
    {
        let count = ir.calls.len();
        match &ir.order {
            Some(order) => {
                if !check_permutation(order, count) {
                    return Err(ConversionError::InvalidOrder);
                }
            },
            None => {},
        }
        let mut i: usize = 0;
        while i < count
            invariant
                i <= count,
                count == ir.calls@.len(),
                ir@.order_valid(),
                ir@.fault_within(i as int) is None,
            decreases count - i,
        {
            assert(ir@.calls[i as int] == ir.calls@[i as int]@);
            match check_call(&ir.calls[i], i) {
                Some(e) => {
                    proof {
                        lemma_fault_stays(ir@, i + 1, count as int);
                    }
                    return Err(e);
                },
                None => {},
            }
            i += 1;
        }
        proof {
            lemma_fault_none(ir@, count as int);
        }
        let ghost model = ir@.build()->Ok_0;
        let mut calls: Vec<MethodCall> = Vec::new();
        let mut i: usize = 0;
        while i < count
            invariant
                i <= count,
                count == ir.calls@.len(),
                ir@.order_valid(),
                calls@.len() == i,
                forall|j: int|
                    0 <= j < count ==> (#[trigger] ir@.calls[j]).fault(j as usize) is None,
                forall|j: int|
                    0 <= j < i ==> (#[trigger] calls@[j])@ == ir@.calls[ir@.source_of(
                        j,
                    )].lowered(),
            decreases count - i,
        {
            let source = match &ir.order {
                Some(order) => order[i],
                None => i,
            };
            assert(source == ir@.source_of(i as int));
            assert(ir@.calls[source as int] == ir.calls@[source as int]@);
            calls.push(MethodCall::lower(&ir.calls[source], Ghost(source)));
            i += 1;
        }
        proof {
            assert(calls@.map_values(|c: MethodCall| c@) =~= model.calls);
            assert forall|j: int| 0 <= j < model.calls.len() implies (
            #[trigger] model.calls[j]).well_formed() by {
                lemma_lowered_well_formed(
                    ir@.calls[ir@.source_of(j)],
                    ir@.source_of(j) as usize,
                );
            }
        }
        Ok(Technique { id: ir.id.clone(), name: ir.name.clone(), version: ir.version, calls })
    }
}

impl IrCallView {
    /// Whether two calls mean the same: the same method, the same
    /// parameters by name and value in the same order, the same guard
    /// condition and the same identifier. Where they stood in the source text
    /// does not count.
    pub open spec fn equivalent(self, other: IrCallView) -> bool {
        &&& self.method == other.method
        &&& self.condition == other.condition
        &&& self.id == other.id
        &&& self.parameters.len() == other.parameters.len()
        &&& forall|k: int|
            0 <= k < self.parameters.len() ==> (#[trigger] self.parameters[k]).name
                == other.parameters[k].name && self.parameters[k].value
                == other.parameters[k].value
    }
}

impl IrTechniqueView {
    /// Whether two representations mean the same: the same identity,
    /// version and reordering directive, and equivalent calls in the same
    /// order.
    pub open spec fn equivalent(self, other: IrTechniqueView) -> bool {
        &&& self.id == other.id
        &&& self.name == other.name
        &&& self.version == other.version
        &&& self.order == other.order
        &&& self.calls.len() == other.calls.len()
        &&& forall|i: int|
            0 <= i < self.calls.len() ==> (#[trigger] self.calls[i]).equivalent(other.calls[i])
    }
}

/// Equivalent calls have the same fault, or none.
pub proof fn lemma_equivalent_call_fault(a: IrCallView, b: IrCallView, index: usize, n: int)
    requires
        a.equivalent(b),
        0 <= n <= a.parameters.len(),
    ensures
        a.fault_within(index, n) == b.fault_within(index, n),
    decreases n,
{
    if n > 0 {
        lemma_equivalent_call_fault(a, b, index, n - 1);
        let k = n - 1;
        assert(a.parameters[k].name == b.parameters[k].name);
        if exists|j: int| 0 <= j < k && (#[trigger] a.parameters[j]).name == a.parameters[k].name {
            let j = choose|j: int|
                0 <= j < k && (#[trigger] a.parameters[j]).name == a.parameters[k].name;
            assert(b.parameters[j].name == b.parameters[k].name);
        }
        if exists|j: int| 0 <= j < k && (#[trigger] b.parameters[j]).name == b.parameters[k].name {
            let j = choose|j: int|
                0 <= j < k && (#[trigger] b.parameters[j]).name == b.parameters[k].name;
            assert(a.parameters[j].name == a.parameters[k].name);
        }
    }
}

/// Equivalent calls lower to the same method call.
pub proof fn lemma_equivalent_call_lowered(a: IrCallView, b: IrCallView)
    requires
        a.equivalent(b),
    ensures
        a.lowered() == b.lowered(),
{
    assert forall|k: int| 0 <= k < a.parameters.len() implies (
    #[trigger] a.lowered().parameters[k]) == b.lowered().parameters[k] by {
        assert(a.parameters[k].name == b.parameters[k].name);
    }
    assert(a.lowered().parameters =~= b.lowered().parameters);
}

/// Equivalent representations have the same first fault among their first
/// `n` calls, or none.
pub proof fn lemma_equivalent_fault(a: IrTechniqueView, b: IrTechniqueView, n: int)
    requires
        a.equivalent(b),
        0 <= n <= a.calls.len(),
    ensures
        a.fault_within(n) == b.fault_within(n),
    decreases n,
{
    if n > 0 {
        lemma_equivalent_fault(a, b, n - 1);
        assert(a.calls[n - 1].equivalent(b.calls[n - 1]));
        lemma_equivalent_call_fault(
            a.calls[n - 1],
            b.calls[n - 1],
            (n - 1) as usize,
            a.calls[n - 1].parameters.len() as int,
        );
    }
}

/// Two representations that mean the same, whatever the places of their
/// constructs in the source text, stand for the same model, or both for
/// none, with the same error.
pub proof fn lemma_equivalent_build(a: IrTechniqueView, b: IrTechniqueView)
    requires
        a.equivalent(b),
    ensures
        a.build() == b.build(),
{
    lemma_equivalent_fault(a, b, a.calls.len() as int);
    if a.order_valid() && a.fault_within(a.calls.len() as int) is None {
        let left = a.build()->Ok_0;
        let right = b.build()->Ok_0;
        assert forall|i: int| 0 <= i < left.calls.len() implies (#[trigger] left.calls[i])
            == right.calls[i] by {
            let source = a.source_of(i);
            assert(0 <= source < a.calls.len()) by {
                if a.order is Some {
                    assert(a.order->0[i] < a.calls.len());
                }
            }
            assert(a.calls[source].equivalent(b.calls[source]));
            lemma_equivalent_call_lowered(a.calls[source], b.calls[source]);
        }
        assert(left.calls =~= right.calls);
    }
}

/// A representation stands for a model exactly when its reordering
/// directive, if it has one, is a permutation of its calls, no value of a
/// parameter nests deeper than the limit, and no two parameters of a call
/// share a name.
pub proof fn lemma_build_succeeds(ir: IrTechniqueView)
    ensures
        ir.build() is Ok <==> {
            &&& ir.order_valid()
            &&& forall|i: int, k: int|
                0 <= i < ir.calls.len() && 0 <= k < ir.calls[i].parameters.len() ==> (
                #[trigger] ir.calls[i].parameters[k]).value.depth() <= MAX_NESTING_DEPTH
            &&& forall|i: int, j: int, k: int|
                0 <= i < ir.calls.len() && 0 <= j < k < ir.calls[i].parameters.len() ==> (
                #[trigger] ir.calls[i].parameters[j]).name != (
                #[trigger] ir.calls[i].parameters[k]).name
        },
{
    let n = ir.calls.len() as int;
    lemma_fault_none(ir, n);
    assert forall|i: int| 0 <= i < n implies ((#[trigger] ir.calls[i]).fault(i as usize) is None
        <==> forall|k: int|
        0 <= k < ir.calls[i].parameters.len() ==> (#[trigger] ir.calls[i].parameter_fault(
            i as usize,
            k,
        )) is None) by {
        lemma_call_fault_none(ir.calls[i], i as usize, ir.calls[i].parameters.len() as int);
    }
    let deep = forall|i: int, k: int|
        0 <= i < ir.calls.len() && 0 <= k < ir.calls[i].parameters.len() ==> (
        #[trigger] ir.calls[i].parameters[k]).value.depth() <= MAX_NESTING_DEPTH;
    let distinct = forall|i: int, j: int, k: int|
        0 <= i < ir.calls.len() && 0 <= j < k < ir.calls[i].parameters.len() ==> (
        #[trigger] ir.calls[i].parameters[j]).name != (#[trigger] ir.calls[i].parameters[k]).name;
    if ir.order_valid() && ir.fault_within(n) is None {
        assert forall|i: int, k: int|
            0 <= i < ir.calls.len() && 0 <= k < ir.calls[i].parameters.len() implies (
        #[trigger] ir.calls[i].parameters[k]).value.depth() <= MAX_NESTING_DEPTH by {
            assert(ir.calls[i].fault(i as usize) is None);
            assert(ir.calls[i].parameter_fault(i as usize, k) is None);
        }
        assert forall|i: int, j: int, k: int|
            0 <= i < ir.calls.len() && 0 <= j < k < ir.calls[i].parameters.len() implies (
        #[trigger] ir.calls[i].parameters[j]).name != (
        #[trigger] ir.calls[i].parameters[k]).name by {
            assert(ir.calls[i].fault(i as usize) is None);
            assert(ir.calls[i].parameter_fault(i as usize, k) is None);
        }
    }
    if ir.order_valid() && deep && distinct {
        assert forall|i: int| 0 <= i < n implies (#[trigger] ir.calls[i]).fault(
            i as usize,
        ) is None by {
            assert forall|k: int| 0 <= k < ir.calls[i].parameters.len() implies (
            #[trigger] ir.calls[i].parameter_fault(i as usize, k)) is None by {
                assert(ir.calls[i].parameters[k].value.depth() <= MAX_NESTING_DEPTH);
                if exists|j: int|
                    0 <= j < k && (#[trigger] ir.calls[i].parameters[j]).name
                        == ir.calls[i].parameters[k].name {
                    let j = choose|j: int|
                        0 <= j < k && (#[trigger] ir.calls[i].parameters[j]).name
                            == ir.calls[i].parameters[k].name;
                    assert(ir.calls[i].parameters[j].name != ir.calls[i].parameters[k].name);
                }
            }
        }
    }
}

/// The method calls of a model stand in the order in which the
/// representation means them to run: that of the reordering directive where
/// there is one, else that of the source text.
pub proof fn lemma_build_keeps_order(ir: IrTechniqueView, i: int)
    requires
        ir.build() is Ok,
        0 <= i < ir.calls.len(),
    ensures
        ir.build()->Ok_0.calls.len() == ir.calls.len(),
        ir.build()->Ok_0.calls[i] == ir.calls[ir.source_of(i)].lowered(),
        ir.order is None ==> ir.build()->Ok_0.calls[i].method == ir.calls[i].method,
{
}

} // verus!
