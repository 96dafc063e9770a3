//! The structured-data tree of a technique.

use crate::error::Fault;
use crate::json_value::{
    lemma_view_elements, lemma_view_members, view_elements, view_members, JsonValue, JsonView,
};
use crate::technique::{
    view_source, MethodCall, MethodCallView, ParameterView, Technique, TechniqueView,
};
use crate::text::quoted;
use vstd::prelude::*;
use vstd::string::StringExecFns;

verus! {

impl MethodCallView {
    /// The fault of the first parameter among the first `n` whose value
    /// holds a number that is not finite. `call` is the position of the
    /// method call in its technique.
    pub open spec fn json_fault_within(self, call: usize, n: int) -> Option<Fault>
        decreases n,
    {
        if n <= 0 {
            None
        } else {
            match self.json_fault_within(call, n - 1) {
                Some(f) => Some(f),
                None => if self.parameters[n - 1].value.finite() {
                    None
                } else {
                    Some(Fault::Unrepresentable { call, parameter: (n - 1) as usize })
                },
            }
        }
    }

    /// Why the method call has no structured-data tree, if it has none.
    pub open spec fn json_fault(self, call: usize) -> Option<Fault> {
        self.json_fault_within(call, self.parameters.len() as int)
    }

    /// The members of the parameter object: each parameter's name with the
    /// tree of its value, in the order of the parameters.
    pub open spec fn json_parameters(self) -> Seq<(Seq<char>, JsonView)> {
        self.parameters.map_values(|p: ParameterView| (p.name, p.value.json()))
    }

    /// The structured-data tree of the method call: an object with the
    /// method's identifier, the parameter object and, where the call has a
    /// guard condition, the condition.
    pub open spec fn json(self) -> JsonView {
        let members = seq![
            ("method"@, JsonView::String(self.method)),
            ("params"@, JsonView::Object(self.json_parameters())),
        ];
        match self.condition {
            Some(c) => JsonView::Object(members.push(("condition"@, c.json()))),
            None => JsonView::Object(members),
        }
    }
}

impl TechniqueView {
    /// The fault of the first method call among the first `n` that has
    /// one.
    pub open spec fn json_fault_within(self, n: int) -> Option<Fault>
        decreases n,
    {
        if n <= 0 {
            None
        } else {
            match self.json_fault_within(n - 1) {
                Some(f) => Some(f),
                None => self.calls[n - 1].json_fault((n - 1) as usize),
            }
        }
    }

    /// Why the technique has no structured-data tree, if it has none.
    pub open spec fn json_fault(self) -> Option<Fault> {
        self.json_fault_within(self.calls.len() as int)
    }

    /// The array of the method calls' trees, in the order of the calls.
    pub open spec fn json_calls(self) -> Seq<JsonView> {
        self.calls.map_values(|c: MethodCallView| c.json())
    }

    /// The members that every tree of the technique has: its identity, its
    /// version and its method calls.
    pub open spec fn json_members(self) -> Seq<(Seq<char>, JsonView)> {
        seq![
            ("id"@, JsonView::String(self.id)),
            ("version"@, JsonView::String(self.version.text())),
            ("calls"@, JsonView::Array(self.json_calls())),
        ]
    }

    /// The metadata object: the source reference that identifies the build,
    /// the technique's name and its version.
    pub open spec fn json_metadata(self, source: Seq<char>) -> JsonView {
        JsonView::Object(
            seq![
                ("source"@, JsonView::String(source)),
                ("name"@, JsonView::String(self.name)),
                ("version"@, JsonView::String(self.version.text())),
            ],
        )
    }

    /// The structured-data tree of the technique. Where `metadata` holds a
    /// source reference, the object has a fourth member, the metadata object.
    pub open spec fn json(self, metadata: Option<Seq<char>>) -> JsonView {
        match metadata {
            Some(source) => JsonView::Object(
                self.json_members().push(("metadata"@, self.json_metadata(source))),
            ),
            None => JsonView::Object(self.json_members()),
        }
    }

    /// The structured-data tree of the technique, or why it has none.
    pub open spec fn to_json(self, metadata: Option<Seq<char>>) -> Result<JsonView, Fault> {
        match self.json_fault() {
            Some(f) => Err(f),
            None => Ok(self.json(metadata)),
        }
    }
}

/// Once a fault is found among the first `m` parameters, looking at more of
/// them finds the same fault.
pub proof fn lemma_call_json_fault_stays(call: MethodCallView, index: usize, m: int, n: int)
    requires
        0 <= m <= n,
        call.json_fault_within(index, m) is Some,
    ensures
        call.json_fault_within(index, n) == call.json_fault_within(index, m),
    decreases n - m,
{
    if m < n {
        lemma_call_json_fault_stays(call, index, m, n - 1);
    }
}

/// Once a fault is found among the first `m` method calls, looking at more
/// of them finds the same fault.
pub proof fn lemma_json_fault_stays(model: TechniqueView, m: int, n: int)
    requires
        0 <= m <= n,
        model.json_fault_within(m) is Some,
    ensures
        model.json_fault_within(n) == model.json_fault_within(m),
    decreases n - m,
{
    if m < n {
        lemma_json_fault_stays(model, m, n - 1);
    }
}

impl MethodCall {
    /// The structured-data tree of the method call, or the fault of its
    /// first parameter whose value holds a number that is not finite.
    /// `index` is the position of the method call in its technique.
    pub fn to_json(&self, index: usize) -> (r: Result<JsonValue, Fault>)
        ensures
            match self@.json_fault(index) {
                Some(f) => r == Err::<JsonValue, Fault>(f),
                None => r is Ok && r->Ok_0@ == self@.json(),
            },
    {
        let count = self.parameters.len();
        let mut members: Vec<(String, JsonValue)> = Vec::new();
        let mut k: usize = 0;
        while k < count
            invariant
                k <= count,
                count == self.parameters@.len(),
                members@.len() == k,
                self@.json_fault_within(index, k as int) is None,
                forall|j: int|
                    0 <= j < k ==> (#[trigger] members@[j]).0@ == self.parameters@[j]@.name
                        && members@[j].1@ == self.parameters@[j]@.value.json(),
            decreases count - k,
        {
            let parameter = &self.parameters[k];
            assert(self@.parameters[k as int] == parameter@);
            match parameter.value.to_json() {
                Some(tree) => {
                    members.push((parameter.name.clone(), tree));
                },
                None => {
                    proof {
                        lemma_call_json_fault_stays(self@, index, k + 1, count as int);
                    }
                    return Err(Fault::Unrepresentable { call: index, parameter: k });
                },
            }
            k += 1;
        }
        proof {
            lemma_view_members(members@);
            assert(view_members(members@) =~= self@.json_parameters());
        }
        let mut object: Vec<(String, JsonValue)> = Vec::new();
        object.push((String::from_str("method"), JsonValue::String(self.method.clone())));
        object.push((String::from_str("params"), JsonValue::Object(members)));
        match &self.condition {
            Some(c) => {
                object.push((String::from_str("condition"), c.to_json()));
            },
            None => {},
        }
        proof {
            lemma_view_members(object@);
            let head = seq![
                ("method"@, JsonView::String(self@.method)),
                ("params"@, JsonView::Object(self@.json_parameters())),
            ];
            match self@.condition {
                Some(c) => {
                    assert(view_members(object@) =~= head.push(("condition"@, c.json())));
                },
                None => {
                    assert(view_members(object@) =~= head);
                },
            }
        }
        Ok(JsonValue::Object(object))
    }
}

impl Technique {
    /// The structured-data tree of the technique, or the fault of the
    /// first parameter, in the order of the calls, whose value holds a
    /// number that is not finite. Where `metadata` holds a source reference,
    /// the tree has the metadata object.
    pub fn to_json(&self, metadata: Option<&str>) -> (r: Result<JsonValue, Fault>)
        ensures
            match self@.to_json(view_source(metadata)) {
                Ok(tree) => r is Ok && r->Ok_0@ == tree,
                Err(f) => r == Err::<JsonValue, Fault>(f),
            },
    {
        let count = self.calls.len();
        let mut elements: Vec<JsonValue> = Vec::new();
        let mut i: usize = 0;
        while i < count
            invariant
                i <= count,
                count == self.calls@.len(),
                elements@.len() == i,
                self@.json_fault_within(i as int) is None,
                forall|j: int| 0 <= j < i ==> (#[trigger] elements@[j])@ == self.calls@[j]@.json(),
            decreases count - i,
        {
            assert(self@.calls[i as int] == self.calls@[i as int]@);
            match self.calls[i].to_json(i) {
                Ok(tree) => {
                    elements.push(tree);
                },
                Err(f) => {
                    proof {
                        lemma_json_fault_stays(self@, i + 1, count as int);
                    }
                    return Err(f);
                },
            }
            i += 1;
        }
        proof {
            lemma_view_elements(elements@);
            assert(view_elements(elements@) =~= self@.json_calls());
        }
        let version = self.version.to_text();
        let mut object: Vec<(String, JsonValue)> = Vec::new();
        object.push((String::from_str("id"), JsonValue::String(self.id.clone())));
        object.push((String::from_str("version"), JsonValue::String(version)));
        object.push((String::from_str("calls"), JsonValue::Array(elements)));
        proof {
            lemma_view_members(object@);
            assert(view_members(object@) =~= self@.json_members());
        }
        match metadata {
            Some(source) => {
                let mut fields: Vec<(String, JsonValue)> = Vec::new();
                fields.push(
                    (String::from_str("source"), JsonValue::String(String::from_str(source))),
                );
                fields.push((String::from_str("name"), JsonValue::String(self.name.clone())));
                fields.push(
                    (String::from_str("version"), JsonValue::String(self.version.to_text())),
                );
                proof {
                    lemma_view_members(fields@);
                    assert(JsonValue::Object(fields)@ == self@.json_metadata(source@)) by {
                        assert(view_members(fields@) =~= seq![
                            ("source"@, JsonView::String(source@)),
                            ("name"@, JsonView::String(self@.name)),
                            ("version"@, JsonView::String(self@.version.text())),
                        ]);
                    }
                }
                let ghost before = object@;
                object.push((String::from_str("metadata"), JsonValue::Object(fields)));
                proof {
                    lemma_view_members(before);
                    lemma_view_members(object@);
                    assert(view_members(object@) =~= self@.json_members().push(
                        ("metadata"@, self@.json_metadata(source@)),
                    ));
                }
            },
            None => {},
        }
        Ok(JsonValue::Object(object))
    }
}

/// No fault is found among the first `n` parameters exactly when the
/// values of all of them are finite.
pub proof fn lemma_call_json_fault_none(call: MethodCallView, index: usize, n: int)
    requires
        0 <= n,
    ensures
        call.json_fault_within(index, n) is None <==> forall|k: int|
            0 <= k < n ==> (#[trigger] call.parameters[k]).value.finite(),
        call.json_fault_within(index, n) matches Some(f) ==> f is Unrepresentable,
    decreases n,
{
    if n > 0 {
        lemma_call_json_fault_none(call, index, n - 1);
        if call.json_fault_within(index, n) is Some && call.json_fault_within(
            index,
            n - 1,
        ) is None {
            assert(!call.parameters[n - 1].value.finite());
        }
    }
}

/// A technique has a structured-data tree exactly when the value of every
/// parameter of every method call is finite; the fault is otherwise that of a
/// value that cannot be represented.
pub proof fn lemma_json_fault_none(model: TechniqueView, n: int)
    requires
        0 <= n,
    ensures
        model.json_fault_within(n) is None <==> forall|i: int, k: int|
            0 <= i < n && 0 <= k < model.calls[i].parameters.len() ==> (
            #[trigger] model.calls[i].parameters[k]).value.finite(),
        model.json_fault_within(n) matches Some(f) ==> f is Unrepresentable,
    decreases n,
{
    if n > 0 {
        lemma_json_fault_none(model, n - 1);
        let last = model.calls[n - 1];
        lemma_call_json_fault_none(last, (n - 1) as usize, last.parameters.len() as int);
        if model.json_fault_within(n) is None {
            assert forall|i: int, k: int|
                0 <= i < n && 0 <= k < model.calls[i].parameters.len() implies (
            #[trigger] model.calls[i].parameters[k]).value.finite() by {
                if i == n - 1 {
                    assert(last.parameters[k].value.finite());
                }
            }
        } else if model.json_fault_within(n - 1) is None {
            let k = choose|k: int|
                0 <= k < last.parameters.len() && !(#[trigger] last.parameters[k]).value.finite();
            assert(!model.calls[n - 1].parameters[k].value.finite());
        }
    }
}

/// The array of calls in the tree of a technique has one element for each
/// method call, in the order of the model: element `i` is the tree of method
/// call `i` and names its method first.
pub proof fn lemma_json_keeps_order(model: TechniqueView, metadata: Option<Seq<char>>, i: int)
    requires
        0 <= i < model.calls.len(),
    ensures
        model.json(metadata) is Object,
        model.json(metadata)->Object_0[2] == ("calls"@, JsonView::Array(model.json_calls())),
        model.json_calls().len() == model.calls.len(),
        model.json_calls()[i] == model.calls[i].json(),
        model.json_calls()[i] is Object,
        model.json_calls()[i]->Object_0[0] == ("method"@, JsonView::String(model.calls[i].method)),
{
}

/// The parameter object of a method call has one member for each
/// parameter, in the order of the parameters, and in a well-formed method
/// call no two members share a name.
pub proof fn lemma_json_parameters(call: MethodCallView)
    ensures
        call.json_parameters().len() == call.parameters.len(),
        forall|k: int|
            0 <= k < call.parameters.len() ==> (#[trigger] call.json_parameters()[k]) == (
                call.parameters[k].name,
                call.parameters[k].value.json(),
            ),
        call.well_formed() ==> forall|j: int, k: int|
            0 <= j < k < call.parameters.len() ==> (#[trigger] call.json_parameters()[j]).0 != (
            #[trigger] call.json_parameters()[k]).0,
{
    if call.well_formed() {
        assert forall|j: int, k: int| 0 <= j < k < call.parameters.len() implies (
        #[trigger] call.json_parameters()[j]).0 != (#[trigger] call.json_parameters()[k]).0 by {
            assert(call.parameters[j].name != call.parameters[k].name);
        }
    }
}

/// A technique without a method call has a tree, whose array of calls is
/// empty, and the text of the tree is the object of its identity, its
/// version and an empty array.
pub proof fn lemma_empty_technique(model: TechniqueView)
    requires
        model.calls.len() == 0,
    ensures
        model.to_json(None) == Ok::<JsonView, Fault>(
            JsonView::Object(
                seq![
                    ("id"@, JsonView::String(model.id)),
                    ("version"@, JsonView::String(model.version.text())),
                    ("calls"@, JsonView::Array(Seq::empty())),
                ],
            ),
        ),
        model.json(None).render() == seq!['{'] + quoted("id"@) + seq![':'] + quoted(model.id)
            + seq![','] + quoted("version"@) + seq![':'] + quoted(model.version.text()) + seq![
            ',',
        ] + quoted("calls"@) + seq![':', '[', ']', '}'],
{
    assert(model.json_calls() =~= Seq::<JsonView>::empty());
    let members = model.json_members();
    let calls = JsonView::Array(Seq::empty());
    assert(calls.render() =~= seq!['[', ']']) by {
        assert(JsonView::render_elements(Seq::<JsonView>::empty()) =~= Seq::<char>::empty());
    }
    let one = members.drop_last().drop_last();
    let two = members.drop_last();
    assert(one =~= seq![("id"@, JsonView::String(model.id))]);
    assert(two =~= seq![
        ("id"@, JsonView::String(model.id)),
        ("version"@, JsonView::String(model.version.text())),
    ]);
    assert(two.drop_last() =~= one);
    assert(JsonView::String(model.id).render() == quoted(model.id));
    assert(JsonView::String(model.version.text()).render() == quoted(model.version.text()));
    assert(one.len() == 1 && one.last() == ("id"@, JsonView::String(model.id)));
    assert(two.len() == 2 && two.last() == ("version"@, JsonView::String(model.version.text())));
    assert(members.len() == 3 && members.last() == ("calls"@, calls));
    assert(JsonView::render_members(one) == quoted("id"@) + seq![':'] + quoted(model.id));
    assert(JsonView::render_members(two) == JsonView::render_members(one) + seq![','] + quoted(
        "version"@,
    ) + seq![':'] + quoted(model.version.text()));
    assert(JsonView::render_members(members) == JsonView::render_members(two) + seq![',']
        + quoted("calls"@) + seq![':'] + calls.render());
    assert(model.json(None).render() =~= seq!['{'] + quoted("id"@) + seq![':'] + quoted(model.id)
        + seq![','] + quoted("version"@) + seq![':'] + quoted(model.version.text()) + seq![',']
        + quoted("calls"@) + seq![':', '[', ']', '}']);
}

} // verus!
