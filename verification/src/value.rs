//! Parameter values: scalars and nested structured values.

use crate::json_value::{
    lemma_view_elements, lemma_view_members, view_elements, view_members, JsonNumber, JsonValue,
    JsonView,
};
use vstd::prelude::*;

verus! {

/// A number as a parameter holds it. A decimal stands for
/// `mantissa * 10^exponent`; the last three variants are the numbers that are
/// not finite.
#[derive(Clone, Copy, Debug, PartialEq, Eq, Structural)]
pub enum Number {
    Integer(i64),
    Decimal { mantissa: i64, exponent: i32 },
    NotANumber,
    PositiveInfinity,
    NegativeInfinity,
}

impl Number {
    /// Whether the number is an integer or a decimal.
    pub open spec fn finite(self) -> bool {
        self is Integer || self is Decimal
    }

    /// The JSON number that a finite number becomes.
    pub open spec fn json(self) -> JsonView {
        match self {
            Number::Integer(i) => JsonView::Number(JsonNumber::Integer(i)),
            Number::Decimal { mantissa, exponent } => JsonView::Number(
                JsonNumber::Decimal { mantissa, exponent },
            ),
            _ => JsonView::Null,
        }
    }

    /// Whether the number is an integer or a decimal.
    pub fn is_finite(&self) -> (r: bool)
        ensures
            r == self.finite(),
    {
        match self {
            Number::Integer(_) => true,
            Number::Decimal { .. } => true,
            _ => false,
        }
    }

    /// The JSON number for a finite number, nothing for another.
    pub fn to_json(&self) -> (r: Option<JsonValue>)
        ensures
            r is Some <==> self.finite(),
            r matches Some(j) ==> j@ == self.json(),
    {
        match self {
            Number::Integer(i) => Some(JsonValue::Number(JsonNumber::Integer(*i))),
            Number::Decimal { mantissa, exponent } => Some(
                JsonValue::Number(JsonNumber::Decimal { mantissa: *mantissa, exponent: *exponent }),
            ),
            _ => None,
        }
    }
}

/// A parameter value: a scalar, a list of values, or a record of named
/// values in the order in which they were written.
#[derive(Debug, PartialEq, Eq)]
pub enum Value {
    Null,
    Bool(bool),
    Number(Number),
    Text(String),
    List(Vec<Value>),
    Record(Vec<(String, Value)>),
}

/// The mathematical model of a [`Value`].
pub enum ValueView {
    Null,
    Bool(bool),
    Number(Number),
    Text(Seq<char>),
    List(Seq<ValueView>),
    Record(Seq<(Seq<char>, ValueView)>),
}

/// The models of a sequence of values, in order.
pub open spec fn view_items(items: Seq<Value>) -> Seq<ValueView>
    decreases items, 0nat,
{
    if items.len() == 0 {
        Seq::empty()
    } else {
        view_items(items.drop_last()).push(view_value(items.last()))
    }
}

/// The models of a sequence of named values, in order.
pub open spec fn view_fields(fields: Seq<(String, Value)>) -> Seq<(Seq<char>, ValueView)>
    decreases fields, 0nat,
{
    if fields.len() == 0 {
        Seq::empty()
    } else {
        view_fields(fields.drop_last()).push((fields.last().0@, view_value(fields.last().1)))
    }
}

/// The model of one value.
pub open spec fn view_value(v: Value) -> ValueView
    decreases v, 1nat,
{
    match v {
        Value::Null => ValueView::Null,
        Value::Bool(b) => ValueView::Bool(b),
        Value::Number(n) => ValueView::Number(n),
        Value::Text(s) => ValueView::Text(s@),
        Value::List(items) => ValueView::List(view_items(items@)),
        Value::Record(fields) => ValueView::Record(view_fields(fields@)),
    }
}

impl View for Value {
    type V = ValueView;

    open spec fn view(&self) -> ValueView {
        view_value(*self)
    }
}

/// The model of a list has one entry per item, the model of that item.
pub proof fn lemma_view_items(items: Seq<Value>)
    ensures
        view_items(items).len() == items.len(),
        forall|i: int| 0 <= i < items.len() ==> (#[trigger] view_items(items)[i]) == items[i]@,
    decreases items.len(),
{
    if items.len() > 0 {
        lemma_view_items(items.drop_last());
    }
}

/// The model of a record has one entry per field: its name and the model of
/// its value.
pub proof fn lemma_view_fields(fields: Seq<(String, Value)>)
    ensures
        view_fields(fields).len() == fields.len(),
        forall|i: int|
            0 <= i < fields.len() ==> (#[trigger] view_fields(fields)[i]) == (
                fields[i].0@,
                fields[i].1@,
            ),
    decreases fields.len(),
{
    if fields.len() > 0 {
        lemma_view_fields(fields.drop_last());
    }
}

impl ValueView {
    /// How deeply lists and records are nested in the value: 0 for a
    /// scalar, one more than its deepest entry for a list or record.
    pub open spec fn depth(self) -> nat
        decreases self, 1nat,
    {
        match self {
            ValueView::List(items) => 1 + Self::depth_of_items(items),
            ValueView::Record(fields) => 1 + Self::depth_of_fields(fields),
            _ => 0,
        }
    }

    /// The greatest depth among the items, 0 where there is none.
    pub open spec fn depth_of_items(items: Seq<ValueView>) -> nat
        decreases items, 0nat,
    {
        if items.len() == 0 {
            0
        } else {
            let rest = Self::depth_of_items(items.drop_last());
            let last = items.last().depth();
            if last > rest {
                last
            } else {
                rest
            }
        }
    }

    /// The greatest depth among the fields' values, 0 where there is none.
    pub open spec fn depth_of_fields(fields: Seq<(Seq<char>, ValueView)>) -> nat
        decreases fields, 0nat,
    {
        if fields.len() == 0 {
            0
        } else {
            let rest = Self::depth_of_fields(fields.drop_last());
            let last = fields.last().1.depth();
            if last > rest {
                last
            } else {
                rest
            }
        }
    }

    /// Whether every number in the value, at any depth, is finite.
    pub open spec fn finite(self) -> bool
        decreases self, 1nat,
    {
        match self {
            ValueView::Number(n) => n.finite(),
            ValueView::List(items) => Self::items_finite(items),
            ValueView::Record(fields) => Self::fields_finite(fields),
            _ => true,
        }
    }

    /// The structured-data tree of a finite value: scalars as they are, a
    /// list as an array, a record as an object with its fields in order.
    pub open spec fn json(self) -> JsonView
        decreases self, 1nat,
    {
        match self {
            ValueView::Null => JsonView::Null,
            ValueView::Bool(b) => JsonView::Bool(b),
            ValueView::Number(n) => n.json(),
            ValueView::Text(s) => JsonView::String(s),
            ValueView::List(items) => JsonView::Array(Self::json_of_items(items)),
            ValueView::Record(fields) => JsonView::Object(Self::json_of_fields(fields)),
        }
    }

    /// The trees of the items, in order.
    pub open spec fn json_of_items(items: Seq<ValueView>) -> Seq<JsonView>
        decreases items, 0nat,
    {
        if items.len() == 0 {
            Seq::empty()
        } else {
            Self::json_of_items(items.drop_last()).push(items.last().json())
        }
    }

    /// The names of the fields, each with the tree of its value, in order.
    pub open spec fn json_of_fields(fields: Seq<(Seq<char>, ValueView)>) -> Seq<
        (Seq<char>, JsonView),
    >
        decreases fields, 0nat,
    {
        if fields.len() == 0 {
            Seq::empty()
        } else {
            Self::json_of_fields(fields.drop_last()).push(
                (fields.last().0, fields.last().1.json()),
            )
        }
    }

    /// Whether every item is finite.
    pub open spec fn items_finite(items: Seq<ValueView>) -> bool
        decreases items, 0nat,
    {
        items.len() == 0 || (Self::items_finite(items.drop_last()) && items.last().finite())
    }

    /// Whether every field's value is finite.
    pub open spec fn fields_finite(fields: Seq<(Seq<char>, ValueView)>) -> bool
        decreases fields, 0nat,
    {
        fields.len() == 0 || (Self::fields_finite(fields.drop_last()) && fields.last().1.finite())
    }
}

/// The items are finite together exactly when each one is.
pub proof fn lemma_items_finite(items: Seq<ValueView>)
    ensures
        ValueView::items_finite(items) <==> forall|i: int|
            0 <= i < items.len() ==> (#[trigger] items[i]).finite(),
    decreases items.len(),
{
    if items.len() > 0 {
        let front = items.drop_last();
        lemma_items_finite(front);
        assert forall|i: int| 0 <= i < front.len() implies (#[trigger] front[i]) == items[i] by {}
        if ValueView::items_finite(items) {
            assert forall|i: int| 0 <= i < items.len() implies (#[trigger] items[i]).finite() by {
                if i < front.len() {
                    assert(front[i].finite());
                }
            }
        }
        if forall|i: int| 0 <= i < items.len() ==> (#[trigger] items[i]).finite() {
            assert forall|i: int| 0 <= i < front.len() implies (#[trigger] front[i]).finite() by {
                assert(items[i].finite());
            }
            assert(items.last() == items[items.len() - 1]);
        }
    }
}

/// The fields are finite together exactly when each field's value is.
pub proof fn lemma_fields_finite(fields: Seq<(Seq<char>, ValueView)>)
    ensures
        ValueView::fields_finite(fields) <==> forall|i: int|
            0 <= i < fields.len() ==> (#[trigger] fields[i]).1.finite(),
    decreases fields.len(),
{
    if fields.len() > 0 {
        let front = fields.drop_last();
        lemma_fields_finite(front);
        assert forall|i: int| 0 <= i < front.len() implies (#[trigger] front[i]) == fields[i] by {}
        if ValueView::fields_finite(fields) {
            assert forall|i: int| 0 <= i < fields.len() implies (
            #[trigger] fields[i]).1.finite() by {
                if i < front.len() {
                    assert(front[i].1.finite());
                }
            }
        }
        if forall|i: int| 0 <= i < fields.len() ==> (#[trigger] fields[i]).1.finite() {
            assert forall|i: int| 0 <= i < front.len() implies (#[trigger] front[i]).1.finite() by {
                assert(fields[i].1.finite());
            }
            assert(fields.last() == fields[fields.len() - 1]);
        }
    }
}

/// The depth of a sequence of items is within a bound exactly when the
/// depth of each item is.
pub proof fn lemma_depth_of_items(items: Seq<ValueView>, bound: nat)
    ensures
        ValueView::depth_of_items(items) <= bound <==> forall|i: int|
            0 <= i < items.len() ==> (#[trigger] items[i]).depth() <= bound,
    decreases items.len(),
{
    if items.len() > 0 {
        let front = items.drop_last();
        lemma_depth_of_items(front, bound);
        assert forall|i: int| 0 <= i < front.len() implies (#[trigger] front[i]) == items[i] by {}
        if ValueView::depth_of_items(items) <= bound {
            assert forall|i: int| 0 <= i < items.len() implies (#[trigger] items[i]).depth()
                <= bound by {
                if i < front.len() {
                    assert(front[i].depth() <= bound);
                }
            }
        }
        if forall|i: int| 0 <= i < items.len() ==> (#[trigger] items[i]).depth() <= bound {
            assert forall|i: int| 0 <= i < front.len() implies (#[trigger] front[i]).depth()
                <= bound by {
                assert(items[i].depth() <= bound);
            }
            assert(items.last() == items[items.len() - 1]);
        }
    }
}

/// The depth of a sequence of fields is within a bound exactly when the
/// depth of each field's value is.
pub proof fn lemma_depth_of_fields(fields: Seq<(Seq<char>, ValueView)>, bound: nat)
    ensures
        ValueView::depth_of_fields(fields) <= bound <==> forall|i: int|
            0 <= i < fields.len() ==> (#[trigger] fields[i]).1.depth() <= bound,
    decreases fields.len(),
{
    if fields.len() > 0 {
        let front = fields.drop_last();
        lemma_depth_of_fields(front, bound);
        assert forall|i: int| 0 <= i < front.len() implies (#[trigger] front[i]) == fields[i] by {}
        if ValueView::depth_of_fields(fields) <= bound {
            assert forall|i: int| 0 <= i < fields.len() implies (#[trigger] fields[i]).1.depth()
                <= bound by {
                if i < front.len() {
                    assert(front[i].1.depth() <= bound);
                }
            }
        }
        if forall|i: int| 0 <= i < fields.len() ==> (#[trigger] fields[i]).1.depth() <= bound {
            assert forall|i: int| 0 <= i < front.len() implies (#[trigger] front[i]).1.depth()
                <= bound by {
                assert(fields[i].1.depth() <= bound);
            }
            assert(fields.last() == fields[fields.len() - 1]);
        }
    }
}

/// The array of a list has one element per item, the tree of that item.
pub proof fn lemma_json_of_items(items: Seq<ValueView>)
    ensures
        ValueView::json_of_items(items).len() == items.len(),
        forall|i: int|
            0 <= i < items.len() ==> (#[trigger] ValueView::json_of_items(items)[i])
                == items[i].json(),
    decreases items.len(),
{
    if items.len() > 0 {
        lemma_json_of_items(items.drop_last());
    }
}

/// The object of a record has one member per field: its name and the tree
/// of its value.
pub proof fn lemma_json_of_fields(fields: Seq<(Seq<char>, ValueView)>)
    ensures
        ValueView::json_of_fields(fields).len() == fields.len(),
        forall|i: int|
            0 <= i < fields.len() ==> (#[trigger] ValueView::json_of_fields(fields)[i]) == (
                fields[i].0,
                fields[i].1.json(),
            ),
    decreases fields.len(),
{
    if fields.len() > 0 {
        lemma_json_of_fields(fields.drop_last());
    }
}

impl Value {
    /// The structured-data tree of the value where every number in it is
    /// finite, nothing where one is not.
    pub fn to_json(&self) -> (r: Option<JsonValue>)
        ensures
            r is Some <==> self@.finite(),
            r matches Some(j) ==> j@ == self@.json(),
        decreases *self,
    {
        match self {
            Value::Null => Some(JsonValue::Null),
            Value::Bool(b) => Some(JsonValue::Bool(*b)),
            Value::Number(n) => n.to_json(),
            Value::Text(s) => Some(JsonValue::String(s.clone())),
            Value::List(items) => {
                let mut elements: Vec<JsonValue> = Vec::new();
                let mut i: usize = 0;
                while i < items.len()
                    invariant
                        i <= items.len(),
                        *items == self->List_0,
                        self is List,
                        elements@.len() == i,
                        forall|j: int| 0 <= j < i ==> (#[trigger] items@[j])@.finite(),
                        forall|j: int|
                            0 <= j < i ==> (#[trigger] elements@[j])@ == items@[j]@.json(),
                    decreases items.len() - i,
                {
                    assert(decreases_to!(*self => self->List_0));
                    match items[i].to_json() {
                        Some(element) => {
                            elements.push(element);
                        },
                        None => {
                            proof {
                                lemma_view_items(items@);
                                lemma_items_finite(view_items(items@));
                                assert(!view_items(items@)[i as int].finite());
                            }
                            return None;
                        },
                    }
                    i += 1;
                }
                proof {
                    lemma_view_items(items@);
                    lemma_items_finite(view_items(items@));
                    lemma_json_of_items(view_items(items@));
                    lemma_view_elements(elements@);
                    assert(view_elements(elements@) =~= ValueView::json_of_items(
                        view_items(items@),
                    ));
                }
                Some(JsonValue::Array(elements))
            },
            Value::Record(fields) => {
                let mut members: Vec<(String, JsonValue)> = Vec::new();
                let mut i: usize = 0;
                while i < fields.len()
                    invariant
                        i <= fields.len(),
                        *fields == self->Record_0,
                        self is Record,
                        members@.len() == i,
                        forall|j: int| 0 <= j < i ==> (#[trigger] fields@[j]).1@.finite(),
                        forall|j: int|
                            0 <= j < i ==> (#[trigger] members@[j]).0@ == fields@[j].0@
                                && members@[j].1@ == fields@[j].1@.json(),
                    decreases fields.len() - i,
                {
                    assert(decreases_to!(*self => self->Record_0));
                    assert(decreases_to!(fields@[i as int] => fields@[i as int].1));
                    match fields[i].1.to_json() {
                        Some(member) => {
                            members.push((fields[i].0.clone(), member));
                        },
                        None => {
                            proof {
                                lemma_view_fields(fields@);
                                lemma_fields_finite(view_fields(fields@));
                                assert(!view_fields(fields@)[i as int].1.finite());
                            }
                            return None;
                        },
                    }
                    i += 1;
                }
                proof {
                    lemma_view_fields(fields@);
                    lemma_fields_finite(view_fields(fields@));
                    lemma_json_of_fields(view_fields(fields@));
                    lemma_view_members(members@);
                    assert(view_members(members@) =~= ValueView::json_of_fields(
                        view_fields(fields@),
                    ));
                }
                Some(JsonValue::Object(members))
            },
        }
    }

    /// Whether every number in the value, at any depth, is finite.
    pub fn is_finite(&self) -> (r: bool)
        ensures
            r == self@.finite(),
        decreases *self,
    {
        match self {
            Value::Number(n) => n.is_finite(),
            Value::List(items) => {
                proof {
                    lemma_view_items(items@);
                    lemma_items_finite(view_items(items@));
                }
                let mut i: usize = 0;
                while i < items.len()
                    invariant
                        i <= items.len(),
                        *items == self->List_0,
                        self is List,
                        forall|j: int| 0 <= j < i ==> (#[trigger] items@[j])@.finite(),
                    decreases items.len() - i,
                {
                    assert(decreases_to!(*self => self->List_0));
                    if !items[i].is_finite() {
                        proof {
                            lemma_view_items(items@);
                            lemma_items_finite(view_items(items@));
                            assert(!view_items(items@)[i as int].finite());
                        }
                        return false;
                    }
                    i += 1;
                }
                true
            },
            Value::Record(fields) => {
                proof {
                    lemma_view_fields(fields@);
                    lemma_fields_finite(view_fields(fields@));
                }
                let mut i: usize = 0;
                while i < fields.len()
                    invariant
                        i <= fields.len(),
                        *fields == self->Record_0,
                        self is Record,
                        forall|j: int| 0 <= j < i ==> (#[trigger] fields@[j]).1@.finite(),
                    decreases fields.len() - i,
                {
                    assert(decreases_to!(*self => self->Record_0));
                    assert(decreases_to!(fields@[i as int] => fields@[i as int].1));
                    if !fields[i].1.is_finite() {
                        proof {
                            lemma_view_fields(fields@);
                            lemma_fields_finite(view_fields(fields@));
                            assert(!view_fields(fields@)[i as int].1.finite());
                        }
                        return false;
                    }
                    i += 1;
                }
                true
            },
            _ => true,
        }
    }

    /// Whether lists and records are nested in the value no deeper than
    /// `limit`.
    pub fn within_depth(&self, limit: usize) -> (r: bool)
        ensures
            r == (self@.depth() <= limit),
        decreases *self,
    {
        match self {
            Value::List(items) => {
                if limit == 0 {
                    return false;
                }
                proof {
                    lemma_view_items(items@);
                    lemma_depth_of_items(view_items(items@), (limit - 1) as nat);
                }
                let mut i: usize = 0;
                while i < items.len()
                    invariant
                        i <= items.len(),
                        limit > 0,
                        *items == self->List_0,
                        self is List,
                        forall|j: int| 0 <= j < i ==> (#[trigger] items@[j])@.depth() <= limit - 1,
                    decreases items.len() - i,
                {
                    assert(decreases_to!(*self => self->List_0));
                    if !items[i].within_depth(limit - 1) {
                        proof {
                            lemma_view_items(items@);
                            lemma_depth_of_items(view_items(items@), (limit - 1) as nat);
                            assert(view_items(items@)[i as int].depth() > limit - 1);
                        }
                        return false;
                    }
                    i += 1;
                }
                true
            },
            Value::Record(fields) => {
                if limit == 0 {
                    return false;
                }
                proof {
                    lemma_view_fields(fields@);
                    lemma_depth_of_fields(view_fields(fields@), (limit - 1) as nat);
                }
                let mut i: usize = 0;
                while i < fields.len()
                    invariant
                        i <= fields.len(),
                        limit > 0,
                        *fields == self->Record_0,
                        self is Record,
                        forall|j: int|
                            0 <= j < i ==> (#[trigger] fields@[j]).1@.depth() <= limit - 1,
                    decreases fields.len() - i,
                {
                    assert(decreases_to!(*self => self->Record_0));
                    assert(decreases_to!(fields@[i as int] => fields@[i as int].1));
                    if !fields[i].1.within_depth(limit - 1) {
                        proof {
                            lemma_view_fields(fields@);
                            lemma_depth_of_fields(view_fields(fields@), (limit - 1) as nat);
                            assert(view_fields(fields@)[i as int].1.depth() > limit - 1);
                        }
                        return false;
                    }
                    i += 1;
                }
                true
            },
            _ => true,
        }
    }
}

impl Clone for Value {
    fn clone(&self) -> (r: Self)
        ensures
            r@ == self@,
        decreases *self,
    {
        match self {
            Value::Null => Value::Null,
            Value::Bool(b) => Value::Bool(*b),
            Value::Number(n) => Value::Number(*n),
            Value::Text(s) => Value::Text(s.clone()),
            Value::List(items) => {
                let mut copy: Vec<Value> = Vec::new();
                let mut i: usize = 0;
                while i < items.len()
                    invariant
                        i <= items.len(),
                        *items == self->List_0,
                        self is List,
                        copy@.len() == i,
                        forall|j: int| 0 <= j < i ==> (#[trigger] copy@[j])@ == items@[j]@,
                    decreases items.len() - i,
                {
                    assert(decreases_to!(*self => self->List_0));
                    let item = items[i].clone();
                    copy.push(item);
                    i += 1;
                }
                proof {
                    lemma_view_items(items@);
                    lemma_view_items(copy@);
                    assert(view_items(copy@) =~= view_items(items@));
                }
                Value::List(copy)
            },
            Value::Record(fields) => {
                let mut copy: Vec<(String, Value)> = Vec::new();
                let mut i: usize = 0;
                while i < fields.len()
                    invariant
                        i <= fields.len(),
                        *fields == self->Record_0,
                        self is Record,
                        copy@.len() == i,
                        forall|j: int|
                            0 <= j < i ==> (#[trigger] copy@[j]).0@ == fields@[j].0@ && copy@[j].1@
                                == fields@[j].1@,
                    decreases fields.len() - i,
                {
                    assert(decreases_to!(*self => self->Record_0));
                    assert(decreases_to!(fields@[i as int] => fields@[i as int].1));
                    let name = fields[i].0.clone();
                    let value = fields[i].1.clone();
                    copy.push((name, value));
                    i += 1;
                }
                proof {
                    lemma_view_fields(fields@);
                    lemma_view_fields(copy@);
                    assert(view_fields(copy@) =~= view_fields(fields@));
                }
                Value::Record(copy)
            },
        }
    }
}

} // verus!
