//! The structured-data tree that the JSON backend builds, and its text.

use crate::text::{decimal, push_decimal, push_quoted, quoted};
use vstd::prelude::*;

verus! {

/// A number that JSON text can hold. A decimal stands for
/// `mantissa * 10^exponent`.
#[derive(Clone, Copy, Debug, PartialEq, Eq, Structural)]
pub enum JsonNumber {
    Integer(i64),
    Decimal { mantissa: i64, exponent: i32 },
}

impl JsonNumber {
    /// The text of the number: an integer in decimal, a decimal as its
    /// mantissa, the letter `e` and its exponent.
    pub open spec fn render(self) -> Seq<char> {
        match self {
            JsonNumber::Integer(i) => decimal(i as int),
            JsonNumber::Decimal { mantissa, exponent } => decimal(mantissa as int) + seq!['e']
                + decimal(exponent as int),
        }
    }

    /// Appends the text of the number to `out`.
    pub fn write(&self, out: &mut String)
        ensures
            final(out)@ == old(out)@ + self.render(),
    {
        match self {
            JsonNumber::Integer(i) => {
                push_decimal(out, *i);
            },
            JsonNumber::Decimal { mantissa, exponent } => {
                push_decimal(out, *mantissa);
                out.push('e');
                push_decimal(out, *exponent as i64);
                assert(out@ =~= old(out)@ + self.render());
            },
        }
    }
}

/// A tree of structured data. The fields of an object keep the order in
/// which they were added.
#[derive(Debug, PartialEq, Eq)]
pub enum JsonValue {
    Null,
    Bool(bool),
    Number(JsonNumber),
    String(String),
    Array(Vec<JsonValue>),
    Object(Vec<(String, JsonValue)>),
}

/// The mathematical model of a [`JsonValue`].
pub enum JsonView {
    Null,
    Bool(bool),
    Number(JsonNumber),
    String(Seq<char>),
    Array(Seq<JsonView>),
    Object(Seq<(Seq<char>, JsonView)>),
}

/// The models of a sequence of trees, in order.
pub open spec fn view_elements(items: Seq<JsonValue>) -> Seq<JsonView>
    decreases items, 0nat,
{
    if items.len() == 0 {
        Seq::empty()
    } else {
        view_elements(items.drop_last()).push(view_json(items.last()))
    }
}

/// The models of a sequence of named trees, in order.
pub open spec fn view_members(fields: Seq<(String, JsonValue)>) -> Seq<(Seq<char>, JsonView)>
    decreases fields, 0nat,
{
    if fields.len() == 0 {
        Seq::empty()
    } else {
        view_members(fields.drop_last()).push((fields.last().0@, view_json(fields.last().1)))
    }
}

/// The model of one tree.
pub open spec fn view_json(v: JsonValue) -> JsonView
    decreases v, 1nat,
{
    match v {
        JsonValue::Null => JsonView::Null,
        JsonValue::Bool(b) => JsonView::Bool(b),
        JsonValue::Number(n) => JsonView::Number(n),
        JsonValue::String(s) => JsonView::String(s@),
        JsonValue::Array(items) => JsonView::Array(view_elements(items@)),
        JsonValue::Object(fields) => JsonView::Object(view_members(fields@)),
    }
}

impl View for JsonValue {
    type V = JsonView;

    open spec fn view(&self) -> JsonView {
        view_json(*self)
    }
}

/// The model of an array has one entry per element, the model of that
/// element.
pub proof fn lemma_view_elements(items: Seq<JsonValue>)
    ensures
        view_elements(items).len() == items.len(),
        forall|i: int| 0 <= i < items.len() ==> (#[trigger] view_elements(items)[i]) == items[i]@,
    decreases items.len(),
{
    if items.len() > 0 {
        lemma_view_elements(items.drop_last());
    }
}

/// The model of an object has one entry per member: its name and the model
/// of its value.
pub proof fn lemma_view_members(fields: Seq<(String, JsonValue)>)
    ensures
        view_members(fields).len() == fields.len(),
        forall|i: int|
            0 <= i < fields.len() ==> (#[trigger] view_members(fields)[i]) == (
                fields[i].0@,
                fields[i].1@,
            ),
    decreases fields.len(),
{
    if fields.len() > 0 {
        lemma_view_members(fields.drop_last());
    }
}

impl JsonView {
    /// The compact text of the tree: no space between tokens, the elements
    /// of an array and the members of an object in their order, separated by
    /// commas.
    pub open spec fn render(self) -> Seq<char>
        decreases self, 1nat,
    {
        match self {
            JsonView::Null => seq!['n', 'u', 'l', 'l'],
            JsonView::Bool(b) => if b {
                seq!['t', 'r', 'u', 'e']
            } else {
                seq!['f', 'a', 'l', 's', 'e']
            },
            JsonView::Number(n) => n.render(),
            JsonView::String(s) => quoted(s),
            JsonView::Array(items) => seq!['['] + Self::render_elements(items) + seq![']'],
            JsonView::Object(fields) => seq!['{'] + Self::render_members(fields) + seq!['}'],
        }
    }

    /// The texts of the elements, a comma between each two.
    pub open spec fn render_elements(items: Seq<JsonView>) -> Seq<char>
        decreases items, 0nat,
    {
        if items.len() == 0 {
            Seq::empty()
        } else if items.len() == 1 {
            items.last().render()
        } else {
            Self::render_elements(items.drop_last()) + seq![','] + items.last().render()
        }
    }

    /// The texts of the members, a comma between each two. A member is its
    /// quoted name, a colon and the text of its value.
    pub open spec fn render_members(fields: Seq<(Seq<char>, JsonView)>) -> Seq<char>
        decreases fields, 0nat,
    {
        if fields.len() == 0 {
            Seq::empty()
        } else if fields.len() == 1 {
            quoted(fields.last().0) + seq![':'] + fields.last().1.render()
        } else {
            Self::render_members(fields.drop_last()) + seq![','] + quoted(fields.last().0) + seq![
                ':',
            ] + fields.last().1.render()
        }
    }
}

impl JsonValue {
    /// Appends the compact text of the tree to `out`.
    pub fn write(&self, out: &mut String)
        ensures
            final(out)@ == old(out)@ + self@.render(),
        decreases *self,
    {
        let ghost before = out@;
        match self {
            JsonValue::Null => {
                out.push('n');
                out.push('u');
                out.push('l');
                out.push('l');
                assert(out@ =~= before + self@.render());
            },
            JsonValue::Bool(b) => {
                if *b {
                    out.push('t');
                    out.push('r');
                    out.push('u');
                    out.push('e');
                } else {
                    out.push('f');
                    out.push('a');
                    out.push('l');
                    out.push('s');
                    out.push('e');
                }
                assert(out@ =~= before + self@.render());
            },
            JsonValue::Number(n) => {
                n.write(out);
            },
            JsonValue::String(s) => {
                push_quoted(out, s.as_str());
            },
            JsonValue::Array(items) => {
                out.push('[');
                let ghost models = view_elements(items@);
                proof {
                    lemma_view_elements(items@);
                }
                let mut i: usize = 0;
                while i < items.len()
                    invariant
                        i <= items.len(),
                        *items == self->Array_0,
                        self is Array,
                        models == view_elements(items@),
                        out@ == before + seq!['['] + JsonView::render_elements(
                            models.take(i as int),
                        ),
                    decreases items.len() - i,
                {
                    assert(decreases_to!(*self => self->Array_0));
                    proof {
                        lemma_view_elements(items@);
                        assert(models.take(i as int + 1).drop_last() =~= models.take(i as int));
                        assert(models.take(i as int + 1).last() == items@[i as int]@);
                    }
                    let ghost mid = out@;
                    if i > 0 {
                        out.push(',');
                    }
                    items[i].write(out);
                    proof {
                        let piece = items@[i as int]@.render();
                        if i > 0 {
                            assert(out@ =~= mid + seq![','] + piece);
                            assert(out@ =~= before + seq!['['] + (JsonView::render_elements(
                                models.take(i as int),
                            ) + seq![','] + piece));
                        } else {
                            assert(JsonView::render_elements(models.take(0)) =~= Seq::<
                                char,
                            >::empty());
                            assert(out@ =~= before + seq!['['] + piece);
                        }
                    }
                    i += 1;
                }
                out.push(']');
                proof {
                    lemma_view_elements(items@);
                    assert(models.take(i as int) =~= models);
                    assert(out@ =~= before + self@.render());
                }
            },
            JsonValue::Object(fields) => {
                out.push('{');
                let ghost models = view_members(fields@);
                proof {
                    lemma_view_members(fields@);
                }
                let mut i: usize = 0;
                while i < fields.len()
                    invariant
                        i <= fields.len(),
                        *fields == self->Object_0,
                        self is Object,
                        models == view_members(fields@),
                        out@ == before + seq!['{'] + JsonView::render_members(
                            models.take(i as int),
                        ),
                    decreases fields.len() - i,
                {
                    assert(decreases_to!(*self => self->Object_0));
                    assert(decreases_to!(fields@[i as int] => fields@[i as int].1));
                    proof {
                        lemma_view_members(fields@);
                        assert(models.take(i as int + 1).drop_last() =~= models.take(i as int));
                        assert(models.take(i as int + 1).last() == (
                            fields@[i as int].0@,
                            fields@[i as int].1@,
                        ));
                    }
                    let ghost mid = out@;
                    if i > 0 {
                        out.push(',');
                    }
                    push_quoted(out, fields[i].0.as_str());
                    out.push(':');
                    fields[i].1.write(out);
                    proof {
                        let piece = quoted(fields@[i as int].0@) + seq![':']
                            + fields@[i as int].1@.render();
                        if i > 0 {
                            assert(out@ =~= mid + seq![','] + piece);
                            assert(out@ =~= before + seq!['{'] + (JsonView::render_members(
                                models.take(i as int),
                            ) + seq![','] + quoted(fields@[i as int].0@) + seq![':']
                                + fields@[i as int].1@.render()));
                        } else {
                            assert(JsonView::render_members(models.take(0)) =~= Seq::<
                                char,
                            >::empty());
                            assert(out@ =~= before + seq!['{'] + piece);
                        }
                    }
                    i += 1;
                }
                out.push('}');
                proof {
                    lemma_view_members(fields@);
                    assert(models.take(i as int) =~= models);
                    assert(out@ =~= before + self@.render());
                }
            },
        }
    }

    /// The compact text of the tree.
    pub fn to_text(&self) -> (text: String)
        ensures
            text@ == self@.render(),
    {
        let mut text = String::new();
        self.write(&mut text);
        assert(text@ =~= self@.render());
        text
    }
}

} // verus!
