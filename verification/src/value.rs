//! The dynamic value tree that the codec reads and produces: the
//! JSON-shaped model of nulls, booleans, integers, text, arrays and
//! keyed objects. Numbers carry an `i128`, wide enough for every
//! integer a JSON document can hold; integers beyond that range travel
//! as decimal strings.

use vstd::prelude::*;

use crate::text::string_eq_str;

verus! {

/// A dynamic value.
#[derive(Debug, PartialEq)]
pub enum ToolboxIdlValue {
    Null,
    Bool(bool),
    Number(i128),
    String(String),
    Array(Vec<ToolboxIdlValue>),
    Object(Vec<(String, ToolboxIdlValue)>),
}

/// The mathematical model of a dynamic value.
pub enum ToolboxIdlValueView {
    Null,
    Bool(bool),
    Number(int),
    String(Seq<char>),
    Array(Seq<ToolboxIdlValueView>),
    Object(Seq<(Seq<char>, ToolboxIdlValueView)>),
}

/// The model of an exec value.
pub open spec fn spec_value_view(v: ToolboxIdlValue) -> ToolboxIdlValueView
    decreases v,
{
    match v {
        ToolboxIdlValue::Null => ToolboxIdlValueView::Null,
        ToolboxIdlValue::Bool(b) => ToolboxIdlValueView::Bool(b),
        ToolboxIdlValue::Number(n) => ToolboxIdlValueView::Number(n as int),
        ToolboxIdlValue::String(s) => ToolboxIdlValueView::String(s@),
        ToolboxIdlValue::Array(items) => ToolboxIdlValueView::Array(
            spec_value_seq_view(items@),
        ),
        ToolboxIdlValue::Object(entries) => ToolboxIdlValueView::Object(
            spec_value_entries_view(entries@),
        ),
    }
}

/// The models of a sequence of exec values.
pub open spec fn spec_value_seq_view(vs: Seq<ToolboxIdlValue>) -> Seq<ToolboxIdlValueView>
    decreases vs,
{
    if vs.len() == 0 {
        Seq::empty()
    } else {
        spec_value_seq_view(vs.subrange(0, vs.len() - 1)).push(spec_value_view(vs[vs.len() - 1]))
    }
}

/// The models of a sequence of exec object entries.
pub open spec fn spec_value_entries_view(es: Seq<(String, ToolboxIdlValue)>) -> Seq<
    (Seq<char>, ToolboxIdlValueView),
>
    decreases es,
{
    if es.len() == 0 {
        Seq::empty()
    } else {
        spec_value_entries_view(es.subrange(0, es.len() - 1)).push(
            (es[es.len() - 1].0@, spec_value_view(es[es.len() - 1].1)),
        )
    }
}

/// Element-wise reading of the item models.
pub proof fn lemma_value_seq_view(vs: Seq<ToolboxIdlValue>)
    ensures
        spec_value_seq_view(vs).len() == vs.len(),
        forall|i: int|
            0 <= i < vs.len() ==> #[trigger] spec_value_seq_view(vs)[i] == spec_value_view(vs[i]),
    decreases vs,
{
    if vs.len() > 0 {
        lemma_value_seq_view(vs.subrange(0, vs.len() - 1));
    }
}

/// Element-wise reading of the entry models.
pub proof fn lemma_value_entries_view(es: Seq<(String, ToolboxIdlValue)>)
    ensures
        spec_value_entries_view(es).len() == es.len(),
        forall|i: int|
            0 <= i < es.len() ==> #[trigger] spec_value_entries_view(es)[i]
                == (es[i].0@, spec_value_view(es[i].1)),
    decreases es,
{
    if es.len() > 0 {
        lemma_value_entries_view(es.subrange(0, es.len() - 1));
    }
}

impl View for ToolboxIdlValue {
    type V = ToolboxIdlValueView;

    open spec fn view(&self) -> ToolboxIdlValueView {
        spec_value_view(*self)
    }
}

impl Clone for ToolboxIdlValue {
    fn clone(&self) -> (r: Self)
        ensures
            r@ == self@,
        decreases self,
    {
        match self {
            ToolboxIdlValue::Null => ToolboxIdlValue::Null,
            ToolboxIdlValue::Bool(b) => ToolboxIdlValue::Bool(*b),
            ToolboxIdlValue::Number(n) => ToolboxIdlValue::Number(*n),
            ToolboxIdlValue::String(s) => ToolboxIdlValue::String(s.clone()),
            ToolboxIdlValue::Array(items) => {
                let mut cloned_items: Vec<ToolboxIdlValue> = Vec::new();
                let mut i: usize = 0;
                while i < items.len()
                    invariant
                        0 <= i <= items@.len(),
                        self is Array,
                        items == self->Array_0,
                        cloned_items@.len() == i,
                        forall|k: int| #![trigger cloned_items@[k]]
                            0 <= k < i ==> cloned_items@[k]@ == items@[k]@,
                    decreases items@.len() - i,
                {
                    proof {
                        assert(decreases_to!(*self => self->Array_0));
                        assert(decreases_to!(self->Array_0 => self->Array_0@));
                        assert(decreases_to!(self->Array_0@ => self->Array_0@[i as int]));
                    }
                    cloned_items.push(items[i].clone());
                    i += 1;
                }
                let r = ToolboxIdlValue::Array(cloned_items);
                proof {
                    lemma_value_seq_view(cloned_items@);
                    lemma_value_seq_view(items@);
                    assert(spec_value_seq_view(cloned_items@) =~= spec_value_seq_view(items@));
                }
                r
            },
            ToolboxIdlValue::Object(entries) => {
                let mut cloned_entries: Vec<(String, ToolboxIdlValue)> = Vec::new();
                let mut i: usize = 0;
                while i < entries.len()
                    invariant
                        0 <= i <= entries@.len(),
                        self is Object,
                        entries == self->Object_0,
                        cloned_entries@.len() == i,
                        forall|k: int| #![trigger cloned_entries@[k]]
                            0 <= k < i ==> cloned_entries@[k].0@ == entries@[k].0@
                                && cloned_entries@[k].1@ == entries@[k].1@,
                    decreases entries@.len() - i,
                {
                    proof {
                        assert(decreases_to!(*self => self->Object_0));
                        assert(decreases_to!(self->Object_0 => self->Object_0@));
                        assert(decreases_to!(self->Object_0@ => self->Object_0@[i as int]));
                        assert(decreases_to!(self->Object_0@[i as int] => self->Object_0@[
                            i as int
                        ].1));
                    }
                    let entry = &entries[i];
                    cloned_entries.push((entry.0.clone(), entry.1.clone()));
                    i += 1;
                }
                let r = ToolboxIdlValue::Object(cloned_entries);
                proof {
                    lemma_value_entries_view(cloned_entries@);
                    lemma_value_entries_view(entries@);
                    assert(spec_value_entries_view(cloned_entries@) =~= spec_value_entries_view(
                        entries@,
                    ));
                }
                r
            },
        }
    }
}

/// The value of the first entry named `key`, if any.
pub open spec fn spec_object_get(
    entries: Seq<(Seq<char>, ToolboxIdlValueView)>,
    key: Seq<char>,
) -> Option<ToolboxIdlValueView>
    decreases entries.len(),
{
    if entries.len() == 0 {
        None
    } else if entries[0].0 == key {
        Some(entries[0].1)
    } else {
        spec_object_get(entries.skip(1), key)
    }
}

/// The value of the first entry named `key` in an object's entry list.
pub fn object_get<'a>(entries: &'a Vec<(String, ToolboxIdlValue)>, key: &str) -> (r: Option<
    &'a ToolboxIdlValue,
>)
    ensures
        match r {
            Some(v) => spec_object_get(spec_value_entries_view(entries@), key@) == Some(v@),
            None => spec_object_get(spec_value_entries_view(entries@), key@) is None,
        },
{
    let ghost entries_view = spec_value_entries_view(entries@);
    proof {
        lemma_value_entries_view(entries@);
        assert(entries_view.skip(0int) =~= entries_view);
    }
    let mut i: usize = 0;
    while i < entries.len()
        invariant
            0 <= i <= entries@.len(),
            entries_view == spec_value_entries_view(entries@),
            entries_view.len() == entries@.len(),
            forall|j: int|
                0 <= j < entries@.len() ==> #[trigger] entries_view[j]
                    == (entries@[j].0@, entries@[j].1@),
            spec_object_get(entries_view.skip(i as int), key@)
                == spec_object_get(entries_view, key@),
        decreases entries@.len() - i,
    {
        proof {
            assert(entries_view.skip(i as int)[0] == entries_view[i as int]);
            assert(entries_view.skip(i as int).skip(1) =~= entries_view.skip(i + 1));
        }
        if string_eq_str(&entries[i].0, key) {
            return Some(&entries[i].1);
        }
        i += 1;
    }
    proof {
        assert(entries_view.skip(entries_view.len() as int)
            =~= Seq::<(Seq<char>, ToolboxIdlValueView)>::empty());
    }
    None
}

/// A value found in an object is structurally below the entry list,
/// so recursion through an object lookup shrinks.
pub proof fn lemma_object_get_smaller(
    entries: Seq<(Seq<char>, ToolboxIdlValueView)>,
    key: Seq<char>,
)
    requires
        spec_object_get(entries, key) is Some,
    ensures
        decreases_to!(entries => spec_object_get(entries, key).unwrap()),
    decreases entries.len(),
{
    if entries[0].0 == key {
        assert(decreases_to!(entries => entries[0]));
        assert(decreases_to!(entries[0] => entries[0].1));
    } else {
        lemma_object_get_smaller(entries.skip(1), key);
        assert(decreases_to!(entries => entries.skip(1)));
    }
}

} // verus!
