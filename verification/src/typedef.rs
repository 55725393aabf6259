//! A named, possibly generic type definition collected from an IDL
//! document.

use vstd::prelude::*;

use crate::type_flat::spec_type_flat_view;
use crate::type_flat::ToolboxIdlTypeFlat;
use crate::type_flat::ToolboxIdlTypeFlatView;

verus! {

/// A named type definition: its declared generic symbols, an optional
/// representation hint, an optional serialization-mode override, and
/// its unresolved body.
#[derive(Debug, PartialEq)]
pub struct ToolboxIdlTypedef {
    pub name: String,
    pub generics: Vec<String>,
    pub repr: Option<String>,
    pub serialization: Option<String>,
    pub type_flat: ToolboxIdlTypeFlat,
}

/// The mathematical model of a typedef.
pub struct ToolboxIdlTypedefView {
    pub name: Seq<char>,
    pub generics: Seq<Seq<char>>,
    pub repr: Option<Seq<char>>,
    pub serialization: Option<Seq<char>>,
    pub type_flat: ToolboxIdlTypeFlatView,
}

impl View for ToolboxIdlTypedef {
    type V = ToolboxIdlTypedefView;

    open spec fn view(&self) -> ToolboxIdlTypedefView {
        ToolboxIdlTypedefView {
            name: self.name@,
            generics: Seq::new(self.generics@.len(), |i: int| self.generics@[i]@),
            repr: match self.repr {
                Some(r) => Some(r@),
                None => None,
            },
            serialization: match self.serialization {
                Some(s) => Some(s@),
                None => None,
            },
            type_flat: spec_type_flat_view(self.type_flat),
        }
    }
}

} // verus!
