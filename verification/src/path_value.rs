//! Path addressing over dynamic values: walking a value tree by a
//! path. Objects are addressed by key (a numeric segment addresses the
//! key it spells), arrays by index; anything else is a leaf.

use vstd::prelude::*;

use crate::error::ToolboxIdlError;
use crate::path::spec_part_value;
use crate::path::ToolboxIdlPath;
use crate::path::ToolboxIdlPathPart;
use crate::value::object_get;
use crate::value::spec_object_get;
use crate::value::lemma_value_seq_view;
use crate::value::spec_value_entries_view;
use crate::value::spec_value_seq_view;
use crate::value::ToolboxIdlValue;
use crate::value::ToolboxIdlValueView;

verus! {

/// The subvalue of `v` addressed by `parts`; `None` is failure: a
/// missing key, an out-of-range index, or a leaf addressed as a
/// container.
pub open spec fn spec_get_value(
    parts: Seq<ToolboxIdlPathPart>,
    v: ToolboxIdlValueView,
) -> Option<ToolboxIdlValueView>
    decreases parts.len(),
{
    if parts.len() == 0 {
        Some(v)
    } else {
        match v {
            ToolboxIdlValueView::Object(entries) => {
                match spec_object_get(entries, spec_part_value(parts[0])) {
                    Some(inner) => spec_get_value(parts.skip(1), inner),
                    None => None,
                }
            },
            ToolboxIdlValueView::Array(items) => {
                match parts[0] {
                    ToolboxIdlPathPart::Index(index) => {
                        if (index as int) < items.len() {
                            spec_get_value(parts.skip(1), items[index as int])
                        } else {
                            None
                        }
                    },
                    _ => None,
                }
            },
            _ => None,
        }
    }
}

impl ToolboxIdlPath {
    /// The subvalue of `value` this path addresses. Succeeds exactly
    /// when the mathematical traversal does, and then returns exactly
    /// its result.
    pub fn try_get_json_value<'a>(&self, value: &'a ToolboxIdlValue) -> (r: Result<
        &'a ToolboxIdlValue,
        ToolboxIdlError,
    >)
        ensures
            match r {
                Ok(sub) => spec_get_value(self.parts@, value@) == Some(sub@),
                Err(_) => spec_get_value(self.parts@, value@) is None,
            },
        decreases self.parts@.len(),
    {
        let (current, next) = match self.split_first() {
            None => {
                return Ok(value);
            },
            Some(pair) => pair,
        };
        match value {
            ToolboxIdlValue::Object(entries) => {
                let key = current.value();
                match object_get(entries, key.as_str()) {
                    Some(inner) => next.try_get_json_value(inner),
                    None => Err(
                        ToolboxIdlError::Lookup(String::from_str("could not find object key")),
                    ),
                }
            },
            ToolboxIdlValue::Array(items) => {
                let index = match current.index() {
                    Some(index) => index,
                    None => {
                        return Err(
                            ToolboxIdlError::TypeMismatch(
                                String::from_str("array needs a numeric path segment"),
                            ),
                        );
                    },
                };
                proof {
                    lemma_value_seq_view(items@);
                }
                if index >= items.len() {
                    return Err(
                        ToolboxIdlError::Lookup(String::from_str("array index out of bounds")),
                    );
                }
                next.try_get_json_value(&items[index])
            },
            _ => Err(
                ToolboxIdlError::TypeMismatch(
                    String::from_str("value does not contain path"),
                ),
            ),
        }
    }
}

} // verus!
