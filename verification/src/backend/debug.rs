//! What is shown of the backend when it is debugged.
use crate::backend::DomBackend;
use crate::geometry::{Position, Size};
use crate::state::BackendView;
use crate::text::{count_label, count_text};
use vstd::prelude::*;

verus! {

/// The value of a field of the debug output. How it is written down is left to
/// the formatter.
#[derive(Debug, PartialEq, Eq)]
pub enum DebugValue {
    /// A flag that is shared with a handler.
    SharedFlag(bool),
    /// A flag.
    Flag(bool),
    /// A text.
    Text(String),
    /// A number of cells, by columns and rows.
    Size(Size),
    /// The size of a cell in pixels, as it was measured on the page.
    CellSize,
    /// Where the cursor is, if it is anywhere.
    Cursor(Option<Position>),
}

/// A field of the debug output.
#[derive(Debug, PartialEq, Eq)]
pub struct DebugField {
    pub name: &'static str,
    pub value: DebugValue,
}

/// The value of a field, with its strings as sequences of characters.
#[verifier::ext_equal]
pub enum DebugValueView {
    SharedFlag(bool),
    Flag(bool),
    Text(Seq<char>),
    Size(Size),
    CellSize,
    Cursor(Option<Position>),
}

/// A field, with its strings as sequences of characters.
#[verifier::ext_equal]
pub struct DebugFieldView {
    pub name: Seq<char>,
    pub value: DebugValueView,
}

impl View for DebugValue {
    type V = DebugValueView;

    open spec fn view(&self) -> DebugValueView {
        match *self {
            DebugValue::SharedFlag(flag) => DebugValueView::SharedFlag(flag),
            DebugValue::Flag(flag) => DebugValueView::Flag(flag),
            DebugValue::Text(text) => DebugValueView::Text(text@),
            DebugValue::Size(size) => DebugValueView::Size(size),
            DebugValue::CellSize => DebugValueView::CellSize,
            DebugValue::Cursor(at) => DebugValueView::Cursor(at),
        }
    }
}

impl View for DebugField {
    type V = DebugFieldView;

    open spec fn view(&self) -> DebugFieldView {
        DebugFieldView { name: self.name@, value: self.value@ }
    }
}

/// Fields, with their strings as sequences of characters.
pub open spec fn debug_views(fields: Seq<DebugField>) -> Seq<DebugFieldView> {
    fields.map_values(|field: DebugField| field@)
}

/// A field that shows a flag.
pub open spec fn flag_field(name: Seq<char>, flag: bool) -> DebugFieldView {
    DebugFieldView { name, value: DebugValueView::Flag(flag) }
}

/// A field that shows how many there are of something.
pub open spec fn count_field(name: Seq<char>, count: nat, unit: Seq<char>) -> DebugFieldView {
    DebugFieldView { name, value: DebugValueView::Text(count_text(count, unit)) }
}

impl BackendView {
    /// The fields of the debug output, in order. `resized` is whether the window
    /// was resized since the backend was last told so.
    pub open spec fn debug_fields(self, resized: bool) -> Seq<DebugFieldView> {
        seq![
            DebugFieldView {
                name: "initialized"@,
                value: DebugValueView::SharedFlag(self.initialized && !resized),
            },
            count_field("cells"@, self.buffer.len(), "cells"@),
            count_field("cell_buffer"@, self.buffer.len(), "cells"@),
            count_field("rows_need_rebuild"@, self.needs_rebuild.len(), "rows"@),
            count_field("rows_touched"@, self.touched.len(), "rows"@),
            count_field("changed_cells"@, self.changed.len(), "cells"@),
            DebugFieldView { name: "size"@, value: DebugValueView::Size(self.size) },
            DebugFieldView { name: "cell_size"@, value: DebugValueView::CellSize },
            DebugFieldView {
                name: "cursor_position"@,
                value: DebugValueView::Cursor(self.cursor),
            },
            DebugFieldView { name: "resize_callback"@, value: DebugValueView::Text("..."@) },
            flag_field("mouse_callback"@, self.mouse),
            flag_field("wheel_callback"@, self.wheel),
            flag_field("hyperlink_click_callback"@, self.hyperlink_click),
            flag_field("key_callback"@, self.key),
        ]
    }
}

/// Adds a field.
fn push_field(fields: &mut Vec<DebugField>, name: &'static str, value: DebugValue)
    ensures
        debug_views(final(fields)@) == debug_views(old(fields)@).push(
            DebugFieldView { name: name@, value: value@ },
        ),
{
    let ghost field = DebugFieldView { name: name@, value: value@ };
    fields.push(DebugField { name, value });
    assert(debug_views(fields@) =~= debug_views(old(fields)@).push(field));
}

/// Adds a field that shows how many there are of something.
fn push_count(fields: &mut Vec<DebugField>, name: &'static str, count: usize, unit: &str)
    ensures
        debug_views(final(fields)@) == debug_views(old(fields)@).push(
            count_field(name@, count as nat, unit@),
        ),
{
    push_field(fields, name, DebugValue::Text(count_label(count, unit)));
}

impl DomBackend {
    /// The fields of the debug output, in order. `resized` is whether the window
    /// was resized since the backend was last told so.
    pub fn debug_fields(&self, resized: bool) -> (fields: Vec<DebugField>)
        ensures
            debug_views(fields@) == self@.debug_fields(resized),
    {
        let initialized = self.initialized && !resized;
        let mut fields: Vec<DebugField> = Vec::new();
        assert(debug_views(fields@) =~= Seq::empty());
        push_field(&mut fields, "initialized", DebugValue::SharedFlag(initialized));
        push_count(&mut fields, "cells", self.cell_buffer.len(), "cells");
        push_count(&mut fields, "cell_buffer", self.cell_buffer.len(), "cells");
        push_count(&mut fields, "rows_need_rebuild", self.rows_need_rebuild.len(), "rows");
        push_count(&mut fields, "rows_touched", self.rows_touched.len(), "rows");
        push_count(&mut fields, "changed_cells", self.changed_cells.len(), "cells");
        push_field(&mut fields, "size", DebugValue::Size(self.size));
        push_field(&mut fields, "cell_size", DebugValue::CellSize);
        push_field(&mut fields, "cursor_position", DebugValue::Cursor(self.cursor_position));
        push_field(&mut fields, "resize_callback", DebugValue::Text("...".to_owned()));
        push_field(&mut fields, "mouse_callback", DebugValue::Flag(self.mouse_callback));
        push_field(&mut fields, "wheel_callback", DebugValue::Flag(self.wheel_callback));
        push_field(
            &mut fields,
            "hyperlink_click_callback",
            DebugValue::Flag(self.hyperlink_click_callback),
        );
        push_field(&mut fields, "key_callback", DebugValue::Flag(self.key_callback));
        assert(debug_views(fields@) =~= self@.debug_fields(resized));
        fields
    }
}

} // verus!
