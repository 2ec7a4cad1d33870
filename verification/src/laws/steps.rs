//! How the state goes on.
use crate::backend::debug::{debug_views, DebugFieldView, DebugValueView};
use crate::backend::{DebugField, DebugValue, DrawAction, DrawEvent};
use crate::effect::{views, EffectView, Handler};
use crate::geometry::{Position, Size};
use crate::options::{CursorShape, OptionsView};
use crate::page::Page;
use crate::state::BackendView;
use crate::text::count_text;
use vstd::prelude::*;

verus! {

/// A new backend has the size and the CSS that it was built with, and nothing was
/// drawn, shown or handled yet.
pub proof fn law_new_backends_have_nothing(
    options: OptionsView,
    size: Size,
    blank_css: Seq<char>,
    covered_css: Seq<char>,
)
    ensures
        ({
            let state = BackendView::initial(options, size, blank_css, covered_css);
            &&& state.options == options
            &&& state.size == size
            &&& state.blank_css == blank_css
            &&& state.covered_css == covered_css
            &&& !state.initialized
            &&& state.buffer.len() == 0
            &&& state.rows == 0
            &&& state.touched.len() == 0
            &&& state.needs_rebuild.len() == 0
            &&& state.changed.len() == 0
            &&& state.cursor is None
            &&& state.last_cursor is None
            &&& !state.mouse && !state.wheel && !state.hyperlink_click && !state.key
        }),
        OptionsView::defaults().chosen_id is None,
        OptionsView::defaults().cursor_shape == CursorShape::SteadyBlock,
{
}

/// Where the page and the backend count the same cells and rows, they do so after
/// every piece of work on rows and cells that are there.
pub proof fn law_counts_follow_the_page(page: Page, state: BackendView, effect: EffectView)
    requires
        page.faces.len() == state.buffer.len(),
        page.rows.len() == state.rows,
        match effect {
            EffectView::SetContent { cell, .. } => 0 <= cell < page.faces.len(),
            EffectView::PlaceCell { row, .. } => 0 <= row < page.rows.len(),
            EffectView::PlaceAnchor { row } => 0 <= row < page.rows.len(),
            EffectView::ClearRow { row } => 0 <= row < page.rows.len(),
            _ => true,
        },
    ensures
        page.apply(effect).faces.len() == state.after(effect).buffer.len(),
        page.apply(effect).rows.len() == state.after(effect).rows,
{
}

/// Taking note of work changes what the work is about, and nothing else: created
/// cells come last in the buffer, as they were created.
pub proof fn law_work_is_noted(state: BackendView, effect: EffectView)
    ensures
        ({
            let after = state.after(effect);
            let reset = effect is CreateGrid;
            &&& after.buffer == match effect {
                EffectView::CreateGrid { .. } => Seq::empty(),
                EffectView::CreateCell { content } => state.buffer.push(content),
                _ => state.buffer,
            }
            &&& after.rows == if reset {
                0
            } else if effect is CreateRow {
                state.rows + 1
            } else {
                state.rows
            }
            &&& reset ==> after.touched.len() == 0
            &&& reset ==> after.needs_rebuild.len() == 0
            &&& reset ==> after.changed.len() == 0
            &&& !reset ==> after.touched == state.touched
            &&& !reset ==> after.needs_rebuild == state.needs_rebuild
            &&& !reset ==> after.changed == state.changed
            &&& after.initialized == state.initialized
            &&& after.options == state.options
            &&& after.size == state.size
            &&& after.blank_css == state.blank_css
            &&& after.covered_css == state.covered_css
            &&& after.cursor == state.cursor
            &&& after.last_cursor == state.last_cursor
        }),
{
}

/// A handler is in place once its events are listened for, until it is forgotten.
/// A new grid handles no clicks on hyperlinks.
pub proof fn law_handlers_are_noted(state: BackendView, effect: EffectView, handler: Handler)
    ensures
        state.has_handler(handler) == match handler {
            Handler::Mouse => state.mouse,
            Handler::Wheel => state.wheel,
            Handler::HyperlinkClick => state.hyperlink_click,
            Handler::Key => state.key,
        },
        state.after(effect).has_handler(handler) == match effect {
            EffectView::ListenForMouse { .. } => handler == Handler::Mouse
                || state.has_handler(handler),
            EffectView::ListenForWheel { .. } => handler == Handler::Wheel
                || state.has_handler(handler),
            EffectView::ListenForHyperlinkClicks => handler == Handler::HyperlinkClick
                || state.has_handler(handler),
            EffectView::ListenForKeys => handler == Handler::Key || state.has_handler(handler),
            EffectView::Forget { handler: forgotten } => handler != forgotten
                && state.has_handler(handler),
            EffectView::CreateGrid { .. } => handler != Handler::HyperlinkClick
                && state.has_handler(handler),
            _ => state.has_handler(handler),
        },
{
}

/// Only cells without a column to sit in, and rows without their cells, cannot be
/// taken note of.
pub proof fn law_only_odd_work_is_refused(state: BackendView, effect: EffectView)
    ensures
        state.accepts(effect) <==> match effect {
            EffectView::CreateCell { .. } => state.size.width > 0,
            EffectView::CreateRow { .. } => state.rows < usize::MAX && state.rows
                * state.size.width + state.size.width <= state.buffer.len(),
            _ => true,
        },
{
    assert((state.rows + 1) * state.size.width == state.rows * state.size.width
        + state.size.width) by (nonlinear_arith);
}

/// A draw sets the grid up if it is the first one, or the first one since the
/// window was resized: the cursor is then nowhere. The size changes only where a
/// grid was measured.
pub proof fn law_draws_go_on(state: BackendView, event: DrawEvent)
    ensures
        ({
            let next = state.advanced(event);
            let sets_up = event is Called && !state.initialized;
            &&& next.initialized == (state.initialized || event is Called)
            &&& next.cursor == if sets_up {
                None
            } else {
                state.cursor
            }
            &&& next.last_cursor == if sets_up {
                None
            } else {
                state.last_cursor
            }
            &&& next.size == match event {
                DrawEvent::Prepared { size, .. } => size,
                _ => state.size,
            }
            &&& next == BackendView {
                initialized: next.initialized,
                cursor: next.cursor,
                last_cursor: next.last_cursor,
                size: next.size,
                ..state
            }
        }),
        state.allows(event) <==> match event {
            DrawEvent::GridMissing { .. } => state.rows + state.size.height <= usize::MAX
                && state.buffer.len() + state.size.height * state.size.width <= usize::MAX,
            DrawEvent::Prepared { .. } => state.buffer.len() == 0 && state.rows == 0
                && state.touched.len() == 0 && state.needs_rebuild.len() == 0
                && state.changed.len() == 0 && state.cursor is None,
            _ => true,
        },
{
}

/// What is due after each event: a draw looks for the grid if it has to set it up,
/// and else draws at once; a grid that was found is replaced, and the new one
/// attached once it was measured; a grid that was not found is attached at once.
pub proof fn law_what_is_due(state: BackendView, event: DrawEvent, action: DrawAction)
    requires
        state.is_due(event, action),
    ensures
        event is Called && state.initialized ==> action is DrawFrame,
        event is Called && !state.initialized ==> (action matches DrawAction::FindGrid { id }
            && id@ == match state.options.chosen_id {
            Some(chosen) => chosen + "_ratzilla_grid"@,
            None => "grid"@,
        }),
        event is GridFound ==> (action matches DrawAction::Perform { effects } && views(effects@)
            == state.prepare_effects(true)),
        event matches DrawEvent::GridMissing { row_style } ==> (action
            matches DrawAction::Perform { effects } && views(effects@) == state.attach_effects(
            row_style@,
        )),
        event matches DrawEvent::Prepared { size, row_style } ==> (action
            matches DrawAction::Perform { effects } && views(effects@) == (BackendView {
            size,
            ..state
        }).attach_effects(row_style@)),
        event is Attached ==> action is DrawFrame,
{
    if let DrawEvent::GridMissing { row_style } = event {
        assert(Seq::<EffectView>::empty() + state.attach_effects(row_style@)
            =~= state.attach_effects(row_style@));
    }
}

/// What it is for a grid to be populated, to have room for another one, to be
/// empty, and to be drawn into.
pub proof fn law_grids_are_as_large_as_said(state: BackendView)
    ensures
        state.is_populated() <==> state.rows == state.size.height && state.buffer.len()
            == state.size.height * state.size.width,
        state.has_room() <==> state.rows + state.size.height <= usize::MAX
            && state.buffer.len() + state.size.height * state.size.width <= usize::MAX,
        state.in_frame() <==> state.touched.len() == state.size.height
            && state.needs_rebuild.len() == state.size.height,
        state.is_blank() <==> state.buffer.len() == 0 && state.rows == 0
            && state.touched.len() == 0 && state.needs_rebuild.len() == 0
            && state.changed.len() == 0 && state.cursor is None,
{
}

/// The cursor's class is taken from, and given to, the cell at column `x` of row
/// `y`, the one with the number `y * width + x`, if the buffer has it.
pub proof fn law_cursor_goes_by_rows(state: BackendView, at: Position)
    ensures
        ({
            let cell = at.y * state.size.width + at.x;
            let there = cell < state.buffer.len();
            &&& state.add_cursor(at) == if there {
                seq![EffectView::AddCursor { cell }]
            } else {
                Seq::empty()
            }
            &&& state.remove_cursor(Some(at)) == if there {
                seq![EffectView::RemoveCursor { cell }]
            } else {
                Seq::empty()
            }
            &&& state.remove_cursor(None).len() == 0
        }),
        state.reported_cursor() == match state.cursor {
            Some(position) => position,
            None => Position { x: 0, y: 0 },
        },
{
}

/// Once the cursor was moved to column `x` of row `y`, its class is on the cell with
/// the number `y * width + x` alone, or on none where there is no such cell. Once
/// it was hidden, its class is on no cell.
pub proof fn law_cursor_moves_with_its_position(page: Page, state: BackendView, at: Position)
    requires
        page.cursors.subset_of(crate::laws::cursors::cell_at(state, state.cursor)),
    ensures
        page.apply_all(state.remove_cursor(state.cursor) + state.add_cursor(at)).cursors
            == if at.y * state.size.width + at.x < state.buffer.len() {
            set![at.y * state.size.width + at.x]
        } else {
            Set::<int>::empty()
        },
        page.apply_all(state.remove_cursor(state.cursor)).cursors == Set::<int>::empty(),
{
    crate::laws::cursors::law_cursor_is_seen_once(page, state, at);
    crate::laws::cursors::law_hidden_cursor_is_not_seen(page, state);
}

/// What is said of the debug output is said of its fields, each in its place, and
/// of their parts.
pub proof fn law_views_keep_the_fields(fields: Seq<DebugField>, field: DebugField)
    ensures
        debug_views(fields).len() == fields.len(),
        forall|i: int|
            0 <= i < fields.len() ==> #[trigger] debug_views(fields)[i] == fields[i]@,
        field@.name == field.name@,
        field@.value == match field.value {
            DebugValue::SharedFlag(flag) => DebugValueView::SharedFlag(flag),
            DebugValue::Flag(flag) => DebugValueView::Flag(flag),
            DebugValue::Text(text) => DebugValueView::Text(text@),
            DebugValue::Size(size) => DebugValueView::Size(size),
            DebugValue::CellSize => DebugValueView::CellSize,
            DebugValue::Cursor(at) => DebugValueView::Cursor(at),
        },
{
}

/// The debug output shows what is there: how many cells and rows are kept, the
/// size, the cursor, and which handlers are in place.
pub proof fn law_debug_output_tells_the_state(state: BackendView, resized: bool)
    ensures
        ({
            let fields = state.debug_fields(resized);
            &&& fields.len() == 14
            &&& fields[0] == (DebugFieldView {
                name: "initialized"@,
                value: DebugValueView::SharedFlag(state.initialized && !resized),
            })
            &&& fields[1] == (DebugFieldView {
                name: "cells"@,
                value: DebugValueView::Text(count_text(state.buffer.len(), "cells"@)),
            })
            &&& fields[2] == (DebugFieldView {
                name: "cell_buffer"@,
                value: DebugValueView::Text(count_text(state.buffer.len(), "cells"@)),
            })
            &&& fields[3] == (DebugFieldView {
                name: "rows_need_rebuild"@,
                value: DebugValueView::Text(count_text(state.needs_rebuild.len(), "rows"@)),
            })
            &&& fields[4] == (DebugFieldView {
                name: "rows_touched"@,
                value: DebugValueView::Text(count_text(state.touched.len(), "rows"@)),
            })
            &&& fields[5] == (DebugFieldView {
                name: "changed_cells"@,
                value: DebugValueView::Text(count_text(state.changed.len(), "cells"@)),
            })
            &&& fields[6] == (DebugFieldView {
                name: "size"@,
                value: DebugValueView::Size(state.size),
            })
            &&& fields[7] == (DebugFieldView {
                name: "cell_size"@,
                value: DebugValueView::CellSize,
            })
            &&& fields[8] == (DebugFieldView {
                name: "cursor_position"@,
                value: DebugValueView::Cursor(state.cursor),
            })
            &&& fields[9] == (DebugFieldView {
                name: "resize_callback"@,
                value: DebugValueView::Text("..."@),
            })
            &&& fields[10] == (DebugFieldView {
                name: "mouse_callback"@,
                value: DebugValueView::Flag(state.mouse),
            })
            &&& fields[11] == (DebugFieldView {
                name: "wheel_callback"@,
                value: DebugValueView::Flag(state.wheel),
            })
            &&& fields[12] == (DebugFieldView {
                name: "hyperlink_click_callback"@,
                value: DebugValueView::Flag(state.hyperlink_click),
            })
            &&& fields[13] == (DebugFieldView {
                name: "key_callback"@,
                value: DebugValueView::Flag(state.key),
            })
        }),
{
}

} // verus!
