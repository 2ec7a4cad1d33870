//! Where the cursor is seen.
use crate::effect::EffectView;
use crate::geometry::Position;
use crate::page::{lemma_apply_add, lemma_apply_one, Page};
use crate::state::BackendView;
use vstd::prelude::*;

verus! {

/// The cell at a position, if there is one.
pub open spec fn cell_at(state: BackendView, at: Option<Position>) -> Set<int> {
    match at {
        Some(at) if at.index(state.size.width) < state.buffer.len() => set![
            at.index(state.size.width),
        ],
        _ => Set::empty(),
    }
}

/// The cursor is seen in one place at a time: once it was moved, its class is
/// on the cell at the new position, if there is one, and on no other.
pub proof fn law_cursor_is_seen_once(page: Page, state: BackendView, at: Position)
    requires
        page.cursors.subset_of(cell_at(state, state.cursor)),
    ensures
        page.apply_all(state.remove_cursor(state.cursor) + state.add_cursor(at)) == (Page {
            cursors: cell_at(state, Some(at)),
            ..page
        }),
{
    law_hidden_cursor_is_not_seen(page, state);
    let hidden = page.apply_all(state.remove_cursor(state.cursor));
    lemma_apply_add(page, state.remove_cursor(state.cursor), state.add_cursor(at));
    let index = at.index(state.size.width);
    if index < state.buffer.len() {
        lemma_apply_one(hidden, EffectView::AddCursor { cell: index });
        assert(hidden.cursors.insert(index) =~= set![index]);
    }
}

/// Once the cursor was hidden, its class is on no cell.
pub proof fn law_hidden_cursor_is_not_seen(page: Page, state: BackendView)
    requires
        page.cursors.subset_of(cell_at(state, state.cursor)),
    ensures
        page.apply_all(state.remove_cursor(state.cursor)) == (Page {
            cursors: Set::empty(),
            ..page
        }),
{
    match state.cursor {
        Some(at) if at.index(state.size.width) < state.buffer.len() => {
            let index = at.index(state.size.width);
            lemma_apply_one(page, EffectView::RemoveCursor { cell: index });
            assert(page.cursors.remove(index) =~= Set::empty());
        },
        _ => {
            assert(page.cursors =~= Set::empty());
        },
    }
}

} // verus!
