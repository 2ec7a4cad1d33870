//! What the page is asked to do, and what work does to it.
use crate::cell::CellView;
use crate::effect::{AttributeView, EffectView, Handler};
use crate::laws::cells::law_cells_that_were_not_drawn;
use crate::laws::links::law_content_is_that_of_the_cell;
use crate::page::{cells_without, Face, Node, Page};
use crate::row::rebuild_effects;
use crate::state::{row_effects, BackendView};
use crate::text::{count_text, decimal, row_style_text, CURSOR_CLASS};
use vstd::prelude::*;

verus! {

/// The work of a frame: rows in which a hyperlink came or went are rebuilt, from
/// top to bottom, where they have an element. Then the other cells that were drawn
/// are shown in place, in the order in which they were drawn.
pub proof fn law_frames_rebuild_rows_and_update_cells(state: BackendView)
    requires
        state.in_frame(),
    ensures
        state.frame_effects() == Seq::new(
            state.size.height as nat,
            |y: int|
                if state.touched[y] && state.needs_rebuild[y] && y < state.rows {
                    rebuild_effects(
                        state.buffer,
                        y,
                        y * state.size.width,
                        (y + 1) * state.size.width,
                    )
                } else {
                    Seq::empty()
                },
        ).flatten() + state.changed.filter_map(
            |index: usize|
                if index as int / (state.size.width as int) < state.size.height
                    && state.needs_rebuild[index as int / (state.size.width as int)] {
                    None
                } else {
                    Some(
                        EffectView::SetContent {
                            cell: index as int,
                            text: state.buffer[index as int].symbol,
                            style: state.buffer[index as int].css,
                        },
                    )
                },
        ),
{
    lemma_rebuilds_are_flat(state, state.size.height as nat);
    lemma_updates_are_filtered(state, state.changed.len());
    assert(state.changed.take(state.changed.len() as int) =~= state.changed);
}

/// The work that rebuilds a row, if the row needs it and has an element.
spec fn rebuild_of(state: BackendView, y: int) -> Seq<EffectView> {
    if state.touched[y] && state.needs_rebuild[y] && y < state.rows {
        rebuild_effects(state.buffer, y, y * state.size.width, (y + 1) * state.size.width)
    } else {
        Seq::empty()
    }
}

proof fn lemma_rebuilds_are_flat(state: BackendView, count: nat)
    ensures
        state.rebuilds(count) == Seq::new(
            count,
            |y: int|
                if state.touched[y] && state.needs_rebuild[y] && y < state.rows {
                    rebuild_effects(
                        state.buffer,
                        y,
                        y * state.size.width,
                        (y + 1) * state.size.width,
                    )
                } else {
                    Seq::empty()
                },
        ).flatten(),
    decreases count,
{
    let work = |y: int|
        if state.touched[y] && state.needs_rebuild[y] && y < state.rows {
            rebuild_effects(state.buffer, y, y * state.size.width, (y + 1) * state.size.width)
        } else {
            Seq::empty()
        };
    let all = Seq::new(count, work);
    if count > 0 {
        let last = count - 1;
        let rest = Seq::new((count - 1) as nat, work);
        lemma_rebuilds_are_flat(state, (count - 1) as nat);
        assert((last + 1) * state.size.width == last * state.size.width + state.size.width)
            by (nonlinear_arith);
        assert(all =~= rest.push(rebuild_of(state, last)));
        rest.lemma_flatten_push(rebuild_of(state, last));
        assert(state.rebuilds(count) =~= rest.flatten() + rebuild_of(state, last));
    } else {
        assert(all.flatten() =~= Seq::<EffectView>::empty());
    }
}

proof fn lemma_updates_are_filtered(state: BackendView, count: nat)
    requires
        state.in_frame(),
        count <= state.changed.len(),
    ensures
        state.updates(count) == state.changed.take(count as int).filter_map(
            |index: usize|
                if index as int / (state.size.width as int) < state.size.height
                    && state.needs_rebuild[index as int / (state.size.width as int)] {
                    None
                } else {
                    Some(
                        EffectView::SetContent {
                            cell: index as int,
                            text: state.buffer[index as int].symbol,
                            style: state.buffer[index as int].css,
                        },
                    )
                },
        ),
    decreases count,
{
    let shown = |index: usize|
        if index as int / (state.size.width as int) < state.size.height
            && state.needs_rebuild[index as int / (state.size.width as int)] {
            None
        } else {
            Some(
                EffectView::SetContent {
                    cell: index as int,
                    text: state.buffer[index as int].symbol,
                    style: state.buffer[index as int].css,
                },
            )
        };
    let some = state.changed.take(count as int);
    if count > 0 {
        lemma_updates_are_filtered(state, (count - 1) as nat);
        let index = state.changed[count - 1] as int;
        law_content_is_that_of_the_cell(index, state.buffer[index]);
        assert(some.drop_last() =~= state.changed.take(count - 1));
        assert(some.last() == index as usize);
        assert(state.updates(count) =~= some.filter_map(shown));
    } else {
        assert(some.filter_map(shown) =~= Seq::<EffectView>::empty());
    }
}

/// A row is rebuilt out of the cells that lie in it, if it has an element.
pub proof fn law_rows_are_rebuilt_from_their_cells(state: BackendView, y: int)
    ensures
        y < state.rows ==> state.row_rebuild(y) == rebuild_effects(
            state.buffer,
            y,
            y * state.size.width,
            (y + 1) * state.size.width,
        ),
        y >= state.rows ==> state.row_rebuild(y).len() == 0,
{
    assert((y + 1) * state.size.width == y * state.size.width + state.size.width)
        by (nonlinear_arith);
}

/// The grid is looked for, and created, under the chosen id with a suffix, or
/// under `grid` where none was chosen. A grid that was found is removed from the
/// page with all that its parent holds before the new one is created, and the page
/// is measured after that. Nothing of this is done where none was found.
pub proof fn law_found_grids_are_removed_first(state: BackendView)
    ensures
        ({
            let id = match state.options.chosen_id {
                Some(chosen) => chosen + "_ratzilla_grid"@,
                None => "grid"@,
            };
            &&& state.options.grid_id() == id
            &&& state.reset_effects() == seq![EffectView::CreateGrid { id }]
            &&& state.prepare_effects(true) == seq![
                EffectView::EmptyParent,
                EffectView::CreateGrid { id },
                EffectView::Measure,
            ]
            &&& state.prepare_effects(false) == Seq::<EffectView>::empty()
        }),
{
    let id = state.options.grid_id();
    assert(state.prepare_effects(true) =~= seq![
        EffectView::EmptyParent,
        EffectView::CreateGrid { id },
        EffectView::Measure,
    ]);
}

/// The grid is attached, filled row by row from top to bottom, made to handle
/// clicks on hyperlinks, and focused. For each row, its cells are created, each
/// with one space, then the row itself in the given style; then the cells are
/// appended to the row from left to right, and the row to the grid. Rows and cells
/// are counted on from those that there are.
pub proof fn law_grids_are_filled_row_by_row(state: BackendView, style: Seq<char>)
    ensures
        state.attach_effects(style) == seq![EffectView::AttachGrid] + Seq::new(
            state.size.height as nat,
            |y: int|
                Seq::new(
                    state.size.width as nat,
                    |x: int|
                        EffectView::CreateCell {
                            content: CellView {
                                symbol: seq![' '],
                                modifier: 0,
                                css: state.blank_css,
                            },
                        },
                ) + seq![EffectView::CreateRow { style }] + Seq::new(
                    state.size.width as nat,
                    |x: int|
                        EffectView::PlaceCell {
                            row: state.rows + y,
                            cell: state.buffer.len() + y * state.size.width + x,
                        },
                ) + seq![EffectView::PlaceRow { row: state.rows + y }],
        ).flatten() + seq![EffectView::ListenForHyperlinkClicks, EffectView::FocusGrid],
        state.attach_effects(style) == seq![EffectView::AttachGrid] + state.populate_effects(
            style,
            state.size.height as nat,
        ) + seq![EffectView::ListenForHyperlinkClicks, EffectView::FocusGrid],
{
    lemma_rows_are_flat(state, style, state.size.height as nat);
}

proof fn lemma_rows_are_flat(state: BackendView, style: Seq<char>, count: nat)
    ensures
        state.populate_effects(style, count) == Seq::new(
            count,
            |y: int|
                Seq::new(
                    state.size.width as nat,
                    |x: int|
                        EffectView::CreateCell {
                            content: CellView {
                                symbol: seq![' '],
                                modifier: 0,
                                css: state.blank_css,
                            },
                        },
                ) + seq![EffectView::CreateRow { style }] + Seq::new(
                    state.size.width as nat,
                    |x: int|
                        EffectView::PlaceCell {
                            row: state.rows + y,
                            cell: state.buffer.len() + y * state.size.width + x,
                        },
                ) + seq![EffectView::PlaceRow { row: state.rows + y }],
        ).flatten(),
    decreases count,
{
    let row = |y: int|
        Seq::new(
            state.size.width as nat,
            |x: int|
                EffectView::CreateCell {
                    content: CellView { symbol: seq![' '], modifier: 0, css: state.blank_css },
                },
        ) + seq![EffectView::CreateRow { style }] + Seq::new(
            state.size.width as nat,
            |x: int|
                EffectView::PlaceCell {
                    row: state.rows + y,
                    cell: state.buffer.len() + y * state.size.width + x,
                },
        ) + seq![EffectView::PlaceRow { row: state.rows + y }];
    let all = Seq::new(count, row);
    law_cells_that_were_not_drawn(state);
    if count > 0 {
        let last = (count - 1) as nat;
        let rest = Seq::new(last, row);
        lemma_rows_are_flat(state, style, last);
        let more = row_effects(
            (state.rows + last) as int,
            (state.buffer.len() + last * state.size.width) as int,
            state.size.width as nat,
            state.blank_cell(),
            style,
        );
        assert(0 <= last * state.size.width) by (nonlinear_arith);
        assert(state.blank_cell() =~= CellView {
            symbol: seq![' '],
            modifier: 0,
            css: state.blank_css,
        });
        assert(more =~= row(last as int));
        assert(all =~= rest.push(more));
        rest.lemma_flatten_push(more);
    } else {
        assert(all.flatten() =~= Seq::<EffectView>::empty());
    }
}

/// Mouse and wheel events are handled for a grid of the size that the backend
/// reports, whether it was drawn yet or not: its width counts the columns and its
/// height the rows. The old handlers go first.
pub proof fn law_pointer_handlers_know_the_grid(state: BackendView)
    ensures
        state.mouse_effects().len() == 4,
        state.mouse_effects()[0] == (EffectView::Forget { handler: Handler::Mouse }),
        state.mouse_effects()[1] == (EffectView::Forget { handler: Handler::Wheel }),
        state.mouse_effects()[2] matches EffectView::ListenForMouse { size } && size.width
            == state.size.width && size.height == state.size.height,
        state.mouse_effects()[3] matches EffectView::ListenForWheel { size } && size.width
            == state.size.width && size.height == state.size.height,
        state.clear_mouse_effects() == state.mouse_effects().take(2),
        state.mouse_effects() == (BackendView {
            initialized: !state.initialized,
            ..state
        }).mouse_effects(),
{
    assert(state.clear_mouse_effects() =~= state.mouse_effects().take(2));
}

/// Key events are handled by a grid that can be focused. The old handler goes
/// first.
pub proof fn law_key_handlers_get_the_focus(state: BackendView)
    ensures
        state.key_effects().len() == 3,
        state.key_effects()[0] == (EffectView::Forget { handler: Handler::Key }),
        state.key_effects()[1] == (EffectView::SetGridAttribute {
            attribute: AttributeView { name: "tabindex"@, value: "0"@ },
        }),
        state.key_effects()[2] == EffectView::ListenForKeys,
        state.clear_key_effects() == state.key_effects().take(1),
{
    assert(state.clear_key_effects() =~= state.key_effects().take(1));
}

/// What each piece of work does to the parent of the grid and to the grid: only
/// emptying and attaching change what the parent holds, and only creating a grid
/// makes another one, which has nothing in it.
pub proof fn law_work_on_grids(page: Page, effect: EffectView)
    ensures
        page.apply(effect).parent == match effect {
            EffectView::EmptyParent => Seq::<int>::empty(),
            EffectView::AttachGrid => cells_without(page.parent, page.grid).push(page.grid),
            _ => page.parent,
        },
        page.apply(effect).grid == page.grid + if effect is CreateGrid {
            1int
        } else {
            0
        },
        effect matches EffectView::CreateGrid { id } ==> {
            let after = page.apply(effect);
            &&& after.grid_id == id
            &&& after.faces.len() == 0
            &&& after.rows.len() == 0
            &&& after.order.len() == 0
            &&& after.cursors == Set::<int>::empty()
        },
        !(effect is CreateGrid) ==> page.apply(effect).grid_id == page.grid_id,
{
}

/// What each piece of work does to the looks of cells, and to the cursor.
pub proof fn law_work_on_cells(page: Page, effect: EffectView)
    requires
        !(effect is CreateGrid),
    ensures
        page.apply(effect).faces == match effect {
            EffectView::CreateCell { content } => page.faces.push(
                Face { text: content.symbol, style: content.css },
            ),
            EffectView::SetContent { cell, text, style } => page.faces.update(
                cell,
                Face { text, style },
            ),
            _ => page.faces,
        },
        page.apply(effect).cursors == match effect {
            EffectView::AddCursor { cell } => page.cursors.insert(cell),
            EffectView::RemoveCursor { cell } => page.cursors.remove(cell),
            _ => page.cursors,
        },
{
}

/// What each piece of work does to the rows of the grid, where a cell that is to be
/// appended sits nowhere yet.
pub proof fn law_work_on_rows(page: Page, effect: EffectView)
    requires
        !(effect is CreateGrid),
        effect matches EffectView::PlaceCell { row, cell } ==> page.is_loose(cell),
        effect matches EffectView::PlaceInAnchor { cell } ==> page.is_loose(cell),
    ensures
        page.apply(effect).rows == match effect {
            EffectView::CreateRow { .. } => page.rows.push(Seq::empty()),
            EffectView::ClearRow { row } => page.rows.update(row, Seq::empty()),
            EffectView::PlaceCell { row, cell } => page.rows.update(
                row,
                page.rows[row].push(Node::Cell(cell)),
            ),
            EffectView::PlaceAnchor { row } => page.rows.update(
                row,
                page.rows[row].push(
                    Node::Link {
                        attributes: page.anchor_attributes,
                        cells: page.anchor_cells,
                    },
                ),
            ),
            _ => page.rows,
        },
        page.apply(effect).order == match effect {
            EffectView::PlaceRow { row } => cells_without(page.order, row).push(row),
            _ => page.order,
        },
        effect matches EffectView::CreateAnchor { attributes } ==> page.apply(
            effect,
        ).anchor_attributes == attributes && page.apply(effect).anchor_cells.len() == 0,
        effect matches EffectView::PlaceInAnchor { cell } ==> page.apply(effect).anchor_cells
            == page.anchor_cells.push(cell) && page.apply(effect).anchor_attributes
            == page.anchor_attributes,
{
    match effect {
        EffectView::PlaceCell { row, cell } => {
            crate::page::lemma_take_loose(page, cell);
        },
        EffectView::PlaceInAnchor { cell } => {
            crate::page::lemma_take_loose(page, cell);
        },
        _ => {},
    }
}

/// Work is done piece by piece, in order.
pub proof fn law_work_is_done_in_order(page: Page, effects: Seq<EffectView>, effect: EffectView)
    ensures
        page.apply_all(effects.push(effect)) == page.apply_all(effects).apply(effect),
        page.apply_all(Seq::empty()) == page,
{
    assert(effects.push(effect).drop_last() =~= effects);
}

/// What is taken out is gone, and the rest is there as before.
pub proof fn law_taking_out(cells: Seq<int>, cell: int, other: int)
    ensures
        !cells_without(cells, cell).contains(cell),
        other != cell ==> (cells_without(cells, cell).contains(other) <==> cells.contains(
            other,
        )),
        !cells.contains(cell) ==> cells_without(cells, cell) == cells,
    decreases cells.len(),
{
    if cells.len() > 0 {
        let rest = cells.drop_last();
        law_taking_out(rest, cell, other);
        let without = cells_without(cells, cell);
        let fewer = cells_without(rest, cell);
        assert(cells =~= rest.push(cells.last()));
        assert forall|c: int| #[trigger] cells.contains(c) <==> rest.contains(c) || c
            == cells.last() by {
            if rest.contains(c) {
                let k = choose|k: int| 0 <= k < rest.len() && rest[k] == c;
                assert(cells[k] == c);
            }
            if c == cells.last() {
                assert(cells[cells.len() - 1] == c);
            }
            if cells.contains(c) {
                let k = choose|k: int| 0 <= k < cells.len() && cells[k] == c;
                if k < rest.len() {
                    assert(rest[k] == c);
                }
            }
        }
        if cells.last() != cell {
            assert(without == fewer.push(cells.last()));
            assert forall|c: int| #[trigger] without.contains(c) <==> fewer.contains(c) || c
                == cells.last() by {
                if fewer.contains(c) {
                    let k = choose|k: int| 0 <= k < fewer.len() && fewer[k] == c;
                    assert(without[k] == c);
                }
                if c == cells.last() {
                    assert(without[without.len() - 1] == c);
                }
                if without.contains(c) {
                    let k = choose|k: int| 0 <= k < without.len() && without[k] == c;
                    if k < fewer.len() {
                        assert(fewer[k] == c);
                    }
                }
            }
        }
        if !cells.contains(cell) {
            crate::page::lemma_cells_without(cells, cell);
        }
    }
}

/// The value of a numeral.
pub open spec fn numeral_value(text: Seq<char>) -> int
    decreases text.len(),
{
    if text.len() == 0 {
        0
    } else {
        10 * numeral_value(text.drop_last()) + (text.last() as int - '0' as int)
    }
}

/// A count is written in decimal digits that read as the count, without leading
/// zeros, between brackets and before its unit.
pub proof fn law_counts_read_back(count: nat, unit: Seq<char>)
    ensures
        numeral_value(decimal(count)) == count,
        decimal(count).len() > 0,
        forall|i: int| 0 <= i < decimal(count).len() ==> '0' <= #[trigger] decimal(count)[i] <= '9',
        decimal(count).len() > 1 ==> decimal(count)[0] != '0',
        count_text(count, unit) == "["@ + decimal(count) + " "@ + unit + "]"@,
    decreases count,
{
    if count < 10 {
        let text = decimal(count);
        assert(text.drop_last() =~= Seq::<char>::empty());
        assert(numeral_value(text.drop_last()) == 0);
    } else {
        let text = decimal(count);
        law_counts_read_back(count / 10, unit);
        assert(text.drop_last() =~= decimal(count / 10));
        let rest = decimal(count / 10);
        assert forall|i: int| 0 <= i < text.len() implies '0' <= #[trigger] text[i] <= '9' by {
            if i < rest.len() {
                assert(text[i] == rest[i]);
            }
        }
        assert(text[0] == rest[0]);
        if rest.len() == 1 {
            assert(rest.drop_last() =~= Seq::<char>::empty());
            assert(numeral_value(rest.drop_last()) == 0);
        }
    }
}

/// A row is as high as a cell, and so is its line. The cell under the cursor is
/// told by its class.
pub proof fn law_rows_are_as_high_as_cells(height: Seq<char>)
    ensures
        CURSOR_CLASS@ == "rz-cursor"@,
        row_style_text(height)
            == "margin: 0; padding: 0; border: 0; font-family: inherit; height: "@ + height
            + "px; line-height: "@ + height + "px;"@,
{
}

} // verus!
