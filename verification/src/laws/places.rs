//! Where on the page a drawn cell is seen.
use crate::cell::CellView;
use crate::effect::EffectView;
use crate::frame::DrawnCellView;
use crate::geometry::Position;
use crate::laws::cells::{
    law_cells_that_were_not_drawn, law_style_of_cells, law_wide_glyphs_take_two_columns,
};
use crate::laws::frames::{
    law_frames_keep_the_rest, law_page_shows_frames, lemma_all_updates, lemma_no_rebuilds,
    lemma_range_of_rest, lemma_row_is, within_rows,
};
use crate::laws::links::law_content_is_that_of_the_cell;
use crate::laws::rows::{cells_of, law_row_holds_its_cells};
use crate::outside::display_width;
use crate::page::{range, row_nodes, Face, Page};
use crate::state::BackendView;
use vstd::prelude::*;
use vstd::utf8::encode_utf8;

verus! {

/// Cells are counted row by row: `y` whole rows come before the row `y`, and `x`
/// cells of that row before its column `x`. Indices count in sixteen bits.
pub proof fn law_cells_are_counted_row_by_row(at: Position, width: u16)
    ensures
        at.index(width) == at.y * width + at.x,
        at.is_addressable(width) <==> at.y * width + at.x <= 65535,
{
}

/// The next column is the next cell, and the next row is one width further on. The
/// first column of the first row is the first cell.
pub proof fn law_neighbours_are_counted_on(
    at: Position,
    right: Position,
    below: Position,
    width: u16,
)
    requires
        right.x == at.x + 1,
        right.y == at.y,
        below.x == at.x,
        below.y == at.y + 1,
    ensures
        right.index(width) == at.index(width) + 1,
        below.index(width) == at.index(width) + width,
        (Position { x: 0, y: 0 }).index(width) == 0,
{
    assert((at.y + 1) * width == at.y * width + width) by (nonlinear_arith);
    assert(0 * width == 0) by (nonlinear_arith);
}

/// No two positions of the grid are the same cell, and the cell tells its row and
/// its column.
pub proof fn law_positions_are_told_apart(one: Position, other: Position, width: u16)
    requires
        one.x < width,
        other.x < width,
    ensures
        one.index(width) / (width as int) == one.y,
        one.index(width) - one.y * width == one.x,
        one.index(width) == other.index(width) <==> one == other,
{
    assert(0 <= one.y * width) by (nonlinear_arith);
    lemma_row_is(one.y * width + one.x, width as int, one.y as int);
    lemma_row_is(other.y * width + other.x, width as int, other.y as int);
}

/// There is a cell at a position exactly if its index can be counted and is one of
/// the buffer's.
pub proof fn law_cells_are_where_the_buffer_is(
    state: BackendView,
    at: Position,
    content: Seq<DrawnCellView>,
)
    ensures
        state.in_range(at) <==> at.y * state.size.width + at.x <= 65535 && at.y
            * state.size.width + at.x < state.buffer.len(),
        state.all_in_range(content) <==> forall|k: int|
            #![trigger content[k]]
            0 <= k < content.len() ==> content[k].at.y * state.size.width + content[k].at.x
                <= 65535 && content[k].at.y * state.size.width + content[k].at.x
                < state.buffer.len(),
{
    if state.all_in_range(content) {
        assert forall|k: int| #![trigger content[k]] 0 <= k < content.len() implies content[k].at.y
            * state.size.width + content[k].at.x <= 65535 && content[k].at.y * state.size.width
            + content[k].at.x < state.buffer.len() by {
            assert(state.in_range(content[k].at));
        }
    }
}

/// Drawing a cell puts it at column `x` of row `y`, and, where it is shown in two
/// columns and takes more than one byte, a covered cell behind it, if there is a
/// place. The cells are noted in that order. Their rows are noted as drawn into,
/// and as in need of a rebuild where a hyperlink cell came or went.
pub proof fn law_one_cell_is_drawn(
    state: BackendView,
    at: Position,
    cell: CellView,
    columns: usize,
)
    requires
        state.in_range(at),
        state.in_frame(),
    ensures
        ({
            let width = state.size.width;
            let index = at.y * width + at.x;
            let wide = columns == 2 && encode_utf8(cell.symbol).len() >= 2 && index + 1
                < state.buffer.len();
            let covered = CellView {
                symbol: Seq::empty(),
                modifier: 0,
                css: state.covered_css,
            };
            let next_row = (index + 1) / (width as int);
            let now = state.written(at, cell, columns);
            &&& now.buffer == if wide {
                state.buffer.update(index, cell).update(index + 1, covered)
            } else {
                state.buffer.update(index, cell)
            }
            &&& now.changed == state.changed + if wide {
                seq![index as usize, (index + 1) as usize]
            } else {
                seq![index as usize]
            }
            &&& now.in_frame()
            &&& forall|row: int|
                0 <= row < state.size.height ==> #[trigger] now.touched[row] == (
                state.touched[row] || row == at.y || (wide && row == next_row))
            &&& forall|row: int|
                0 <= row < state.size.height ==> #[trigger] now.needs_rebuild[row] == (
                state.needs_rebuild[row] || (row == at.y && (state.buffer[index].is_link()
                    || cell.is_link())) || (wide && row == next_row
                    && state.buffer[index + 1].is_link()))
            &&& now == BackendView {
                buffer: now.buffer,
                changed: now.changed,
                touched: now.touched,
                needs_rebuild: now.needs_rebuild,
                ..state
            }
        }),
{
    law_wide_glyphs_take_two_columns(cell, columns);
    law_cells_that_were_not_drawn(state);
    crate::cell::lemma_plain_cells(state.covered_css);
    let index = at.y * state.size.width + at.x;
    let now = state.written(at, cell, columns);
    let covered = CellView { symbol: Seq::empty(), modifier: 0, css: state.covered_css };
    assert(state.covered_cell() =~= covered);
    assert(state.changed.push(index as usize) =~= state.changed + seq![index as usize]);
    assert(state.changed.push(index as usize).push((index + 1) as usize) =~= state.changed + seq![
        index as usize,
        (index + 1) as usize,
    ]);
}

/// A frame starts with nothing noted, whatever the last one left, and draws its
/// cells one after the other, each in as many columns as its symbol takes.
pub proof fn law_frames_draw_one_cell_after_the_other(
    state: BackendView,
    content: Seq<DrawnCellView>,
    drawn: DrawnCellView,
)
    ensures
        state.drawn(content.push(drawn)) == state.drawn(content).written(
            drawn.at,
            drawn.cell,
            display_width(drawn.cell.symbol),
        ),
        state.drawn(Seq::empty()).buffer == state.buffer,
        state.drawn(Seq::empty()).changed.len() == 0,
        state.drawn(Seq::empty()).touched.len() == state.size.height,
        state.drawn(Seq::empty()).needs_rebuild.len() == state.size.height,
        !state.drawn(Seq::empty()).touched.contains(true),
        !state.drawn(Seq::empty()).needs_rebuild.contains(true),
        state.drawn(Seq::empty()) == (BackendView {
            changed: Seq::empty(),
            touched: state.drawn(Seq::empty()).touched,
            needs_rebuild: state.drawn(Seq::empty()).needs_rebuild,
            ..state
        }),
{
    assert(content.push(drawn).drop_last() =~= content);
    assert(content.push(drawn).last() == drawn);
}

/// Whether drawing a cell puts something into the place `index`: the cell itself,
/// or, where its symbol takes two columns and more than one byte, what covers the
/// place behind it.
pub open spec fn reaches(drawn: DrawnCellView, width: u16, index: int) -> bool {
    ||| index == drawn.at.y * width + drawn.at.x
    ||| {
        &&& index == drawn.at.y * width + drawn.at.x + 1
        &&& display_width(drawn.cell.symbol) == 2
        &&& encode_utf8(drawn.cell.symbol).len() >= 2
    }
}

/// A place that no drawn cell reaches keeps what it holds.
pub proof fn law_other_places_stay(state: BackendView, content: Seq<DrawnCellView>, index: int)
    requires
        state.all_in_range(content),
        0 <= index < state.buffer.len(),
        forall|j: int|
            0 <= j < content.len() ==> !reaches(#[trigger] content[j], state.size.width, index),
    ensures
        state.drawn(content).buffer.len() == state.buffer.len(),
        state.drawn(content).buffer[index] == state.buffer[index],
    decreases content.len(),
{
    law_frames_keep_the_rest(state, content);
    if content.len() > 0 {
        let rest = content.drop_last();
        lemma_range_of_rest(state, content);
        assert forall|j: int| 0 <= j < rest.len() implies !reaches(
            #[trigger] rest[j],
            state.size.width,
            index,
        ) by {
            assert(rest[j] == content[j]);
        }
        law_other_places_stay(state, rest, index);
        law_frames_keep_the_rest(state, rest);
        let last = content[content.len() - 1];
        assert(state.in_range(last.at));
        assert(!reaches(last, state.size.width, index));
        law_wide_glyphs_take_two_columns(last.cell, display_width(last.cell.symbol));
    }
}

/// What was drawn at column `x` of row `y` is the cell with the number
/// `y * width + x` of the buffer, unless a later cell reaches its place.
pub proof fn law_drawn_cells_land(state: BackendView, content: Seq<DrawnCellView>, k: int)
    requires
        state.all_in_range(content),
        0 <= k < content.len(),
        forall|j: int|
            k < j < content.len() ==> !reaches(
                #[trigger] content[j],
                state.size.width,
                content[k].at.y * state.size.width + content[k].at.x,
            ),
    ensures
        state.drawn(content).buffer[content[k].at.y * state.size.width + content[k].at.x]
            == content[k].cell,
    decreases content.len(),
{
    let rest = content.drop_last();
    let index = content[k].at.y * state.size.width + content[k].at.x;
    lemma_range_of_rest(state, content);
    law_frames_keep_the_rest(state, rest);
    assert(state.in_range(content[k].at));
    assert(0 <= index) by (nonlinear_arith)
        requires
            index == content[k].at.y * state.size.width + content[k].at.x,
    ;
    let last = content[content.len() - 1];
    assert(state.in_range(last.at));
    law_wide_glyphs_take_two_columns(last.cell, display_width(last.cell.symbol));
    if k < content.len() - 1 {
        assert(rest[k] == content[k]);
        assert forall|j: int| k < j < rest.len() implies !reaches(
            #[trigger] rest[j],
            state.size.width,
            rest[k].at.y * state.size.width + rest[k].at.x,
        ) by {
            assert(rest[j] == content[j]);
        }
        law_drawn_cells_land(state, rest, k);
        assert(!reaches(last, state.size.width, index));
    }
}

/// Behind a symbol that takes two columns and more than one byte, however many,
/// the next place shows nothing, in the CSS of covered cells, unless a later cell
/// reaches it. Where the buffer ends, there is no such place.
pub proof fn law_places_behind_wide_glyphs_are_covered(
    state: BackendView,
    content: Seq<DrawnCellView>,
    k: int,
)
    requires
        state.all_in_range(content),
        0 <= k < content.len(),
        display_width(content[k].cell.symbol) == 2,
        encode_utf8(content[k].cell.symbol).len() >= 2,
        content[k].at.y * state.size.width + content[k].at.x + 1 < state.buffer.len(),
        forall|j: int|
            k < j < content.len() ==> !reaches(
                #[trigger] content[j],
                state.size.width,
                content[k].at.y * state.size.width + content[k].at.x + 1,
            ),
    ensures
        state.drawn(content).buffer[content[k].at.y * state.size.width + content[k].at.x + 1]
            == (CellView { symbol: Seq::empty(), modifier: 0, css: state.covered_css }),
    decreases content.len(),
{
    let rest = content.drop_last();
    let index = content[k].at.y * state.size.width + content[k].at.x + 1;
    lemma_range_of_rest(state, content);
    law_frames_keep_the_rest(state, rest);
    law_cells_that_were_not_drawn(state);
    assert(state.covered_cell().symbol =~= Seq::empty());
    assert(state.in_range(content[k].at));
    assert(0 <= index) by (nonlinear_arith)
        requires
            index == content[k].at.y * state.size.width + content[k].at.x + 1,
    ;
    let last = content[content.len() - 1];
    assert(state.in_range(last.at));
    law_wide_glyphs_take_two_columns(last.cell, display_width(last.cell.symbol));
    if k < content.len() - 1 {
        assert(rest[k] == content[k]);
        assert forall|j: int| k < j < rest.len() implies !reaches(
            #[trigger] rest[j],
            state.size.width,
            rest[k].at.y * state.size.width + rest[k].at.x + 1,
        ) by {
            assert(rest[j] == content[j]);
        }
        law_places_behind_wide_glyphs_are_covered(state, rest, k);
        assert(!reaches(last, state.size.width, index));
    }
}

/// Every single character outside ASCII that takes two columns covers the next
/// place.
pub proof fn law_wide_characters_cover(state: BackendView, at: Position, cell: CellView)
    requires
        state.in_range(at),
        at.y * state.size.width + at.x + 1 < state.buffer.len(),
        cell.symbol.len() == 1,
        (cell.symbol[0] as u32) >= 0x80,
        display_width(cell.symbol) == 2,
    ensures
        state.drawn(seq![DrawnCellView { at, cell }]).buffer == state.buffer.update(
            at.y * state.size.width + at.x,
            cell,
        ).update(
            at.y * state.size.width + at.x + 1,
            (CellView { symbol: Seq::empty(), modifier: 0, css: state.covered_css }),
        ),
{
    law_wide_glyphs_take_two_columns(cell, 2);
    law_cells_that_were_not_drawn(state);
    assert(state.covered_cell().symbol =~= Seq::empty());
    let one = seq![DrawnCellView { at, cell }];
    assert(one =~= Seq::<DrawnCellView>::empty().push(one[0]));
    law_frames_draw_one_cell_after_the_other(state, Seq::empty(), one[0]);
}

/// A page that shows the buffer shows in each cell the symbol that was drawn, in
/// its CSS, and in each row its own cells, from left to right.
pub proof fn law_pages_show_symbols(page: Page, state: BackendView)
    requires
        state.wf(),
        page.shows(state),
    ensures
        page.faces.len() == state.buffer.len(),
        page.rows.len() == state.rows,
        forall|i: int|
            0 <= i < state.buffer.len() ==> (#[trigger] page.faces[i]).text
                == state.buffer[i].symbol,
        forall|i: int|
            0 <= i < state.buffer.len() ==> (#[trigger] page.faces[i]).style
                == state.buffer[i].css + if state.buffer[i].is_link() {
                " color: #268bd2; text-decoration: underline; cursor: pointer;"@
            } else {
                Seq::empty()
            },
        forall|y: int|
            0 <= y < state.rows ==> cells_of(#[trigger] page.rows[y]) == Seq::new(
                state.size.width as nat,
                |x: int| y * state.size.width + x,
            ),
{
    assert forall|i: int| 0 <= i < state.buffer.len() implies (#[trigger] page.faces[i]).style
        == state.buffer[i].css + if state.buffer[i].is_link() {
        " color: #268bd2; text-decoration: underline; cursor: pointer;"@
    } else {
        Seq::empty()
    } by {
        law_style_of_cells(state.buffer[i]);
        assert(state.buffer[i].css + Seq::empty() =~= state.buffer[i].css);
    }
    assert forall|y: int| 0 <= y < state.rows implies cells_of(#[trigger] page.rows[y])
        == Seq::new(state.size.width as nat, |x: int| y * state.size.width + x) by {
        let width = state.size.width as int;
        assert(page.rows[y] == row_nodes(state.buffer, width, y));
        law_row_holds_its_cells(state.buffer, y * width, y * width + width);
        assert(range(y * width, y * width + width) =~= Seq::new(
            state.size.width as nat,
            |x: int| y * state.size.width + x,
        ));
    }
}

/// After a frame, the cell that was drawn at column `x` of row `y` is seen as the
/// `x`-th cell of the `y`-th row of the page: there is its symbol, in its style,
/// unless a later cell of the frame reaches its place.
pub proof fn law_drawn_cells_are_seen(
    page: Page,
    state: BackendView,
    content: Seq<DrawnCellView>,
    k: int,
)
    requires
        state.wf(),
        state.is_populated(),
        page.shows(state),
        state.all_in_range(content),
        within_rows(content, state.size.width),
        0 <= k < content.len(),
        forall|j: int|
            k < j < content.len() ==> !reaches(
                #[trigger] content[j],
                state.size.width,
                content[k].at.y * state.size.width + content[k].at.x,
            ),
    ensures
        ({
            let at = content[k].at;
            let cell = content[k].cell;
            let after = page.apply_all(state.drawn(content).frame_effects());
            let index = at.y * state.size.width + at.x;
            &&& at.y < state.rows
            &&& cells_of(after.rows[at.y as int])[at.x as int] == index
            &&& after.faces[index].text == cell.symbol
            &&& after.faces[index].style == cell.css + if cell.is_link() {
                " color: #268bd2; text-decoration: underline; cursor: pointer;"@
            } else {
                Seq::empty()
            }
        }),
{
    let now = state.drawn(content);
    let after = page.apply_all(now.frame_effects());
    let at = content[k].at;
    let width = state.size.width as int;
    law_page_shows_frames(page, state, content);
    law_frames_keep_the_rest(state, content);
    law_drawn_cells_land(state, content, k);
    assert(state.in_range(at));
    assert(at.x < state.size.width);
    assert(at.y < state.size.height) by (nonlinear_arith)
        requires
            at.y * width + at.x < state.size.height * width,
            0 <= at.x < width,
    ;
    assert(0 <= at.y * width) by (nonlinear_arith)
        requires
            0 <= width,
    ;
    lemma_wf_drawn(state, content);
    law_pages_show_symbols(after, now);
    assert(cells_of(after.rows[at.y as int])[at.x as int] == at.y * state.size.width + at.x);
}

proof fn lemma_wf_drawn(state: BackendView, content: Seq<DrawnCellView>)
    requires
        state.wf(),
        state.all_in_range(content),
    ensures
        state.drawn(content).wf(),
    decreases content.len(),
{
    law_frames_keep_the_rest(state, content);
    if content.len() > 0 {
        let rest = content.drop_last();
        let last = content[content.len() - 1];
        lemma_range_of_rest(state, content);
        lemma_wf_drawn(state, rest);
        law_frames_keep_the_rest(state, rest);
        assert(state.in_range(last.at));
        assert(0 <= last.at.y * state.size.width) by (nonlinear_arith);
    }
}

/// After a frame, cells that no drawn cell reaches look as they did, and the places
/// behind wide glyphs show nothing.
pub proof fn law_other_cells_look_the_same(
    page: Page,
    state: BackendView,
    content: Seq<DrawnCellView>,
    index: int,
)
    requires
        state.wf(),
        state.is_populated(),
        page.shows(state),
        state.all_in_range(content),
        within_rows(content, state.size.width),
        0 <= index < state.buffer.len(),
    ensures
        (forall|j: int|
            0 <= j < content.len() ==> !reaches(#[trigger] content[j], state.size.width, index))
            ==> page.apply_all(state.drawn(content).frame_effects()).faces[index]
            == page.faces[index],
        state.drawn(content).buffer[index] == (CellView {
            symbol: Seq::empty(),
            modifier: 0,
            css: state.covered_css,
        }) ==> page.apply_all(state.drawn(content).frame_effects()).faces[index] == (Face {
            text: Seq::empty(),
            style: state.covered_css,
        }),
{
    let now = state.drawn(content);
    let after = page.apply_all(now.frame_effects());
    law_page_shows_frames(page, state, content);
    law_frames_keep_the_rest(state, content);
    lemma_wf_drawn(state, content);
    assert(after.faces[index] == crate::page::face(now.buffer[index], now.buffer[index].is_link()));
    assert(page.faces[index] == crate::page::face(
        state.buffer[index],
        state.buffer[index].is_link(),
    ));
    if forall|j: int|
        0 <= j < content.len() ==> !reaches(#[trigger] content[j], state.size.width, index) {
        law_other_places_stay(state, content, index);
    }
    crate::cell::lemma_plain_cells(state.covered_css);
    law_cells_that_were_not_drawn(state);
    assert(state.covered_cell().symbol =~= Seq::empty());
}

/// Where no hyperlink cell comes or goes, drawing one cell asks for nothing but
/// that its element, and that of a place that it covers, show it.
pub proof fn law_plain_cells_are_updated_in_place(state: BackendView, drawn: DrawnCellView)
    requires
        state.wf(),
        state.in_range(drawn.at),
        !drawn.cell.is_link(),
        !state.buffer[drawn.at.y * state.size.width + drawn.at.x].is_link(),
        drawn.at.y * state.size.width + drawn.at.x + 1 < state.buffer.len()
            ==> !state.buffer[drawn.at.y * state.size.width + drawn.at.x + 1].is_link(),
    ensures
        ({
            let index = drawn.at.y * state.size.width + drawn.at.x;
            let shown = EffectView::SetContent {
                cell: index,
                text: drawn.cell.symbol,
                style: drawn.cell.css,
            };
            let covered = EffectView::SetContent {
                cell: index + 1,
                text: Seq::empty(),
                style: state.covered_css,
            };
            let wide = display_width(drawn.cell.symbol) == 2 && encode_utf8(
                drawn.cell.symbol,
            ).len() >= 2;
            state.drawn(seq![drawn]).frame_effects() == if wide && index + 1
                < state.buffer.len() {
                seq![shown, covered]
            } else {
                seq![shown]
            }
        }),
{
    let none = Seq::<DrawnCellView>::empty();
    let one = seq![drawn];
    let start = state.drawn(none);
    let now = state.drawn(one);
    let index = drawn.at.y * state.size.width + drawn.at.x;
    assert(0 <= index) by (nonlinear_arith)
        requires
            index == drawn.at.y * state.size.width + drawn.at.x,
    ;
    assert(one =~= none.push(drawn));
    law_frames_draw_one_cell_after_the_other(state, none, drawn);
    let columns = display_width(drawn.cell.symbol);
    law_one_cell_is_drawn(start, drawn.at, drawn.cell, columns);
    assert forall|row: int| 0 <= row < now.size.height implies !(
    #[trigger] now.needs_rebuild[row]) by {
        assert(start.needs_rebuild[row] == false);
    }
    law_wide_glyphs_take_two_columns(drawn.cell, columns);
    law_cells_that_were_not_drawn(state);
    assert(state.covered_cell().symbol =~= Seq::empty());
    assert forall|k: int| 0 <= k < one.len() implies state.in_range((#[trigger] one[k]).at) by {}
    lemma_wf_drawn(state, one);
    law_frames_keep_the_rest(state, one);
    lemma_no_rebuilds(now, state.size.height as nat);
    lemma_all_updates(now, now.changed.len());
    law_content_is_that_of_the_cell(index, now.buffer[index]);
    law_content_is_that_of_the_cell(index + 1, now.buffer[index + 1]);
    assert(now.changed[0] == index);
    assert(now.updates(now.changed.len())[0] == crate::row::content_effect(
        index,
        now.buffer[index],
        false,
    ));
    if now.changed.len() == 2 {
        assert(now.changed[1] == index + 1);
        assert(now.updates(now.changed.len())[1] == crate::row::content_effect(
            index + 1,
            now.buffer[index + 1],
            false,
        ));
        assert(now.frame_effects() =~= seq![
            EffectView::SetContent {
                cell: index,
                text: drawn.cell.symbol,
                style: drawn.cell.css,
            },
            EffectView::SetContent {
                cell: index + 1,
                text: Seq::empty(),
                style: state.covered_css,
            },
        ]);
    } else {
        assert(now.frame_effects() =~= seq![
            EffectView::SetContent {
                cell: index,
                text: drawn.cell.symbol,
                style: drawn.cell.css,
            },
        ]);
    }
}

} // verus!
