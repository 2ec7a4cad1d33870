//! That the page shows what was drawn, after every frame.
use crate::backend::draw::lemma_row_fits;
use crate::cell::{lemma_plain_cells, CellView};
use crate::effect::EffectView;
use crate::frame::DrawnCellView;
use crate::laws::rows::{
    all_loose, law_layout_depends_on_links, law_layout_tells_links, lemma_fill_row,
    lemma_layout_within, painted,
};
use crate::outside::display_width;
use crate::page::{face, layout, lemma_apply_add, lemma_apply_one, mentions, row_nodes, Face, Page};
use crate::row::{content_effect, fill_effects, rebuild_effects};
use crate::state::BackendView;
use vstd::prelude::*;

verus! {

/// Whether every cell that is to be drawn lies in the row that its position
/// names.
pub open spec fn within_rows(content: Seq<DrawnCellView>, width: u16) -> bool {
    forall|k: int| 0 <= k < content.len() ==> (#[trigger] content[k]).at.x < width
}

/// Whether two pages differ in the looks of cells and the contents of rows at
/// most.
pub open spec fn only_cells_changed(before: Page, after: Page) -> bool {
    after == (Page { faces: after.faces, rows: after.rows, ..before })
}

/// How a cell looks in a buffer.
pub open spec fn shown_face(buffer: Seq<CellView>, i: int) -> Face {
    face(buffer[i], buffer[i].is_link())
}

/// Whether what a frame asks for brings a cell that it drew to the page. Where
/// the cell's row is rebuilt, the row needs an element, unless the cell looks as
/// it did. Elsewhere the cell is updated in place, so it must belong to no
/// hyperlink, and in a row that has an element it must have belonged to none.
pub open spec fn settles(state: BackendView, now: BackendView, i: int) -> bool {
    let has_row = i / (state.size.width as int) < state.rows;
    if now.is_rebuilt(i) {
        has_row || shown_face(now.buffer, i) == shown_face(state.buffer, i)
    } else {
        !now.buffer[i].is_link() && (has_row ==> !state.buffer[i].is_link())
    }
}

/// Whether what a frame asks for brings all cells that it drew to the page.
pub open spec fn all_settle(state: BackendView, now: BackendView) -> bool {
    forall|k: int|
        0 <= k < now.changed.len() ==> settles(state, now, (#[trigger] now.changed[k]) as int)
}

/// After a frame, the page shows what the buffer holds, if it did so before:
/// every cell that was drawn and every hyperlink that came, changed or went is
/// there, and nothing else changed.
pub proof fn law_page_shows_frames(page: Page, state: BackendView, content: Seq<DrawnCellView>)
    requires
        state.wf(),
        state.is_populated(),
        page.shows(state),
        state.all_in_range(content),
        within_rows(content, state.size.width),
    ensures
        page.apply_all(state.drawn(content).frame_effects()).shows(state.drawn(content)),
        only_cells_changed(page, page.apply_all(state.drawn(content).frame_effects())),
        state.drawn(content).is_populated(),
{
    let now = state.drawn(content);
    law_frames_keep_the_rest(state, content);
    lemma_drawn(state, content);
    assert forall|k: int| 0 <= k < now.changed.len() implies lands(
        state,
        now,
        (#[trigger] now.changed[k]) as int,
    ) by {
        lemma_row_of(
            now.changed[k] as int,
            state.size.width as int,
            state.size.height as int,
        );
    }
    law_page_shows_frames_on_any_grid(page, state, content);
}

/// Whether a cell that a frame drew sits in a row that has both an element and
/// flags, or else in one that has an element, with no hyperlink in its place
/// before and after the frame.
pub open spec fn lands(state: BackendView, now: BackendView, i: int) -> bool {
    let row = i / (state.size.width as int);
    &&& row < state.rows
    &&& row < state.size.height || (!state.buffer[i].is_link() && !now.buffer[i].is_link())
}

/// The page goes on showing what the buffer holds even where there are fewer or
/// more rows than the size of the grid says, as long as only rows are drawn into
/// that are there, and no hyperlinks come into or go from the further ones.
pub proof fn law_page_shows_frames_on_any_grid(
    page: Page,
    state: BackendView,
    content: Seq<DrawnCellView>,
)
    requires
        state.wf(),
        page.shows(state),
        state.all_in_range(content),
        within_rows(content, state.size.width),
        forall|k: int|
            0 <= k < state.drawn(content).changed.len() ==> lands(
                state,
                state.drawn(content),
                (#[trigger] state.drawn(content).changed[k]) as int,
            ),
    ensures
        page.apply_all(state.drawn(content).frame_effects()).shows(state.drawn(content)),
        only_cells_changed(page, page.apply_all(state.drawn(content).frame_effects())),
{
    let now = state.drawn(content);
    lemma_drawn(state, content);
    lemma_links_marked(state, content);
    assert forall|k: int| 0 <= k < now.changed.len() implies settles(
        state,
        now,
        (#[trigger] now.changed[k]) as int,
    ) by {
        let i = now.changed[k] as int;
        assert(lands(state, now, i));
        assert(cell_marked(state, now, i));
        assert(now.changed.contains(i as usize));
        lemma_row_bounds(i, state.size.width as int);
    }
    law_page_shows_exactly_settled_frames(page, state, content);
}

/// After a frame, the page shows what the buffer holds exactly if the work of
/// the frame brings every cell that was drawn to the page. This holds of every
/// grid and of all that can be drawn.
pub proof fn law_page_shows_exactly_settled_frames(
    page: Page,
    state: BackendView,
    content: Seq<DrawnCellView>,
)
    requires
        state.wf(),
        page.shows(state),
        state.all_in_range(content),
    ensures
        page.apply_all(state.drawn(content).frame_effects()).shows(state.drawn(content))
            <==> all_settle(state, state.drawn(content)),
        only_cells_changed(page, page.apply_all(state.drawn(content).frame_effects())),
{
    let now = state.drawn(content);
    let after = page.apply_all(now.frame_effects());
    lemma_drawn(state, content);
    lemma_after_frame(page, state, now);
    if all_settle(state, now) {
        lemma_settled_is_shown(page, state, now, after);
    }
    if after.shows(now) {
        assert forall|k: int| 0 <= k < now.changed.len() implies settles(
            state,
            now,
            (#[trigger] now.changed[k]) as int,
        ) by {
            lemma_shown_is_settled(page, state, now, after, k);
        }
    }
}

/// What is known of a cell after a frame.
spec fn cell_after(state: BackendView, now: BackendView, after: Page, i: int) -> bool {
    let row = i / (now.size.width as int);
    after.faces[i] == if now.is_rebuilt(i) && row < now.rows {
        shown_face(now.buffer, i)
    } else if !now.is_rebuilt(i) && now.changed.contains(i as usize) {
        face(now.buffer[i], false)
    } else {
        shown_face(state.buffer, i)
    }
}

/// What is known of a row after a frame.
spec fn row_after(state: BackendView, now: BackendView, after: Page, row: int) -> bool {
    let rebuilt = row < now.size.height && now.needs_rebuild[row];
    after.rows[row] == row_nodes(
        if rebuilt {
            now.buffer
        } else {
            state.buffer
        },
        now.size.width as int,
        row,
    )
}

/// What the page looks like after a frame.
spec fn page_after(page: Page, state: BackendView, now: BackendView, after: Page) -> bool {
    &&& only_cells_changed(page, after)
    &&& after.faces.len() == now.buffer.len()
    &&& after.rows.len() == now.rows
    &&& forall|i: int|
        0 <= i < now.buffer.len() ==> #[trigger] cell_after(state, now, after, i)
    &&& forall|row: int| 0 <= row < now.rows ==> #[trigger] row_after(state, now, after, row)
}

proof fn lemma_after_frame(page: Page, state: BackendView, now: BackendView)
    requires
        state.wf(),
        page.shows(state),
        frame_kept(state, now),
    ensures
        page_after(page, state, now, page.apply_all(now.frame_effects())),
{
    let height = state.size.height as nat;
    let width = now.size.width as int;
    let after = page.apply_all(now.frame_effects());
    lemma_rebuilds(page, state, now, height);
    let rebuilt = page.apply_all(now.rebuilds(height));
    lemma_updates(rebuilt, now, now.changed.len());
    lemma_apply_add(page, now.rebuilds(height), now.updates(now.changed.len()));
    assert forall|i: int| 0 <= i < now.buffer.len() implies #[trigger] cell_after(
        state,
        now,
        after,
        i,
    ) by {
        lemma_row_bounds(i, width);
        let row = i / width;
        assert(update_done(rebuilt, now, after, now.changed.len(), i));
        assert(page.faces[i] == shown_face(state.buffer, i));
        if now.changed.contains(i as usize) {
            let k = choose|k: int| 0 <= k < now.changed.len() && now.changed[k] == i as usize;
            assert(now.changed[k] == i);
        } else {
            assert forall|k: int| 0 <= k < now.changed.len() implies #[trigger] now.changed[k]
                != i by {
                if now.changed[k] == i {
                    assert(now.changed.contains(i as usize));
                }
            }
        }
        if row < now.rows && row < height {
            assert(row_done(page, now, rebuilt, row));
        } else if row < now.rows {
            assert(row_untouched(page, now, rebuilt, row));
        } else {
            assert(now.rows * width <= i) by (nonlinear_arith)
                requires
                    now.rows <= row,
                    row * width <= i,
                    0 < width,
            ;
        }
    }
    assert forall|row: int| 0 <= row < now.rows implies #[trigger] row_after(
        state,
        now,
        after,
        row,
    ) by {
        assert(page.rows[row] == row_nodes(state.buffer, width, row));
        if row < height {
            assert(row_done(page, now, rebuilt, row));
        } else {
            assert(row_untouched(page, now, rebuilt, row));
        }
    }
}

proof fn lemma_settled_is_shown(page: Page, state: BackendView, now: BackendView, after: Page)
    requires
        state.wf(),
        page.shows(state),
        frame_kept(state, now),
        page_after(page, state, now, after),
        all_settle(state, now),
    ensures
        after.shows(now),
{
    let width = now.size.width as int;
    assert forall|i: int| 0 <= i < now.buffer.len() implies #[trigger] after.faces[i] == face(
        now.buffer[i],
        now.buffer[i].is_link(),
    ) by {
        assert(cell_after(state, now, after, i));
        assert(cell_kept(state, now, i));
        if now.changed.contains(i as usize) {
            let k = choose|k: int| 0 <= k < now.changed.len() && now.changed[k] == i as usize;
            assert(settles(state, now, now.changed[k] as int));
        }
    }
    assert forall|row: int| 0 <= row < now.rows implies #[trigger] after.rows[row] == row_nodes(
        now.buffer,
        width,
        row,
    ) by {
        assert(row_after(state, now, after, row));
        if row >= now.size.height || !now.needs_rebuild[row] {
            let start = row * width;
            let end = row * width + width;
            lemma_row_fits(row, now.rows as int, width);
            assert forall|i: int|
                #![trigger state.buffer[i]]
                #![trigger now.buffer[i]]
                start <= i < end implies {
                &&& state.buffer[i].is_link() == now.buffer[i].is_link()
                &&& state.buffer[i].is_link() ==> state.buffer[i] == now.buffer[i]
            } by {
                lemma_row_is(i, width, row);
                assert(cell_kept(state, now, i));
                if now.changed.contains(i as usize) {
                    let k = choose|k: int|
                        0 <= k < now.changed.len() && now.changed[k] == i as usize;
                    assert(settles(state, now, now.changed[k] as int));
                }
            }
            law_layout_depends_on_links(state.buffer, now.buffer, start, end);
        }
    }
}

proof fn lemma_shown_is_settled(
    page: Page,
    state: BackendView,
    now: BackendView,
    after: Page,
    k: int,
)
    requires
        state.wf(),
        page.shows(state),
        frame_kept(state, now),
        page_after(page, state, now, after),
        after.shows(now),
        0 <= k < now.changed.len(),
    ensures
        settles(state, now, now.changed[k] as int),
{
    let width = now.size.width as int;
    let i = now.changed[k] as int;
    let row = i / width;
    lemma_row_bounds(i, width);
    assert(now.changed.contains(i as usize));
    assert(cell_after(state, now, after, i));
    assert(after.faces[i] == shown_face(now.buffer, i));
    if !now.is_rebuilt(i) {
        if now.buffer[i].is_link() {
            reveal_strlit(" ");
            assert(now.buffer[i].style(true).len() > now.buffer[i].style(false).len());
        }
        if row < now.rows && state.buffer[i].is_link() {
            let start = row * width;
            let end = row * width + width;
            assert(row_after(state, now, after, row));
            assert(after.rows[row] == row_nodes(now.buffer, width, row));
            law_layout_tells_links(state.buffer, now.buffer, start, end, i);
        }
    }
}

/// The state after a number of frames.
pub open spec fn after_frames(state: BackendView, frames: Seq<Seq<DrawnCellView>>) -> BackendView
    decreases frames.len(),
{
    if frames.len() == 0 {
        state
    } else {
        after_frames(state, frames.drop_last()).drawn(frames.last())
    }
}

/// The page after the work of a number of frames.
pub open spec fn page_after_frames(
    page: Page,
    state: BackendView,
    frames: Seq<Seq<DrawnCellView>>,
) -> Page
    decreases frames.len(),
{
    if frames.len() == 0 {
        page
    } else {
        page_after_frames(page, state, frames.drop_last()).apply_all(
            after_frames(state, frames).frame_effects(),
        )
    }
}

/// However many frames are drawn, the page shows what the buffer holds, and no
/// frame moves the cursor, the rows or the grid.
pub proof fn law_page_shows_all_frames(
    page: Page,
    state: BackendView,
    frames: Seq<Seq<DrawnCellView>>,
)
    requires
        state.wf(),
        state.is_populated(),
        page.shows(state),
        forall|n: int|
            0 <= n < frames.len() ==> state.all_in_range(#[trigger] frames[n]) && within_rows(
                frames[n],
                state.size.width,
            ),
    ensures
        page_after_frames(page, state, frames).shows(after_frames(state, frames)),
        only_cells_changed(page, page_after_frames(page, state, frames)),
        after_frames(state, frames) == (BackendView {
            buffer: after_frames(state, frames).buffer,
            touched: after_frames(state, frames).touched,
            needs_rebuild: after_frames(state, frames).needs_rebuild,
            changed: after_frames(state, frames).changed,
            ..state
        }),
        after_frames(state, frames).wf(),
        after_frames(state, frames).is_populated(),
    decreases frames.len(),
{
    if frames.len() > 0 {
        let rest = frames.drop_last();
        let last = frames.last();
        assert forall|n: int| 0 <= n < rest.len() implies state.all_in_range(
            #[trigger] rest[n],
        ) && within_rows(rest[n], state.size.width) by {
            assert(rest[n] == frames[n]);
        }
        law_page_shows_all_frames(page, state, rest);
        let before = after_frames(state, rest);
        assert(last == frames[frames.len() - 1]);
        assert forall|k: int| 0 <= k < last.len() implies before.in_range(
            (#[trigger] last[k]).at,
        ) by {
            assert(state.in_range(last[k].at));
        }
        law_page_shows_frames(page_after_frames(page, state, rest), before, last);
        law_frames_keep_the_rest(before, last);
        lemma_drawn(before, last);
    }
}

/// A frame that draws nothing asks for nothing, and leaves the buffer alone.
pub proof fn law_empty_frame_is_idle(state: BackendView)
    requires
        state.wf(),
    ensures
        state.drawn(Seq::empty()).frame_effects() == Seq::<EffectView>::empty(),
        state.drawn(Seq::empty()).buffer == state.buffer,
{
    let now = state.drawn(Seq::empty());
    lemma_no_rebuilds(now, state.size.height as nat);
    assert(now.frame_effects() =~= Seq::<EffectView>::empty());
}

/// Where there are no hyperlinks, no row is rebuilt: each drawn cell is updated
/// in place.
pub proof fn law_plain_frames_rebuild_nothing(state: BackendView, content: Seq<DrawnCellView>)
    requires
        state.wf(),
        state.all_in_range(content),
        forall|i: int| 0 <= i < state.buffer.len() ==> !(#[trigger] state.buffer[i]).is_link(),
        forall|k: int| 0 <= k < content.len() ==> !(#[trigger] content[k]).cell.is_link(),
    ensures
        state.drawn(content).rebuilds(state.size.height as nat) == Seq::<EffectView>::empty(),
        state.drawn(content).frame_effects().len() == state.drawn(content).changed.len(),
        forall|k: int|
            0 <= k < state.drawn(content).changed.len() ==> {
                let index = state.drawn(content).changed[k] as int;
                #[trigger] state.drawn(content).frame_effects()[k] == content_effect(
                    index,
                    state.drawn(content).buffer[index],
                    false,
                )
            },
{
    let now = state.drawn(content);
    lemma_plain(state, content);
    lemma_no_rebuilds(now, state.size.height as nat);
    lemma_all_updates(now, now.changed.len());
    assert(now.frame_effects() =~= now.updates(now.changed.len()));
}

/// Two frames in turn leave the buffer that one frame with all their cells
/// leaves.
pub proof fn law_frames_add_up(
    state: BackendView,
    first: Seq<DrawnCellView>,
    second: Seq<DrawnCellView>,
)
    requires
        state.all_in_range(first),
        state.all_in_range(second),
    ensures
        state.drawn(first).drawn(second).buffer == state.drawn(first + second).buffer,
        state.drawn(first).all_in_range(second),
        state.all_in_range(first + second),
    decreases second.len(),
{
    law_frames_keep_the_rest(state, first);
    assert forall|k: int| 0 <= k < second.len() implies state.drawn(first).in_range(
        (#[trigger] second[k]).at,
    ) by {
        assert(state.in_range(second[k].at));
    }
    assert forall|k: int| 0 <= k < (first + second).len() implies state.in_range(
        (#[trigger] (first + second)[k]).at,
    ) by {
        if k < first.len() {
            assert((first + second)[k] == first[k]);
        } else {
            assert((first + second)[k] == second[k - first.len()]);
        }
    }
    if second.len() == 0 {
        assert(first + second =~= first);
    } else {
        let rest = second.drop_last();
        lemma_range_of_rest(state, second);
        law_frames_add_up(state, first, rest);
        assert((first + second).drop_last() =~= first + rest);
        assert((first + second).last() == second.last());
        law_frames_keep_the_rest(state.drawn(first), rest);
        law_frames_keep_the_rest(state, first + rest);
    }
}

/// Rebuilding a row twice leaves what rebuilding it once leaves, where its cells
/// sit in no other row.
pub proof fn law_rebuilding_twice_is_as_once(
    page: Page,
    buffer: Seq<CellView>,
    row: int,
    start: int,
    end: int,
)
    requires
        0 <= start <= end <= page.faces.len(),
        0 <= row < page.rows.len(),
        page.is_idle(),
        all_loose(page.apply(EffectView::ClearRow { row }), start, end),
    ensures
        ({
            let rebuild = rebuild_effects(buffer, row, start, end);
            page.apply_all(rebuild + rebuild) == page.apply_all(rebuild)
        }),
{
    let rebuild = rebuild_effects(buffer, row, start, end);
    let once = page.apply_all(rebuild);
    lemma_rebuild(page, buffer, row, start, end);
    assert(once.apply(EffectView::ClearRow { row }).rows =~= page.apply(
        EffectView::ClearRow { row },
    ).rows);
    assert forall|cell: int| start <= cell < end implies #[trigger] once.apply(
        EffectView::ClearRow { row },
    ).is_loose(cell) by {
        assert(page.apply(EffectView::ClearRow { row }).is_loose(cell));
    }
    lemma_rebuild(once, buffer, row, start, end);
    lemma_apply_add(page, rebuild, rebuild);
    let twice = once.apply_all(rebuild);
    assert(twice.faces =~= once.faces);
    assert(twice.rows =~= once.rows);
}

/// Rebuilding a row that the page shows changes nothing.
pub proof fn law_rebuilding_a_shown_row_changes_nothing(
    page: Page,
    state: BackendView,
    row: int,
)
    requires
        state.wf(),
        page.shows(state),
        0 <= row,
    ensures
        page.apply_all(state.row_rebuild(row)) == page,
{
    if row < state.rows {
        let width = state.size.width as int;
        let start = row * width;
        let end = row * width + width;
        let now = state.drawn(Seq::empty());
        lemma_row_fits(row, state.rows as int, width);
        lemma_drawn(state, Seq::empty());
        assert forall|r: int| 0 <= r < row implies #[trigger] row_done(page, now, page, r) by {
            lemma_row_fits(r, state.rows as int, width);
        }
        lemma_loose(page, state, now, page, row);
        lemma_rebuild(page, state.buffer, row, start, end);
        let after = page.apply_all(state.row_rebuild(row));
        assert(page.rows[row] == row_nodes(state.buffer, width, row));
        assert(after.rows =~= page.rows);
        assert(after.faces =~= page.faces);
    }
}

/// What rebuilding a row leaves, where its cells sit in no other row.
proof fn lemma_rebuild(page: Page, buffer: Seq<CellView>, row: int, start: int, end: int)
    requires
        0 <= start <= end <= page.faces.len(),
        0 <= row < page.rows.len(),
        page.is_idle(),
        all_loose(page.apply(EffectView::ClearRow { row }), start, end),
    ensures
        page.apply_all(rebuild_effects(buffer, row, start, end)) == (Page {
            faces: painted(page.faces, buffer, start, end),
            rows: page.rows.update(row, layout(buffer, start, end)),
            ..page
        }),
{
    let clear = EffectView::ClearRow { row };
    let cleared = page.apply(clear);
    lemma_apply_add(page, seq![clear], fill_effects(buffer, row, start, end));
    lemma_apply_one(page, clear);
    lemma_fill_row(cleared, buffer, row, start, end);
    assert(Seq::empty() + layout(buffer, start, end) =~= layout(buffer, start, end));
    assert(cleared.rows.update(row, layout(buffer, start, end)) =~= page.rows.update(
        row,
        layout(buffer, start, end),
    ));
}

/// A row in which there was no hyperlink, and into which none was drawn, is not
/// rebuilt.
pub proof fn law_plain_rows_are_not_rebuilt(
    state: BackendView,
    content: Seq<DrawnCellView>,
    row: int,
)
    requires
        state.wf(),
        state.all_in_range(content),
        within_rows(content, state.size.width),
        0 <= row < state.size.height,
        row_is_plain(state, row),
        forall|k: int|
            0 <= k < content.len() && (#[trigger] content[k]).at.y == row
                ==> !content[k].cell.is_link(),
    ensures
        !state.drawn(content).needs_rebuild[row],
        row_is_plain(state.drawn(content), row),
    decreases content.len(),
{
    if content.len() > 0 {
        let rest = content.drop_last();
        let last = content.last();
        let width = state.size.width as int;
        assert forall|k: int| 0 <= k < rest.len() implies (#[trigger] rest[k]) == content[k] by {}
        lemma_range_of_rest(state, content);
        law_plain_rows_are_not_rebuilt(state, rest, row);
        law_frames_keep_the_rest(state, rest);
        assert(last == content[content.len() - 1]);
        assert(state.in_range(last.at) && last.at.x < state.size.width);
        let before = state.drawn(rest);
        let index = last.at.index(state.size.width);
        lemma_row_is(index, width, last.at.y as int);
        lemma_plain_replaced(before, index, last.cell, row);
        if last.cell.covers_next(display_width(last.cell.symbol)) && index + 1
            < state.buffer.len() {
            lemma_plain_cells(state.covered_css);
            lemma_plain_replaced(
                before.replaced(index, last.cell, index / width),
                index + 1,
                state.covered_cell(),
                row,
            );
        }
    }
}

/// Whether no cell of a row belongs to a hyperlink.
pub open spec fn row_is_plain(state: BackendView, row: int) -> bool {
    forall|i: int|
        row * state.size.width <= i < row * state.size.width + state.size.width && i
            < state.buffer.len() ==> !(#[trigger] state.buffer[i]).is_link()
}

proof fn lemma_plain_replaced(state: BackendView, index: int, cell: CellView, row: int)
    requires
        0 < state.size.width,
        0 <= index < state.buffer.len(),
        0 <= row < state.needs_rebuild.len(),
        index / (state.size.width as int) == row ==> !cell.is_link(),
        row_is_plain(state, row),
        !state.needs_rebuild[row],
    ensures
        row_is_plain(state.replaced(index, cell, index / (state.size.width as int)), row),
        !state.replaced(index, cell, index / (state.size.width as int)).needs_rebuild[row],
{
    let width = state.size.width as int;
    lemma_row_bounds(index, width);
    let now = state.replaced(index, cell, index / width);
    assert forall|i: int|
        row * width <= i < row * width + width && i < now.buffer.len() implies !(
    #[trigger] now.buffer[i]).is_link() by {
        lemma_row_is(i, width, row);
        assert(i != index ==> now.buffer[i] == state.buffer[i]);
    }
}

/// What was drawn at a place is in the buffer, unless something was drawn there
/// later, or a wide glyph before it.
pub proof fn law_last_drawn_stays(state: BackendView, content: Seq<DrawnCellView>, k: int)
    requires
        state.wf(),
        state.all_in_range(content),
        0 <= k < content.len(),
        forall|j: int|
            k < j < content.len() ==> leaves(
                #[trigger] content[j],
                state.size.width,
                content[k].at.index(state.size.width),
            ),
    ensures
        state.drawn(content).buffer[content[k].at.index(state.size.width)]
            == content[k].cell,
    decreases content.len(),
{
    let rest = content.drop_last();
    let last = content.last();
    lemma_range_of_rest(state, content);
    law_frames_keep_the_rest(state, rest);
    assert(last == content[content.len() - 1]);
    assert(state.in_range(content[content.len() - 1].at));
    assert(state.in_range(content[k].at));
    if k < content.len() - 1 {
        assert(rest[k] == content[k]);
        assert forall|j: int| k < j < rest.len() implies leaves(
            #[trigger] rest[j],
            state.size.width,
            rest[k].at.index(state.size.width),
        ) by {
            assert(rest[j] == content[j]);
        }
        law_last_drawn_stays(state, rest, k);
        assert(leaves(
            content[content.len() - 1],
            state.size.width,
            content[k].at.index(state.size.width),
        ));
    }
}

/// The place behind a wide glyph is covered, if it is on the grid, unless
/// something was drawn there later.
pub proof fn law_wide_glyphs_cover(state: BackendView, content: Seq<DrawnCellView>, k: int)
    requires
        state.wf(),
        state.all_in_range(content),
        0 <= k < content.len(),
        content[k].cell.covers_next(display_width(content[k].cell.symbol)),
        content[k].at.index(state.size.width) + 1 < state.buffer.len(),
        forall|j: int|
            k < j < content.len() ==> leaves(
                #[trigger] content[j],
                state.size.width,
                content[k].at.index(state.size.width) + 1,
            ),
    ensures
        state.drawn(content).buffer[content[k].at.index(state.size.width) + 1]
            == state.covered_cell(),
    decreases content.len(),
{
    let rest = content.drop_last();
    lemma_range_of_rest(state, content);
    law_frames_keep_the_rest(state, rest);
    assert(content.last() == content[content.len() - 1]);
    assert(state.in_range(content[content.len() - 1].at));
    assert(state.in_range(content[k].at));
    if k < content.len() - 1 {
        assert(rest[k] == content[k]);
        assert forall|j: int| k < j < rest.len() implies leaves(
            #[trigger] rest[j],
            state.size.width,
            rest[k].at.index(state.size.width) + 1,
        ) by {
            assert(rest[j] == content[j]);
        }
        law_wide_glyphs_cover(state, rest, k);
        assert(leaves(
            content[content.len() - 1],
            state.size.width,
            content[k].at.index(state.size.width) + 1,
        ));
    }
}

/// Whether drawing a cell leaves the place `index` alone.
pub open spec fn leaves(drawn: DrawnCellView, width: u16, index: int) -> bool {
    &&& drawn.at.index(width) != index
    &&& drawn.cell.covers_next(display_width(drawn.cell.symbol)) ==> drawn.at.index(width) + 1
        != index
}

pub proof fn lemma_range_of_rest(state: BackendView, content: Seq<DrawnCellView>)
    requires
        content.len() > 0,
        state.all_in_range(content),
    ensures
        state.all_in_range(content.drop_last()),
{
    assert forall|k: int| 0 <= k < content.len() - 1 implies state.in_range(
        (#[trigger] content.drop_last()[k]).at,
    ) by {
        assert(content.drop_last()[k] == content[k]);
    }
}

/// A frame changes the buffer and takes notes of its own; the cursor, the
/// handlers, the options and the size of the grid stay as they are.
pub proof fn law_frames_keep_the_rest(state: BackendView, content: Seq<DrawnCellView>)
    requires
        state.all_in_range(content),
    ensures
        state.drawn(content) == (BackendView {
            buffer: state.drawn(content).buffer,
            touched: state.drawn(content).touched,
            needs_rebuild: state.drawn(content).needs_rebuild,
            changed: state.drawn(content).changed,
            ..state
        }),
        state.drawn(content).buffer.len() == state.buffer.len(),
        state.drawn(content).touched.len() == state.size.height,
        state.drawn(content).needs_rebuild.len() == state.size.height,
    decreases content.len(),
{
    if content.len() > 0 {
        let rest = content.drop_last();
        lemma_range_of_rest(state, content);
        law_frames_keep_the_rest(state, rest);
        assert(state.in_range(content[content.len() - 1].at));
    }
}

/// What is known of a cell during a frame: it is as it was unless it was drawn.
spec fn cell_kept(state: BackendView, now: BackendView, i: int) -> bool {
    !now.changed.contains(i as usize) ==> now.buffer[i] == state.buffer[i]
}

/// What is known of the state during a frame.
spec fn frame_kept(state: BackendView, now: BackendView) -> bool {
    &&& now == (BackendView {
        buffer: now.buffer,
        touched: now.touched,
        needs_rebuild: now.needs_rebuild,
        changed: now.changed,
        ..state
    })
    &&& now.buffer.len() == state.buffer.len()
    &&& now.in_frame()
    &&& forall|k: int|
        0 <= k < now.changed.len() ==> (#[trigger] now.changed[k]) < now.buffer.len()
    &&& forall|i: int|
        0 <= i < now.buffer.len() ==> #[trigger] cell_kept(state, now, i)
    &&& forall|row: int|
        0 <= row < now.size.height && #[trigger] now.needs_rebuild[row] ==> now.touched[row]
}

proof fn lemma_drawn(state: BackendView, content: Seq<DrawnCellView>)
    requires
        state.wf(),
        state.all_in_range(content),
    ensures
        frame_kept(state, state.drawn(content)),
    decreases content.len(),
{
    if content.len() > 0 {
        let rest = content.drop_last();
        let last = content.last();
        lemma_range_of_rest(state, content);
        lemma_drawn(state, rest);
        assert(last == content[content.len() - 1]);
        assert(state.in_range(last.at));
        let before = state.drawn(rest);
        let index = last.at.index(state.size.width);
        lemma_row_start(last.at.y as int, state.size.width as int);
        lemma_replaced(state, before, index, last.cell, last.at.y as int);
        if last.cell.covers_next(display_width(last.cell.symbol)) && index + 1
            < state.buffer.len() {
            lemma_replaced(
                state,
                before.replaced(index, last.cell, last.at.y as int),
                index + 1,
                state.covered_cell(),
                (index + 1) / (state.size.width as int),
            );
        }
    }
}

proof fn lemma_replaced(
    state: BackendView,
    before: BackendView,
    index: int,
    cell: CellView,
    row: int,
)
    requires
        state.wf(),
        frame_kept(state, before),
        0 <= index < state.buffer.len(),
    ensures
        frame_kept(state, before.replaced(index, cell, row)),
{
    let now = before.replaced(index, cell, row);
    assert(index as usize == index);
    assert(now.changed[now.changed.len() - 1] == index);
    assert(now.changed.contains(index as usize));
    assert forall|i: int| 0 <= i < now.buffer.len() implies #[trigger] cell_kept(
        state,
        now,
        i,
    ) by {
        assert(cell_kept(state, before, i));
        if before.changed.contains(i as usize) {
            let k = choose|k: int|
                0 <= k < before.changed.len() && before.changed[k] == i as usize;
            assert(now.changed[k] == i as usize);
        }
    }
    assert forall|k: int| 0 <= k < now.changed.len() implies (#[trigger] now.changed[k])
        < now.buffer.len() by {
        if k < before.changed.len() {
            assert(now.changed[k] == before.changed[k]);
        }
    }
}

/// Where a hyperlink cell was drawn or drawn over, its row is marked, if it has
/// a flag.
spec fn cell_marked(state: BackendView, now: BackendView, i: int) -> bool {
    let row = i / (state.size.width as int);
    now.changed.contains(i as usize) && (now.buffer[i].is_link() || state.buffer[i].is_link())
        && row < state.size.height ==> now.needs_rebuild[row]
}

proof fn lemma_links_marked(state: BackendView, content: Seq<DrawnCellView>)
    requires
        state.wf(),
        state.all_in_range(content),
        within_rows(content, state.size.width),
    ensures
        forall|i: int|
            0 <= i < state.buffer.len() ==> #[trigger] cell_marked(
                state,
                state.drawn(content),
                i,
            ),
    decreases content.len(),
{
    let width = state.size.width as int;
    if content.len() > 0 {
        let rest = content.drop_last();
        let last = content.last();
        lemma_range_of_rest(state, content);
        assert forall|k: int| 0 <= k < rest.len() implies (#[trigger] rest[k]) == content[k] by {}
        lemma_links_marked(state, rest);
        lemma_drawn(state, rest);
        assert(last == content[content.len() - 1]);
        assert(state.in_range(last.at) && last.at.x < state.size.width);
        let before = state.drawn(rest);
        let index = last.at.index(state.size.width);
        lemma_row_start(last.at.y as int, width);
        lemma_row_is(index, width, last.at.y as int);
        lemma_mark_replaced(state, before, index, last.cell);
        if last.cell.covers_next(display_width(last.cell.symbol)) && index + 1
            < state.buffer.len() {
            let drawn = before.replaced(index, last.cell, index / width);
            lemma_replaced(state, before, index, last.cell, index / width);
            lemma_mark_replaced(state, drawn, index + 1, state.covered_cell());
        }
    }
}

proof fn lemma_mark_replaced(state: BackendView, before: BackendView, index: int, cell: CellView)
    requires
        state.wf(),
        frame_kept(state, before),
        0 <= index < state.buffer.len(),
        forall|i: int| 0 <= i < state.buffer.len() ==> #[trigger] cell_marked(state, before, i),
    ensures
        forall|i: int|
            0 <= i < state.buffer.len() ==> #[trigger] cell_marked(
                state,
                before.replaced(index, cell, index / (state.size.width as int)),
                i,
            ),
{
    let width = state.size.width as int;
    let now = before.replaced(index, cell, index / width);
    assert forall|i: int| 0 <= i < state.buffer.len() implies #[trigger] cell_marked(
        state,
        now,
        i,
    ) by {
        assert(cell_marked(state, before, i));
        assert(cell_kept(state, before, i));
        lemma_row_bounds(i, width);
        if now.changed.contains(i as usize) && i != index {
            let k = choose|k: int| 0 <= k < now.changed.len() && now.changed[k] == i as usize;
            assert(before.changed[k] == i as usize);
        }
    }
}

/// What is known of a row once it had its turn to be rebuilt.
spec fn row_done(page: Page, now: BackendView, after: Page, row: int) -> bool {
    let width = now.size.width as int;
    if now.needs_rebuild[row] {
        &&& after.rows[row] == row_nodes(now.buffer, width, row)
        &&& forall|i: int|
            row * width <= i < row * width + width ==> #[trigger] after.faces[i] == face(
                now.buffer[i],
                now.buffer[i].is_link(),
            )
    } else {
        row_untouched(page, now, after, row)
    }
}

/// A row is as it was.
spec fn row_untouched(page: Page, now: BackendView, after: Page, row: int) -> bool {
    let width = now.size.width as int;
    &&& after.rows[row] == page.rows[row]
    &&& forall|i: int|
        row * width <= i < row * width + width ==> #[trigger] after.faces[i] == page.faces[i]
}

/// What is known of the page once the first `count` rows had their turn to be
/// rebuilt.
spec fn rows_done(page: Page, now: BackendView, after: Page, count: nat) -> bool {
    &&& only_cells_changed(page, after)
    &&& after.faces.len() == page.faces.len()
    &&& after.rows.len() == page.rows.len()
    &&& forall|row: int|
        0 <= row < count && row < now.rows ==> #[trigger] row_done(page, now, after, row)
    &&& forall|row: int|
        count <= row < now.rows ==> #[trigger] row_untouched(page, now, after, row)
    &&& forall|i: int|
        now.rows * now.size.width <= i < now.buffer.len() ==> #[trigger] after.faces[i]
            == page.faces[i]
}

proof fn lemma_rebuilds(page: Page, state: BackendView, now: BackendView, count: nat)
    requires
        state.wf(),
        page.shows(state),
        frame_kept(state, now),
        count <= state.size.height,
    ensures
        rows_done(page, now, page.apply_all(now.rebuilds(count)), count),
    decreases count,
{
    if count > 0 {
        let row = count - 1;
        let previous = (count - 1) as nat;
        lemma_rebuilds(page, state, now, previous);
        if now.touched[row] && now.needs_rebuild[row] && row < now.rows {
            lemma_one_rebuild(page, state, now, count);
        } else {
            let before = page.apply_all(now.rebuilds(previous));
            assert(now.rebuilds(previous) + Seq::empty() =~= now.rebuilds(previous));
            assert(now.rebuilds(count) == now.rebuilds(previous));
            assert forall|r: int| 0 <= r < count && r < now.rows implies #[trigger] row_done(
                page,
                now,
                before,
                r,
            ) by {
                if r == row {
                    assert(row_untouched(page, now, before, r));
                }
            }
        }
    }
}

/// One more row is rebuilt.
proof fn lemma_one_rebuild(page: Page, state: BackendView, now: BackendView, count: nat)
    requires
        state.wf(),
        page.shows(state),
        frame_kept(state, now),
        0 < count <= state.size.height,
        count <= now.rows,
        now.touched[count - 1],
        now.needs_rebuild[count - 1],
        rows_done(
            page,
            now,
            page.apply_all(now.rebuilds((count - 1) as nat)),
            (count - 1) as nat,
        ),
    ensures
        rows_done(page, now, page.apply_all(now.rebuilds(count)), count),
{
    let row = count - 1;
    let rows = now.rows as int;
    let width = now.size.width as int;
    let previous = (count - 1) as nat;
    let before = page.apply_all(now.rebuilds(previous));
    let after = page.apply_all(now.rebuilds(count));
    let start = row * width;
    let end = row * width + width;
    assert(row_untouched(page, now, before, row));
    lemma_row_fits(row, rows, width);
    lemma_apply_add(page, now.rebuilds(previous), now.row_rebuild(row));
    lemma_loose(page, state, now, before, row);
    lemma_rebuild(before, now.buffer, row, start, end);
    assert(after.rows[row] == row_nodes(now.buffer, width, row));
    assert(row_done(page, now, after, row));
    assert forall|r: int| 0 <= r < previous && r < now.rows implies #[trigger] row_done(
        page,
        now,
        after,
        r,
    ) by {
        assert(row_done(page, now, before, r));
        lemma_row_fits(r, rows, width);
        assert forall|i: int| r * width <= i < r * width + width implies #[trigger] after.faces[i]
            == before.faces[i] by {
            lemma_rows_apart(i, width, r, row);
        }
    }
    assert forall|r: int| count <= r < now.rows implies #[trigger] row_untouched(
        page,
        now,
        after,
        r,
    ) by {
        assert(row_untouched(page, now, before, r));
        lemma_row_fits(r, rows, width);
        assert forall|i: int| r * width <= i < r * width + width implies #[trigger] after.faces[i]
            == before.faces[i] by {
            lemma_rows_apart(i, width, r, row);
        }
    }
}

/// Once a row is empty, its cells sit nowhere.
proof fn lemma_loose(
    page: Page,
    state: BackendView,
    now: BackendView,
    before: Page,
    row: int,
)
    requires
        state.wf(),
        page.shows(state),
        frame_kept(state, now),
        0 <= row < state.rows,
        rows_done(page, now, before, row as nat),
    ensures
        ({
            let width = state.size.width as int;
            let cleared = before.apply(EffectView::ClearRow { row });
            all_loose(cleared, row * width, row * width + width)
        }),
{
    let width = state.size.width as int;
    let rows = state.rows as int;
    let cleared = before.apply(EffectView::ClearRow { row });
    assert forall|cell: int| row * width <= cell < row * width + width implies
        #[trigger] cleared.is_loose(cell) by {
        assert forall|r: int, k: int|
            0 <= r < cleared.rows.len() && 0 <= k < cleared.rows[r].len() implies !mentions(
            #[trigger] cleared.rows[r][k],
            cell,
        ) by {
            if r != row {
                lemma_row_fits(r, rows, width);
                lemma_layout_within(state.buffer, r * width, r * width + width);
                lemma_layout_within(now.buffer, r * width, r * width + width);
                assert(page.rows[r] == row_nodes(state.buffer, width, r));
                if r < row {
                    assert(row_done(page, now, before, r));
                } else {
                    assert(row_untouched(page, now, before, r));
                }
                if mentions(cleared.rows[r][k], cell) {
                    if cleared.rows[r] == row_nodes(state.buffer, width, r) {
                        assert(mentions(
                            layout(state.buffer, r * width, r * width + width)[k],
                            cell,
                        ));
                    } else {
                        assert(mentions(
                            layout(now.buffer, r * width, r * width + width)[k],
                            cell,
                        ));
                    }
                    lemma_rows_apart(cell, width, r, row);
                }
            }
        }
    }
}

/// What is known of a cell once the updates had their turn.
spec fn update_done(page: Page, now: BackendView, after: Page, count: nat, i: int) -> bool {
    &&& now.is_rebuilt(i) ==> after.faces[i] == page.faces[i]
    &&& !now.is_rebuilt(i) && (exists|k: int| 0 <= k < count && #[trigger] now.changed[k] == i)
        ==> after.faces[i] == face(now.buffer[i], false)
    &&& (forall|k: int| 0 <= k < count ==> #[trigger] now.changed[k] != i) ==> after.faces[i]
        == page.faces[i]
}

proof fn lemma_updates(page: Page, now: BackendView, count: nat)
    requires
        count <= now.changed.len(),
        page.faces.len() == now.buffer.len(),
        forall|k: int| 0 <= k < now.changed.len() ==> (#[trigger] now.changed[k])
            < now.buffer.len(),
    ensures
        ({
            let after = page.apply_all(now.updates(count));
            &&& after == (Page { faces: after.faces, ..page })
            &&& after.faces.len() == page.faces.len()
            &&& forall|i: int|
                0 <= i < page.faces.len() ==> #[trigger] update_done(page, now, after, count, i)
        }),
    decreases count,
{
    if count > 0 {
        let previous = (count - 1) as nat;
        lemma_updates(page, now, previous);
        let before = page.apply_all(now.updates(previous));
        let after = page.apply_all(now.updates(count));
        let index = now.changed[count - 1] as int;
        assert(0 <= index < now.buffer.len());
        if !now.is_rebuilt(index) {
            let update = content_effect(index, now.buffer[index], false);
            assert(now.updates(count).drop_last() =~= now.updates(previous));
            assert(now.updates(count).last() == update);
            assert(after == before.apply(update));
        } else {
            assert(after == before);
        }
        assert forall|i: int| 0 <= i < page.faces.len() implies #[trigger] update_done(
            page,
            now,
            after,
            count,
            i,
        ) by {
            assert(update_done(page, now, before, previous, i));
            if exists|k: int| 0 <= k < count && #[trigger] now.changed[k] == i {
                let k = choose|k: int| 0 <= k < count && #[trigger] now.changed[k] == i;
                if k < previous {
                    assert(now.changed[k] == i);
                }
            }
        }
    } else {
        assert(page.apply_all(now.updates(0)) == page);
        assert forall|i: int| 0 <= i < page.faces.len() implies #[trigger] update_done(
            page,
            now,
            page,
            0,
            i,
        ) by {}
    }
}

pub proof fn lemma_no_rebuilds(now: BackendView, count: nat)
    requires
        forall|row: int| 0 <= row < count ==> !(#[trigger] now.needs_rebuild[row]),
    ensures
        now.rebuilds(count) == Seq::<EffectView>::empty(),
    decreases count,
{
    if count > 0 {
        lemma_no_rebuilds(now, (count - 1) as nat);
        assert(!now.needs_rebuild[count - 1]);
        assert(now.rebuilds(count) =~= Seq::<EffectView>::empty());
    }
}

pub proof fn lemma_all_updates(now: BackendView, count: nat)
    requires
        count <= now.changed.len(),
        now.needs_rebuild.len() == now.size.height,
        forall|row: int| 0 <= row < now.size.height ==> !(#[trigger] now.needs_rebuild[row]),
        forall|k: int| 0 <= k < now.changed.len() ==> (#[trigger] now.changed[k])
            < now.buffer.len(),
        now.size.width == 0 ==> now.buffer.len() == 0,
    ensures
        now.updates(count).len() == count,
        forall|k: int|
            0 <= k < count ==> #[trigger] now.updates(count)[k] == content_effect(
                now.changed[k] as int,
                now.buffer[now.changed[k] as int],
                false,
            ),
    decreases count,
{
    if count > 0 {
        lemma_all_updates(now, (count - 1) as nat);
        let index = now.changed[count - 1] as int;
        assert(0 <= index < now.buffer.len());
        assert(0 <= index / (now.size.width as int)) by (nonlinear_arith)
            requires
                0 <= index,
                0 < now.size.width,
        ;
        assert(!now.is_rebuilt(index));
    }
}

proof fn lemma_plain(state: BackendView, content: Seq<DrawnCellView>)
    requires
        state.wf(),
        state.all_in_range(content),
        forall|i: int| 0 <= i < state.buffer.len() ==> !(#[trigger] state.buffer[i]).is_link(),
        forall|k: int| 0 <= k < content.len() ==> !(#[trigger] content[k]).cell.is_link(),
    ensures
        ({
            let now = state.drawn(content);
            &&& now.size == state.size
            &&& now.covered_css == state.covered_css
            &&& now.buffer.len() == state.buffer.len()
            &&& now.needs_rebuild.len() == now.size.height
            &&& forall|row: int| 0 <= row < now.size.height ==> !(
            #[trigger] now.needs_rebuild[row])
            &&& forall|i: int| 0 <= i < now.buffer.len() ==> !(#[trigger] now.buffer[i]).is_link()
            &&& forall|k: int| 0 <= k < now.changed.len() ==> (#[trigger] now.changed[k])
                < now.buffer.len()
        }),
    decreases content.len(),
{
    if content.len() > 0 {
        let rest = content.drop_last();
        let last = content.last();
        assert forall|k: int| 0 <= k < rest.len() implies state.in_range(
            (#[trigger] rest[k]).at,
        ) && !rest[k].cell.is_link() by {
            assert(rest[k] == content[k]);
        }
        lemma_plain(state, rest);
        lemma_plain_cells(state.covered_css);
        assert(last == content[content.len() - 1]);
        assert(state.in_range(last.at));
        let index = last.at.index(state.size.width);
        assert(index as usize == index);
        assert((index + 1) as usize == index + 1);
    }
}

/// A cell lies between the ends of its row.
pub proof fn lemma_row_bounds(i: int, width: int)
    requires
        0 <= i,
        0 < width,
    ensures
        0 <= i / width,
        (i / width) * width <= i < (i / width) * width + width,
{
    assert(0 <= i / width && (i / width) * width <= i < (i / width) * width + width)
        by (nonlinear_arith)
        requires
            0 <= i,
            0 < width,
    ;
}

/// The row of a cell is on the grid.
proof fn lemma_row_of(i: int, width: int, height: int)
    requires
        0 <= i < height * width,
        0 <= width,
        0 <= height,
    ensures
        i / width < height,
{
    assert(0 < width) by (nonlinear_arith)
        requires
            0 <= i < height * width,
            0 <= width,
            0 <= height,
    ;
    assert(i / width < height) by (nonlinear_arith)
        requires
            0 <= i < height * width,
            0 < width,
    ;
}

/// The row of a cell is the one between whose ends it lies.
pub proof fn lemma_row_is(i: int, width: int, row: int)
    requires
        0 <= row,
        row * width <= i < row * width + width,
    ensures
        0 < width,
        i / width == row,
{
    assert(i / width == row) by (nonlinear_arith)
        requires
            0 <= row,
            0 < width,
            row * width <= i < row * width + width,
    ;
}

/// A row starts behind its predecessors.
proof fn lemma_row_start(row: int, width: int)
    requires
        0 <= row,
        0 <= width,
    ensures
        0 <= row * width,
{
    assert(0 <= row * width) by (nonlinear_arith)
        requires
            0 <= row,
            0 <= width,
    ;
}

/// No cell is in two rows.
proof fn lemma_rows_apart(i: int, width: int, one: int, other: int)
    requires
        0 <= one,
        0 <= other,
        one != other,
        one * width <= i < one * width + width,
    ensures
        !(other * width <= i < other * width + width),
{
    if other * width <= i < other * width + width {
        lemma_row_is(i, width, one);
        lemma_row_is(i, width, other);
    }
}

} // verus!
