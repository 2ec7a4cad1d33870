//! What the page looks like once the grid is set up.
use crate::backend::draw::lemma_row_fits;
use crate::backend::{DrawAction, DrawEvent};
use crate::cell::{lemma_plain_cells, CellView};
use crate::effect::EffectView;
use crate::geometry::{lemma_product_fits, Size};
use crate::laws::rows::{law_layout_depends_on_links, lemma_layout_within, same_links};
use crate::page::{
    cells_without, face, layout, lemma_apply_add, lemma_apply_one, lemma_cells_without,
    lemma_take_loose, mentions, range, row_nodes, Node, Page,
};
use crate::state::{create_cells, place_cells, row_effects, BackendView};
use vstd::prelude::*;

verus! {

/// The state of a backend to whose grid rows of blank cells were added.
pub open spec fn filled(state: BackendView) -> BackendView {
    BackendView {
        buffer: state.buffer + Seq::new(
            (state.size.height * state.size.width) as nat,
            |i: int| state.blank_cell(),
        ),
        rows: state.rows + state.size.height as nat,
        hyperlink_click: true,
        ..state
    }
}

/// Attaching an empty grid fills it: each piece of the work can be taken note
/// of in turn, every row and every cell gets its element, and the page shows
/// blank cells, with the rows in order.
pub proof fn law_attached_grid_is_blank(page: Page, state: BackendView, style: Seq<char>)
    requires
        state.wf(),
        state.is_blank(),
        page.is_empty(),
    ensures
        state.has_room(),
        state.accepts_all(state.attach_effects(style)),
        state.after_all(state.attach_effects(style)) == filled(state),
        filled(state).wf(),
        filled(state).is_populated(),
        forall|i: int|
            0 <= i < filled(state).buffer.len() ==> #[trigger] filled(state).buffer[i]
                == state.blank_cell(),
        page.apply_all(state.attach_effects(style)).shows(filled(state)),
        page.apply_all(state.attach_effects(style)).attached(),
        page.apply_all(state.attach_effects(style)).grid_id == page.grid_id,
        page.apply_all(state.attach_effects(style)).order == range(0, state.size.height as int),
        page.apply_all(state.attach_effects(style)).cursors == Set::<int>::empty(),
{
    lemma_product_fits(state.size.height as int, state.size.width as int);
    assert(0 * state.size.width == 0) by (nonlinear_arith);
    assert(page.order =~= range(0, 0));
    law_attached_grid_gets_blank_rows(page, state, style);
    let parent = page.apply_all(state.attach_effects(style)).parent;
    assert(parent[parent.len() - 1] == page.grid);
}

/// Attaching a grid adds rows of blank cells to those that it has, which stay
/// as they are.
pub proof fn law_attached_grid_gets_blank_rows(page: Page, state: BackendView, style: Seq<char>)
    requires
        state.wf(),
        state.has_room(),
        state.size.height > 0 ==> state.rows * state.size.width == state.buffer.len(),
        page.shows(state),
        page.order == range(0, state.rows as int),
    ensures
        state.accepts_all(state.attach_effects(style)),
        state.after_all(state.attach_effects(style)) == filled(state),
        filled(state).wf(),
        page.apply_all(state.attach_effects(style)).shows(filled(state)),
        page.apply_all(state.attach_effects(style)) == (Page {
            parent: cells_without(page.parent, page.grid).push(page.grid),
            faces: page.apply_all(state.attach_effects(style)).faces,
            rows: page.apply_all(state.attach_effects(style)).rows,
            order: range(0, filled(state).rows as int),
            ..page
        }),
{
    let height = state.size.height as nat;
    let width = state.size.width as int;
    let attach = seq![EffectView::AttachGrid];
    let populate = state.populate_effects(style, height);
    let finish = seq![EffectView::ListenForHyperlinkClicks, EffectView::FocusGrid];
    let all = state.attach_effects(style);

    lemma_apply_one(page, EffectView::AttachGrid);
    let attached = page.apply(EffectView::AttachGrid);
    lemma_after_one(state, EffectView::AttachGrid);
    lemma_populated(attached, state, style, height);
    let shown = grid_page(attached, state, height);
    let known = grid_state(state, height);
    lemma_after_add(state, attach, populate);
    lemma_after_add(state, attach + populate, finish);
    lemma_apply_add(page, attach, populate);
    lemma_apply_add(page, attach + populate, finish);

    lemma_after_add(
        known,
        seq![EffectView::ListenForHyperlinkClicks],
        seq![EffectView::FocusGrid],
    );
    assert(seq![EffectView::ListenForHyperlinkClicks] + seq![EffectView::FocusGrid] =~= finish);
    lemma_after_one(known, EffectView::ListenForHyperlinkClicks);
    lemma_after_one(known.after(EffectView::ListenForHyperlinkClicks), EffectView::FocusGrid);
    lemma_apply_add(
        shown,
        seq![EffectView::ListenForHyperlinkClicks],
        seq![EffectView::FocusGrid],
    );
    lemma_apply_one(shown, EffectView::ListenForHyperlinkClicks);
    lemma_apply_one(shown, EffectView::FocusGrid);

    let after = filled(state);
    assert(state.after_all(all) =~= after);
    assert(page.apply_all(all) == shown);
    assert(0 <= height * width) by (nonlinear_arith)
        requires
            0 <= width,
    ;
    assert(width == 0 ==> height * width == 0) by (nonlinear_arith);
    assert(after.rows * width == state.rows * width + height * width) by (nonlinear_arith)
        requires
            after.rows == state.rows + height,
    ;
    assert(page.order + range(state.rows as int, after.rows as int) =~= range(
        0,
        after.rows as int,
    ));
    lemma_plain_cells(state.blank_css);
    assert forall|i: int| 0 <= i < after.buffer.len() implies #[trigger] shown.faces[i] == face(
        after.buffer[i],
        after.buffer[i].is_link(),
    ) by {
        if i < state.buffer.len() {
            assert(shown.faces[i] == page.faces[i]);
        }
    }
    assert forall|row: int| 0 <= row < after.rows implies #[trigger] shown.rows[row] == row_nodes(
        after.buffer,
        width,
        row,
    ) by {
        let start = row * width;
        let end = row * width + width;
        lemma_row_fits(row, after.rows as int, width);
        if row < state.rows {
            lemma_row_fits(row, state.rows as int, width);
            assert(shown.rows[row] == page.rows[row]);
            assert(same_links(state.buffer, after.buffer, start, end));
            law_layout_depends_on_links(state.buffer, after.buffer, start, end);
        } else {
            assert(state.rows * width <= row * width) by (nonlinear_arith)
                requires
                    state.rows <= row,
                    0 <= width,
            ;
            lemma_plain_layout(after.buffer, start, end);
            assert(shown.rows[row] == plain_nodes(
                (state.rows + (row - state.rows)) * width,
                width as nat,
            ));
        }
    }
}

/// A grid that is on the page already is replaced by an empty one, whatever the
/// state was; the empty grid may take any size.
pub proof fn law_present_grid_is_replaced(page: Page, state: BackendView, size: Size)
    requires
        state.wf(),
        state.cursor is None,
    ensures
        state.accepts_all(state.prepare_effects(true)),
        state.after_all(state.prepare_effects(true)).is_blank(),
        state.after_all(state.prepare_effects(true)) == state.after(
            EffectView::CreateGrid { id: state.options.grid_id() },
        ),
        (BackendView { size, ..state.after_all(state.prepare_effects(true)) }).wf(),
        page.apply_all(state.prepare_effects(true)).is_empty(),
        page.apply_all(state.prepare_effects(true)).grid_id == state.options.grid_id(),
        page.apply_all(state.prepare_effects(true)).parent == Seq::<int>::empty(),
        page.apply_all(state.prepare_effects(true)).grid == page.grid + 1,
{
    let empty = EffectView::EmptyParent;
    let create = EffectView::CreateGrid { id: state.options.grid_id() };
    let measure = EffectView::Measure;
    let first = seq![empty] + seq![create];
    assert(state.prepare_effects(true) =~= first + seq![measure]);
    lemma_after_add(state, first, seq![measure]);
    lemma_after_add(state, seq![empty], seq![create]);
    lemma_after_one(state, empty);
    lemma_after_one(state, create);
    lemma_after_one(state.after(create), measure);
    lemma_apply_add(page, first, seq![measure]);
    lemma_apply_add(page, seq![empty], seq![create]);
    lemma_apply_one(page, empty);
    lemma_apply_one(page.apply(empty), create);
    lemma_apply_one(page.apply(empty).apply(create), measure);
    assert(0 * size.width == 0) by (nonlinear_arith);
}

/// Where a grid was found on the page, the parent holds the new grid alone in the
/// end, whatever it held before and whichever id was chosen. The new grid has the
/// id under which the old one was found.
pub proof fn law_no_grid_stays_behind(
    page: Page,
    state: BackendView,
    size: Size,
    style: Seq<char>,
)
    requires
        state.wf(),
        state.cursor is None,
    ensures
        ({
            let cleared = page.apply_all(state.prepare_effects(true));
            let sized = BackendView { size, ..state.after_all(state.prepare_effects(true)) };
            let attached = cleared.apply_all(sized.attach_effects(style));
            &&& cleared.parent.len() == 0
            &&& attached.parent == seq![attached.grid]
            &&& attached.grid != page.grid
            &&& attached.grid_id == match state.options.chosen_id {
                Some(id) => id + "_ratzilla_grid"@,
                None => "grid"@,
            }
        }),
{
    law_present_grid_is_replaced(page, state, size);
    let cleared = page.apply_all(state.prepare_effects(true));
    let sized = BackendView { size, ..state.after_all(state.prepare_effects(true)) };
    law_attached_grid_is_blank(cleared, sized, style);
    lemma_product_fits(size.height as int, size.width as int);
    assert(0 * size.width == 0) by (nonlinear_arith);
    assert(cleared.order =~= range(0, 0));
    law_attached_grid_gets_blank_rows(cleared, sized, style);
    assert(cells_without(cleared.parent, cleared.grid).push(cleared.grid) =~= seq![
        cleared.grid,
    ]);
}

/// Where no grid was found on the page, the grid comes behind all that its parent
/// holds.
pub proof fn law_first_grid_is_appended(page: Page, state: BackendView, style: Seq<char>)
    requires
        state.wf(),
        state.is_blank(),
        page.is_empty(),
        !page.parent.contains(page.grid),
    ensures
        page.apply_all(state.prepare_effects(false) + state.attach_effects(style)).parent
            == page.parent.push(page.grid),
        page.apply_all(state.prepare_effects(false) + state.attach_effects(style)).grid
            == page.grid,
{
    lemma_apply_add(page, state.prepare_effects(false), state.attach_effects(style));
    law_attached_grid_is_blank(page, state, style);
    assert(0 * state.size.width == 0) by (nonlinear_arith);
    assert(page.order =~= range(0, 0));
    law_attached_grid_gets_blank_rows(page, state, style);
    lemma_cells_without(page.parent, page.grid);
}

/// The grid of a new backend is empty, and so is the page's grid once the
/// backend's first work is done.
pub proof fn law_new_grid_is_empty(page: Page, state: BackendView)
    requires
        state == BackendView::initial(
            state.options,
            state.size,
            state.blank_css,
            state.covered_css,
        ),
    ensures
        state.wf(),
        state.is_blank(),
        state.accepts_all(state.reset_effects()),
        state.after_all(state.reset_effects()) == state,
        page.apply_all(state.reset_effects()).is_empty(),
        page.apply_all(state.reset_effects()).grid_id == state.options.grid_id(),
{
    let create = EffectView::CreateGrid { id: state.options.grid_id() };
    lemma_after_one(state, create);
    lemma_apply_one(page, create);
    assert(state.after(create) =~= state);
    assert(0 * state.size.width == 0) by (nonlinear_arith);
}

/// A draw of a backend that is new, or whose window was resized, looks for the
/// grid, and the cursor is nowhere then, so that no cell is asked to lose its
/// class. Draws after it go on at once.
pub proof fn law_grid_is_set_up_once(state: BackendView, first: DrawAction, second: DrawAction)
    requires
        !state.initialized,
        state.is_due(DrawEvent::Called, first),
        state.advanced(DrawEvent::Called).is_due(DrawEvent::Called, second),
    ensures
        first is FindGrid,
        second is DrawFrame,
        state.advanced(DrawEvent::Called).cursor is None,
        state.advanced(DrawEvent::Called).remove_cursor(
            state.advanced(DrawEvent::Called).cursor,
        ) == Seq::<EffectView>::empty(),
        state.advanced(DrawEvent::Called).advanced(DrawEvent::Called) == state.advanced(
            DrawEvent::Called,
        ),
{
}

/// Wherever a list of work stops, the state is in order: every row that is
/// there has its cells.
pub proof fn law_interrupted_work_leaves_order(
    state: BackendView,
    effects: Seq<EffectView>,
    done: int,
)
    requires
        state.wf(),
        state.accepts_all(effects),
        state.buffer.len() + effects.len() <= usize::MAX,
        0 <= done <= effects.len(),
    ensures
        state.accepts_all(effects.take(done)),
        state.after_all(effects.take(done)).wf(),
        state.after_all(effects.take(done)).buffer.len() <= state.buffer.len() + done,
    decreases effects.len(),
{
    let stopped = effects.take(done);
    if done < effects.len() {
        assert(effects.drop_last().take(done) =~= stopped);
        law_interrupted_work_leaves_order(state, effects.drop_last(), done);
    } else if done > 0 {
        assert(stopped =~= effects);
        let rest = effects.drop_last();
        assert(rest.take(done - 1) =~= rest);
        law_interrupted_work_leaves_order(state, rest, done - 1);
        let before = state.after_all(rest);
        assert(0 * before.size.width == 0) by (nonlinear_arith);
    }
}

/// Work on two lists in turn is work on the first, and then on the second.
pub proof fn lemma_after_add(
    state: BackendView,
    first: Seq<EffectView>,
    second: Seq<EffectView>,
)
    ensures
        state.after_all(first + second) == state.after_all(first).after_all(second),
        state.accepts_all(first + second) == (state.accepts_all(first) && state.after_all(
            first,
        ).accepts_all(second)),
    decreases second.len(),
{
    if second.len() == 0 {
        assert(first + second =~= first);
    } else {
        assert((first + second).drop_last() =~= first + second.drop_last());
        lemma_after_add(state, first, second.drop_last());
    }
}

/// Work on one piece.
pub proof fn lemma_after_one(state: BackendView, effect: EffectView)
    ensures
        state.after_all(seq![effect]) == state.after(effect),
        state.accepts_all(seq![effect]) == state.accepts(effect),
{
    let one = seq![effect];
    assert(one.drop_last() =~= Seq::empty());
    assert(state.after_all(one.drop_last()) == state);
    assert(state.accepts_all(one.drop_last()));
}

/// The state of a backend to whose grid `count` rows were added.
spec fn grid_state(state: BackendView, count: nat) -> BackendView {
    BackendView {
        buffer: state.buffer + Seq::new(
            (count * state.size.width) as nat,
            |i: int| state.blank_cell(),
        ),
        rows: state.rows + count,
        ..state
    }
}

/// The page to whose grid `count` rows were added.
spec fn grid_page(page: Page, state: BackendView, count: nat) -> Page {
    Page {
        faces: page.faces + Seq::new(
            (count * state.size.width) as nat,
            |i: int| face(state.blank_cell(), false),
        ),
        rows: page.rows + Seq::new(
            count,
            |k: int| plain_nodes((state.rows + k) * state.size.width, state.size.width as nat),
        ),
        order: page.order + range(state.rows as int, (state.rows + count) as int),
        ..page
    }
}

/// What is known before rows are added to a grid.
spec fn may_grow(page: Page, state: BackendView) -> bool {
    &&& state.wf()
    &&& state.has_room()
    &&& state.size.height > 0 ==> state.rows * state.size.width == state.buffer.len()
    &&& page.shows(state)
    &&& page.order == range(0, state.rows as int)
}

/// Cells by themselves, from `first` on.
spec fn plain_nodes(first: int, count: nat) -> Seq<Node> {
    Seq::new(count, |i: int| Node::Cell(first + i))
}

proof fn lemma_populated(page: Page, state: BackendView, style: Seq<char>, count: nat)
    requires
        may_grow(page, state),
        count <= state.size.height,
    ensures
        state.accepts_all(state.populate_effects(style, count)),
        state.after_all(state.populate_effects(style, count)) == grid_state(state, count),
        page.apply_all(state.populate_effects(style, count)) == grid_page(page, state, count),
    decreases count,
{
    let width = state.size.width as int;
    if count == 0 {
        assert(0 * width == 0);
        assert(grid_state(state, 0) =~= state);
        assert(grid_page(page, state, 0) =~= page);
    } else {
        let row = (count - 1) as nat;
        lemma_populated(page, state, style, row);
        let more = next_row(state, style, row);
        assert((state.rows + row) * width == state.buffer.len() + row * width)
            by (nonlinear_arith)
            requires
                state.rows * width == state.buffer.len(),
        ;
        assert(state.populate_effects(style, count) == state.populate_effects(style, row) + more);
        lemma_after_add(state, state.populate_effects(style, row), more);
        lemma_apply_add(page, state.populate_effects(style, row), more);
        assert(count * width == row * width + width) by (nonlinear_arith)
            requires
                count == row + 1,
        ;
        lemma_row_state(page, state, style, row);
        lemma_row_page(page, state, style, row);
    }
}

/// The work that adds one more row to a grid to which `row` rows were added.
spec fn next_row(state: BackendView, style: Seq<char>, row: nat) -> Seq<EffectView> {
    row_effects(
        (state.rows + row) as int,
        (state.rows + row) * state.size.width,
        state.size.width as nat,
        state.blank_cell(),
        style,
    )
}

proof fn lemma_row_state(page: Page, state: BackendView, style: Seq<char>, row: nat)
    requires
        may_grow(page, state),
        row < state.size.height,
        (row + 1) * state.size.width == row * state.size.width + state.size.width,
    ensures
        grid_state(state, row).accepts_all(next_row(state, style, row)),
        grid_state(state, row).after_all(next_row(state, style, row)) == grid_state(
            state,
            row + 1,
        ),
{
    let width = state.size.width as nat;
    let content = state.blank_cell();
    let before = grid_state(state, row);
    let create = create_cells(content, width);
    let line = EffectView::CreateRow { style };
    let at = (state.rows + row) as int;
    let place = place_cells(at, at * width, width);
    let append = EffectView::PlaceRow { row: at };
    lemma_created_state(before, content, width);
    let created = BackendView {
        buffer: before.buffer + Seq::new(width, |i: int| content),
        ..before
    };
    assert(0 <= row * width) by (nonlinear_arith);
    assert((at + 1) * width == state.rows * width + row * width + width) by (nonlinear_arith)
        requires
            at == state.rows + row,
    ;
    lemma_after_add(before, create, seq![line]);
    lemma_after_one(created, line);
    let lined = created.after(line);
    lemma_after_add(before, create + seq![line], place);
    lemma_placed_state(lined, at, at * width, width);
    lemma_after_add(before, create + seq![line] + place, seq![append]);
    lemma_after_one(lined, append);
    assert(lined.buffer =~= grid_state(state, row + 1).buffer);
    assert(lined =~= grid_state(state, row + 1));
}

proof fn lemma_created_state(state: BackendView, content: CellView, count: nat)
    requires
        count > 0 ==> state.size.width > 0,
    ensures
        state.accepts_all(create_cells(content, count)),
        state.after_all(create_cells(content, count)) == (BackendView {
            buffer: state.buffer + Seq::new(count, |i: int| content),
            ..state
        }),
    decreases count,
{
    let after = BackendView {
        buffer: state.buffer + Seq::new(count, |i: int| content),
        ..state
    };
    if count == 0 {
        assert(after =~= state);
    } else {
        let previous = (count - 1) as nat;
        lemma_created_state(state, content, previous);
        assert(create_cells(content, count).drop_last() =~= create_cells(content, previous));
        assert((state.buffer + Seq::new(previous, |i: int| content)).push(content)
            =~= after.buffer);
    }
}

proof fn lemma_placed_state(state: BackendView, row: int, first: int, count: nat)
    ensures
        state.accepts_all(place_cells(row, first, count)),
        state.after_all(place_cells(row, first, count)) == state,
    decreases count,
{
    if count > 0 {
        let previous = (count - 1) as nat;
        lemma_placed_state(state, row, first, previous);
        assert(place_cells(row, first, count).drop_last() =~= place_cells(row, first, previous));
    }
}

proof fn lemma_row_page(page: Page, state: BackendView, style: Seq<char>, row: nat)
    requires
        may_grow(page, state),
        row < state.size.height,
        (row + 1) * state.size.width == row * state.size.width + state.size.width,
    ensures
        grid_page(page, state, row).apply_all(next_row(state, style, row)) == grid_page(
            page,
            state,
            row + 1,
        ),
{
    let width = state.size.width as nat;
    let at = (state.rows + row) as int;
    let first = at * width;
    let content = state.blank_cell();
    let before = grid_page(page, state, row);
    let create = create_cells(content, width);
    let line = EffectView::CreateRow { style };
    let place = place_cells(at, first, width);
    let append = EffectView::PlaceRow { row: at };
    assert(0 <= row * width) by (nonlinear_arith);
    lemma_created_page(before, content, width);
    let created = before.apply_all(create);
    lemma_apply_add(before, create, seq![line]);
    lemma_apply_one(created, line);
    let lined = created.apply(line);
    lemma_apply_add(before, create + seq![line], place);
    assert forall|cell: int| first <= cell < first + width implies #[trigger] lined.is_loose(
        cell,
    ) by {
        assert forall|r: int, k: int|
            0 <= r < lined.rows.len() && 0 <= k < lined.rows[r].len() implies !mentions(
            #[trigger] lined.rows[r][k],
            cell,
        ) by {
            if r < at {
                lemma_row_fits(r, at, width as int);
                if r < state.rows {
                    assert(lined.rows[r] == page.rows[r]);
                    lemma_layout_within(state.buffer, r * width, r * width + width);
                    assert(page.rows[r] == row_nodes(state.buffer, width as int, r));
                    if mentions(lined.rows[r][k], cell) {
                        assert(mentions(
                            layout(state.buffer, r * width, r * width + width)[k],
                            cell,
                        ));
                    }
                } else {
                    assert(lined.rows[r] == plain_nodes(
                        (state.rows + (r - state.rows)) * width,
                        width,
                    ));
                }
            }
        }
    }
    lemma_placed_page(lined, at, first, width);
    let placed = lined.apply_all(place);
    lemma_apply_add(before, create + seq![line] + place, seq![append]);
    lemma_apply_one(placed, append);
    assert(placed.order =~= range(0, at));
    lemma_cells_without(placed.order, at);
    let after = placed.apply(append);
    let result = grid_page(page, state, row + 1);
    assert(after.order =~= result.order);
    assert(after.faces =~= result.faces);
    assert(Seq::<Node>::empty() + plain_nodes(first, width) =~= plain_nodes(first, width));
    assert(after.rows =~= result.rows);
    assert(after =~= result);
}

proof fn lemma_created_page(page: Page, content: CellView, count: nat)
    ensures
        page.apply_all(create_cells(content, count)) == (Page {
            faces: page.faces + Seq::new(count, |i: int| face(content, false)),
            ..page
        }),
    decreases count,
{
    let after = Page {
        faces: page.faces + Seq::new(count, |i: int| face(content, false)),
        ..page
    };
    if count == 0 {
        assert(after =~= page);
    } else {
        let previous = (count - 1) as nat;
        lemma_created_page(page, content, previous);
        assert(create_cells(content, count).drop_last() =~= create_cells(content, previous));
        assert((page.faces + Seq::new(previous, |i: int| face(content, false))).push(
            face(content, false),
        ) =~= after.faces);
    }
}

proof fn lemma_placed_page(page: Page, row: int, first: int, count: nat)
    requires
        0 <= row < page.rows.len(),
        forall|cell: int| first <= cell < first + count ==> #[trigger] page.is_loose(cell),
    ensures
        page.apply_all(place_cells(row, first, count)) == (Page {
            rows: page.rows.update(row, page.rows[row] + plain_nodes(first, count)),
            ..page
        }),
    decreases count,
{
    let after = Page {
        rows: page.rows.update(row, page.rows[row] + plain_nodes(first, count)),
        ..page
    };
    if count == 0 {
        assert(page.rows[row] + plain_nodes(first, 0) =~= page.rows[row]);
        assert(after.rows =~= page.rows);
        assert(after =~= page);
    } else {
        let previous = (count - 1) as nat;
        let cell = first + previous;
        lemma_placed_page(page, row, first, previous);
        assert(place_cells(row, first, count).drop_last() =~= place_cells(row, first, previous));
        let before = page.apply_all(place_cells(row, first, previous));
        assert(before.is_loose(cell)) by {
            assert(page.is_loose(cell));
            assert forall|r: int, k: int|
                0 <= r < before.rows.len() && 0 <= k < before.rows[r].len() implies !mentions(
                #[trigger] before.rows[r][k],
                cell,
            ) by {
                if r != row || k < page.rows[row].len() {
                    assert(before.rows[r][k] == page.rows[r][k]);
                }
            }
        }
        lemma_take_loose(before, cell);
        assert((page.rows[row] + plain_nodes(first, previous)).push(Node::Cell(cell))
            =~= page.rows[row] + plain_nodes(first, count));
        assert(before.apply(EffectView::PlaceCell { row, cell }).rows =~= after.rows);
    }
}

/// Without hyperlinks, a row holds its cells by themselves.
proof fn lemma_plain_layout(buffer: Seq<CellView>, start: int, end: int)
    requires
        start <= end,
        forall|i: int| start <= i < end ==> !(#[trigger] buffer[i]).is_link(),
    ensures
        layout(buffer, start, end) == plain_nodes(start, (end - start) as nat),
    decreases end - start,
{
    if start < end {
        lemma_plain_layout(buffer, start + 1, end);
        assert(!buffer[start].is_link());
    }
    assert(layout(buffer, start, end) =~= plain_nodes(start, (end - start) as nat));
}

} // verus!
