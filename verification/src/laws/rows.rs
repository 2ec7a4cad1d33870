//! How rows are laid out.
use crate::cell::CellView;
use crate::effect::{AttributeView, EffectView};
use crate::page::{
    face, layout, lemma_apply_add, lemma_apply_one, lemma_take_loose, mentions, range, Face, Node,
    Page,
};
use crate::row::{
    anchor_attributes, content_effect, fill_effects, lemma_run_end, link_effects, run_end,
    run_text,
};
use crate::text::HYPERLINK_SELECTOR;
use vstd::prelude::*;

verus! {

/// The cells in a node, in order.
pub open spec fn node_cells(node: Node) -> Seq<int> {
    match node {
        Node::Cell(cell) => seq![cell],
        Node::Link { cells, .. } => cells,
    }
}

/// The cells in nodes, in order.
pub open spec fn cells_of(nodes: Seq<Node>) -> Seq<int>
    decreases nodes.len(),
{
    if nodes.len() == 0 {
        Seq::empty()
    } else {
        node_cells(nodes[0]) + cells_of(nodes.skip(1))
    }
}

/// Whether the cells from `start` up to `end` are hyperlink cells, and the cells
/// before and behind them in their row, which goes from `low` up to `high`, are
/// not.
pub open spec fn is_run(
    buffer: Seq<CellView>,
    low: int,
    high: int,
    start: int,
    end: int,
) -> bool {
    &&& low <= start < end <= high
    &&& forall|i: int| start <= i < end ==> (#[trigger] buffer[i]).is_link()
    &&& low < start ==> !buffer[start - 1].is_link()
    &&& end < high ==> !buffer[end].is_link()
}

/// Whether a node belongs into the row from `low` up to `high`: it is a cell
/// outside all hyperlinks, or an anchor around a whole run of hyperlink cells,
/// whose target is the text of the run.
pub open spec fn node_fits(buffer: Seq<CellView>, low: int, high: int, node: Node) -> bool {
    match node {
        Node::Cell(cell) => low <= cell < high && !buffer[cell].is_link(),
        Node::Link { attributes, cells } => exists|start: int, end: int|
            #![trigger is_run(buffer, low, high, start, end)]
            {
                &&& is_run(buffer, low, high, start, end)
                &&& cells == range(start, end)
                &&& attributes == anchor_attributes(run_text(buffer, start, end))
            },
    }
}

/// A row holds each of its cells once, in order.
pub proof fn law_row_holds_its_cells(buffer: Seq<CellView>, start: int, end: int)
    requires
        start <= end,
    ensures
        cells_of(layout(buffer, start, end)) == range(start, end),
    decreases end - start,
{
    if start >= end {
        assert(cells_of(layout(buffer, start, end)) =~= range(start, end));
    } else {
        let nodes = layout(buffer, start, end);
        lemma_run_end(buffer, start, end);
        let next = if buffer[start].is_link() {
            run_end(buffer, start, end)
        } else {
            start + 1
        };
        law_row_holds_its_cells(buffer, next, end);
        assert(nodes.skip(1) =~= layout(buffer, next, end));
        assert(node_cells(nodes[0]) =~= range(start, next));
        assert(cells_of(nodes) =~= range(start, end));
    }
}

/// Each run of hyperlink cells in a row sits in one anchor, to the address that
/// the run spells; no other cell sits in an anchor.
pub proof fn law_row_links_its_runs(buffer: Seq<CellView>, start: int, end: int)
    requires
        start <= end,
    ensures
        forall|k: int|
            0 <= k < layout(buffer, start, end).len() ==> node_fits(
                buffer,
                start,
                end,
                #[trigger] layout(buffer, start, end)[k],
            ),
{
    lemma_nodes_fit(buffer, start, start, end);
}

proof fn lemma_nodes_fit(buffer: Seq<CellView>, low: int, start: int, end: int)
    requires
        low <= start <= end,
        low < start < end ==> !buffer[start - 1].is_link() || !buffer[start].is_link(),
    ensures
        forall|k: int|
            0 <= k < layout(buffer, start, end).len() ==> node_fits(
                buffer,
                low,
                end,
                #[trigger] layout(buffer, start, end)[k],
            ),
    decreases end - start,
{
    if start < end {
        lemma_run_end(buffer, start, end);
        let linked = buffer[start].is_link();
        let next = if linked {
            run_end(buffer, start, end)
        } else {
            start + 1
        };
        lemma_nodes_fit(buffer, low, next, end);
        let nodes = layout(buffer, start, end);
        let rest = layout(buffer, next, end);
        assert(nodes.skip(1) =~= rest);
        assert forall|k: int| 0 <= k < nodes.len() implies node_fits(
            buffer,
            low,
            end,
            #[trigger] nodes[k],
        ) by {
            if k == 0 {
                if linked {
                    assert(is_run(buffer, low, end, start, next));
                }
            } else {
                assert(nodes[k] == rest[k - 1]);
            }
        }
    }
}

/// The selector of hyperlinks speaks of an attribute that every anchor has, so
/// that a click inside one finds it.
pub proof fn law_selector_finds_anchors(url: Seq<char>)
    ensures
        anchor_attributes(url).contains(
            AttributeView { name: "data-ratzilla-hyperlink"@, value: "true"@ },
        ),
        HYPERLINK_SELECTOR@ == "a["@ + "data-ratzilla-hyperlink"@ + "=\""@ + "true"@ + "\"]"@,
        anchor_attributes(url).contains(AttributeView { name: "href"@, value: url }),
{
    let attributes = anchor_attributes(url);
    assert(attributes[0] == AttributeView { name: "href"@, value: url });
    assert(attributes[3] == AttributeView { name: "data-ratzilla-hyperlink"@, value: "true"@ });
    reveal_strlit("a[data-ratzilla-hyperlink=\"true\"]");
    reveal_strlit("a[");
    reveal_strlit("data-ratzilla-hyperlink");
    reveal_strlit("=\"");
    reveal_strlit("true");
    reveal_strlit("\"]");
    assert(HYPERLINK_SELECTOR@ =~= "a["@ + "data-ratzilla-hyperlink"@ + "=\""@ + "true"@
        + "\"]"@);
}

/// A row holds no cells but its own.
pub proof fn lemma_layout_within(buffer: Seq<CellView>, start: int, end: int)
    requires
        start <= end,
    ensures
        forall|k: int, cell: int|
            0 <= k < layout(buffer, start, end).len() && #[trigger] mentions(
                layout(buffer, start, end)[k],
                cell,
            ) ==> start <= cell < end,
    decreases end - start,
{
    if start < end {
        lemma_run_end(buffer, start, end);
        let linked = buffer[start].is_link();
        let next = if linked {
            run_end(buffer, start, end)
        } else {
            start + 1
        };
        lemma_layout_within(buffer, next, end);
        let nodes = layout(buffer, start, end);
        let rest = layout(buffer, next, end);
        assert(nodes.skip(1) =~= rest);
        assert forall|k: int, cell: int|
            0 <= k < nodes.len() && #[trigger] mentions(nodes[k], cell) implies start <= cell
            < end by {
            if k > 0 {
                assert(nodes[k] == rest[k - 1]);
                assert(mentions(rest[k - 1], cell));
            }
        }
    }
}

/// Whether two buffers have the same hyperlinks from `start` up to `end`.
pub open spec fn same_links(
    left: Seq<CellView>,
    right: Seq<CellView>,
    start: int,
    end: int,
) -> bool {
    forall|i: int|
        #![trigger left[i]]
        #![trigger right[i]]
        start <= i < end ==> {
            &&& left[i].is_link() == right[i].is_link()
            &&& left[i].is_link() ==> left[i] == right[i]
        }
}

/// The layout of a row depends on its hyperlinks alone.
pub proof fn law_layout_depends_on_links(
    left: Seq<CellView>,
    right: Seq<CellView>,
    start: int,
    end: int,
)
    requires
        start <= end,
        same_links(left, right, start, end),
    ensures
        layout(left, start, end) == layout(right, start, end),
    decreases end - start,
{
    if start < end {
        lemma_run_end(left, start, end);
        lemma_same_run(left, right, start, end);
        assert(left[start].is_link() == right[start].is_link());
        if left[start].is_link() {
            let stop = run_end(left, start, end);
            lemma_same_text(left, right, start, stop);
            law_layout_depends_on_links(left, right, stop, end);
        } else {
            law_layout_depends_on_links(left, right, start + 1, end);
        }
    }
}

/// Rows that are laid out alike have hyperlinks in the same places.
pub proof fn law_layout_tells_links(
    left: Seq<CellView>,
    right: Seq<CellView>,
    start: int,
    end: int,
    at: int,
)
    requires
        start <= at < end,
        layout(left, start, end) == layout(right, start, end),
    ensures
        left[at].is_link() == right[at].is_link(),
{
    let nodes = layout(left, start, end);
    lemma_layout_covers(left, start, end, at);
    let k = choose|k: int| 0 <= k < nodes.len() && #[trigger] mentions(nodes[k], at);
    law_row_links_its_runs(left, start, end);
    law_row_links_its_runs(right, start, end);
    lemma_node_tells_link(left, start, end, nodes[k], at);
    lemma_node_tells_link(right, start, end, nodes[k], at);
}

proof fn lemma_node_tells_link(
    buffer: Seq<CellView>,
    low: int,
    high: int,
    node: Node,
    at: int,
)
    requires
        node_fits(buffer, low, high, node),
        mentions(node, at),
    ensures
        buffer[at].is_link() == (node is Link),
{
    if let Node::Link { attributes, cells } = node {
        let (start, end) = choose|start: int, end: int|
            #![trigger is_run(buffer, low, high, start, end)]
            {
                &&& is_run(buffer, low, high, start, end)
                &&& cells == range(start, end)
                &&& attributes == anchor_attributes(run_text(buffer, start, end))
            };
        assert(start <= at < end);
    }
}

/// A row holds each of its cells.
proof fn lemma_layout_covers(buffer: Seq<CellView>, start: int, end: int, at: int)
    requires
        start <= at < end,
    ensures
        exists|k: int|
            0 <= k < layout(buffer, start, end).len() && #[trigger] mentions(
                layout(buffer, start, end)[k],
                at,
            ),
    decreases end - start,
{
    lemma_run_end(buffer, start, end);
    let next = if buffer[start].is_link() {
        run_end(buffer, start, end)
    } else {
        start + 1
    };
    let nodes = layout(buffer, start, end);
    let rest = layout(buffer, next, end);
    assert(nodes.skip(1) =~= rest);
    if at < next {
        assert(buffer[start].is_link() ==> range(start, next)[at - start] == at);
        assert(mentions(nodes[0], at));
    } else {
        lemma_layout_covers(buffer, next, end, at);
        let k = choose|k: int| 0 <= k < rest.len() && #[trigger] mentions(rest[k], at);
        assert(nodes[k + 1] == rest[k]);
        assert(mentions(nodes[k + 1], at));
    }
}

proof fn lemma_same_run(left: Seq<CellView>, right: Seq<CellView>, start: int, end: int)
    requires
        same_links(left, right, start, end),
    ensures
        run_end(left, start, end) == run_end(right, start, end),
    decreases end - start,
{
    if start < end {
        assert(left[start].is_link() == right[start].is_link());
        lemma_same_run(left, right, start + 1, end);
    }
}

proof fn lemma_same_text(left: Seq<CellView>, right: Seq<CellView>, start: int, end: int)
    requires
        same_links(left, right, start, end),
        forall|i: int| start <= i < end ==> (#[trigger] left[i]).is_link(),
    ensures
        run_text(left, start, end) == run_text(right, start, end),
    decreases end - start,
{
    if start < end {
        lemma_same_text(left, right, start, end - 1);
        assert(left[end - 1].is_link());
    }
}

/// The looks of cells, those from `start` up to `end` as the buffer says.
pub open spec fn painted(
    faces: Seq<Face>,
    buffer: Seq<CellView>,
    start: int,
    end: int,
) -> Seq<Face> {
    Seq::new(
        faces.len(),
        |i: int|
            if start <= i < end {
                face(buffer[i], buffer[i].is_link())
            } else {
                faces[i]
            },
    )
}

/// Whether the cells from `start` up to `end` sit nowhere.
pub open spec fn all_loose(page: Page, start: int, end: int) -> bool {
    forall|cell: int| start <= cell < end ==> #[trigger] page.is_loose(cell)
}

/// Filling the anchor.
proof fn lemma_fill_anchor(page: Page, buffer: Seq<CellView>, start: int, end: int)
    requires
        0 <= start <= end <= page.faces.len(),
        all_loose(page, start, end),
        forall|i: int| start <= i < end ==> (#[trigger] buffer[i]).is_link(),
    ensures
        page.apply_all(link_effects(buffer, start, end)) == (Page {
            faces: painted(page.faces, buffer, start, end),
            anchor_cells: page.anchor_cells + range(start, end),
            ..page
        }),
    decreases end - start,
{
    let result = Page {
        faces: painted(page.faces, buffer, start, end),
        anchor_cells: page.anchor_cells + range(start, end),
        ..page
    };
    if start >= end {
        assert(result =~= page);
    } else {
        let last = end - 1;
        lemma_fill_anchor(page, buffer, start, last);
        let before = link_effects(buffer, start, last);
        let show = content_effect(last, buffer[last], true);
        let place = EffectView::PlaceInAnchor { cell: last };
        let so_far = page.apply_all(before);
        lemma_apply_add(page, before, seq![show, place]);
        lemma_apply_add(so_far, seq![show], seq![place]);
        assert(seq![show] + seq![place] =~= seq![show, place]);
        lemma_apply_one(so_far, show);
        let shown = so_far.apply(show);
        lemma_apply_one(shown, place);
        assert(buffer[last].is_link());
        assert(shown.is_loose(last)) by {
            assert(page.is_loose(last));
            assert(shown.anchor_cells == page.anchor_cells + range(start, last));
            assert forall|k: int| 0 <= k < shown.anchor_cells.len() implies
                #[trigger] shown.anchor_cells[k] != last by {
                if k < page.anchor_cells.len() {
                    assert(page.anchor_cells.contains(page.anchor_cells[k]));
                }
            }
        }
        lemma_take_loose(shown, last);
        assert(shown.apply(place).faces =~= result.faces);
        assert(shown.apply(place).anchor_cells =~= result.anchor_cells);
        assert(page.apply_all(link_effects(buffer, start, end)) =~= result);
    }
}

/// Filling a row.
pub proof fn lemma_fill_row(page: Page, buffer: Seq<CellView>, row: int, start: int, end: int)
    requires
        0 <= start <= end <= page.faces.len(),
        0 <= row < page.rows.len(),
        page.is_idle(),
        all_loose(page, start, end),
    ensures
        page.apply_all(fill_effects(buffer, row, start, end)) == (Page {
            faces: painted(page.faces, buffer, start, end),
            rows: page.rows.update(row, page.rows[row] + layout(buffer, start, end)),
            ..page
        }),
    decreases end - start,
{
    let result = Page {
        faces: painted(page.faces, buffer, start, end),
        rows: page.rows.update(row, page.rows[row] + layout(buffer, start, end)),
        ..page
    };
    if start >= end {
        assert(page.rows[row] + layout(buffer, start, end) =~= page.rows[row]);
        assert(result.rows =~= page.rows);
        assert(result =~= page);
    } else {
        lemma_run_end(buffer, start, end);
        let linked = buffer[start].is_link();
        let next = if linked {
            run_end(buffer, start, end)
        } else {
            start + 1
        };
        let node = layout(buffer, start, end)[0];
        let rest = layout(buffer, next, end);
        let middle = Page {
            faces: painted(page.faces, buffer, start, next),
            ..page.appended(row, node)
        };
        assert(layout(buffer, start, end) =~= seq![node] + rest);
        let first = if linked {
            seq![
                EffectView::CreateAnchor {
                    attributes: anchor_attributes(run_text(buffer, start, next)),
                },
            ] + link_effects(buffer, start, next) + seq![EffectView::PlaceAnchor { row }]
        } else {
            seq![
                content_effect(start, buffer[start], false),
                EffectView::PlaceCell { row, cell: start },
            ]
        };
        assert(fill_effects(buffer, row, start, end) =~= first + fill_effects(
            buffer,
            row,
            next,
            end,
        ));
        if linked {
            lemma_place_link(page, buffer, row, start, next, first);
        } else {
            assert(page.is_loose(start));
            lemma_place_plain(page, buffer, row, start, first);
        }
        assert(page.apply_all(first) == middle);
        assert(all_loose(middle, next, end)) by {
            assert forall|cell: int| next <= cell < end implies #[trigger] middle.is_loose(
                cell,
            ) by {
                assert(page.is_loose(cell));
                assert(!mentions(node, cell));
                assert forall|r: int, k: int|
                    0 <= r < middle.rows.len() && 0 <= k < middle.rows[r].len() implies !mentions(
                    #[trigger] middle.rows[r][k],
                    cell,
                ) by {
                    if r == row && k == page.rows[row].len() {
                    } else {
                        assert(middle.rows[r][k] == page.rows[r][k]);
                    }
                }
            }
        }
        lemma_fill_row(middle, buffer, row, next, end);
        lemma_apply_add(page, first, fill_effects(buffer, row, next, end));
        assert(page.rows[row].push(node) + rest =~= page.rows[row] + layout(buffer, start, end));
        let after = page.apply_all(fill_effects(buffer, row, start, end));
        assert(after.rows =~= result.rows);
        assert(after.faces =~= result.faces);
        assert(after =~= result);
    }
}

/// A hyperlink comes into a row.
proof fn lemma_place_link(
    page: Page,
    buffer: Seq<CellView>,
    row: int,
    start: int,
    stop: int,
    effects: Seq<EffectView>,
)
    requires
        0 <= start <= stop <= page.faces.len(),
        0 <= row < page.rows.len(),
        page.is_idle(),
        all_loose(page, start, stop),
        forall|i: int| start <= i < stop ==> (#[trigger] buffer[i]).is_link(),
        effects == seq![
            EffectView::CreateAnchor {
                attributes: anchor_attributes(run_text(buffer, start, stop)),
            },
        ] + link_effects(buffer, start, stop) + seq![EffectView::PlaceAnchor { row }],
    ensures
        page.apply_all(effects) == (Page {
            faces: painted(page.faces, buffer, start, stop),
            ..page.appended(
                row,
                Node::Link {
                    attributes: anchor_attributes(run_text(buffer, start, stop)),
                    cells: range(start, stop),
                },
            )
        }),
{
    let attributes = anchor_attributes(run_text(buffer, start, stop));
    let create = EffectView::CreateAnchor { attributes };
    let place = EffectView::PlaceAnchor { row };
    let inside = link_effects(buffer, start, stop);
    lemma_apply_add(page, seq![create] + inside, seq![place]);
    lemma_apply_add(page, seq![create], inside);
    lemma_apply_one(page, create);
    let opened = page.apply(create);
    assert(all_loose(opened, start, stop)) by {
        assert forall|cell: int| start <= cell < stop implies #[trigger] opened.is_loose(cell) by {
            assert(page.is_loose(cell));
        }
    }
    lemma_fill_anchor(opened, buffer, start, stop);
    let filled = opened.apply_all(inside);
    lemma_apply_one(filled, place);
    assert(opened.anchor_cells + range(start, stop) =~= range(start, stop));
    assert(page.anchor_attributes =~= Seq::empty());
    assert(page.anchor_cells =~= Seq::empty());
}

/// A cell comes into a row by itself.
proof fn lemma_place_plain(
    page: Page,
    buffer: Seq<CellView>,
    row: int,
    at: int,
    effects: Seq<EffectView>,
)
    requires
        0 <= at < page.faces.len(),
        0 <= row < page.rows.len(),
        page.is_loose(at),
        !buffer[at].is_link(),
        effects == seq![
            content_effect(at, buffer[at], false),
            EffectView::PlaceCell { row, cell: at },
        ],
    ensures
        page.apply_all(effects) == (Page {
            faces: painted(page.faces, buffer, at, at + 1),
            ..page.appended(row, Node::Cell(at))
        }),
{
    let show = content_effect(at, buffer[at], false);
    let place = EffectView::PlaceCell { row, cell: at };
    lemma_apply_add(page, seq![show], seq![place]);
    assert(seq![show] + seq![place] =~= seq![show, place]);
    lemma_apply_one(page, show);
    let shown = page.apply(show);
    lemma_apply_one(shown, place);
    assert(shown.is_loose(at)) by {
        assert(page.is_loose(at));
        assert(shown.rows == page.rows);
    }
    lemma_take_loose(shown, at);
    assert(shown.faces =~= painted(page.faces, buffer, at, at + 1));
}

} // verus!
