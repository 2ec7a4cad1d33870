//! What is asked for to lay out a row, and its hyperlinks.
use crate::cell::CellView;
use crate::effect::{AttributeView, EffectView};
use crate::laws::cells::law_style_of_cells;
use crate::laws::rows::is_run;
use crate::page::{layout, Node};
use crate::row::{
    anchor_attributes, content_effect, fill_effects, lemma_run_end, link_effects,
    rebuild_effects, run_end, run_text,
};
use vstd::prelude::*;

verus! {

/// The address of a hyperlink is made of the symbols of all its cells, from first
/// to last: the address of some cells is that of the first ones, however many,
/// followed by that of the others, and one cell spells its symbol.
pub proof fn law_addresses_are_spelled_in_full(
    buffer: Seq<CellView>,
    start: int,
    mid: int,
    end: int,
)
    requires
        0 <= start <= mid <= end <= buffer.len(),
    ensures
        run_text(buffer, start, end) == run_text(buffer, start, mid) + run_text(
            buffer,
            mid,
            end,
        ),
        run_text(buffer, start, end).len() == run_text(buffer, start, mid).len() + run_text(
            buffer,
            mid,
            end,
        ).len(),
        run_text(buffer, start, start) == Seq::<char>::empty(),
        start < buffer.len() ==> run_text(buffer, start, start + 1) == buffer[start].symbol,
        run_text(buffer, start, end) == buffer.subrange(start, end).map_values(
            |cell: CellView| cell.symbol,
        ).flatten(),
{
    lemma_text_splits(buffer, start, mid, end);
    lemma_text_is_flat(buffer, start, end);
    if start < buffer.len() {
        assert(run_text(buffer, start, start) =~= Seq::<char>::empty());
        assert(run_text(buffer, start, start + 1) =~= buffer[start].symbol);
    }
}

proof fn lemma_text_splits(buffer: Seq<CellView>, start: int, mid: int, end: int)
    requires
        start <= mid <= end,
    ensures
        run_text(buffer, start, end) == run_text(buffer, start, mid) + run_text(
            buffer,
            mid,
            end,
        ),
    decreases end - mid,
{
    if mid < end {
        lemma_text_splits(buffer, start, mid, end - 1);
    }
    assert(run_text(buffer, start, end) =~= run_text(buffer, start, mid) + run_text(
        buffer,
        mid,
        end,
    ));
}

proof fn lemma_text_is_flat(buffer: Seq<CellView>, start: int, end: int)
    requires
        0 <= start <= end <= buffer.len(),
    ensures
        run_text(buffer, start, end) == buffer.subrange(start, end).map_values(
            |cell: CellView| cell.symbol,
        ).flatten(),
    decreases end - start,
{
    let symbol = |cell: CellView| cell.symbol;
    let symbols = buffer.subrange(start, end).map_values(symbol);
    if start < end {
        let rest = buffer.subrange(start, end - 1).map_values(symbol);
        lemma_text_is_flat(buffer, start, end - 1);
        assert(symbols =~= rest.push(buffer[end - 1].symbol));
        rest.lemma_flatten_push(buffer[end - 1].symbol);
    } else {
        assert(symbols.flatten() =~= Seq::<char>::empty());
    }
}

/// An anchor leads to its address in a new window, which gets no hold of this one,
/// is marked as one of this backend's, and is styled as a hyperlink.
pub proof fn law_anchors_lead_to_their_address(url: Seq<char>)
    ensures
        anchor_attributes(url).len() == 5,
        anchor_attributes(url)[0].name == "href"@,
        anchor_attributes(url)[0].value == url,
        anchor_attributes(url)[1].name == "target"@,
        anchor_attributes(url)[1].value == "_blank"@,
        anchor_attributes(url)[2].name == "rel"@,
        anchor_attributes(url)[2].value == "noopener"@,
        anchor_attributes(url)[3].name == "data-ratzilla-hyperlink"@,
        anchor_attributes(url)[3].value == "true"@,
        anchor_attributes(url)[4].name == "style"@,
        anchor_attributes(url)[4].value
            == "color: #268bd2; text-decoration: underline; cursor: pointer;"@,
{
}

/// The element of a cell gets the cell's symbol, and the cell's CSS; inside a
/// hyperlink, the style of hyperlinks comes behind it.
pub proof fn law_content_is_that_of_the_cell(index: int, cell: CellView)
    ensures
        content_effect(index, cell, false) == (EffectView::SetContent {
            cell: index,
            text: cell.symbol,
            style: cell.css,
        }),
        content_effect(index, cell, true) == (EffectView::SetContent {
            cell: index,
            text: cell.symbol,
            style: cell.css + " color: #268bd2; text-decoration: underline; cursor: pointer;"@,
        }),
{
    law_style_of_cells(cell);
}

/// A row is emptied before anything else. Then it is filled from left to right:
/// where no run of hyperlink cells goes across, the work on a part of the row is
/// that on its left side, and then that on its right side.
pub proof fn law_rows_are_filled_from_left_to_right(
    buffer: Seq<CellView>,
    row: int,
    start: int,
    mid: int,
    end: int,
)
    requires
        start <= mid <= end,
        start < mid < end ==> !(buffer[mid - 1].is_link() && buffer[mid].is_link()),
    ensures
        rebuild_effects(buffer, row, start, end)[0] == (EffectView::ClearRow { row }),
        rebuild_effects(buffer, row, start, end).skip(1) == fill_effects(
            buffer,
            row,
            start,
            end,
        ),
        fill_effects(buffer, row, start, end) == fill_effects(buffer, row, start, mid)
            + fill_effects(buffer, row, mid, end),
        fill_effects(buffer, row, start, start) == Seq::<EffectView>::empty(),
{
    assert(rebuild_effects(buffer, row, start, end).skip(1) =~= fill_effects(
        buffer,
        row,
        start,
        end,
    ));
    lemma_fill_splits(buffer, row, start, mid, end);
}

/// A run that ends before a part of the row does also ends there in the part.
proof fn lemma_run_in_part(buffer: Seq<CellView>, start: int, mid: int, end: int)
    requires
        start <= mid <= end,
        start < mid < end ==> !(buffer[mid - 1].is_link() && buffer[mid].is_link()),
        start < mid,
    ensures
        run_end(buffer, start, end) == run_end(buffer, start, mid),
    decreases mid - start,
{
    if buffer[start].is_link() {
        if start + 1 < mid {
            lemma_run_in_part(buffer, start + 1, mid, end);
        } else if mid < end {
            assert(!buffer[mid].is_link());
        }
    }
}

proof fn lemma_fill_splits(buffer: Seq<CellView>, row: int, start: int, mid: int, end: int)
    requires
        start <= mid <= end,
        start < mid < end ==> !(buffer[mid - 1].is_link() && buffer[mid].is_link()),
    ensures
        fill_effects(buffer, row, start, end) == fill_effects(buffer, row, start, mid)
            + fill_effects(buffer, row, mid, end),
    decreases mid - start,
{
    let whole = fill_effects(buffer, row, start, end);
    let left = fill_effects(buffer, row, start, mid);
    let right = fill_effects(buffer, row, mid, end);
    if start == mid {
        assert(left =~= Seq::<EffectView>::empty());
        assert(whole =~= left + right);
    } else if buffer[start].is_link() {
        let stop = run_end(buffer, start, mid);
        lemma_run_end(buffer, start, mid);
        lemma_run_in_part(buffer, start, mid, end);
        lemma_fill_splits(buffer, row, stop, mid, end);
        let run = seq![
            EffectView::CreateAnchor {
                attributes: anchor_attributes(run_text(buffer, start, stop)),
            },
        ] + link_effects(buffer, start, stop) + seq![EffectView::PlaceAnchor { row }];
        assert(left == run + fill_effects(buffer, row, stop, mid));
        assert(whole == run + fill_effects(buffer, row, stop, end));
        assert(whole =~= left + right);
    } else {
        lemma_fill_splits(buffer, row, start + 1, mid, end);
        assert(whole =~= left + right);
    }
}

/// A cell outside hyperlinks is shown and appended to its row.
pub proof fn law_plain_cells_are_appended(buffer: Seq<CellView>, row: int, cell: int)
    requires
        !buffer[cell].is_link(),
    ensures
        fill_effects(buffer, row, cell, cell + 1) == seq![
            EffectView::SetContent {
                cell,
                text: buffer[cell].symbol,
                style: buffer[cell].css,
            },
            EffectView::PlaceCell { row, cell },
        ],
{
    law_content_is_that_of_the_cell(cell, buffer[cell]);
    assert(fill_effects(buffer, row, cell + 1, cell + 1) =~= Seq::<EffectView>::empty());
    assert(fill_effects(buffer, row, cell, cell + 1) =~= seq![
        content_effect(cell, buffer[cell], false),
        EffectView::PlaceCell { row, cell },
    ]);
}

/// A run of hyperlink cells becomes one anchor, whose address is the text of the
/// whole run: the anchor is created, each cell of the run is shown and appended to
/// it in turn, and the anchor is appended to the row.
pub proof fn law_runs_become_anchors(buffer: Seq<CellView>, row: int, start: int, end: int)
    requires
        0 <= start < end <= buffer.len(),
        forall|i: int| start <= i < end ==> (#[trigger] buffer[i]).is_link(),
    ensures
        ({
            let work = fill_effects(buffer, row, start, end);
            let count = end - start;
            &&& work.len() == 2 * count + 2
            &&& work[0] matches EffectView::CreateAnchor { attributes } && attributes[0]
                == (AttributeView {
                name: "href"@,
                value: buffer.subrange(start, end).map_values(
                    |cell: CellView| cell.symbol,
                ).flatten(),
            })
            &&& work[2 * count + 1] == (EffectView::PlaceAnchor { row })
            &&& forall|i: int|
                0 <= i < count ==> #[trigger] work[2 * i + 1] == (EffectView::SetContent {
                    cell: start + i,
                    text: buffer[start + i].symbol,
                    style: buffer[start + i].css
                        + " color: #268bd2; text-decoration: underline; cursor: pointer;"@,
                })
            &&& forall|i: int|
                0 <= i < count ==> #[trigger] work[2 * i + 2] == (EffectView::PlaceInAnchor {
                    cell: start + i,
                })
        }),
        fill_effects(buffer, row, start, end)[0] == (EffectView::CreateAnchor {
            attributes: anchor_attributes(run_text(buffer, start, end)),
        }),
{
    lemma_run_end(buffer, start, end);
    let stop = run_end(buffer, start, end);
    assert(stop == end) by {
        if stop < end {
            assert(buffer[stop].is_link());
        }
    }
    lemma_text_is_flat(buffer, start, end);
    let inside = link_effects(buffer, start, end);
    lemma_link_effects(buffer, start, end);
    let work = fill_effects(buffer, row, start, end);
    assert(fill_effects(buffer, row, end, end) =~= Seq::<EffectView>::empty());
    assert(work =~= seq![
        EffectView::CreateAnchor {
            attributes: anchor_attributes(run_text(buffer, start, end)),
        },
    ] + inside + seq![EffectView::PlaceAnchor { row }]);
    let count = end - start;
    assert forall|i: int| 0 <= i < count implies #[trigger] work[2 * i + 1] == (
    EffectView::SetContent {
        cell: start + i,
        text: buffer[start + i].symbol,
        style: buffer[start + i].css
            + " color: #268bd2; text-decoration: underline; cursor: pointer;"@,
    }) by {
        assert(work[2 * i + 1] == inside[2 * i]);
        law_content_is_that_of_the_cell(start + i, buffer[start + i]);
    }
    assert forall|i: int| 0 <= i < count implies #[trigger] work[2 * i + 2] == (
    EffectView::PlaceInAnchor { cell: start + i }) by {
        assert(work[2 * i + 2] == inside[2 * i + 1]);
    }
}

proof fn lemma_link_effects(buffer: Seq<CellView>, start: int, end: int)
    requires
        start <= end,
    ensures
        link_effects(buffer, start, end).len() == 2 * (end - start),
        forall|i: int|
            0 <= i < end - start ==> #[trigger] link_effects(buffer, start, end)[2 * i]
                == content_effect(start + i, buffer[start + i], true),
        forall|i: int|
            0 <= i < end - start ==> #[trigger] link_effects(buffer, start, end)[2 * i + 1] == (
            EffectView::PlaceInAnchor { cell: start + i }),
    decreases end - start,
{
    if start < end {
        lemma_link_effects(buffer, start, end - 1);
        let rest = link_effects(buffer, start, end - 1);
        let all = link_effects(buffer, start, end);
        let count = end - start;
        assert forall|i: int| 0 <= i < count implies #[trigger] all[2 * i] == content_effect(
            start + i,
            buffer[start + i],
            true,
        ) by {
            if i < count - 1 {
                assert(all[2 * i] == rest[2 * i]);
            }
        }
        assert forall|i: int| 0 <= i < count implies #[trigger] all[2 * i + 1] == (
        EffectView::PlaceInAnchor { cell: start + i }) by {
            if i < count - 1 {
                assert(all[2 * i + 1] == rest[2 * i + 1]);
            }
        }
    }
}

/// Each run of hyperlink cells of a row, from its first to its last cell, sits in
/// one anchor of the row, whose address is the text of the whole run.
pub proof fn law_each_run_has_its_anchor(
    buffer: Seq<CellView>,
    low: int,
    high: int,
    start: int,
    end: int,
)
    requires
        0 <= low,
        high <= buffer.len(),
        is_run(buffer, low, high, start, end),
    ensures
        exists|k: int|
            #![trigger layout(buffer, low, high)[k]]
            {
                &&& 0 <= k < layout(buffer, low, high).len()
                &&& layout(buffer, low, high)[k] matches Node::Link { attributes, cells }
                    && cells == Seq::new((end - start) as nat, |i: int| start + i)
                    && attributes[0] == (AttributeView {
                    name: "href"@,
                    value: buffer.subrange(start, end).map_values(
                        |cell: CellView| cell.symbol,
                    ).flatten(),
                })
            },
    decreases high - low,
{
    let nodes = layout(buffer, low, high);
    lemma_text_is_flat(buffer, start, end);
    lemma_run_end(buffer, low, high);
    let stop = run_end(buffer, low, high);
    if low == start {
        assert(buffer[low].is_link());
        assert(stop == end) by {
            if stop < end {
                assert(buffer[stop].is_link());
            }
            if end < stop {
                assert(!buffer[end].is_link());
            }
        }
        let node = nodes[0];
        assert(crate::page::range(start, end) =~= Seq::new(
            (end - start) as nat,
            |i: int| start + i,
        ));
    } else {
        let next = if buffer[low].is_link() {
            stop
        } else {
            low + 1
        };
        assert(next <= start) by {
            if start < next {
                assert(buffer[start - 1].is_link());
            }
        }
        law_each_run_has_its_anchor(buffer, next, high, start, end);
        let rest = layout(buffer, next, high);
        let k = choose|k: int|
            #![trigger rest[k]]
            {
                &&& 0 <= k < rest.len()
                &&& rest[k] matches Node::Link { attributes, cells } && cells == Seq::new(
                    (end - start) as nat,
                    |i: int| start + i,
                ) && attributes[0] == (AttributeView {
                    name: "href"@,
                    value: buffer.subrange(start, end).map_values(
                        |cell: CellView| cell.symbol,
                    ).flatten(),
                })
            };
        assert(nodes[k + 1] == rest[k]);
    }
}

} // verus!
