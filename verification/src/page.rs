//! A model of the page, and of what work does to it.
use crate::cell::CellView;
use crate::effect::{AttributeView, EffectView};
use crate::row::{anchor_attributes, lemma_run_end, run_end, run_text};
use crate::state::BackendView;
use vstd::prelude::*;

verus! {

/// What a row holds.
#[verifier::ext_equal]
pub enum Node {
    /// A cell by itself.
    Cell(int),
    /// An anchor, with the cells in it.
    Link { attributes: Seq<AttributeView>, cells: Seq<int> },
}

/// How a cell looks.
#[verifier::ext_equal]
pub struct Face {
    pub text: Seq<char>,
    pub style: Seq<char>,
}

/// The grid, and where it is on the page.
#[verifier::ext_equal]
pub struct Page {
    /// The grids that the parent of the grid holds, from first to last, each by
    /// its place in the order in which grids were created.
    pub parent: Seq<int>,
    /// The place of the grid in that order: it is the one created last.
    pub grid: int,
    /// The id of the grid.
    pub grid_id: Seq<char>,
    /// The looks of the cells.
    pub faces: Seq<Face>,
    /// What the rows hold.
    pub rows: Seq<Seq<Node>>,
    /// The rows in the grid, from top to bottom.
    pub order: Seq<int>,
    /// The anchor that was created last, until a row holds it.
    pub anchor_attributes: Seq<AttributeView>,
    pub anchor_cells: Seq<int>,
    /// The cells with the cursor's class.
    pub cursors: Set<int>,
}

/// How a cell looks that shows `cell`.
pub open spec fn face(cell: CellView, in_link: bool) -> Face {
    Face { text: cell.symbol, style: cell.style(in_link) }
}

/// Whether a cell sits in a node.
pub open spec fn mentions(node: Node, cell: int) -> bool {
    match node {
        Node::Cell(other) => other == cell,
        Node::Link { cells, .. } => cells.contains(cell),
    }
}

/// Cells, or other things that are counted, less one.
pub open spec fn cells_without(cells: Seq<int>, cell: int) -> Seq<int>
    decreases cells.len(),
{
    if cells.len() == 0 {
        cells
    } else {
        let rest = cells_without(cells.drop_last(), cell);
        if cells.last() == cell {
            rest
        } else {
            rest.push(cells.last())
        }
    }
}

/// Nodes, from which one cell is taken out.
pub open spec fn nodes_without(nodes: Seq<Node>, cell: int) -> Seq<Node> {
    nodes.filter(|node: Node| node != Node::Cell(cell)).map_values(
        |node: Node|
            match node {
                Node::Cell(other) => Node::Cell(other),
                Node::Link { attributes, cells } => Node::Link {
                    attributes,
                    cells: cells_without(cells, cell),
                },
            },
    )
}

impl Page {
    /// Whether the grid is in its parent.
    pub open spec fn attached(self) -> bool {
        self.parent.contains(self.grid)
    }

    /// Whether no anchor is under construction.
    pub open spec fn is_idle(self) -> bool {
        self.anchor_attributes.len() == 0 && self.anchor_cells.len() == 0
    }

    /// Whether there are neither rows nor cells.
    pub open spec fn is_empty(self) -> bool {
        &&& self.faces.len() == 0
        &&& self.rows.len() == 0
        &&& self.order.len() == 0
        &&& self.cursors == Set::<int>::empty()
        &&& self.is_idle()
    }

    /// Whether a cell sits nowhere.
    pub open spec fn is_loose(self, cell: int) -> bool {
        &&& !self.anchor_cells.contains(cell)
        &&& forall|row: int, k: int|
            0 <= row < self.rows.len() && 0 <= k < self.rows[row].len() ==> !mentions(
                #[trigger] self.rows[row][k],
                cell,
            )
    }

    /// The page without a cell where it sits: an element that is appended
    /// leaves the place that it had.
    pub open spec fn taken(self, cell: int) -> Self {
        Page {
            rows: self.rows.map_values(|nodes: Seq<Node>| nodes_without(nodes, cell)),
            anchor_cells: cells_without(self.anchor_cells, cell),
            ..self
        }
    }

    /// The page with a node appended to a row.
    pub open spec fn appended(self, row: int, node: Node) -> Self {
        Page { rows: self.rows.update(row, self.rows[row].push(node)), ..self }
    }

    /// The page after a piece of work.
    pub open spec fn apply(self, effect: EffectView) -> Self {
        match effect {
            EffectView::EmptyParent => Page { parent: Seq::empty(), ..self },
            EffectView::CreateGrid { id } => Page {
                parent: self.parent,
                grid: self.grid + 1,
                grid_id: id,
                faces: Seq::empty(),
                rows: Seq::empty(),
                order: Seq::empty(),
                anchor_attributes: Seq::empty(),
                anchor_cells: Seq::empty(),
                cursors: Set::empty(),
            },
            EffectView::AttachGrid => Page {
                parent: cells_without(self.parent, self.grid).push(self.grid),
                ..self
            },
            EffectView::CreateCell { content } => Page {
                faces: self.faces.push(face(content, false)),
                ..self
            },
            EffectView::CreateRow { .. } => Page { rows: self.rows.push(Seq::empty()), ..self },
            EffectView::PlaceCell { row, cell } => self.taken(cell).appended(
                row,
                Node::Cell(cell),
            ),
            EffectView::PlaceRow { row } => Page {
                order: cells_without(self.order, row).push(row),
                ..self
            },
            EffectView::ClearRow { row } => Page {
                rows: self.rows.update(row, Seq::empty()),
                ..self
            },
            EffectView::SetContent { cell, text, style } => Page {
                faces: self.faces.update(cell, Face { text, style }),
                ..self
            },
            EffectView::CreateAnchor { attributes } => Page {
                anchor_attributes: attributes,
                anchor_cells: Seq::empty(),
                ..self
            },
            EffectView::PlaceInAnchor { cell } => {
                let page = self.taken(cell);
                Page { anchor_cells: page.anchor_cells.push(cell), ..page }
            },
            EffectView::PlaceAnchor { row } => Page {
                anchor_attributes: Seq::empty(),
                anchor_cells: Seq::empty(),
                ..self.appended(
                    row,
                    Node::Link { attributes: self.anchor_attributes, cells: self.anchor_cells },
                )
            },
            EffectView::AddCursor { cell } => Page {
                cursors: self.cursors.insert(cell),
                ..self
            },
            EffectView::RemoveCursor { cell } => Page {
                cursors: self.cursors.remove(cell),
                ..self
            },
            _ => self,
        }
    }

    /// The page after a list of work.
    pub open spec fn apply_all(self, effects: Seq<EffectView>) -> Self
        decreases effects.len(),
    {
        if effects.len() == 0 {
            self
        } else {
            self.apply_all(effects.drop_last()).apply(effects.last())
        }
    }

    /// Whether the page shows the buffer: every cell looks as its content
    /// says, and every row holds its cells, with the hyperlinks in anchors.
    pub open spec fn shows(self, state: BackendView) -> bool {
        &&& self.is_idle()
        &&& self.faces.len() == state.buffer.len()
        &&& self.rows.len() == state.rows
        &&& forall|i: int|
            0 <= i < state.buffer.len() ==> #[trigger] self.faces[i] == face(
                state.buffer[i],
                state.buffer[i].is_link(),
            )
        &&& forall|row: int|
            0 <= row < state.rows ==> #[trigger] self.rows[row] == row_nodes(
                state.buffer,
                state.size.width as int,
                row,
            )
    }
}

/// The numbers from `start` up to `end`.
pub open spec fn range(start: int, end: int) -> Seq<int> {
    Seq::new((if start < end { end - start } else { 0 }) as nat, |i: int| start + i)
}

/// What a row holds that is made of the cells from `start` up to `end`: each
/// run of hyperlink cells in an anchor, and the other cells by themselves.
pub open spec fn layout(buffer: Seq<CellView>, start: int, end: int) -> Seq<Node>
    decreases end - start,
    via layout_decreases
{
    if start >= end {
        Seq::empty()
    } else if buffer[start].is_link() {
        let stop = run_end(buffer, start, end);
        seq![
            Node::Link {
                attributes: anchor_attributes(run_text(buffer, start, stop)),
                cells: range(start, stop),
            },
        ] + layout(buffer, stop, end)
    } else {
        seq![Node::Cell(start)] + layout(buffer, start + 1, end)
    }
}

#[via_fn]
proof fn layout_decreases(buffer: Seq<CellView>, start: int, end: int) {
    if start < end {
        lemma_run_end(buffer, start, end);
    }
}

/// What a row of a grid holds that is `width` cells wide.
pub open spec fn row_nodes(buffer: Seq<CellView>, width: int, row: int) -> Seq<Node> {
    layout(buffer, row * width, row * width + width)
}

/// Work on two lists in turn is work on the first, and then on the second.
pub proof fn lemma_apply_add(page: Page, first: Seq<EffectView>, second: Seq<EffectView>)
    ensures
        page.apply_all(first + second) == page.apply_all(first).apply_all(second),
    decreases second.len(),
{
    if second.len() == 0 {
        assert(first + second =~= first);
    } else {
        assert((first + second).drop_last() =~= first + second.drop_last());
        lemma_apply_add(page, first, second.drop_last());
    }
}

/// Work on one piece.
pub proof fn lemma_apply_one(page: Page, effect: EffectView)
    ensures
        page.apply_all(seq![effect]) == page.apply(effect),
{
    let one = seq![effect];
    assert(one.drop_last() =~= Seq::empty());
    assert(page.apply_all(one.drop_last()) == page);
}

/// Where every element passes, a filter keeps the sequence.
proof fn lemma_filter_all<A>(elements: Seq<A>, keep: spec_fn(A) -> bool)
    requires
        forall|k: int| 0 <= k < elements.len() ==> keep(#[trigger] elements[k]),
    ensures
        elements.filter(keep) == elements,
    decreases elements.len(),
{
    reveal(Seq::filter);
    if elements.len() > 0 {
        lemma_filter_all(elements.drop_last(), keep);
        assert(keep(elements[elements.len() - 1]));
        assert(elements.drop_last().push(elements.last()) =~= elements);
    }
}

/// Taking out a cell that is not there changes nothing.
pub proof fn lemma_cells_without(cells: Seq<int>, cell: int)
    requires
        !cells.contains(cell),
    ensures
        cells_without(cells, cell) == cells,
    decreases cells.len(),
{
    if cells.len() > 0 {
        assert(cells.contains(cells.last()));
        assert forall|other: int| cells.drop_last().contains(other) implies cells.contains(
            other,
        ) by {
            let k = choose|k: int| 0 <= k < cells.len() - 1 && cells.drop_last()[k] == other;
            assert(cells[k] == other);
        }
        lemma_cells_without(cells.drop_last(), cell);
        assert(cells.drop_last().push(cells.last()) =~= cells);
    }
}

/// Taking out a cell that sits nowhere changes nothing.
pub proof fn lemma_take_loose(page: Page, cell: int)
    requires
        page.is_loose(cell),
    ensures
        page.taken(cell) == page,
{
    lemma_cells_without(page.anchor_cells, cell);
    assert forall|row: int| 0 <= row < page.rows.len() implies nodes_without(
        #[trigger] page.rows[row],
        cell,
    ) == page.rows[row] by {
        let nodes = page.rows[row];
        assert forall|k: int| 0 <= k < nodes.len() implies #[trigger] nodes[k] != Node::Cell(
            cell,
        ) by {
            assert(!mentions(page.rows[row][k], cell));
        }
        lemma_filter_all(nodes, |node: Node| node != Node::Cell(cell));
        assert forall|k: int| 0 <= k < nodes.len() implies #[trigger] nodes_without(
            nodes,
            cell,
        )[k] == nodes[k] by {
            assert(!mentions(page.rows[row][k], cell));
            match nodes[k] {
                Node::Cell(other) => {},
                Node::Link { attributes, cells } => {
                    lemma_cells_without(cells, cell);
                },
            }
        }
        assert(nodes_without(nodes, cell) =~= nodes);
    }
    assert(page.taken(cell).rows =~= page.rows);
    assert(page.taken(cell) =~= page);
}

} // verus!
