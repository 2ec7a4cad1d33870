//! What one frame does to the state, and the work it asks for.
use crate::cell::{Cell, CellView};
use crate::effect::EffectView;
use crate::geometry::Position;
use crate::outside::display_width;
use crate::row::{content_effect, rebuild_effects};
use crate::state::BackendView;
use vstd::prelude::*;

verus! {

/// A cell to draw, and where.
#[derive(Debug, PartialEq, Eq)]
pub struct DrawnCell {
    pub at: Position,
    pub cell: Cell,
}

/// A cell to draw, with its strings as sequences of characters.
#[verifier::ext_equal]
pub struct DrawnCellView {
    pub at: Position,
    pub cell: CellView,
}

impl View for DrawnCell {
    type V = DrawnCellView;

    open spec fn view(&self) -> DrawnCellView {
        DrawnCellView { at: self.at, cell: self.cell@ }
    }
}

/// The cells to draw, with their strings as sequences of characters.
pub open spec fn content_views(content: Seq<DrawnCell>) -> Seq<DrawnCellView> {
    content.map_values(|drawn: DrawnCell| drawn@)
}

/// The flags with that of `row` raised, if there is one.
pub open spec fn mark(flags: Seq<bool>, row: int) -> Seq<bool> {
    if 0 <= row < flags.len() {
        flags.update(row, true)
    } else {
        flags
    }
}

impl BackendView {
    /// Whether there is a cell at a position.
    pub open spec fn in_range(self, at: Position) -> bool {
        at.is_addressable(self.size.width) && at.index(self.size.width) < self.buffer.len()
    }

    /// Whether there is a cell at each position that is to be drawn.
    pub open spec fn all_in_range(self, content: Seq<DrawnCellView>) -> bool {
        forall|k: int| 0 <= k < content.len() ==> self.in_range((#[trigger] content[k]).at)
    }

    /// Whether there are flags for every row.
    pub open spec fn in_frame(self) -> bool {
        &&& self.touched.len() == self.size.height
        &&& self.needs_rebuild.len() == self.size.height
    }

    /// The state at the start of a frame: nothing was drawn.
    pub open spec fn frame_start(self) -> Self {
        BackendView {
            touched: Seq::new(self.size.height as nat, |row: int| false),
            needs_rebuild: Seq::new(self.size.height as nat, |row: int| false),
            changed: Seq::empty(),
            ..self
        }
    }

    /// The state after the cell `index` became `cell`, on behalf of `row`. The
    /// row needs to be rebuilt where the cell was, or is now, part of a
    /// hyperlink.
    pub open spec fn replaced(self, index: int, cell: CellView, row: int) -> Self {
        BackendView {
            buffer: self.buffer.update(index, cell),
            changed: self.changed.push(index as usize),
            touched: mark(self.touched, row),
            needs_rebuild: if self.buffer[index].is_link() || cell.is_link() {
                mark(self.needs_rebuild, row)
            } else {
                self.needs_rebuild
            },
            ..self
        }
    }

    /// The state after `cell`, shown in `columns` columns, was drawn at a
    /// position. A wide glyph covers the cell behind it, if there is one.
    pub open spec fn written(self, at: Position, cell: CellView, columns: usize) -> Self {
        let index = at.index(self.size.width);
        let drawn = self.replaced(index, cell, at.y as int);
        if cell.covers_next(columns) && index + 1 < self.buffer.len() {
            drawn.replaced(
                index + 1,
                self.covered_cell(),
                (index + 1) / (self.size.width as int),
            )
        } else {
            drawn
        }
    }

    /// The state after a frame drew `content`, in order.
    pub open spec fn drawn(self, content: Seq<DrawnCellView>) -> Self
        decreases content.len(),
    {
        if content.len() == 0 {
            self.frame_start()
        } else {
            let last = content.last();
            self.drawn(content.drop_last()).written(
                last.at,
                last.cell,
                display_width(last.cell.symbol),
            )
        }
    }

    /// The work that rebuilds the row `row`, if there is such a row.
    pub open spec fn row_rebuild(self, row: int) -> Seq<EffectView> {
        if row < self.rows {
            rebuild_effects(
                self.buffer,
                row,
                row * self.size.width,
                row * self.size.width + self.size.width,
            )
        } else {
            Seq::empty()
        }
    }

    /// The work that rebuilds those of the first `count` rows that need it.
    pub open spec fn rebuilds(self, count: nat) -> Seq<EffectView>
        decreases count,
    {
        if count == 0 {
            Seq::empty()
        } else {
            let row = count - 1;
            self.rebuilds(row as nat) + if self.touched[row] && self.needs_rebuild[row] {
                self.row_rebuild(row)
            } else {
                Seq::empty()
            }
        }
    }

    /// Whether the row of a cell is rebuilt.
    pub open spec fn is_rebuilt(self, index: int) -> bool {
        let row = index / (self.size.width as int);
        row < self.needs_rebuild.len() && self.needs_rebuild[row]
    }

    /// The work that shows those of the first `count` drawn cells whose rows
    /// are not rebuilt.
    pub open spec fn updates(self, count: nat) -> Seq<EffectView>
        decreases count,
    {
        if count == 0 {
            Seq::empty()
        } else {
            let index = self.changed[count - 1] as int;
            let before = self.updates((count - 1) as nat);
            if self.is_rebuilt(index) {
                before
            } else {
                before.push(content_effect(index, self.buffer[index], false))
            }
        }
    }

    /// The work that a frame asks for.
    pub open spec fn frame_effects(self) -> Seq<EffectView> {
        self.rebuilds(self.size.height as nat) + self.updates(self.changed.len())
    }
}

} // verus!
