//! Frames: cells go into the buffer, and the page follows.
use crate::backend::DomBackend;
use crate::cell::{lemma_plain_cells, Cell};
use crate::effect::{lemma_views_add, lemma_views_push, views, Effect};
use crate::frame::{content_views, mark, DrawnCell};
use crate::geometry::{lemma_product_fits, Position};
use crate::row::{content_effect, rebuild_row, set_cell_content};
use vstd::prelude::*;

verus! {

/// Raises the flag of a row, if there is one.
fn raise(flags: &mut Vec<bool>, row: usize)
    ensures
        final(flags)@ == mark(old(flags)@, row as int),
{
    if row < flags.len() {
        flags.set(row, true);
    }
}

/// Lowers all flags, and makes them `count`.
fn lower_all(flags: &mut Vec<bool>, count: usize)
    ensures
        final(flags)@ == Seq::new(count as nat, |row: int| false),
{
    flags.clear();
    flags.resize(count, false);
    assert(flags@ =~= Seq::new(count as nat, |row: int| false));
}

impl DomBackend {
    /// Draws a frame: takes the cells that changed, and returns the work that
    /// makes the page show them.
    ///
    /// A row in which a hyperlink changed is rebuilt. Elsewhere, cells are
    /// updated in place.
    pub fn draw(&mut self, content: &Vec<DrawnCell>) -> (effects: Vec<Effect>)
        requires
            old(self)@.wf(),
            old(self)@.all_in_range(content_views(content@)),
        ensures
            final(self)@ == old(self)@.drawn(content_views(content@)),
            final(self)@.wf(),
            views(effects@) == final(self)@.frame_effects(),
    {
        let ghost before = self@;
        let ghost all = content_views(content@);
        self.begin_frame();
        let mut k: usize = 0;
        assert(all.take(0) =~= Seq::empty());
        while k < content.len()
            invariant
                k <= content@.len(),
                all == content_views(content@),
                before.all_in_range(all),
                self@ == before.drawn(all.take(k as int)),
                self@.wf(),
                self@.in_frame(),
                self@.size == before.size,
                self@.buffer.len() == before.buffer.len(),
            decreases content@.len() - k,
        {
            let ghost done = all.take(k as int);
            let drawn = &content[k];
            assert(all[k as int] == drawn@);
            assert(before.in_range(all[k as int].at));
            let columns = drawn.cell.columns();
            self.write_cell(drawn.at, drawn.cell.clone(), columns);
            k = k + 1;
            assert(all.take(k as int).drop_last() =~= done);
            assert(all.take(k as int).last() == drawn@);
        }
        assert(all.take(k as int) =~= all);
        self.frame_effects()
    }

    /// Starts a frame.
    pub fn begin_frame(&mut self)
        requires
            old(self)@.wf(),
        ensures
            final(self)@ == old(self)@.frame_start(),
            final(self)@.wf(),
            final(self)@.in_frame(),
    {
        let row_count = self.size.height as usize;
        lower_all(&mut self.rows_need_rebuild, row_count);
        lower_all(&mut self.rows_touched, row_count);
        self.changed_cells.clear();
        assert(self@ =~= old(self)@.frame_start());
    }

    /// Draws one cell, which a terminal shows in `columns` columns. The cell
    /// behind a wide glyph is covered by it.
    pub fn write_cell(&mut self, at: Position, cell: Cell, columns: usize)
        requires
            old(self)@.wf(),
            old(self)@.in_frame(),
            old(self)@.in_range(at),
        ensures
            final(self)@ == old(self)@.written(at, cell@, columns),
            final(self)@.wf(),
            final(self)@.in_frame(),
    {
        let index = at.cell_index(self.size.width);
        let covers_next = cell.covers_next(columns);
        let has_hyperlink = cell.is_hyperlink();
        self.replace_cell(index, cell, at.y as usize, has_hyperlink);
        // The cell behind a wide glyph is not displayed.
        if covers_next && index + 1 < self.cell_buffer.len() {
            let next_row = (index + 1) / self.size.width as usize;
            let covered = Cell::covered(self.covered_css.as_str());
            proof {
                lemma_plain_cells(self.covered_css@);
            }
            self.replace_cell(index + 1, covered, next_row, false);
        }
    }

    /// Replaces a cell of the buffer on behalf of `row`.
    fn replace_cell(&mut self, index: usize, cell: Cell, row: usize, has_hyperlink: bool)
        requires
            old(self)@.wf(),
            old(self)@.in_frame(),
            index < old(self)@.buffer.len(),
            has_hyperlink == cell@.is_link(),
        ensures
            final(self)@ == old(self)@.replaced(index as int, cell@, row as int),
            final(self)@.wf(),
            final(self)@.in_frame(),
    {
        assert(self@.buffer[index as int] == self.cell_buffer@[index as int]@);
        let had_hyperlink = self.cell_buffer[index].is_hyperlink();
        let ghost content = cell@;
        self.cell_buffer.set(index, cell);
        self.changed_cells.push(index);
        raise(&mut self.rows_touched, row);
        if had_hyperlink || has_hyperlink {
            raise(&mut self.rows_need_rebuild, row);
        }
        assert(self@.buffer =~= old(self)@.buffer.update(index as int, content));
        assert(self@ =~= old(self)@.replaced(index as int, content, row as int));
    }

    /// The work that rebuilds a row. A row without an element needs none.
    pub fn render_row(&self, y: u16) -> (effects: Vec<Effect>)
        requires
            self@.wf(),
        ensures
            views(effects@) == self@.row_rebuild(y as int),
    {
        if y as usize >= self.rows {
            let none: Vec<Effect> = Vec::new();
            assert(views(none@) =~= Seq::empty());
            return none;
        }
        proof {
            lemma_product_fits(y as int, self.size.width as int);
            lemma_row_fits(y as int, self.rows as int, self.size.width as int);
        }
        let width = self.size.width as usize;
        let row_start = y as usize * width;
        rebuild_row(&self.cell_buffer, y as usize, row_start, row_start + width)
    }

    /// The work that makes the page show what the frame drew.
    pub fn frame_effects(&self) -> (effects: Vec<Effect>)
        requires
            self@.wf(),
            self@.in_frame(),
        ensures
            views(effects@) == self@.frame_effects(),
    {
        broadcast use {lemma_views_push, lemma_views_add};

        let row_count = self.size.height;
        let mut effects: Vec<Effect> = Vec::new();
        let mut y: u16 = 0;
        assert(views(effects@) =~= self@.rebuilds(0));
        while y < row_count
            invariant
                y <= row_count,
                row_count == self@.size.height,
                self@.wf(),
                self@.in_frame(),
                views(effects@) == self@.rebuilds(y as nat),
            decreases row_count - y,
        {
            let ghost done = views(effects@);
            if self.rows_touched[y as usize] && self.rows_need_rebuild[y as usize] {
                let mut row = self.render_row(y);
                effects.append(&mut row);
            } else {
                assert(done =~= done + Seq::empty());
            }
            y = y + 1;
        }
        let ghost rebuilt = views(effects@);
        let width = self.size.width as usize;
        let mut k: usize = 0;
        assert(rebuilt =~= rebuilt + self@.updates(0));
        while k < self.changed_cells.len()
            invariant
                k <= self.changed_cells@.len(),
                width == self@.size.width,
                self@.wf(),
                self@.in_frame(),
                views(effects@) == rebuilt + self@.updates(k as nat),
            decreases self.changed_cells@.len() - k,
        {
            let ghost done = self@.updates(k as nat);
            let index = self.changed_cells[k];
            assert(self@.changed[k as int] == index);
            let row = index / width;
            let is_rebuilt = row < self.rows_need_rebuild.len() && self.rows_need_rebuild[row];
            if !is_rebuilt {
                assert(self@.buffer[index as int] == self.cell_buffer@[index as int]@);
                effects.push(set_cell_content(index, &self.cell_buffer[index], false));
                let ghost update = content_effect(
                    index as int,
                    self@.buffer[index as int],
                    false,
                );
                assert((rebuilt + done).push(update) =~= rebuilt + done.push(update));
            }
            k = k + 1;
        }
        effects
    }
}

/// A row that exists has all its cells.
pub proof fn lemma_row_fits(row: int, rows: int, width: int)
    requires
        0 <= row < rows,
        0 <= width,
    ensures
        0 <= row * width,
        row * width + width <= rows * width,
{
    assert(row * width + width <= rows * width && 0 <= row * width) by (nonlinear_arith)
        requires
            0 <= row < rows,
            0 <= width,
    ;
}

} // verus!
