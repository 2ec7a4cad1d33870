//! The cursor, and the calls of a terminal that ask little of this backend.
use crate::backend::DomBackend;
use crate::effect::{lemma_views_push, views, Effect, EffectView};
use crate::geometry::{Position, Size};
use crate::state::BackendView;
use vstd::prelude::*;

verus! {

/// A part of the terminal that may be asked to be cleared.
#[derive(Clone, Copy, Debug, PartialEq, Eq, Structural)]
pub enum ClearType {
    All,
    AfterCursor,
    BeforeCursor,
    CurrentLine,
    UntilNewLine,
}

/// The backend cannot clear a part of the terminal.
#[derive(Clone, Copy, Debug, PartialEq, Eq, Structural)]
pub struct ClearRegionError;

impl ClearRegionError {
    /// What is reported of the error.
    pub fn message(&self) -> (text: &'static str)
        ensures
            text@ == "unimplemented"@,
    {
        "unimplemented"
    }
}

impl BackendView {
    /// The work that takes the cursor's class from the cell at a position, if
    /// there is one.
    pub open spec fn remove_cursor(self, at: Option<Position>) -> Seq<EffectView> {
        match at {
            Some(at) if at.index(self.size.width) < self.buffer.len() => seq![
                EffectView::RemoveCursor { cell: at.index(self.size.width) },
            ],
            _ => Seq::empty(),
        }
    }

    /// The work that gives the cursor's class to the cell at a position, if
    /// there is one.
    pub open spec fn add_cursor(self, at: Position) -> Seq<EffectView> {
        if at.index(self.size.width) < self.buffer.len() {
            seq![EffectView::AddCursor { cell: at.index(self.size.width) }]
        } else {
            Seq::empty()
        }
    }

    /// Where the cursor is, or the first cell where it is nowhere.
    pub open spec fn reported_cursor(self) -> Position {
        match self.cursor {
            Some(at) => at,
            None => Position { x: 0, y: 0 },
        }
    }
}

impl DomBackend {
    /// Hides the cursor: its cell loses the cursor's class. The position is
    /// kept.
    pub fn hide_cursor(&self) -> (effects: Vec<Effect>)
        requires
            self@.wf(),
        ensures
            views(effects@) == self@.remove_cursor(self@.cursor),
    {
        let mut effects: Vec<Effect> = Vec::new();
        if let Some(at) = self.cursor_position {
            let index = at.cell_index(self.size.width);
            if index < self.cell_buffer.len() {
                effects.push(Effect::RemoveCursor { cell: index });
            }
        }
        assert(views(effects@) =~= self@.remove_cursor(self@.cursor));
        effects
    }

    /// Moves the cursor: the cursor's class goes from the old cell to the new
    /// one.
    pub fn set_cursor_position(&mut self, position: Position) -> (effects: Vec<Effect>)
        requires
            old(self)@.wf(),
            position.is_addressable(old(self)@.size.width),
        ensures
            final(self)@ == (BackendView {
                cursor: Some(position),
                last_cursor: old(self)@.cursor,
                ..old(self)@
            }),
            final(self)@.wf(),
            views(effects@) == old(self)@.remove_cursor(old(self)@.cursor) + old(
                self,
            )@.add_cursor(position),
    {
        broadcast use lemma_views_push;

        let ghost before = self@;
        let mut effects = self.hide_cursor();
        self.last_cursor_position = self.cursor_position;
        self.cursor_position = Some(position);
        let index = position.cell_index(self.size.width);
        if index < self.cell_buffer.len() {
            effects.push(Effect::AddCursor { cell: index });
        }
        assert(views(effects@) =~= before.remove_cursor(before.cursor) + before.add_cursor(
            position,
        ));
        effects
    }

    /// Returns where the cursor is, or the first cell where it is nowhere.
    pub fn get_cursor_position(&self) -> (position: Position)
        ensures
            position == self@.reported_cursor(),
            self@.cursor matches Some(at) ==> position == at,
            self@.cursor is None ==> position.x == 0 && position.y == 0,
    {
        match self.cursor_position {
            None => Position { x: 0, y: 0 },
            Some(position) => position,
        }
    }

    /// Returns the position that the cursor had before the last move.
    pub fn last_cursor_position(&self) -> (position: Option<Position>)
        ensures
            position == self@.last_cursor,
    {
        self.last_cursor_position
    }

    /// Showing the cursor asks for nothing: the cell gets its class when the
    /// position is set, which a terminal does next.
    pub fn show_cursor(&mut self)
        ensures
            *final(self) == *old(self),
    {
    }

    /// Always the first cell: positions are kept by
    /// [`DomBackend::set_cursor_position`].
    pub fn get_cursor(&self) -> (position: (u16, u16))
        ensures
            position == (0u16, 0u16),
    {
        (0, 0)
    }

    /// Does nothing: positions are kept by [`DomBackend::set_cursor_position`].
    pub fn set_cursor(&mut self, _x: u16, _y: u16)
        ensures
            *final(self) == *old(self),
    {
    }

    /// Does nothing: what is drawn is on the page at once.
    pub fn flush(&mut self)
        ensures
            *final(self) == *old(self),
    {
    }

    /// Does nothing: a terminal draws over what is there.
    pub fn clear(&mut self)
        ensures
            *final(self) == *old(self),
    {
    }

    /// Clears a part of the terminal. Only all of it can be cleared.
    pub fn clear_region(&mut self, clear_type: ClearType) -> (result: Result<
        (),
        ClearRegionError,
    >)
        ensures
            *final(self) == *old(self),
            result is Ok <==> clear_type == ClearType::All,
    {
        match clear_type {
            ClearType::All => {
                self.clear();
                Ok(())
            },
            _ => Err(ClearRegionError),
        }
    }

    /// Returns the size of the grid.
    pub fn size(&self) -> (size: Size)
        ensures
            size == self@.size,
    {
        self.size
    }
}

} // verus!
