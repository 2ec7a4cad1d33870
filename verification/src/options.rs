//! How the backend is set up.
use crate::text::{DEFAULT_GRID_ID, GRID_ID_SUFFIX};
use vstd::prelude::*;

verus! {

/// The shape of the cursor.
#[derive(Clone, Copy, Debug, PartialEq, Eq, Structural)]
pub enum CursorShape {
    /// A block that does not blink.
    SteadyBlock,
    /// An underscore that does not blink.
    SteadyUnderScore,
}

impl Default for CursorShape {
    fn default() -> (shape: Self)
        ensures
            shape == CursorShape::SteadyBlock,
    {
        CursorShape::SteadyBlock
    }
}

/// Options for the [`crate::backend::DomBackend`].
#[derive(Debug)]
pub struct DomBackendOptions {
    grid_id: Option<String>,
    cursor_shape: CursorShape,
}

/// The options, with the chosen id as a sequence of characters.
#[verifier::ext_equal]
pub struct OptionsView {
    pub chosen_id: Option<Seq<char>>,
    pub cursor_shape: CursorShape,
}

impl View for DomBackendOptions {
    type V = OptionsView;

    closed spec fn view(&self) -> OptionsView {
        OptionsView {
            chosen_id: match self.grid_id {
                Some(id) => Some(id@),
                None => None,
            },
            cursor_shape: self.cursor_shape,
        }
    }
}

impl OptionsView {
    /// The id of the grid element: the chosen id and a suffix, or `"grid"`.
    pub open spec fn grid_id(self) -> Seq<char> {
        match self.chosen_id {
            Some(id) => id + GRID_ID_SUFFIX@,
            None => DEFAULT_GRID_ID@,
        }
    }

    /// No id was chosen, and the cursor has its default shape.
    pub open spec fn defaults() -> Self {
        OptionsView { chosen_id: None, cursor_shape: CursorShape::SteadyBlock }
    }
}

impl Default for DomBackendOptions {
    fn default() -> (options: Self)
        ensures
            options@ == OptionsView::defaults(),
    {
        DomBackendOptions { grid_id: None, cursor_shape: CursorShape::default() }
    }
}

impl DomBackendOptions {
    /// Constructs new options.
    pub fn new(grid_id: Option<String>, cursor_shape: CursorShape) -> (options: Self)
        ensures
            options@.cursor_shape == cursor_shape,
            options@.chosen_id == (match grid_id {
                Some(id) => Some(id@),
                None => None,
            }),
    {
        DomBackendOptions { grid_id, cursor_shape }
    }

    /// Returns the id of the grid element.
    ///
    /// - If no id was chosen, it is `"grid"`.
    /// - If one was, it is that id followed by `"_ratzilla_grid"`.
    pub fn grid_id(&self) -> (id: String)
        ensures
            id@ == self@.grid_id(),
    {
        match &self.grid_id {
            Some(chosen) => {
                let mut id = chosen.clone();
                id.append(GRID_ID_SUFFIX);
                id
            },
            None => DEFAULT_GRID_ID.to_owned(),
        }
    }

    /// Returns the id that was chosen, which names the element to draw into.
    pub fn chosen_id(&self) -> (id: Option<&str>)
        ensures
            self@.chosen_id == (match id {
                Some(id) => Some(id@),
                None => None,
            }),
    {
        match &self.grid_id {
            Some(chosen) => Some(chosen.as_str()),
            None => None,
        }
    }

    /// Returns the [`CursorShape`].
    pub fn cursor_shape(&self) -> (shape: &CursorShape)
        ensures
            *shape == self@.cursor_shape,
    {
        &self.cursor_shape
    }

    /// Replaces the [`CursorShape`].
    pub fn set_cursor_shape(&mut self, shape: CursorShape)
        ensures
            final(self)@ == (OptionsView { cursor_shape: shape, ..old(self)@ }),
    {
        self.cursor_shape = shape;
    }
}

/// Different choices give different grids: two options have the same grid id
/// only if the same id was chosen in both, or none in either.
pub proof fn law_grid_ids_differ(a: OptionsView, b: OptionsView)
    requires
        a.grid_id() == b.grid_id(),
    ensures
        a.chosen_id == b.chosen_id,
{
    reveal_strlit("grid");
    reveal_strlit("_ratzilla_grid");
    match (a.chosen_id, b.chosen_id) {
        (Some(x), Some(y)) => {
            assert((x + GRID_ID_SUFFIX@).len() == (y + GRID_ID_SUFFIX@).len());
            assert(x =~= (x + GRID_ID_SUFFIX@).take(x.len() as int));
            assert(y =~= (y + GRID_ID_SUFFIX@).take(y.len() as int));
        },
        (Some(x), None) => {
            assert(a.grid_id().len() >= 14);
        },
        (None, Some(y)) => {
            assert(b.grid_id().len() >= 14);
        },
        (None, None) => {},
    }
}

} // verus!
