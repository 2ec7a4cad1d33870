//! The state of the backend, and how work on the page changes it.
use crate::cell::CellView;
use crate::effect::{AttributeView, EffectView, Handler};
use crate::geometry::{Position, Size};
use crate::options::OptionsView;
use vstd::prelude::*;

verus! {

/// The state of a backend.
#[verifier::ext_equal]
pub struct BackendView {
    /// Whether the grid was drawn since it was last resized.
    pub initialized: bool,
    pub options: OptionsView,
    pub size: Size,
    /// The CSS of a cell in which nothing was drawn yet.
    pub blank_css: Seq<char>,
    /// The CSS of a cell that a wide glyph covers.
    pub covered_css: Seq<char>,
    /// What was last drawn, row by row. There is one element for each cell.
    pub buffer: Seq<CellView>,
    /// How many row elements there are.
    pub rows: nat,
    /// For each row, whether this frame drew into it.
    pub touched: Seq<bool>,
    /// For each row, whether this frame changed a hyperlink in it.
    pub needs_rebuild: Seq<bool>,
    /// The cells that this frame drew, in order.
    pub changed: Seq<usize>,
    pub cursor: Option<Position>,
    pub last_cursor: Option<Position>,
    /// Which handlers are in place.
    pub mouse: bool,
    pub wheel: bool,
    pub hyperlink_click: bool,
    pub key: bool,
}

impl BackendView {
    /// The state of a new backend.
    pub open spec fn initial(
        options: OptionsView,
        size: Size,
        blank_css: Seq<char>,
        covered_css: Seq<char>,
    ) -> Self {
        BackendView {
            initialized: false,
            options,
            size,
            blank_css,
            covered_css,
            buffer: Seq::empty(),
            rows: 0,
            touched: Seq::empty(),
            needs_rebuild: Seq::empty(),
            changed: Seq::empty(),
            cursor: None,
            last_cursor: None,
            mouse: false,
            wheel: false,
            hyperlink_click: false,
            key: false,
        }
    }

    /// What holds of every backend.
    pub open spec fn wf(self) -> bool {
        &&& self.buffer.len() <= usize::MAX
        // Every row has its cells.
        &&& self.rows * self.size.width <= self.buffer.len()
        &&& self.size.width == 0 ==> self.buffer.len() == 0
        // There are flags for every row, or there was no frame yet.
        &&& self.touched.len() == self.needs_rebuild.len()
        &&& self.touched.len() == 0 || self.touched.len() == self.size.height
        &&& forall|k: int|
            0 <= k < self.changed.len() ==> (#[trigger] self.changed[k]) < self.buffer.len()
        &&& self.cursor matches Some(at) ==> at.is_addressable(self.size.width)
    }

    /// Whether the grid is empty and the cursor nowhere, so that the grid may
    /// take another size.
    pub open spec fn is_blank(self) -> bool {
        &&& self.buffer.len() == 0
        &&& self.rows == 0
        &&& self.touched.len() == 0
        &&& self.needs_rebuild.len() == 0
        &&& self.changed.len() == 0
        &&& self.cursor is None
    }

    /// Whether every row and every cell of the grid has its element.
    pub open spec fn is_populated(self) -> bool {
        &&& self.rows == self.size.height
        &&& self.buffer.len() == self.size.height * self.size.width
    }

    /// Whether the elements of another grid of this size can be counted.
    pub open spec fn has_room(self) -> bool {
        &&& self.rows + self.size.height <= usize::MAX
        &&& self.buffer.len() + self.size.height * self.size.width <= usize::MAX
    }

    /// Whether the backend can take note that `effect` was done: cells come
    /// only where rows have any, and rows after their cells.
    pub open spec fn accepts(self, effect: EffectView) -> bool {
        match effect {
            EffectView::CreateCell { .. } => self.size.width > 0,
            EffectView::CreateRow { .. } => {
                &&& self.rows < usize::MAX
                &&& (self.rows + 1) * self.size.width <= self.buffer.len()
            },
            _ => true,
        }
    }

    /// The state after `effect` was done.
    pub open spec fn after(self, effect: EffectView) -> Self {
        match effect {
            EffectView::CreateGrid { .. } => BackendView {
                buffer: Seq::empty(),
                rows: 0,
                touched: Seq::empty(),
                needs_rebuild: Seq::empty(),
                changed: Seq::empty(),
                hyperlink_click: false,
                ..self
            },
            EffectView::CreateCell { content } => BackendView {
                buffer: self.buffer.push(content),
                ..self
            },
            EffectView::CreateRow { .. } => BackendView { rows: self.rows + 1, ..self },
            EffectView::ListenForMouse { .. } => BackendView { mouse: true, ..self },
            EffectView::ListenForWheel { .. } => BackendView { wheel: true, ..self },
            EffectView::ListenForHyperlinkClicks => BackendView {
                hyperlink_click: true,
                ..self
            },
            EffectView::ListenForKeys => BackendView { key: true, ..self },
            EffectView::Forget { handler } => match handler {
                Handler::Mouse => BackendView { mouse: false, ..self },
                Handler::Wheel => BackendView { wheel: false, ..self },
                Handler::HyperlinkClick => BackendView { hyperlink_click: false, ..self },
                Handler::Key => BackendView { key: false, ..self },
            },
            _ => self,
        }
    }

    /// The state after a list of work was done.
    pub open spec fn after_all(self, effects: Seq<EffectView>) -> Self
        decreases effects.len(),
    {
        if effects.len() == 0 {
            self
        } else {
            self.after_all(effects.drop_last()).after(effects.last())
        }
    }

    /// Whether the backend can take note of each piece of a list of work in
    /// turn.
    pub open spec fn accepts_all(self, effects: Seq<EffectView>) -> bool
        decreases effects.len(),
    {
        effects.len() == 0 || {
            &&& self.accepts_all(effects.drop_last())
            &&& self.after_all(effects.drop_last()).accepts(effects.last())
        }
    }

    /// Whether a handler is in place.
    pub open spec fn has_handler(self, handler: Handler) -> bool {
        match handler {
            Handler::Mouse => self.mouse,
            Handler::Wheel => self.wheel,
            Handler::HyperlinkClick => self.hyperlink_click,
            Handler::Key => self.key,
        }
    }

    /// The cell of a place in which nothing was drawn yet.
    pub open spec fn blank_cell(self) -> CellView {
        CellView::blank(self.blank_css)
    }

    /// The cell of a place that a wide glyph covers.
    pub open spec fn covered_cell(self) -> CellView {
        CellView::covered(self.covered_css)
    }

    /// The work that replaces the grid by an empty one.
    pub open spec fn reset_effects(self) -> Seq<EffectView> {
        seq![EffectView::CreateGrid { id: self.options.grid_id() }]
    }

    /// The work that is due before the grid is attached. A grid that is on the
    /// page already makes room for a new one, of the size that then fits.
    pub open spec fn prepare_effects(self, grid_present: bool) -> Seq<EffectView> {
        if grid_present {
            seq![EffectView::EmptyParent] + self.reset_effects() + seq![EffectView::Measure]
        } else {
            Seq::empty()
        }
    }

    /// The work that creates the first `count` rows of blank cells, each
    /// behind the elements that there are.
    pub open spec fn populate_effects(self, style: Seq<char>, count: nat) -> Seq<EffectView>
        decreases count,
    {
        if count == 0 {
            Seq::empty()
        } else {
            let row = (count - 1) as nat;
            self.populate_effects(style, row) + row_effects(
                (self.rows + row) as int,
                (self.buffer.len() + row * self.size.width) as int,
                self.size.width as nat,
                self.blank_cell(),
                style,
            )
        }
    }

    /// The work that removes the handlers of mouse and wheel events.
    pub open spec fn clear_mouse_effects(self) -> Seq<EffectView> {
        seq![
            EffectView::Forget { handler: Handler::Mouse },
            EffectView::Forget { handler: Handler::Wheel },
        ]
    }

    /// The work that replaces the handlers of mouse and wheel events.
    pub open spec fn mouse_effects(self) -> Seq<EffectView> {
        self.clear_mouse_effects() + seq![
            EffectView::ListenForMouse { size: self.size },
            EffectView::ListenForWheel { size: self.size },
        ]
    }

    /// The work that removes the handler of key events.
    pub open spec fn clear_key_effects(self) -> Seq<EffectView> {
        seq![EffectView::Forget { handler: Handler::Key }]
    }

    /// The work that replaces the handler of key events. The grid is made
    /// focusable for it.
    pub open spec fn key_effects(self) -> Seq<EffectView> {
        self.clear_key_effects() + seq![
            EffectView::SetGridAttribute {
                attribute: AttributeView { name: "tabindex"@, value: "0"@ },
            },
            EffectView::ListenForKeys,
        ]
    }

    /// The work that attaches the grid and fills it with blank cells.
    pub open spec fn attach_effects(self, style: Seq<char>) -> Seq<EffectView> {
        seq![EffectView::AttachGrid] + self.populate_effects(style, self.size.height as nat)
            + seq![EffectView::ListenForHyperlinkClicks, EffectView::FocusGrid]
    }
}

/// The work that creates `count` cells.
pub open spec fn create_cells(content: CellView, count: nat) -> Seq<EffectView> {
    Seq::new(count, |i: int| EffectView::CreateCell { content })
}

/// The work that appends `count` cells to a row, from `first` on.
pub open spec fn place_cells(row: int, first: int, count: nat) -> Seq<EffectView> {
    Seq::new(count, |i: int| EffectView::PlaceCell { row, cell: first + i })
}

/// The work that creates a row of `width` cells and appends it to the grid. It
/// will be the row `row`, and its first cell the cell `first`.
pub open spec fn row_effects(
    row: int,
    first: int,
    width: nat,
    content: CellView,
    style: Seq<char>,
) -> Seq<EffectView> {
    create_cells(content, width) + seq![EffectView::CreateRow { style }] + place_cells(
        row,
        first,
        width,
    ) + seq![EffectView::PlaceRow { row }]
}

} // verus!
