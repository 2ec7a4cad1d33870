//! The grid comes up, and is filled with blank cells.
use crate::backend::DomBackend;
use crate::cell::Cell;
use crate::effect::{lemma_views_add, lemma_views_push, views, Effect, EffectView, Handler};
use crate::geometry::{lemma_product_fits, Size};
use crate::state::{create_cells, place_cells, row_effects, BackendView};
use vstd::prelude::*;

verus! {

/// What happened in the course of a draw.
#[derive(Debug, PartialEq, Eq)]
pub enum DrawEvent {
    /// The draw was asked for.
    Called,
    /// An element with the grid's id is in the document.
    GridFound,
    /// No element with the grid's id is in the document. Rows are to have this
    /// style.
    GridMissing { row_style: String },
    /// The work on a grid that was found is done. This many cells fit on the
    /// page, and rows are to have this style.
    Prepared { size: Size, row_style: String },
    /// The work that attaches the grid is done.
    Attached,
}

/// What is due next in the course of a draw.
#[derive(Debug, PartialEq, Eq)]
pub enum DrawAction {
    /// Look for an element with this id in the document.
    FindGrid { id: String },
    /// Do this work.
    Perform { effects: Vec<Effect> },
    /// Draw the frame: the grid is in place.
    DrawFrame,
}

impl BackendView {
    /// Whether an event can happen in a state.
    pub open spec fn allows(self, event: DrawEvent) -> bool {
        match event {
            DrawEvent::GridMissing { .. } => self.has_room(),
            DrawEvent::Prepared { .. } => self.is_blank(),
            _ => true,
        }
    }

    /// The state after an event. The first draw, and the first one after the
    /// window was resized, sets the grid up; the cursor is then nowhere, since
    /// its cell may be gone.
    pub open spec fn advanced(self, event: DrawEvent) -> Self {
        match event {
            DrawEvent::Called if !self.initialized => BackendView {
                initialized: true,
                cursor: None,
                last_cursor: None,
                ..self
            },
            DrawEvent::Prepared { size, .. } => BackendView { size, ..self },
            _ => self,
        }
    }

    /// Whether an action is the one that is due after an event.
    pub open spec fn is_due(self, event: DrawEvent, action: DrawAction) -> bool {
        match event {
            DrawEvent::Called => if self.initialized {
                action is DrawFrame
            } else {
                action matches DrawAction::FindGrid { id } && id@ == self.options.grid_id()
            },
            DrawEvent::GridFound => {
                action matches DrawAction::Perform { effects } && views(effects@)
                    == self.prepare_effects(true)
            },
            DrawEvent::GridMissing { row_style } => {
                action matches DrawAction::Perform { effects } && views(effects@)
                    == self.prepare_effects(false) + self.attach_effects(row_style@)
            },
            DrawEvent::Prepared { row_style, .. } => {
                action matches DrawAction::Perform { effects } && views(effects@)
                    == self.advanced(event).attach_effects(row_style@)
            },
            DrawEvent::Attached => action is DrawFrame,
        }
    }
}

impl DomBackend {
    /// The window was resized: the next draw sets the grid up again.
    pub fn invalidate(&mut self)
        requires
            old(self)@.wf(),
        ensures
            final(self)@ == (BackendView { initialized: false, ..old(self)@ }),
            final(self)@.wf(),
    {
        self.initialized = false;
    }

    /// Tests whether an event can happen now.
    pub fn allows(&self, event: &DrawEvent) -> (yes: bool)
        ensures
            yes == self@.allows(*event),
    {
        match event {
            DrawEvent::GridMissing { .. } => self.has_room(),
            DrawEvent::Prepared { .. } => self.is_blank(),
            _ => true,
        }
    }

    /// Goes on with a draw: takes an event, and returns what is due next.
    pub fn advance(&mut self, event: DrawEvent) -> (action: DrawAction)
        requires
            old(self)@.wf(),
            old(self)@.allows(event),
        ensures
            final(self)@ == old(self)@.advanced(event),
            final(self)@.wf(),
            old(self)@.is_due(event, action),
    {
        match event {
            DrawEvent::Called => {
                if self.initialized {
                    return DrawAction::DrawFrame;
                }
                self.initialized = true;
                self.cursor_position = None;
                self.last_cursor_position = None;
                DrawAction::FindGrid { id: self.options.grid_id() }
            },
            DrawEvent::GridFound => DrawAction::Perform { effects: self.prepare_grid(true) },
            DrawEvent::GridMissing { row_style } => {
                let mut effects = self.prepare_grid(false);
                effects.append(&mut self.attach_grid(row_style.as_str()));
                assert(views(effects@) =~= self@.prepare_effects(false) + self@.attach_effects(
                    row_style@,
                ));
                DrawAction::Perform { effects }
            },
            DrawEvent::Prepared { size, row_style } => {
                self.resize(size);
                proof {
                    lemma_product_fits(size.height as int, size.width as int);
                }
                DrawAction::Perform { effects: self.attach_grid(row_style.as_str()) }
            },
            DrawEvent::Attached => DrawAction::DrawFrame,
        }
    }

    /// The work that replaces the grid by an empty one.
    pub fn reset_grid(&self) -> (effects: Vec<Effect>)
        ensures
            views(effects@) == self@.reset_effects(),
    {
        let mut effects: Vec<Effect> = Vec::new();
        effects.push(Effect::CreateGrid { id: self.options.grid_id() });
        assert(views(effects@) =~= self@.reset_effects());
        effects
    }

    /// The work that is due before the grid is attached, given whether an
    /// element with the grid's id is in the document.
    pub fn prepare_grid(&self, grid_present: bool) -> (effects: Vec<Effect>)
        ensures
            views(effects@) == self@.prepare_effects(grid_present),
            grid_present ==> effects@.len() == 3 && effects@[0] == Effect::EmptyParent,
            !grid_present ==> effects@.len() == 0,
    {
        broadcast use lemma_views_push;

        let mut effects: Vec<Effect> = Vec::new();
        if grid_present {
            effects.push(Effect::EmptyParent);
            effects.append(&mut self.reset_grid());
            effects.push(Effect::Measure);
        }
        assert(views(effects@) =~= self@.prepare_effects(grid_present));
        effects
    }

    /// Tests whether the grid may take another size.
    pub fn is_blank(&self) -> (yes: bool)
        ensures
            yes == self@.is_blank(),
    {
        self.cell_buffer.len() == 0 && self.rows == 0 && self.rows_touched.len() == 0
            && self.rows_need_rebuild.len() == 0 && self.changed_cells.len() == 0
            && self.cursor_position.is_none()
    }

    /// Takes note of the size that an empty grid was measured to have.
    pub fn resize(&mut self, size: Size)
        requires
            old(self)@.wf(),
            old(self)@.is_blank(),
        ensures
            final(self)@ == (BackendView { size, ..old(self)@ }),
            final(self)@.wf(),
    {
        self.size = size;
        assert(0 * size.width == 0) by (nonlinear_arith);
    }

    /// Tests whether the elements of another grid can be counted.
    pub fn has_room(&self) -> (yes: bool)
        ensures
            yes == self@.has_room(),
    {
        proof {
            lemma_product_fits(self.size.height as int, self.size.width as int);
        }
        let cells = self.size.height as usize * self.size.width as usize;
        self.rows <= usize::MAX - self.size.height as usize && self.cell_buffer.len()
            <= usize::MAX - cells
    }

    /// The work that attaches the grid and fills it with blank cells, in rows
    /// of this style.
    pub fn attach_grid(&self, row_style: &str) -> (effects: Vec<Effect>)
        requires
            self@.wf(),
            self@.has_room(),
        ensures
            views(effects@) == self@.attach_effects(row_style@),
    {
        broadcast use {lemma_views_push, lemma_views_add};

        let mut effects: Vec<Effect> = Vec::new();
        effects.push(Effect::AttachGrid);
        assert(views(effects@) =~= seq![EffectView::AttachGrid]);
        effects.append(&mut self.populate(row_style));
        effects.append(&mut self.install_hyperlink_click_handler());
        effects.push(Effect::FocusGrid);
        assert(views(effects@) =~= self@.attach_effects(row_style@));
        effects
    }

    /// The work that creates the rows of the grid, with blank cells.
    pub fn populate(&self, row_style: &str) -> (effects: Vec<Effect>)
        requires
            self@.wf(),
            self@.has_room(),
        ensures
            views(effects@) == self@.populate_effects(row_style@, self@.size.height as nat),
    {
        broadcast use lemma_views_add;

        let width = self.size.width as usize;
        let mut effects: Vec<Effect> = Vec::new();
        let mut first: usize = self.cell_buffer.len();
        let mut y: u16 = 0;
        assert(views(effects@) =~= self@.populate_effects(row_style@, 0));
        while y < self.size.height
            invariant
                y <= self@.size.height,
                self@.size == self.size,
                self@.rows == self.rows,
                self@.has_room(),
                width == self.size.width,
                first == self@.buffer.len() + y * width,
                views(effects@) == self@.populate_effects(row_style@, y as nat),
            decreases self.size.height - y,
        {
            proof {
                crate::backend::draw::lemma_row_fits(
                    y as int,
                    self.size.height as int,
                    width as int,
                );
                assert((y + 1) * width == y * width + width) by (nonlinear_arith);
            }
            let mut row = self.populate_row(self.rows + y as usize, first, row_style);
            effects.append(&mut row);
            first = first + width;
            y = y + 1;
        }
        effects
    }

    /// The work that creates one row of the grid.
    fn populate_row(&self, row: usize, first: usize, row_style: &str) -> (effects: Vec<Effect>)
        requires
            first + self@.size.width <= usize::MAX,
        ensures
            views(effects@) == row_effects(
                row as int,
                first as int,
                self@.size.width as nat,
                self@.blank_cell(),
                row_style@,
            ),
    {
        broadcast use lemma_views_push;

        let width = self.size.width as usize;
        let ghost blank = self@.blank_cell();
        let mut effects: Vec<Effect> = Vec::new();
        let mut x: usize = 0;
        assert(views(effects@) =~= create_cells(blank, 0));
        while x < width
            invariant
                x <= width,
                blank == self@.blank_cell(),
                views(effects@) == create_cells(blank, x as nat),
            decreases width - x,
        {
            let ghost created = create_cells(blank, x as nat);
            effects.push(Effect::CreateCell { content: Cell::blank(self.blank_css.as_str()) });
            x = x + 1;
            assert(create_cells(blank, x as nat) =~= created.push(
                EffectView::CreateCell { content: blank },
            ));
        }
        effects.push(Effect::CreateRow { style: row_style.to_owned() });
        let ghost created = views(effects@);
        let mut x: usize = 0;
        assert(created =~= created + place_cells(row as int, first as int, 0));
        while x < width
            invariant
                x <= width,
                first + width <= usize::MAX,
                views(effects@) == created + place_cells(row as int, first as int, x as nat),
            decreases width - x,
        {
            let ghost placed = place_cells(row as int, first as int, x as nat);
            effects.push(Effect::PlaceCell { row, cell: first + x });
            let ghost one = EffectView::PlaceCell { row: row as int, cell: first + x };
            x = x + 1;
            assert(place_cells(row as int, first as int, x as nat) =~= placed.push(one));
            assert((created + placed).push(one) =~= created + placed.push(one));
        }
        effects.push(Effect::PlaceRow { row });
        assert(views(effects@) =~= row_effects(
            row as int,
            first as int,
            width as nat,
            blank,
            row_style@,
        ));
        effects
    }

    /// The work that lets clicks on hyperlinks be handled.
    pub fn install_hyperlink_click_handler(&self) -> (effects: Vec<Effect>)
        ensures
            views(effects@) == seq![EffectView::ListenForHyperlinkClicks],
    {
        let mut effects: Vec<Effect> = Vec::new();
        effects.push(Effect::ListenForHyperlinkClicks);
        assert(views(effects@) =~= seq![EffectView::ListenForHyperlinkClicks]);
        effects
    }

    /// Tests whether the backend can take note that `effect` was done.
    pub fn accepts(&self, effect: &Effect) -> (yes: bool)
        ensures
            yes == self@.accepts(effect@),
    {
        match effect {
            Effect::CreateCell { .. } => self.size.width > 0,
            Effect::CreateRow { .. } => {
                if self.rows == usize::MAX {
                    return false;
                }
                let width = self.size.width as usize;
                let len = self.cell_buffer.len();
                if width == 0 {
                    assert((self.rows + 1) * 0 == 0) by (nonlinear_arith);
                    true
                } else {
                    let fits = self.rows + 1 <= len / width;
                    proof {
                        lemma_fits_by_division(self.rows + 1, width as int, len as int);
                    }
                    fits
                }
            },
            _ => true,
        }
    }

    /// Takes note that `effect` was done.
    pub fn commit(&mut self, effect: &Effect)
        requires
            old(self)@.wf(),
            old(self)@.accepts(effect@),
        ensures
            final(self)@ == old(self)@.after(effect@),
            final(self)@.wf(),
    {
        match effect {
            Effect::CreateGrid { .. } => {
                self.cell_buffer.clear();
                self.rows = 0;
                self.rows_touched.clear();
                self.rows_need_rebuild.clear();
                self.changed_cells.clear();
                self.hyperlink_click_callback = false;
                assert(0 * self.size.width == 0) by (nonlinear_arith);
            },
            Effect::CreateCell { content } => {
                self.cell_buffer.push(content.clone());
            },
            Effect::CreateRow { .. } => {
                self.rows = self.rows + 1;
            },
            Effect::ListenForMouse { .. } => {
                self.mouse_callback = true;
            },
            Effect::ListenForWheel { .. } => {
                self.wheel_callback = true;
            },
            Effect::ListenForHyperlinkClicks => {
                self.hyperlink_click_callback = true;
            },
            Effect::ListenForKeys => {
                self.key_callback = true;
            },
            Effect::Forget { handler } => match handler {
                Handler::Mouse => {
                    self.mouse_callback = false;
                },
                Handler::Wheel => {
                    self.wheel_callback = false;
                },
                Handler::HyperlinkClick => {
                    self.hyperlink_click_callback = false;
                },
                Handler::Key => {
                    self.key_callback = false;
                },
            },
            _ => {},
        }
        assert(self@.buffer.len() == self.cell_buffer.len());
        assert(self@ =~= old(self)@.after(effect@));
    }
}

/// A product is within a bound exactly if a factor is within the quotient.
proof fn lemma_fits_by_division(count: int, width: int, len: int)
    requires
        0 < width,
        0 <= len,
    ensures
        count <= len / width <==> count * width <= len,
{
    assert(count <= len / width <==> count * width <= len) by (nonlinear_arith)
        requires
            0 < width,
            0 <= len,
    ;
}

} // verus!
