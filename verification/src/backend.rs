//! The backend.
use crate::cell::Cell;
use crate::geometry::{Position, Size};
use crate::options::{CursorShape, DomBackendOptions, OptionsView};
use crate::row::cell_views;
use crate::state::BackendView;
use vstd::prelude::*;

pub mod cursor;
pub mod debug;
pub mod draw;
pub mod events;
pub mod setup;

pub use cursor::{ClearRegionError, ClearType};
pub use debug::{DebugField, DebugValue};
pub use events::Navigation;
pub use setup::{DrawAction, DrawEvent};

verus! {

/// Why a backend could not be built.
#[derive(Clone, Copy, Debug, PartialEq, Eq, Structural)]
pub enum Error {
    /// There is no window.
    UnableToRetrieveWindow,
    /// The window has no document.
    UnableToRetrieveDocument,
}

/// What was found of the page on which a backend is to be built.
#[derive(Debug)]
pub struct PageProbe {
    /// Whether there is a window.
    pub has_window: bool,
    /// Whether the window has a document.
    pub has_document: bool,
    /// How many cells fit on the page.
    pub size: Size,
    /// The CSS of a cell in which nothing was drawn yet.
    pub blank_css: String,
    /// The CSS of a cell that a wide glyph covers.
    pub covered_css: String,
}

/// DOM backend.
///
/// It shows each cell as a `<span>`, and each row of cells as a `<pre>`.
#[derive(Debug)]
pub struct DomBackend {
    initialized: bool,
    options: DomBackendOptions,
    size: Size,
    blank_css: String,
    covered_css: String,
    cell_buffer: Vec<Cell>,
    rows: usize,
    rows_touched: Vec<bool>,
    rows_need_rebuild: Vec<bool>,
    changed_cells: Vec<usize>,
    cursor_position: Option<Position>,
    last_cursor_position: Option<Position>,
    mouse_callback: bool,
    wheel_callback: bool,
    hyperlink_click_callback: bool,
    key_callback: bool,
}

impl View for DomBackend {
    type V = BackendView;

    closed spec fn view(&self) -> BackendView {
        BackendView {
            initialized: self.initialized,
            options: self.options@,
            size: self.size,
            blank_css: self.blank_css@,
            covered_css: self.covered_css@,
            buffer: cell_views(self.cell_buffer@),
            rows: self.rows as nat,
            touched: self.rows_touched@,
            needs_rebuild: self.rows_need_rebuild@,
            changed: self.changed_cells@,
            cursor: self.cursor_position,
            last_cursor: self.last_cursor_position,
            mouse: self.mouse_callback,
            wheel: self.wheel_callback,
            hyperlink_click: self.hyperlink_click_callback,
            key: self.key_callback,
        }
    }
}

impl DomBackend {
    /// Constructs a new backend with the default options.
    pub fn new(page: PageProbe) -> (result: Result<Self, Error>)
        ensures
            opened(OptionsView::defaults(), page, result),
            result is Ok <==> page.has_window && page.has_document,
            result == Err::<Self, Error>(Error::UnableToRetrieveWindow) <==> !page.has_window,
            result matches Ok(backend) ==> backend@.wf() && backend@ == BackendView::initial(
                OptionsView { chosen_id: None, cursor_shape: CursorShape::SteadyBlock },
                page.size,
                page.blank_css@,
                page.covered_css@,
            ),
    {
        Self::new_with_options(DomBackendOptions::default(), page)
    }

    /// Constructs a new backend that draws into the element with the id `id`.
    pub fn new_by_id(id: &str, page: PageProbe) -> (result: Result<Self, Error>)
        ensures
            opened(
                OptionsView { chosen_id: Some(id@), ..OptionsView::defaults() },
                page,
                result,
            ),
            result is Ok <==> page.has_window && page.has_document,
            result == Err::<Self, Error>(Error::UnableToRetrieveWindow) <==> !page.has_window,
            result matches Ok(backend) ==> backend@.wf() && backend@ == BackendView::initial(
                OptionsView {
                    chosen_id: Some(id@),
                    cursor_shape: CursorShape::SteadyBlock,
                },
                page.size,
                page.blank_css@,
                page.covered_css@,
            ),
    {
        Self::new_with_options(
            DomBackendOptions::new(Some(id.to_owned()), CursorShape::default()),
            page,
        )
    }

    /// Constructs a new backend with the given options.
    pub fn new_with_options(options: DomBackendOptions, page: PageProbe) -> (result: Result<
        Self,
        Error,
    >)
        ensures
            opened(options@, page, result),
            result is Ok <==> page.has_window && page.has_document,
            result == Err::<Self, Error>(Error::UnableToRetrieveWindow) <==> !page.has_window,
            result matches Ok(backend) ==> backend@.wf() && backend@ == BackendView::initial(
                options@,
                page.size,
                page.blank_css@,
                page.covered_css@,
            ),
    {
        if !page.has_window {
            return Err(Error::UnableToRetrieveWindow);
        }
        if !page.has_document {
            return Err(Error::UnableToRetrieveDocument);
        }
        let backend = DomBackend {
            initialized: false,
            options,
            size: page.size,
            blank_css: page.blank_css,
            covered_css: page.covered_css,
            cell_buffer: Vec::new(),
            rows: 0,
            rows_touched: Vec::new(),
            rows_need_rebuild: Vec::new(),
            changed_cells: Vec::new(),
            cursor_position: None,
            last_cursor_position: None,
            mouse_callback: false,
            wheel_callback: false,
            hyperlink_click_callback: false,
            key_callback: false,
        };
        assert(backend@ =~= BackendView::initial(
            options@,
            page.size,
            page.blank_css@,
            page.covered_css@,
        ));
        Ok(backend)
    }

    /// Sets the [`CursorShape`].
    pub fn set_cursor_shape(self, shape: CursorShape) -> (backend: Self)
        ensures
            backend@ == (BackendView {
                options: OptionsView { cursor_shape: shape, ..self@.options },
                ..self@
            }),
    {
        let mut backend = self;
        backend.options.set_cursor_shape(shape);
        backend
    }
}

/// What building a backend on a page comes to: an error exactly where there is
/// no window, another where there is no document, and else a new backend.
pub open spec fn opened(
    options: OptionsView,
    page: PageProbe,
    result: Result<DomBackend, Error>,
) -> bool {
    match result {
        Err(Error::UnableToRetrieveWindow) => !page.has_window,
        Err(Error::UnableToRetrieveDocument) => page.has_window && !page.has_document,
        Ok(backend) => {
            &&& page.has_window && page.has_document
            &&& backend@ == BackendView::initial(
                options,
                page.size,
                page.blank_css@,
                page.covered_css@,
            )
            &&& backend@.wf()
        },
    }
}

} // verus!
