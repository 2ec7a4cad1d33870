use ratzilla_dom::backend::{
    ClearType, DebugValue, DomBackend, DrawAction, DrawEvent, Error, Navigation, PageProbe,
};
use ratzilla_dom::cell::{Cell, HYPERLINK_MODIFIER};
use ratzilla_dom::effect::{Attribute, Effect, Handler};
use ratzilla_dom::frame::DrawnCell;
use ratzilla_dom::geometry::{Position, Size};
use ratzilla_dom::options::{CursorShape, DomBackendOptions};
use ratzilla_dom::row::create_hyperlink_anchor;

const BLANK: &str = "color: white;";
const COVERED: &str = "color: grey;";

fn probe(width: u16, height: u16) -> PageProbe {
    PageProbe {
        has_window: true,
        has_document: true,
        size: Size { width, height },
        blank_css: BLANK.to_string(),
        covered_css: COVERED.to_string(),
    }
}

/// Takes note of all work, as if the page had done it.
fn commit_all(backend: &mut DomBackend, effects: &[Effect]) {
    for effect in effects {
        assert!(backend.accepts(effect));
        backend.commit(effect);
    }
}

/// A backend whose grid is in place.
fn ready(width: u16, height: u16) -> DomBackend {
    let mut backend = DomBackend::new(probe(width, height)).unwrap();
    let effects = backend.reset_grid();
    commit_all(&mut backend, &effects);
    assert_eq!(
        backend.advance(DrawEvent::Called),
        DrawAction::FindGrid { id: "grid".to_string() }
    );
    let event = DrawEvent::GridMissing { row_style: "style".to_string() };
    assert!(backend.allows(&event));
    match backend.advance(event) {
        DrawAction::Perform { effects } => commit_all(&mut backend, &effects),
        _ => panic!("the grid has to be attached"),
    }
    assert_eq!(backend.advance(DrawEvent::Attached), DrawAction::DrawFrame);
    backend
}

fn drawn(x: u16, y: u16, symbol: &str, modifier: u16) -> DrawnCell {
    DrawnCell {
        at: Position { x, y },
        cell: Cell { symbol: symbol.to_string(), modifier, css: "css;".to_string() },
    }
}

fn content(cell: usize, text: &str, style: &str) -> Effect {
    Effect::SetContent { cell, text: text.to_string(), style: style.to_string() }
}

fn counts(backend: &DomBackend) -> Vec<String> {
    let fields = backend.debug_fields(false);
    fields[1..6]
        .iter()
        .map(|field| match &field.value {
            DebugValue::Text(text) => text.clone(),
            _ => panic!("a count is a text"),
        })
        .collect()
}

#[test]
fn no_window_is_an_error() {
    let mut page = probe(2, 2);
    page.has_window = false;
    page.has_document = false;
    assert_eq!(DomBackend::new(page).err(), Some(Error::UnableToRetrieveWindow));
}

#[test]
fn no_document_is_an_error() {
    let mut page = probe(2, 2);
    page.has_document = false;
    assert_eq!(DomBackend::new_by_id("app", page).err(), Some(Error::UnableToRetrieveDocument));
}

#[test]
fn new_backends_take_their_options() {
    let backend = DomBackend::new(probe(80, 24)).unwrap();
    assert_eq!(backend.options().grid_id(), "grid");
    assert_eq!(backend.size(), Size { width: 80, height: 24 });
    assert!(!backend.is_initialized());
    assert!(backend.is_blank());

    let backend = DomBackend::new_by_id("app", probe(80, 24)).unwrap();
    assert_eq!(backend.options().grid_id(), "app_ratzilla_grid");
    assert_eq!(*backend.options().cursor_shape(), CursorShape::SteadyBlock);

    let options = DomBackendOptions::new(None, CursorShape::SteadyUnderScore);
    let backend = DomBackend::new_with_options(options, probe(1, 1)).unwrap();
    assert_eq!(*backend.options().cursor_shape(), CursorShape::SteadyUnderScore);
    let backend = backend.set_cursor_shape(CursorShape::SteadyBlock);
    assert_eq!(*backend.options().cursor_shape(), CursorShape::SteadyBlock);
}

#[test]
fn attaching_creates_rows_of_blank_cells() {
    let backend = DomBackend::new(probe(2, 2)).unwrap();
    let blank = || Effect::CreateCell { content: Cell::blank(BLANK) };
    let expected = vec![
        Effect::AttachGrid,
        blank(),
        blank(),
        Effect::CreateRow { style: "style".to_string() },
        Effect::PlaceCell { row: 0, cell: 0 },
        Effect::PlaceCell { row: 0, cell: 1 },
        Effect::PlaceRow { row: 0 },
        blank(),
        blank(),
        Effect::CreateRow { style: "style".to_string() },
        Effect::PlaceCell { row: 1, cell: 2 },
        Effect::PlaceCell { row: 1, cell: 3 },
        Effect::PlaceRow { row: 1 },
        Effect::ListenForHyperlinkClicks,
        Effect::FocusGrid,
    ];
    assert_eq!(backend.attach_grid("style"), expected);
}

#[test]
fn filled_grids_have_all_their_elements() {
    let backend = ready(3, 2);
    assert_eq!(counts(&backend), ["[6 cells]", "[6 cells]", "[0 rows]", "[0 rows]", "[0 cells]"]);
    assert!(backend.has_handler(Handler::HyperlinkClick));
    assert!(backend.is_initialized());
    assert!(backend.contains(Position { x: 2, y: 1 }));
    assert!(!backend.contains(Position { x: 0, y: 2 }));
}

#[test]
fn debug_fields_come_in_order() {
    let mut backend = ready(3, 2);
    backend.draw(&vec![drawn(0, 0, "a", 0)]);
    let text = |text: &str| DebugValue::Text(text.to_string());
    let shown: Vec<(&str, DebugValue)> = backend
        .debug_fields(false)
        .into_iter()
        .map(|field| (field.name, field.value))
        .collect();
    assert_eq!(
        shown,
        vec![
            ("initialized", DebugValue::SharedFlag(true)),
            ("cells", text("[6 cells]")),
            ("cell_buffer", text("[6 cells]")),
            ("rows_need_rebuild", text("[2 rows]")),
            ("rows_touched", text("[2 rows]")),
            ("changed_cells", text("[1 cells]")),
            ("size", DebugValue::Size(Size { width: 3, height: 2 })),
            ("cell_size", DebugValue::CellSize),
            ("cursor_position", DebugValue::Cursor(None)),
            ("resize_callback", text("...")),
            ("mouse_callback", DebugValue::Flag(false)),
            ("wheel_callback", DebugValue::Flag(false)),
            ("hyperlink_click_callback", DebugValue::Flag(true)),
            ("key_callback", DebugValue::Flag(false)),
        ]
    );
}

#[test]
fn debug_fields_follow_the_backend() {
    let mut backend = ready(3, 2);
    backend.set_cursor_position(Position { x: 2, y: 1 });
    for effects in [backend.on_key_event(), backend.on_mouse_event()] {
        commit_all(&mut backend, &effects);
    }
    let fields = backend.debug_fields(true);
    assert_eq!(fields[0].value, DebugValue::SharedFlag(false));
    assert_eq!(fields[8].value, DebugValue::Cursor(Some(Position { x: 2, y: 1 })));
    assert_eq!(fields[10].value, DebugValue::Flag(true));
    assert_eq!(fields[11].value, DebugValue::Flag(true));
    assert_eq!(fields[13].value, DebugValue::Flag(true));
}

#[test]
fn cells_and_rows_come_in_order() {
    let mut backend = DomBackend::new(probe(2, 1)).unwrap();
    let row = Effect::CreateRow { style: String::new() };
    let cell = Effect::CreateCell { content: Cell::blank(BLANK) };
    assert!(!backend.accepts(&row));
    assert!(backend.accepts(&cell));
    backend.commit(&cell);
    assert!(!backend.accepts(&row));
    backend.commit(&cell);
    assert!(backend.accepts(&row));
    let narrow = DomBackend::new(probe(0, 1)).unwrap();
    assert!(!narrow.accepts(&cell));
    assert!(narrow.accepts(&row));
}

#[test]
fn later_draws_need_no_setup() {
    let mut backend = ready(2, 1);
    assert_eq!(backend.advance(DrawEvent::Called), DrawAction::DrawFrame);
}

#[test]
fn resizing_replaces_a_grid_that_is_on_the_page() {
    let mut backend = ready(2, 2);
    backend.set_cursor_position(Position { x: 1, y: 1 });
    backend.draw(&vec![drawn(0, 0, "x", 0)]);
    backend.invalidate();
    assert_eq!(
        backend.advance(DrawEvent::Called),
        DrawAction::FindGrid { id: "grid".to_string() }
    );
    assert_eq!(backend.cursor(), None);
    assert_eq!(backend.last_cursor_position(), None);
    let early = DrawEvent::Prepared {
        size: Size { width: 3, height: 1 },
        row_style: String::new(),
    };
    assert!(!backend.allows(&early));
    let effects = match backend.advance(DrawEvent::GridFound) {
        DrawAction::Perform { effects } => effects,
        _ => panic!("the grid has to be replaced"),
    };
    assert_eq!(
        effects,
        vec![
            Effect::EmptyParent,
            Effect::CreateGrid { id: "grid".to_string() },
            Effect::Measure,
        ]
    );
    commit_all(&mut backend, &effects);
    assert!(backend.is_blank());
    assert!(!backend.has_handler(Handler::HyperlinkClick));
    let event = DrawEvent::Prepared {
        size: Size { width: 3, height: 1 },
        row_style: "style".to_string(),
    };
    assert!(backend.allows(&event));
    match backend.advance(event) {
        DrawAction::Perform { effects } => {
            assert_eq!(effects.len(), 11);
            commit_all(&mut backend, &effects);
        }
        _ => panic!("the grid has to be attached"),
    }
    assert_eq!(backend.size(), Size { width: 3, height: 1 });
    assert!(backend.contains(Position { x: 2, y: 0 }));
    assert!(!backend.contains(Position { x: 0, y: 1 }));
}

#[test]
fn plain_cells_are_updated_in_place() {
    let mut backend = ready(3, 2);
    let effects = backend.draw(&vec![drawn(1, 0, "a", 0), drawn(2, 1, "b", 0)]);
    assert_eq!(effects, vec![content(1, "a", "css;"), content(5, "b", "css;")]);
    assert_eq!(counts(&backend), ["[6 cells]", "[6 cells]", "[2 rows]", "[2 rows]", "[2 cells]"]);
}

#[test]
fn empty_frames_ask_for_nothing() {
    let mut backend = ready(3, 2);
    backend.draw(&vec![drawn(1, 0, "a", HYPERLINK_MODIFIER)]);
    assert_eq!(backend.draw(&vec![]), vec![]);
}

#[test]
fn a_new_hyperlink_rebuilds_its_row() {
    let mut backend = ready(3, 2);
    let effects = backend.draw(&vec![
        drawn(0, 0, "a", 0),
        drawn(0, 1, "u", HYPERLINK_MODIFIER),
        drawn(1, 1, "v", HYPERLINK_MODIFIER),
    ]);
    let linked = "css; color: #268bd2; text-decoration: underline; cursor: pointer;";
    assert_eq!(
        effects,
        vec![
            Effect::ClearRow { row: 1 },
            create_hyperlink_anchor("uv"),
            content(3, "u", linked),
            Effect::PlaceInAnchor { cell: 3 },
            content(4, "v", linked),
            Effect::PlaceInAnchor { cell: 4 },
            Effect::PlaceAnchor { row: 1 },
            content(5, " ", BLANK),
            Effect::PlaceCell { row: 1, cell: 5 },
            content(0, "a", "css;"),
        ]
    );
}

#[test]
fn a_hyperlink_that_goes_rebuilds_its_row() {
    let mut backend = ready(2, 1);
    backend.draw(&vec![drawn(0, 0, "u", HYPERLINK_MODIFIER)]);
    let effects = backend.draw(&vec![drawn(0, 0, "p", 0)]);
    assert_eq!(
        effects,
        vec![
            Effect::ClearRow { row: 0 },
            content(0, "p", "css;"),
            Effect::PlaceCell { row: 0, cell: 0 },
            content(1, " ", BLANK),
            Effect::PlaceCell { row: 0, cell: 1 },
        ]
    );
}

#[test]
fn plain_cells_beside_a_hyperlink_leave_it_alone() {
    let mut backend = ready(2, 1);
    backend.draw(&vec![drawn(0, 0, "u", HYPERLINK_MODIFIER)]);
    assert_eq!(backend.draw(&vec![drawn(1, 0, "p", 0)]), vec![content(1, "p", "css;")]);
}

#[test]
fn wide_glyphs_cover_the_cell_behind_them() {
    let mut backend = ready(3, 1);
    let effects = backend.draw(&vec![drawn(0, 0, "\u{754c}", 0)]);
    assert_eq!(effects, vec![content(0, "\u{754c}", "css;"), content(1, "", COVERED)]);
    // Drawn later, the cell is seen again.
    let effects = backend.draw(&vec![drawn(0, 0, "\u{754c}", 0), drawn(1, 0, "x", 0)]);
    assert_eq!(
        effects,
        vec![
            content(0, "\u{754c}", "css;"),
            content(1, "x", "css;"),
            content(1, "x", "css;"),
        ]
    );
}

#[test]
fn wide_glyphs_at_the_end_cover_nothing() {
    let mut backend = ready(2, 1);
    let effects = backend.draw(&vec![drawn(1, 0, "\u{754c}", 0)]);
    assert_eq!(effects, vec![content(1, "\u{754c}", "css;")]);
}

#[test]
fn wide_glyphs_cover_a_hyperlink_in_the_next_row() {
    let mut backend = ready(2, 2);
    backend.draw(&vec![drawn(0, 1, "u", HYPERLINK_MODIFIER)]);
    let effects = backend.draw(&vec![drawn(1, 0, "\u{754c}", 0)]);
    assert_eq!(
        effects,
        vec![
            Effect::ClearRow { row: 1 },
            content(2, "", COVERED),
            Effect::PlaceCell { row: 1, cell: 2 },
            content(3, " ", BLANK),
            Effect::PlaceCell { row: 1, cell: 3 },
            content(1, "\u{754c}", "css;"),
        ]
    );
}

#[test]
fn widths_that_are_handed_in_decide() {
    let mut backend = ready(2, 1);
    backend.begin_frame();
    let cell = Cell { symbol: "ab".to_string(), modifier: 0, css: "css;".to_string() };
    backend.write_cell(Position { x: 0, y: 0 }, cell.clone(), 1);
    assert_eq!(backend.frame_effects(), vec![content(0, "ab", "css;")]);
    backend.begin_frame();
    backend.write_cell(Position { x: 0, y: 0 }, cell, 2);
    assert_eq!(
        backend.frame_effects(),
        vec![content(0, "ab", "css;"), content(1, "", COVERED)]
    );
}

#[test]
fn columns_behind_the_row_end_count_on() {
    let mut backend = ready(2, 2);
    assert_eq!(backend.draw(&vec![drawn(3, 0, "x", 0)]), vec![content(3, "x", "css;")]);
}

#[test]
fn rows_without_elements_are_not_rendered() {
    let backend = ready(2, 1);
    assert_eq!(backend.render_row(1), vec![]);
    assert_eq!(backend.render_row(0).len(), 5);
}

#[test]
fn the_cursor_moves_its_class() {
    let mut backend = ready(3, 2);
    assert_eq!(backend.get_cursor_position(), Position { x: 0, y: 0 });
    assert_eq!(backend.hide_cursor(), vec![]);
    assert_eq!(
        backend.set_cursor_position(Position { x: 2, y: 1 }),
        vec![Effect::AddCursor { cell: 5 }]
    );
    assert_eq!(backend.hide_cursor(), vec![Effect::RemoveCursor { cell: 5 }]);
    assert_eq!(
        backend.set_cursor_position(Position { x: 1, y: 0 }),
        vec![Effect::RemoveCursor { cell: 5 }, Effect::AddCursor { cell: 1 }]
    );
    assert_eq!(backend.get_cursor_position(), Position { x: 1, y: 0 });
    assert_eq!(backend.last_cursor_position(), Some(Position { x: 2, y: 1 }));
    assert_eq!(
        backend.set_cursor_position(Position { x: 0, y: 9 }),
        vec![Effect::RemoveCursor { cell: 1 }]
    );
    assert_eq!(backend.hide_cursor(), vec![]);
    assert_eq!(backend.get_cursor_position(), Position { x: 0, y: 9 });
}

#[test]
fn the_old_cursor_calls_do_nothing() {
    let mut backend = ready(3, 2);
    backend.set_cursor_position(Position { x: 2, y: 1 });
    backend.set_cursor(0, 0);
    backend.show_cursor();
    backend.flush();
    backend.clear();
    assert_eq!(backend.get_cursor(), (0, 0));
    assert_eq!(backend.get_cursor_position(), Position { x: 2, y: 1 });
}

#[test]
fn only_everything_can_be_cleared() {
    let mut backend = ready(1, 1);
    assert!(backend.clear_region(ClearType::All).is_ok());
    for part in [
        ClearType::AfterCursor,
        ClearType::BeforeCursor,
        ClearType::CurrentLine,
        ClearType::UntilNewLine,
    ] {
        let error = backend.clear_region(part).unwrap_err();
        assert_eq!(error.message(), "unimplemented");
    }
}

#[test]
fn pointer_handlers_are_replaced() {
    let mut backend = ready(4, 3);
    let size = Size { width: 4, height: 3 };
    let effects = backend.on_mouse_event();
    assert_eq!(
        effects,
        vec![
            Effect::Forget { handler: Handler::Mouse },
            Effect::Forget { handler: Handler::Wheel },
            Effect::ListenForMouse { size },
            Effect::ListenForWheel { size },
        ]
    );
    commit_all(&mut backend, &effects);
    assert!(backend.has_handler(Handler::Mouse) && backend.has_handler(Handler::Wheel));
    // The wheel handler could not be put in place.
    commit_all(&mut backend, &effects[..3]);
    assert!(backend.has_handler(Handler::Mouse) && !backend.has_handler(Handler::Wheel));
    let effects = backend.clear_mouse_events();
    commit_all(&mut backend, &effects);
    assert!(!backend.has_handler(Handler::Mouse) && !backend.has_handler(Handler::Wheel));
}

#[test]
fn key_handlers_are_replaced() {
    let mut backend = ready(4, 3);
    let effects = backend.on_key_event();
    assert_eq!(
        effects,
        vec![
            Effect::Forget { handler: Handler::Key },
            Effect::SetGridAttribute { attribute: Attribute::new("tabindex", "0") },
            Effect::ListenForKeys,
        ]
    );
    commit_all(&mut backend, &effects);
    assert!(backend.has_handler(Handler::Key));
    let effects = backend.clear_key_events();
    commit_all(&mut backend, &effects);
    assert!(!backend.has_handler(Handler::Key));
}

#[test]
fn clicks_lead_where_the_anchor_does() {
    assert_eq!(DomBackend::hyperlink_click(None), None);
    assert_eq!(DomBackend::hyperlink_click(Some(None)), None);
    assert_eq!(
        DomBackend::hyperlink_click(Some(Some("https://a.b".to_string()))),
        Some(Navigation { url: "https://a.b".to_string(), target: "_blank" })
    );
}

#[test]
fn interrupted_setup_leaves_whole_rows() {
    let mut backend = DomBackend::new(probe(2, 2)).unwrap();
    let effects = backend.attach_grid("style");
    // The second row could not be created.
    commit_all(&mut backend, &effects[..9]);
    assert_eq!(backend.render_row(1), vec![]);
    assert_eq!(backend.render_row(0).len(), 5);
    let effects = backend.draw(&vec![drawn(1, 0, "u", HYPERLINK_MODIFIER)]);
    assert_eq!(effects[0], Effect::ClearRow { row: 0 });
    assert_eq!(effects.len(), 7);
}

#[test]
fn a_missing_grid_gets_further_rows() {
    let mut backend = ready(2, 1);
    backend.invalidate();
    backend.advance(DrawEvent::Called);
    let event = DrawEvent::GridMissing { row_style: "style".to_string() };
    match backend.advance(event) {
        DrawAction::Perform { effects } => {
            assert_eq!(effects[4], Effect::PlaceCell { row: 1, cell: 2 });
            commit_all(&mut backend, &effects);
        }
        _ => panic!("the grid has to be attached"),
    }
    assert_eq!(counts(&backend)[0], "[4 cells]");
    assert_eq!(backend.draw(&vec![drawn(0, 0, "a", 0)]), vec![content(0, "a", "css;")]);
}
