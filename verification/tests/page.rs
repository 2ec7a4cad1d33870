//! Frames on a small page, held against a buffer that is drawn by hand.
use ratzilla_dom::backend::{DomBackend, DrawAction, DrawEvent, PageProbe};
use ratzilla_dom::cell::{Cell, HYPERLINK_MODIFIER};
use ratzilla_dom::effect::Effect;
use ratzilla_dom::frame::DrawnCell;
use ratzilla_dom::geometry::{Position, Size};
use ratzilla_dom::row::rebuild_row;
use ratzilla_dom::text::HYPERLINK_STYLE;

const WIDTH: usize = 4;
const HEIGHT: usize = 3;
const WIDE: &str = "\u{754c}";

#[derive(Clone, Debug, PartialEq)]
enum Node {
    Cell(usize),
    Link(String, Vec<usize>),
}

#[derive(Default)]
struct Page {
    attached: bool,
    faces: Vec<(String, String)>,
    rows: Vec<Vec<Node>>,
    order: Vec<usize>,
    anchor: Option<(String, Vec<usize>)>,
    cursors: Vec<usize>,
}

impl Page {
    fn take(&mut self, cell: usize) {
        for row in &mut self.rows {
            row.retain(|node| *node != Node::Cell(cell));
            for node in row {
                if let Node::Link(_, cells) = node {
                    cells.retain(|other| *other != cell);
                }
            }
        }
        if let Some((_, cells)) = &mut self.anchor {
            cells.retain(|other| *other != cell);
        }
    }

    fn apply(&mut self, effect: &Effect) {
        match effect {
            Effect::EmptyParent => self.attached = false,
            Effect::CreateGrid { .. } => *self = Page::default(),
            Effect::AttachGrid => self.attached = true,
            Effect::CreateCell { content } => {
                self.faces.push((content.symbol.clone(), content.css.clone()))
            }
            Effect::CreateRow { .. } => self.rows.push(vec![]),
            Effect::PlaceCell { row, cell } => {
                self.take(*cell);
                self.rows[*row].push(Node::Cell(*cell));
            }
            Effect::PlaceRow { row } => self.order.push(*row),
            Effect::ClearRow { row } => self.rows[*row].clear(),
            Effect::SetContent { cell, text, style } => {
                self.faces[*cell] = (text.clone(), style.clone())
            }
            Effect::CreateAnchor { attributes } => {
                assert_eq!(attributes[0].name, "href");
                self.anchor = Some((attributes[0].value.clone(), vec![]));
            }
            Effect::PlaceInAnchor { cell } => {
                self.take(*cell);
                self.anchor.as_mut().unwrap().1.push(*cell);
            }
            Effect::PlaceAnchor { row } => {
                let (url, cells) = self.anchor.take().unwrap();
                self.rows[*row].push(Node::Link(url, cells));
            }
            Effect::AddCursor { cell } => self.cursors.push(*cell),
            Effect::RemoveCursor { cell } => self.cursors.retain(|other| other != cell),
            _ => {}
        }
    }

    fn run(&mut self, backend: &mut DomBackend, effects: &[Effect]) {
        for effect in effects {
            self.apply(effect);
            assert!(backend.accepts(effect));
            backend.commit(effect);
        }
    }

    /// Whether the page shows the buffer.
    fn shows(&self, buffer: &[Cell]) -> bool {
        let faces: Vec<(String, String)> = buffer
            .iter()
            .map(|cell| {
                let style = if cell.is_hyperlink() {
                    format!("{} {}", cell.css, HYPERLINK_STYLE)
                } else {
                    cell.css.clone()
                };
                (cell.symbol.clone(), style)
            })
            .collect();
        let rows: Vec<Vec<Node>> = (0..buffer.len() / WIDTH)
            .map(|row| {
                let mut nodes: Vec<Node> = vec![];
                let mut in_link = false;
                for cell in row * WIDTH..(row + 1) * WIDTH {
                    let linked = buffer[cell].is_hyperlink();
                    if linked && in_link {
                        if let Some(Node::Link(url, cells)) = nodes.last_mut() {
                            url.push_str(&buffer[cell].symbol);
                            cells.push(cell);
                        }
                    } else if linked {
                        nodes.push(Node::Link(buffer[cell].symbol.clone(), vec![cell]));
                    } else {
                        nodes.push(Node::Cell(cell));
                    }
                    in_link = linked;
                }
                nodes
            })
            .collect();
        self.faces == faces && self.rows == rows
    }
}

fn set_up() -> (Page, DomBackend, Vec<Cell>) {
    let mut backend = DomBackend::new(PageProbe {
        has_window: true,
        has_document: true,
        size: Size { width: WIDTH as u16, height: HEIGHT as u16 },
        blank_css: "blank;".to_string(),
        covered_css: "covered;".to_string(),
    })
    .unwrap();
    let mut page = Page::default();
    let effects = backend.reset_grid();
    page.run(&mut backend, &effects);
    let mut event = DrawEvent::Called;
    loop {
        assert!(backend.allows(&event));
        event = match backend.advance(event) {
            DrawAction::DrawFrame => break,
            DrawAction::FindGrid { .. } => {
                DrawEvent::GridMissing { row_style: String::new() }
            }
            DrawAction::Perform { effects } => {
                page.run(&mut backend, &effects);
                DrawEvent::Attached
            }
        };
    }
    let buffer = vec![Cell::blank("blank;"); WIDTH * HEIGHT];
    (page, backend, buffer)
}

#[test]
fn attached_grids_show_blank_cells() {
    let (page, _, buffer) = set_up();
    assert!(page.attached);
    assert_eq!(page.order, vec![0, 1, 2]);
    assert!(page.shows(&buffer));
    assert!(page.cursors.is_empty());
}

#[test]
fn the_page_shows_every_frame() {
    let (mut page, mut backend, mut buffer) = set_up();
    let effects = backend.set_cursor_position(Position { x: 1, y: 2 });
    page.run(&mut backend, &effects);
    let mut seed: u32 = 7;
    let mut next = |bound: u32| {
        seed = seed.wrapping_mul(1664525).wrapping_add(1013904223);
        (seed >> 16) % bound
    };
    for frame in 0..500 {
        let mut content = vec![];
        for _ in 0..next(5) {
            let (x, y) = (next(WIDTH as u32) as u16, next(HEIGHT as u32) as u16);
            let symbol = ["a", "b", " ", WIDE][next(4) as usize];
            let modifier = [0, 0, 1, HYPERLINK_MODIFIER][next(4) as usize];
            let cell =
                Cell { symbol: symbol.to_string(), modifier, css: format!("css {frame};") };
            let index = y as usize * WIDTH + x as usize;
            buffer[index] = cell.clone();
            if symbol == WIDE && index + 1 < buffer.len() {
                buffer[index + 1] = Cell::covered("covered;");
            }
            content.push(DrawnCell { at: Position { x, y }, cell });
        }
        let effects = backend.draw(&content);
        page.run(&mut backend, &effects);
        assert!(page.shows(&buffer));
        assert_eq!(page.cursors, vec![9]);
        assert_eq!(page.order, vec![0, 1, 2]);
    }
}

#[test]
fn frames_in_turn_add_up_to_one_frame() {
    let at = |x: u16, y: u16, symbol: &str, modifier: u16| DrawnCell {
        at: Position { x, y },
        cell: Cell { symbol: symbol.to_string(), modifier, css: "css;".to_string() },
    };
    let first = || vec![at(0, 0, WIDE, 0), at(1, 1, "a", HYPERLINK_MODIFIER)];
    let second = || vec![at(1, 0, "b", 0), at(2, 1, "c", HYPERLINK_MODIFIER), at(1, 2, WIDE, 0)];
    let (mut page, mut backend, mut buffer) = set_up();
    for content in [first(), second()] {
        let effects = backend.draw(&content);
        page.run(&mut backend, &effects);
    }
    let (mut other, mut at_once, _) = set_up();
    let content: Vec<DrawnCell> = first().into_iter().chain(second()).collect();
    let effects = at_once.draw(&content);
    other.run(&mut at_once, &effects);
    for drawn in content {
        buffer[drawn.at.y as usize * WIDTH + drawn.at.x as usize] = drawn.cell;
    }
    buffer[10] = Cell::covered("covered;");
    assert!(page.shows(&buffer));
    assert!(other.shows(&buffer));
}

#[test]
fn rebuilding_a_row_again_changes_nothing() {
    let (mut page, mut backend, mut buffer) = set_up();
    let cell =
        Cell { symbol: "a".to_string(), modifier: HYPERLINK_MODIFIER, css: "css;".to_string() };
    buffer[5] = cell.clone();
    let effects = backend.draw(&vec![DrawnCell { at: Position { x: 1, y: 1 }, cell }]);
    page.run(&mut backend, &effects);
    for _ in 0..2 {
        assert!(page.shows(&buffer));
        for effect in rebuild_row(&buffer, 1, WIDTH, 2 * WIDTH) {
            page.apply(&effect);
        }
    }
    assert!(page.shows(&buffer));
    assert_eq!(
        page.rows[1],
        vec![Node::Cell(4), Node::Link("a".to_string(), vec![5]), Node::Cell(6), Node::Cell(7)]
    );
}

#[test]
fn the_cursor_is_seen_once() {
    let (mut page, mut backend, _) = set_up();
    for (x, y) in [(0, 0), (3, 2), (3, 2), (1, 1)] {
        let effects = backend.set_cursor_position(Position { x, y });
        page.run(&mut backend, &effects);
        assert_eq!(page.cursors, vec![y as usize * WIDTH + x as usize]);
    }
    let effects = backend.hide_cursor();
    page.run(&mut backend, &effects);
    assert!(page.cursors.is_empty());
    let effects = backend.set_cursor_position(Position { x: 0, y: 3 });
    page.run(&mut backend, &effects);
    assert!(page.cursors.is_empty());
}

/// A grid that got its rows twice.
fn set_up_twice() -> (Page, DomBackend, Vec<Cell>) {
    let (mut page, mut backend, mut buffer) = set_up();
    backend.invalidate();
    backend.advance(DrawEvent::Called);
    match backend.advance(DrawEvent::GridMissing { row_style: String::new() }) {
        DrawAction::Perform { effects } => page.run(&mut backend, &effects),
        _ => panic!("the grid has to be attached"),
    }
    buffer.extend(vec![Cell::blank("blank;"); WIDTH * HEIGHT]);
    (page, backend, buffer)
}

#[test]
fn grids_can_get_further_rows() {
    let (page, _, buffer) = set_up_twice();
    assert_eq!(page.order, vec![0, 1, 2, 3, 4, 5]);
    assert!(page.shows(&buffer));
}

#[test]
fn wide_glyphs_may_cover_plain_cells_of_further_rows() {
    let (mut page, mut backend, mut buffer) = set_up_twice();
    let cell = Cell { symbol: WIDE.to_string(), modifier: 0, css: "css;".to_string() };
    buffer[11] = cell.clone();
    buffer[12] = Cell::covered("covered;");
    let effects = backend.draw(&vec![DrawnCell { at: Position { x: 3, y: 2 }, cell }]);
    page.run(&mut backend, &effects);
    assert!(page.shows(&buffer));
}

#[test]
fn hyperlinks_in_further_rows_do_not_settle() {
    let (mut page, mut backend, mut buffer) = set_up_twice();
    let cell =
        Cell { symbol: "a".to_string(), modifier: HYPERLINK_MODIFIER, css: "css;".to_string() };
    buffer[12] = cell.clone();
    let effects = backend.draw(&vec![DrawnCell { at: Position { x: 0, y: 3 }, cell }]);
    page.run(&mut backend, &effects);
    assert!(!page.shows(&buffer));
}

#[test]
fn plain_cells_settle_whatever_row_they_are_counted_from() {
    let (mut page, mut backend, mut buffer) = set_up();
    let cell = Cell { symbol: "a".to_string(), modifier: 0, css: "css;".to_string() };
    buffer[6] = cell.clone();
    let effects = backend.draw(&vec![DrawnCell { at: Position { x: 6, y: 0 }, cell }]);
    page.run(&mut backend, &effects);
    assert!(page.shows(&buffer));
    // A hyperlink there is looked for in the wrong row.
    let cell =
        Cell { symbol: "a".to_string(), modifier: HYPERLINK_MODIFIER, css: "css;".to_string() };
    buffer[6] = cell.clone();
    let effects = backend.draw(&vec![DrawnCell { at: Position { x: 6, y: 0 }, cell }]);
    page.run(&mut backend, &effects);
    assert!(!page.shows(&buffer));
}
