use ratatui::style::Modifier;
use ratzilla_dom::cell::{Cell, HYPERLINK_MODIFIER};
use ratzilla_dom::effect::{Attribute, Effect};
use ratzilla_dom::geometry::Position;
use ratzilla_dom::row::{create_hyperlink_anchor, rebuild_row, set_cell_content};
use ratzilla_dom::text::{count_label, decimal_text, row_style, HYPERLINK_STYLE};

fn plain(symbol: &str) -> Cell {
    Cell { symbol: symbol.to_string(), modifier: 0, css: "color: red;".to_string() }
}

fn link(symbol: &str) -> Cell {
    Cell { symbol: symbol.to_string(), modifier: HYPERLINK_MODIFIER, css: "color: red;".to_string() }
}

fn content(cell: usize, text: &str, style: &str) -> Effect {
    Effect::SetContent { cell, text: text.to_string(), style: style.to_string() }
}

const LINK_STYLE: &str =
    "color: red; color: #268bd2; text-decoration: underline; cursor: pointer;";

#[test]
fn hyperlinks_are_marked_by_slow_blinking() {
    assert_eq!(HYPERLINK_MODIFIER, Modifier::SLOW_BLINK.bits());
    let mut cell = plain("x");
    assert!(!cell.is_hyperlink());
    cell.modifier = (Modifier::BOLD | Modifier::RAPID_BLINK).bits();
    assert!(!cell.is_hyperlink());
    cell.modifier = (Modifier::BOLD | Modifier::SLOW_BLINK).bits();
    assert!(cell.is_hyperlink());
    cell.modifier = u16::MAX;
    assert!(cell.is_hyperlink());
}

#[test]
fn blank_and_covered_cells() {
    let blank = Cell::blank("css");
    assert_eq!(blank.symbol, " ");
    assert_eq!(blank.modifier, 0);
    assert_eq!(blank.css, "css");
    let covered = Cell::covered("css");
    assert_eq!(covered.symbol, "");
    assert_eq!(covered.modifier, 0);
    assert_eq!(covered.css, "css");
}

#[test]
fn widths_come_from_unicode() {
    assert_eq!(plain("a").columns(), 1);
    assert_eq!(plain("").columns(), 0);
    assert_eq!(plain("\u{754c}").columns(), 2);
    assert_eq!(plain("\u{e9}").columns(), 1);
    assert_eq!(plain("ab").columns(), 2);
}

#[test]
fn wide_glyphs_take_more_than_one_byte_and_two_columns() {
    assert!(plain("\u{754c}").covers_next(2));
    assert!(plain("ab").covers_next(2));
    assert!(!plain("\u{754c}").covers_next(1));
    assert!(!plain("a").covers_next(2));
    assert!(!plain("").covers_next(2));
    assert!(plain("\u{e9}").covers_next(2));
}

#[test]
fn cell_content_inside_and_outside_hyperlinks() {
    assert_eq!(set_cell_content(7, &link("x"), false), content(7, "x", "color: red;"));
    assert_eq!(set_cell_content(7, &link("x"), true), content(7, "x", LINK_STYLE));
    assert_eq!(link("x").hyperlink_style(), LINK_STYLE);
}

#[test]
fn anchors_carry_their_attributes() {
    let expected = vec![
        Attribute::new("href", "https://a.b"),
        Attribute::new("target", "_blank"),
        Attribute::new("rel", "noopener"),
        Attribute::new("data-ratzilla-hyperlink", "true"),
        Attribute::new("style", HYPERLINK_STYLE),
    ];
    assert_eq!(
        create_hyperlink_anchor("https://a.b"),
        Effect::CreateAnchor { attributes: expected }
    );
}

#[test]
fn rows_put_each_run_into_one_anchor() {
    let cells = vec![plain("p"), link("a"), link("b"), plain("q"), link("c")];
    let effects = rebuild_row(&cells, 3, 0, 5);
    let expected = vec![
        Effect::ClearRow { row: 3 },
        content(0, "p", "color: red;"),
        Effect::PlaceCell { row: 3, cell: 0 },
        create_hyperlink_anchor("ab"),
        content(1, "a", LINK_STYLE),
        Effect::PlaceInAnchor { cell: 1 },
        content(2, "b", LINK_STYLE),
        Effect::PlaceInAnchor { cell: 2 },
        Effect::PlaceAnchor { row: 3 },
        content(3, "q", "color: red;"),
        Effect::PlaceCell { row: 3, cell: 3 },
        create_hyperlink_anchor("c"),
        content(4, "c", LINK_STYLE),
        Effect::PlaceInAnchor { cell: 4 },
        Effect::PlaceAnchor { row: 3 },
    ];
    assert_eq!(effects, expected);
}

#[test]
fn runs_end_with_their_row() {
    let cells = vec![link("a"), link("b"), link("c"), link("d")];
    let effects = rebuild_row(&cells, 0, 0, 2);
    assert_eq!(effects[1], create_hyperlink_anchor("ab"));
    assert_eq!(effects.len(), 7);
    let effects = rebuild_row(&cells, 1, 2, 4);
    assert_eq!(effects[1], create_hyperlink_anchor("cd"));
    assert_eq!(effects.len(), 7);
    assert_eq!(rebuild_row(&cells, 1, 4, 4), vec![Effect::ClearRow { row: 1 }]);
}

#[test]
fn numbers_and_labels() {
    assert_eq!(decimal_text(0), "0");
    assert_eq!(decimal_text(9), "9");
    assert_eq!(decimal_text(10), "10");
    assert_eq!(decimal_text(65535), "65535");
    assert_eq!(decimal_text(usize::MAX), format!("{}", usize::MAX));
    assert_eq!(count_label(12, "cells"), "[12 cells]");
}

#[test]
fn row_styles_fix_the_height() {
    assert_eq!(
        row_style("19.5"),
        "margin: 0; padding: 0; border: 0; font-family: inherit; height: 19.5px; line-height: 19.5px;"
    );
}

#[test]
fn positions_are_counted_row_by_row() {
    let at = Position { x: 3, y: 2 };
    assert_eq!(at.cell_index(10), 23);
    assert!(at.addressable(10));
    assert!(Position { x: 0, y: 6553 }.addressable(10));
    assert!(Position { x: 5, y: 6553 }.addressable(10));
    assert!(!Position { x: 6, y: 6553 }.addressable(10));
    assert!(!Position { x: u16::MAX, y: u16::MAX }.addressable(u16::MAX));
}
