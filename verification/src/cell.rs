//! A terminal cell as the page sees it.
use crate::outside::{default_cell, modifier_contains, new_cell, slow_blink, text_width};
use crate::text::HYPERLINK_STYLE;
use vstd::prelude::*;
use vstd::utf8::encode_utf8;

verus! {

/// The modifier that marks a cell as part of a hyperlink: slow blinking.
pub const HYPERLINK_MODIFIER: u16 = 0x0010;

/// What is drawn in one place of the grid.
#[derive(Debug, PartialEq, Eq)]
pub struct Cell {
    /// The grapheme to show.
    pub symbol: String,
    /// The bits of the cell's modifiers.
    pub modifier: u16,
    /// The cell's colours and modifiers as CSS declarations.
    pub css: String,
}

/// A cell, with its strings as sequences of characters.
#[verifier::ext_equal]
pub struct CellView {
    pub symbol: Seq<char>,
    pub modifier: u16,
    pub css: Seq<char>,
}

impl View for Cell {
    type V = CellView;

    open spec fn view(&self) -> CellView {
        CellView { symbol: self.symbol@, modifier: self.modifier, css: self.css@ }
    }
}

impl Clone for Cell {
    fn clone(&self) -> (copy: Self)
        ensures
            copy == *self,
    {
        Cell { symbol: self.symbol.clone(), modifier: self.modifier, css: self.css.clone() }
    }
}

impl CellView {
    /// Whether the cell belongs to a hyperlink.
    pub open spec fn is_link(self) -> bool {
        self.modifier & HYPERLINK_MODIFIER == HYPERLINK_MODIFIER
    }

    /// The style of the cell's element: the cell's own, and behind it, inside a
    /// hyperlink, that of hyperlinks.
    pub open spec fn style(self, in_link: bool) -> Seq<char> {
        if in_link {
            self.css + " "@ + HYPERLINK_STYLE@
        } else {
            self.css
        }
    }

    /// Whether the cell, shown in `columns` columns, covers the place on its
    /// right too. One byte never does.
    pub open spec fn covers_next(self, columns: usize) -> bool {
        encode_utf8(self.symbol).len() > 1 && columns == 2
    }

    /// The cell of a place in which nothing was drawn yet.
    pub open spec fn blank(css: Seq<char>) -> Self {
        CellView { symbol: " "@, modifier: 0, css }
    }

    /// The cell of a place that a wide glyph covers.
    pub open spec fn covered(css: Seq<char>) -> Self {
        CellView { symbol: ""@, modifier: 0, css }
    }
}

impl Cell {
    /// The cell of a place in which nothing was drawn yet, with its CSS.
    pub fn blank(css: &str) -> (cell: Cell)
        ensures
            cell@ == CellView::blank(css@),
    {
        let (symbol, modifier) = default_cell();
        Cell { symbol, modifier, css: css.to_owned() }
    }

    /// The cell of a place that a wide glyph covers, with its CSS.
    pub fn covered(css: &str) -> (cell: Cell)
        ensures
            cell@ == CellView::covered(css@),
    {
        let (symbol, modifier) = new_cell("");
        Cell { symbol, modifier, css: css.to_owned() }
    }

    /// Whether the cell belongs to a hyperlink.
    pub fn is_hyperlink(&self) -> (yes: bool)
        ensures
            yes == self@.is_link(),
            yes == (self.modifier & 0x0010 == 0x0010),
    {
        modifier_contains(self.modifier, slow_blink())
    }

    /// The number of columns that a terminal gives to the cell's symbol.
    pub fn columns(&self) -> (columns: usize)
        ensures
            columns == crate::outside::display_width(self@.symbol),
    {
        text_width(self.symbol.as_str())
    }

    /// Whether the cell, shown in `columns` columns, covers the place on its
    /// right too.
    pub fn covers_next(&self, columns: usize) -> (yes: bool)
        ensures
            yes == self@.covers_next(columns),
            yes == (columns == 2 && encode_utf8(self.symbol@).len() > 1),
    {
        self.symbol.as_str().as_bytes().len() > 1 && columns == 2
    }

    /// The style of the cell's element inside a hyperlink.
    pub fn hyperlink_style(&self) -> (style: String)
        ensures
            style@ == self@.style(true),
    {
        let mut style = self.css.clone();
        style.append(" ");
        style.append(HYPERLINK_STYLE);
        style
    }
}

/// Cells without modifiers belong to no hyperlink.
pub proof fn lemma_plain_cells(css: Seq<char>)
    ensures
        !CellView::blank(css).is_link(),
        !CellView::covered(css).is_link(),
{
    assert(0u16 & HYPERLINK_MODIFIER != HYPERLINK_MODIFIER) by (bit_vector);
}

} // verus!
