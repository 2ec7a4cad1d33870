//! What cells are, and what the values that cross the library's border say.
use crate::cell::{Cell, CellView, HYPERLINK_MODIFIER};
use crate::effect::{attribute_views, views, Attribute, Effect, EffectView};
use crate::frame::{content_views, DrawnCell};
use crate::row::cell_views;
use crate::state::BackendView;
use vstd::prelude::*;
use vstd::utf8::encode_utf8;

verus! {

/// One bit of the modifiers, the fifth, tells whether a cell belongs to a
/// hyperlink; the other bits have no say in it.
pub proof fn law_hyperlinks_go_by_one_bit(cell: CellView)
    ensures
        cell.is_link() <==> (cell.modifier as int / 16) % 2 == 1,
        HYPERLINK_MODIFIER == 16,
{
    let bits = cell.modifier;
    assert((bits & 0x0010 == 0x0010) == ((bits / 16) % 2 == 1)) by (bit_vector);
}

/// A cell outside hyperlinks is styled by its own CSS alone. Inside one, the
/// colour, the line and the pointer of hyperlinks come behind it, after a space.
pub proof fn law_style_of_cells(cell: CellView)
    ensures
        cell.style(false) == cell.css,
        cell.style(true) == cell.css
            + " color: #268bd2; text-decoration: underline; cursor: pointer;"@,
        cell.style(true).len() == cell.css.len() + 61,
        cell.style(true).take(cell.css.len() as int) == cell.css,
{
    reveal_strlit(" color: #268bd2; text-decoration: underline; cursor: pointer;");
    reveal_strlit("color: #268bd2; text-decoration: underline; cursor: pointer;");
    reveal_strlit(" ");
    assert(cell.style(true) =~= cell.css
        + " color: #268bd2; text-decoration: underline; cursor: pointer;"@);
    assert(cell.style(true).take(cell.css.len() as int) =~= cell.css);
}

/// A symbol covers the next place exactly if it takes two columns and more than
/// one byte. So does every single character outside ASCII, and every grapheme of
/// several characters, that takes two columns.
pub proof fn law_wide_glyphs_take_two_columns(cell: CellView, columns: usize)
    ensures
        cell.covers_next(columns) <==> columns == 2 && encode_utf8(cell.symbol).len() >= 2,
        columns == 2 && cell.symbol.len() >= 2 ==> cell.covers_next(columns),
        columns == 2 && cell.symbol.len() == 1 ==> (cell.covers_next(columns) <==> (
        cell.symbol[0] as u32) >= 0x80),
        cell.symbol.len() == 0 ==> !cell.covers_next(columns),
        columns != 2 ==> !cell.covers_next(columns),
{
    let symbol = cell.symbol;
    if symbol.len() > 0 {
        let rest = symbol.drop_first();
        if rest.len() > 0 {
            assert(encode_utf8(rest).len() >= 1);
        } else {
            assert(encode_utf8(rest).len() == 0);
        }
    }
}

/// A place in which nothing was drawn yet shows one space, and a place that a wide
/// glyph covers shows nothing. Neither has a modifier.
pub proof fn law_cells_that_were_not_drawn(state: BackendView)
    ensures
        state.blank_cell().symbol == seq![' '],
        state.blank_cell().modifier == 0,
        state.blank_cell().css == state.blank_css,
        state.covered_cell().symbol.len() == 0,
        state.covered_cell().modifier == 0,
        state.covered_cell().css == state.covered_css,
{
    reveal_strlit(" ");
    reveal_strlit("");
}

/// What is said of a cell, an attribute or a cell to draw is said of its parts.
pub proof fn law_views_keep_the_parts(cell: Cell, attribute: Attribute, drawn: DrawnCell)
    ensures
        cell@.symbol == cell.symbol@,
        cell@.modifier == cell.modifier,
        cell@.css == cell.css@,
        attribute@.name == attribute.name@,
        attribute@.value == attribute.value@,
        drawn@.at == drawn.at,
        drawn@.cell == drawn.cell@,
{
}

/// What is said of a list is said of its elements, each in its place.
pub proof fn law_views_keep_the_order(
    cells: Seq<Cell>,
    attributes: Seq<Attribute>,
    content: Seq<DrawnCell>,
    effects: Seq<Effect>,
)
    ensures
        cell_views(cells).len() == cells.len(),
        attribute_views(attributes).len() == attributes.len(),
        content_views(content).len() == content.len(),
        views(effects).len() == effects.len(),
        forall|i: int| 0 <= i < cells.len() ==> #[trigger] cell_views(cells)[i] == cells[i]@,
        forall|i: int|
            0 <= i < attributes.len() ==> #[trigger] attribute_views(attributes)[i]
                == attributes[i]@,
        forall|i: int|
            0 <= i < content.len() ==> #[trigger] content_views(content)[i] == content[i]@,
        forall|i: int| 0 <= i < effects.len() ==> #[trigger] views(effects)[i] == effects[i]@,
{
}

/// What is said of a piece of work is said of the piece itself: it is of the same
/// kind, and speaks of the same rows, cells, texts and sizes.
pub proof fn law_views_keep_the_work(effect: Effect)
    ensures
        effect is EmptyParent <==> effect@ == EffectView::EmptyParent,
        effect matches Effect::CreateGrid { id } ==> effect@ == (EffectView::CreateGrid {
            id: id@,
        }),
        effect is CreateGrid <==> effect@ is CreateGrid,
        effect is Measure <==> effect@ == EffectView::Measure,
        effect is AttachGrid <==> effect@ == EffectView::AttachGrid,
        effect matches Effect::CreateCell { content } ==> effect@ == (EffectView::CreateCell {
            content: content@,
        }),
        effect is CreateCell <==> effect@ is CreateCell,
        effect matches Effect::CreateRow { style } ==> effect@ == (EffectView::CreateRow {
            style: style@,
        }),
        effect is CreateRow <==> effect@ is CreateRow,
        effect matches Effect::PlaceCell { row, cell } ==> effect@ == (EffectView::PlaceCell {
            row: row as int,
            cell: cell as int,
        }),
        effect is PlaceCell <==> effect@ is PlaceCell,
        effect matches Effect::PlaceRow { row } ==> effect@ == (EffectView::PlaceRow {
            row: row as int,
        }),
        effect is PlaceRow <==> effect@ is PlaceRow,
        effect matches Effect::ClearRow { row } ==> effect@ == (EffectView::ClearRow {
            row: row as int,
        }),
        effect is ClearRow <==> effect@ is ClearRow,
        effect matches Effect::SetContent { cell, text, style } ==> effect@ == (
        EffectView::SetContent { cell: cell as int, text: text@, style: style@ }),
        effect is SetContent <==> effect@ is SetContent,
        effect matches Effect::CreateAnchor { attributes } ==> effect@ == (
        EffectView::CreateAnchor { attributes: attribute_views(attributes@) }),
        effect is CreateAnchor <==> effect@ is CreateAnchor,
        effect matches Effect::PlaceInAnchor { cell } ==> effect@ == (
        EffectView::PlaceInAnchor { cell: cell as int }),
        effect is PlaceInAnchor <==> effect@ is PlaceInAnchor,
        effect matches Effect::PlaceAnchor { row } ==> effect@ == (EffectView::PlaceAnchor {
            row: row as int,
        }),
        effect is PlaceAnchor <==> effect@ is PlaceAnchor,
        effect matches Effect::AddCursor { cell } ==> effect@ == (EffectView::AddCursor {
            cell: cell as int,
        }),
        effect is AddCursor <==> effect@ is AddCursor,
        effect matches Effect::RemoveCursor { cell } ==> effect@ == (EffectView::RemoveCursor {
            cell: cell as int,
        }),
        effect is RemoveCursor <==> effect@ is RemoveCursor,
        effect matches Effect::SetGridAttribute { attribute } ==> effect@ == (
        EffectView::SetGridAttribute { attribute: attribute@ }),
        effect is SetGridAttribute <==> effect@ is SetGridAttribute,
        effect matches Effect::ListenForMouse { size } ==> effect@ == (
        EffectView::ListenForMouse { size }),
        effect is ListenForMouse <==> effect@ is ListenForMouse,
        effect matches Effect::ListenForWheel { size } ==> effect@ == (
        EffectView::ListenForWheel { size }),
        effect is ListenForWheel <==> effect@ is ListenForWheel,
        effect is ListenForHyperlinkClicks <==> effect@ == EffectView::ListenForHyperlinkClicks,
        effect is ListenForKeys <==> effect@ == EffectView::ListenForKeys,
        effect matches Effect::Forget { handler } ==> effect@ == (EffectView::Forget { handler }),
        effect is Forget <==> effect@ is Forget,
        effect is FocusGrid <==> effect@ == EffectView::FocusGrid,
{
}

} // verus!
