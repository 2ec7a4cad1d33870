//! The work that is asked of the page.
//!
//! Rows and cells are named by their place in the order in which they were
//! created, from zero on. Work is done in the order of the list that asks for
//! it; where a piece fails, the rest of its list is not done.
use crate::cell::{Cell, CellView};
use crate::geometry::Size;
use vstd::prelude::*;

verus! {

/// A handler for events of the page.
#[derive(Clone, Copy, Debug, PartialEq, Eq, Structural)]
pub enum Handler {
    Mouse,
    Wheel,
    HyperlinkClick,
    Key,
}

/// An attribute of an element.
#[derive(Debug, PartialEq, Eq)]
pub struct Attribute {
    pub name: String,
    pub value: String,
}

/// An attribute, with its strings as sequences of characters.
#[verifier::ext_equal]
pub struct AttributeView {
    pub name: Seq<char>,
    pub value: Seq<char>,
}

impl View for Attribute {
    type V = AttributeView;

    open spec fn view(&self) -> AttributeView {
        AttributeView { name: self.name@, value: self.value@ }
    }
}

impl Attribute {
    /// The attribute `name` with the value `value`.
    pub fn new(name: &str, value: &str) -> (attribute: Self)
        ensures
            attribute@ == (AttributeView { name: name@, value: value@ }),
    {
        Attribute { name: name.to_owned(), value: value.to_owned() }
    }
}

/// A list of attributes, with their strings as sequences of characters.
pub open spec fn attribute_views(attributes: Seq<Attribute>) -> Seq<AttributeView> {
    attributes.map_values(|attribute: Attribute| attribute@)
}

/// A piece of work on the page.
#[derive(Debug, PartialEq, Eq)]
pub enum Effect {
    /// Remove all that the parent of the grid holds.
    EmptyParent,
    /// Replace the grid by a new `<div>` with this id. It has no rows.
    CreateGrid { id: String },
    /// Measure a cell and count how many fit, for `DomBackend::resize`.
    Measure,
    /// Append the grid to its parent.
    AttachGrid,
    /// Create the `<span>` of the next cell, showing `content`.
    CreateCell { content: Cell },
    /// Create the `<pre>` of the next row, with this style.
    CreateRow { style: String },
    /// Append a cell to a row.
    PlaceCell { row: usize, cell: usize },
    /// Append a row to the grid.
    PlaceRow { row: usize },
    /// Remove all that a row holds.
    ClearRow { row: usize },
    /// Set the text and the style of a cell.
    SetContent { cell: usize, text: String, style: String },
    /// Create an `<a>` with these attributes. It is the anchor that the next
    /// pieces of work speak of.
    CreateAnchor { attributes: Vec<Attribute> },
    /// Append a cell to the anchor.
    PlaceInAnchor { cell: usize },
    /// Append the anchor to a row.
    PlaceAnchor { row: usize },
    /// Give a cell the cursor's class. A failure is ignored.
    AddCursor { cell: usize },
    /// Take the cursor's class from a cell. A failure is ignored.
    RemoveCursor { cell: usize },
    /// Set an attribute of the grid.
    SetGridAttribute { attribute: Attribute },
    /// Handle mouse events of the grid, on which `size` cells are laid out.
    ListenForMouse { size: Size },
    /// Handle wheel events of the grid, on which `size` cells are laid out.
    ListenForWheel { size: Size },
    /// Handle clicks on hyperlinks of the grid.
    ListenForHyperlinkClicks,
    /// Handle key events of the grid.
    ListenForKeys,
    /// Remove a handler, if there is one.
    Forget { handler: Handler },
    /// Focus the grid. A failure is ignored.
    FocusGrid,
}

/// A piece of work, with its strings as sequences of characters.
#[verifier::ext_equal]
pub enum EffectView {
    EmptyParent,
    CreateGrid { id: Seq<char> },
    Measure,
    AttachGrid,
    CreateCell { content: CellView },
    CreateRow { style: Seq<char> },
    PlaceCell { row: int, cell: int },
    PlaceRow { row: int },
    ClearRow { row: int },
    SetContent { cell: int, text: Seq<char>, style: Seq<char> },
    CreateAnchor { attributes: Seq<AttributeView> },
    PlaceInAnchor { cell: int },
    PlaceAnchor { row: int },
    AddCursor { cell: int },
    RemoveCursor { cell: int },
    SetGridAttribute { attribute: AttributeView },
    ListenForMouse { size: Size },
    ListenForWheel { size: Size },
    ListenForHyperlinkClicks,
    ListenForKeys,
    Forget { handler: Handler },
    FocusGrid,
}

impl View for Effect {
    type V = EffectView;

    open spec fn view(&self) -> EffectView {
        match *self {
            Effect::EmptyParent => EffectView::EmptyParent,
            Effect::CreateGrid { id } => EffectView::CreateGrid { id: id@ },
            Effect::Measure => EffectView::Measure,
            Effect::AttachGrid => EffectView::AttachGrid,
            Effect::CreateCell { content } => EffectView::CreateCell { content: content@ },
            Effect::CreateRow { style } => EffectView::CreateRow { style: style@ },
            Effect::PlaceCell { row, cell } => EffectView::PlaceCell {
                row: row as int,
                cell: cell as int,
            },
            Effect::PlaceRow { row } => EffectView::PlaceRow { row: row as int },
            Effect::ClearRow { row } => EffectView::ClearRow { row: row as int },
            Effect::SetContent { cell, text, style } => EffectView::SetContent {
                cell: cell as int,
                text: text@,
                style: style@,
            },
            Effect::CreateAnchor { attributes } => EffectView::CreateAnchor {
                attributes: attribute_views(attributes@),
            },
            Effect::PlaceInAnchor { cell } => EffectView::PlaceInAnchor { cell: cell as int },
            Effect::PlaceAnchor { row } => EffectView::PlaceAnchor { row: row as int },
            Effect::AddCursor { cell } => EffectView::AddCursor { cell: cell as int },
            Effect::RemoveCursor { cell } => EffectView::RemoveCursor { cell: cell as int },
            Effect::SetGridAttribute { attribute } => EffectView::SetGridAttribute {
                attribute: attribute@,
            },
            Effect::ListenForMouse { size } => EffectView::ListenForMouse { size },
            Effect::ListenForWheel { size } => EffectView::ListenForWheel { size },
            Effect::ListenForHyperlinkClicks => EffectView::ListenForHyperlinkClicks,
            Effect::ListenForKeys => EffectView::ListenForKeys,
            Effect::Forget { handler } => EffectView::Forget { handler },
            Effect::FocusGrid => EffectView::FocusGrid,
        }
    }
}

/// A list of work, with its strings as sequences of characters.
pub open spec fn views(effects: Seq<Effect>) -> Seq<EffectView> {
    effects.map_values(|effect: Effect| effect@)
}

/// The work on one more piece is the work so far, and the piece.
pub broadcast proof fn lemma_views_push(effects: Seq<Effect>, effect: Effect)
    ensures
        #[trigger] views(effects.push(effect)) == views(effects).push(effect@),
{
    assert(views(effects.push(effect)) =~= views(effects).push(effect@));
}

/// The work of two lists in turn is that of the first, and then that of the
/// second.
pub broadcast proof fn lemma_views_add(first: Seq<Effect>, second: Seq<Effect>)
    ensures
        #[trigger] views(first + second) == views(first) + views(second),
{
    assert(views(first + second) =~= views(first) + views(second));
}

} // verus!
