//! Calls into other crates. What is stated of them here is taken on trust.
use ratatui::style::Modifier;
use unicode_width::UnicodeWidthStr;
use vstd::prelude::*;

verus! {

/// The number of columns that a terminal gives to `text`: what `unicode_width`
/// computes for it from the tables of the Unicode standard.
pub uninterp spec fn display_width(text: Seq<char>) -> usize;

/// `unicode_width::UnicodeWidthStr::width` on `text`. The claim is that its
/// result depends on the characters of `text` alone.
#[verifier::external_body]
pub(crate) fn text_width(text: &str) -> (columns: usize)
    ensures
        columns == display_width(text@),
{
    text.width()
}

/// The bits of `ratatui::style::Modifier::SLOW_BLINK`, by `Modifier::bits`. The
/// claim is that this is the fifth bit alone.
#[verifier::external_body]
pub(crate) fn slow_blink() -> (bits: u16)
    ensures
        bits == 0x0010,
{
    Modifier::SLOW_BLINK.bits()
}

/// `ratatui::style::Modifier::contains` on the modifiers with the bits
/// `modifier` and `flags`. The claim is that it holds exactly where every bit
/// of `flags` is set in `modifier`.
#[verifier::external_body]
pub(crate) fn modifier_contains(modifier: u16, flags: u16) -> (all: bool)
    ensures
        all == (modifier & flags == flags),
{
    Modifier::from_bits_retain(modifier).contains(Modifier::from_bits_retain(flags))
}

/// The symbol and the modifier bits of `ratatui::buffer::Cell::default()`. The
/// claim is that its symbol is one space and that it has no modifier.
#[verifier::external_body]
pub(crate) fn default_cell() -> (parts: (String, u16))
    ensures
        parts.0@ == " "@,
        parts.1 == 0,
{
    let cell = ratatui::buffer::Cell::default();
    (cell.symbol().to_owned(), cell.modifier.bits())
}

/// The symbol and the modifier bits of `ratatui::buffer::Cell::new(symbol)`.
/// The claim is that it has that symbol and no modifier.
#[verifier::external_body]
pub(crate) fn new_cell(symbol: &'static str) -> (parts: (String, u16))
    ensures
        parts.0@ == symbol@,
        parts.1 == 0,
{
    let cell = ratatui::buffer::Cell::new(symbol);
    (cell.symbol().to_owned(), cell.modifier.bits())
}

} // verus!
