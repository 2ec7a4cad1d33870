//! The strings that go into attributes and messages.
use vstd::prelude::*;

verus! {

/// The style that marks a hyperlink, put behind the style of each of its cells.
pub const HYPERLINK_STYLE: &'static str =
    "color: #268bd2; text-decoration: underline; cursor: pointer;";

/// Selects the anchors that hold hyperlinks.
pub const HYPERLINK_SELECTOR: &'static str = "a[data-ratzilla-hyperlink=\"true\"]";

/// The class of the cell under the cursor.
pub const CURSOR_CLASS: &'static str = "rz-cursor";

/// The id of the grid where none was chosen.
pub const DEFAULT_GRID_ID: &'static str = "grid";

/// What follows a chosen id in the id of the grid.
pub const GRID_ID_SUFFIX: &'static str = "_ratzilla_grid";

/// The style of a row that is `height` pixels high.
pub open spec fn row_style_text(height: Seq<char>) -> Seq<char> {
    "margin: 0; padding: 0; border: 0; font-family: inherit; height: "@ + height
        + "px; line-height: "@ + height + "px;"@
}

/// The style of a row, given the height of a cell in pixels as a numeral.
pub fn row_style(height: &str) -> (style: String)
    ensures
        style@ == row_style_text(height@),
{
    let mut style =
        "margin: 0; padding: 0; border: 0; font-family: inherit; height: ".to_owned();
    style.append(height);
    style.append("px; line-height: ");
    style.append(height);
    style.append("px;");
    style
}

/// The decimal numeral of `n`, without leading zeros.
pub open spec fn decimal(n: nat) -> Seq<char>
    decreases n,
{
    if n < 10 {
        seq![(n + 48) as char]
    } else {
        decimal(n / 10).push((n % 10 + 48) as char)
    }
}

/// Writes `n` in decimal.
pub fn decimal_text(n: usize) -> (text: String)
    ensures
        text@ == decimal(n as nat),
    decreases n,
{
    let digit: &str = digit_text((n % 10) as u8);
    if n < 10 {
        digit.to_owned()
    } else {
        let mut text = decimal_text(n / 10);
        text.append(digit);
        text
    }
}

fn digit_text(digit: u8) -> (text: &'static str)
    requires
        digit < 10,
    ensures
        text@ == seq![(digit + 48) as char],
{
    proof {
        reveal_strlit("0");
        reveal_strlit("1");
        reveal_strlit("2");
        reveal_strlit("3");
        reveal_strlit("4");
        reveal_strlit("5");
        reveal_strlit("6");
        reveal_strlit("7");
        reveal_strlit("8");
        reveal_strlit("9");
    }
    match digit {
        0 => "0",
        1 => "1",
        2 => "2",
        3 => "3",
        4 => "4",
        5 => "5",
        6 => "6",
        7 => "7",
        8 => "8",
        _ => "9",
    }
}

/// A count as the debug output shows it, such as `[12 cells]`.
pub open spec fn count_text(count: nat, unit: Seq<char>) -> Seq<char> {
    "["@ + decimal(count) + " "@ + unit + "]"@
}

/// Writes a count for the debug output.
pub fn count_label(count: usize, unit: &str) -> (label: String)
    ensures
        label@ == count_text(count as nat, unit@),
{
    let mut label = "[".to_owned();
    label.append(decimal_text(count).as_str());
    label.append(" ");
    label.append(unit);
    label.append("]");
    label
}

} // verus!
