//! Sizes and positions on the grid, counted in cells.
use vstd::prelude::*;

verus! {

/// The size of the grid.
#[derive(Clone, Copy, Debug, PartialEq, Eq, Structural)]
pub struct Size {
    pub width: u16,
    pub height: u16,
}

/// A place on the grid: column `x` of row `y`, both counted from zero.
#[derive(Clone, Copy, Debug, PartialEq, Eq, Structural)]
pub struct Position {
    pub x: u16,
    pub y: u16,
}

impl Position {
    /// Where the position lies in a buffer of rows that are `width` cells wide.
    pub open spec fn index(self, width: u16) -> int {
        self.y * width + self.x
    }

    /// Whether the index can be counted in sixteen bits.
    pub open spec fn is_addressable(self, width: u16) -> bool {
        self.index(width) <= u16::MAX
    }

    /// Tests whether [`Position::cell_index`] is defined.
    pub fn addressable(self, width: u16) -> (yes: bool)
        ensures
            yes == self.is_addressable(width),
            yes == (self.y * width + self.x <= 65535),
    {
        proof {
            lemma_product_fits(self.y as int, width as int);
        }
        self.y as u32 * width as u32 + self.x as u32 <= u16::MAX as u32
    }

    /// Where the position lies in a buffer of rows that are `width` cells wide.
    pub fn cell_index(self, width: u16) -> (index: usize)
        requires
            self.is_addressable(width),
        ensures
            index == self.index(width),
            index == self.y * width + self.x,
    {
        proof {
            lemma_product_fits(self.y as int, width as int);
        }
        (self.y * width + self.x) as usize
    }
}

/// The product of two sixteen-bit numbers, and one more such number, fit into
/// thirty-two bits.
pub proof fn lemma_product_fits(a: int, b: int)
    requires
        0 <= a <= u16::MAX,
        0 <= b <= u16::MAX,
    ensures
        0 <= a * b,
        a * b + 2 * u16::MAX <= u32::MAX,
{
    assert(0 <= a * b <= 65535 * 65535) by (nonlinear_arith)
        requires
            0 <= a <= 65535,
            0 <= b <= 65535,
    ;
}

} // verus!
