//! A screen rectangle in terminal cells.
use vstd::prelude::*;

verus! {

/// A rectangle of cells: top-left corner and size.
#[derive(Clone, Copy, Debug, PartialEq, Eq, Structural)]
pub struct Rect {
    pub x: u16,
    pub y: u16,
    pub width: u16,
    pub height: u16,
}

impl Rect {
    /// The rectangle fits in the addressable cell space.
    pub open spec fn wf(self) -> bool {
        self.x + self.width <= u16::MAX && self.y + self.height <= u16::MAX
    }

    /// The first row below the rectangle.
    pub fn bottom(self) -> (r: u16)
        requires
            self.wf(),
        ensures
            r == self.y + self.height,
    {
        self.y + self.height
    }

    /// The rectangle holds the cell at column `x`, row `y`; its far edges
    /// stop at the last addressable cell.
    pub open spec fn holds(self, x: u16, y: u16) -> bool {
        let right = if self.x + self.width > u16::MAX { u16::MAX as int } else { self.x + self.width };
        let bottom = if self.y + self.height > u16::MAX { u16::MAX as int } else { self.y + self.height };
        self.x <= x && x < right && self.y <= y && y < bottom
    }

    /// Whether the cell at column `x`, row `y` lies inside.
    pub fn contains(self, x: u16, y: u16) -> (r: bool)
        ensures
            r == self.holds(x, y),
    {
        let right: u32 = if self.x as u32 + self.width as u32 > 0xffff {
            0xffff
        } else {
            self.x as u32 + self.width as u32
        };
        let bottom: u32 = if self.y as u32 + self.height as u32 > 0xffff {
            0xffff
        } else {
            self.y as u32 + self.height as u32
        };
        self.x <= x && (x as u32) < right && self.y <= y && (y as u32) < bottom
    }

    /// The first column right of the rectangle.
    pub fn right(self) -> (r: u16)
        requires
            self.wf(),
        ensures
            r == self.x + self.width,
    {
        self.x + self.width
    }
}

/// What the last `n` of `zones` (the latest registered) say about a cell:
/// the last zone holding it wins.
pub open spec fn hit_upto<H>(zones: Seq<(Rect, H)>, x: u16, y: u16, n: int) -> Option<H>
    decreases n,
{
    if n <= 0 {
        None
    } else if zones[n - 1].0.holds(x, y) {
        Some(zones[n - 1].1)
    } else {
        hit_upto(zones, x, y, n - 1)
    }
}

/// The click target at a cell: of the zones a frame registered, the last
/// one holding the cell (what was drawn on top).
pub fn hit_at<H: Copy>(zones: &Vec<(Rect, H)>, x: u16, y: u16) -> (r: Option<H>)
    ensures
        r == hit_upto(zones@, x, y, zones@.len() as int),
{
    let mut i: usize = zones.len();
    while i > 0
        invariant
            i <= zones@.len(),
            hit_upto(zones@, x, y, zones@.len() as int) == hit_upto(zones@, x, y, i as int),
        decreases i,
    {
        if zones[i - 1].0.contains(x, y) {
            return Some(zones[i - 1].1);
        }
        i -= 1;
    }
    None
}

} // verus!
