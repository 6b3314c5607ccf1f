//! Where the program's viewport sits on the terminal, once its sizes are
//! known in cells.

use vstd::prelude::*;

verus! {

/// Horizontal placement of the viewport, with offsets in cells.
#[derive(Clone, Copy, Debug, PartialEq, Eq, Structural)]
pub enum Placement {
    /// This many cells from the left edge.
    Left(u16),
    /// Centered.
    Center,
    /// This many cells from the right edge.
    Right(u16),
}

pub open spec fn min_u16(a: u16, b: u16) -> u16 {
    if a < b {
        a
    } else {
        b
    }
}

pub open spec fn sat_sub_u16(a: u16, b: u16) -> u16 {
    if b <= a {
        (a - b) as u16
    } else {
        0
    }
}

/// The column and width of a viewport of `width` cells placed in an area
/// `area_width` cells wide: the width is cut to the area, a left offset
/// stops where the viewport reaches the right edge, and a right offset
/// stops at the left edge.
pub open spec fn placement_of(area_width: u16, width: u16, placement: Placement) -> (u16, u16) {
    let w = min_u16(width, area_width);
    let x = match placement {
        Placement::Left(off) => min_u16(off, (area_width - w) as u16),
        Placement::Center => (area_width / 2 - w / 2) as u16,
        Placement::Right(off) => sat_sub_u16(sat_sub_u16(area_width, w), off),
    };
    (x, w)
}

/// Places a viewport of `width` cells in an area `area_width` cells wide.
pub fn place(area_width: u16, width: u16, placement: Placement) -> (r: (u16, u16))
    ensures
        r == placement_of(area_width, width, placement),
        r.0 + r.1 <= area_width,
{
    let w = if width < area_width {
        width
    } else {
        area_width
    };
    let x = match placement {
        Placement::Left(off) => if off < area_width - w {
            off
        } else {
            area_width - w
        },
        Placement::Center => area_width / 2 - w / 2,
        Placement::Right(off) => {
            let room = area_width - w;
            if off <= room {
                room - off
            } else {
                0
            }
        },
    };
    (x, w)
}

/// The height of an inline viewport of `cells` rows on a terminal of
/// `term_height` rows: below the full height, which would not clear.
pub fn inline_height(cells: u16, term_height: u16) -> (r: u16)
    requires
        term_height >= 1,
    ensures
        r == min_u16(cells, (term_height - 1) as u16),
        r < term_height,
{
    let top = term_height - 1;
    if cells < top {
        cells
    } else {
        top
    }
}

} // verus!
