//! Cells of the grid, headings and the rule that turns a heading.

use vstd::prelude::*;

verus! {

/// A cell of the grid: column `x`, row `y`, with row 0 at the top.
#[derive(Clone, Copy, Debug, PartialEq, Eq, Structural)]
pub struct Cell {
    pub x: u16,
    pub y: u16,
}

/// The direction in which the snake moves.
#[derive(Clone, Copy, Debug, PartialEq, Eq, Structural)]
pub enum Heading {
    Up,
    Down,
    Left,
    Right,
}

/// The heading that points the other way.
pub open spec fn opposite_of(h: Heading) -> Heading {
    match h {
        Heading::Up => Heading::Down,
        Heading::Down => Heading::Up,
        Heading::Left => Heading::Right,
        Heading::Right => Heading::Left,
    }
}

/// The heading after the player asks for `requested`: a reversal is ignored,
/// anything else (the same heading included) is taken.
pub open spec fn turned(current: Heading, requested: Heading) -> Heading {
    if requested == opposite_of(current) {
        current
    } else {
        requested
    }
}

/// Whether `(x, y)` lies on a grid of `width` columns and `height` rows.
pub open spec fn in_grid(width: int, height: int, x: int, y: int) -> bool {
    0 <= x < width && 0 <= y < height
}

/// Whether a cell lies on the grid.
pub open spec fn cell_in_grid(width: int, height: int, c: Cell) -> bool {
    in_grid(width, height, c.x as int, c.y as int)
}

/// The column one step from `c` along `h` (possibly off the grid).
pub open spec fn step_x(c: Cell, h: Heading) -> int {
    match h {
        Heading::Left => c.x - 1,
        Heading::Right => c.x + 1,
        _ => c.x as int,
    }
}

/// The row one step from `c` along `h` (possibly off the grid).
pub open spec fn step_y(c: Cell, h: Heading) -> int {
    match h {
        Heading::Up => c.y - 1,
        Heading::Down => c.y + 1,
        _ => c.y as int,
    }
}

impl Heading {
    /// The heading that points the other way.
    pub fn opposite(self) -> (r: Heading)
        ensures
            r == opposite_of(self),
    {
        match self {
            Heading::Up => Heading::Down,
            Heading::Down => Heading::Up,
            Heading::Left => Heading::Right,
            Heading::Right => Heading::Left,
        }
    }

    /// The heading after a request: the exact reversal is ignored, any other
    /// request is taken.
    pub fn turn(self, requested: Heading) -> (r: Heading)
        ensures
            r == turned(self, requested),
            requested == opposite_of(self) ==> r == self,
            requested != opposite_of(self) ==> r == requested,
    {
        if requested == self.opposite() {
            self
        } else {
            requested
        }
    }
}

/// The cell one step from `c` along `h`, or `None` where that step leaves a
/// grid of `width` columns and `height` rows.
pub fn step(c: Cell, h: Heading, width: u16, height: u16) -> (r: Option<Cell>)
    ensures
        r.is_some() <==> in_grid(width as int, height as int, step_x(c, h), step_y(c, h)),
        r.is_some() ==> r.unwrap().x == step_x(c, h) && r.unwrap().y == step_y(c, h),
{
    match h {
        Heading::Up => if c.y > 0 && c.y - 1 < height && c.x < width {
            Some(Cell { x: c.x, y: c.y - 1 })
        } else {
            None
        },
        Heading::Down => if c.y < u16::MAX && c.y + 1 < height && c.x < width {
            Some(Cell { x: c.x, y: c.y + 1 })
        } else {
            None
        },
        Heading::Left => if c.x > 0 && c.x - 1 < width && c.y < height {
            Some(Cell { x: c.x - 1, y: c.y })
        } else {
            None
        },
        Heading::Right => if c.x < u16::MAX && c.x + 1 < width && c.y < height {
            Some(Cell { x: c.x + 1, y: c.y })
        } else {
            None
        },
    }
}

} // verus!
