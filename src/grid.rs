use vstd::prelude::*;

verus! {

/// One discrete grid coordinate.
#[derive(Clone, Copy, Debug, PartialEq, Eq, Structural)]
pub struct Cell {
    pub x: i32,
    pub y: i32,
}

/// A heading of the snake.
#[derive(Clone, Copy, Debug, PartialEq, Eq, Structural)]
pub enum Direction {
    Left,
    Up,
    Right,
    Down,
}

/// The reverse of a heading.
pub open spec fn opposite_of(d: Direction) -> Direction {
    match d {
        Direction::Left => Direction::Right,
        Direction::Right => Direction::Left,
        Direction::Up => Direction::Down,
        Direction::Down => Direction::Up,
    }
}

/// Horizontal component of the unit vector of a heading.
pub open spec fn dx(d: Direction) -> int {
    match d {
        Direction::Left => -1,
        Direction::Right => 1,
        _ => 0,
    }
}

/// Vertical component of the unit vector of a heading (`Up` increases `y`).
pub open spec fn dy(d: Direction) -> int {
    match d {
        Direction::Up => 1,
        Direction::Down => -1,
        _ => 0,
    }
}

/// Whether the point `(x, y)` lies on a `width` by `height` grid.
pub open spec fn in_bounds(x: int, y: int, width: int, height: int) -> bool {
    0 <= x < width && 0 <= y < height
}

pub open spec fn cell_in_bounds(c: Cell, width: int, height: int) -> bool {
    in_bounds(c.x as int, c.y as int, width, height)
}

impl Direction {
    pub fn opposite(self) -> (r: Direction)
        ensures
            r == opposite_of(self),
    {
        match self {
            Direction::Left => Direction::Right,
            Direction::Right => Direction::Left,
            Direction::Up => Direction::Down,
            Direction::Down => Direction::Up,
        }
    }
}

/// The heading asked for by the pressed keys, first match in the order up,
/// down, right, left; `None` when no direction key is pressed.
pub open spec fn keys_heading(up: bool, down: bool, right: bool, left: bool) -> Option<Direction> {
    if up {
        Some(Direction::Up)
    } else if down {
        Some(Direction::Down)
    } else if right {
        Some(Direction::Right)
    } else if left {
        Some(Direction::Left)
    } else {
        None
    }
}

/// Resolves the pressed direction keys into at most one requested heading.
pub fn direction_from_keys(up: bool, down: bool, right: bool, left: bool) -> (r: Option<Direction>)
    ensures
        r == keys_heading(up, down, right, left),
{
    if up {
        Some(Direction::Up)
    } else if down {
        Some(Direction::Down)
    } else if right {
        Some(Direction::Right)
    } else if left {
        Some(Direction::Left)
    } else {
        None
    }
}

} // verus!
