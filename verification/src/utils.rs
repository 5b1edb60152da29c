//! Grid positions and the four cardinal directions.

use vstd::prelude::*;

use crate::configs::GRID_H;
use crate::configs::GRID_W;
use crate::rng::RandGen;

verus! {

/// One cell of the grid.
#[derive(PartialEq, Eq, Structural, Hash, Clone, Copy, Debug)]
pub struct Point {
    pub x: i32,
    pub y: i32,
}

/// The four headings an agent can take. `Bottom` points toward
/// growing `y`, `Top` toward shrinking `y`.
#[derive(Debug, Clone, Copy, PartialEq, Eq, Structural)]
pub enum FourDirs {
    Left,
    Right,
    Bottom,
    Top,
}

impl FourDirs {
    /// The unit step of this heading, as (dx, dy).
    pub open spec fn value_spec(self) -> (i32, i32) {
        match self {
            FourDirs::Left => (-1i32, 0i32),
            FourDirs::Right => (1i32, 0i32),
            FourDirs::Bottom => (0i32, 1i32),
            FourDirs::Top => (0i32, -1i32),
        }
    }

    /// A uniformly random heading.
    pub fn get_rand_dir(rng: &mut RandGen) -> (r: FourDirs) {
        match rng.gen_index(4) {
            0 => FourDirs::Left,
            1 => FourDirs::Right,
            2 => FourDirs::Bottom,
            _ => FourDirs::Top,
        }
    }

    /// The four unit steps, in the fixed order left, right, bottom, top.
    pub fn get_all_dirs() -> (r: [(i32, i32); 4])
        ensures
            r@ =~= seq![(-1i32, 0i32), (1i32, 0i32), (0i32, 1i32), (0i32, -1i32)],
    {
        [
            FourDirs::Left.value(),
            FourDirs::Right.value(),
            FourDirs::Bottom.value(),
            FourDirs::Top.value(),
        ]
    }

    /// A uniformly random horizontal heading.
    pub fn get_rand_horizontal(rng: &mut RandGen) -> (r: FourDirs)
        ensures
            r is Left || r is Right,
    {
        match rng.gen_index(2) {
            0 => FourDirs::Left,
            _ => FourDirs::Right,
        }
    }

    /// A uniformly random vertical heading.
    pub fn get_rand_vertical(rng: &mut RandGen) -> (r: FourDirs)
        ensures
            r is Top || r is Bottom,
    {
        match rng.gen_index(2) {
            0 => FourDirs::Top,
            _ => FourDirs::Bottom,
        }
    }

    /// The unit step of this heading, as (dx, dy).
    pub fn value(&self) -> (r: (i32, i32))
        ensures
            r == self.value_spec(),
    {
        match self {
            FourDirs::Left => (-1, 0),
            FourDirs::Right => (1, 0),
            FourDirs::Bottom => (0, 1),
            FourDirs::Top => (0, -1),
        }
    }

    /// Whether this heading lies on the horizontal axis.
    pub fn is_horizontal(&self) -> (r: bool)
        ensures
            r == (self is Left || self is Right),
    {
        match self {
            FourDirs::Left => true,
            FourDirs::Right => true,
            _ => false,
        }
    }

    /// Whether this heading lies on the vertical axis.
    pub fn is_vertical(&self) -> (r: bool)
        ensures
            r == (self is Top || self is Bottom),
    {
        match self {
            FourDirs::Top => true,
            FourDirs::Bottom => true,
            _ => false,
        }
    }
}

impl Point {
    /// The cell at the given coordinates.
    pub fn new(x: i32, y: i32) -> (r: Point)
        ensures
            r.x == x,
            r.y == y,
    {
        Point { x, y }
    }

    /// A random cell with each coordinate uniform in 1..GRID-1; note
    /// that this leaves out the last playable column and row as well
    /// as the walls.
    pub fn rand(rng: &mut RandGen) -> (r: Point)
        ensures
            1 <= r.x < GRID_W - 1,
            1 <= r.y < GRID_H - 1,
    {
        Point { x: rng.gen_range_i32(1, GRID_W - 1), y: rng.gen_range_i32(1, GRID_H - 1) }
    }
}

} // verus!
