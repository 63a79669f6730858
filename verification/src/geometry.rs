//! Grid positions, travel directions, and border wrap.

use vstd::prelude::*;

verus! {

use crate::HALF_MAP_HEIGHT;
use crate::HALF_MAP_WIDTH;

/// A cell of the play field. Committed positions lie in
/// `-HALF_MAP_WIDTH .. HALF_MAP_WIDTH - 1` by `-HALF_MAP_HEIGHT ..
/// HALF_MAP_HEIGHT - 1`; a freshly spawned tail may lie up to two cells
/// outside until the next commit wraps it back in.
#[derive(Clone, Copy, Debug, PartialEq, Eq, Structural)]
pub struct GridPos {
    pub x: i32,
    pub y: i32,
}

impl GridPos {
    /// Strict bounds that hold for every committed position.
    pub open spec fn in_bounds(self) -> bool {
        &&& -HALF_MAP_WIDTH <= self.x < HALF_MAP_WIDTH
        &&& -HALF_MAP_HEIGHT <= self.y < HALF_MAP_HEIGHT
    }

    /// Loose bounds that hold for every position, committed or not;
    /// they keep all coordinate arithmetic far from overflow.
    pub open spec fn in_wide_bounds(self) -> bool {
        &&& -4 * HALF_MAP_WIDTH <= self.x <= 4 * HALF_MAP_WIDTH
        &&& -4 * HALF_MAP_HEIGHT <= self.y <= 4 * HALF_MAP_HEIGHT
    }
}

/// One of the four axis-aligned travel directions.
#[derive(Clone, Copy, Debug, PartialEq, Eq, Structural)]
pub enum SnakeDirection {
    Up,
    Right,
    Down,
    Left,
}

impl SnakeDirection {
    /// The unit vector of this direction, y growing upward.
    pub open spec fn vector_spec(self) -> (int, int) {
        match self {
            SnakeDirection::Up => (0, 1),
            SnakeDirection::Right => (1, 0),
            SnakeDirection::Down => (0, -1),
            SnakeDirection::Left => (-1, 0),
        }
    }

    /// Dot product of the unit vectors of two directions.
    pub open spec fn dot_spec(self, other: Self) -> int {
        self.vector_spec().0 * other.vector_spec().0
            + self.vector_spec().1 * other.vector_spec().1
    }

    /// Two directions are opposite exactly when their dot product is -1.
    pub open spec fn is_opposite_spec(self, other: Self) -> bool {
        self.dot_spec(other) == -1
    }

    pub fn get_vector(&self) -> (v: (i32, i32))
        ensures
            (v.0 as int, v.1 as int) == self.vector_spec(),
    {
        match self {
            SnakeDirection::Up => (0, 1),
            SnakeDirection::Right => (1, 0),
            SnakeDirection::Down => (0, -1),
            SnakeDirection::Left => (-1, 0),
        }
    }

    pub fn is_opposite(&self, other: &Self) -> (r: bool)
        ensures
            r == self.is_opposite_spec(*other),
    {
        let a = self.get_vector();
        let b = other.get_vector();
        a.0 * b.0 + a.1 * b.1 == -1
    }
}

/// The dot product of two direction vectors is -1 exactly for the two
/// reversal pairs, up/down and left/right.
pub proof fn lemma_opposite_pairs(c: SnakeDirection, d: SnakeDirection)
    ensures
        c.is_opposite_spec(d) <==> {
            ||| c == SnakeDirection::Up && d == SnakeDirection::Down
            ||| c == SnakeDirection::Down && d == SnakeDirection::Up
            ||| c == SnakeDirection::Left && d == SnakeDirection::Right
            ||| c == SnakeDirection::Right && d == SnakeDirection::Left
        },
{
}

/// Result of wrapping one coordinate: shift by `half`, reduce modulo the
/// full width, shift back. A shifted value that is negative snaps to an
/// edge: to `-half` when it is a whole number of widths below zero, and to
/// the far edge `half - 1` otherwise.
pub open spec fn wrap_coord_spec(v: int, half: int) -> int
    recommends
        half >= 1,
{
    let w = 2 * half;
    if v + half >= 0 {
        ((v + half) % w) - half
    } else if (-(v + half)) % w == 0 {
        -half
    } else {
        half - 1
    }
}

/// Wrap one coordinate to the play field. Mirrors the commit-phase border
/// portal: positions one step past an edge come out on the opposite edge.
pub fn wrap_coord(v: i32, half: i32) -> (r: i32)
    requires
        1 <= half <= 10000,
        -8 * half <= v <= 8 * half,
    ensures
        r == wrap_coord_spec(v as int, half as int),
{
    let w = 2 * half;
    let shifted = v + half;
    if shifted >= 0 {
        (shifted % w) - half
    } else {
        let r0 = (-shifted) % w;
        if r0 == 0 {
            -half
        } else {
            half - 1
        }
    }
}

/// Every wrapped coordinate lies on the play field: in `-half .. half - 1`.
pub proof fn lemma_wrap_in_range(v: int, half: int)
    requires
        half >= 1,
    ensures
        -half <= wrap_coord_spec(v, half) <= half - 1,
{
}

/// A coordinate already on the play field is left unchanged, and a
/// coordinate one step past either edge comes out exactly on the opposite
/// edge.
pub proof fn lemma_wrap_edges(v: int, half: int)
    requires
        half >= 1,
        -half - 1 <= v <= half,
    ensures
        -half <= v <= half - 1 ==> wrap_coord_spec(v, half) == v,
        v == half ==> wrap_coord_spec(v, half) == -half,
        v == -half - 1 ==> wrap_coord_spec(v, half) == half - 1,
{
    let w = 2 * half;
    if -half <= v <= half - 1 {
        vstd::arithmetic::div_mod::lemma_small_mod((v + half) as nat, w as nat);
    }
    if v == half {
        vstd::arithmetic::div_mod::lemma_mod_self_0(w);
    }
    if v == -half - 1 {
        vstd::arithmetic::div_mod::lemma_small_mod(1nat, w as nat);
    }
}

/// Result of wrapping a position, each axis independently.
pub open spec fn wrap_pos_spec(p: GridPos) -> GridPos {
    GridPos {
        x: wrap_coord_spec(p.x as int, HALF_MAP_WIDTH as int) as i32,
        y: wrap_coord_spec(p.y as int, HALF_MAP_HEIGHT as int) as i32,
    }
}

/// Wrap a planned position onto the play field, each axis independently.
pub fn wrap_pos(p: GridPos) -> (r: GridPos)
    requires
        p.in_wide_bounds(),
    ensures
        r == wrap_pos_spec(p),
        r.in_bounds(),
{
    let r = GridPos { x: wrap_coord(p.x, HALF_MAP_WIDTH), y: wrap_coord(p.y, HALF_MAP_HEIGHT) };
    proof {
        lemma_wrap_in_range(p.x as int, HALF_MAP_WIDTH as int);
        lemma_wrap_in_range(p.y as int, HALF_MAP_HEIGHT as int);
    }
    r
}

} // verus!
