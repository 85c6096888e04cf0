use vstd::prelude::*;

verus! {

/// Coordinates are held in fixed point: one unit of the game world is
/// 1000 coordinate steps.  All of the track's magic distances are exact
/// in this scale, including the deduplication tolerance of 0.005 units.

/// Left clearance boundary of the interior span (x = 3 units).
pub const LEFT_CLEARANCE: i64 = 3000;
/// The interior span ends this far left of the right wall (2 units).
pub const RIGHT_CLEARANCE: i64 = 2000;
/// The trailing floor vertex of the segment strategy sits at x = 4 units.
pub const FLOOR_X: i64 = 4000;
/// The walk starts, and the exit marker sits, this far left of the right wall.
pub const WALL_MARGIN: i64 = 3000;
/// The player marker sits at x = 1 unit.
pub const PLAYER_X: i64 = 1000;
/// The walk's vertical clamp keeps y within `height` minus this margin.
pub const CLAMP_MARGIN: i64 = 3000;
/// Two consecutive vertices closer than this on both axes are merged.
pub const DEDUP_EPS: i64 = 5;
/// Smallest track dimension for which the interior span is non-degenerate.
pub const MIN_DIM: i64 = 6000;
/// Generous cap on every coordinate and range bound, so that all of the
/// generator's arithmetic stays far away from `i64` overflow.
pub const MAX_DIM: i64 = 1_000_000_000;

/// One vertex of the track polygon.
#[derive(Clone, Copy, PartialEq, Eq, Structural, Debug)]
pub struct Position {
    pub x: i64,
    pub y: i64,
}

impl Position {
    pub fn new(x: i64, y: i64) -> (p: Position)
        ensures
            p == (Position { x, y }),
    {
        Position { x, y }
    }
}

/// The mathematical shadow of a vertex sequence: each vertex as a pair of
/// unbounded integers.
pub open spec fn vseq(s: Seq<Position>) -> Seq<(int, int)> {
    s.map_values(|p: Position| (p.x as int, p.y as int))
}

pub proof fn lemma_vseq_push(s: Seq<Position>, p: Position)
    ensures
        vseq(s.push(p)) == vseq(s).push((p.x as int, p.y as int)),
{
    assert(vseq(s.push(p)) =~= vseq(s).push((p.x as int, p.y as int)));
}

pub proof fn lemma_vseq_append(s: Seq<Position>, t: Seq<Position>)
    ensures
        vseq(s + t) == vseq(s) + vseq(t),
{
    assert(vseq(s + t) =~= vseq(s) + vseq(t));
}

pub proof fn lemma_vseq_drop_last(s: Seq<Position>)
    requires
        s.len() > 0,
    ensures
        vseq(s.drop_last()) == vseq(s).drop_last(),
{
    assert(vseq(s.drop_last()) =~= vseq(s).drop_last());
}

/// The four corner vertices of the rectangular track envelope, in order:
/// bottom-left, top-left, top-right, bottom-right (left wall, then right wall).
pub open spec fn corner_vertices(width: int, height: int) -> Seq<(int, int)> {
    seq![(0, 0), (0, height), (width, height), (width, 0)]
}

/// Emits the track envelope corners; every generation starts from these.
pub fn push_corners(vertices: &mut Vec<Position>, width: i64, height: i64)
    ensures
        vseq(final(vertices)@) == vseq(old(vertices)@) + corner_vertices(
            width as int,
            height as int,
        ),
{
    vertices.push(Position::new(0, 0));
    vertices.push(Position::new(0, height));
    vertices.push(Position::new(width, height));
    vertices.push(Position::new(width, 0));
    proof {
        assert(vseq(vertices@) =~= vseq(old(vertices)@) + corner_vertices(
            width as int,
            height as int,
        ));
    }
}

} // verus!
