use vstd::prelude::*;

use crate::config::{FlatTrackConfig, PointConfig};
use crate::geom::{
    corner_vertices, push_corners, vseq, Position, CLAMP_MARGIN, LEFT_CLEARANCE, WALL_MARGIN,
};
use crate::rng::RandomSource;

verus! {

/// The clamp policy applied to every proposed y-coordinate: bound it to
/// the vertical interior of the track, `[-(height - 3), height - 3]`.
pub open spec fn clamp_y(height: int, y: int) -> int {
    let hi = height - CLAMP_MARGIN;
    if y < -hi {
        -hi
    } else if y > hi {
        hi
    } else {
        y
    }
}

/// The floor profile that a walk consuming the given draws appends: one
/// vertex per step, walking leftward from `(x, y)` while the cursor is
/// right of the left clearance boundary.  Draws are consumed in strict
/// pairs: first the x-decrement, then the y-displacement.
pub open spec fn walk_points(x: int, y: int, height: int, draws: Seq<int>) -> Seq<(int, int)>
    decreases draws.len(),
{
    if x > LEFT_CLEARANCE && draws.len() >= 2 {
        seq![(x, y)] + walk_points(
            x - draws[0],
            clamp_y(height, y + draws[1]),
            height,
            draws.skip(2),
        )
    } else {
        Seq::empty()
    }
}

/// Where the walk's cursor stands after consuming the given draws.
pub open spec fn walk_end(x: int, y: int, height: int, draws: Seq<int>) -> (int, int)
    decreases draws.len(),
{
    if x > LEFT_CLEARANCE && draws.len() >= 2 {
        walk_end(x - draws[0], clamp_y(height, y + draws[1]), height, draws.skip(2))
    } else {
        (x, y)
    }
}

/// The draws are exactly the ones a walk from `x` consumes: they come in
/// pairs, and each pair is drawn with the cursor still right of the left
/// clearance boundary.
pub open spec fn walk_consumes(x: int, draws: Seq<int>) -> bool
    decreases draws.len(),
{
    if draws.len() == 0 {
        true
    } else {
        x > LEFT_CLEARANCE && draws.len() >= 2 && walk_consumes(x - draws[0], draws.skip(2))
    }
}

/// The draws carry the walk all the way to (or past) the left clearance
/// boundary, where the walk stops.
pub open spec fn walk_complete(x: int, height: int, draws: Seq<int>) -> bool {
    walk_consumes(x, draws) && walk_end(x, 0, height, draws).0 <= LEFT_CLEARANCE
}

/// Even-indexed draws are x-decrements, odd-indexed draws are
/// y-displacements; each must lie in its configured half-open range.
pub open spec fn walk_draws_ok(pc: PointConfig, draws: Seq<int>) -> bool {
    forall|i: int|
        0 <= i < draws.len() ==> {
            if i % 2 == 0 {
                pc.x_low <= #[trigger] draws[i] < pc.x_high
            } else {
                pc.y_low <= draws[i] < pc.y_high
            }
        }
}

/// The full vertex sequence of the walk strategy, before deduplication:
/// the envelope corners, then the walk's floor profile — with its last
/// vertex discarded when the walk overshot past the left clearance
/// boundary — then the fixed closing vertex (3, 0).
pub open spec fn walk_vertices(cfg: FlatTrackConfig, draws: Seq<int>) -> Seq<(int, int)> {
    let x0 = cfg.width - WALL_MARGIN;
    let raw = walk_points(x0 as int, 0, cfg.height as int, draws);
    let end = walk_end(x0 as int, 0, cfg.height as int, draws);
    let trimmed = if end.0 < LEFT_CLEARANCE && raw.len() > 0 {
        raw.drop_last()
    } else {
        raw
    };
    corner_vertices(cfg.width as int, cfg.height as int) + trimmed + seq![
        (LEFT_CLEARANCE as int, 0),
    ]
}

/// A walk that is still going consumes one more pair of draws: appending
/// the pair appends the current cursor to the profile and advances the
/// cursor by the pair.
pub proof fn lemma_walk_snoc(x: int, y: int, height: int, draws: Seq<int>, dx: int, dy: int)
    requires
        walk_consumes(x, draws),
        walk_end(x, y, height, draws).0 > LEFT_CLEARANCE,
    ensures
        walk_consumes(x, draws + seq![dx, dy]),
        walk_points(x, y, height, draws + seq![dx, dy]) == walk_points(x, y, height, draws).push(
            walk_end(x, y, height, draws),
        ),
        walk_end(x, y, height, draws + seq![dx, dy]) == (
            walk_end(x, y, height, draws).0 - dx,
            clamp_y(height, walk_end(x, y, height, draws).1 + dy),
        ),
    decreases draws.len(),
{
    let ext = draws + seq![dx, dy];
    if draws.len() == 0 {
        assert(walk_end(x, y, height, draws) == (x, y));
        assert(x > LEFT_CLEARANCE);
        assert(ext.len() == 2);
        assert(ext[0] == dx);
        assert(ext[1] == dy);
        assert(ext.skip(2) =~= Seq::<int>::empty());
        let x1 = x - dx;
        let y1 = clamp_y(height, y + dy);
        assert(walk_consumes(x1, ext.skip(2)));
        assert(walk_consumes(x, ext));
        assert(walk_points(x1, y1, height, ext.skip(2)) == Seq::<(int, int)>::empty());
        assert(walk_points(x, y, height, ext) == seq![(x, y)] + Seq::<(int, int)>::empty());
        assert(walk_points(x, y, height, ext) =~= seq![(x, y)]);
        assert(walk_points(x, y, height, draws) =~= Seq::<(int, int)>::empty());
        assert(walk_points(x, y, height, draws).push((x, y)) =~= seq![(x, y)]);
        assert(walk_end(x1, y1, height, ext.skip(2)) == (x1, y1));
        assert(walk_end(x, y, height, ext) == (x1, y1));
    } else {
        assert(draws.len() >= 2);
        assert(ext[0] == draws[0]);
        assert(ext[1] == draws[1]);
        assert(ext.skip(2) =~= draws.skip(2) + seq![dx, dy]);
        let x1 = x - draws[0];
        let y1 = clamp_y(height, y + draws[1]);
        lemma_walk_snoc(x1, y1, height, draws.skip(2), dx, dy);
        assert(walk_points(x, y, height, ext) =~= walk_points(x, y, height, draws).push(
            walk_end(x, y, height, draws),
        ));
    }
}

/// A complete walk consumes exactly two draws per appended vertex.
pub proof fn lemma_walk_count(x: int, y: int, height: int, draws: Seq<int>)
    requires
        walk_consumes(x, draws),
    ensures
        draws.len() == 2 * walk_points(x, y, height, draws).len(),
    decreases draws.len(),
{
    if draws.len() != 0 {
        lemma_walk_count(x - draws[0], clamp_y(height, y + draws[1]), height, draws.skip(2));
    }
}

/// Law: the x-coordinates of the points the walk appends are strictly
/// decreasing — the positive minimum x-step guarantees leftward progress —
/// and every appended point stays strictly right of the left clearance
/// boundary.
pub proof fn lemma_walk_x_strictly_decreasing(x: int, y: int, height: int, draws: Seq<int>)
    requires
        forall|i: int| 0 <= i < draws.len() && i % 2 == 0 ==> #[trigger] draws[i] >= 1,
    ensures
        forall|j: int|
            0 <= j < walk_points(x, y, height, draws).len() ==> (#[trigger] walk_points(
                x,
                y,
                height,
                draws,
            )[j]).0 <= x,
        forall|j: int|
            0 <= j < walk_points(x, y, height, draws).len() - 1 ==> (#[trigger] walk_points(
                x,
                y,
                height,
                draws,
            )[j]).0 > walk_points(x, y, height, draws)[j + 1].0,
        forall|j: int|
            0 <= j < walk_points(x, y, height, draws).len() ==> (#[trigger] walk_points(
                x,
                y,
                height,
                draws,
            )[j]).0 > LEFT_CLEARANCE,
    decreases draws.len(),
{
    let w = walk_points(x, y, height, draws);
    if x > LEFT_CLEARANCE && draws.len() >= 2 {
        let x1 = x - draws[0];
        let y1 = clamp_y(height, y + draws[1]);
        let rest = walk_points(x1, y1, height, draws.skip(2));
        assert(draws[0] >= 1);
        assert forall|i: int| 0 <= i < draws.skip(2).len() && i % 2 == 0 implies #[trigger] draws.skip(
            2,
        )[i] >= 1 by {
            assert(draws.skip(2)[i] == draws[i + 2]);
        }
        lemma_walk_x_strictly_decreasing(x1, y1, height, draws.skip(2));
        assert forall|j: int| 0 <= j < w.len() implies (#[trigger] w[j]).0 <= x by {
            if j >= 1 {
                assert(w[j] == rest[j - 1]);
            }
        }
        assert forall|j: int| 0 <= j < w.len() - 1 implies (#[trigger] w[j]).0 > w[j + 1].0 by {
            if j == 0 {
                assert(w[1] == rest[0]);
            } else {
                assert(w[j] == rest[j - 1]);
                assert(w[j + 1] == rest[j]);
            }
        }
        assert forall|j: int| 0 <= j < w.len() implies (#[trigger] w[j]).0 > LEFT_CLEARANCE by {
            if j >= 1 {
                assert(w[j] == rest[j - 1]);
            }
        }
    }
}

/// Law: every y-coordinate the walk appends lies within the clamp bounds
/// `[-(height - 3), height - 3]`, provided the walk starts there.
pub proof fn lemma_walk_y_bounded(x: int, y: int, height: int, draws: Seq<int>)
    requires
        height >= CLAMP_MARGIN,
        -(height - CLAMP_MARGIN) <= y <= height - CLAMP_MARGIN,
    ensures
        forall|j: int|
            0 <= j < walk_points(x, y, height, draws).len() ==> -(height - CLAMP_MARGIN) <= (
            #[trigger] walk_points(x, y, height, draws)[j]).1 <= height - CLAMP_MARGIN,
    decreases draws.len(),
{
    let w = walk_points(x, y, height, draws);
    if x > LEFT_CLEARANCE && draws.len() >= 2 {
        let x1 = x - draws[0];
        let y1 = clamp_y(height, y + draws[1]);
        let rest = walk_points(x1, y1, height, draws.skip(2));
        lemma_walk_y_bounded(x1, y1, height, draws.skip(2));
        assert forall|j: int| 0 <= j < w.len() implies -(height - CLAMP_MARGIN) <= (
        #[trigger] w[j]).1 <= height - CLAMP_MARGIN by {
            if j >= 1 {
                assert(w[j] == rest[j - 1]);
            }
        }
    }
}

/// Walks leftward from `(width - 3, 0)`, appending a vertex per step and
/// consuming one x-decrement and one y-displacement draw per step, until
/// the cursor reaches the left clearance boundary; overshooting walks lose
/// their last vertex, and the fixed closing vertex (3, 0) ends the floor.
/// Returns the full vertex sequence of the strategy, before deduplication.
pub fn gen_points_raw(
    config: &FlatTrackConfig,
    pc: &PointConfig,
    source: &mut RandomSource,
) -> (vertices: Vec<Position>)
    requires
        config.dims_valid(),
        pc.valid(),
    ensures
        old(source).draws().is_prefix_of(final(source).draws()),
        ({
            let draws = final(source).draws().skip(old(source).draws().len() as int);
            &&& walk_draws_ok(*pc, draws)
            &&& walk_complete(config.width - WALL_MARGIN, config.height as int, draws)
            &&& vseq(vertices@) == walk_vertices(*config, draws)
        }),
{
    let width = config.width;
    let height = config.height;
    let mut vertices: Vec<Position> = Vec::new();
    push_corners(&mut vertices, width, height);

    let ghost x0 = (width - WALL_MARGIN) as int;
    let ghost pre = source.draws();
    let ghost mut cur = Seq::<int>::empty();

    let hi = height - CLAMP_MARGIN;
    let mut x: i64 = width - WALL_MARGIN;
    let mut y: i64 = 0;

    while x > LEFT_CLEARANCE
        invariant
            config.dims_valid(),
            pc.valid(),
            width == config.width,
            height == config.height,
            hi == height - CLAMP_MARGIN,
            x0 == width - WALL_MARGIN,
            source.draws() == pre + cur,
            walk_draws_ok(*pc, cur),
            walk_consumes(x0, cur),
            (x as int, y as int) == walk_end(x0, 0, height as int, cur),
            vseq(vertices@) == corner_vertices(width as int, height as int) + walk_points(
                x0,
                0,
                height as int,
                cur,
            ),
            -hi <= y <= hi,
            LEFT_CLEARANCE - pc.x_high < x <= x0,
        decreases x - (LEFT_CLEARANCE - pc.x_high),
    {
        let ghost vprev = vertices@;
        let ghost rawprev = walk_points(x0, 0, height as int, cur);
        vertices.push(Position::new(x, y));
        proof {
            crate::geom::lemma_vseq_push(vprev, Position { x, y });
            assert(vseq(vertices@) == vseq(vprev).push((x as int, y as int)));
        }
        let ghost prev = cur;
        let dx = source.sample(pc.x_low, pc.x_high);
        let dy = source.sample(pc.y_low, pc.y_high);
        proof {
            cur = prev + seq![dx as int, dy as int];
            assert(pre + prev + seq![dx as int, dy as int] =~= pre + cur);
            assert(source.draws() == pre + cur);
            lemma_walk_count(x0, 0, height as int, prev);
            assert forall|i: int| 0 <= i < cur.len() implies {
                if i % 2 == 0 {
                    pc.x_low <= #[trigger] cur[i] < pc.x_high
                } else {
                    pc.y_low <= cur[i] < pc.y_high
                }
            } by {
                if i < prev.len() {
                    assert(cur[i] == prev[i]);
                } else {
                    assert(prev.len() % 2 == 0);
                }
            }
            lemma_walk_snoc(x0, 0, height as int, prev, dx as int, dy as int);
            assert(walk_points(x0, 0, height as int, cur) == rawprev.push(
                (x as int, y as int),
            ));
            assert((corner_vertices(width as int, height as int) + rawprev).push(
                (x as int, y as int),
            ) =~= corner_vertices(width as int, height as int) + rawprev.push(
                (x as int, y as int),
            ));
            assert(vseq(vertices@) =~= corner_vertices(width as int, height as int) + walk_points(
                x0,
                0,
                height as int,
                cur,
            ));
        }
        x = x - dx;
        let mut ny = y + dy;
        if ny > hi {
            ny = hi;
        }
        if ny < -hi {
            ny = -hi;
        }
        y = ny;
        proof {
            assert((x as int, y as int) == walk_end(x0, 0, height as int, cur));
        }
    }

    let ghost raw = walk_points(x0, 0, height as int, cur);
    if x < LEFT_CLEARANCE {
        proof {
            assert(cur.len() > 0);
            lemma_walk_count(x0, 0, height as int, cur);
            assert(raw.len() > 0);
            assert(vertices@.len() == 4 + raw.len());
        }
        let ghost vfull = vertices@;
        let _trimmed = vertices.pop();
        proof {
            assert(vertices@ == vfull.drop_last());
            crate::geom::lemma_vseq_drop_last(vfull);
            assert(vseq(vertices@) =~= corner_vertices(width as int, height as int)
                + raw.drop_last());
        }
    }
    let ghost vbase = vertices@;
    vertices.push(Position::new(LEFT_CLEARANCE, 0));
    proof {
        crate::geom::lemma_vseq_push(vbase, Position { x: LEFT_CLEARANCE, y: 0 });
        assert((pre + cur).skip(pre.len() as int) =~= cur);
        assert(vseq(vertices@) =~= walk_vertices(*config, cur));
    }
    vertices
}

} // verus!
