use vstd::prelude::*;

use crate::config::{FlatTrackConfig, SegmentConfig};
use crate::geom::{
    corner_vertices, push_corners, vseq, Position, FLOOR_X, LEFT_CLEARANCE, MAX_DIM, MIN_DIM,
    RIGHT_CLEARANCE,
};
use crate::rng::RandomSource;

verus! {

/// The interior horizontal span reserved for spikes ends here.
pub open spec fn seg_end_x(width: int) -> int {
    width - RIGHT_CLEARANCE
}

/// The width of one segment: the interior span divided evenly.
pub open spec fn seg_width(width: int, num_segments: int) -> int {
    (seg_end_x(width) - LEFT_CLEARANCE) / num_segments
}

/// How many spike centres stepping down from `c0` by `sw` stay strictly
/// right of `start_x`.
pub open spec fn spike_centre_count(c0: int, start_x: int, sw: int) -> int {
    if sw < 1 || c0 <= start_x {
        0
    } else {
        (c0 - start_x - 1) / sw + 1
    }
}

/// The spike centres, in the strictly decreasing x order they are
/// produced in.
pub open spec fn spike_centres(c0: int, start_x: int, sw: int) -> Seq<int> {
    Seq::new(spike_centre_count(c0, start_x, sw) as nat, |k: int| c0 - k * sw)
}

/// The centres that actually host a spike: the last (leftmost) computed
/// centre is discarded, to keep spikes clear of the left boundary.
pub open spec fn seg_kept_centres(width: int, num_segments: int) -> Seq<int> {
    let sw = seg_width(width, num_segments);
    let all = spike_centres(seg_end_x(width) - sw / 2, LEFT_CLEARANCE as int, sw);
    if all.len() > 0 {
        all.drop_last()
    } else {
        all
    }
}

/// The three vertices of one triangular spike centred at `c`: floor,
/// apex, floor.
pub open spec fn spike_triple(c: int, half: int, apex: int) -> Seq<(int, int)> {
    seq![(c + half, 0), (c, apex), (c - half, 0)]
}

/// All spike vertices, one triple per centre, each consuming one apex
/// draw, in centre order.
pub open spec fn spike_run(centres: Seq<int>, half: int, draws: Seq<int>) -> Seq<(int, int)>
    decreases centres.len(),
{
    if centres.len() == 0 {
        Seq::empty()
    } else {
        spike_triple(centres[0], half, draws[0]) + spike_run(centres.skip(1), half, draws.skip(1))
    }
}

/// The full vertex sequence of the segment strategy, before
/// deduplication: the envelope corners, the spikes, and the trailing
/// floor vertex (4, 0).
pub open spec fn segment_vertices(cfg: FlatTrackConfig, sc: SegmentConfig, draws: Seq<int>) -> Seq<
    (int, int),
> {
    let sw = seg_width(cfg.width as int, sc.num_segments as int);
    corner_vertices(cfg.width as int, cfg.height as int) + spike_run(
        seg_kept_centres(cfg.width as int, sc.num_segments as int),
        sw / 2,
        draws,
    ) + seq![(FLOOR_X as int, 0)]
}

pub proof fn lemma_spike_run_snoc(centres: Seq<int>, half: int, draws: Seq<int>, c: int, d: int)
    requires
        centres.len() == draws.len(),
    ensures
        spike_run(centres.push(c), half, draws.push(d)) == spike_run(centres, half, draws)
            + spike_triple(c, half, d),
    decreases centres.len(),
{
    if centres.len() == 0 {
        assert(centres.push(c)[0] == c);
        assert(draws.push(d)[0] == d);
        assert(centres.push(c).skip(1) =~= Seq::<int>::empty());
        assert(draws.push(d).skip(1) =~= Seq::<int>::empty());
        assert(spike_run(Seq::<int>::empty(), half, Seq::<int>::empty()) == Seq::<
            (int, int),
        >::empty());
        assert(spike_run(centres.push(c).skip(1), half, draws.push(d).skip(1)) == Seq::<
            (int, int),
        >::empty());
        assert(spike_run(centres.push(c), half, draws.push(d)) =~= spike_run(centres, half, draws)
            + spike_triple(c, half, d));
    } else {
        assert(centres.push(c).skip(1) =~= centres.skip(1).push(c));
        assert(draws.push(d).skip(1) =~= draws.skip(1).push(d));
        assert(centres.push(c)[0] == centres[0]);
        assert(draws.push(d)[0] == draws[0]);
        lemma_spike_run_snoc(centres.skip(1), half, draws.skip(1), c, d);
        assert(spike_run(centres.push(c), half, draws.push(d)) =~= spike_run(centres, half, draws)
            + spike_triple(c, half, d));
    }
}

/// Each centre contributes exactly its three vertices: right floor
/// vertex, apex — whose height is exactly the centre's draw — and left
/// floor vertex.
pub proof fn lemma_spike_run_structure(centres: Seq<int>, half: int, draws: Seq<int>)
    requires
        centres.len() == draws.len(),
    ensures
        spike_run(centres, half, draws).len() == 3 * centres.len(),
        forall|j: int|
            0 <= j < centres.len() ==> {
                let run = spike_run(centres, half, draws);
                &&& run[3 * j] == (#[trigger] centres[j] + half, 0int)
                &&& run[3 * j + 1] == (centres[j], draws[j])
                &&& run[3 * j + 2] == (centres[j] - half, 0int)
            },
    decreases centres.len(),
{
    if centres.len() > 0 {
        lemma_spike_run_structure(centres.skip(1), half, draws.skip(1));
        let run = spike_run(centres, half, draws);
        let rest = spike_run(centres.skip(1), half, draws.skip(1));
        assert forall|j: int| 0 <= j < centres.len() implies {
            &&& run[3 * j] == (#[trigger] centres[j] + half, 0int)
            &&& run[3 * j + 1] == (centres[j], draws[j])
            &&& run[3 * j + 2] == (centres[j] - half, 0int)
        } by {
            if j > 0 {
                assert(centres.skip(1)[j - 1] == centres[j]);
                assert(draws.skip(1)[j - 1] == draws[j]);
                assert(run[3 * j] == rest[3 * (j - 1)]);
                assert(run[3 * j + 1] == rest[3 * (j - 1) + 1]);
                assert(run[3 * j + 2] == rest[3 * (j - 1) + 2]);
            }
        }
    }
}

/// The apex vertex of the `j`-th spike of a run.
pub open spec fn spike_apex(centres: Seq<int>, half: int, draws: Seq<int>, j: int) -> (int, int) {
    spike_run(centres, half, draws)[3 * j + 1]
}

/// Law: every spike apex height lies within the configured half-open
/// range, provided every draw does — which is exactly what the
/// randomness source guarantees.
pub proof fn lemma_spike_apexes_in_range(
    centres: Seq<int>,
    half: int,
    draws: Seq<int>,
    lo: int,
    hi: int,
)
    requires
        centres.len() == draws.len(),
        forall|i: int| 0 <= i < draws.len() ==> lo <= #[trigger] draws[i] < hi,
    ensures
        forall|j: int|
            0 <= j < centres.len() ==> {
                let apex = #[trigger] spike_apex(centres, half, draws, j);
                lo <= apex.1 < hi
            },
{
    lemma_spike_run_structure(centres, half, draws);
    assert forall|j: int| 0 <= j < centres.len() implies {
        let apex = #[trigger] spike_apex(centres, half, draws, j);
        lo <= apex.1 < hi
    } by {
        assert(spike_run(centres, half, draws)[3 * j + 1] == (centres[j], draws[j]));
        assert(lo <= draws[j] < hi);
    }
}

/// Law: for a non-degenerate span whose division leaves a remainder of at
/// most half a segment, the number of spikes that get emitted is the
/// number of whole segments in the span, minus the one discarded centre.
pub proof fn lemma_spike_count(width: int, num_segments: int)
    requires
        MIN_DIM <= width,
        1 <= num_segments <= seg_end_x(width) - LEFT_CLEARANCE,
        (seg_end_x(width) - LEFT_CLEARANCE) % seg_width(width, num_segments) <= seg_width(
            width,
            num_segments,
        ) / 2,
    ensures
        seg_kept_centres(width, num_segments).len() == (seg_end_x(width) - LEFT_CLEARANCE)
            / seg_width(width, num_segments) - 1,
{
    let span = seg_end_x(width) - LEFT_CLEARANCE;
    let sw = seg_width(width, num_segments);
    let half = sw / 2;
    let c0 = seg_end_x(width) - half;
    let m = c0 - LEFT_CLEARANCE;
    vstd::arithmetic::div_mod::lemma_div_non_zero(span, num_segments);
    assert(sw >= 1);
    vstd::arithmetic::div_mod::lemma_fundamental_div_mod(sw, 2);
    vstd::arithmetic::div_mod::lemma_mod_bound(sw, 2);
    assert(0 <= half < sw);
    vstd::arithmetic::div_mod::lemma_fundamental_div_mod(span, sw);
    vstd::arithmetic::div_mod::lemma_mod_bound(span, sw);
    assert(sw <= span) by {
        vstd::arithmetic::div_mod::lemma_fundamental_div_mod(span, num_segments);
        vstd::arithmetic::div_mod::lemma_mod_bound(span, num_segments);
        assert(num_segments * sw <= span);
        assert(sw <= num_segments * sw) by (nonlinear_arith)
            requires
                num_segments >= 1,
                sw >= 1,
        ;
    }
    vstd::arithmetic::div_mod::lemma_div_non_zero(span, sw);
    let q = span / sw;
    let r = span % sw;
    assert(span == sw * q + r);
    assert(0 <= r < sw);
    assert(q >= 1);
    assert(m == span - half);
    assert(m - 1 == (q - 1) * sw + (sw + r - half - 1)) by {
        assert((q - 1) * sw == q * sw - sw) by (nonlinear_arith);
        assert(q * sw == sw * q) by (nonlinear_arith);
    }
    assert(0 <= sw + r - half - 1 < sw);
    vstd::arithmetic::div_mod::lemma_fundamental_div_mod_converse(
        m - 1,
        sw,
        q - 1,
        sw + r - half - 1,
    );
    assert((m - 1) / sw == q - 1);
    assert((q - 1) * sw >= 0) by (nonlinear_arith)
        requires
            q >= 1,
            sw >= 1,
    ;
    assert(m >= 1);
    assert(c0 > LEFT_CLEARANCE);
    assert(spike_centre_count(c0, LEFT_CLEARANCE as int, sw) == q);
    assert(spike_centres(c0, LEFT_CLEARANCE as int, sw).len() == q);
    assert(seg_kept_centres(width, num_segments).len() == q - 1);
}

/// Emits one triangular spike centred at `x_offset` in a segment of the
/// given width: right floor vertex, apex at a height drawn from the
/// configured range, left floor vertex.
pub fn gen_spike(
    sc: &SegmentConfig,
    x_offset: i64,
    width: i64,
    source: &mut RandomSource,
) -> (spike: [Position; 3])
    requires
        sc.valid(),
        -2 * MAX_DIM <= x_offset <= 2 * MAX_DIM,
        0 <= width <= MAX_DIM,
    ensures
        sc.spike_low <= spike@[1].y < sc.spike_high,
        final(source).draws() == old(source).draws().push(spike@[1].y as int),
        vseq(spike@) == spike_triple(x_offset as int, width as int / 2, spike@[1].y as int),
{
    let half = width / 2;
    let apex = source.sample(sc.spike_low, sc.spike_high);
    let spike = [
        Position::new(x_offset + half, 0),
        Position::new(x_offset, apex),
        Position::new(x_offset - half, 0),
    ];
    proof {
        assert(vseq(spike@) =~= spike_triple(x_offset as int, width as int / 2, apex as int));
    }
    spike
}

/// Divides the interior span into equal-width segments and emits one
/// spike per kept centre, stepping from right to left, followed by the
/// trailing floor vertex (4, 0).  Returns the full vertex sequence of
/// the strategy, before deduplication.
pub fn gen_segments_raw(
    config: &FlatTrackConfig,
    sc: &SegmentConfig,
    source: &mut RandomSource,
) -> (vertices: Vec<Position>)
    requires
        config.dims_valid(),
        sc.valid(),
    ensures
        old(source).draws().is_prefix_of(final(source).draws()),
        ({
            let draws = final(source).draws().skip(old(source).draws().len() as int);
            &&& draws.len() == seg_kept_centres(config.width as int, sc.num_segments as int).len()
            &&& forall|i: int|
                0 <= i < draws.len() ==> sc.spike_low <= #[trigger] draws[i] < sc.spike_high
            &&& vseq(vertices@) == segment_vertices(*config, *sc, draws)
        }),
{
    let width = config.width;
    let height = config.height;
    let mut vertices: Vec<Position> = Vec::new();
    push_corners(&mut vertices, width, height);

    let end_x = width - RIGHT_CLEARANCE;
    let span = end_x - LEFT_CLEARANCE;
    let sw = span / sc.num_segments;
    let half = sw / 2;
    let ghost swi = seg_width(width as int, sc.num_segments as int);
    proof {
        vstd::arithmetic::div_mod::lemma_div_pos_is_pos(span as int, sc.num_segments as int);
        vstd::arithmetic::div_mod::lemma_fundamental_div_mod(span as int, sc.num_segments as int);
        vstd::arithmetic::div_mod::lemma_mod_bound(span as int, sc.num_segments as int);
        assert(sw as int == swi);
        vstd::arithmetic::div_mod::lemma_div_pos_is_pos(swi, 2);
        vstd::arithmetic::div_mod::lemma_fundamental_div_mod(swi, 2);
        vstd::arithmetic::div_mod::lemma_mod_bound(swi, 2);
        assert(half as int == swi / 2);
        assert(0 <= half <= sw <= span);
    }

    let mut centres: Vec<i64> = Vec::new();
    let c0 = end_x - half;
    if sw >= 1 {
        let mut centre = c0;
        proof {
            assert(centres@.len() == 0);
            assert(0int * (sw as int) == 0) by (nonlinear_arith);
        }
        while centre > LEFT_CLEARANCE
            invariant
                1 <= sw <= span,
                0 <= half < sw,
                MIN_DIM <= width && width <= MAX_DIM,
                end_x == width - RIGHT_CLEARANCE,
                span == end_x - LEFT_CLEARANCE,
                c0 == end_x - half,
                centre as int == c0 - centres@.len() * (sw as int),
                centre > LEFT_CLEARANCE - sw,
                forall|k: int|
                    0 <= k < centres@.len() ==> #[trigger] centres@[k] as int == c0 - k * (
                    sw as int),
                forall|k: int|
                    0 <= k < centres@.len() ==> LEFT_CLEARANCE < #[trigger] centres@[k] <= c0,
            decreases centre - (LEFT_CLEARANCE - sw),
        {
            let ghost n0 = centres@.len() as int;
            centres.push(centre);
            proof {
                assert((n0 + 1) * (sw as int) == n0 * (sw as int) + sw as int) by (nonlinear_arith);
            }
            centre = centre - sw;
        }
        proof {
            let n = centres@.len() as int;
            let c0i = c0 as int;
            let left = LEFT_CLEARANCE as int;
            if c0i <= left {
                assert(n == 0);
                assert(spike_centre_count(c0i, left, swi) == 0);
            } else {
                assert(n * swi >= c0i - left);
                if n == 0 {
                    assert(n * swi == 0) by (nonlinear_arith)
                        requires
                            n == 0,
                    ;
                    assert(false);
                }
                let m = c0i - left;
                assert(centres@[n - 1] as int == c0i - (n - 1) * swi);
                assert(centres@[n - 1] > left);
                assert(m - 1 == (n - 1) * swi + (m - 1 - (n - 1) * swi));
                assert(0 <= m - 1 - (n - 1) * swi < swi) by {
                    assert((n - 1) * swi == n * swi - swi) by (nonlinear_arith);
                }
                vstd::arithmetic::div_mod::lemma_fundamental_div_mod_converse(
                    m - 1,
                    swi,
                    n - 1,
                    m - 1 - (n - 1) * swi,
                );
                assert((m - 1) / swi == n - 1);
                assert(spike_centre_count(c0i, left, swi) == n);
            }
            assert(centres@.map_values(|c: i64| c as int) =~= spike_centres(c0i, left, swi));
        }
    } else {
        proof {
            assert(spike_centre_count(c0 as int, LEFT_CLEARANCE as int, swi) == 0);
            assert(centres@.map_values(|c: i64| c as int) =~= spike_centres(
                c0 as int,
                LEFT_CLEARANCE as int,
                swi,
            ));
        }
    }

    let ghost all = spike_centres(c0 as int, LEFT_CLEARANCE as int, swi);
    let ghost kept = seg_kept_centres(width as int, sc.num_segments as int);
    let ghost vlast = centres@;
    let _discarded = centres.pop();
    proof {
        if vlast.len() > 0 {
            assert(centres@ == vlast.drop_last());
            assert(centres@.map_values(|c: i64| c as int) =~= all.drop_last());
        }
        assert(centres@.map_values(|c: i64| c as int) == kept);
    }

    let ghost pre = source.draws();
    let ghost mut cur = Seq::<int>::empty();
    let mut j: usize = 0;
    while j < centres.len()
        invariant
            sc.valid(),
            config.dims_valid(),
            width == config.width,
            height == config.height,
            0 <= half < MAX_DIM,
            half as int == swi / 2,
            -2 * MAX_DIM <= sw <= MAX_DIM,
            sw as int == swi,
            centres@.map_values(|c: i64| c as int) == kept,
            forall|k: int|
                0 <= k < centres@.len() ==> -MAX_DIM <= #[trigger] centres@[k] <= 2 * MAX_DIM,
            source.draws() == pre + cur,
            cur.len() == j as int,
            j <= centres.len(),
            forall|i: int| 0 <= i < cur.len() ==> sc.spike_low <= #[trigger] cur[i] < sc.spike_high,
            vseq(vertices@) == corner_vertices(width as int, height as int) + spike_run(
                kept.take(j as int),
                swi / 2,
                cur,
            ),
        decreases centres.len() - j,
    {
        let c = centres[j];
        let ghost vbase = vertices@;
        let ghost curbase = cur;
        let spike = gen_spike(sc, c, sw, source);
        let ghost apex = spike@[1].y as int;
        vertices.push(spike[0]);
        vertices.push(spike[1]);
        vertices.push(spike[2]);
        proof {
            cur = curbase.push(apex);
            assert(vertices@ =~= vbase + spike@);
            crate::geom::lemma_vseq_append(vbase, spike@);
            lemma_spike_run_snoc(kept.take(j as int), swi / 2, curbase, kept[j as int], apex);
            assert(kept.take(j + 1) =~= kept.take(j as int).push(kept[j as int]));
            assert(kept[j as int] == centres@[j as int] as int);
            assert(vseq(vertices@) =~= corner_vertices(width as int, height as int) + spike_run(
                kept.take(j + 1),
                swi / 2,
                cur,
            ));
        }
        j = j + 1;
    }

    let ghost vbase = vertices@;
    vertices.push(Position::new(FLOOR_X, 0));
    proof {
        crate::geom::lemma_vseq_push(vbase, Position { x: FLOOR_X, y: 0 });
        assert(kept.take(centres@.len() as int) =~= kept);
        assert((pre + cur).skip(pre.len() as int) =~= cur);
        assert(vseq(vertices@) =~= segment_vertices(*config, *sc, cur));
    }
    vertices
}

} // verus!
