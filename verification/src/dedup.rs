use vstd::prelude::*;

use crate::geom::{vseq, Position, DEDUP_EPS};

verus! {

/// Two vertices are near-coincident when they differ by less than the
/// tolerance on both axes.
pub open spec fn coord_close(a: (int, int), b: (int, int)) -> bool {
    &&& vstd::math::abs(a.0 - b.0) < DEDUP_EPS
    &&& vstd::math::abs(a.1 - b.1) < DEDUP_EPS
}

/// A single left-to-right pass over the vertex sequence: a vertex is
/// dropped exactly when it is near-coincident with its predecessor in the
/// input; the earlier vertex of such a pair is always the one kept.
pub open spec fn dedup_spec(s: Seq<(int, int)>) -> Seq<(int, int)>
    decreases s.len(),
{
    if s.len() <= 1 {
        s
    } else if coord_close(s[s.len() - 2], s.last()) {
        dedup_spec(s.drop_last())
    } else {
        dedup_spec(s.drop_last()).push(s.last())
    }
}

/// Whether the vertex at index `i` of the input survives deduplication.
pub open spec fn dedup_keeps(s: Seq<(int, int)>, i: int) -> bool {
    i == 0 || !coord_close(s[i - 1], s[i])
}

/// The output vertex at index `j` originates at the kept input index `i`.
pub open spec fn dedup_origin(s: Seq<(int, int)>, j: int, i: int) -> bool {
    0 <= i < s.len() && s[i] == dedup_spec(s)[j] && dedup_keeps(s, i)
}

/// The input index that the output vertex at index `j` was taken from.
pub open spec fn dedup_origin_index(s: Seq<(int, int)>, j: int) -> int
    decreases s.len(),
{
    if s.len() <= 1 {
        j
    } else if coord_close(s[s.len() - 2], s.last()) {
        dedup_origin_index(s.drop_last(), j)
    } else if j == dedup_spec(s).len() - 1 {
        s.len() - 1
    } else {
        dedup_origin_index(s.drop_last(), j)
    }
}

/// Law: every output vertex of the deduplicator is taken from an input
/// index whose predecessor is not within the tolerance.  In particular,
/// whenever two consecutive input vertices lie within the tolerance of
/// each other, the later of the two never appears in the output.
pub proof fn lemma_dedup_drops_later(s: Seq<(int, int)>)
    ensures
        forall|j: int|
            0 <= j < dedup_spec(s).len() ==> dedup_origin(s, j, #[trigger] dedup_origin_index(s, j)),
    decreases s.len(),
{
    if s.len() <= 1 {
        assert forall|j: int|
            0 <= j < dedup_spec(s).len() implies dedup_origin(
            s,
            j,
            #[trigger] dedup_origin_index(s, j),
        ) by {
            assert(dedup_spec(s) == s);
            assert(dedup_origin_index(s, j) == j);
        }
    } else {
        let head = s.drop_last();
        lemma_dedup_drops_later(head);
        assert forall|j: int|
            0 <= j < dedup_spec(s).len() implies dedup_origin(
            s,
            j,
            #[trigger] dedup_origin_index(s, j),
        ) by {
            if coord_close(s[s.len() - 2], s.last()) || j < dedup_spec(head).len() {
                let i = dedup_origin_index(head, j);
                assert(dedup_origin(head, j, i));
                assert(s[i] == head[i]);
                if i > 0 {
                    assert(s[i - 1] == head[i - 1]);
                }
                assert(dedup_origin_index(s, j) == i);
                assert(dedup_spec(s)[j] == dedup_spec(head)[j]);
            } else {
                assert(dedup_origin_index(s, j) == s.len() - 1);
                assert(dedup_spec(s)[j] == s.last());
            }
        }
    }
}

/// Collapses near-coincident consecutive vertices, keeping the earlier of
/// each close pair, so that the polygon has no degenerate zero-length
/// edges for the downstream topology checker to choke on.
pub fn dedup_vertices(v: &Vec<Position>) -> (r: Vec<Position>)
    ensures
        vseq(r@) == dedup_spec(vseq(v@)),
{
    let ghost s = vseq(v@);
    let mut out: Vec<Position> = Vec::new();
    if v.len() == 0 {
        proof {
            assert(vseq(out@) =~= dedup_spec(s));
        }
        return out;
    }
    out.push(v[0]);
    proof {
        crate::geom::lemma_vseq_push(Seq::<Position>::empty(), v[0]);
        assert(s.take(1) =~= seq![s[0]]);
        assert(vseq(out@) =~= dedup_spec(s.take(1)));
    }
    let mut i: usize = 1;
    while i < v.len()
        invariant
            1 <= i <= v.len(),
            s == vseq(v@),
            s.len() == v.len(),
            vseq(out@) == dedup_spec(s.take(i as int)),
        decreases v.len() - i,
    {
        let a = v[i - 1];
        let b = v[i];
        let dx: i128 = (a.x as i128) - (b.x as i128);
        let dy: i128 = (a.y as i128) - (b.y as i128);
        let adx: i128 = if dx < 0 {
            -dx
        } else {
            dx
        };
        let ady: i128 = if dy < 0 {
            -dy
        } else {
            dy
        };
        let is_close = adx < DEDUP_EPS as i128 && ady < DEDUP_EPS as i128;
        proof {
            let t = s.take(i + 1);
            assert(t.drop_last() =~= s.take(i as int));
            assert(t.last() == s[i as int]);
            assert(t[t.len() - 2] == s[i - 1]);
            assert(s[i - 1] == (a.x as int, a.y as int));
            assert(s[i as int] == (b.x as int, b.y as int));
            assert(is_close == coord_close(s[i - 1], s[i as int]));
        }
        if !is_close {
            out.push(b);
            proof {
                crate::geom::lemma_vseq_push(out@.drop_last(), b);
                assert(out@.drop_last().push(b) =~= out@);
            }
        }
        i = i + 1;
    }
    proof {
        assert(s.take(v.len() as int) =~= s);
    }
    out
}

} // verus!
