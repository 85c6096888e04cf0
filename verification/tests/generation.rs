use elma_lev_gen::config::{FlatTrackConfig, PointConfig, SegmentConfig, TypeConfig};
use elma_lev_gen::flat::{gen, gen_segments, gen_track, ObjectType};
use elma_lev_gen::geom::Position;
use elma_lev_gen::rng::RandomSource;
use elma_lev_gen::segments::gen_segments_raw;
use elma_lev_gen::walk::gen_points_raw;

fn pos(x: i64, y: i64) -> Position {
    Position { x, y }
}

fn corners(width: i64, height: i64) -> Vec<Position> {
    vec![pos(0, 0), pos(0, height), pos(width, height), pos(width, 0)]
}

#[test]
fn walk_raw_starts_with_corners() {
    let config = FlatTrackConfig::default();
    let pc = PointConfig::default();
    let mut source = RandomSource::from_seed([11; 32]);
    let vertices = gen_points_raw(&config, &pc, &mut source);
    assert_eq!(&vertices[..4], &corners(50000, 7000)[..]);
}

#[test]
fn segments_raw_starts_with_corners() {
    let config = FlatTrackConfig {
        width: 50000,
        height: 7000,
        type_config: TypeConfig::SegmentConfig(SegmentConfig::default()),
    };
    let sc = SegmentConfig::default();
    let mut source = RandomSource::from_seed([12; 32]);
    let vertices = gen_segments_raw(&config, &sc, &mut source);
    assert_eq!(&vertices[..4], &corners(50000, 7000)[..]);
}

#[test]
fn generation_is_deterministic_per_seed() {
    let offset = (elma::constants::OBJECT_RADIUS * 1000.0) as i64;
    let mut a = RandomSource::from_seed([42; 32]);
    let mut b = RandomSource::from_seed([42; 32]);
    let ta = gen(&mut a, offset);
    let tb = gen(&mut b, offset);
    assert_eq!(ta.polygons.len(), 1);
    assert_eq!(ta.polygons[0].vertices, tb.polygons[0].vertices);
    assert_eq!(ta.polygons[0].grass, tb.polygons[0].grass);
    assert_eq!(ta.objects, tb.objects);

    let mut c = RandomSource::from_seed([43; 32]);
    let tc = gen(&mut c, offset);
    // Another seed draws other values: the walk floor differs.
    assert_ne!(ta.polygons[0].vertices, tc.polygons[0].vertices);
}

#[test]
fn segment_scenario_counts_and_ranges() {
    // width 50: span is 45 units, segment width 1.125 units, 40 centres,
    // the last one discarded: 39 spikes.
    let config = FlatTrackConfig {
        width: 50000,
        height: 7000,
        type_config: TypeConfig::SegmentConfig(SegmentConfig::default()),
    };
    let sc = SegmentConfig::default();
    let mut source = RandomSource::from_seed([1; 32]);
    let vertices = gen_segments_raw(&config, &sc, &mut source);
    let spikes = (vertices.len() - 5) / 3;
    assert_eq!(vertices.len(), 4 + 3 * spikes + 1);
    assert!(spikes >= 37 && spikes <= 39);
    assert_eq!(spikes, 39);
    // The documented spike count: floor(span / segment_width) - 1.
    assert_eq!(spikes as i64, 45000 / (45000 / sc.num_segments) - 1);
    // Trailing floor vertex.
    assert_eq!(*vertices.last().unwrap(), pos(4000, 0));
    // Each spike: (c + half, 0), (c, apex), (c - half, 0), with the apex
    // height inside the configured range and centres descending.
    let half = (45000 / sc.num_segments) / 2;
    let mut prev_centre = i64::MAX;
    for k in 0..spikes {
        let right = vertices[4 + 3 * k];
        let apex = vertices[4 + 3 * k + 1];
        let left = vertices[4 + 3 * k + 2];
        assert_eq!(right, pos(apex.x + half, 0));
        assert_eq!(left, pos(apex.x - half, 0));
        assert!(apex.y >= sc.spike_low && apex.y < sc.spike_high);
        assert!(apex.x < prev_centre);
        assert!(apex.x > 3000);
        prev_centre = apex.x;
    }
}

#[test]
fn segment_scenario_objects() {
    let offset = (elma::constants::OBJECT_RADIUS * 1000.0) as i64;
    let config = FlatTrackConfig {
        width: 50000,
        height: 7000,
        type_config: TypeConfig::SegmentConfig(SegmentConfig::default()),
    };
    let mut source = RandomSource::from_seed([2; 32]);
    let track = gen_track(&config, &mut source, offset);
    assert_eq!(track.objects.len(), 2);
    assert_eq!(track.objects[0].object_type, ObjectType::Player);
    assert_eq!(track.objects[0].position, pos(1000, offset));
    assert_eq!(track.objects[1].object_type, ObjectType::Exit);
    assert_eq!(track.objects[1].position, pos(47000, offset));
}

#[test]
fn walk_scenario_monotone_bounded_and_closed() {
    let config = FlatTrackConfig::default();
    let pc = PointConfig::default();
    let mut source = RandomSource::from_seed([3; 32]);
    let vertices = gen_points_raw(&config, &pc, &mut source);
    // Closing vertex (3, 0) always ends the raw sequence.
    assert_eq!(*vertices.last().unwrap(), pos(3000, 0));
    let walk = &vertices[4..vertices.len() - 1];
    assert!(walk.len() > 30); // ~44 units of span, steps below 1.2 units
    for pair in walk.windows(2) {
        assert!(pair[0].x > pair[1].x);
    }
    for p in walk {
        // Strictly right of the clearance boundary, so in particular
        // never more than one maximum step left of it.
        assert!(p.x > 3000);
        assert!(p.x >= 3000 - 1200);
        // Clamped to the vertical interior.
        assert!(p.y >= -(7000 - 3000) && p.y <= 7000 - 3000);
    }
    assert_eq!(walk[0], pos(47000, 0));
}

#[test]
fn walk_full_track_keeps_closing_vertex() {
    let offset = (elma::constants::OBJECT_RADIUS * 1000.0) as i64;
    let mut source = RandomSource::from_seed([4; 32]);
    let track = gen(&mut source, offset);
    assert_eq!(track.polygons.len(), 1);
    assert!(!track.polygons[0].grass);
    let vertices = &track.polygons[0].vertices;
    assert_eq!(&vertices[..4], &corners(50000, 7000)[..]);
    assert_eq!(*vertices.last().unwrap(), pos(3000, 0));
}

#[test]
fn spike_heights_respect_a_degenerate_range() {
    // A one-value range pins every apex: the sampler must stay inside
    // [5, 6), so every apex height is exactly 5.
    let sc = SegmentConfig { num_segments: 40, spike_low: 5, spike_high: 6 };
    let config = FlatTrackConfig {
        width: 50000,
        height: 7000,
        type_config: TypeConfig::SegmentConfig(sc),
    };
    let mut source = RandomSource::from_seed([9; 32]);
    let vertices = gen_segments_raw(&config, &sc, &mut source);
    let spikes = (vertices.len() - 5) / 3;
    assert_eq!(spikes, 39);
    for k in 0..spikes {
        assert_eq!(vertices[4 + 3 * k + 1].y, 5);
    }
}

#[test]
fn minimal_width_walk_degenerates_to_flat_track() {
    // The walk starts exactly on the clearance boundary: no steps, no
    // trimming, only the corners and the closing vertex.
    let config = FlatTrackConfig {
        width: 6000,
        height: 7000,
        type_config: TypeConfig::PointConfig(PointConfig::default()),
    };
    let pc = PointConfig::default();
    let mut source = RandomSource::from_seed([5; 32]);
    let vertices = gen_points_raw(&config, &pc, &mut source);
    assert_eq!(
        vertices,
        vec![pos(0, 0), pos(0, 7000), pos(6000, 7000), pos(6000, 0), pos(3000, 0)]
    );
}

#[test]
fn oversubscribed_segments_degenerate_to_flat_track() {
    // More segments than thousandth-steps in the span: the segment width
    // collapses to zero and no spikes fit.
    let sc = SegmentConfig { num_segments: 1001, spike_low: -400, spike_high: 1000 };
    let config = FlatTrackConfig {
        width: 6000,
        height: 7000,
        type_config: TypeConfig::SegmentConfig(sc),
    };
    let mut source = RandomSource::from_seed([6; 32]);
    let vertices = gen_segments_raw(&config, &sc, &mut source);
    assert_eq!(
        vertices,
        vec![pos(0, 0), pos(0, 7000), pos(6000, 7000), pos(6000, 0), pos(4000, 0)]
    );
}

#[test]
fn segment_track_is_deduplicated() {
    // With the default range, neighbouring spikes share their floor
    // vertices exactly: (c - half, 0) of one spike coincides with
    // (c' + half, 0) of the next whenever the centres differ by exactly
    // the segment width.  Those duplicates must be collapsed.
    let config = FlatTrackConfig {
        width: 50000,
        height: 7000,
        type_config: TypeConfig::SegmentConfig(SegmentConfig::default()),
    };
    let sc = SegmentConfig::default();
    let mut raw_source = RandomSource::from_seed([8; 32]);
    let raw = gen_segments_raw(&config, &sc, &mut raw_source);
    let mut source = RandomSource::from_seed([8; 32]);
    let polygons = gen_segments(&config, &sc, &mut source);
    assert_eq!(polygons.len(), 1);
    let deduped = &polygons[0].vertices;
    // 39 spikes share 38 floor vertices pairwise, one thousandth apart:
    // exactly those 38 later near-duplicates are collapsed.
    assert_eq!(deduped.len(), raw.len() - 38);
    for pair in deduped.windows(2) {
        assert_ne!(pair[0], pair[1]);
    }
}
