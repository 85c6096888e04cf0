use elma_lev_gen::config::{FlatTrackConfig, PointConfig, SegmentConfig, TypeConfig};
use elma_lev_gen::dedup::dedup_vertices;
use elma_lev_gen::flat::{place_objects, ObjectType};
use elma_lev_gen::geom::Position;

fn pos(x: i64, y: i64) -> Position {
    Position { x, y }
}

#[test]
fn dedup_drops_later_of_close_pair() {
    let input = vec![pos(0, 0), pos(3, 3), pos(10, 10)];
    let out = dedup_vertices(&input);
    assert_eq!(out, vec![pos(0, 0), pos(10, 10)]);
}

#[test]
fn dedup_close_on_one_axis_only_is_kept() {
    let input = vec![pos(0, 0), pos(3, 800), pos(900, 3)];
    let out = dedup_vertices(&input);
    assert_eq!(out, input);
}

#[test]
fn dedup_chain_compares_against_input_predecessor() {
    let input = vec![pos(0, 0), pos(4, 0), pos(8, 0), pos(1, 0)];
    let out = dedup_vertices(&input);
    assert_eq!(out, vec![pos(0, 0), pos(1, 0)]);
}

#[test]
fn dedup_empty_and_singleton() {
    let empty: Vec<Position> = vec![];
    assert_eq!(dedup_vertices(&empty), empty);
    let one = vec![pos(7, -7)];
    assert_eq!(dedup_vertices(&one), one);
}

#[test]
fn dedup_tolerance_is_strict() {
    // A difference of exactly 5 thousandths (0.005 units) is not close.
    let input = vec![pos(0, 0), pos(5, 0), pos(5, 4)];
    let out = dedup_vertices(&input);
    assert_eq!(out, vec![pos(0, 0), pos(5, 0)]);
}

#[test]
fn object_placer_fixed_offsets() {
    let offset = (elma::constants::OBJECT_RADIUS * 1000.0) as i64;
    assert_eq!(offset, 400);
    let config = FlatTrackConfig::default();
    let objects = place_objects(&config, offset);
    assert_eq!(objects.len(), 2);
    assert_eq!(objects[0].object_type, ObjectType::Player);
    assert_eq!(objects[0].position, pos(1000, 400));
    assert_eq!(objects[1].object_type, ObjectType::Exit);
    assert_eq!(objects[1].position, pos(50000 - 3000, 400));
}

#[test]
fn default_configs_match_documented_values() {
    let pc = PointConfig::default();
    assert_eq!(pc.x_low, 100);
    assert_eq!(pc.x_high, 1200);
    assert_eq!(pc.y_low, -500);
    assert_eq!(pc.y_high, 700);

    let sc = SegmentConfig::default();
    assert_eq!(sc.num_segments, 40);
    assert_eq!(sc.spike_low, -400);
    assert_eq!(sc.spike_high, 1000);

    let config = FlatTrackConfig::default();
    assert_eq!(config.width, 50000);
    assert_eq!(config.height, 7000);
    match config.type_config {
        TypeConfig::PointConfig(p) => {
            assert_eq!(p.x_low, pc.x_low);
            assert_eq!(p.x_high, pc.x_high);
            assert_eq!(p.y_low, pc.y_low);
            assert_eq!(p.y_high, pc.y_high);
        }
        TypeConfig::SegmentConfig(_) => panic!("default strategy should be the point walk"),
    }
}
