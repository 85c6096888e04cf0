use vstd::prelude::*;

pub use crate::config::FlatTrackConfig;
use crate::config::{default_config, PointConfig, SegmentConfig, TypeConfig};
use crate::dedup::{dedup_spec, dedup_vertices};
use crate::geom::{corner_vertices, vseq, Position, PLAYER_X, WALL_MARGIN};
use crate::rng::RandomSource;
use crate::segments::{gen_segments_raw, seg_kept_centres, segment_vertices};
use crate::walk::{gen_points_raw, walk_complete, walk_draws_ok, walk_vertices};

verus! {

/// One closed polygon of the level: the vertex loop and whether it is a
/// grass (background) polygon.  This generator only ever emits track
/// polygons, so `grass` is always false here.
#[derive(Clone, Debug)]
pub struct Polygon {
    pub grass: bool,
    pub vertices: Vec<Position>,
}

/// The role of a placed object marker.
#[derive(Clone, Copy, PartialEq, Eq, Structural, Debug)]
pub enum ObjectType {
    Player,
    Exit,
}

/// A placed object marker: the start or the finish of the track.
#[derive(Clone, Copy, PartialEq, Eq, Structural, Debug)]
pub struct Object {
    pub position: Position,
    pub object_type: ObjectType,
}

/// Everything this generator hands to the external level assembler: one
/// track polygon and the two object markers.
#[derive(Clone, Debug)]
pub struct Track {
    pub polygons: Vec<Polygon>,
    pub objects: Vec<Object>,
}

/// The vertex sequence (before deduplication) that the configured
/// strategy produces from the given draws.
pub open spec fn track_vertices(cfg: FlatTrackConfig, draws: Seq<int>) -> Seq<(int, int)> {
    match cfg.type_config {
        TypeConfig::SegmentConfig(sc) => segment_vertices(cfg, sc, draws),
        TypeConfig::PointConfig(_) => walk_vertices(cfg, draws),
    }
}

/// The draws are exactly the ones the configured strategy consumes, each
/// within its configured range.
pub open spec fn track_draws_ok(cfg: FlatTrackConfig, draws: Seq<int>) -> bool {
    match cfg.type_config {
        TypeConfig::SegmentConfig(sc) => {
            &&& draws.len() == seg_kept_centres(cfg.width as int, sc.num_segments as int).len()
            &&& forall|i: int|
                0 <= i < draws.len() ==> sc.spike_low <= #[trigger] draws[i] < sc.spike_high
        },
        TypeConfig::PointConfig(pc) => {
            &&& walk_draws_ok(pc, draws)
            &&& walk_complete(cfg.width - WALL_MARGIN, cfg.height as int, draws)
        },
    }
}

/// Runs the random-walk strategy and deduplicates the result: the single
/// polygon of the level.
pub fn gen_points(
    config: &FlatTrackConfig,
    pc: &PointConfig,
    source: &mut RandomSource,
) -> (polygons: Vec<Polygon>)
    requires
        config.dims_valid(),
        pc.valid(),
    ensures
        old(source).draws().is_prefix_of(final(source).draws()),
        ({
            let draws = final(source).draws().skip(old(source).draws().len() as int);
            &&& walk_draws_ok(*pc, draws)
            &&& walk_complete(config.width - WALL_MARGIN, config.height as int, draws)
            &&& polygons@.len() == 1
            &&& polygons@[0].grass == false
            &&& vseq(polygons@[0].vertices@) == dedup_spec(walk_vertices(*config, draws))
        }),
{
    let raw = gen_points_raw(config, pc, source);
    let vertices = dedup_vertices(&raw);
    let mut polygons: Vec<Polygon> = Vec::new();
    polygons.push(Polygon { grass: false, vertices });
    polygons
}

/// Runs the spike-segment strategy and deduplicates the result: the
/// single polygon of the level.
pub fn gen_segments(
    config: &FlatTrackConfig,
    sc: &SegmentConfig,
    source: &mut RandomSource,
) -> (polygons: Vec<Polygon>)
    requires
        config.dims_valid(),
        sc.valid(),
    ensures
        old(source).draws().is_prefix_of(final(source).draws()),
        ({
            let draws = final(source).draws().skip(old(source).draws().len() as int);
            &&& draws.len() == seg_kept_centres(config.width as int, sc.num_segments as int).len()
            &&& forall|i: int|
                0 <= i < draws.len() ==> sc.spike_low <= #[trigger] draws[i] < sc.spike_high
            &&& polygons@.len() == 1
            &&& polygons@[0].grass == false
            &&& vseq(polygons@[0].vertices@) == dedup_spec(segment_vertices(*config, *sc, draws))
        }),
{
    let raw = gen_segments_raw(config, sc, source);
    let vertices = dedup_vertices(&raw);
    let mut polygons: Vec<Polygon> = Vec::new();
    polygons.push(Polygon { grass: false, vertices });
    polygons
}

/// Law: the start marker stands at x = 1 and the finish marker at
/// x = width - 3, both at the same fixed vertical offset — the
/// externally defined object radius constant, handed in by the caller.
pub fn place_objects(config: &FlatTrackConfig, object_offset: i64) -> (objects: Vec<Object>)
    requires
        config.dims_valid(),
    ensures
        objects@.len() == 2,
        objects@[0] == (Object {
            position: Position { x: PLAYER_X, y: object_offset },
            object_type: ObjectType::Player,
        }),
        objects@[1] == (Object {
            position: Position { x: (config.width - WALL_MARGIN) as i64, y: object_offset },
            object_type: ObjectType::Exit,
        }),
{
    let mut objects: Vec<Object> = Vec::new();
    objects.push(
        Object {
            position: Position::new(PLAYER_X, object_offset),
            object_type: ObjectType::Player,
        },
    );
    objects.push(
        Object {
            position: Position::new(config.width - WALL_MARGIN, object_offset),
            object_type: ObjectType::Exit,
        },
    );
    objects
}

/// Generates a whole track from an explicit configuration: the selected
/// strategy's polygon — deduplicated — plus the start and finish
/// markers.
pub fn gen_track(config: &FlatTrackConfig, source: &mut RandomSource, object_offset: i64) -> (track:
    Track)
    requires
        config.valid(),
    ensures
        old(source).draws().is_prefix_of(final(source).draws()),
        ({
            let draws = final(source).draws().skip(old(source).draws().len() as int);
            &&& track_draws_ok(*config, draws)
            &&& track.polygons@.len() == 1
            &&& track.polygons@[0].grass == false
            &&& vseq(track.polygons@[0].vertices@) == dedup_spec(track_vertices(*config, draws))
            &&& track.objects@.len() == 2
            &&& track.objects@[0] == (Object {
                position: Position { x: PLAYER_X, y: object_offset },
                object_type: ObjectType::Player,
            })
            &&& track.objects@[1] == (Object {
                position: Position { x: (config.width - WALL_MARGIN) as i64, y: object_offset },
                object_type: ObjectType::Exit,
            })
        }),
{
    let polygons = match &config.type_config {
        TypeConfig::SegmentConfig(sc) => gen_segments(config, sc, source),
        TypeConfig::PointConfig(pc) => gen_points(config, pc, source),
    };
    let objects = place_objects(config, object_offset);
    Track { polygons, objects }
}

/// Generates the default track: a 50-by-7 envelope with the random-walk
/// floor, start and finish markers at the caller-supplied vertical
/// offset.
pub fn gen(source: &mut RandomSource, object_offset: i64) -> (track: Track)
    ensures
        old(source).draws().is_prefix_of(final(source).draws()),
        ({
            let draws = final(source).draws().skip(old(source).draws().len() as int);
            &&& track_draws_ok(default_config(), draws)
            &&& track.polygons@.len() == 1
            &&& track.polygons@[0].grass == false
            &&& vseq(track.polygons@[0].vertices@) == dedup_spec(
                track_vertices(default_config(), draws),
            )
            &&& track.objects@.len() == 2
            &&& track.objects@[0] == (Object {
                position: Position { x: PLAYER_X, y: object_offset },
                object_type: ObjectType::Player,
            })
            &&& track.objects@[1] == (Object {
                position: Position { x: (default_config().width - WALL_MARGIN) as i64, y: object_offset },
                object_type: ObjectType::Exit,
            })
        }),
{
    let config = FlatTrackConfig::default();
    gen_track(&config, source, object_offset)
}

/// Law: whichever strategy is configured and whatever values are drawn,
/// the vertex sequence begins with exactly the four envelope corners
/// (0,0), (0,height), (width,height), (width,0) — left wall, then right
/// wall — before deduplication.
pub proof fn lemma_first_vertices_are_corners(cfg: FlatTrackConfig, draws: Seq<int>)
    ensures
        track_vertices(cfg, draws).len() >= 4,
        track_vertices(cfg, draws).subrange(0, 4) == corner_vertices(
            cfg.width as int,
            cfg.height as int,
        ),
{
    let tv = track_vertices(cfg, draws);
    match cfg.type_config {
        TypeConfig::SegmentConfig(_) => {
            assert(tv.subrange(0, 4) =~= corner_vertices(cfg.width as int, cfg.height as int));
        },
        TypeConfig::PointConfig(_) => {
            assert(tv.subrange(0, 4) =~= corner_vertices(cfg.width as int, cfg.height as int));
        },
    }
}

/// Law: generation is deterministic.  The emitted vertex sequence is a
/// pure function of the configuration and of the values handed out by
/// the randomness source, so two generations fed identical draw
/// sequences produce identical vertex sequences, before and after
/// deduplication.
pub proof fn lemma_generation_deterministic(
    cfg1: FlatTrackConfig,
    draws1: Seq<int>,
    cfg2: FlatTrackConfig,
    draws2: Seq<int>,
)
    requires
        cfg1 == cfg2,
        draws1 == draws2,
    ensures
        track_vertices(cfg1, draws1) == track_vertices(cfg2, draws2),
        dedup_spec(track_vertices(cfg1, draws1)) == dedup_spec(track_vertices(cfg2, draws2)),
{
}

} // verus!
