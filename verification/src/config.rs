use vstd::prelude::*;

use crate::geom::{MAX_DIM, MIN_DIM};

verus! {

/// Parameters of the random-walk strategy: the half-open range of the
/// x-decrement consumed per step, and the half-open range of the vertical
/// displacement added per step.  The proposed y-coordinate is then clamped
/// to the track's vertical interior, `[-(height - 3), height - 3]`.
#[derive(Clone, Copy, Debug)]
pub struct PointConfig {
    pub x_low: i64,
    pub x_high: i64,
    pub y_low: i64,
    pub y_high: i64,
}

impl PointConfig {
    /// The x-step range must have a positive lower bound — that is what
    /// makes every walk terminate — and both ranges must be non-empty and
    /// modest enough that the walk's arithmetic stays inside `i64`.
    pub open spec fn valid(self) -> bool {
        &&& 1 <= self.x_low < self.x_high <= MAX_DIM
        &&& -MAX_DIM <= self.y_low < self.y_high <= MAX_DIM
    }
}

impl Default for PointConfig {
    /// Steps of [0.1, 1.2) units leftward, displacements of [-0.5, 0.7) units.
    fn default() -> (c: PointConfig)
        ensures
            c == (PointConfig { x_low: 100, x_high: 1200, y_low: -500i64, y_high: 700 }),
            c.valid(),
    {
        PointConfig { x_low: 100, x_high: 1200, y_low: -500, y_high: 700 }
    }
}

/// Parameters of the spike-segment strategy: how many equal-width segments
/// the interior span is divided into, and the half-open range the apex
/// height of each spike is drawn from (negative values dip below the
/// floor, positive ones rise above it).
#[derive(Clone, Copy, Debug)]
pub struct SegmentConfig {
    pub num_segments: i64,
    pub spike_low: i64,
    pub spike_high: i64,
}

impl SegmentConfig {
    pub open spec fn valid(self) -> bool {
        &&& 1 <= self.num_segments <= MAX_DIM
        &&& -MAX_DIM <= self.spike_low < self.spike_high <= MAX_DIM
    }
}

impl Default for SegmentConfig {
    /// Forty segments, apex heights in [-0.4, 1.0) units.
    fn default() -> (c: SegmentConfig)
        ensures
            c == (SegmentConfig { num_segments: 40, spike_low: -400i64, spike_high: 1000 }),
            c.valid(),
    {
        SegmentConfig { num_segments: 40, spike_low: -400, spike_high: 1000 }
    }
}

/// The closed set of generation strategies; exactly one is selected per
/// track.
#[derive(Clone, Copy, Debug)]
pub enum TypeConfig {
    SegmentConfig(SegmentConfig),
    PointConfig(PointConfig),
}

impl TypeConfig {
    pub open spec fn valid(self) -> bool {
        match self {
            TypeConfig::SegmentConfig(sc) => sc.valid(),
            TypeConfig::PointConfig(pc) => pc.valid(),
        }
    }
}

/// Immutable description of one track: the envelope dimensions and the
/// selected generation strategy with its parameters.
#[derive(Clone, Copy, Debug)]
pub struct FlatTrackConfig {
    pub width: i64,
    pub height: i64,
    pub type_config: TypeConfig,
}

/// The default track: a 50-by-7-unit envelope with the random-walk floor.
pub open spec fn default_config() -> FlatTrackConfig {
    FlatTrackConfig {
        width: 50000,
        height: 7000,
        type_config: TypeConfig::PointConfig(
            PointConfig { x_low: 100, x_high: 1200, y_low: -500i64, y_high: 700 },
        ),
    }
}

impl FlatTrackConfig {
    /// Width and height large enough that the interior span and the
    /// vertical clamp interval are both non-degenerate, and small enough
    /// that no coordinate arithmetic can leave `i64`.
    pub open spec fn dims_valid(self) -> bool {
        &&& MIN_DIM <= self.width <= MAX_DIM
        &&& MIN_DIM <= self.height <= MAX_DIM
    }

    pub open spec fn valid(self) -> bool {
        self.dims_valid() && self.type_config.valid()
    }
}

impl Default for FlatTrackConfig {
    fn default() -> (c: FlatTrackConfig)
        ensures
            c == default_config(),
            c.valid(),
    {
        FlatTrackConfig {
            width: 50000,
            height: 7000,
            type_config: TypeConfig::PointConfig(PointConfig::default()),
        }
    }
}

} // verus!
