pub mod config;
pub mod dedup;
pub mod flat;
pub mod geom;
pub mod rng;
pub mod segments;
pub mod walk;
