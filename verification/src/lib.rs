use vstd::prelude::*;

pub mod jumphash;
pub mod lane;
pub mod light_adapt;
pub mod lru;
pub mod map_match;
pub mod marketplace;
pub mod mesh;
pub mod metrics;
pub mod micro_nav;
pub mod migration;
pub mod ml;
pub mod monitoring;
pub mod multimodal;
pub mod noise_map;
pub mod observability;
pub mod notifications;
pub mod offline;
pub mod osm_import;
pub mod parking;
pub mod parking_nav;
pub mod perf;
pub mod pipeline;
pub mod plugins;
pub mod prioritymap;
pub mod profile;
pub mod text;
pub mod types;

verus! {
} // verus!
