//! Performance presets: coherent tuning of culling, level of detail, wind
//! compute rate and far shading.
use vstd::prelude::*;

verus! {

/// A coherent set of tuning values, from the most detailed to the cheapest.
#[derive(Clone, Copy, Debug, PartialEq, Eq, Structural)]
pub enum GrassPerformancePreset {
    Quality,
    Balanced,
    Performance,
}

/// The culling and level-of-detail distances of a preset, in world units.
#[derive(Clone, Copy, Debug, PartialEq, Eq, Structural)]
pub struct PresetDistances {
    pub cull_distance: u32,
    pub lod_distance: u32,
    pub lod_transition: u32,
}

/// Where far shading of the blades starts and ends, in world units.
#[derive(Clone, Copy, Debug, PartialEq, Eq, Structural)]
pub struct PresetFarLod {
    pub far_lod_start: u32,
    pub far_lod_end: u32,
}

/// The distances each preset sets on the grass configuration.
pub open spec fn spec_distances(p: GrassPerformancePreset) -> PresetDistances {
    match p {
        GrassPerformancePreset::Quality => PresetDistances { cull_distance: 260, lod_distance: 130, lod_transition: 80 },
        GrassPerformancePreset::Balanced => PresetDistances { cull_distance: 200, lod_distance: 90, lod_transition: 50 },
        GrassPerformancePreset::Performance => PresetDistances { cull_distance: 160, lod_distance: 55, lod_transition: 25 },
    }
}

/// The rate, in updates per second, at which each preset runs the wind compute pass.
pub open spec fn spec_wind_update_hz(p: GrassPerformancePreset) -> u32 {
    match p {
        GrassPerformancePreset::Quality => 60,
        GrassPerformancePreset::Balanced => 30,
        GrassPerformancePreset::Performance => 20,
    }
}

/// The far shading range each preset sets on the blades.
pub open spec fn spec_far_lod(p: GrassPerformancePreset) -> PresetFarLod {
    match p {
        GrassPerformancePreset::Quality => PresetFarLod { far_lod_start: 110, far_lod_end: 190 },
        GrassPerformancePreset::Balanced => PresetFarLod { far_lod_start: 80, far_lod_end: 140 },
        GrassPerformancePreset::Performance => PresetFarLod { far_lod_start: 55, far_lod_end: 95 },
    }
}

impl GrassPerformancePreset {
    /// The most detailed preset.
    pub fn quality() -> (res: Self)
        ensures
            res == GrassPerformancePreset::Quality,
    {
        GrassPerformancePreset::Quality
    }

    /// The middle preset.
    pub fn balanced() -> (res: Self)
        ensures
            res == GrassPerformancePreset::Balanced,
    {
        GrassPerformancePreset::Balanced
    }

    /// The cheapest preset.
    pub fn performance() -> (res: Self)
        ensures
            res == GrassPerformancePreset::Performance,
    {
        GrassPerformancePreset::Performance
    }

    /// The cull distance, level-of-detail distance and transition band this
    /// preset puts in the grass configuration.
    pub fn distances(self) -> (res: PresetDistances)
        ensures
            res == spec_distances(self),
    {
        match self {
            GrassPerformancePreset::Quality => PresetDistances { cull_distance: 260, lod_distance: 130, lod_transition: 80 },
            GrassPerformancePreset::Balanced => PresetDistances { cull_distance: 200, lod_distance: 90, lod_transition: 50 },
            GrassPerformancePreset::Performance => PresetDistances { cull_distance: 160, lod_distance: 55, lod_transition: 25 },
        }
    }

    /// The wind compute update rate this preset puts in the wind settings.
    pub fn wind_update_hz(self) -> (res: u32)
        ensures
            res == spec_wind_update_hz(self),
    {
        match self {
            GrassPerformancePreset::Quality => 60,
            GrassPerformancePreset::Balanced => 30,
            GrassPerformancePreset::Performance => 20,
        }
    }

    /// The far shading range this preset puts on each grass entity's blades.
    pub fn far_lod(self) -> (res: PresetFarLod)
        ensures
            res == spec_far_lod(self),
    {
        match self {
            GrassPerformancePreset::Quality => PresetFarLod { far_lod_start: 110, far_lod_end: 190 },
            GrassPerformancePreset::Balanced => PresetFarLod { far_lod_start: 80, far_lod_end: 140 },
            GrassPerformancePreset::Performance => PresetFarLod { far_lod_start: 55, far_lod_end: 95 },
        }
    }
}

/// Every preset stays within the recommended tuning ranges: cull distance
/// 140 to 300, level-of-detail distance 40 to 160 and below the cull distance,
/// transition band at most 100, wind compute rate 20 to 60 per second, far
/// shading start 50 to 120 and end 90 to 220, with the end past the start.
pub proof fn lemma_presets_within_recommended_ranges(p: GrassPerformancePreset)
    ensures
        140 <= spec_distances(p).cull_distance <= 300,
        40 <= spec_distances(p).lod_distance <= 160,
        spec_distances(p).lod_distance < spec_distances(p).cull_distance,
        spec_distances(p).lod_transition <= 100,
        20 <= spec_wind_update_hz(p) <= 60,
        50 <= spec_far_lod(p).far_lod_start <= 120,
        90 <= spec_far_lod(p).far_lod_end <= 220,
        spec_far_lod(p).far_lod_start < spec_far_lod(p).far_lod_end,
{
}

/// Each preset is at least as detailed as the next cheaper one in every value.
pub proof fn lemma_presets_ordered_by_cost()
    ensures
        forall|a: GrassPerformancePreset, b: GrassPerformancePreset| #[trigger] preset_rank(a) <= #[trigger] preset_rank(b) ==> {
            &&& spec_distances(a).cull_distance >= spec_distances(b).cull_distance
            &&& spec_distances(a).lod_distance >= spec_distances(b).lod_distance
            &&& spec_distances(a).lod_transition >= spec_distances(b).lod_transition
            &&& spec_wind_update_hz(a) >= spec_wind_update_hz(b)
            &&& spec_far_lod(a).far_lod_start >= spec_far_lod(b).far_lod_start
            &&& spec_far_lod(a).far_lod_end >= spec_far_lod(b).far_lod_end
        },
{
}

/// The order of the presets from the most detailed (0) to the cheapest (2).
pub open spec fn preset_rank(p: GrassPerformancePreset) -> int {
    match p {
        GrassPerformancePreset::Quality => 0,
        GrassPerformancePreset::Balanced => 1,
        GrassPerformancePreset::Performance => 2,
    }
}

} // verus!
