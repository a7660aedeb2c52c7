//! Decision logic of a procedural grass renderer: chunk culling plans,
//! instanced and indirect draw planning, compute dispatch sizing, performance
//! presets, deferred lighting pass ids and render debug counters.
use vstd::prelude::*;

pub mod debug;
pub mod grass;
pub mod render;

use crate::grass::performance::GrassPerformancePreset;
use crate::render::GrassIndirectSettings;
use crate::render::deferred_lighting::{GrassDeferredLightingSettings, GRASS_DEFERRED_LIGHTING_PASS_ID};

verus! {

/// The plugin's settings that decide how grass is rendered.
#[derive(Clone, Copy, Debug, PartialEq, Eq, Structural)]
pub struct ProceduralGrassPlugin {
    /// A preset applied to the grass configuration, wind and blades, if any.
    pub performance_preset: Option<GrassPerformancePreset>,
    /// Whether grass is drawn through indirect draw buffers.
    pub indirect_draws: bool,
    /// The deferred lighting pass id requested for grass.
    pub deferred_lighting_pass_id: u8,
}

impl Default for ProceduralGrassPlugin {
    fn default() -> (res: Self)
        ensures
            res.performance_preset is None,
            res.indirect_draws,
            res.deferred_lighting_pass_id == GRASS_DEFERRED_LIGHTING_PASS_ID,
    {
        ProceduralGrassPlugin {
            performance_preset: None,
            indirect_draws: true,
            deferred_lighting_pass_id: GRASS_DEFERRED_LIGHTING_PASS_ID,
        }
    }
}

/// A pass id raised to at least 1: 0 is the depth clear value of the deferred
/// lighting id texture, so no pass may use it.
pub open spec fn usable_pass_id(pass_id: u8) -> u8 {
    if pass_id < 1 { 1 } else { pass_id }
}

impl ProceduralGrassPlugin {
    /// Overrides the deferred lighting pass id used by grass in deferred mode.
    /// Values are clamped to at least `1` because `0` is reserved by the
    /// deferred-id depth clear.
    pub fn with_deferred_lighting_pass_id(self, pass_id: u8) -> (res: Self)
        ensures
            res == (ProceduralGrassPlugin { deferred_lighting_pass_id: usable_pass_id(pass_id), ..self }),
    {
        ProceduralGrassPlugin { deferred_lighting_pass_id: if pass_id < 1 { 1 } else { pass_id }, ..self }
    }

    /// The indirect drawing switch the render world receives.
    pub fn indirect_settings(&self) -> (res: GrassIndirectSettings)
        ensures
            res.enabled == self.indirect_draws,
    {
        GrassIndirectSettings { enabled: self.indirect_draws }
    }

    /// The deferred lighting pass id the render world receives: the requested
    /// one, raised to at least 1.
    pub fn deferred_lighting_settings(&self) -> (res: GrassDeferredLightingSettings)
        ensures
            res.pass_id == usable_pass_id(self.deferred_lighting_pass_id),
    {
        let p: u8 = self.deferred_lighting_pass_id;
        GrassDeferredLightingSettings { pass_id: if p < 1 { 1 } else { p } }
    }
}

/// Grass never lights with pass id 0, whatever id was requested; an id of 1
/// or more is kept as it is.
pub proof fn lemma_pass_id_never_zero(pass_id: u8)
    ensures
        usable_pass_id(pass_id) >= 1,
        pass_id >= 1 ==> usable_pass_id(pass_id) == pass_id,
        usable_pass_id(usable_pass_id(pass_id)) == usable_pass_id(pass_id),
{
}

} // verus!
