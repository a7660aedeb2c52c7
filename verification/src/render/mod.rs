//! Render-side decisions: draw planning, indirect buffers, compute dispatches
//! and deferred lighting settings.
use vstd::prelude::*;

pub mod draw;
pub mod prepare;
pub mod compute;
pub mod deferred_lighting;

verus! {

/// Whether grass is drawn through indirect draw buffers.
#[derive(Clone, Copy, Debug, PartialEq, Eq, Structural)]
pub struct GrassIndirectSettings {
    pub enabled: bool,
}

impl Default for GrassIndirectSettings {
    /// Indirect drawing is on unless turned off.
    fn default() -> (res: Self)
        ensures
            res.enabled,
    {
        GrassIndirectSettings { enabled: true }
    }
}

/// What happens to a 3D camera's marker that turns off the engine's own
/// indirect drawing.
#[derive(Clone, Copy, Debug, PartialEq, Eq, Structural)]
pub enum CameraIndirectFlag {
    Keep,
    Insert,
}

/// The plugin puts the marker on every 3D camera, so that the grass's own
/// instanced draws work: a camera without it gets it, one with it keeps it.
pub fn camera_flag_action(has_flag: bool) -> (res: CameraIndirectFlag)
    ensures
        res == if has_flag { CameraIndirectFlag::Keep } else { CameraIndirectFlag::Insert },
{
    if has_flag { CameraIndirectFlag::Keep } else { CameraIndirectFlag::Insert }
}

} // verus!
