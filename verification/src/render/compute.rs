//! Sizes and decisions of the wind and indirect-argument compute dispatches.
use vstd::prelude::*;

verus! {

/// Threads per workgroup along each axis of the wind map compute shader.
pub const WIND_WORKGROUP_SIZE: u32 = 8;

/// Threads per workgroup of the indirect-argument compute shader.
pub const INDIRECT_WORKGROUP_SIZE: u32 = 64;

/// The number of workgroups of `workgroup_size` threads that cover `items`
/// items: `items / workgroup_size` rounded up.
pub fn workgroup_count(items: u32, workgroup_size: u32) -> (res: u32)
    requires
        workgroup_size > 0,
    ensures
        res * workgroup_size >= items,
        (res as int) * (workgroup_size as int) < items + workgroup_size,
        res == (items + workgroup_size - 1) / (workgroup_size as int),
{
    let q: u32 = items / workgroup_size;
    let r: u32 = items % workgroup_size;
    proof {
        assert(items == q * workgroup_size + r) by (nonlinear_arith)
            requires q == items / workgroup_size, r == items % workgroup_size, workgroup_size > 0;
    }
    if r == 0 {
        proof {
            assert(q == (items + workgroup_size - 1) / (workgroup_size as int)) by (nonlinear_arith)
                requires items == q * workgroup_size, workgroup_size > 0;
        }
        q
    } else {
        proof {
            assert(q + 1 == (items + workgroup_size - 1) / (workgroup_size as int)) by (nonlinear_arith)
                requires items == q * workgroup_size + r, 0 < r < workgroup_size;
            assert((q + 1) * workgroup_size == q * workgroup_size + workgroup_size) by (nonlinear_arith);
            assert(q * 2 <= items) by (nonlinear_arith)
                requires items == q * workgroup_size + r, 0 < r < workgroup_size, q >= 0;
        }
        q + 1
    }
}

/// The workgroups of the wind map compute pass for a texture of `width` by
/// `height` texels: enough 8 by 8 workgroups to cover every texel.
pub fn wind_workgroups(width: u32, height: u32) -> (res: (u32, u32))
    ensures
        res.0 == (width + 7) / 8,
        res.1 == (height + 7) / 8,
{
    (workgroup_count(width, WIND_WORKGROUP_SIZE), workgroup_count(height, WIND_WORKGROUP_SIZE))
}

/// The workgroups that build the indirect arguments of one level of detail:
/// `None` when its buffers are not all ready or it has no draws, else enough
/// 64-thread workgroups to cover every draw (never zero).
pub fn indirect_workgroups(buffers_ready: bool, draw_count: u32) -> (res: Option<u32>)
    ensures
        res == if buffers_ready && draw_count > 0 {
            Some(((draw_count + 63) / 64) as u32)
        } else {
            None
        },
        res matches Some(x) ==> x > 0,
{
    if buffers_ready && draw_count > 0 {
        Some(workgroup_count(draw_count, INDIRECT_WORKGROUP_SIZE))
    } else {
        None
    }
}

/// What the wind map compute pass does this frame.
#[derive(Clone, Copy, Debug, PartialEq, Eq, Structural)]
pub struct WindComputePlan {
    /// Make a new compute bind group.
    pub rebuild: bool,
    /// Run the compute pass.
    pub dispatch: bool,
}

/// Decides the wind map compute pass. Without the wind buffer or the wind
/// map's texture nothing happens. Otherwise the bind group is rebuilt when
/// there is none or the wind map or its size changed, and the pass runs when
/// the wind time changed or the bind group is rebuilt.
pub fn plan_wind_compute(
    time_changed: bool,
    buffer_ready: bool,
    texture_ready: bool,
    has_bind_group: bool,
    same_wind_map: bool,
    same_texture_size: bool,
) -> (res: WindComputePlan)
    ensures
        res.rebuild == (buffer_ready && texture_ready
            && !(has_bind_group && same_wind_map && same_texture_size)),
        res.dispatch == (buffer_ready && texture_ready && (time_changed || res.rebuild)),
{
    if !buffer_ready || !texture_ready {
        return WindComputePlan { rebuild: false, dispatch: false };
    }
    let rebuild = !has_bind_group || !same_wind_map || !same_texture_size;
    WindComputePlan { rebuild, dispatch: time_changed || rebuild }
}

} // verus!
