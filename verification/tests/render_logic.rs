use bevy_procedural_grass::grass::chunk::GrassLOD;
use bevy_procedural_grass::render::compute::{
    indirect_workgroups, plan_wind_compute, wind_workgroups, workgroup_count, WindComputePlan,
};
use bevy_procedural_grass::render::deferred_lighting::{
    debug_value_enabled, GrassDeferredLightingPassId, GrassDeferredLightingSettings,
    GRASS_DEFERRED_LIGHTING_PASS_ID,
};
use bevy_procedural_grass::render::draw::{plan_grass_draws, ChunkDrawInput, GrassDrawOp, MeshSlices};
use bevy_procedural_grass::render::prepare::{
    create_lod_draw_commands, indirect_buffers_action, indirect_buffers_stale, lod_mesh_info,
    uniform_buffer_update, wind_bind_group_stale, DrawIndexedIndirectCommand, DrawIndirectCommand,
    IndirectBuffersAction, LodChunk, LodDrawCommands, LodMeshInfo, UniformBufferUpdate,
};
use bevy_procedural_grass::render::{camera_flag_action, CameraIndirectFlag, GrassIndirectSettings};
use bevy_procedural_grass::ProceduralGrassPlugin;

fn indexed_mesh(vertex_start: u32, index_start: u32, count: u32) -> MeshSlices {
    MeshSlices { vertex_start, vertex_end: vertex_start + 10, index_count: Some(count), index_start: Some(index_start) }
}

fn plain_mesh(vertex_start: u32, vertex_end: u32) -> MeshSlices {
    MeshSlices { vertex_start, vertex_end, index_count: None, index_start: None }
}

fn chunk(lod: GrassLOD, instances: Option<usize>) -> ChunkDrawInput {
    ChunkDrawInput { lod, instances }
}

#[test]
fn draw_plan_rebinds_only_when_detail_changes() {
    let chunks = vec![
        chunk(GrassLOD::High, Some(5)),
        chunk(GrassLOD::High, Some(7)),
        chunk(GrassLOD::Low, Some(3)),
        chunk(GrassLOD::High, None),
        chunk(GrassLOD::High, Some(2)),
    ];
    let ops = plan_grass_draws(&chunks, Some(indexed_mesh(100, 40, 12)), Some(plain_mesh(8, 14))).unwrap();
    let hi = GrassDrawOp::DrawIndexed { first_index: 40, end_index: 52, base_vertex: 100, instance_count: 0 };
    let with = |op: GrassDrawOp, n: u32| match op {
        GrassDrawOp::DrawIndexed { first_index, end_index, base_vertex, .. } => {
            GrassDrawOp::DrawIndexed { first_index, end_index, base_vertex, instance_count: n }
        }
        other => other,
    };
    assert_eq!(
        ops,
        vec![
            GrassDrawOp::BindMeshVertices(GrassLOD::High),
            GrassDrawOp::BindMeshIndices(GrassLOD::High),
            GrassDrawOp::BindInstances(0),
            with(hi, 5),
            GrassDrawOp::BindInstances(1),
            with(hi, 7),
            GrassDrawOp::BindMeshVertices(GrassLOD::Low),
            GrassDrawOp::BindInstances(2),
            GrassDrawOp::Draw { first_vertex: 8, end_vertex: 14, instance_count: 3 },
            GrassDrawOp::BindMeshVertices(GrassLOD::High),
            GrassDrawOp::BindMeshIndices(GrassLOD::High),
            GrassDrawOp::BindInstances(4),
            with(hi, 2),
        ]
    );
}

#[test]
fn draw_plan_skips_without_high_mesh() {
    let chunks = vec![chunk(GrassLOD::Low, Some(5)), chunk(GrassLOD::High, Some(1))];
    assert_eq!(plan_grass_draws(&chunks, None, Some(plain_mesh(0, 3))), None);
}

#[test]
fn draw_plan_ignores_missing_low_mesh() {
    let chunks = vec![chunk(GrassLOD::Low, Some(5))];
    assert_eq!(plan_grass_draws(&chunks, None, None), Some(Vec::new()));
}

#[test]
fn draw_plan_stops_indexed_mesh_without_indices() {
    let broken = MeshSlices { vertex_start: 0, vertex_end: 4, index_count: Some(6), index_start: None };
    let chunks = vec![chunk(GrassLOD::High, Some(5))];
    assert_eq!(
        plan_grass_draws(&chunks, Some(broken), None),
        Some(vec![GrassDrawOp::BindMeshVertices(GrassLOD::High)])
    );
}

#[test]
fn mesh_info_for_each_kind_of_mesh() {
    assert_eq!(
        lod_mesh_info(indexed_mesh(100, 40, 12)),
        Some(LodMeshInfo { indexed: true, index_count: 12, first_index: 40, base_vertex: 100, vertex_count: 0, first_vertex: 0 })
    );
    assert_eq!(
        lod_mesh_info(plain_mesh(8, 14)),
        Some(LodMeshInfo { indexed: false, index_count: 0, first_index: 0, base_vertex: 0, vertex_count: 6, first_vertex: 8 })
    );
    let broken = MeshSlices { vertex_start: 0, vertex_end: 4, index_count: Some(6), index_start: None };
    assert_eq!(lod_mesh_info(broken), None);
}

#[test]
fn lod_commands_tile_instances() {
    let a = vec![1u8, 2, 3];
    let b: Vec<u8> = Vec::new();
    let c = vec![4u8, 5];
    let d = vec![9u8];
    let chunks = vec![
        LodChunk { lod: GrassLOD::High, data: Some(&a) },
        LodChunk { lod: GrassLOD::High, data: Some(&b) },
        LodChunk { lod: GrassLOD::Low, data: Some(&d) },
        LodChunk { lod: GrassLOD::High, data: None },
        LodChunk { lod: GrassLOD::High, data: Some(&c) },
    ];
    let info = LodMeshInfo { indexed: false, index_count: 0, first_index: 0, base_vertex: 0, vertex_count: 6, first_vertex: 8 };
    let res = create_lod_draw_commands(&chunks, GrassLOD::High, info);
    assert_eq!(res.instances, vec![1, 2, 3, 4, 5]);
    assert!(res.indexed.is_empty());
    assert_eq!(
        res.direct,
        vec![
            DrawIndirectCommand { vertex_count: 6, instance_count: 3, first_vertex: 8, first_instance: 0 },
            DrawIndirectCommand { vertex_count: 6, instance_count: 2, first_vertex: 8, first_instance: 3 },
        ]
    );
    assert!(!res.is_indexed());
    assert_eq!(res.draw_count(), 2);

    let info = LodMeshInfo { indexed: true, index_count: 12, first_index: 40, base_vertex: 100, vertex_count: 0, first_vertex: 0 };
    let res = create_lod_draw_commands(&chunks, GrassLOD::Low, info);
    assert_eq!(res.instances, vec![9]);
    assert!(res.direct.is_empty());
    assert_eq!(
        res.indexed,
        vec![DrawIndexedIndirectCommand { index_count: 12, instance_count: 1, first_index: 40, base_vertex: 100, first_instance: 0 }]
    );
    assert!(res.is_indexed());
    assert_eq!(res.draw_count(), 1);

    let empty: LodDrawCommands<u8> = LodDrawCommands::empty();
    assert_eq!(empty.draw_count(), 0);
    assert!(!empty.is_indexed());
}

#[test]
fn indirect_buffer_decisions() {
    assert_eq!(indirect_buffers_action(true, true, true, false), IndirectBuffersAction::Prepare);
    assert_eq!(indirect_buffers_action(false, true, true, true), IndirectBuffersAction::Remove);
    assert_eq!(indirect_buffers_action(true, false, true, false), IndirectBuffersAction::Skip);
    assert_eq!(indirect_buffers_action(true, true, false, true), IndirectBuffersAction::Remove);
    assert!(!indirect_buffers_stale(Some(42), 42));
    assert!(indirect_buffers_stale(Some(41), 42));
    assert!(indirect_buffers_stale(None, 42));
}

#[test]
fn uniform_and_bind_group_decisions() {
    assert_eq!(uniform_buffer_update(true, false), UniformBufferUpdate::Skip);
    assert_eq!(uniform_buffer_update(false, true), UniformBufferUpdate::Write);
    assert_eq!(uniform_buffer_update(false, false), UniformBufferUpdate::Create);
    assert!(!wind_bind_group_stale(true, true, true));
    assert!(wind_bind_group_stale(false, true, true));
    assert!(wind_bind_group_stale(true, false, true));
    assert!(wind_bind_group_stale(true, true, false));
}

#[test]
fn workgroups_round_up() {
    assert_eq!(workgroup_count(0, 64), 0);
    assert_eq!(workgroup_count(1, 64), 1);
    assert_eq!(workgroup_count(64, 64), 1);
    assert_eq!(workgroup_count(65, 64), 2);
    assert_eq!(workgroup_count(u32::MAX, 8), 536_870_912);
    assert_eq!(workgroup_count(u32::MAX, 1), u32::MAX);
    assert_eq!(wind_workgroups(1024, 1000), (128, 125));
    assert_eq!(indirect_workgroups(true, 130), Some(3));
    assert_eq!(indirect_workgroups(true, 0), None);
    assert_eq!(indirect_workgroups(false, 5), None);
}

#[test]
fn wind_compute_plan_cases() {
    assert_eq!(plan_wind_compute(true, false, true, true, true, true), WindComputePlan { rebuild: false, dispatch: false });
    assert_eq!(plan_wind_compute(true, true, false, true, true, true), WindComputePlan { rebuild: false, dispatch: false });
    assert_eq!(plan_wind_compute(false, true, true, true, true, true), WindComputePlan { rebuild: false, dispatch: false });
    assert_eq!(plan_wind_compute(true, true, true, true, true, true), WindComputePlan { rebuild: false, dispatch: true });
    assert_eq!(plan_wind_compute(false, true, true, false, true, true), WindComputePlan { rebuild: true, dispatch: true });
    assert_eq!(plan_wind_compute(false, true, true, true, false, true), WindComputePlan { rebuild: true, dispatch: true });
    assert_eq!(plan_wind_compute(false, true, true, true, true, false), WindComputePlan { rebuild: true, dispatch: true });
}

#[test]
fn deferred_pass_ids() {
    assert_eq!(GRASS_DEFERRED_LIGHTING_PASS_ID, 2);
    assert_eq!(GrassDeferredLightingSettings::default().pass_id, 2);
    assert_eq!(GrassDeferredLightingSettings::effective_pass_id(None), 2);
    assert_eq!(GrassDeferredLightingSettings::effective_pass_id(Some(GrassDeferredLightingSettings { pass_id: 9 })), 9);
    assert_eq!(GrassDeferredLightingPassId::default().depth_id(), 2);
    assert_eq!(GrassDeferredLightingPassId::new(200).depth_id(), 200);
    assert!(GrassDeferredLightingPassId::needs_update(None, 3));
    assert!(GrassDeferredLightingPassId::needs_update(Some(GrassDeferredLightingPassId::new(2)), 3));
    assert!(!GrassDeferredLightingPassId::needs_update(Some(GrassDeferredLightingPassId::new(3)), 3));
}

#[test]
fn debug_switch_values() {
    assert!(!debug_value_enabled(""));
    assert!(!debug_value_enabled("   "));
    assert!(!debug_value_enabled("0"));
    assert!(!debug_value_enabled(" FALSE "));
    assert!(!debug_value_enabled("Off"));
    assert!(!debug_value_enabled("\u{3000}off\u{2003}\n"));
    assert!(debug_value_enabled("1"));
    assert!(debug_value_enabled("true"));
    assert!(debug_value_enabled(" on "));
    assert!(debug_value_enabled("00"));
    assert!(debug_value_enabled("offf"));
    assert!(debug_value_enabled("\u{00C9}"));
}

#[test]
fn plugin_settings() {
    let p = ProceduralGrassPlugin::default();
    assert_eq!(p.performance_preset, None);
    assert!(p.indirect_draws);
    assert_eq!(p.deferred_lighting_pass_id, 2);
    assert_eq!(p.indirect_settings(), GrassIndirectSettings { enabled: true });
    assert_eq!(GrassIndirectSettings::default(), GrassIndirectSettings { enabled: true });
    let q = p.with_deferred_lighting_pass_id(0);
    assert_eq!(q.deferred_lighting_pass_id, 1);
    assert_eq!(p.with_deferred_lighting_pass_id(7).deferred_lighting_pass_id, 7);
    let r = ProceduralGrassPlugin { deferred_lighting_pass_id: 0, indirect_draws: false, ..p };
    assert_eq!(r.deferred_lighting_settings().pass_id, 1);
    assert_eq!(r.indirect_settings().enabled, false);
}

#[test]
fn every_camera_gets_the_no_indirect_marker() {
    assert_eq!(camera_flag_action(false), CameraIndirectFlag::Insert);
    assert_eq!(camera_flag_action(true), CameraIndirectFlag::Keep);
}

#[test]
fn pass_id_round_trips_through_depth_id() {
    assert_eq!(GrassDeferredLightingPassId::from_depth_id(77).depth_id(), 77);
    assert_eq!(GrassDeferredLightingPassId::from_depth_id(2), GrassDeferredLightingPassId::new(2));
}
