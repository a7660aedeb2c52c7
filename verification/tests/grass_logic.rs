use bevy_procedural_grass::grass::chunk::{
    plan_chunk_render, ChunkRange, ChunkRender, CullDimension, GrassLOD,
};
use bevy_procedural_grass::grass::grass::mesh_triangles;
use bevy_procedural_grass::grass::interaction::{select_interactor_slots, MAX_GRASS_INTERACTORS};
use bevy_procedural_grass::grass::performance::{GrassPerformancePreset, PresetDistances, PresetFarLod};

fn high(chunk: usize) -> ChunkRender {
    ChunkRender { lod: GrassLOD::High, chunk }
}

fn low(chunk: usize) -> ChunkRender {
    ChunkRender { lod: GrassLOD::Low, chunk }
}

#[test]
fn cull_dimension_defaults_to_horizontal() {
    assert_eq!(CullDimension::default(), CullDimension::D2);
}

#[test]
fn without_camera_every_chunk_is_high() {
    let plan = plan_chunk_render(3, None);
    assert_eq!(plan.render, vec![high(0), high(1), high(2)]);
    assert!(plan.unload.is_empty());
}

#[test]
fn no_chunks_renders_nothing() {
    let ranges: Vec<ChunkRange> = Vec::new();
    let plan = plan_chunk_render(0, Some(&ranges));
    assert!(plan.render.is_empty());
    assert!(plan.unload.is_empty());
    assert!(plan_chunk_render(0, None).render.is_empty());
}

#[test]
fn camera_culls_and_picks_detail() {
    let ranges = vec![ChunkRange::Near, ChunkRange::Culled, ChunkRange::Far, ChunkRange::Near];
    let plan = plan_chunk_render(4, Some(&ranges));
    assert_eq!(plan.render, vec![high(0), low(2), high(3)]);
    assert_eq!(plan.unload, vec![1]);
}

#[test]
fn all_culled_falls_back_to_every_chunk_high() {
    let ranges = vec![ChunkRange::Culled, ChunkRange::Culled];
    let plan = plan_chunk_render(2, Some(&ranges));
    assert_eq!(plan.render, vec![high(0), high(1)]);
    assert_eq!(plan.unload, vec![0, 1]);
}

#[test]
fn indexed_triangles_drop_partial_triple() {
    let idx = vec![0, 1, 2, 2, 1, 3, 4, 5];
    assert_eq!(mesh_triangles(Some(&idx), 6), vec![(0, 1, 2), (2, 1, 3)]);
}

#[test]
fn unindexed_triangles_take_vertices_in_threes() {
    assert_eq!(mesh_triangles(None, 7), vec![(0, 1, 2), (3, 4, 5)]);
    assert!(mesh_triangles(None, 2).is_empty());
}

#[test]
fn interactor_slots_skip_inactive() {
    let active = vec![true, false, true, false, true];
    assert_eq!(select_interactor_slots(&active), vec![0, 2, 4]);
}

#[test]
fn interactor_slots_stop_when_full() {
    let mut active = vec![false; 3];
    active.extend(vec![true; 40]);
    let slots = select_interactor_slots(&active);
    assert_eq!(slots.len(), MAX_GRASS_INTERACTORS);
    assert_eq!(slots, (3..35).collect::<Vec<usize>>());
}

#[test]
fn preset_constructors() {
    assert_eq!(GrassPerformancePreset::quality(), GrassPerformancePreset::Quality);
    assert_eq!(GrassPerformancePreset::balanced(), GrassPerformancePreset::Balanced);
    assert_eq!(GrassPerformancePreset::performance(), GrassPerformancePreset::Performance);
}

#[test]
fn preset_values() {
    assert_eq!(
        GrassPerformancePreset::Quality.distances(),
        PresetDistances { cull_distance: 260, lod_distance: 130, lod_transition: 80 }
    );
    assert_eq!(
        GrassPerformancePreset::Balanced.distances(),
        PresetDistances { cull_distance: 200, lod_distance: 90, lod_transition: 50 }
    );
    assert_eq!(
        GrassPerformancePreset::Performance.distances(),
        PresetDistances { cull_distance: 160, lod_distance: 55, lod_transition: 25 }
    );
    assert_eq!(GrassPerformancePreset::Quality.wind_update_hz(), 60);
    assert_eq!(GrassPerformancePreset::Balanced.wind_update_hz(), 30);
    assert_eq!(GrassPerformancePreset::Performance.wind_update_hz(), 20);
    assert_eq!(GrassPerformancePreset::Quality.far_lod(), PresetFarLod { far_lod_start: 110, far_lod_end: 190 });
    assert_eq!(GrassPerformancePreset::Balanced.far_lod(), PresetFarLod { far_lod_start: 80, far_lod_end: 140 });
    assert_eq!(GrassPerformancePreset::Performance.far_lod(), PresetFarLod { far_lod_start: 55, far_lod_end: 95 });
}

#[test]
fn presets_stay_in_recommended_ranges() {
    for p in [GrassPerformancePreset::Quality, GrassPerformancePreset::Balanced, GrassPerformancePreset::Performance] {
        let d = p.distances();
        assert!((140..=300).contains(&d.cull_distance));
        assert!((40..=160).contains(&d.lod_distance));
        assert!(d.lod_distance < d.cull_distance);
        assert!(d.lod_transition <= 100);
        assert!((20..=60).contains(&p.wind_update_hz()));
        let f = p.far_lod();
        assert!((50..=120).contains(&f.far_lod_start));
        assert!((90..=220).contains(&f.far_lod_end));
        assert!(f.far_lod_start < f.far_lod_end);
    }
}

#[test]
fn presets_get_cheaper_in_order() {
    let q = GrassPerformancePreset::Quality;
    let b = GrassPerformancePreset::Balanced;
    let p = GrassPerformancePreset::Performance;
    for (a, c) in [(q, b), (b, p), (q, p)] {
        assert!(a.distances().cull_distance >= c.distances().cull_distance);
        assert!(a.distances().lod_distance >= c.distances().lod_distance);
        assert!(a.distances().lod_transition >= c.distances().lod_transition);
        assert!(a.wind_update_hz() >= c.wind_update_hz());
        assert!(a.far_lod().far_lod_start >= c.far_lod().far_lod_start);
        assert!(a.far_lod().far_lod_end >= c.far_lod().far_lod_end);
    }
}
