use bevy_procedural_grass::debug::{
    add_draw_call, add_drawn, add_missing_chunk_buffers, add_pipeline_creating, add_pipeline_error,
    add_pipeline_queued, add_pipeline_ready, add_pipeline_status, add_queued, add_set_grass_call,
    add_set_wind_call, begin_render_debug_frame, render_debug_snapshot, RenderDebugCounters,
    RenderDebugSnapshot,
};

fn bump_everything(c: &mut RenderDebugCounters) {
    add_queued(c, 3, 7);
    add_pipeline_status(c, true);
    add_pipeline_status(c, false);
    add_pipeline_queued(c);
    add_pipeline_creating(c);
    add_pipeline_ready(c);
    add_pipeline_error(c);
    add_set_grass_call(c, true);
    add_set_grass_call(c, false);
    add_set_wind_call(c);
    add_draw_call(c);
    add_drawn(c, 4, 400);
    add_missing_chunk_buffers(c, 2);
}

#[test]
fn new_counters_are_zero() {
    let c = RenderDebugCounters::new();
    assert_eq!(render_debug_snapshot(&c), RenderDebugSnapshot::default());
}

#[test]
fn every_event_lands_in_its_counters() {
    let mut c = RenderDebugCounters::new();
    bump_everything(&mut c);
    let s = render_debug_snapshot(&c);
    assert_eq!(
        s,
        RenderDebugSnapshot {
            queued_entities: 3,
            queued_chunk_handles: 7,
            pipeline_queued: 1,
            pipeline_creating: 1,
            pipeline_ready: 2,
            pipeline_pending: 3,
            pipeline_error: 1,
            set_grass_calls: 2,
            set_grass_missing: 1,
            set_wind_calls: 1,
            draw_calls: 1,
            drawn_chunks: 4,
            drawn_instances: 400,
            missing_chunk_buffers: 2,
        }
    );
}

#[test]
fn begin_frame_resets_every_counter() {
    let mut c = RenderDebugCounters::new();
    bump_everything(&mut c);
    begin_render_debug_frame(&mut c);
    assert_eq!(render_debug_snapshot(&c), RenderDebugSnapshot::default());
}

#[test]
fn counters_wrap_on_overflow() {
    let mut c = RenderDebugCounters::new();
    add_drawn(&mut c, u64::MAX, 5);
    add_drawn(&mut c, 2, u64::MAX);
    let s = render_debug_snapshot(&c);
    assert_eq!(s.drawn_chunks, 1);
    assert_eq!(s.drawn_instances, 4);
}

#[test]
fn two_drawn_batches_equal_their_sum() {
    let mut a = RenderDebugCounters::new();
    add_drawn(&mut a, 10, 20);
    add_drawn(&mut a, 5, 6);
    let mut b = RenderDebugCounters::new();
    add_drawn(&mut b, 15, 26);
    assert_eq!(render_debug_snapshot(&a), render_debug_snapshot(&b));
}

#[test]
fn events_commute() {
    let mut a = RenderDebugCounters::new();
    add_pipeline_queued(&mut a);
    add_queued(&mut a, 1, 2);
    let mut b = RenderDebugCounters::new();
    add_queued(&mut b, 1, 2);
    add_pipeline_queued(&mut b);
    assert_eq!(render_debug_snapshot(&a), render_debug_snapshot(&b));
}

#[test]
fn ready_status_counts_as_ready() {
    let mut a = RenderDebugCounters::new();
    add_pipeline_status(&mut a, true);
    let mut b = RenderDebugCounters::new();
    add_pipeline_ready(&mut b);
    assert_eq!(render_debug_snapshot(&a), render_debug_snapshot(&b));
}

#[test]
fn pending_counts_queued_creating_and_not_ready() {
    let mut c = RenderDebugCounters::new();
    add_pipeline_queued(&mut c);
    add_pipeline_queued(&mut c);
    add_pipeline_creating(&mut c);
    add_pipeline_status(&mut c, false);
    add_pipeline_status(&mut c, true);
    add_pipeline_ready(&mut c);
    assert_eq!(render_debug_snapshot(&c).pipeline_pending, 4);
}

#[test]
fn permuted_call_sequences_give_the_same_counters() {
    let mut a = RenderDebugCounters::new();
    add_drawn(&mut a, 3, 30);
    add_pipeline_status(&mut a, false);
    add_set_grass_call(&mut a, true);
    add_queued(&mut a, 2, 5);
    add_pipeline_creating(&mut a);
    let mut b = RenderDebugCounters::new();
    add_pipeline_creating(&mut b);
    add_queued(&mut b, 2, 5);
    add_pipeline_status(&mut b, false);
    add_set_grass_call(&mut b, true);
    add_drawn(&mut b, 3, 30);
    assert_eq!(render_debug_snapshot(&a), render_debug_snapshot(&b));
}

#[test]
fn frame_counts_follow_the_calls() {
    let mut c = RenderDebugCounters::new();
    begin_render_debug_frame(&mut c);
    for _ in 0..3 {
        add_pipeline_queued(&mut c);
    }
    for _ in 0..2 {
        add_pipeline_creating(&mut c);
    }
    add_pipeline_status(&mut c, false);
    for _ in 0..4 {
        add_pipeline_status(&mut c, true);
    }
    add_pipeline_ready(&mut c);
    let s = render_debug_snapshot(&c);
    assert_eq!(s.pipeline_queued, 3);
    assert_eq!(s.pipeline_creating, 2);
    assert_eq!(s.pipeline_pending, 6);
    assert_eq!(s.pipeline_ready, 5);
    assert!(s.pipeline_pending >= s.pipeline_queued + s.pipeline_creating);
}
