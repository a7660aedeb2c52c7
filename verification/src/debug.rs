//! Per-frame render debug counters.
use vstd::prelude::*;
use vstd::wrapping::u64_specs::wrapping_add;

verus! {

/// A copy of every render debug counter at one moment.
#[derive(Clone, Copy, Debug, Default, PartialEq, Eq)]
pub struct RenderDebugSnapshot {
    pub queued_entities: u64,
    pub queued_chunk_handles: u64,
    pub pipeline_queued: u64,
    pub pipeline_creating: u64,
    pub pipeline_ready: u64,
    pub pipeline_pending: u64,
    pub pipeline_error: u64,
    pub set_grass_calls: u64,
    pub set_grass_missing: u64,
    pub set_wind_calls: u64,
    pub draw_calls: u64,
    pub drawn_chunks: u64,
    pub drawn_instances: u64,
    pub missing_chunk_buffers: u64,
}

/// The snapshot in which every counter is zero.
pub open spec fn zero_snapshot() -> RenderDebugSnapshot {
    RenderDebugSnapshot {
        queued_entities: 0,
        queued_chunk_handles: 0,
        pipeline_queued: 0,
        pipeline_creating: 0,
        pipeline_ready: 0,
        pipeline_pending: 0,
        pipeline_error: 0,
        set_grass_calls: 0,
        set_grass_missing: 0,
        set_wind_calls: 0,
        draw_calls: 0,
        drawn_chunks: 0,
        drawn_instances: 0,
        missing_chunk_buffers: 0,
    }
}

/// One thing that the render systems record.
pub enum RenderDebugEvent {
    /// Entities and chunk handles queued for drawing.
    Queued(u64, u64),
    /// A pipeline was looked up: ready (`true`) or still pending (`false`).
    PipelineStatus(bool),
    /// A pipeline was queued for compilation.
    PipelineQueued,
    /// A pipeline is being created.
    PipelineCreating,
    /// A pipeline became ready.
    PipelineReady,
    /// A pipeline failed.
    PipelineError,
    /// The grass bind group was set; `true` when it was missing.
    SetGrassCall(bool),
    /// The wind bind group was set.
    SetWindCall,
    /// A draw command ran.
    DrawCall,
    /// Chunks and instances were drawn.
    Drawn(u64, u64),
    /// Chunk buffers were missing.
    MissingChunkBuffers(u64),
}

/// The counters after one event: each counter that the event names grows by its
/// amount, modulo 2^64; every other counter stays as it was.
pub open spec fn apply_event(s: RenderDebugSnapshot, e: RenderDebugEvent) -> RenderDebugSnapshot {
    match e {
        RenderDebugEvent::Queued(entities, chunk_handles) => RenderDebugSnapshot {
            queued_entities: wrapping_add(s.queued_entities, entities),
            queued_chunk_handles: wrapping_add(s.queued_chunk_handles, chunk_handles),
            ..s
        },
        RenderDebugEvent::PipelineStatus(ready) => if ready {
            RenderDebugSnapshot { pipeline_ready: wrapping_add(s.pipeline_ready, 1), ..s }
        } else {
            RenderDebugSnapshot { pipeline_pending: wrapping_add(s.pipeline_pending, 1), ..s }
        },
        RenderDebugEvent::PipelineQueued => RenderDebugSnapshot {
            pipeline_queued: wrapping_add(s.pipeline_queued, 1),
            pipeline_pending: wrapping_add(s.pipeline_pending, 1),
            ..s
        },
        RenderDebugEvent::PipelineCreating => RenderDebugSnapshot {
            pipeline_creating: wrapping_add(s.pipeline_creating, 1),
            pipeline_pending: wrapping_add(s.pipeline_pending, 1),
            ..s
        },
        RenderDebugEvent::PipelineReady => RenderDebugSnapshot {
            pipeline_ready: wrapping_add(s.pipeline_ready, 1),
            ..s
        },
        RenderDebugEvent::PipelineError => RenderDebugSnapshot {
            pipeline_error: wrapping_add(s.pipeline_error, 1),
            ..s
        },
        RenderDebugEvent::SetGrassCall(missing) => if missing {
            RenderDebugSnapshot {
                set_grass_calls: wrapping_add(s.set_grass_calls, 1),
                set_grass_missing: wrapping_add(s.set_grass_missing, 1),
                ..s
            }
        } else {
            RenderDebugSnapshot { set_grass_calls: wrapping_add(s.set_grass_calls, 1), ..s }
        },
        RenderDebugEvent::SetWindCall => RenderDebugSnapshot {
            set_wind_calls: wrapping_add(s.set_wind_calls, 1),
            ..s
        },
        RenderDebugEvent::DrawCall => RenderDebugSnapshot {
            draw_calls: wrapping_add(s.draw_calls, 1),
            ..s
        },
        RenderDebugEvent::Drawn(chunks, instances) => RenderDebugSnapshot {
            drawn_chunks: wrapping_add(s.drawn_chunks, chunks),
            drawn_instances: wrapping_add(s.drawn_instances, instances),
            ..s
        },
        RenderDebugEvent::MissingChunkBuffers(count) => RenderDebugSnapshot {
            missing_chunk_buffers: wrapping_add(s.missing_chunk_buffers, count),
            ..s
        },
    }
}

/// The counters after a sequence of events, applied in order.
pub open spec fn apply_events(s: RenderDebugSnapshot, events: Seq<RenderDebugEvent>) -> RenderDebugSnapshot
    decreases events.len(),
{
    if events.len() == 0 {
        s
    } else {
        apply_event(apply_events(s, events.drop_last()), events.last())
    }
}

/// The counters that the render systems bump while a frame is prepared and drawn.
/// Each counter wraps around on overflow, as an atomic `fetch_add` does.
pub struct RenderDebugCounters {
    counts: RenderDebugSnapshot,
}

impl View for RenderDebugCounters {
    type V = RenderDebugSnapshot;

    closed spec fn view(&self) -> RenderDebugSnapshot {
        self.counts
    }
}

fn zeroed() -> (res: RenderDebugSnapshot)
    ensures
        res == zero_snapshot(),
{
    RenderDebugSnapshot {
        queued_entities: 0,
        queued_chunk_handles: 0,
        pipeline_queued: 0,
        pipeline_creating: 0,
        pipeline_ready: 0,
        pipeline_pending: 0,
        pipeline_error: 0,
        set_grass_calls: 0,
        set_grass_missing: 0,
        set_wind_calls: 0,
        draw_calls: 0,
        drawn_chunks: 0,
        drawn_instances: 0,
        missing_chunk_buffers: 0,
    }
}

impl RenderDebugCounters {
    /// Counters that all start at zero.
    pub fn new() -> (res: Self)
        ensures
            res@ == zero_snapshot(),
    {
        RenderDebugCounters { counts: zeroed() }
    }
}

/// Resets every counter to zero at the start of a render frame.
pub fn begin_render_debug_frame(counters: &mut RenderDebugCounters)
    ensures
        final(counters)@ == zero_snapshot(),
{
    counters.counts = zeroed();
}

/// Adds to the queued entity and queued chunk handle counters.
pub fn add_queued(counters: &mut RenderDebugCounters, entities: u64, chunk_handles: u64)
    ensures
        final(counters)@ == apply_event(old(counters)@, RenderDebugEvent::Queued(entities, chunk_handles)),
        final(counters)@ == (RenderDebugSnapshot {
            queued_entities: wrapping_add(old(counters)@.queued_entities, entities),
            queued_chunk_handles: wrapping_add(old(counters)@.queued_chunk_handles, chunk_handles),
            ..old(counters)@
        }),
{
    counters.counts.queued_entities = counters.counts.queued_entities.wrapping_add(entities);
    counters.counts.queued_chunk_handles = counters.counts.queued_chunk_handles.wrapping_add(chunk_handles);
}

/// Counts a pipeline lookup: as ready when `ready`, else as pending.
pub fn add_pipeline_status(counters: &mut RenderDebugCounters, ready: bool)
    ensures
        final(counters)@ == apply_event(old(counters)@, RenderDebugEvent::PipelineStatus(ready)),
        ready ==> final(counters)@ == (RenderDebugSnapshot { pipeline_ready: wrapping_add(old(counters)@.pipeline_ready, 1), ..old(counters)@ }),
        !ready ==> final(counters)@ == (RenderDebugSnapshot { pipeline_pending: wrapping_add(old(counters)@.pipeline_pending, 1), ..old(counters)@ }),
{
    if ready {
        counters.counts.pipeline_ready = counters.counts.pipeline_ready.wrapping_add(1);
    } else {
        counters.counts.pipeline_pending = counters.counts.pipeline_pending.wrapping_add(1);
    }
}

/// Counts a queued pipeline, which is also pending.
pub fn add_pipeline_queued(counters: &mut RenderDebugCounters)
    ensures
        final(counters)@ == apply_event(old(counters)@, RenderDebugEvent::PipelineQueued),
        final(counters)@ == (RenderDebugSnapshot {
            pipeline_queued: wrapping_add(old(counters)@.pipeline_queued, 1),
            pipeline_pending: wrapping_add(old(counters)@.pipeline_pending, 1),
            ..old(counters)@
        }),
{
    counters.counts.pipeline_queued = counters.counts.pipeline_queued.wrapping_add(1);
    counters.counts.pipeline_pending = counters.counts.pipeline_pending.wrapping_add(1);
}

/// Counts a pipeline being created, which is also pending.
pub fn add_pipeline_creating(counters: &mut RenderDebugCounters)
    ensures
        final(counters)@ == apply_event(old(counters)@, RenderDebugEvent::PipelineCreating),
        final(counters)@ == (RenderDebugSnapshot {
            pipeline_creating: wrapping_add(old(counters)@.pipeline_creating, 1),
            pipeline_pending: wrapping_add(old(counters)@.pipeline_pending, 1),
            ..old(counters)@
        }),
{
    counters.counts.pipeline_creating = counters.counts.pipeline_creating.wrapping_add(1);
    counters.counts.pipeline_pending = counters.counts.pipeline_pending.wrapping_add(1);
}

/// Counts a ready pipeline.
pub fn add_pipeline_ready(counters: &mut RenderDebugCounters)
    ensures
        final(counters)@ == apply_event(old(counters)@, RenderDebugEvent::PipelineReady),
        final(counters)@ == (RenderDebugSnapshot { pipeline_ready: wrapping_add(old(counters)@.pipeline_ready, 1), ..old(counters)@ }),
{
    counters.counts.pipeline_ready = counters.counts.pipeline_ready.wrapping_add(1);
}

/// Counts a failed pipeline.
pub fn add_pipeline_error(counters: &mut RenderDebugCounters)
    ensures
        final(counters)@ == apply_event(old(counters)@, RenderDebugEvent::PipelineError),
        final(counters)@ == (RenderDebugSnapshot { pipeline_error: wrapping_add(old(counters)@.pipeline_error, 1), ..old(counters)@ }),
{
    counters.counts.pipeline_error = counters.counts.pipeline_error.wrapping_add(1);
}

/// Counts a grass bind group call, and a missing bind group when `missing`.
pub fn add_set_grass_call(counters: &mut RenderDebugCounters, missing: bool)
    ensures
        final(counters)@ == apply_event(old(counters)@, RenderDebugEvent::SetGrassCall(missing)),
        missing ==> final(counters)@ == (RenderDebugSnapshot {
            set_grass_calls: wrapping_add(old(counters)@.set_grass_calls, 1),
            set_grass_missing: wrapping_add(old(counters)@.set_grass_missing, 1),
            ..old(counters)@
        }),
        !missing ==> final(counters)@ == (RenderDebugSnapshot { set_grass_calls: wrapping_add(old(counters)@.set_grass_calls, 1), ..old(counters)@ }),
{
    counters.counts.set_grass_calls = counters.counts.set_grass_calls.wrapping_add(1);
    if missing {
        counters.counts.set_grass_missing = counters.counts.set_grass_missing.wrapping_add(1);
    }
}

/// Counts a wind bind group call.
pub fn add_set_wind_call(counters: &mut RenderDebugCounters)
    ensures
        final(counters)@ == apply_event(old(counters)@, RenderDebugEvent::SetWindCall),
        final(counters)@ == (RenderDebugSnapshot { set_wind_calls: wrapping_add(old(counters)@.set_wind_calls, 1), ..old(counters)@ }),
{
    counters.counts.set_wind_calls = counters.counts.set_wind_calls.wrapping_add(1);
}

/// Counts a draw command.
pub fn add_draw_call(counters: &mut RenderDebugCounters)
    ensures
        final(counters)@ == apply_event(old(counters)@, RenderDebugEvent::DrawCall),
        final(counters)@ == (RenderDebugSnapshot { draw_calls: wrapping_add(old(counters)@.draw_calls, 1), ..old(counters)@ }),
{
    counters.counts.draw_calls = counters.counts.draw_calls.wrapping_add(1);
}

/// Adds to the drawn chunk and drawn instance counters.
pub fn add_drawn(counters: &mut RenderDebugCounters, chunks: u64, instances: u64)
    ensures
        final(counters)@ == apply_event(old(counters)@, RenderDebugEvent::Drawn(chunks, instances)),
        final(counters)@ == (RenderDebugSnapshot {
            drawn_chunks: wrapping_add(old(counters)@.drawn_chunks, chunks),
            drawn_instances: wrapping_add(old(counters)@.drawn_instances, instances),
            ..old(counters)@
        }),
{
    counters.counts.drawn_chunks = counters.counts.drawn_chunks.wrapping_add(chunks);
    counters.counts.drawn_instances = counters.counts.drawn_instances.wrapping_add(instances);
}

/// Adds to the missing chunk buffer counter.
pub fn add_missing_chunk_buffers(counters: &mut RenderDebugCounters, count: u64)
    ensures
        final(counters)@ == apply_event(old(counters)@, RenderDebugEvent::MissingChunkBuffers(count)),
        final(counters)@ == (RenderDebugSnapshot { missing_chunk_buffers: wrapping_add(old(counters)@.missing_chunk_buffers, count), ..old(counters)@ }),
{
    counters.counts.missing_chunk_buffers = counters.counts.missing_chunk_buffers.wrapping_add(count);
}

/// Reads every counter.
pub fn render_debug_snapshot(counters: &RenderDebugCounters) -> (res: RenderDebugSnapshot)
    ensures
        res == counters@,
{
    counters.counts
}

proof fn lemma_wrapping_add_swap(x: u64, a: u64, b: u64)
    ensures
        wrapping_add(wrapping_add(x, a), b) == wrapping_add(wrapping_add(x, b), a),
{
}

proof fn lemma_wrapping_add_assoc(x: u64, a: u64, b: u64)
    ensures
        wrapping_add(wrapping_add(x, a), b) == wrapping_add(x, wrapping_add(a, b)),
{
}

/// The counters do not depend on the order in which two events are recorded.
pub proof fn lemma_events_commute(s: RenderDebugSnapshot, a: RenderDebugEvent, b: RenderDebugEvent)
    ensures
        apply_event(apply_event(s, a), b) == apply_event(apply_event(s, b), a),
{
    assert forall|x: u64, p: u64, q: u64|
        wrapping_add(wrapping_add(x, p), q) == #[trigger] wrapping_add(wrapping_add(x, q), p) by {
        lemma_wrapping_add_swap(x, p, q);
    }
}

/// Recording two batches of drawn chunks and instances is the same as recording
/// their (wrapping) sums at once.
pub proof fn lemma_drawn_batches_add(s: RenderDebugSnapshot, c1: u64, i1: u64, c2: u64, i2: u64)
    ensures
        apply_event(apply_event(s, RenderDebugEvent::Drawn(c1, i1)), RenderDebugEvent::Drawn(c2, i2))
            == apply_event(s, RenderDebugEvent::Drawn(wrapping_add(c1, c2), wrapping_add(i1, i2))),
{
    lemma_wrapping_add_assoc(s.drawn_chunks, c1, c2);
    lemma_wrapping_add_assoc(s.drawn_instances, i1, i2);
}

/// Recording two batches of queued entities and chunk handles is the same as
/// recording their (wrapping) sums at once.
pub proof fn lemma_queued_batches_add(s: RenderDebugSnapshot, e1: u64, h1: u64, e2: u64, h2: u64)
    ensures
        apply_event(apply_event(s, RenderDebugEvent::Queued(e1, h1)), RenderDebugEvent::Queued(e2, h2))
            == apply_event(s, RenderDebugEvent::Queued(wrapping_add(e1, e2), wrapping_add(h1, h2))),
{
    lemma_wrapping_add_assoc(s.queued_entities, e1, e2);
    lemma_wrapping_add_assoc(s.queued_chunk_handles, h1, h2);
}

/// A ready pipeline status counts exactly as a ready pipeline does.
pub proof fn lemma_ready_status_is_ready(s: RenderDebugSnapshot)
    ensures
        apply_event(s, RenderDebugEvent::PipelineStatus(true)) == apply_event(s, RenderDebugEvent::PipelineReady),
{
}

/// The counter at position `k` (0 to 13, in declaration order) of a snapshot.
pub open spec fn counter(s: RenderDebugSnapshot, k: int) -> u64 {
    if k == 0 {
        s.queued_entities
    } else if k == 1 {
        s.queued_chunk_handles
    } else if k == 2 {
        s.pipeline_queued
    } else if k == 3 {
        s.pipeline_creating
    } else if k == 4 {
        s.pipeline_ready
    } else if k == 5 {
        s.pipeline_pending
    } else if k == 6 {
        s.pipeline_error
    } else if k == 7 {
        s.set_grass_calls
    } else if k == 8 {
        s.set_grass_missing
    } else if k == 9 {
        s.set_wind_calls
    } else if k == 10 {
        s.draw_calls
    } else if k == 11 {
        s.drawn_chunks
    } else if k == 12 {
        s.drawn_instances
    } else {
        s.missing_chunk_buffers
    }
}

/// How much an event adds to the counter at position `k`.
pub open spec fn increment(e: RenderDebugEvent, k: int) -> u64 {
    match e {
        RenderDebugEvent::Queued(entities, chunk_handles) =>
            if k == 0 { entities } else if k == 1 { chunk_handles } else { 0 },
        RenderDebugEvent::PipelineStatus(ready) =>
            if (ready && k == 4) || (!ready && k == 5) { 1 } else { 0 },
        RenderDebugEvent::PipelineQueued => if k == 2 || k == 5 { 1 } else { 0 },
        RenderDebugEvent::PipelineCreating => if k == 3 || k == 5 { 1 } else { 0 },
        RenderDebugEvent::PipelineReady => if k == 4 { 1 } else { 0 },
        RenderDebugEvent::PipelineError => if k == 6 { 1 } else { 0 },
        RenderDebugEvent::SetGrassCall(missing) =>
            if k == 7 || (missing && k == 8) { 1 } else { 0 },
        RenderDebugEvent::SetWindCall => if k == 9 { 1 } else { 0 },
        RenderDebugEvent::DrawCall => if k == 10 { 1 } else { 0 },
        RenderDebugEvent::Drawn(chunks, instances) =>
            if k == 11 { chunks } else if k == 12 { instances } else { 0 },
        RenderDebugEvent::MissingChunkBuffers(count) => if k == 13 { count } else { 0 },
    }
}

/// The total that a sequence of events adds to the counter at position `k`,
/// without wrapping.
pub open spec fn total(events: Seq<RenderDebugEvent>, k: int) -> int
    decreases events.len(),
{
    if events.len() == 0 {
        0
    } else {
        total(events.drop_last(), k) + increment(events.last(), k)
    }
}

/// The number of times `e` occurs in `events`.
pub open spec fn occurrences(events: Seq<RenderDebugEvent>, e: RenderDebugEvent) -> nat
    decreases events.len(),
{
    if events.len() == 0 {
        0
    } else {
        occurrences(events.drop_last(), e) + if events.last() == e { 1nat } else { 0nat }
    }
}

/// 2^64, the modulus of the wrapping counters.
pub open spec fn counter_modulus() -> int {
    0x1_0000_0000_0000_0000
}

proof fn lemma_apply_event_counter(s: RenderDebugSnapshot, e: RenderDebugEvent, k: int)
    requires
        0 <= k < 14,
    ensures
        counter(apply_event(s, e), k) == wrapping_add(counter(s, k), increment(e, k)),
{
}

proof fn lemma_wrapping_add_mod(x: u64, y: u64)
    ensures
        wrapping_add(x, y) as int == (x + y) % counter_modulus(),
{
}

proof fn lemma_snapshot_ext(a: RenderDebugSnapshot, b: RenderDebugSnapshot)
    requires
        forall|k: int| 0 <= k < 14 ==> #[trigger] counter(a, k) == counter(b, k),
    ensures
        a == b,
{
    assert(a.queued_entities == counter(a, 0) && b.queued_entities == counter(b, 0));
    assert(a.queued_chunk_handles == counter(a, 1) && b.queued_chunk_handles == counter(b, 1));
    assert(a.pipeline_queued == counter(a, 2) && b.pipeline_queued == counter(b, 2));
    assert(a.pipeline_creating == counter(a, 3) && b.pipeline_creating == counter(b, 3));
    assert(a.pipeline_ready == counter(a, 4) && b.pipeline_ready == counter(b, 4));
    assert(a.pipeline_pending == counter(a, 5) && b.pipeline_pending == counter(b, 5));
    assert(a.pipeline_error == counter(a, 6) && b.pipeline_error == counter(b, 6));
    assert(a.set_grass_calls == counter(a, 7) && b.set_grass_calls == counter(b, 7));
    assert(a.set_grass_missing == counter(a, 8) && b.set_grass_missing == counter(b, 8));
    assert(a.set_wind_calls == counter(a, 9) && b.set_wind_calls == counter(b, 9));
    assert(a.draw_calls == counter(a, 10) && b.draw_calls == counter(b, 10));
    assert(a.drawn_chunks == counter(a, 11) && b.drawn_chunks == counter(b, 11));
    assert(a.drawn_instances == counter(a, 12) && b.drawn_instances == counter(b, 12));
    assert(a.missing_chunk_buffers == counter(a, 13) && b.missing_chunk_buffers == counter(b, 13));
}

/// Each counter after a sequence of events is its starting value plus the
/// total the events add to it, modulo 2^64.
pub proof fn lemma_counter_after_events(s: RenderDebugSnapshot, events: Seq<RenderDebugEvent>, k: int)
    requires
        0 <= k < 14,
    ensures
        counter(apply_events(s, events), k) as int == (counter(s, k) + total(events, k)) % counter_modulus(),
    decreases events.len(),
{
    if events.len() > 0 {
        let prev = events.drop_last();
        lemma_counter_after_events(s, prev, k);
        let c = counter(apply_events(s, prev), k);
        let inc = increment(events.last(), k);
        lemma_apply_event_counter(apply_events(s, prev), events.last(), k);
        lemma_wrapping_add_mod(c, inc);
        vstd::arithmetic::div_mod::lemma_add_mod_noop(counter(s, k) + total(prev, k), inc as int, counter_modulus());
        vstd::arithmetic::div_mod::lemma_small_mod(inc as nat, counter_modulus() as nat);
        vstd::arithmetic::div_mod::lemma_mod_twice(counter(s, k) + total(prev, k), counter_modulus());
    } else {
        vstd::arithmetic::div_mod::lemma_small_mod(counter(s, k) as nat, counter_modulus() as nat);
    }
}

proof fn lemma_total_remove(events: Seq<RenderDebugEvent>, j: int, k: int)
    requires
        0 <= j < events.len(),
    ensures
        total(events, k) == total(events.remove(j), k) + increment(events[j], k),
    decreases events.len(),
{
    let last = events.len() - 1;
    if j == last {
        assert(events.remove(j) =~= events.drop_last());
    } else {
        lemma_total_remove(events.drop_last(), j, k);
        let r = events.remove(j);
        assert(r.drop_last() =~= events.drop_last().remove(j));
        assert(r.last() == events.last());
    }
}

proof fn lemma_total_permutation(a: Seq<RenderDebugEvent>, b: Seq<RenderDebugEvent>, k: int)
    requires
        a.to_multiset() =~= b.to_multiset(),
    ensures
        total(a, k) == total(b, k),
    decreases a.len(),
{
    broadcast use vstd::seq_lib::group_to_multiset_ensures;

    if a.len() == 0 {
        assert(b.len() == a.to_multiset().len());
    } else {
        let x = a.last();
        let a0 = a.drop_last();
        assert(a =~= a0.push(x));
        assert(a.to_multiset() =~= a0.to_multiset().insert(x));
        assert(b.to_multiset().count(x) > 0);
        assert(b.contains(x));
        let j = choose|j: int| 0 <= j < b.len() && b[j] == x;
        let b0 = b.remove(j);
        assert(b0.to_multiset() =~= b.to_multiset().remove(x));
        assert(a0.to_multiset() =~= b0.to_multiset());
        lemma_total_permutation(a0, b0, k);
        lemma_total_remove(b, j, k);
    }
}

/// The counters do not depend on the order of the events: from the same
/// counters, any two sequences holding the same events (a permutation of each
/// other) give the same counters.
pub proof fn lemma_events_any_order(s: RenderDebugSnapshot, a: Seq<RenderDebugEvent>, b: Seq<RenderDebugEvent>)
    requires
        a.to_multiset() =~= b.to_multiset(),
    ensures
        apply_events(s, a) == apply_events(s, b),
{
    assert forall|k: int| 0 <= k < 14 implies
        #[trigger] counter(apply_events(s, a), k) == counter(apply_events(s, b), k) by {
        lemma_counter_after_events(s, a, k);
        lemma_counter_after_events(s, b, k);
        lemma_total_permutation(a, b, k);
    }
    lemma_snapshot_ext(apply_events(s, a), apply_events(s, b));
}

proof fn lemma_frame_totals(events: Seq<RenderDebugEvent>)
    ensures
        total(events, 2) == occurrences(events, RenderDebugEvent::PipelineQueued),
        total(events, 3) == occurrences(events, RenderDebugEvent::PipelineCreating),
        total(events, 4) == occurrences(events, RenderDebugEvent::PipelineStatus(true))
            + occurrences(events, RenderDebugEvent::PipelineReady),
        total(events, 5) == occurrences(events, RenderDebugEvent::PipelineQueued)
            + occurrences(events, RenderDebugEvent::PipelineCreating)
            + occurrences(events, RenderDebugEvent::PipelineStatus(false)),
        total(events, 6) == occurrences(events, RenderDebugEvent::PipelineError),
        total(events, 7) == occurrences(events, RenderDebugEvent::SetGrassCall(true))
            + occurrences(events, RenderDebugEvent::SetGrassCall(false)),
        total(events, 8) == occurrences(events, RenderDebugEvent::SetGrassCall(true)),
        total(events, 9) == occurrences(events, RenderDebugEvent::SetWindCall),
        total(events, 10) == occurrences(events, RenderDebugEvent::DrawCall),
        forall|k: int| 2 <= k <= 10 ==> 0 <= #[trigger] total(events, k) <= events.len(),
    decreases events.len(),
{
    if events.len() > 0 {
        lemma_frame_totals(events.drop_last());
    }
}

/// Counters that start at zero, after a sequence of at most `u64::MAX` events,
/// count each kind of pipeline and bind group event exactly: queued, created,
/// failed, wind and draw calls by their events; ready pipelines by ready
/// statuses plus ready events; pending pipelines by queued, creating and
/// not-ready status events; grass bind group calls by both kinds of call and
/// missing ones by the missing kind. Hence pending is at least queued plus
/// creating.
pub proof fn lemma_frame_counts(events: Seq<RenderDebugEvent>)
    requires
        events.len() <= u64::MAX,
    ensures
        ({
            let s = apply_events(zero_snapshot(), events);
            let q = occurrences(events, RenderDebugEvent::PipelineQueued);
            let c = occurrences(events, RenderDebugEvent::PipelineCreating);
            let f = occurrences(events, RenderDebugEvent::PipelineStatus(false));
            let t = occurrences(events, RenderDebugEvent::PipelineStatus(true));
            let r = occurrences(events, RenderDebugEvent::PipelineReady);
            &&& s.pipeline_queued == q
            &&& s.pipeline_creating == c
            &&& s.pipeline_pending == q + c + f
            &&& s.pipeline_ready == t + r
            &&& s.pipeline_error == occurrences(events, RenderDebugEvent::PipelineError)
            &&& s.set_grass_calls == occurrences(events, RenderDebugEvent::SetGrassCall(true))
                + occurrences(events, RenderDebugEvent::SetGrassCall(false))
            &&& s.set_grass_missing == occurrences(events, RenderDebugEvent::SetGrassCall(true))
            &&& s.set_wind_calls == occurrences(events, RenderDebugEvent::SetWindCall)
            &&& s.draw_calls == occurrences(events, RenderDebugEvent::DrawCall)
            &&& s.pipeline_pending >= s.pipeline_queued + s.pipeline_creating
        }),
{
    lemma_frame_totals(events);
    assert forall|k: int| 2 <= k <= 10 implies
        #[trigger] counter(apply_events(zero_snapshot(), events), k) == total(events, k) by {
        lemma_counter_after_events(zero_snapshot(), events, k);
        assert(counter(zero_snapshot(), k) == 0);
        vstd::arithmetic::div_mod::lemma_small_mod(total(events, k) as nat, counter_modulus() as nat);
    }
    let s = apply_events(zero_snapshot(), events);
    assert(counter(s, 2) == total(events, 2));
    assert(counter(s, 3) == total(events, 3));
    assert(counter(s, 4) == total(events, 4));
    assert(counter(s, 5) == total(events, 5));
    assert(counter(s, 6) == total(events, 6));
    assert(counter(s, 7) == total(events, 7));
    assert(counter(s, 8) == total(events, 8));
    assert(counter(s, 9) == total(events, 9));
    assert(counter(s, 10) == total(events, 10));
}

} // verus!
