use tracing_core::events::{spans_to_trace_events, EventState};
use tracing_core::harness::TracingHarness;
use tracing_core::lifecycle::{
    create_tracer_and_span_rx, prepare_init, BootstrapError, HarnessSlot, SamplingStrategy,
    TracingSettings,
};
use tracing_core::live_set::LiveReferenceSet;
use tracing_core::sampler::{
    ActiveSamplingSettings, RateLimitingProbabilisticSampler, SamplerConfigError,
    PROBABILITY_SCALE,
};
use tracing_core::scope::ScopeStack;
use tracing_core::tracer::{Span, SpanContext, SpanIds, SpanSampler, Tracer};

const SECOND: u64 = 1_000_000_000;

fn ids(trace_id: u64, span_id: u64) -> SpanIds {
    SpanIds { trace_id, span_id }
}

fn active(probability_ppm: u64, rate: Option<u64>, burst: u64) -> ActiveSamplingSettings {
    ActiveSamplingSettings { probability_ppm, rate_per_second: rate, burst }
}

fn sampler(probability_ppm: u64, rate: Option<u64>, burst: u64) -> RateLimitingProbabilisticSampler {
    RateLimitingProbabilisticSampler::new(&active(probability_ppm, rate, burst), 0).unwrap()
}

fn enabled(strategy: SamplingStrategy) -> TracingSettings {
    TracingSettings { enabled: true, sampling_strategy: strategy, queue_capacity: 16 }
}

/// Deterministic draws spread evenly over [0, PROBABILITY_SCALE).
struct Draws(u64);

impl Draws {
    fn next(&mut self) -> u64 {
        self.0 = self.0.wrapping_mul(6364136223846793005).wrapping_add(1442695040888963407);
        (self.0 >> 33) % PROBABILITY_SCALE
    }
}

#[test]
fn scope_stack_tracks_innermost_value() {
    let mut s: ScopeStack<u32> = ScopeStack::new();
    assert_eq!(s.current(), None);
    let g1 = s.enter(1);
    assert_eq!(s.current(), Some(&1));
    let g2 = s.enter(2);
    let g3 = s.enter(3);
    assert_eq!(s.current(), Some(&3));
    assert_eq!(s.depth(), 3);
    assert_eq!(s.release(g3), 3);
    assert_eq!(s.current(), Some(&2));
    let g4 = s.enter(4);
    assert_eq!(s.current(), Some(&4));
    assert_eq!(s.release(g4), 4);
    assert_eq!(s.release(g2), 2);
    assert_eq!(s.current(), Some(&1));
    assert_eq!(s.release(g1), 1);
    assert_eq!(s.current(), None);
}

#[test]
fn live_set_snapshot_holds_exactly_live_handles() {
    let mut set: LiveReferenceSet<u64> = LiveReferenceSet::new();
    assert!(set.snapshot().is_empty());
    let a = set.register(10);
    let b = set.register(20);
    let c = set.register(30);
    assert_eq!(set.snapshot(), vec![10, 20, 30]);
    assert_eq!(set.deregister(b), 20);
    assert_eq!(set.snapshot(), vec![10, 30]);
    assert_eq!(set.len(), 2);
    let d = set.register(40);
    assert_eq!(set.slot_count(), 3);
    assert_eq!(set.snapshot(), vec![10, 40, 30]);
    assert_eq!(set.deregister(a), 10);
    assert_eq!(set.deregister(c), 30);
    assert_eq!(set.deregister(d), 40);
    assert!(set.snapshot().is_empty());
    assert_eq!(set.len(), 0);
}

#[test]
fn sampler_settings_are_checked() {
    let r = RateLimitingProbabilisticSampler::new(&active(PROBABILITY_SCALE + 1, None, 1), 0);
    assert!(matches!(r, Err(SamplerConfigError::ProbabilityOutOfRange)));
    let r = RateLimitingProbabilisticSampler::new(&active(500_000, Some(10), 0), 0);
    assert!(matches!(r, Err(SamplerConfigError::ZeroBurst)));
    assert!(RateLimitingProbabilisticSampler::new(&active(500_000, None, 0), 0).is_ok());
    assert!(RateLimitingProbabilisticSampler::new(&active(PROBABILITY_SCALE, Some(1), 1), 0).is_ok());
}

#[test]
fn zero_probability_never_accepts() {
    let mut s = sampler(0, Some(1_000_000), 1_000);
    let mut unlimited = sampler(0, None, 0);
    for i in 0..10_000u64 {
        assert!(!s.should_sample(i * 1000, 0));
        assert!(!unlimited.should_sample(i, 0));
    }
}

#[test]
fn full_probability_without_limit_always_accepts() {
    let mut s = sampler(PROBABILITY_SCALE, None, 0);
    let mut draws = Draws(7);
    for i in 0..10_000u64 {
        assert!(s.should_sample(i, draws.next()));
    }
}

#[test]
fn bucket_bounds_bursts_and_refills_with_time() {
    let mut s = sampler(PROBABILITY_SCALE, Some(1), 2);
    assert!(s.should_sample(0, 0));
    assert!(s.should_sample(0, 0));
    assert!(!s.should_sample(0, 0));
    assert!(!s.should_sample(SECOND / 2, 0));
    assert!(s.should_sample(SECOND, 0));
    assert!(!s.should_sample(SECOND, 0));
    // Ten idle seconds refill only up to the burst.
    assert!(s.should_sample(11 * SECOND, 0));
    assert!(s.should_sample(11 * SECOND, 0));
    assert!(!s.should_sample(11 * SECOND, 0));
}

#[test]
fn clock_moving_backwards_grants_no_tokens() {
    let mut s = sampler(PROBABILITY_SCALE, Some(1), 1);
    assert!(s.should_sample(100 * SECOND, 0));
    assert!(!s.should_sample(50 * SECOND, 0));
    assert!(!s.should_sample(0, 0));
    assert!(!s.should_sample(100 * SECOND, 0));
    assert!(s.should_sample(101 * SECOND, 0));
}

#[test]
fn rejected_draw_keeps_the_token() {
    let mut s = sampler(500_000, Some(1), 1);
    assert!(!s.should_sample(0, 600_000));
    assert!(s.should_sample(0, 100_000));
    assert!(!s.should_sample(0, 100_000));
}

#[test]
fn heavy_load_converges_to_rate() {
    // 1000 offered per second for 100 s, probability 0.5, ceiling 10 per second.
    let mut s = sampler(500_000, Some(10), 10);
    let mut draws = Draws(42);
    let mut kept = 0u64;
    for i in 0..100_000u64 {
        if s.should_sample(i * (SECOND / 1000), draws.next()) {
            kept += 1;
        }
    }
    assert!(kept <= 10 + 10 * 100);
    assert!(kept >= 950, "kept {}", kept);
}

#[test]
fn light_load_converges_to_probability() {
    // 10 offered per second, probability 0.3, ceiling 1000 per second.
    let mut s = sampler(300_000, Some(1000), 1000);
    let mut draws = Draws(3);
    let n = 100_000u64;
    let mut kept = 0u64;
    for i in 0..n {
        if s.should_sample(i * (SECOND / 10), draws.next()) {
            kept += 1;
        }
    }
    let ratio = kept as f64 / n as f64;
    assert!((ratio - 0.3).abs() < 0.01, "ratio {}", ratio);
}

#[test]
fn children_inherit_the_decision() {
    let mut t = Tracer::new(SpanSampler::Active(sampler(PROBABILITY_SCALE, None, 0)), 8);
    let root = t.start_span("root".to_string(), None, 5, 0, ids(1001, 2001));
    assert!(root.context.sampled);
    assert_eq!(root.context.trace_id, 1001);
    assert_eq!(root.context.span_id, 2001);
    assert_eq!(root.parent_span_id, None);
    let child = t.start_span("child".to_string(), Some(root.context), 6, PROBABILITY_SCALE - 1, ids(1002, 2002));
    assert!(child.context.sampled);
    assert_eq!(child.context.trace_id, root.context.trace_id);
    assert_eq!(child.parent_span_id, Some(root.context.span_id));
    assert_ne!(child.context.span_id, root.context.span_id);

    let dropped = SpanContext { trace_id: 99, span_id: 98, sampled: false };
    let orphan = t.start_span("orphan".to_string(), Some(dropped), 7, 0, ids(1003, 2003));
    assert!(!orphan.context.sampled);
    assert_eq!(orphan.context.trace_id, 99);
}

#[test]
fn passive_sampler_keeps_only_continued_traces() {
    let mut t = Tracer::new(SpanSampler::Passive, 8);
    let root = t.start_span("root".to_string(), None, 0, 0, ids(1004, 2004));
    assert!(!root.context.sampled);
    let upstream = SpanContext { trace_id: 7, span_id: 8, sampled: true };
    let cont = t.start_span("continued".to_string(), Some(upstream), 0, 0, ids(1005, 2005));
    assert!(cont.context.sampled);
    t.finish(root, 1);
    t.finish(cont, 2);
    let out = t.take_finished();
    assert_eq!(out.len(), 1);
    assert_eq!(out[0].name, "continued");
    assert_eq!(out[0].end_ns, Some(2));
}

#[test]
fn dropped_spans_never_reach_the_queue() {
    let mut t = Tracer::new(SpanSampler::Active(sampler(0, None, 0)), 8);
    for i in 0..10u64 {
        let s = t.start_span("x".to_string(), None, i, 0, ids(1006, 2006));
        assert!(!s.context.sampled);
        t.finish(s, i + 1);
    }
    assert!(t.take_finished().is_empty());
    assert_eq!(t.lost_count(), 0);
}

#[test]
fn finished_spans_keep_finish_order_and_full_queue_drops_newest() {
    let mut t = Tracer::new(SpanSampler::Active(sampler(PROBABILITY_SCALE, None, 0)), 2);
    let a = t.start_span("a".to_string(), None, 0, 0, ids(1007, 2007));
    let b = t.start_span("b".to_string(), None, 1, 0, ids(1008, 2008));
    let c = t.start_span("c".to_string(), None, 2, 0, ids(1009, 2009));
    t.finish(b, 10);
    t.finish(a, 11);
    t.finish(c, 12);
    assert_eq!(t.lost_count(), 1);
    let out = t.take_finished();
    let names: Vec<&str> = out.iter().map(|s| s.name.as_str()).collect();
    assert_eq!(names, vec!["b", "a"]);
    assert!(t.take_finished().is_empty());
}

#[test]
fn events_are_timed_from_tracing_start() {
    let open = Span {
        context: SpanContext { trace_id: 1, span_id: 1, sampled: true },
        parent_span_id: None,
        name: "open".to_string(),
        start_ns: 1_500,
        end_ns: None,
        tags: Vec::new(),
    };
    let done = Span {
        context: SpanContext { trace_id: 1, span_id: 2, sampled: true },
        parent_span_id: Some(1),
        name: "done".to_string(),
        start_ns: 1_200,
        end_ns: Some(1_700),
        tags: Vec::new(),
    };
    let early = Span {
        context: SpanContext { trace_id: 3, span_id: 3, sampled: true },
        parent_span_id: None,
        name: "early".to_string(),
        start_ns: 400,
        end_ns: Some(300),
        tags: Vec::new(),
    };
    let events = spans_to_trace_events(1_000, &vec![open, done, early]);
    assert_eq!(events.len(), 3);
    assert_eq!(events[0].name, "open");
    assert_eq!(events[0].start_offset_ns, 500);
    assert_eq!(events[0].state, EventState::Ongoing);
    assert_eq!(events[1].start_offset_ns, 200);
    assert_eq!(events[1].parent_span_id, Some(1));
    assert_eq!(events[1].state, EventState::Finished { duration_ns: 500 });
    assert_eq!(events[2].start_offset_ns, 0);
    assert_eq!(events[2].state, EventState::Finished { duration_ns: 0 });
}

#[test]
fn end_to_end_active_trace_then_reported() {
    let mut overrides: ScopeStack<Tracer> = ScopeStack::new();
    let mut slot = HarnessSlot::new(0);
    let settings = enabled(SamplingStrategy::Active(active(PROBABILITY_SCALE, None, 0)));
    let h = prepare_init(&slot, &settings, 1_000).unwrap().unwrap();
    assert!(slot.install(h));
    let harness = slot.get_mut();
    let a = harness.start_span(&mut overrides, "A".to_string(), None, 1_250, 0, ids(1010, 2010));
    assert!(a.is_root_registered());
    let events = harness.get_active_traces();
    assert_eq!(events.len(), 1);
    assert_eq!(events[0].name, "A");
    assert_eq!(events[0].start_offset_ns, 250);
    assert_eq!(events[0].state, EventState::Ongoing);
    harness.finish_span(&mut overrides, a, 2_000);
    assert!(harness.get_active_traces().is_empty());
    let reported = harness.take_finished();
    assert_eq!(reported.len(), 1);
    assert_eq!(reported[0].name, "A");
    assert_eq!(reported[0].end_ns, Some(2_000));
    assert!(harness.take_finished().is_empty());
}

#[test]
fn dropped_root_is_never_listed_nor_reported() {
    let mut overrides: ScopeStack<Tracer> = ScopeStack::new();
    let mut slot = HarnessSlot::new(0);
    let settings = enabled(SamplingStrategy::Active(active(0, None, 0)));
    let h = prepare_init(&slot, &settings, 0).unwrap().unwrap();
    assert!(slot.install(h));
    let harness = slot.get_mut();
    let a = harness.start_span(&mut overrides, "A".to_string(), None, 1, 0, ids(1011, 2011));
    assert!(!a.is_root_registered());
    assert!(!a.context().sampled);
    assert!(harness.get_active_traces().is_empty());
    let child = harness.start_span(&mut overrides, "B".to_string(), Some(a.context()), 2, 0, ids(1012, 2012));
    assert!(!child.context().sampled);
    harness.finish_span(&mut overrides, child, 3);
    harness.finish_span(&mut overrides, a, 4);
    assert!(harness.get_active_traces().is_empty());
    assert!(harness.take_finished().is_empty());
}

#[test]
fn children_are_reported_but_not_listed_as_roots() {
    let mut overrides: ScopeStack<Tracer> = ScopeStack::new();
    let mut scope: ScopeStack<SpanContext> = ScopeStack::new();
    let mut h = TracingHarness::new(
        Tracer::new(SpanSampler::Active(sampler(PROBABILITY_SCALE, None, 0)), 8),
        0,
    );
    let root = h.start_span(&mut overrides, "root".to_string(), None, 1, 0, ids(0xabc, 0xdef));
    assert_eq!(root.context().trace_id, 0xabc);
    assert_eq!(root.context().span_id, 0xdef);
    let g = scope.enter(root.context());
    let parent = scope.current().copied();
    assert_eq!(parent, Some(root.context()));
    let child = h.start_span(&mut overrides, "child".to_string(), parent, 2, 0, ids(0x111, 0x222));
    assert_eq!(child.context().trace_id, 0xabc);
    assert_eq!(child.context().span_id, 0x222);
    assert!(!child.is_root_registered());
    assert_eq!(h.get_active_traces().len(), 1);
    h.finish_span(&mut overrides, child, 3);
    assert_eq!(scope.release(g), root.context());
    assert_eq!(scope.current(), None);
    h.finish_span(&mut overrides, root, 4);
    let names: Vec<String> = h.take_finished().into_iter().map(|s| s.name).collect();
    assert_eq!(names, vec!["child".to_string(), "root".to_string()]);
}

#[test]
fn init_twice_keeps_the_first_configuration() {
    let mut overrides: ScopeStack<Tracer> = ScopeStack::new();
    let mut slot = HarnessSlot::new(0);
    let first = enabled(SamplingStrategy::Active(active(PROBABILITY_SCALE, None, 0)));
    let second = enabled(SamplingStrategy::Active(active(0, None, 0)));
    let h = prepare_init(&slot, &first, 10).unwrap().unwrap();
    assert!(slot.install(h));
    assert!(slot.is_active());
    assert!(prepare_init(&slot, &second, 20).unwrap().is_none());
    let extra = prepare_init(&HarnessSlot::new(0), &second, 20).unwrap().unwrap();
    assert!(!slot.install(extra));
    let harness = slot.get_mut();
    let a = harness.start_span(&mut overrides, "A".to_string(), None, 30, 0, ids(1015, 2015));
    assert!(a.context().sampled);
    assert_eq!(harness.get_active_traces()[0].start_offset_ns, 20);
}

#[test]
fn disabled_init_leaves_noop_harness() {
    let mut overrides: ScopeStack<Tracer> = ScopeStack::new();
    let mut slot = HarnessSlot::new(0);
    let settings = TracingSettings {
        enabled: false,
        sampling_strategy: SamplingStrategy::Active(active(PROBABILITY_SCALE, None, 0)),
        queue_capacity: 16,
    };
    assert!(prepare_init(&slot, &settings, 0).unwrap().is_none());
    assert!(!slot.is_active());
    assert!(slot.get().get_active_traces().is_empty());
    let harness = slot.get_mut();
    let a = harness.start_span(&mut overrides, "A".to_string(), None, 1, 0, ids(1016, 2016));
    assert!(!a.context().sampled);
    assert!(harness.get_active_traces().is_empty());
    harness.finish_span(&mut overrides, a, 2);
    assert!(harness.take_finished().is_empty());
}

#[test]
fn invalid_sampler_settings_fail_init() {
    let slot = HarnessSlot::new(0);
    let bad = enabled(SamplingStrategy::Active(active(PROBABILITY_SCALE + 1, None, 0)));
    assert!(matches!(
        prepare_init(&slot, &bad, 0),
        Err(BootstrapError::Sampler(SamplerConfigError::ProbabilityOutOfRange))
    ));
    let bad = enabled(SamplingStrategy::Active(active(1, Some(5), 0)));
    assert!(matches!(
        create_tracer_and_span_rx(&bad, 0),
        Err(BootstrapError::Sampler(SamplerConfigError::ZeroBurst))
    ));
    assert!(create_tracer_and_span_rx(&enabled(SamplingStrategy::Passive), 0).is_ok());
}

#[test]
fn test_tracer_override_takes_priority() {
    let mut h = TracingHarness::noop(0);
    let mut mine: ScopeStack<Tracer> = ScopeStack::new();
    let mut other: ScopeStack<Tracer> = ScopeStack::new();
    let t = Tracer::new(SpanSampler::Active(sampler(PROBABILITY_SCALE, None, 0)), 4);
    let g = mine.enter(t);
    assert_eq!(h.tracer(&mine).queue_capacity(), 4);
    assert_eq!(h.tracer(&other).queue_capacity(), 0);
    let a = h.start_span(&mut mine, "A".to_string(), None, 1, 0, ids(5, 6));
    assert!(a.context().sampled);
    assert_eq!(h.get_active_traces().len(), 1);
    // Another context without an override still uses the fallback tracer.
    let b = h.start_span(&mut other, "B".to_string(), None, 1, 0, ids(7, 8));
    assert!(!b.context().sampled);
    h.finish_span(&mut other, b, 2);
    h.finish_span(&mut mine, a, 2);
    let mut over = mine.release(g);
    assert!(h.take_finished().is_empty());
    assert_eq!(over.take_finished().len(), 1);
    let c = h.start_span(&mut mine, "C".to_string(), None, 3, 0, ids(9, 10));
    assert!(!c.context().sampled);
}

#[test]
fn tags_are_kept_to_the_reporter() {
    let mut overrides: ScopeStack<Tracer> = ScopeStack::new();
    let mut h = TracingHarness::new(
        Tracer::new(SpanSampler::Active(sampler(PROBABILITY_SCALE, None, 0)), 8),
        0,
    );
    let mut a = h.start_span(&mut overrides, "A".to_string(), None, 1, 0, ids(1, 2));
    assert!(a.span_ref().tags.is_empty());
    a.set_tag("http.method".to_string(), "GET".to_string());
    a.set_tag("http.status".to_string(), "200".to_string());
    a.set_tag("http.method".to_string(), "POST".to_string());
    assert_eq!(a.span_ref().tags.len(), 3);
    assert!(a.is_root_registered());
    h.finish_span(&mut overrides, a, 5);
    let out = h.take_finished();
    assert_eq!(out.len(), 1);
    let tags: Vec<(&str, &str)> = out[0].tags.iter().map(|(k, v)| (k.as_str(), v.as_str())).collect();
    assert_eq!(tags, vec![("http.method", "GET"), ("http.status", "200"), ("http.method", "POST")]);
    let copy = out[0].duplicate();
    assert_eq!(copy.tags, out[0].tags);
    assert_eq!(copy.name, "A");
    assert_eq!(copy.context, out[0].context);
}
