//! The tracing harness: the tracer and the registry of active root spans
//! that one process shares.
use vstd::prelude::*;
use crate::events::{event_of, span_to_trace_event, TraceEvent};
use crate::live_set::{live_values, LiveReferenceSet, RegistrationToken};
use crate::sampler::{RateLimitingProbabilisticSampler, PROBABILITY_SCALE};
use crate::scope::{lemma_scope_stack_discipline, net_depth, replay, stays_above, ScopeStack};
use crate::tracer::{
    keeps_nothing, same_span, span_finished, span_started, Span, SpanContext, SpanIds, SpanSampler, Tracer,
};

verus! {

/// A span started through the harness, with its place among the active
/// roots when it holds one.
pub struct ActiveSpan {
    span: Span,
    registration: Option<RegistrationToken>,
}

impl ActiveSpan {
    pub closed spec fn span(&self) -> Span {
        self.span
    }

    /// The span itself.
    pub fn span_ref(&self) -> (r: &Span)
        ensures
            *r == self.span(),
    {
        &self.span
    }

    /// Whether the span is listed among the active roots.
    pub closed spec fn is_registered(&self) -> bool {
        self.registration.is_some()
    }

    /// The slot that lists it, when it is registered.
    pub closed spec fn slot(&self) -> nat {
        match self.registration {
            Some(t) => t.slot_spec(),
            None => 0,
        }
    }

    pub fn is_root_registered(&self) -> (r: bool)
        ensures
            r == self.is_registered(),
    {
        self.registration.is_some()
    }

    /// Sets tag `key` of the span to `value`.
    pub fn set_tag(&mut self, key: String, value: String)
        ensures
            final(self).span().tags@ == old(self).span().tags@.push((key, value)),
            final(self).span() == (Span { tags: final(self).span().tags, ..old(self).span() }),
            final(self).is_registered() == old(self).is_registered(),
            final(self).slot() == old(self).slot(),
    {
        self.span.set_tag(key, value);
    }

    /// What a child of this span inherits.
    pub fn context(&self) -> (r: SpanContext)
        ensures
            r == self.span().context,
    {
        self.span.context
    }
}

/// Every tracer of an override stack is well formed.
pub open spec fn overrides_wf(overrides: Seq<Tracer>) -> bool {
    forall|i: int| 0 <= i < overrides.len() ==> (#[trigger] overrides[i]).wf()
}

/// Proof that `after` is `before` with only its innermost tracer replaced by
/// `top`: every other override is kept.
pub open spec fn top_replaced(before: Seq<Tracer>, after: Seq<Tracer>, top: Tracer) -> bool {
    before.len() > 0 ==> after == before.update(before.len() - 1, top)
}

/// The state one process shares: the production tracer, the registry of
/// active root spans, and the time tracing started. What is current — the
/// span in scope and any tracer entered for a test — belongs to each
/// execution context, which keeps its own `ScopeStack`s and hands them in.
pub struct TracingHarness {
    tracer: Tracer,
    active_roots: LiveReferenceSet<Span>,
    tracing_start_ns: u64,
}

impl TracingHarness {
    pub closed spec fn base_tracer(&self) -> Tracer {
        self.tracer
    }

    /// The tracer in use in a context whose override stack is `overrides`:
    /// its innermost override, else the production tracer.
    pub open spec fn effective_tracer(&self, overrides: Seq<Tracer>) -> Tracer {
        if overrides.len() > 0 {
            overrides.last()
        } else {
            self.base_tracer()
        }
    }

    /// Slots of the active root spans.
    pub closed spec fn roots(&self) -> Seq<Option<Span>> {
        self.active_roots@
    }

    pub closed spec fn tracing_start(&self) -> u64 {
        self.tracing_start_ns
    }

    pub closed spec fn wf(&self) -> bool {
        &&& self.tracer.wf()
        &&& self.active_roots.wf()
    }

    /// A harness around `tracer`, started at `now_ns`, with no active root.
    pub fn new(tracer: Tracer, now_ns: u64) -> (r: Self)
        requires
            tracer.wf(),
        ensures
            r.wf(),
            r.base_tracer() == tracer,
            r.roots() == Seq::<Option<Span>>::empty(),
            r.tracing_start() == now_ns,
    {
        TracingHarness { tracer, active_roots: LiveReferenceSet::new(), tracing_start_ns: now_ns }
    }

    /// The fallback harness: its tracer keeps no trace and queues nothing.
    pub fn noop(now_ns: u64) -> (r: Self)
        ensures
            r.wf(),
            r.roots() == Seq::<Option<Span>>::empty(),
            r.tracing_start() == now_ns,
            r.base_tracer().capacity() == 0,
            r.base_tracer().queued() == Seq::<Span>::empty(),
            r.base_tracer().lost() == 0,
            keeps_nothing(r.base_tracer().sampler()),
    {
        let sampler = RateLimitingProbabilisticSampler::default();
        let tracer = Tracer::new(SpanSampler::Active(sampler), 0);
        TracingHarness::new(tracer, now_ns)
    }

    /// The tracer in use in the context whose override stack is `overrides`.
    pub fn tracer<'a>(&'a self, overrides: &'a ScopeStack<Tracer>) -> (r: &'a Tracer)
        ensures
            *r == self.effective_tracer(overrides@),
    {
        if overrides.depth() > 0 {
            overrides.current().unwrap()
        } else {
            &self.tracer
        }
    }

    /// Whether `start_span` may be called: a root slot is left.
    pub fn can_start_span(&self) -> (r: bool)
        ensures
            r == (self.roots().len() < usize::MAX),
    {
        self.active_roots.slot_count() < usize::MAX
    }

    /// Whether `a` may be finished here: a registered span must still be
    /// listed in this harness.
    pub fn can_finish(&self, a: &ActiveSpan) -> (r: bool)
        ensures
            r == (a.is_registered() ==> a.slot() < self.roots().len() && self.roots()[a.slot() as int].is_some()),
    {
        match &a.registration {
            None => true,
            Some(t) => self.active_roots.is_occupied(t),
        }
    }

    /// Starts a span, in the context whose override stack is `overrides`,
    /// with the tracer in use there. A root span whose trace is kept is listed
    /// among the active roots until it finishes; any other span is not listed.
    pub fn start_span(
        &mut self,
        overrides: &mut ScopeStack<Tracer>,
        name: String,
        parent: Option<SpanContext>,
        now_ns: u64,
        draw: u64,
        ids: SpanIds,
    ) -> (a: ActiveSpan)
        requires
            old(self).wf(),
            overrides_wf(old(overrides)@),
            old(self).roots().len() < usize::MAX,
            draw < PROBABILITY_SCALE,
        ensures
            final(self).wf(),
            overrides_wf(final(overrides)@),
            span_started(
                old(self).effective_tracer(old(overrides)@),
                final(self).effective_tracer(final(overrides)@),
                name,
                parent,
                now_ns,
                draw,
                ids,
                a.span(),
            ),
            final(overrides)@.len() == old(overrides)@.len(),
            top_replaced(old(overrides)@, final(overrides)@, final(overrides)@.last()),
            old(overrides)@.len() > 0 ==> final(self).base_tracer() == old(self).base_tracer(),
            final(self).tracing_start() == old(self).tracing_start(),
            a.is_registered() == (parent.is_none() && a.span().context.sampled),
            !a.is_registered() ==> final(self).roots() == old(self).roots(),
            a.is_registered() ==> a.slot() <= old(self).roots().len(),
            a.is_registered() ==> {
                &&& a.slot() < final(self).roots().len()
                &&& final(self).roots()[a.slot() as int] matches Some(r)
                &&& same_span(r, a.span())
            },
            a.is_registered() && a.slot() < old(self).roots().len() ==> {
                &&& old(self).roots()[a.slot() as int].is_none()
                &&& final(self).roots() == old(self).roots().update(
                    a.slot() as int,
                    final(self).roots()[a.slot() as int],
                )
            },
            a.is_registered() && a.slot() == old(self).roots().len() ==> final(self).roots()
                == old(self).roots().push(final(self).roots()[a.slot() as int]),
    {
        let span = if overrides.depth() > 0 {
            let ghost before = overrides@;
            let t = overrides.current_mut();
            let s = t.start_span(name, parent, now_ns, draw, ids);
            proof {
                let after = overrides@;
                assert forall|i: int| 0 <= i < after.len() implies (#[trigger] after[i]).wf() by {
                    if i != after.len() - 1 {
                        assert(after[i] == before[i]);
                    }
                }
            }
            s
        } else {
            self.tracer.start_span(name, parent, now_ns, draw, ids)
        };
        if parent.is_none() && span.context.sampled {
            let token = self.active_roots.register(span.duplicate());
            ActiveSpan { span, registration: Some(token) }
        } else {
            ActiveSpan { span, registration: None }
        }
    }

    /// Finishes a span, in the context whose override stack is `overrides`,
    /// with the tracer in use there and, for a listed root, takes it off the
    /// active roots.
    pub fn finish_span(&mut self, overrides: &mut ScopeStack<Tracer>, a: ActiveSpan, now_ns: u64)
        requires
            old(self).wf(),
            overrides_wf(old(overrides)@),
            a.is_registered() ==> a.slot() < old(self).roots().len() && old(self).roots()[a.slot() as int].is_some(),
        ensures
            final(self).wf(),
            overrides_wf(final(overrides)@),
            span_finished(
                old(self).effective_tracer(old(overrides)@),
                final(self).effective_tracer(final(overrides)@),
                a.span(),
                now_ns,
            ),
            final(overrides)@.len() == old(overrides)@.len(),
            top_replaced(old(overrides)@, final(overrides)@, final(overrides)@.last()),
            old(overrides)@.len() > 0 ==> final(self).base_tracer() == old(self).base_tracer(),
            final(self).tracing_start() == old(self).tracing_start(),
            a.is_registered() ==> final(self).roots() == old(self).roots().update(a.slot() as int, None),
            !a.is_registered() ==> final(self).roots() == old(self).roots(),
    {
        let ActiveSpan { span, registration } = a;
        match registration {
            Some(token) => {
                self.active_roots.deregister(token);
            },
            None => {},
        }
        if overrides.depth() > 0 {
            let ghost before = overrides@;
            let t = overrides.current_mut();
            t.finish(span, now_ns);
            proof {
                let after = overrides@;
                assert forall|i: int| 0 <= i < after.len() implies (#[trigger] after[i]).wf() by {
                    if i != after.len() - 1 {
                        assert(after[i] == before[i]);
                    }
                }
            }
        } else {
            self.tracer.finish(span, now_ns);
        }
    }

    /// Hands the spans queued by the base tracer to the reporter.
    pub fn take_finished(&mut self) -> (r: Vec<Span>)
        requires
            old(self).wf(),
        ensures
            final(self).wf(),
            r@ == old(self).base_tracer().queued(),
            final(self).base_tracer().queued() == Seq::<Span>::empty(),
            final(self).base_tracer().sampler() == old(self).base_tracer().sampler(),
            final(self).base_tracer().capacity() == old(self).base_tracer().capacity(),
            final(self).base_tracer().lost() == old(self).base_tracer().lost(),
            final(self).roots() == old(self).roots(),
            final(self).tracing_start() == old(self).tracing_start(),
    {
        self.tracer.take_finished()
    }

    /// One ongoing event for each active root span, timed from the start of
    /// tracing.
    pub fn get_active_traces(&self) -> (r: Vec<TraceEvent>)
        requires
            self.wf(),
        ensures
            r@ == live_values(self.roots()).map_values(|s: Span| event_of(self.tracing_start(), s)),
    {
        let mut out: Vec<TraceEvent> = Vec::new();
        let n = self.active_roots.slot_count();
        let mut i: usize = 0;
        while i < n
            invariant
                n == self.roots().len(),
                i <= n,
                out@ == live_values(self.roots().take(i as int)).map_values(
                    |s: Span| event_of(self.tracing_start(), s),
                ),
            decreases n - i,
        {
            proof {
                assert(self.roots().take(i + 1).drop_last() =~= self.roots().take(i as int));
            }
            match self.active_roots.slot_value(i) {
                Some(span) => {
                    out.push(span_to_trace_event(self.tracing_start_ns, span));
                },
                None => {},
            }
            i = i + 1;
            proof {
                assert(out@ =~= live_values(self.roots().take(i as int)).map_values(
                    |s: Span| event_of(self.tracing_start(), s),
                ));
            }
        }
        proof {
            assert(self.roots().take(i as int) =~= self.roots());
        }
        out
    }
}

/// Overrides follow the stack discipline of their context: a tracer entered
/// for a test is the tracer in use there, whatever was entered before it,
/// after any later run of enters and releases that released all it entered;
/// releasing it brings back the tracer in use before it was entered.
pub proof fn lemma_override_discipline(
    h: TracingHarness,
    before: Seq<Tracer>,
    t: Tracer,
    ops: Seq<Option<Tracer>>,
)
    requires
        stays_above(ops),
        net_depth(ops) == 0,
    ensures
        h.effective_tracer(before.push(t)) == t,
        h.effective_tracer(replay(before.push(t), ops)) == t,
        h.effective_tracer(replay(before.push(t), Seq::<Option<Tracer>>::empty().push(None)))
            == h.effective_tracer(before),
{
    lemma_scope_stack_discipline(before, t, ops);
}

} // verus!
