//! The span factory and the producer side of the reporting channel.
use vstd::prelude::*;
use crate::sampler::{RateLimitingProbabilisticSampler, PROBABILITY_SCALE};

verus! {

/// What a child needs of its parent: the trace, the parent's id and the
/// trace's sampling decision.
#[derive(Debug, Clone, Copy, PartialEq, Eq, Structural)]
pub struct SpanContext {
    pub trace_id: u64,
    pub span_id: u64,
    pub sampled: bool,
}

/// One unit of traced work. `end_ns` is `None` while the span is active.
#[derive(Debug)]
pub struct Span {
    pub context: SpanContext,
    pub parent_span_id: Option<u64>,
    pub name: String,
    pub start_ns: u64,
    pub end_ns: Option<u64>,
    /// Tags in the order they were set; a later tag replaces an earlier one
    /// with the same key.
    pub tags: Vec<(String, String)>,
}

/// The tag map that `tags` stand for: each key's most recent value.
pub open spec fn tag_map(tags: Seq<(String, String)>) -> Map<String, String>
    decreases tags.len(),
{
    if tags.len() == 0 {
        Map::empty()
    } else {
        tag_map(tags.drop_last()).insert(tags.last().0, tags.last().1)
    }
}

/// `a` and `b` hold the same values: equal fields, and equal tag lists.
pub open spec fn same_span(a: Span, b: Span) -> bool {
    &&& a.context == b.context
    &&& a.parent_span_id == b.parent_span_id
    &&& a.name == b.name
    &&& a.start_ns == b.start_ns
    &&& a.end_ns == b.end_ns
    &&& a.tags@ == b.tags@
}

impl Span {
    /// A copy of the span, field for field.
    pub fn duplicate(&self) -> (r: Span)
        ensures
            same_span(r, *self),
    {
        let mut tags: Vec<(String, String)> = Vec::new();
        let mut i: usize = 0;
        while i < self.tags.len()
            invariant
                i <= self.tags@.len(),
                tags@ == self.tags@.take(i as int),
            decreases self.tags@.len() - i,
        {
            let (k, v) = &self.tags[i];
            tags.push((k.clone(), v.clone()));
            i = i + 1;
            proof {
                assert(tags@ =~= self.tags@.take(i as int));
            }
        }
        proof {
            assert(tags@ =~= self.tags@);
        }
        Span {
            context: self.context,
            parent_span_id: self.parent_span_id,
            name: self.name.clone(),
            start_ns: self.start_ns,
            end_ns: self.end_ns,
            tags,
        }
    }

    /// Sets tag `key` to `value`, replacing any earlier value of `key`.
    pub fn set_tag(&mut self, key: String, value: String)
        ensures
            final(self).tags@ == old(self).tags@.push((key, value)),
            tag_map(final(self).tags@) == tag_map(old(self).tags@).insert(key, value),
            final(self).context == old(self).context,
            final(self).parent_span_id == old(self).parent_span_id,
            final(self).name == old(self).name,
            final(self).start_ns == old(self).start_ns,
            final(self).end_ns == old(self).end_ns,
    {
        self.tags.push((key, value));
        proof {
            assert(self.tags@.drop_last() =~= old(self).tags@);
        }
    }
}

/// Identifiers for a new span, drawn at random by the caller. A span that
/// joins its parent's trace takes the parent's trace id instead of `trace_id`.
#[derive(Debug, Clone, Copy, PartialEq, Eq, Structural)]
pub struct SpanIds {
    pub trace_id: u64,
    pub span_id: u64,
}

/// How a tracer decides whether a new trace is kept.
pub enum SpanSampler {
    /// Never starts a trace of its own: only spans that continue a trace
    /// started elsewhere, and whose decision comes with it, are kept.
    Passive,
    /// Decides with a rate-limited probabilistic draw.
    Active(RateLimitingProbabilisticSampler),
}

impl SpanSampler {
    pub open spec fn wf(&self) -> bool {
        match self {
            SpanSampler::Passive => true,
            SpanSampler::Active(s) => s.wf(),
        }
    }

    /// Decision for a new trace at time `now` with `draw`.
    pub open spec fn decision(&self, now: int, draw: int) -> bool {
        match self {
            SpanSampler::Passive => false,
            SpanSampler::Active(s) => s.decision(now, draw),
        }
    }

    /// `next` is this sampler after deciding on a new trace.
    pub open spec fn advanced(&self, next: &Self, now: int, draw: int) -> bool {
        match (self, next) {
            (SpanSampler::Passive, SpanSampler::Passive) => true,
            (SpanSampler::Active(a), SpanSampler::Active(b)) => a.advanced(b, now, draw),
            _ => false,
        }
    }

    fn decide(&mut self, now_ns: u64, draw: u64) -> (kept: bool)
        requires
            old(self).wf(),
            draw < PROBABILITY_SCALE,
        ensures
            final(self).wf(),
            kept == old(self).decision(now_ns as int, draw as int),
            old(self).advanced(&*final(self), now_ns as int, draw as int),
    {
        match self {
            SpanSampler::Passive => false,
            SpanSampler::Active(s) => s.should_sample(now_ns, draw),
        }
    }
}

/// A sampler that decides to drop every trace: probability zero.
pub open spec fn keeps_nothing(s: SpanSampler) -> bool {
    s matches SpanSampler::Active(a) && a.probability() == 0
}

/// The span as `finish` sends it: its end time stamped.
pub open spec fn finished(span: Span, now: u64) -> Span {
    Span { end_ns: Some(now), ..span }
}

/// `s` is the span that `before` starts, and `after` the tracer left behind.
pub open spec fn span_started(
    before: Tracer,
    after: Tracer,
    name: String,
    parent: Option<SpanContext>,
    now_ns: u64,
    draw: u64,
    ids: SpanIds,
    s: Span,
) -> bool {
    &&& after.wf()
    &&& after.queued() == before.queued()
    &&& after.capacity() == before.capacity()
    &&& after.lost() == before.lost()
    &&& s.context.span_id == ids.span_id
    &&& s.name == name
    &&& s.start_ns == now_ns
    &&& s.end_ns.is_none()
    &&& s.tags@ == Seq::<(String, String)>::empty()
    &&& match parent {
        Some(p) => {
            &&& s.context.trace_id == p.trace_id
            &&& s.context.sampled == p.sampled
            &&& s.parent_span_id == Some(p.span_id)
            &&& after.sampler() == before.sampler()
        },
        None => {
            &&& s.context.trace_id == ids.trace_id
            &&& s.context.sampled == before.sampler().decision(now_ns as int, draw as int)
            &&& s.parent_span_id.is_none()
            &&& before.sampler().advanced(&after.sampler(), now_ns as int, draw as int)
        },
    }
}

/// `after` is `before` once `span` finished at `now_ns`: a dropped span
/// changes nothing, a kept one is queued, or counted as lost when the queue
/// is full.
pub open spec fn span_finished(before: Tracer, after: Tracer, span: Span, now_ns: u64) -> bool {
    &&& after.wf()
    &&& after.sampler() == before.sampler()
    &&& after.capacity() == before.capacity()
    &&& !span.context.sampled ==> after.queued() == before.queued() && after.lost() == before.lost()
    &&& span.context.sampled && before.queued().len() < before.capacity() ==> {
        &&& after.queued() == before.queued().push(finished(span, now_ns))
        &&& after.lost() == before.lost()
    }
    &&& span.context.sampled && before.queued().len() >= before.capacity() ==> {
        &&& after.queued() == before.queued()
        &&& after.lost() == if before.lost() < u64::MAX {
            before.lost() + 1
        } else {
            before.lost()
        }
    }
}

/// Creates spans and queues the finished, kept ones for the reporter. The
/// queue is bounded: when it is full the newest span is dropped and counted
/// as lost, so that finishing a span never waits.
pub struct Tracer {
    sampler: SpanSampler,
    queue: Vec<Span>,
    capacity: usize,
    lost: u64,
}

impl Tracer {
    pub closed spec fn sampler(&self) -> SpanSampler {
        self.sampler
    }

    /// Finished spans waiting for the reporter, oldest first.
    pub closed spec fn queued(&self) -> Seq<Span> {
        self.queue@
    }

    pub closed spec fn capacity(&self) -> nat {
        self.capacity as nat
    }

    /// Finished, kept spans dropped because the queue was full.
    pub closed spec fn lost(&self) -> nat {
        self.lost as nat
    }

    pub open spec fn wf(&self) -> bool {
        &&& self.sampler().wf()
        &&& self.queued().len() <= self.capacity()
    }

    /// A tracer bound to `sampler` whose queue holds at most `capacity` spans.
    pub fn new(sampler: SpanSampler, capacity: usize) -> (r: Tracer)
        requires
            sampler.wf(),
        ensures
            r.wf(),
            r.sampler() == sampler,
            r.queued() == Seq::<Span>::empty(),
            r.capacity() == capacity,
            r.lost() == 0,
    {
        Tracer { sampler, queue: Vec::new(), capacity, lost: 0 }
    }

    /// Starts a span named `name` at `now_ns`. A span with a parent joins the
    /// parent's trace and takes its decision; a span without one starts a
    /// trace, whose decision the sampler makes with `draw`. The span carries
    /// the ids the caller drew.
    pub fn start_span(
        &mut self,
        name: String,
        parent: Option<SpanContext>,
        now_ns: u64,
        draw: u64,
        ids: SpanIds,
    ) -> (s: Span)
        requires
            old(self).wf(),
            draw < PROBABILITY_SCALE,
        ensures
            span_started(*old(self), *final(self), name, parent, now_ns, draw, ids, s),
    {
        let span_id = ids.span_id;
        match parent {
            Some(p) => Span {
                context: SpanContext { trace_id: p.trace_id, span_id, sampled: p.sampled },
                parent_span_id: Some(p.span_id),
                name,
                start_ns: now_ns,
                end_ns: None,
                tags: Vec::new(),
            },
            None => {
                let sampled = self.sampler.decide(now_ns, draw);
                Span {
                    context: SpanContext { trace_id: ids.trace_id, span_id, sampled },
                    parent_span_id: None,
                    name,
                    start_ns: now_ns,
                    end_ns: None,
                    tags: Vec::new(),
                }
            },
        }
    }

    /// Stamps the end time and queues the span if its trace is kept. A
    /// dropped span leaves no trace; a kept one that finds the queue full is
    /// counted as lost.
    pub fn finish(&mut self, span: Span, now_ns: u64)
        requires
            old(self).wf(),
        ensures
            span_finished(*old(self), *final(self), span, now_ns),
    {
        if span.context.sampled {
            if self.queue.len() < self.capacity {
                self.queue.push(Span { end_ns: Some(now_ns), ..span });
            } else if self.lost < u64::MAX {
                self.lost = self.lost + 1;
            }
        }
    }

    /// Hands the queued spans to the reporter, in the order they finished,
    /// and empties the queue.
    pub fn take_finished(&mut self) -> (r: Vec<Span>)
        requires
            old(self).wf(),
        ensures
            final(self).wf(),
            r@ == old(self).queued(),
            final(self).queued() == Seq::<Span>::empty(),
            final(self).sampler() == old(self).sampler(),
            final(self).capacity() == old(self).capacity(),
            final(self).lost() == old(self).lost(),
    {
        let mut out: Vec<Span> = Vec::new();
        std::mem::swap(&mut self.queue, &mut out);
        out
    }

    /// Spans the queue holds at most.
    pub fn queue_capacity(&self) -> (r: usize)
        ensures
            r == self.capacity(),
    {
        self.capacity
    }

    /// Number of kept spans lost to a full queue.
    pub fn lost_count(&self) -> (r: u64)
        ensures
            r == self.lost(),
    {
        self.lost
    }
}

/// A span of a dropped trace never reaches the reporter queue, and neither do
/// its children, which inherit the decision; a span of a kept trace is queued
/// exactly once, as the newest entry, when the queue has room.
pub proof fn lemma_dropped_never_queued_kept_once(
    before: Tracer,
    after: Tracer,
    span: Span,
    now_ns: u64,
    child_tracer: Tracer,
    child_name: String,
    child_after: Tracer,
    child_at: u64,
    draw: u64,
    child_ids: SpanIds,
    child: Span,
)
    requires
        span_finished(before, after, span, now_ns),
        span_started(child_tracer, child_after, child_name, Some(span.context), child_at, draw, child_ids, child),
    ensures
        !span.context.sampled ==> after.queued() == before.queued(),
        !span.context.sampled ==> !child.context.sampled,
        span.context.sampled && before.queued().len() < before.capacity() ==> {
            &&& after.queued().len() == before.queued().len() + 1
            &&& after.queued().last() == finished(span, now_ns)
            &&& after.queued().drop_last() == before.queued()
        },
{
    if span.context.sampled && before.queued().len() < before.capacity() {
        assert(after.queued().drop_last() =~= before.queued());
    }
}

/// A tracer whose sampler keeps nothing never keeps a trace it starts, and
/// its sampler keeps nothing afterwards either.
pub proof fn lemma_keep_nothing_sampler_starts_dropped_roots(
    before: Tracer,
    after: Tracer,
    name: String,
    now_ns: u64,
    draw: u64,
    ids: SpanIds,
    s: Span,
)
    requires
        keeps_nothing(before.sampler()),
        span_started(before, after, name, None, now_ns, draw, ids, s),
    ensures
        !s.context.sampled,
        keeps_nothing(after.sampler()),
{
}

} // verus!
