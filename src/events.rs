//! Turns spans into trace events timed from the start of tracing.
use vstd::prelude::*;
use crate::tracer::{Span, SpanContext};

verus! {

/// Whether the span of an event was still open when the event was made.
#[derive(Debug, Clone, Copy, PartialEq, Eq, Structural)]
pub enum EventState {
    Ongoing,
    Finished { duration_ns: u64 },
}

#[derive(Debug)]
pub struct TraceEvent {
    pub context: SpanContext,
    pub parent_span_id: Option<u64>,
    pub name: String,
    /// Nanoseconds from the start of tracing to the start of the span; a
    /// span that started earlier counts from zero.
    pub start_offset_ns: u64,
    pub state: EventState,
}

/// `a - b`, or zero where `b` is larger.
pub open spec fn saturating_diff(a: u64, b: u64) -> u64 {
    if a >= b {
        (a - b) as u64
    } else {
        0
    }
}

/// The event that stands for `span`, timed from `tracing_start_ns`. An open
/// span is reported as ongoing.
pub open spec fn event_of(tracing_start_ns: u64, span: Span) -> TraceEvent {
    TraceEvent {
        context: span.context,
        parent_span_id: span.parent_span_id,
        name: span.name,
        start_offset_ns: saturating_diff(span.start_ns, tracing_start_ns),
        state: match span.end_ns {
            None => EventState::Ongoing,
            Some(end) => EventState::Finished { duration_ns: saturating_diff(end, span.start_ns) },
        },
    }
}

/// The event of one span.
pub fn span_to_trace_event(tracing_start_ns: u64, span: &Span) -> (r: TraceEvent)
    ensures
        r == event_of(tracing_start_ns, *span),
{
    let start_offset_ns: u64 = if span.start_ns >= tracing_start_ns {
        span.start_ns - tracing_start_ns
    } else {
        0
    };
    let state = match span.end_ns {
        None => EventState::Ongoing,
        Some(end) => EventState::Finished {
            duration_ns: if end >= span.start_ns {
                end - span.start_ns
            } else {
                0
            },
        },
    };
    TraceEvent {
        context: span.context,
        parent_span_id: span.parent_span_id,
        name: span.name.clone(),
        start_offset_ns,
        state,
    }
}

/// One event per span, in the order of the spans.
pub fn spans_to_trace_events(tracing_start_ns: u64, spans: &Vec<Span>) -> (r: Vec<TraceEvent>)
    ensures
        r@ == spans@.map_values(|s: Span| event_of(tracing_start_ns, s)),
{
    let mut out: Vec<TraceEvent> = Vec::new();
    let mut i: usize = 0;
    while i < spans.len()
        invariant
            i <= spans@.len(),
            out@ == spans@.take(i as int).map_values(|s: Span| event_of(tracing_start_ns, s)),
        decreases spans@.len() - i,
    {
        let e = span_to_trace_event(tracing_start_ns, &spans[i]);
        out.push(e);
        i = i + 1;
        proof {
            assert(out@ =~= spans@.take(i as int).map_values(
                |s: Span| event_of(tracing_start_ns, s),
            ));
        }
    }
    proof {
        assert(spans@.take(i as int) =~= spans@);
    }
    out
}

} // verus!
