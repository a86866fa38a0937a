//! Settings, tracer construction and the once-only installation of the
//! process's harness over a no-op fallback.
use vstd::prelude::*;
use crate::events::{event_of, TraceEvent};
use crate::harness::TracingHarness;
use crate::live_set::live_values;
use crate::sampler::{
    settings_error, ActiveSamplingSettings, RateLimitingProbabilisticSampler, SamplerConfigError,
};
use crate::tracer::{keeps_nothing, SpanSampler, Tracer};

verus! {

pub enum SamplingStrategy {
    /// Keep only what a trace started elsewhere decided to keep.
    Passive,
    Active(ActiveSamplingSettings),
}

pub struct TracingSettings {
    pub enabled: bool,
    pub sampling_strategy: SamplingStrategy,
    /// Finished spans the reporter queue holds before it drops new ones.
    pub queue_capacity: usize,
}

#[derive(Debug, Clone, Copy, PartialEq, Eq, Structural)]
pub enum BootstrapError {
    /// The sampler settings are invalid.
    Sampler(SamplerConfigError),
    /// The reporter for the chosen output could not start.
    ReporterStart,
}

/// The tracer that `settings` describe, created at `now_ns`.
pub open spec fn tracer_configured_by(t: Tracer, settings: TracingSettings, now_ns: int) -> bool {
    &&& t.wf()
    &&& t.queued() == Seq::<crate::tracer::Span>::empty()
    &&& t.capacity() == settings.queue_capacity
    &&& t.lost() == 0
    &&& match settings.sampling_strategy {
        SamplingStrategy::Passive => t.sampler() is Passive,
        SamplingStrategy::Active(a) => t.sampler() matches SpanSampler::Active(s) && s.configured_by(
            a,
            now_ns,
        ),
    }
}

/// Builds the tracer that `settings` describe; fails only on invalid
/// sampler settings. Spans it finishes wait in its queue for the reporter.
pub fn create_tracer_and_span_rx(settings: &TracingSettings, now_ns: u64) -> (r: Result<
    Tracer,
    BootstrapError,
>)
    ensures
        match settings.sampling_strategy {
            SamplingStrategy::Active(a) if settings_error(a) is Some => r == Err::<
                Tracer,
                BootstrapError,
            >(BootstrapError::Sampler(settings_error(a).unwrap())),
            _ => r matches Ok(t) && tracer_configured_by(t, *settings, now_ns as int),
        },
{
    let sampler = match &settings.sampling_strategy {
        SamplingStrategy::Passive => SpanSampler::Passive,
        SamplingStrategy::Active(a) => match RateLimitingProbabilisticSampler::new(a, now_ns) {
            Ok(s) => SpanSampler::Active(s),
            Err(e) => {
                return Err(BootstrapError::Sampler(e));
            },
        },
    };
    Ok(Tracer::new(sampler, settings.queue_capacity))
}

/// What the slot holds after installing `h` over `current`: the first
/// harness installed stays.
pub open spec fn after_install(current: Option<TracingHarness>, h: TracingHarness) -> Option<
    TracingHarness,
> {
    match current {
        Some(c) => Some(c),
        None => Some(h),
    }
}

/// The process's harness: a no-op fallback until a real one is installed,
/// which happens at most once.
pub struct HarnessSlot {
    installed: Option<TracingHarness>,
    fallback: TracingHarness,
}

impl HarnessSlot {
    pub closed spec fn installed(&self) -> Option<TracingHarness> {
        self.installed
    }

    pub closed spec fn fallback(&self) -> TracingHarness {
        self.fallback
    }

    /// The harness in use: the installed one, else the fallback.
    pub open spec fn current(&self) -> TracingHarness {
        match self.installed() {
            Some(h) => h,
            None => self.fallback(),
        }
    }

    pub open spec fn wf(&self) -> bool {
        &&& self.current().wf()
        &&& self.fallback().wf()
    }

    /// A slot with nothing installed, whose fallback starts at `now_ns`.
    pub fn new(now_ns: u64) -> (r: Self)
        ensures
            r.wf(),
            r.installed().is_none(),
            r.fallback().roots() == Seq::<Option<crate::tracer::Span>>::empty(),
            r.fallback().tracing_start() == now_ns,
            r.fallback().base_tracer().capacity() == 0,
            r.fallback().base_tracer().queued() == Seq::<crate::tracer::Span>::empty(),
            r.fallback().base_tracer().lost() == 0,
            keeps_nothing(r.fallback().base_tracer().sampler()),
    {
        HarnessSlot { installed: None, fallback: TracingHarness::noop(now_ns) }
    }

    /// Whether a real harness is installed.
    pub fn is_active(&self) -> (r: bool)
        ensures
            r == self.installed().is_some(),
    {
        self.installed.is_some()
    }

    /// The harness in use; never absent.
    pub fn get(&self) -> (r: &TracingHarness)
        ensures
            *r == self.current(),
    {
        match &self.installed {
            Some(h) => h,
            None => &self.fallback,
        }
    }

    /// The harness in use, for starting and finishing spans.
    pub fn get_mut(&mut self) -> (r: &mut TracingHarness)
        ensures
            *r == old(self).current(),
            final(self).installed().is_some() == old(self).installed().is_some(),
            final(self).current() == *final(r),
            old(self).installed().is_some() ==> final(self).fallback() == old(self).fallback(),
    {
        match &mut self.installed {
            Some(h) => h,
            None => &mut self.fallback,
        }
    }

    /// Installs `h` unless a harness is installed already, in which case
    /// nothing changes. Returns whether `h` was installed.
    pub fn install(&mut self, h: TracingHarness) -> (done: bool)
        requires
            old(self).wf(),
            h.wf(),
        ensures
            final(self).wf(),
            done == old(self).installed().is_none(),
            final(self).installed() == after_install(old(self).installed(), h),
            final(self).fallback() == old(self).fallback(),
    {
        if self.installed.is_none() {
            self.installed = Some(h);
            true
        } else {
            false
        }
    }
}

/// The first step of initialisation: the harness to install, or `None` when
/// tracing is disabled or a harness is installed already. The caller then
/// starts the reporter and installs the harness, or, if the reporter fails,
/// installs nothing.
pub fn prepare_init(slot: &HarnessSlot, settings: &TracingSettings, now_ns: u64) -> (r: Result<
    Option<TracingHarness>,
    BootstrapError,
>)
    ensures
        !settings.enabled || slot.installed().is_some() ==> r == Ok::<
            Option<TracingHarness>,
            BootstrapError,
        >(None),
        settings.enabled && slot.installed().is_none() ==> match settings.sampling_strategy {
            SamplingStrategy::Active(a) if settings_error(a) is Some => r == Err::<
                Option<TracingHarness>,
                BootstrapError,
            >(BootstrapError::Sampler(settings_error(a).unwrap())),
            _ => r matches Ok(Some(h)) && {
                &&& h.wf()
                &&& tracer_configured_by(h.base_tracer(), *settings, now_ns as int)
                &&& h.roots() == Seq::<Option<crate::tracer::Span>>::empty()
                &&& h.tracing_start() == now_ns
            },
        },
{
    if !settings.enabled || slot.is_active() {
        return Ok(None);
    }
    match create_tracer_and_span_rx(settings, now_ns) {
        Ok(tracer) => Ok(Some(TracingHarness::new(tracer, now_ns))),
        Err(e) => Err(e),
    }
}

/// Installing twice keeps the first harness: the second install changes
/// nothing, whatever it offers.
pub proof fn lemma_second_install_changes_nothing(
    current: Option<TracingHarness>,
    first: TracingHarness,
    second: TracingHarness,
)
    ensures
        after_install(after_install(current, first), second) == after_install(current, first),
        current.is_none() ==> after_install(after_install(current, first), second) == Some(first),
{
}

/// With nothing installed, as disabled tracing leaves the slot, the harness
/// in use lists no active trace while its roots are as the slot started them.
pub proof fn lemma_fallback_has_no_active_traces(slot: HarnessSlot)
    requires
        slot.installed().is_none(),
        slot.fallback().roots() == Seq::<Option<crate::tracer::Span>>::empty(),
    ensures
        live_values(slot.current().roots()).map_values(
            |s: crate::tracer::Span| event_of(slot.current().tracing_start(), s),
        ) == Seq::<TraceEvent>::empty(),
{
    assert(live_values(slot.current().roots()) == Seq::<crate::tracer::Span>::empty());
    assert(live_values(slot.current().roots()).map_values(
        |s: crate::tracer::Span| event_of(slot.current().tracing_start(), s),
    ) =~= Seq::<TraceEvent>::empty());
}

} // verus!
