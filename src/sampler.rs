//! Per-trace sampling: a probability draw gated by a token bucket that bounds
//! the sustained rate of accepted traces.
use vstd::prelude::*;

verus! {

/// Probabilities are counted in millionths: 1_000_000 stands for 1.
pub const PROBABILITY_SCALE: u64 = 1_000_000;

/// One token of the bucket, in credit units: a bucket refilled at `rate`
/// tokens per second gains `rate` credit units per elapsed nanosecond.
pub const CREDIT_PER_TOKEN: u128 = 1_000_000_000;

/// Settings of an actively deciding sampler.
pub struct ActiveSamplingSettings {
    /// Chance of keeping a trace, in millionths.
    pub probability_ppm: u64,
    /// Ceiling on kept traces per second; `None` leaves the rate unlimited.
    pub rate_per_second: Option<u64>,
    /// Tokens the bucket holds at most, and holds when it is created.
    pub burst: u64,
}

#[derive(Debug, Clone, Copy, PartialEq, Eq, Structural)]
pub enum SamplerConfigError {
    /// The probability is above one.
    ProbabilityOutOfRange,
    /// A limited rate was given a bucket that holds no token.
    ZeroBurst,
}

/// Credit after refilling a bucket at `now`: elapsed time times the rate,
/// capped at the capacity. A clock that went backwards grants nothing.
pub open spec fn refilled_credit(credit: int, last: int, now: int, rate: int, capacity: int) -> int {
    if now > last {
        let c = credit + (now - last) * rate;
        if c > capacity {
            capacity
        } else {
            c
        }
    } else {
        credit
    }
}

/// Time of the last refill after a refill at `now`; it never moves back.
pub open spec fn refilled_time(last: int, now: int) -> int {
    if now > last {
        now
    } else {
        last
    }
}

/// A token bucket's state: (credit, time of last refill).
pub open spec fn bucket_step(
    state: (int, int),
    rate: int,
    capacity: int,
    probability: int,
    now: int,
    draw: int,
) -> ((int, int), bool) {
    let c = refilled_credit(state.0, state.1, now, rate, capacity);
    let t = refilled_time(state.1, now);
    if c >= CREDIT_PER_TOKEN && draw < probability {
        ((c - CREDIT_PER_TOKEN, t), true)
    } else {
        ((c, t), false)
    }
}

/// Runs the bucket over `calls` of (time, draw); returns the final state and
/// how many calls were accepted.
pub open spec fn bucket_run(
    state: (int, int),
    rate: int,
    capacity: int,
    probability: int,
    calls: Seq<(int, int)>,
) -> ((int, int), nat)
    decreases calls.len(),
{
    if calls.len() == 0 {
        (state, 0)
    } else {
        let (s, n) = bucket_run(state, rate, capacity, probability, calls.drop_last());
        let (s2, kept) = bucket_step(s, rate, capacity, probability, calls.last().0, calls.last().1);
        (s2, if kept {
            n + 1
        } else {
            n
        })
    }
}

/// The error that `settings` call for, if any.
pub open spec fn settings_error(settings: ActiveSamplingSettings) -> Option<SamplerConfigError> {
    if settings.probability_ppm > PROBABILITY_SCALE {
        Some(SamplerConfigError::ProbabilityOutOfRange)
    } else if settings.rate_per_second.is_some() && settings.burst == 0 {
        Some(SamplerConfigError::ZeroBurst)
    } else {
        None
    }
}

struct TokenBucket {
    rate: u64,
    capacity: u128,
    credit: u128,
    last_refill_ns: u64,
}

/// Keeps a trace with a fixed probability while a token is available.
pub struct RateLimitingProbabilisticSampler {
    probability_ppm: u64,
    bucket: Option<TokenBucket>,
}

impl RateLimitingProbabilisticSampler {
    pub closed spec fn probability(&self) -> int {
        self.probability_ppm as int
    }

    pub closed spec fn is_limited(&self) -> bool {
        self.bucket.is_some()
    }

    /// Tokens per second; meaningful when the rate is limited.
    pub closed spec fn rate(&self) -> int {
        match self.bucket {
            Some(b) => b.rate as int,
            None => 0,
        }
    }

    /// Largest credit, in credit units.
    pub closed spec fn capacity(&self) -> int {
        match self.bucket {
            Some(b) => b.capacity as int,
            None => 0,
        }
    }

    /// (credit, time of the last refill in nanoseconds).
    pub closed spec fn bucket_state(&self) -> (int, int) {
        match self.bucket {
            Some(b) => (b.credit as int, b.last_refill_ns as int),
            None => (0, 0),
        }
    }

    /// This is the sampler that valid `settings` give at time `now`: the
    /// bucket, when the rate is limited, starts full.
    pub open spec fn configured_by(&self, settings: ActiveSamplingSettings, now: int) -> bool {
        &&& self.wf()
        &&& self.probability() == settings.probability_ppm
        &&& self.is_limited() == settings.rate_per_second.is_some()
        &&& settings.rate_per_second matches Some(rate) ==> {
            &&& self.rate() == rate
            &&& self.capacity() == settings.burst * CREDIT_PER_TOKEN
            &&& self.bucket_state() == (self.capacity(), now)
        }
    }

    /// Whether a call at time `now` with `draw` keeps the trace.
    pub open spec fn decision(&self, now: int, draw: int) -> bool {
        if self.is_limited() {
            bucket_step(self.bucket_state(), self.rate(), self.capacity(), self.probability(), now, draw).1
        } else {
            draw < self.probability()
        }
    }

    /// `next` is this sampler after a decision at time `now` with `draw`.
    pub open spec fn advanced(&self, next: &Self, now: int, draw: int) -> bool {
        &&& next.wf()
        &&& next.probability() == self.probability()
        &&& next.is_limited() == self.is_limited()
        &&& next.rate() == self.rate()
        &&& next.capacity() == self.capacity()
        &&& self.is_limited() ==> next.bucket_state() == bucket_step(
            self.bucket_state(),
            self.rate(),
            self.capacity(),
            self.probability(),
            now,
            draw,
        ).0
    }

    pub closed spec fn wf(&self) -> bool {
        &&& self.probability_ppm <= PROBABILITY_SCALE
        &&& match self.bucket {
            Some(b) => b.credit <= b.capacity && b.capacity <= (u64::MAX as u128)
                * CREDIT_PER_TOKEN,
            None => true,
        }
    }

    /// Checks the settings; the bucket starts full at time `now_ns`.
    pub fn new(settings: &ActiveSamplingSettings, now_ns: u64) -> (r: Result<
        Self,
        SamplerConfigError,
    >)
        ensures
            match settings_error(*settings) {
                Some(e) => r == Err::<Self, SamplerConfigError>(e),
                None => r matches Ok(s) && s.configured_by(*settings, now_ns as int),
            },
    {
        if settings.probability_ppm > PROBABILITY_SCALE {
            return Err(SamplerConfigError::ProbabilityOutOfRange);
        }
        match settings.rate_per_second {
            None => Ok(RateLimitingProbabilisticSampler {
                probability_ppm: settings.probability_ppm,
                bucket: None,
            }),
            Some(rate) => {
                if settings.burst == 0 {
                    return Err(SamplerConfigError::ZeroBurst);
                }
                let capacity: u128 = settings.burst as u128 * CREDIT_PER_TOKEN;
                Ok(RateLimitingProbabilisticSampler {
                    probability_ppm: settings.probability_ppm,
                    bucket: Some(
                        TokenBucket { rate, capacity, credit: capacity, last_refill_ns: now_ns },
                    ),
                })
            },
        }
    }

    /// Decides whether to keep a new trace at time `now_ns`, given `draw`, a
    /// uniformly random number below `PROBABILITY_SCALE`.
    pub fn should_sample(&mut self, now_ns: u64, draw: u64) -> (kept: bool)
        requires
            old(self).wf(),
            draw < PROBABILITY_SCALE,
        ensures
            kept == old(self).decision(now_ns as int, draw as int),
            old(self).advanced(&*final(self), now_ns as int, draw as int),
    {
        let p = self.probability_ppm;
        match &mut self.bucket {
            None => draw < p,
            Some(b) => {
                if now_ns > b.last_refill_ns {
                    let elapsed: u64 = now_ns - b.last_refill_ns;
                    let room: u128 = b.capacity - b.credit;
                    proof {
                        assert((elapsed as u128) * (b.rate as u128) <= u128::MAX) by (nonlinear_arith)
                            requires
                                elapsed <= u64::MAX,
                                b.rate <= u64::MAX,
                        ;
                    }
                    let gained: u128 = elapsed as u128 * b.rate as u128;
                    if gained >= room {
                        b.credit = b.capacity;
                    } else {
                        b.credit = b.credit + gained;
                    }
                    b.last_refill_ns = now_ns;
                }
                if b.credit >= CREDIT_PER_TOKEN && draw < p {
                    b.credit = b.credit - CREDIT_PER_TOKEN;
                    true
                } else {
                    false
                }
            },
        }
    }
}

impl Default for RateLimitingProbabilisticSampler {
    /// A sampler that keeps nothing.
    fn default() -> (r: Self)
        ensures
            r.wf(),
            r.probability() == 0,
            !r.is_limited(),
    {
        RateLimitingProbabilisticSampler { probability_ppm: 0, bucket: None }
    }
}

/// A sampler with probability zero never keeps a trace, whatever its bucket holds.
pub proof fn lemma_zero_probability_never_keeps(
    s: RateLimitingProbabilisticSampler,
    now: int,
    draw: int,
)
    requires
        s.probability() == 0,
        draw >= 0,
    ensures
        !s.decision(now, draw),
{
}

/// A refill never takes credit away: with a clock that went backwards the
/// credit is unchanged, and otherwise it does not shrink below what it was.
pub proof fn lemma_refill_never_negative(credit: int, last: int, now: int, rate: int, capacity: int)
    requires
        0 <= credit <= capacity,
        rate >= 0,
    ensures
        now <= last ==> refilled_credit(credit, last, now, rate, capacity) == credit,
        credit <= refilled_credit(credit, last, now, rate, capacity) <= capacity,
        refilled_time(last, now) >= last,
{
    if now > last {
        assert((now - last) * rate >= 0) by (nonlinear_arith)
            requires
                now > last,
                rate >= 0,
        ;
    }
}

/// Over any run of calls, the accepted traces never exceed the credit the
/// bucket started with plus what the rate refilled over the elapsed time:
/// `accepted * CREDIT_PER_TOKEN + final_credit <= start_credit + rate * elapsed`.
pub proof fn lemma_rate_ceiling(
    state: (int, int),
    rate: int,
    capacity: int,
    probability: int,
    calls: Seq<(int, int)>,
)
    requires
        0 <= state.0 <= capacity,
        rate >= 0,
    ensures
        ({
            let (s, n) = bucket_run(state, rate, capacity, probability, calls);
            &&& 0 <= s.0 <= capacity
            &&& s.1 >= state.1
            &&& n * CREDIT_PER_TOKEN + s.0 <= state.0 + rate * (s.1 - state.1)
        }),
    decreases calls.len(),
{
    if calls.len() > 0 {
        lemma_rate_ceiling(state, rate, capacity, probability, calls.drop_last());
        let (s, n) = bucket_run(state, rate, capacity, probability, calls.drop_last());
        let now = calls.last().0;
        lemma_refill_never_negative(s.0, s.1, now, rate, capacity);
        let t = refilled_time(s.1, now);
        assert(rate * (t - state.1) == rate * (s.1 - state.1) + rate * (t - s.1)) by (nonlinear_arith);
        if now > s.1 {
            assert(refilled_credit(s.0, s.1, now, rate, capacity) <= s.0 + (now - s.1) * rate);
            assert((now - s.1) * rate == rate * (t - s.1)) by (nonlinear_arith)
                requires
                    t == now,
            ;
        }
    }
}

} // verus!
