//! Voice-activity gated rechunking of an audio stream.
//!
//! Durations are whole nanoseconds. Probabilities and threshold ratios are
//! fixed-point numbers in millionths: `PROBABILITY_ONE` stands for 1.0. The
//! probability mass of a frame is its probability times its duration, so the
//! average probability of a set of frames is their mass over their total
//! duration, and comparisons of averages against thresholds are done exactly
//! by cross-multiplication.
//!
//! The end of a run is judged against an adaptive threshold that moves from
//! the configured end threshold toward the run's own average probability as
//! the run lengthens. It is computed with a logarithm and an exponential, so
//! the caller computes it, from what `decay_inputs` reports for the next
//! frame, and passes it to `push` with that frame.
use std::collections::VecDeque;
use vstd::prelude::*;

verus! {

/// The fixed-point value that stands for a probability of 1.0.
pub const PROBABILITY_ONE: u32 = 1_000_000;

/// Nanoseconds in one second.
pub const NANOS_PER_SECOND: u64 = 1_000_000_000;

/// Why a frame was refused; a refused frame leaves the rechunker unchanged.
#[derive(Clone, Copy, Debug, PartialEq, Eq)]
pub enum FrameError {
    /// The probability is above `PROBABILITY_ONE`.
    ProbabilityOutOfRange,
    /// The frame holds too few samples to last a nanosecond.
    ZeroDuration,
    /// The duration cannot be derived (no channels, a zero sample rate) or
    /// does not fit in 64 bits of nanoseconds.
    UnrepresentableDuration,
}

/// One frame of interleaved audio, described by what the rechunker reads of
/// it, with the voice-activity probability that a detector gave it.
#[derive(Clone, Copy, Debug, PartialEq, Eq)]
pub struct AnnotatedFrame {
    pub sample_count: u64,
    pub channel_count: u16,
    pub sample_rate: u32,
    pub probability: u32,
}

impl AnnotatedFrame {
    /// Duration in nanoseconds: samples over samples per second, rounded down.
    pub open spec fn duration_spec(self) -> int {
        if self.sample_rate == 0 || self.channel_count == 0 {
            0
        } else {
            (self.sample_count * NANOS_PER_SECOND) as int / (self.sample_rate
                * self.channel_count) as int
        }
    }

    proof fn lemma_duration_nonnegative(self)
        ensures
            self.duration_spec() >= 0,
    {
        if self.sample_rate != 0 && self.channel_count != 0 {
            let num = (self.sample_count * NANOS_PER_SECOND) as int;
            let rate = self.sample_rate as int;
            let channels = self.channel_count as int;
            assert(num / (rate * channels) >= 0) by (nonlinear_arith)
                requires
                    num >= 0,
                    rate > 0,
                    channels > 0,
            ;
        }
    }

    /// The duration of an acceptable frame, or why it is refused.
    pub open spec fn checked_spec(self) -> Result<u64, FrameError> {
        if self.probability > PROBABILITY_ONE {
            Err(FrameError::ProbabilityOutOfRange)
        } else if self.sample_rate == 0 || self.channel_count == 0 {
            Err(FrameError::UnrepresentableDuration)
        } else if self.duration_spec() == 0 {
            Err(FrameError::ZeroDuration)
        } else if self.duration_spec() > u64::MAX {
            Err(FrameError::UnrepresentableDuration)
        } else {
            Ok(self.duration_spec() as u64)
        }
    }

    /// Checks the frame and derives its duration in nanoseconds.
    pub fn checked_duration(&self) -> (r: Result<u64, FrameError>)
        ensures
            r == self.checked_spec(),
    {
        if self.probability > PROBABILITY_ONE {
            return Err(FrameError::ProbabilityOutOfRange);
        }
        if self.sample_rate == 0 || self.channel_count == 0 {
            return Err(FrameError::UnrepresentableDuration);
        }
        let count: u128 = self.sample_count as u128;
        let rate: u128 = self.sample_rate as u128;
        let channels: u128 = self.channel_count as u128;
        assert(0 < rate * channels <= u128::MAX && count * 1_000_000_000 <= u128::MAX)
            by (nonlinear_arith)
            requires
                count <= u64::MAX,
                0 < rate <= u32::MAX,
                0 < channels <= u16::MAX,
        ;
        let per_second: u128 = rate * channels;
        let nanos: u128 = (count * 1_000_000_000) / per_second;
        if nanos == 0 {
            Err(FrameError::ZeroDuration)
        } else if nanos > u64::MAX as u128 {
            Err(FrameError::UnrepresentableDuration)
        } else {
            Ok(nanos as u64)
        }
    }
}


/// Probability mass of one window sample: probability times duration.
pub open spec fn sample_mass(x: (u32, u64)) -> nat {
    (x.0 as nat) * (x.1 as nat)
}

/// Total probability mass of a run of window samples.
pub open spec fn mass_of(w: Seq<(u32, u64)>) -> nat
    decreases w.len(),
{
    if w.len() == 0 {
        0
    } else {
        sample_mass(w[0]) + mass_of(w.skip(1))
    }
}

/// Total duration of a run of window samples.
pub open spec fn span_of(w: Seq<(u32, u64)>) -> nat
    decreases w.len(),
{
    if w.len() == 0 {
        0
    } else {
        w[0].1 as nat + span_of(w.skip(1))
    }
}

/// Total duration of a run of buffered frame durations.
pub open spec fn total_of(b: Seq<u64>) -> nat
    decreases b.len(),
{
    if b.len() == 0 {
        0
    } else {
        b[0] as nat + total_of(b.skip(1))
    }
}

/// How many of the oldest samples leave the window: oldest first, while the
/// window lasts longer than `target`.
pub open spec fn evicted(w: Seq<(u32, u64)>, target: nat) -> nat
    decreases w.len(),
{
    if w.len() == 0 || span_of(w) <= target {
        0
    } else {
        1 + evicted(w.skip(1), target)
    }
}

/// How many of the oldest frames leave the pre-roll: oldest first, while the
/// buffered duration reaches `limit`.
pub open spec fn trimmed(b: Seq<u64>, limit: nat) -> nat
    decreases b.len(),
{
    if b.len() == 0 || total_of(b) < limit {
        0
    } else {
        1 + trimmed(b.skip(1), limit)
    }
}

proof fn lemma_mass_push(w: Seq<(u32, u64)>, x: (u32, u64))
    ensures
        mass_of(w.push(x)) == mass_of(w) + sample_mass(x),
        span_of(w.push(x)) == span_of(w) + x.1,
    decreases w.len(),
{
    if w.len() == 0 {
        assert(w.push(x).skip(1) =~= Seq::<(u32, u64)>::empty());
        assert(mass_of(Seq::<(u32, u64)>::empty()) == 0);
        assert(span_of(Seq::<(u32, u64)>::empty()) == 0);
        assert(w.push(x)[0] == x);
    } else {
        assert(w.push(x).skip(1) =~= w.skip(1).push(x));
        assert(w.push(x)[0] == w[0]);
        lemma_mass_push(w.skip(1), x);
    }
}

proof fn lemma_total_push(b: Seq<u64>, x: u64)
    ensures
        total_of(b.push(x)) == total_of(b) + x,
    decreases b.len(),
{
    if b.len() == 0 {
        assert(b.push(x).skip(1) =~= Seq::<u64>::empty());
        assert(total_of(Seq::<u64>::empty()) == 0);
        assert(b.push(x)[0] == x);
    } else {
        assert(b.push(x).skip(1) =~= b.skip(1).push(x));
        assert(b.push(x)[0] == b[0]);
        lemma_total_push(b.skip(1), x);
    }
}

proof fn lemma_mass_at_most(w: Seq<(u32, u64)>, bound: nat)
    requires
        forall|i: int| 0 <= i < w.len() ==> w[i].0 <= bound,
    ensures
        mass_of(w) <= bound * span_of(w),
    decreases w.len(),
{
    if w.len() > 0 {
        let x = w[0];
        assert(sample_mass(x) <= bound * (x.1 as nat)) by (nonlinear_arith)
            requires
                x.0 <= bound,
                sample_mass(x) == (x.0 as nat) * (x.1 as nat),
        ;
        lemma_mass_at_most(w.skip(1), bound);
        assert(bound * span_of(w) == bound * (x.1 as nat) + bound * span_of(w.skip(1)))
            by (nonlinear_arith)
            requires
                span_of(w) == x.1 as nat + span_of(w.skip(1)),
        ;
    }
}

proof fn lemma_evicted_all(q: Seq<(u32, u64)>, x: (u32, u64), target: nat)
    requires
        x.1 == target,
        forall|i: int| 0 <= i < q.len() ==> q[i].1 > 0,
    ensures
        evicted(q.push(x), target) == q.len(),
    decreases q.len(),
{
    if q.len() == 0 {
        assert(q.push(x).skip(1) =~= Seq::<(u32, u64)>::empty());
        assert(span_of(Seq::<(u32, u64)>::empty()) == 0);
        assert(q.push(x)[0] == x);
    } else {
        assert(q.push(x).skip(1) =~= q.skip(1).push(x));
        assert(q.push(x)[0] == q[0]);
        lemma_mass_push(q.skip(1), x);
        lemma_evicted_all(q.skip(1), x, target);
    }
}

proof fn lemma_span_positive(w: Seq<(u32, u64)>)
    requires
        forall|i: int| 0 <= i < w.len() ==> w[i].1 > 0,
    ensures
        w.len() > 0 <==> span_of(w) > 0,
{
    if w.len() > 0 {
        assert(w[0].1 > 0);
    }
}

proof fn lemma_total_positive(b: Seq<u64>)
    requires
        forall|i: int| 0 <= i < b.len() ==> b[i] > 0,
    ensures
        b.len() > 0 <==> total_of(b) > 0,
{
    if b.len() > 0 {
        assert(b[0] > 0);
    }
}

/// Why a configuration was refused.
#[derive(Clone, Copy, Debug, PartialEq, Eq)]
pub enum ConfigError {
    StartThresholdOutOfRange,
    StartWindowZero,
    EndThresholdOutOfRange,
    EndWindowZero,
    TimeBeforeSpeechZero,
    MaxDurationZero,
    DecayFactorZero,
}

/// Settings of a rechunker. Thresholds and the decay factor are in millionths,
/// durations in nanoseconds.
#[derive(Clone, Copy, Debug, PartialEq, Eq)]
pub struct RechunkerConfig {
    pub start_threshold: u32,
    pub start_window: u64,
    pub end_threshold: u32,
    pub end_window: u64,
    pub time_before_speech: u64,
    pub max_duration: u64,
    pub decay_factor: u32,
}

impl RechunkerConfig {
    /// The first setting that is out of its range, if any. The end threshold
    /// must be above zero: the decay takes its logarithm.
    pub open spec fn error_spec(self) -> Option<ConfigError> {
        if self.start_threshold > PROBABILITY_ONE {
            Some(ConfigError::StartThresholdOutOfRange)
        } else if self.start_window == 0 {
            Some(ConfigError::StartWindowZero)
        } else if self.end_threshold == 0 || self.end_threshold > PROBABILITY_ONE {
            Some(ConfigError::EndThresholdOutOfRange)
        } else if self.end_window == 0 {
            Some(ConfigError::EndWindowZero)
        } else if self.time_before_speech == 0 {
            Some(ConfigError::TimeBeforeSpeechZero)
        } else if self.max_duration == 0 {
            Some(ConfigError::MaxDurationZero)
        } else if self.decay_factor == 0 {
            Some(ConfigError::DecayFactorZero)
        } else {
            None
        }
    }

    pub open spec fn is_valid(self) -> bool {
        self.error_spec() is None
    }

    /// Checks every setting against its range.
    pub fn validate(&self) -> (r: Result<(), ConfigError>)
        ensures
            r is Ok <==> self.is_valid(),
            r matches Err(e) ==> self.error_spec() == Some(e),
    {
        if self.start_threshold > PROBABILITY_ONE {
            Err(ConfigError::StartThresholdOutOfRange)
        } else if self.start_window == 0 {
            Err(ConfigError::StartWindowZero)
        } else if self.end_threshold == 0 || self.end_threshold > PROBABILITY_ONE {
            Err(ConfigError::EndThresholdOutOfRange)
        } else if self.end_window == 0 {
            Err(ConfigError::EndWindowZero)
        } else if self.time_before_speech == 0 {
            Err(ConfigError::TimeBeforeSpeechZero)
        } else if self.max_duration == 0 {
            Err(ConfigError::MaxDurationZero)
        } else if self.decay_factor == 0 {
            Err(ConfigError::DecayFactorZero)
        } else {
            Ok(())
        }
    }
}


proof fn lemma_skip_mass_le(w: Seq<(u32, u64)>, k: nat)
    requires
        k <= w.len(),
    ensures
        mass_of(w.skip(k as int)) <= mass_of(w),
    decreases k,
{
    if k > 0 {
        assert(w.skip(1).skip(k - 1) =~= w.skip(k as int));
        lemma_skip_mass_le(w.skip(1), (k - 1) as nat);
    } else {
        assert(w.skip(0) =~= w);
    }
}

proof fn lemma_total_skip_le(b: Seq<u64>, k: nat)
    requires
        k <= b.len(),
    ensures
        total_of(b.skip(k as int)) <= total_of(b),
    decreases k,
{
    if k > 0 {
        assert(b.skip(1).skip(k - 1) =~= b.skip(k as int));
        lemma_total_skip_le(b.skip(1), (k - 1) as nat);
    } else {
        assert(b.skip(0) =~= b);
    }
}

proof fn lemma_evicted_fits(w: Seq<(u32, u64)>, target: nat)
    ensures
        evicted(w, target) <= w.len(),
        span_of(w.skip(evicted(w, target) as int)) <= target,
    decreases w.len(),
{
    if w.len() == 0 || span_of(w) <= target {
        assert(w.skip(0) =~= w);
    } else {
        lemma_evicted_fits(w.skip(1), target);
        let k = evicted(w.skip(1), target);
        assert(w.skip(1).skip(k as int) =~= w.skip(k + 1 as int));
    }
}

proof fn lemma_trimmed_fits(b: Seq<u64>, limit: nat)
    requires
        limit > 0,
    ensures
        trimmed(b, limit) <= b.len(),
        total_of(b.skip(trimmed(b, limit) as int)) < limit,
    decreases b.len(),
{
    if b.len() == 0 {
        assert(b.skip(0) =~= b);
    } else if total_of(b) < limit {
        assert(b.skip(0) =~= b);
    } else {
        lemma_trimmed_fits(b.skip(1), limit);
        let k = trimmed(b.skip(1), limit);
        assert(b.skip(1).skip(k as int) =~= b.skip(k + 1 as int));
    }
}

/// Drops the `k` oldest entries of a queue.
fn drop_oldest<T>(q: &mut VecDeque<T>, k: usize)
    requires
        k <= old(q)@.len(),
    ensures
        final(q)@ == old(q)@.skip(k as int),
{
    let ghost orig = q@;
    let mut j: usize = 0;
    assert(orig.skip(0) =~= orig);
    while j < k
        invariant
            j <= k <= orig.len(),
            q@ == orig.skip(j as int),
        decreases k - j,
    {
        let _ = q.pop_front();
        assert(orig.skip(j as int).skip(1) =~= orig.skip(j + 1));
        j = j + 1;
    }
}

/// Drops the oldest frames of a pre-roll buffer while what it holds lasts at
/// least `limit`; returns what is left of `total`.
fn trim_front(buffer: &mut VecDeque<u64>, total: u128, limit: u64) -> (rest: u128)
    requires
        limit > 0,
        total == total_of(old(buffer)@),
        forall|i: int| 0 <= i < old(buffer)@.len() ==> old(buffer)@[i] > 0,
    ensures
        final(buffer)@ == old(buffer)@.skip(trimmed(old(buffer)@, limit as nat) as int),
        rest == total_of(final(buffer)@),
{
    let ghost orig = buffer@;
    let mut rest: u128 = total;
    assert(orig.skip(0) =~= orig);
    while rest >= limit as u128
        invariant
            limit > 0,
            forall|i: int| 0 <= i < orig.len() ==> orig[i] > 0,
            buffer@.len() <= orig.len(),
            buffer@ == orig.skip(orig.len() - buffer@.len()),
            rest == total_of(buffer@),
            trimmed(orig, limit as nat) == (orig.len() - buffer@.len()) + trimmed(
                buffer@,
                limit as nat,
            ),
        decreases buffer@.len(),
    {
        let ghost cur = buffer@;
        proof {
            lemma_total_positive(cur);
        }
        let front = buffer.pop_front();
        match front {
            Some(x) => {
                assert(cur.skip(1) =~= orig.skip(orig.len() - buffer@.len()));
                rest = rest - x as u128;
            },
            None => {},
        }
    }
    rest
}

/// Duration of a window sample times its probability, in exact arithmetic.
fn mass_exec(p: u32, d: u64) -> (r: u128)
    ensures
        r == sample_mass((p, d)),
        p <= PROBABILITY_ONE ==> r <= PROBABILITY_ONE * (d as nat),
{
    assert((p as nat) * (d as nat) <= u128::MAX) by (nonlinear_arith)
        requires
            p <= u32::MAX,
            d <= u64::MAX,
    ;
    assert(p <= PROBABILITY_ONE ==> (p as nat) * (d as nat) <= PROBABILITY_ONE * (d as nat))
        by (nonlinear_arith)
    ;
    (p as u128) * (d as u128)
}

/// One utterance handed downstream: the last `frame_count` accepted frames,
/// oldest first, which last `duration` nanoseconds in all, `voice_duration`
/// of them since speech was detected.
#[derive(Clone, Copy, Debug, PartialEq, Eq)]
pub struct OutputChunk {
    pub channel_count: u16,
    pub sample_rate: u32,
    pub frame_count: usize,
    pub duration: u128,
    pub voice_duration: u128,
}

/// What the adaptive end threshold is computed from, once a frame has been
/// taken in: the probability mass of the run so far, the duration it is
/// averaged over (the run plus the pre-roll horizon), and the time spent in
/// the run. The run's average probability is `run_mass / run_span`, in
/// millionths.
#[derive(Clone, Copy, Debug, PartialEq, Eq)]
pub struct DecayInputs {
    pub in_run: bool,
    pub run_mass: u128,
    pub run_span: u128,
    pub elapsed: u128,
}

/// The state of a rechunker as mathematical values. `window` holds
/// (probability, duration) samples and `buffer` the durations of the frames
/// kept for output, both oldest first. The three totals count every accepted
/// nanosecond: taken in, handed out in chunks, and dropped.
pub struct RechunkerView {
    pub config: RechunkerConfig,
    pub in_run: bool,
    pub window: Seq<(u32, u64)>,
    pub before_window_mass: nat,
    pub duration_in_voice: nat,
    pub pre_roll: nat,
    pub buffer: Seq<u64>,
    pub channel_count: u16,
    pub sample_rate: u32,
    pub total_input: nat,
    pub total_emitted: nat,
    pub total_dropped: nat,
}

impl RechunkerView {
    /// What holds between frames, apart from a bound on a run's length.
    pub open spec fn inv_core(self) -> bool {
        &&& self.config.is_valid()
        &&& forall|i: int|
            0 <= i < self.window.len() ==> self.window[i].0 <= PROBABILITY_ONE
                && self.window[i].1 > 0
        &&& forall|i: int| 0 <= i < self.buffer.len() ==> self.buffer[i] > 0
        &&& span_of(self.window) <= u64::MAX
        &&& self.pre_roll <= u64::MAX
        &&& !self.in_run ==> {
            &&& self.before_window_mass == 0
            &&& self.duration_in_voice == 0
            &&& total_of(self.buffer) == self.pre_roll
        }
        &&& self.in_run ==> {
            &&& self.duration_in_voice <= u64::MAX + u64::MAX
            &&& total_of(self.buffer) == self.pre_roll + self.duration_in_voice
            &&& self.before_window_mass + mass_of(self.window) <= PROBABILITY_ONE * (u64::MAX
                + self.duration_in_voice)
            &&& self.before_window_mass + mass_of(self.window) > 0
        }
        &&& self.total_input == self.total_emitted + self.total_dropped + total_of(self.buffer)
    }

    /// What holds between frames. It depends on no setting but their
    /// validity, so a setter keeps it.
    pub open spec fn inv(self) -> bool {
        &&& self.inv_core()
        &&& self.in_run ==> self.duration_in_voice <= u64::MAX
    }
}

/// The pre-roll lies within its horizon.
pub open spec fn settled(s: RechunkerView) -> bool {
    s.pre_roll < s.config.time_before_speech
}

/// A run in progress has not outlasted the cap.
pub open spec fn capped(s: RechunkerView) -> bool {
    s.in_run ==> s.duration_in_voice <= s.config.max_duration
}

/// A rechunker that has seen nothing yet.
pub open spec fn fresh(config: RechunkerConfig) -> RechunkerView {
    RechunkerView {
        config,
        in_run: false,
        window: Seq::empty(),
        before_window_mass: 0,
        duration_in_voice: 0,
        pre_roll: 0,
        buffer: Seq::empty(),
        channel_count: 1,
        sample_rate: 0,
        total_input: 0,
        total_emitted: 0,
        total_dropped: 0,
    }
}

/// The horizon of the rolling window: the start window while idle, the end
/// window during a run.
pub open spec fn window_target(s: RechunkerView) -> nat {
    if s.in_run {
        s.config.end_window as nat
    } else {
        s.config.start_window as nat
    }
}

/// The state once an accepted frame of duration `d` has been taken in: its
/// sample enters the rolling window, which then drops its oldest samples while
/// it lasts longer than its horizon (mass dropped during a run is kept in
/// `before_window_mass`); an idle rechunker starts a run when the window,
/// counting the new sample and before it dropped any, spans at least the
/// start window, and what it keeps averages strictly above the start
/// threshold; the frame joins the buffer;
/// during a run its duration adds to the run's, while idle the buffer drops
/// its oldest frames while it lasts at least the pre-roll horizon.
pub open spec fn admitted(s: RechunkerView, f: AnnotatedFrame, d: u64) -> RechunkerView {
    let w = s.window.push((f.probability, d));
    let kept = w.skip(evicted(w, window_target(s)) as int);
    let starts = !s.in_run && span_of(w) >= s.config.start_window && mass_of(kept) > (
    s.config.start_threshold as nat) * span_of(kept);
    let buffer = s.buffer.push(d);
    if s.in_run || starts {
        RechunkerView {
            in_run: true,
            window: kept,
            before_window_mass: if s.in_run {
                (s.before_window_mass + mass_of(w) - mass_of(kept)) as nat
            } else {
                0
            },
            duration_in_voice: s.duration_in_voice + d as nat,
            buffer,
            channel_count: f.channel_count,
            sample_rate: f.sample_rate,
            total_input: s.total_input + d as nat,
            ..s
        }
    } else {
        let rest = buffer.skip(trimmed(buffer, s.config.time_before_speech as nat) as int);
        RechunkerView {
            window: kept,
            buffer: rest,
            pre_roll: total_of(rest),
            channel_count: f.channel_count,
            sample_rate: f.sample_rate,
            total_input: s.total_input + d as nat,
            total_dropped: (s.total_dropped + total_of(buffer) - total_of(rest)) as nat,
            ..s
        }
    }
}

/// A run ends when the window's average is strictly below the end threshold
/// in force, or when the run has lasted strictly longer than the cap.
pub open spec fn ends_run(a: RechunkerView, end_threshold: u32) -> bool {
    &&& a.in_run
    &&& mass_of(a.window) < (end_threshold as nat) * span_of(a.window)
        || a.duration_in_voice > a.config.max_duration
}

/// The chunk that a run hands out: everything buffered.
pub open spec fn chunk_of(a: RechunkerView) -> OutputChunk {
    OutputChunk {
        channel_count: a.channel_count,
        sample_rate: a.sample_rate,
        frame_count: a.buffer.len() as usize,
        duration: total_of(a.buffer) as u128,
        voice_duration: a.duration_in_voice as u128,
    }
}

/// The state after the buffer went out as a chunk: idle and empty.
pub open spec fn emitted(a: RechunkerView) -> RechunkerView {
    RechunkerView {
        in_run: false,
        window: Seq::empty(),
        before_window_mass: 0,
        duration_in_voice: 0,
        pre_roll: 0,
        buffer: Seq::empty(),
        total_emitted: a.total_emitted + total_of(a.buffer),
        ..a
    }
}

/// The state after the buffer was thrown away: idle and empty.
pub open spec fn discarded(a: RechunkerView) -> RechunkerView {
    RechunkerView {
        in_run: false,
        window: Seq::empty(),
        before_window_mass: 0,
        duration_in_voice: 0,
        pre_roll: 0,
        buffer: Seq::empty(),
        total_dropped: a.total_dropped + total_of(a.buffer),
        ..a
    }
}

/// One frame: a refused frame changes nothing; an accepted one is taken in,
/// and, if a run was in progress before it, ends the run when the end
/// condition holds against `end_threshold`. A frame that starts a run does
/// not also end it: one change of state per frame.
pub open spec fn pushed(s: RechunkerView, f: AnnotatedFrame, end_threshold: u32) -> (
    RechunkerView,
    Result<Option<OutputChunk>, FrameError>,
) {
    match f.checked_spec() {
        Err(e) => (s, Err(e)),
        Ok(d) => {
            let a = admitted(s, f, d);
            if s.in_run && ends_run(a, end_threshold) {
                (emitted(a), Ok(Some(chunk_of(a))))
            } else {
                (a, Ok(None))
            }
        },
    }
}

/// The state and the results after a sequence of frames, each with the end
/// threshold in force for it.
pub open spec fn run(s: RechunkerView, inputs: Seq<(AnnotatedFrame, u32)>) -> (
    RechunkerView,
    Seq<Result<Option<OutputChunk>, FrameError>>,
)
    decreases inputs.len(),
{
    if inputs.len() == 0 {
        (s, Seq::empty())
    } else {
        let (mid, outs) = run(s, inputs.drop_last());
        let (next, out) = pushed(mid, inputs.last().0, inputs.last().1);
        (next, outs.push(out))
    }
}

/// End of the stream: a run in progress goes out as a last chunk, an idle
/// pre-roll is thrown away.
pub open spec fn finished(s: RechunkerView) -> (RechunkerView, Option<OutputChunk>) {
    if s.in_run {
        (emitted(s), Some(chunk_of(s)))
    } else {
        (discarded(s), None)
    }
}

/// The inputs of the end threshold in a given state.
pub open spec fn decay_inputs_of(a: RechunkerView) -> DecayInputs {
    DecayInputs {
        in_run: a.in_run,
        run_mass: (mass_of(a.window) + a.before_window_mass) as u128,
        run_span: (a.duration_in_voice + a.config.time_before_speech) as u128,
        elapsed: a.duration_in_voice as u128,
    }
}


/// Re-segments a stream of probability-annotated audio frames into utterance
/// chunks. Frames go in one at a time through `push`; a chunk comes out when a
/// detected run of speech ends, and `finish` closes the stream.
pub struct VoiceActivityRechunkerStreamV2 {
    config: RechunkerConfig,
    in_voice_run: bool,
    voice_probabilities_window: VecDeque<(u32, u64)>,
    voice_probabilities_window_sum: u128,
    duration_in_window: u128,
    voice_probabilities_before_window_sum: u128,
    duration_in_voice: u128,
    duration_before_window: u128,
    buffer: VecDeque<u64>,
    buffered_duration: u128,
    channels: u16,
    sample_rate: u32,
    total_input: Ghost<nat>,
    total_emitted: Ghost<nat>,
    total_dropped: Ghost<nat>,
}

impl View for VoiceActivityRechunkerStreamV2 {
    type V = RechunkerView;

    closed spec fn view(&self) -> RechunkerView {
        RechunkerView {
            config: self.config,
            in_run: self.in_voice_run,
            window: self.voice_probabilities_window@,
            before_window_mass: self.voice_probabilities_before_window_sum as nat,
            duration_in_voice: self.duration_in_voice as nat,
            pre_roll: self.duration_before_window as nat,
            buffer: self.buffer@,
            channel_count: self.channels,
            sample_rate: self.sample_rate,
            total_input: self.total_input@,
            total_emitted: self.total_emitted@,
            total_dropped: self.total_dropped@,
        }
    }
}

impl VoiceActivityRechunkerStreamV2 {
    closed spec fn sums_match(&self) -> bool {
        &&& self.voice_probabilities_window_sum == mass_of(self.voice_probabilities_window@)
        &&& self.duration_in_window == span_of(self.voice_probabilities_window@)
        &&& self.buffered_duration == total_of(self.buffer@)
    }

    closed spec fn wf_core(&self) -> bool {
        self.sums_match() && self@.inv_core()
    }

    /// The rechunker's internal invariant.
    pub closed spec fn wf(&self) -> bool {
        self.sums_match() && self@.inv()
    }

    /// A rechunker with the given settings, or the first setting out of range.
    pub fn new(
        start_threshold: u32,
        start_window: u64,
        end_threshold: u32,
        end_window: u64,
        time_before_speech: u64,
        max_duration: u64,
        decay_factor: u32,
    ) -> (r: Result<Self, ConfigError>)
        ensures
            ({
                let config = RechunkerConfig {
                    start_threshold,
                    start_window,
                    end_threshold,
                    end_window,
                    time_before_speech,
                    max_duration,
                    decay_factor,
                };
                match r {
                    Ok(v) => config.is_valid() && v.wf() && v@ == fresh(config),
                    Err(e) => config.error_spec() == Some(e),
                }
            }),
    {
        let config = RechunkerConfig {
            start_threshold,
            start_window,
            end_threshold,
            end_window,
            time_before_speech,
            max_duration,
            decay_factor,
        };
        Self::from_config(config)
    }

    /// A rechunker with the given settings, or the first setting out of range.
    pub fn from_config(config: RechunkerConfig) -> (r: Result<Self, ConfigError>)
        ensures
            match r {
                Ok(v) => config.is_valid() && v.wf() && v@ == fresh(config),
                Err(e) => config.error_spec() == Some(e),
            },
    {
        match config.validate() {
            Err(e) => Err(e),
            Ok(()) => {
                let r = VoiceActivityRechunkerStreamV2 {
                    config,
                    in_voice_run: false,
                    voice_probabilities_window: VecDeque::new(),
                    voice_probabilities_window_sum: 0,
                    duration_in_window: 0,
                    voice_probabilities_before_window_sum: 0,
                    duration_in_voice: 0,
                    duration_before_window: 0,
                    buffer: VecDeque::new(),
                    buffered_duration: 0,
                    channels: 1,
                    sample_rate: 0,
                    total_input: Ghost(0),
                    total_emitted: Ghost(0),
                    total_dropped: Ghost(0),
                };
                assert(r@ == fresh(config));
                Ok(r)
            },
        }
    }

    /// The same rechunker under other settings, or the first setting out of
    /// range. A shorter pre-roll horizon takes effect at the next idle frame.
    fn with_config(self, config: RechunkerConfig) -> (r: Result<Self, ConfigError>)
        requires
            self.wf(),
        ensures
            match r {
                Ok(v) => config.is_valid() && v.wf() && v@ == RechunkerView { config, ..self@ },
                Err(e) => config.error_spec() == Some(e),
            },
    {
        match config.validate() {
            Err(e) => Err(e),
            Ok(()) => {
                let mut r = self;
                r.config = config;
                Ok(r)
            },
        }
    }

    /// Where the rolling window stands once a sample of probability `p` and
    /// duration `d` has joined it: how many of the samples already there
    /// leave, whether the new one leaves too, and the mass and duration of
    /// what stays.
    fn plan_eviction(&self, p: u32, d: u64) -> (r: (usize, bool, u128, u128))
        requires
            self.wf_core(),
            p <= PROBABILITY_ONE,
            d > 0,
        ensures
            ({
                let w = self@.window.push((p, d));
                let k = evicted(w, window_target(self@));
                &&& r.1 ==> r.0 == self@.window.len() && k == r.0 + 1
                &&& !r.1 ==> k == r.0 && r.0 <= self@.window.len()
                &&& r.2 == mass_of(w.skip(k as int))
                &&& r.3 == span_of(w.skip(k as int))
            }),
    {
        let ghost w = self@.window.push((p, d));
        let ghost t = window_target(self@);
        proof {
            lemma_mass_push(self@.window, (p, d));
            lemma_mass_at_most(self@.window, PROBABILITY_ONE as nat);
        }
        let n: usize = self.voice_probabilities_window.len();
        let target: u128 = if self.in_voice_run {
            self.config.end_window as u128
        } else {
            self.config.start_window as u128
        };
        let added: u128 = mass_exec(p, d);
        let mut mass: u128 = self.voice_probabilities_window_sum + added;
        let mut span: u128 = self.duration_in_window + d as u128;
        let mut i: usize = 0;
        assert(w.skip(0) =~= w);
        while i < n && span > target
            invariant
                n == self@.window.len(),
                w == self@.window.push((p, d)),
                t == target,
                self.wf_core(),
                i <= n,
                mass == mass_of(w.skip(i as int)),
                span == span_of(w.skip(i as int)),
                evicted(w, t) == i + evicted(w.skip(i as int), t),
            decreases n - i,
        {
            let pair = self.voice_probabilities_window[i];
            let pi: u32 = pair.0;
            let di: u64 = pair.1;
            let ghost rest = w.skip(i as int);
            assert(rest[0] == (pi, di));
            assert(rest.skip(1) =~= w.skip(i + 1));
            let mi: u128 = mass_exec(pi, di);
            mass = mass - mi;
            span = span - di as u128;
            i = i + 1;
        }
        if span > target {
            let ghost rest = w.skip(n as int);
            assert(rest =~= seq![(p, d)]);
            assert(rest.skip(1) =~= Seq::<(u32, u64)>::empty());
            assert(w.skip(n + 1) =~= Seq::<(u32, u64)>::empty());
            assert(evicted(Seq::<(u32, u64)>::empty(), t) == 0);
            assert(mass_of(Seq::<(u32, u64)>::empty()) == 0);
            assert(span_of(Seq::<(u32, u64)>::empty()) == 0);
            (n, true, 0, 0)
        } else {
            (i, false, mass, span)
        }
    }

    /// Takes in an accepted frame of duration `d`, without the end check.
    fn take_in(&mut self, frame: AnnotatedFrame, d: u64)
        requires
            old(self).wf(),
            frame.checked_spec() == Result::<u64, FrameError>::Ok(d),
        ensures
            final(self).wf_core(),
            final(self)@ == admitted(old(self)@, frame, d),
    {
        let ghost s = self@;
        let p: u32 = frame.probability;
        let ghost w = s.window.push((p, d));
        let ghost k = evicted(w, window_target(s));
        proof {
            lemma_mass_push(s.window, (p, d));
            lemma_evicted_fits(w, window_target(s));
            lemma_skip_mass_le(w, k);
            lemma_total_push(s.buffer, d);
        }
        proof {
            frame.lemma_duration_nonnegative();
        }
        let full_span: u128 = self.duration_in_window + d as u128;
        let (k_old, evict_new, kept_mass, kept_span) = self.plan_eviction(p, d);
        let added: u128 = mass_exec(p, d);
        if self.in_voice_run {
            self.voice_probabilities_before_window_sum = self.voice_probabilities_before_window_sum
                + self.voice_probabilities_window_sum + added - kept_mass;
        }
        drop_oldest(&mut self.voice_probabilities_window, k_old);
        if !evict_new {
            self.voice_probabilities_window.push_back((p, d));
            assert(self.voice_probabilities_window@ =~= w.skip(k as int));
        } else {
            assert(self.voice_probabilities_window@ =~= w.skip(k as int));
        }
        self.voice_probabilities_window_sum = kept_mass;
        self.duration_in_window = kept_span;
        proof {
            let kept = w.skip(k as int);
            assert forall|i: int| 0 <= i < kept.len() implies kept[i].0 <= PROBABILITY_ONE
                && kept[i].1 > 0 by {
                assert(kept[i] == w[i + k]);
            }
            lemma_mass_at_most(kept, PROBABILITY_ONE as nat);
        }
        assert((self.config.start_threshold as nat) * kept_span <= u128::MAX) by (nonlinear_arith)
            requires
                self.config.start_threshold <= u32::MAX,
                kept_span <= u64::MAX,
        ;
        if !self.in_voice_run && full_span >= self.config.start_window as u128 && kept_mass > (
        self.config.start_threshold as u128) * kept_span {
            self.in_voice_run = true;
            self.voice_probabilities_before_window_sum = 0;
            self.duration_in_voice = 0;
            assert(kept_mass <= PROBABILITY_ONE * (u64::MAX as nat + d)) by (nonlinear_arith)
                requires
                    kept_mass <= PROBABILITY_ONE * kept_span,
                    kept_span <= self.config.start_window,
                    self.config.start_window <= u64::MAX,
            ;
        }
        self.buffer.push_back(d);
        self.buffered_duration = self.buffered_duration + d as u128;
        self.channels = frame.channel_count;
        self.sample_rate = frame.sample_rate;
        self.total_input = Ghost(self.total_input@ + d as nat);
        if self.in_voice_run {
            self.duration_in_voice = self.duration_in_voice + d as u128;
            assert(self@ == admitted(s, frame, d));
        } else {
            let ghost full = self.buffer@;
            let tbs: u64 = self.config.time_before_speech;
            proof {
                lemma_trimmed_fits(full, tbs as nat);
                let t = trimmed(full, tbs as nat);
                assert(full.skip(t as int).len() + t == full.len());
            }
            let rest: u128 = trim_front(&mut self.buffer, self.buffered_duration, tbs);
            proof {
                let t = trimmed(full, tbs as nat);
                lemma_total_skip_le(full, t);
                assert forall|i: int| 0 <= i < self.buffer@.len() implies self.buffer@[i] > 0 by {
                    assert(self.buffer@[i] == full[i + t]);
                }
            }
            self.total_dropped = Ghost(
                (self.total_dropped@ + self.buffered_duration - rest) as nat,
            );
            self.buffered_duration = rest;
            self.duration_before_window = rest;
            assert(self@ == admitted(s, frame, d));
        }
    }

    /// Empties the run: window, accumulators and buffer.
    fn clear_run(&mut self)
        ensures
            final(self).voice_probabilities_window@ == Seq::<(u32, u64)>::empty(),
            final(self).buffer@ == Seq::<u64>::empty(),
            final(self).voice_probabilities_window_sum == 0,
            final(self).duration_in_window == 0,
            final(self).voice_probabilities_before_window_sum == 0,
            final(self).duration_in_voice == 0,
            final(self).duration_before_window == 0,
            final(self).buffered_duration == 0,
            !final(self).in_voice_run,
            final(self).config == old(self).config,
            final(self).channels == old(self).channels,
            final(self).sample_rate == old(self).sample_rate,
            final(self).total_input == old(self).total_input,
            final(self).total_emitted == old(self).total_emitted,
            final(self).total_dropped == old(self).total_dropped,
    {
        self.voice_probabilities_window_sum = 0;
        self.voice_probabilities_before_window_sum = 0;
        self.duration_in_window = 0;
        self.voice_probabilities_window.clear();
        self.in_voice_run = false;
        self.duration_before_window = 0;
        self.duration_in_voice = 0;
        self.buffer.clear();
        self.buffered_duration = 0;
    }

    /// Hands out everything buffered as one chunk and goes back to idle.
    fn finish_voice_run(&mut self) -> (r: OutputChunk)
        requires
            old(self).wf_core(),
        ensures
            final(self).wf(),
            r == chunk_of(old(self)@),
            final(self)@ == emitted(old(self)@),
    {
        let chunk = OutputChunk {
            channel_count: self.channels,
            sample_rate: self.sample_rate,
            frame_count: self.buffer.len(),
            duration: self.buffered_duration,
            voice_duration: self.duration_in_voice,
        };
        self.total_emitted = Ghost(self.total_emitted@ + total_of(self.buffer@));
        self.clear_run();
        assert(mass_of(Seq::<(u32, u64)>::empty()) == 0);
        assert(span_of(Seq::<(u32, u64)>::empty()) == 0);
        assert(total_of(Seq::<u64>::empty()) == 0);
        chunk
    }

    /// Takes in one frame. A refused frame leaves everything unchanged. An
    /// accepted one goes through the rolling window, may start a run, and is
    /// buffered; if a run was in progress before the frame, the run ends and
    /// its chunk is returned when the window's average is below
    /// `end_threshold` (in millionths: the adaptive threshold computed from
    /// `decay_inputs` for this frame) or the run has grown longer than the
    /// cap. A frame that starts a run never ends it.
    pub fn push(&mut self, frame: AnnotatedFrame, end_threshold: u32) -> (r: Result<
        Option<OutputChunk>,
        FrameError,
    >)
        requires
            old(self).wf(),
        ensures
            final(self).wf(),
            (final(self)@, r) == pushed(old(self)@, frame, end_threshold),
    {
        let d: u64 = match frame.checked_duration() {
            Ok(d) => d,
            Err(e) => {
                return Err(e);
            },
        };
        let was_in_run: bool = self.in_voice_run;
        self.take_in(frame, d);
        if was_in_run {
            assert((end_threshold as nat) * self.duration_in_window <= u128::MAX)
                by (nonlinear_arith)
                requires
                    end_threshold <= u32::MAX,
                    self.duration_in_window <= u64::MAX,
            ;
            if self.voice_probabilities_window_sum < (end_threshold as u128)
                * self.duration_in_window || self.duration_in_voice
                > self.config.max_duration as u128 {
                let chunk = self.finish_voice_run();
                return Ok(Some(chunk));
            }
        }
        Ok(None)
    }

    /// Takes in a sequence of frames, each with the end threshold in force for
    /// it, and returns the result of each push in order. What comes out is
    /// `run` of the state and the inputs alone: identical inputs given to
    /// identical rechunkers give identical chunk boundaries and chunks.
    pub fn push_all(&mut self, inputs: &Vec<(AnnotatedFrame, u32)>) -> (r: Vec<
        Result<Option<OutputChunk>, FrameError>,
    >)
        requires
            old(self).wf(),
        ensures
            final(self).wf(),
            (final(self)@, r@) == run(old(self)@, inputs@),
    {
        let ghost start = self@;
        let mut results: Vec<Result<Option<OutputChunk>, FrameError>> = Vec::new();
        let mut i: usize = 0;
        assert(inputs@.subrange(0, 0) =~= Seq::<(AnnotatedFrame, u32)>::empty());
        while i < inputs.len()
            invariant
                i <= inputs@.len(),
                self.wf(),
                (self@, results@) == run(start, inputs@.subrange(0, i as int)),
            decreases inputs@.len() - i,
        {
            let ghost prefix = inputs@.subrange(0, i as int);
            let ghost next = inputs@.subrange(0, i + 1);
            assert(next.drop_last() =~= prefix);
            let (frame, end_threshold) = inputs[i];
            let out = self.push(frame, end_threshold);
            results.push(out);
            i = i + 1;
        }
        assert(inputs@.subrange(0, inputs@.len() as int) =~= inputs@);
        results
    }

    /// Closes the stream: a run in progress comes out as a last chunk; an idle
    /// pre-roll is thrown away.
    pub fn finish(&mut self) -> (r: Option<OutputChunk>)
        requires
            old(self).wf(),
        ensures
            final(self).wf(),
            (final(self)@, r) == finished(old(self)@),
    {
        if self.in_voice_run {
            Some(self.finish_voice_run())
        } else {
            self.total_dropped = Ghost(self.total_dropped@ + total_of(self.buffer@));
            self.clear_run();
            assert(mass_of(Seq::<(u32, u64)>::empty()) == 0);
            assert(span_of(Seq::<(u32, u64)>::empty()) == 0);
            assert(total_of(Seq::<u64>::empty()) == 0);
            None
        }
    }

    /// What the end threshold for `frame` is computed from: the run's mass,
    /// span and elapsed time as they will stand once the frame is taken in.
    /// Changes nothing.
    pub fn decay_inputs(&self, frame: AnnotatedFrame) -> (r: Result<DecayInputs, FrameError>)
        requires
            self.wf(),
        ensures
            match frame.checked_spec() {
                Err(e) => r == Err::<DecayInputs, FrameError>(e),
                Ok(d) => r == Ok::<DecayInputs, FrameError>(
                    decay_inputs_of(admitted(self@, frame, d)),
                ),
            },
            r matches Ok(i) ==> i.run_span > 0 && (i.in_run ==> i.run_mass > 0),
    {
        let d: u64 = match frame.checked_duration() {
            Ok(d) => d,
            Err(e) => {
                return Err(e);
            },
        };
        proof {
            frame.lemma_duration_nonnegative();
            let w = self@.window.push((frame.probability, d));
            lemma_mass_push(self@.window, (frame.probability, d));
            lemma_evicted_fits(w, window_target(self@));
            lemma_skip_mass_le(w, evicted(w, window_target(self@)));
        }
        let (_k_old, _evict_new, kept_mass, kept_span) = self.plan_eviction(
            frame.probability,
            d,
        );
        let added: u128 = mass_exec(frame.probability, d);
        let tbs: u128 = self.config.time_before_speech as u128;
        if self.in_voice_run {
            let elapsed: u128 = self.duration_in_voice + d as u128;
            Ok(
                DecayInputs {
                    in_run: true,
                    run_mass: self.voice_probabilities_before_window_sum
                        + self.voice_probabilities_window_sum + added,
                    run_span: elapsed + tbs,
                    elapsed,
                },
            )
        } else {
            assert((self.config.start_threshold as nat) * kept_span <= u128::MAX)
                by (nonlinear_arith)
                requires
                    self.config.start_threshold <= u32::MAX,
                    kept_span <= u64::MAX,
            ;
            let full_span: u128 = self.duration_in_window + d as u128;
            if full_span >= self.config.start_window as u128 && kept_mass > (
            self.config.start_threshold as u128) * kept_span {
                Ok(
                    DecayInputs {
                        in_run: true,
                        run_mass: kept_mass,
                        run_span: d as u128 + tbs,
                        elapsed: d as u128,
                    },
                )
            } else {
                Ok(DecayInputs { in_run: false, run_mass: kept_mass, run_span: tbs, elapsed: 0 })
            }
        }
    }

    /// Whether a run of speech is in progress.
    pub fn in_voice_run(&self) -> (r: bool)
        ensures
            r == self@.in_run,
    {
        self.in_voice_run
    }

    /// How many of the last accepted frames are buffered for output.
    pub fn buffered_frames(&self) -> (r: usize)
        ensures
            r == self@.buffer.len(),
    {
        self.buffer.len()
    }

    /// The total duration of the buffered frames.
    pub fn buffered_duration(&self) -> (r: u128)
        requires
            self.wf(),
        ensures
            r == total_of(self@.buffer),
    {
        self.buffered_duration
    }

    /// The settings in force.
    pub fn config(&self) -> (r: RechunkerConfig)
        ensures
            r == self@.config,
    {
        self.config
    }

    /// Sets the threshold for the start of a voice run. Everything else is kept.
    pub fn with_start_threshold(self, start_threshold: u32) -> (r: Result<Self, ConfigError>)
        requires
            self.wf(),
        ensures
            ({
                let config = RechunkerConfig { start_threshold, ..self@.config };
                match r {
                    Ok(v) => config.is_valid() && v.wf() && v@ == RechunkerView { config, ..self@ },
                    Err(e) => config.error_spec() == Some(e),
                }
            }),
    {
        let config = RechunkerConfig { start_threshold, ..self.config };
        self.with_config(config)
    }

    /// Sets the rolling window's horizon while idle. Everything else is kept.
    pub fn with_start_window(self, start_window: u64) -> (r: Result<Self, ConfigError>)
        requires
            self.wf(),
        ensures
            ({
                let config = RechunkerConfig { start_window, ..self@.config };
                match r {
                    Ok(v) => config.is_valid() && v.wf() && v@ == RechunkerView { config, ..self@ },
                    Err(e) => config.error_spec() == Some(e),
                }
            }),
    {
        let config = RechunkerConfig { start_window, ..self.config };
        self.with_config(config)
    }

    /// Sets the base threshold for the end of a voice run. Everything else is kept.
    pub fn with_end_threshold(self, end_threshold: u32) -> (r: Result<Self, ConfigError>)
        requires
            self.wf(),
        ensures
            ({
                let config = RechunkerConfig { end_threshold, ..self@.config };
                match r {
                    Ok(v) => config.is_valid() && v.wf() && v@ == RechunkerView { config, ..self@ },
                    Err(e) => config.error_spec() == Some(e),
                }
            }),
    {
        let config = RechunkerConfig { end_threshold, ..self.config };
        self.with_config(config)
    }

    /// Sets the rolling window's horizon during a run. Everything else is kept.
    pub fn with_end_window(self, end_window: u64) -> (r: Result<Self, ConfigError>)
        requires
            self.wf(),
        ensures
            ({
                let config = RechunkerConfig { end_window, ..self@.config };
                match r {
                    Ok(v) => config.is_valid() && v.wf() && v@ == RechunkerView { config, ..self@ },
                    Err(e) => config.error_spec() == Some(e),
                }
            }),
    {
        let config = RechunkerConfig { end_window, ..self.config };
        self.with_config(config)
    }

    /// Sets how much audio before the start of speech goes into a chunk. Everything else is kept.
    pub fn with_time_before_speech(self, time_before_speech: u64) -> (r: Result<Self, ConfigError>)
        requires
            self.wf(),
        ensures
            ({
                let config = RechunkerConfig { time_before_speech, ..self@.config };
                match r {
                    Ok(v) => config.is_valid() && v.wf() && v@ == RechunkerView { config, ..self@ },
                    Err(e) => config.error_spec() == Some(e),
                }
            }),
    {
        let config = RechunkerConfig { time_before_speech, ..self.config };
        self.with_config(config)
    }

    /// The rechunker's invariant, stated over its view: the laws below apply
    /// to every rechunker that the public functions hand out.
    pub proof fn lemma_wf_inv(&self)
        requires
            self.wf(),
        ensures
            self@.inv(),
    {
    }

    /// Every accepted nanosecond is accounted for, after any sequence of
    /// calls: it went out in a chunk, was dropped (from the pre-roll, or at
    /// the end of the stream), or is still buffered.
    pub proof fn lemma_conservation(&self)
        requires
            self.wf(),
        ensures
            self@.total_input == self@.total_emitted + self@.total_dropped + total_of(self@.buffer),
    {
    }
}

/// A chunk's duration is exactly what the push that produced it adds to the
/// emitted total, and a pushed frame adds its duration to the input total.
pub proof fn lemma_chunk_accounting(s: RechunkerView, frame: AnnotatedFrame, end_threshold: u32)
    requires
        s.inv(),
    ensures
        ({
            let (n, r) = pushed(s, frame, end_threshold);
            match r {
                Ok(Some(c)) => frame.checked_spec() matches Ok(d) && n.total_input == s.total_input
                    + d && n.total_emitted == s.total_emitted + c.duration && n.total_dropped
                    == s.total_dropped,
                Ok(None) => frame.checked_spec() matches Ok(d) && n.total_input == s.total_input
                    + d && n.total_emitted == s.total_emitted,
                Err(_) => n == s,
            }
        }),
{
    if let Ok(d) = frame.checked_spec() {
        lemma_total_push(s.buffer, d);
        assert(total_of(s.buffer) <= u64::MAX + u64::MAX + u64::MAX);
    }
}

/// A chunk's run never outlasts the cap by more than the frame that ended
/// it, and one handed out at the end of the stream stays within the cap. A
/// rechunker starts capped and stays so under frames no longer than the cap;
/// only a run whose first frame alone outlasts the cap escapes it.
pub proof fn lemma_duration_cap(s: RechunkerView, frame: AnnotatedFrame, end_threshold: u32)
    requires
        s.inv(),
        capped(s),
    ensures
        pushed(s, frame, end_threshold).1 matches Ok(Some(c)) ==> c.voice_duration
            <= s.config.max_duration + frame.duration_spec(),
        frame.checked_spec() matches Ok(d) && d <= s.config.max_duration ==> capped(
            pushed(s, frame, end_threshold).0,
        ),
        finished(s).1 matches Some(c) ==> c.voice_duration <= s.config.max_duration,
        capped(finished(s).0),
        capped(fresh(s.config)),
{
    frame.lemma_duration_nonnegative();
}

/// While idle after a frame, the pre-roll lies within its horizon and is all
/// that is buffered; so when a run starts, what precedes its first frame is
/// kept whole as the run's lead-in and lasts less than `time_before_speech`.
/// A setter that shortens the horizon takes effect at the next idle frame.
pub proof fn lemma_pre_roll_bound(s: RechunkerView, frame: AnnotatedFrame, d: u64, end_threshold: u32)
    requires
        s.inv(),
        frame.checked_spec() == Ok::<u64, FrameError>(d),
    ensures
        ({
            let n = pushed(s, frame, end_threshold).0;
            !n.in_run ==> settled(n) && total_of(n.buffer) == n.pre_roll
        }),
        !s.in_run && settled(s) && admitted(s, frame, d).in_run ==> {
            &&& admitted(s, frame, d).buffer == s.buffer.push(d)
            &&& total_of(s.buffer) < s.config.time_before_speech
        },
        settled(fresh(s.config)),
        settled(finished(s).0),
{
    let buffer = s.buffer.push(d);
    lemma_trimmed_fits(buffer, s.config.time_before_speech as nat);
    assert(total_of(Seq::<u64>::empty()) == 0);
}

/// A frame whose probability is at most the start threshold, joining an idle
/// window whose samples all are too, never starts a run: what the window
/// keeps averages at most the threshold, never strictly above it. The window
/// keeps the property, so a stream of such frames stays idle throughout, and
/// its end hands out no chunk.
pub proof fn lemma_never_above_start(s: RechunkerView, frame: AnnotatedFrame, d: u64)
    requires
        s.inv(),
        !s.in_run,
        frame.checked_spec() == Ok::<u64, FrameError>(d),
        frame.probability <= s.config.start_threshold,
        forall|i: int| 0 <= i < s.window.len() ==> s.window[i].0 <= s.config.start_threshold,
    ensures
        !admitted(s, frame, d).in_run,
        forall|i: int|
            0 <= i < admitted(s, frame, d).window.len() ==> admitted(s, frame, d).window[i].0
                <= s.config.start_threshold,
        finished(s).1 is None,
        finished(admitted(s, frame, d)).1 is None,
{
    let w = s.window.push((frame.probability, d));
    let k = evicted(w, window_target(s));
    lemma_evicted_fits(w, window_target(s));
    let kept = w.skip(k as int);
    assert forall|i: int| 0 <= i < kept.len() implies kept[i].0 <= s.config.start_threshold by {
        assert(kept[i] == w[i + k]);
    }
    lemma_mass_at_most(kept, s.config.start_threshold as nat);
}

/// A quiet frame that fills the end window ends a run: during a run, a frame
/// that lasts exactly the end window leaves itself alone in the window, so
/// when its probability is below the end threshold in force the run ends
/// there. The chunk holds everything buffered and the frame, and the
/// rechunker is idle and empty after it.
pub proof fn lemma_quiet_frame_ends_run(
    s: RechunkerView,
    frame: AnnotatedFrame,
    d: u64,
    end_threshold: u32,
)
    requires
        s.inv(),
        s.in_run,
        frame.checked_spec() == Ok::<u64, FrameError>(d),
        d == s.config.end_window,
        frame.probability < end_threshold,
    ensures
        ({
            let a = admitted(s, frame, d);
            &&& a.window == seq![(frame.probability, d)]
            &&& pushed(s, frame, end_threshold) == (emitted(a), Ok::<
                Option<OutputChunk>,
                FrameError,
            >(Some(chunk_of(a))))
            &&& chunk_of(a).frame_count == (s.buffer.len() + 1) as usize
            &&& chunk_of(a).duration == total_of(s.buffer) + d
            &&& !emitted(a).in_run
            &&& emitted(a).buffer.len() == 0
        }),
{
    let x = (frame.probability, d);
    let w = s.window.push(x);
    lemma_evicted_all(s.window, x, d as nat);
    assert(w.skip(s.window.len() as int) =~= seq![x]);
    let one = seq![x];
    assert(one.skip(1) =~= Seq::<(u32, u64)>::empty());
    assert(mass_of(Seq::<(u32, u64)>::empty()) == 0);
    assert(span_of(Seq::<(u32, u64)>::empty()) == 0);
    assert(mass_of(one) == sample_mass(x));
    assert(span_of(one) == d);
    frame.lemma_duration_nonnegative();
    assert(sample_mass(x) < (end_threshold as nat) * (d as nat)) by (nonlinear_arith)
        requires
            d > 0,
            frame.probability < end_threshold,
            sample_mass(x) == (frame.probability as nat) * (d as nat),
    ;
    lemma_total_push(s.buffer, d);
}

} // verus!
