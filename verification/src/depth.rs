//! Sonar ranging: the sequencing of one distance measurement.
//!
//! A measurement alternates between driving the trigger line, waiting, and looking at the
//! echo line, none of which this module can do itself. It holds the decisions instead:
//! [`Ultrasonic::step`] takes what the hardware layer has just seen and says what to do
//! next, and [`Ultrasonic::read`] replays a recorded run of the echo line through the same
//! steps.
//!
//! Distances follow from the time the echo line stayed high: `elapsed_us / 58`
//! centimetres, rounded down. Sound covers a centimetre there and back in about 58
//! microseconds, at some 343 m/s. This one formula gives every reading.

use vstd::prelude::*;

verus! {

/// How long the echo line stays high for each centimetre of distance, in microseconds:
/// the time that sound takes for a centimetre there and back.
pub const ECHO_US_PER_CM: u64 = 58;

/// How long the trigger line is held low before the pulse, in microseconds.
pub const TRIGGER_SETTLE_US: u64 = 5;

/// How long the trigger line is held high, in microseconds.
pub const TRIGGER_PULSE_US: u64 = 10;

/// The longest wait for an edge of the echo that the robot's sensor is given, in
/// microseconds.
pub const ECHO_TIMEOUT_US: u64 = 20_000;

/// How many attempts a measurement of the robot's sensor may make.
pub const ECHO_ATTEMPTS: u32 = 10;

/// The trigger line of the sensor on the robot's board.
pub const TRIG_PIN: u8 = 27;

/// The echo line of the sensor on the robot's board.
pub const ECHO_PIN: u8 = 22;

/// One look at the clock and at the echo line.
#[derive(Clone, Copy, Debug, PartialEq, Eq, Structural)]
pub struct EchoSample {
    /// The time of the look, in microseconds on any steady clock.
    pub now_us: u64,
    /// Whether the echo line was high.
    pub echo_high: bool,
}

/// The result of a finished measurement.
#[derive(Clone, Copy, Debug, PartialEq, Eq, Structural)]
pub enum Reading {
    /// The distance to the obstacle in whole centimetres; zero is a valid near reading.
    Distance(u64),
    /// Every attempt timed out: there is no obstacle in range, or the sensor is at fault.
    NoSignal,
}

/// Where a measurement stands.
#[derive(Clone, Copy, Debug, PartialEq, Eq, Structural)]
pub enum Phase {
    /// No measurement has been started.
    Idle,
    /// The trigger pulse of an attempt is being sent.
    Triggering,
    /// The pulse was sent at `since_us`; the echo line has not risen yet.
    WaitingRisingEdge { since_us: u64 },
    /// The echo line rose at `since_us` and has not fallen yet.
    WaitingFallingEdge { since_us: u64 },
    /// Both edges were seen in time.
    Done { distance_cm: u64 },
    /// Every attempt ran out of time.
    TimedOut,
}

/// What the hardware layer has to do before it hands in the next sample.
#[derive(Clone, Copy, Debug, PartialEq, Eq, Structural)]
pub enum Action {
    /// Nothing: no measurement is under way.
    Rest,
    /// Hold the trigger line low for `settle_us`, high for `pulse_us`, then low again, and
    /// take a sample right after.
    Trigger { settle_us: u64, pulse_us: u64 },
    /// Take another sample.
    Poll,
    /// Stop and hand the reading to the caller.
    Report(Reading),
}

/// What the sequencer of a measurement knows: its limits, how many attempts have timed
/// out, and where the current attempt stands.
#[derive(Clone, Copy, Debug, PartialEq, Eq, Structural)]
pub struct SonarState {
    /// The longest wait for either edge of the echo, in microseconds.
    pub timeout_us: u64,
    /// How many attempts one measurement may make.
    pub max_attempts: u32,
    /// How many attempts of the current measurement have timed out.
    pub timeouts: u32,
    pub phase: Phase,
}

/// The distance in centimetres that an echo of `elapsed_us` microseconds stands for.
pub open spec fn spec_distance_cm(elapsed_us: int) -> int {
    elapsed_us / (ECHO_US_PER_CM as int)
}

/// Time from `since_us` to `now_us`, or zero if the clock has gone backwards.
pub open spec fn spec_elapsed(since_us: u64, now_us: u64) -> int {
    if now_us >= since_us {
        now_us - since_us
    } else {
        0
    }
}

impl SonarState {
    /// The counters and the phase agree: an attempt is under way only while attempts are
    /// left, all of them are used up when the measurement has timed out, and a distance
    /// stems from an echo no longer than the timeout.
    pub open spec fn wf(self) -> bool {
        match self.phase {
            Phase::Idle => self.timeouts == 0,
            Phase::Triggering => self.timeouts < self.max_attempts,
            Phase::WaitingRisingEdge { .. } => self.timeouts < self.max_attempts,
            Phase::WaitingFallingEdge { .. } => self.timeouts < self.max_attempts,
            Phase::Done { distance_cm } => self.timeouts < self.max_attempts && distance_cm
                <= spec_distance_cm(self.timeout_us as int),
            Phase::TimedOut => self.timeouts == self.max_attempts,
        }
    }

    /// A fresh sequencer with the given limits.
    pub open spec fn spec_new(timeout_us: u64, max_attempts: u32) -> SonarState {
        SonarState { timeout_us, max_attempts, timeouts: 0, phase: Phase::Idle }
    }

    /// The measurement has ended, with a distance or without.
    pub open spec fn finished(self) -> bool {
        self.phase is Done || self.phase is TimedOut
    }

    /// The reading of a finished measurement.
    pub open spec fn spec_reading(self) -> Option<Reading> {
        match self.phase {
            Phase::Done { distance_cm } => Some(Reading::Distance(distance_cm)),
            Phase::TimedOut => Some(Reading::NoSignal),
            _ => None,
        }
    }

    /// What the hardware layer is to do in the current phase.
    pub open spec fn spec_action(self) -> Action {
        match self.phase {
            Phase::Idle => Action::Rest,
            Phase::Triggering => Action::Trigger {
                settle_us: TRIGGER_SETTLE_US,
                pulse_us: TRIGGER_PULSE_US,
            },
            Phase::WaitingRisingEdge { .. } => Action::Poll,
            Phase::WaitingFallingEdge { .. } => Action::Poll,
            Phase::Done { distance_cm } => Action::Report(Reading::Distance(distance_cm)),
            Phase::TimedOut => Action::Report(Reading::NoSignal),
        }
    }

    /// The start of a new measurement: no attempt has timed out yet, and the first one
    /// begins, unless no attempt is allowed at all.
    pub open spec fn started(self) -> SonarState {
        SonarState {
            timeouts: 0,
            phase: if self.max_attempts == 0 {
                Phase::TimedOut
            } else {
                Phase::Triggering
            },
            ..self
        }
    }

    /// The current attempt has timed out: the next one begins, or the measurement ends
    /// without a signal if that was the last.
    pub open spec fn attempt_failed(self) -> SonarState {
        SonarState {
            timeouts: (self.timeouts + 1) as u32,
            phase: if self.timeouts + 1 >= self.max_attempts {
                Phase::TimedOut
            } else {
                Phase::Triggering
            },
            ..self
        }
    }

    /// The state after the sample `s` has been seen.
    ///
    /// The sample that follows the trigger pulse starts the wait for the rising edge. While
    /// waiting for an edge, a sample later than the timeout fails the attempt whatever the
    /// line shows; otherwise the awaited level moves the measurement on and any other
    /// level leaves it waiting.
    pub open spec fn next(self, s: EchoSample) -> SonarState {
        match self.phase {
            Phase::Idle => self,
            Phase::Triggering => SonarState {
                phase: Phase::WaitingRisingEdge { since_us: s.now_us },
                ..self
            },
            Phase::WaitingRisingEdge { since_us } => if spec_elapsed(since_us, s.now_us)
                > self.timeout_us {
                self.attempt_failed()
            } else if s.echo_high {
                SonarState { phase: Phase::WaitingFallingEdge { since_us: s.now_us }, ..self }
            } else {
                self
            },
            Phase::WaitingFallingEdge { since_us } => if spec_elapsed(since_us, s.now_us)
                > self.timeout_us {
                self.attempt_failed()
            } else if !s.echo_high {
                SonarState {
                    phase: Phase::Done {
                        distance_cm: spec_distance_cm(spec_elapsed(since_us, s.now_us)) as u64,
                    },
                    ..self
                }
            } else {
                self
            },
            Phase::Done { .. } => self,
            Phase::TimedOut => self,
        }
    }

    /// The measurement given up: if it has not ended yet, the attempts that are left count
    /// as timed out.
    pub open spec fn given_up(self) -> SonarState {
        if self.finished() {
            self
        } else {
            SonarState { timeouts: self.max_attempts, phase: Phase::TimedOut, ..self }
        }
    }

    /// The state after a whole measurement against the recorded `samples`: after a fresh
    /// start the samples are seen one after the other, and if they end before the
    /// measurement does, the echo line counts as silent from there on.
    pub open spec fn measured(self, samples: Seq<EchoSample>) -> SonarState {
        self.started().run(samples).given_up()
    }

    /// How often the sequencer asks for a new trigger pulse while it sees the samples:
    /// once for each sample after which an attempt begins.
    pub open spec fn pulses(self, samples: Seq<EchoSample>) -> int
        decreases samples.len(),
    {
        if samples.len() == 0 {
            0
        } else {
            self.pulses(samples.drop_last()) + if self.run(samples).phase is Triggering {
                1int
            } else {
                0int
            }
        }
    }

    /// The state after the samples have been seen one after the other.
    pub open spec fn run(self, samples: Seq<EchoSample>) -> SonarState
        decreases samples.len(),
    {
        if samples.len() == 0 {
            self
        } else {
            self.run(samples.drop_last()).next(samples.last())
        }
    }
}

/// The distance in centimetres that an echo of `elapsed_us` microseconds stands for.
pub fn distance_cm(elapsed_us: u64) -> (r: u64)
    ensures
        r == spec_distance_cm(elapsed_us as int),
        r <= elapsed_us,
{
    elapsed_us / ECHO_US_PER_CM
}

/// Time from `since_us` to `now_us`, or zero if the clock has gone backwards.
fn elapsed(since_us: u64, now_us: u64) -> (r: u64)
    ensures
        r == spec_elapsed(since_us, now_us),
{
    if now_us >= since_us {
        now_us - since_us
    } else {
        0
    }
}

/// A longer echo never stands for a shorter distance.
pub proof fn lemma_distance_is_monotonic(a: int, b: int)
    requires
        0 <= a <= b,
    ensures
        0 <= spec_distance_cm(a) <= spec_distance_cm(b),
{
}

/// The sequencer of the ultrasonic range sensor.
#[derive(Debug)]
pub struct Ultrasonic {
    state: SonarState,
}

impl View for Ultrasonic {
    type V = SonarState;

    closed spec fn view(&self) -> SonarState {
        self.state
    }
}

/// The state after the current attempt has timed out.
fn attempt_failed(state: SonarState) -> (r: SonarState)
    requires
        state.timeouts < state.max_attempts,
    ensures
        r == state.attempt_failed(),
{
    let timeouts: u32 = state.timeouts + 1;
    SonarState {
        timeout_us: state.timeout_us,
        max_attempts: state.max_attempts,
        timeouts,
        phase: if timeouts >= state.max_attempts {
            Phase::TimedOut
        } else {
            Phase::Triggering
        },
    }
}

/// The state after the sample has been seen.
fn next(state: SonarState, sample: EchoSample) -> (r: SonarState)
    requires
        state.wf(),
    ensures
        r == state.next(sample),
        r.wf(),
{
    let phase: Phase = match state.phase {
        Phase::Triggering => Phase::WaitingRisingEdge { since_us: sample.now_us },
        Phase::WaitingRisingEdge { since_us } => {
            if elapsed(since_us, sample.now_us) > state.timeout_us {
                return attempt_failed(state);
            } else if sample.echo_high {
                Phase::WaitingFallingEdge { since_us: sample.now_us }
            } else {
                state.phase
            }
        },
        Phase::WaitingFallingEdge { since_us } => {
            let high_us: u64 = elapsed(since_us, sample.now_us);
            if high_us > state.timeout_us {
                return attempt_failed(state);
            } else if !sample.echo_high {
                proof {
                    lemma_distance_is_monotonic(high_us as int, state.timeout_us as int);
                }
                Phase::Done { distance_cm: distance_cm(high_us) }
            } else {
                state.phase
            }
        },
        _ => state.phase,
    };
    SonarState {
        timeout_us: state.timeout_us,
        max_attempts: state.max_attempts,
        timeouts: state.timeouts,
        phase,
    }
}

impl Ultrasonic {
    #[verifier::type_invariant]
    spec fn inv(self) -> bool {
        self@.wf()
    }

    /// A sequencer that waits at most `timeout_us` for each edge of the echo and gives up
    /// after `max_attempts` attempts. No measurement is under way yet.
    pub fn new(timeout_us: u64, max_attempts: u32) -> (r: Ultrasonic)
        ensures
            r@ == SonarState::spec_new(timeout_us, max_attempts),
    {
        Ultrasonic {
            state: SonarState { timeout_us, max_attempts, timeouts: 0, phase: Phase::Idle },
        }
    }

    /// What the sequencer knows.
    pub fn state(&self) -> (r: SonarState)
        ensures
            r == self@,
            r.wf(),
    {
        proof {
            use_type_invariant(self);
        }
        self.state
    }

    /// The reading, once the measurement has ended.
    pub fn reading(&self) -> (r: Option<Reading>)
        ensures
            r == self@.spec_reading(),
            r is Some <==> self@.finished(),
    {
        match self.state.phase {
            Phase::Done { distance_cm } => Some(Reading::Distance(distance_cm)),
            Phase::TimedOut => Some(Reading::NoSignal),
            _ => None,
        }
    }

    /// What the hardware layer is to do in the current phase.
    pub fn action(&self) -> (r: Action)
        ensures
            r == self@.spec_action(),
    {
        match self.state.phase {
            Phase::Idle => Action::Rest,
            Phase::Triggering => Action::Trigger {
                settle_us: TRIGGER_SETTLE_US,
                pulse_us: TRIGGER_PULSE_US,
            },
            Phase::WaitingRisingEdge { .. } => Action::Poll,
            Phase::WaitingFallingEdge { .. } => Action::Poll,
            Phase::Done { distance_cm } => Action::Report(Reading::Distance(distance_cm)),
            Phase::TimedOut => Action::Report(Reading::NoSignal),
        }
    }

    /// Begins a new measurement, dropping whatever was under way, and says what to do
    /// first.
    pub fn start(&mut self) -> (r: Action)
        ensures
            final(self)@ == old(self)@.started(),
            r == final(self)@.spec_action(),
    {
        self.state = SonarState {
            timeout_us: self.state.timeout_us,
            max_attempts: self.state.max_attempts,
            timeouts: 0,
            phase: if self.state.max_attempts == 0 {
                Phase::TimedOut
            } else {
                Phase::Triggering
            },
        };
        self.action()
    }

    /// Takes in the sample that the hardware layer took after the last action, and says
    /// what to do next.
    pub fn step(&mut self, sample: EchoSample) -> (r: Action)
        ensures
            final(self)@ == old(self)@.next(sample),
            r == final(self)@.spec_action(),
    {
        proof {
            use_type_invariant(&*self);
        }
        self.state = next(self.state, sample);
        self.action()
    }

    /// Measures once against a recorded run of the echo line: starts a measurement and
    /// takes in the samples in order, one after each action, until the measurement ends
    /// or the samples do. If the samples end first, the echo line counts as silent from
    /// there on, and the attempts that are left time out.
    pub fn read(&mut self, samples: &Vec<EchoSample>) -> (r: Reading)
        ensures
            final(self)@ == old(self)@.measured(samples@),
            final(self)@.spec_reading() == Some(r),
            r matches Reading::Distance(d) ==> d <= spec_distance_cm(old(self)@.timeout_us as int),
    {
        self.start();
        let mut i: usize = 0;
        proof {
            assert(samples@.take(0) =~= Seq::<EchoSample>::empty());
        }
        while i < samples.len() && self.reading().is_none()
            invariant
                i <= samples.len(),
                self@ == old(self)@.started().run(samples@.take(i as int)),
            decreases samples.len() - i,
        {
            proof {
                assert(samples@.take(i + 1).drop_last() =~= samples@.take(i as int));
            }
            self.step(samples[i]);
            i += 1;
        }
        proof {
            lemma_finished_is_final(self@, samples@.skip(i as int));
            lemma_run_splits(old(self)@.started(), samples@, i as int);
            lemma_run_keeps_wf(old(self)@.started(), samples@);
        }
        match self.state.phase {
            Phase::Done { distance_cm } => Reading::Distance(distance_cm),
            Phase::TimedOut => Reading::NoSignal,
            _ => {
                self.state = SonarState {
                    timeout_us: self.state.timeout_us,
                    max_attempts: self.state.max_attempts,
                    timeouts: self.state.max_attempts,
                    phase: Phase::TimedOut,
                };
                Reading::NoSignal
            },
        }
    }
}

/// A finished measurement takes no notice of further samples.
pub proof fn lemma_finished_is_final(s: SonarState, samples: Seq<EchoSample>)
    requires
        s.finished() || samples.len() == 0,
    ensures
        s.run(samples) == s,
    decreases samples.len(),
{
    if samples.len() > 0 {
        lemma_finished_is_final(s, samples.drop_last());
    }
}

/// Taking in a run of samples is the same as taking in its first `k`, then the rest.
pub proof fn lemma_run_splits(s: SonarState, samples: Seq<EchoSample>, k: int)
    requires
        0 <= k <= samples.len(),
    ensures
        s.run(samples) == s.run(samples.take(k)).run(samples.skip(k)),
    decreases samples.len(),
{
    if k == samples.len() {
        assert(samples.take(k) =~= samples);
        assert(samples.skip(k) =~= Seq::<EchoSample>::empty());
    } else {
        let front = samples.drop_last();
        lemma_run_splits(s, front, k);
        assert(front.take(k) =~= samples.take(k));
        assert(front.skip(k) =~= samples.skip(k).drop_last());
    }
}

/// The echo line shows `level` in every sample, and every sample comes no later than
/// `timeout_us` after `since_us`.
pub open spec fn holds_level(
    samples: Seq<EchoSample>,
    level: bool,
    since_us: u64,
    timeout_us: u64,
) -> bool {
    forall|i: int|
        0 <= i < samples.len() ==> (#[trigger] samples[i]).echo_high == level && spec_elapsed(
            since_us,
            samples[i].now_us,
        ) <= timeout_us
}

/// While the awaited edge does not show and the time is not up, the sequencer goes on
/// waiting.
pub proof fn lemma_waiting_goes_on(s: SonarState, samples: Seq<EchoSample>, since_us: u64)
    requires
        s.phase == (Phase::WaitingRisingEdge { since_us }) && holds_level(
            samples,
            false,
            since_us,
            s.timeout_us,
        ) || s.phase == (Phase::WaitingFallingEdge { since_us }) && holds_level(
            samples,
            true,
            since_us,
            s.timeout_us,
        ),
    ensures
        s.run(samples) == s,
    decreases samples.len(),
{
    if samples.len() > 0 {
        let front = samples.drop_last();
        assert forall|i: int| 0 <= i < front.len() implies front[i] == samples[i] by {}
        lemma_waiting_goes_on(s, front, since_us);
        assert(samples.last() == samples[samples.len() - 1]);
    }
}

/// The samples of an attempt that hears its echo in time: the sample `sent` that follows
/// the trigger pulse, then the echo line low through `lows`, high in `rise`, high
/// through `highs` and low again in `fall`.
pub open spec fn echo_samples(
    sent: EchoSample,
    lows: Seq<EchoSample>,
    rise: EchoSample,
    highs: Seq<EchoSample>,
    fall: EchoSample,
) -> Seq<EchoSample> {
    seq![sent] + lows + seq![rise] + highs + seq![fall]
}

/// No edge of the echo comes later than `timeout_us` after the one before: the rise
/// after the trigger pulse, and the fall after the rise.
pub open spec fn echo_in_time(
    timeout_us: u64,
    sent: EchoSample,
    lows: Seq<EchoSample>,
    rise: EchoSample,
    highs: Seq<EchoSample>,
    fall: EchoSample,
) -> bool {
    &&& holds_level(lows, false, sent.now_us, timeout_us)
    &&& rise.echo_high && spec_elapsed(sent.now_us, rise.now_us) <= timeout_us
    &&& holds_level(highs, true, rise.now_us, timeout_us)
    &&& !fall.echo_high && spec_elapsed(rise.now_us, fall.now_us) <= timeout_us
}

/// An attempt that hears its echo in time ends the measurement with the distance that
/// the time between the edges of the echo stands for, and counts no timeout.
pub proof fn lemma_attempt_in_time(
    s: SonarState,
    sent: EchoSample,
    lows: Seq<EchoSample>,
    rise: EchoSample,
    highs: Seq<EchoSample>,
    fall: EchoSample,
)
    requires
        s.phase is Triggering,
        echo_in_time(s.timeout_us, sent, lows, rise, highs, fall),
    ensures
        s.run(echo_samples(sent, lows, rise, highs, fall)) == (SonarState {
            phase: Phase::Done {
                distance_cm: spec_distance_cm(spec_elapsed(rise.now_us, fall.now_us)) as u64,
            },
            ..s
        }),
{
    let all = echo_samples(sent, lows, rise, highs, fall);
    let s1 = s.next(sent);
    let s2 = s1.next(rise);
    let a = 1 + lows.len();
    assert(s.run(seq![sent]) == s1) by {
        assert(seq![sent].drop_last() =~= Seq::<EchoSample>::empty());
        reveal_with_fuel(SonarState::run, 2);
    }
    lemma_waiting_goes_on(s1, lows, sent.now_us);
    lemma_waiting_goes_on(s2, highs, rise.now_us);
    // up to the rising edge
    let upto_rise = all.take(a as int + 1);
    lemma_run_splits(s, upto_rise.drop_last(), 1);
    assert(upto_rise.drop_last().take(1) =~= seq![sent]);
    assert(upto_rise.drop_last().skip(1) =~= lows);
    assert(upto_rise.last() == rise);
    assert(s.run(upto_rise) == s2);
    // up to the falling edge
    lemma_run_splits(s, all.drop_last(), a as int + 1);
    assert(all.drop_last().take(a as int + 1) =~= upto_rise);
    assert(all.drop_last().skip(a as int + 1) =~= highs);
    assert(all.last() == fall);
}

/// An echo that rises and falls in time gives the distance that the time between its
/// edges stands for, on the first attempt and with one trigger pulse.
pub proof fn lemma_echo_in_time_gives_its_distance(
    timeout_us: u64,
    max_attempts: u32,
    sent: EchoSample,
    lows: Seq<EchoSample>,
    rise: EchoSample,
    highs: Seq<EchoSample>,
    fall: EchoSample,
)
    requires
        max_attempts >= 1,
        echo_in_time(timeout_us, sent, lows, rise, highs, fall),
    ensures
        SonarState::spec_new(timeout_us, max_attempts).measured(
            echo_samples(sent, lows, rise, highs, fall),
        ).spec_reading() == Some(
            Reading::Distance(spec_distance_cm(spec_elapsed(rise.now_us, fall.now_us)) as u64),
        ),
        SonarState::spec_new(timeout_us, max_attempts).measured(
            echo_samples(sent, lows, rise, highs, fall),
        ).timeouts == 0,
        1 + SonarState::spec_new(timeout_us, max_attempts).started().pulses(
            echo_samples(sent, lows, rise, highs, fall),
        ) == 1,
{
    let start = SonarState::spec_new(timeout_us, max_attempts).started();
    lemma_attempt_in_time(start, sent, lows, rise, highs, fall);
    lemma_one_pulse_per_attempt(
        timeout_us,
        max_attempts,
        echo_samples(sent, lows, rise, highs, fall),
    );
}

/// A timed-out attempt is tried again, and an echo that then rises and falls in time
/// ends the measurement: if the samples `before` leave the measurement at the start of
/// a new attempt after `k` timeouts, the reading is the distance that the time between
/// the edges of the echo stands for, `k` timeouts are counted, and `k + 1` trigger
/// pulses have been asked for.
pub proof fn lemma_echo_after_retries_gives_its_distance(
    timeout_us: u64,
    max_attempts: u32,
    before: Seq<EchoSample>,
    k: int,
    sent: EchoSample,
    lows: Seq<EchoSample>,
    rise: EchoSample,
    highs: Seq<EchoSample>,
    fall: EchoSample,
)
    requires
        SonarState::spec_new(timeout_us, max_attempts).started().run(before).phase is Triggering,
        SonarState::spec_new(timeout_us, max_attempts).started().run(before).timeouts == k,
        echo_in_time(timeout_us, sent, lows, rise, highs, fall),
    ensures
        SonarState::spec_new(timeout_us, max_attempts).measured(
            before + echo_samples(sent, lows, rise, highs, fall),
        ).spec_reading() == Some(
            Reading::Distance(spec_distance_cm(spec_elapsed(rise.now_us, fall.now_us)) as u64),
        ),
        SonarState::spec_new(timeout_us, max_attempts).measured(
            before + echo_samples(sent, lows, rise, highs, fall),
        ).timeouts == k,
        1 + SonarState::spec_new(timeout_us, max_attempts).started().pulses(
            before + echo_samples(sent, lows, rise, highs, fall),
        ) == k + 1,
        0 <= k < max_attempts,
{
    let start = SonarState::spec_new(timeout_us, max_attempts).started();
    let echo = echo_samples(sent, lows, rise, highs, fall);
    let all = before + echo;
    lemma_run_keeps_wf(start, before);
    lemma_attempt_in_time(start.run(before), sent, lows, rise, highs, fall);
    lemma_run_splits(start, all, before.len() as int);
    assert(all.take(before.len() as int) =~= before);
    assert(all.skip(before.len() as int) =~= echo);
    lemma_one_pulse_per_attempt(timeout_us, max_attempts, all);
}

/// The echo line is low in every sample.
pub open spec fn never_rises(samples: Seq<EchoSample>) -> bool {
    forall|i: int| 0 <= i < samples.len() ==> !(#[trigger] samples[i]).echo_high
}

/// Each sample is later than the one before it.
pub open spec fn clock_advances(samples: Seq<EchoSample>) -> bool {
    forall|i: int, j: int|
        0 <= i < j < samples.len() ==> (#[trigger] samples[i]).now_us < (#[trigger] samples[j]).now_us
}

/// Taking in a sample keeps the counters and the phase in agreement.
pub proof fn lemma_next_keeps_wf(s: SonarState, sample: EchoSample)
    requires
        s.wf(),
    ensures
        s.next(sample).wf(),
        s.next(sample).timeout_us == s.timeout_us,
        s.next(sample).max_attempts == s.max_attempts,
{
    if let Phase::WaitingFallingEdge { since_us } = s.phase {
        let high_us = spec_elapsed(since_us, sample.now_us);
        if high_us <= s.timeout_us {
            lemma_distance_is_monotonic(high_us, s.timeout_us as int);
        }
    }
}

/// Taking in samples keeps the counters and the phase in agreement.
pub proof fn lemma_run_keeps_wf(s: SonarState, samples: Seq<EchoSample>)
    requires
        s.wf(),
    ensures
        s.run(samples).wf(),
        s.run(samples).timeout_us == s.timeout_us,
        s.run(samples).max_attempts == s.max_attempts,
    decreases samples.len(),
{
    if samples.len() > 0 {
        lemma_run_keeps_wf(s, samples.drop_last());
        lemma_next_keeps_wf(s.run(samples.drop_last()), samples.last());
    }
}

/// An attempt is given up at the first sample that comes later than the timeout after the
/// edge before it, and at no other: exactly then the count of timeouts goes up by one,
/// and the wait for that edge is over.
pub proof fn lemma_attempt_is_bounded(s: SonarState, sample: EchoSample, since_us: u64)
    requires
        s.wf(),
        s.phase == (Phase::WaitingRisingEdge { since_us }) || s.phase == (
        Phase::WaitingFallingEdge { since_us }),
    ensures
        spec_elapsed(since_us, sample.now_us) > s.timeout_us ==> s.next(sample).timeouts
            == s.timeouts + 1 && (s.next(sample).phase is Triggering || s.next(sample).phase
            is TimedOut),
        spec_elapsed(since_us, sample.now_us) <= s.timeout_us ==> s.next(sample).timeouts
            == s.timeouts,
{
}

/// While the echo line never rises, no measurement yields a distance: it ends, if it
/// ends, without a signal and after exactly `max_attempts` timeouts.
pub proof fn lemma_silent_echo_yields_no_distance(s: SonarState, samples: Seq<EchoSample>)
    requires
        s.wf(),
        never_rises(samples),
        !(s.phase is WaitingFallingEdge),
        !(s.phase is Done),
    ensures
        !(s.run(samples).phase is WaitingFallingEdge),
        !(s.run(samples).phase is Done),
        s.run(samples).finished() ==> s.run(samples).spec_reading() == Some(Reading::NoSignal)
            && s.run(samples).timeouts == s.max_attempts,
    decreases samples.len(),
{
    lemma_run_keeps_wf(s, samples);
    if samples.len() > 0 {
        assert(never_rises(samples.drop_last())) by {
            assert forall|i: int| 0 <= i < samples.drop_last().len() implies !(
            #[trigger] samples.drop_last()[i]).echo_high by {
                assert(samples.drop_last()[i] == samples[i]);
            }
        }
        lemma_silent_echo_yields_no_distance(s, samples.drop_last());
        assert(!samples[samples.len() - 1].echo_high);
    }
}

/// Against an echo line that never rises, a measurement reads no signal, after exactly
/// `max_attempts` timeouts, however long the recording is.
pub proof fn lemma_silent_echo_reads_no_signal(
    timeout_us: u64,
    max_attempts: u32,
    samples: Seq<EchoSample>,
)
    requires
        never_rises(samples),
    ensures
        SonarState::spec_new(timeout_us, max_attempts).measured(samples).spec_reading() == Some(
            Reading::NoSignal,
        ),
        SonarState::spec_new(timeout_us, max_attempts).measured(samples).timeouts == max_attempts,
{
    let start = SonarState::spec_new(timeout_us, max_attempts).started();
    lemma_silent_echo_yields_no_distance(start, samples);
    lemma_run_keeps_wf(start, samples);
}

/// The sequencer asks for one trigger pulse for each attempt and for no other: while it
/// sees the samples, as many as attempts time out, less the last one if that ends the
/// measurement.
pub proof fn lemma_pulses_follow_timeouts(s: SonarState, samples: Seq<EchoSample>)
    requires
        s.wf(),
        !(s.phase is Idle),
    ensures
        s.pulses(samples) == s.run(samples).timeouts - s.timeouts - if s.run(samples).phase
            is TimedOut && !(s.phase is TimedOut) {
            1int
        } else {
            0int
        },
        !(s.run(samples).phase is Idle),
    decreases samples.len(),
{
    if samples.len() > 0 {
        let before = s.run(samples.drop_last());
        lemma_pulses_follow_timeouts(s, samples.drop_last());
        lemma_run_keeps_wf(s, samples.drop_last());
        assert(s.run(samples) == before.next(samples.last()));
        if s.phase is TimedOut {
            lemma_finished_is_final(s, samples.drop_last());
        }
    }
}

/// A measurement that may make `n` attempts sends exactly `n` trigger pulses before it
/// reports that there is no signal, the one at its start among them, and one more than
/// attempts have timed out as long as it has not given up.
pub proof fn lemma_one_pulse_per_attempt(
    timeout_us: u64,
    max_attempts: u32,
    samples: Seq<EchoSample>,
)
    requires
        max_attempts >= 1,
    ensures
        ({
            let start = SonarState::spec_new(timeout_us, max_attempts).started();
            let end = start.run(samples);
            &&& start.spec_action() is Trigger
            &&& end.phase is TimedOut ==> 1 + start.pulses(samples) == max_attempts
            &&& !(end.phase is TimedOut) ==> 1 + start.pulses(samples) == end.timeouts + 1
        }),
{
    let start = SonarState::spec_new(timeout_us, max_attempts).started();
    lemma_pulses_follow_timeouts(start, samples);
    lemma_run_keeps_wf(start, samples);
}

/// Whatever the echo line and the clock do, the sequencer is never found waiting for an
/// edge at a sample that came later than the timeout after the edge before: such a
/// sample ends the attempt.
pub proof fn lemma_no_wait_outlasts_its_timeout(
    s: SonarState,
    samples: Seq<EchoSample>,
    since_us: u64,
)
    requires
        s.wf(),
        s.phase is Triggering || s.phase is TimedOut,
        samples.len() > 0,
        s.run(samples).phase == (Phase::WaitingRisingEdge { since_us }) || s.run(samples).phase
            == (Phase::WaitingFallingEdge { since_us }),
    ensures
        spec_elapsed(since_us, samples.last().now_us) <= s.timeout_us,
{
    lemma_run_keeps_wf(s, samples.drop_last());
}

/// The most samples that an attempt takes in while the clock advances by at least a
/// microsecond from sample to sample: the one after the trigger pulse, and for each of
/// the two edges those within the timeout and the one beyond it.
pub open spec fn attempt_budget(timeout_us: u64) -> int {
    2 * timeout_us + 3
}

/// The most samples that a measurement can still take in before it ends, while the clock
/// advances: a full budget for each attempt not yet begun, and for the attempt under way
/// what is left of its timeouts.
pub open spec fn samples_left(s: SonarState, last_now_us: int) -> int {
    let later = (s.max_attempts - s.timeouts - 1) * attempt_budget(s.timeout_us);
    match s.phase {
        Phase::Triggering => (s.max_attempts - s.timeouts) * attempt_budget(s.timeout_us),
        Phase::WaitingRisingEdge { since_us } => (s.timeout_us + 1 - (last_now_us - since_us)) + (
        s.timeout_us + 1) + later,
        Phase::WaitingFallingEdge { since_us } => (s.timeout_us + 1 - (last_now_us - since_us))
            + later,
        _ => 0,
    }
}

/// How far a measurement has come after `samples`: it has ended, or the samples taken and
/// those it can still take in add up to no more than a full budget for each attempt.
pub open spec fn in_budget(s: SonarState, samples: Seq<EchoSample>) -> bool {
    let e = s.run(samples);
    let whole = s.max_attempts * attempt_budget(s.timeout_us);
    match e.phase {
        Phase::Idle => false,
        Phase::Triggering => samples.len() + samples_left(e, 0) <= whole,
        Phase::WaitingRisingEdge { since_us } => samples.len() > 0 && since_us
            <= samples.last().now_us && samples.last().now_us - since_us <= s.timeout_us
            && samples.len() + samples_left(e, samples.last().now_us as int) <= whole,
        Phase::WaitingFallingEdge { since_us } => samples.len() > 0 && since_us
            <= samples.last().now_us && samples.last().now_us - since_us <= s.timeout_us
            && samples.len() + samples_left(e, samples.last().now_us as int) <= whole,
        Phase::Done { .. } => true,
        Phase::TimedOut => true,
    }
}

proof fn lemma_stays_in_budget(s: SonarState, samples: Seq<EchoSample>)
    requires
        s.wf(),
        s.phase is Triggering || s.phase is TimedOut,
        s.timeouts == 0,
        clock_advances(samples),
    ensures
        in_budget(s, samples),
    decreases samples.len(),
{
    let budget = attempt_budget(s.timeout_us);
    if samples.len() > 0 {
        let front = samples.drop_last();
        let last = samples.last();
        assert(clock_advances(front)) by {
            assert forall|i: int, j: int| 0 <= i < j < front.len() implies (
            #[trigger] front[i]).now_us < (#[trigger] front[j]).now_us by {
                assert(samples[i].now_us < samples[j].now_us);
            }
        }
        lemma_stays_in_budget(s, front);
        lemma_run_keeps_wf(s, front);
        let e = s.run(front);
        let left = e.max_attempts - e.timeouts;
        assert(left * budget == (left - 1) * budget + budget) by (nonlinear_arith);
        if left >= 2 {
            assert((left - 1) * budget == (left - 2) * budget + budget) by (nonlinear_arith);
        }
        if front.len() > 0 {
            assert(front.last() == samples[front.len() - 1]);
            assert(samples[front.len() - 1].now_us < samples[samples.len() - 1].now_us);
        }
    }
}

/// Whatever the echo line does, a measurement ends: once it has taken in
/// `max_attempts * (2 * timeout_us + 3)` samples of an advancing clock, or before, it has
/// a distance or has timed out `max_attempts` times.
pub proof fn lemma_measurement_ends(timeout_us: u64, max_attempts: u32, samples: Seq<EchoSample>)
    requires
        clock_advances(samples),
        samples.len() >= max_attempts * attempt_budget(timeout_us),
    ensures
        SonarState::spec_new(timeout_us, max_attempts).started().run(samples).finished(),
{
    let s = SonarState::spec_new(timeout_us, max_attempts).started();
    lemma_stays_in_budget(s, samples);
    lemma_run_keeps_wf(s, samples);
    let e = s.run(samples);
    let budget = attempt_budget(timeout_us);
    let left = e.max_attempts - e.timeouts;
    assert(left >= 1 ==> left * budget >= budget && (left - 1) * budget >= 0) by (nonlinear_arith)
        requires
            budget >= 0,
    ;
}

/// Measures a distance against a recorded run of the echo line, with at most
/// `max_attempts` attempts that each wait at most `timeout_us` for either edge. If the
/// samples end before the measurement does, the echo line counts as silent from there on.
pub fn measure_distance(timeout_us: u64, max_attempts: u32, samples: &Vec<EchoSample>) -> (r:
    Reading)
    ensures
        SonarState::spec_new(timeout_us, max_attempts).measured(samples@).spec_reading() == Some(r),
        r matches Reading::Distance(d) ==> d <= spec_distance_cm(timeout_us as int),
{
    let mut sensor: Ultrasonic = Ultrasonic::new(timeout_us, max_attempts);
    sensor.read(samples)
}

} // verus!
