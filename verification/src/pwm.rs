//! The PWM channels of the motor and servo controller: what to write to which register.
//!
//! The controller sits on an I2C bus and takes 16-bit words at 8-bit register addresses,
//! high byte first. Its timers count from zero, so a prescaler, a period or a pulse width
//! of `n` is stored as `n - 1`, and none of the three can be set to zero. A duty cycle in
//! percent is stored as the share of the period register that it comes to, which is zero
//! for a duty cycle of zero.
//!
//! Nothing here touches the bus. Each setter returns the [`RegisterWrite`] that the caller
//! has to send, and [`transfer`] says in which order writes go out and when to stop.

use vstd::prelude::*;
use crate::arith::{abs, trunc_div};
use crate::error::ControlError;
use crate::plan::{
    lemma_plan_stops_at_first_failure, lemma_run_keeps_plan, lemma_run_splits_plan, Plan,
    PlanState,
};
use crate::frequency::{
    error_le, in_window, is_best, is_seed, is_valid, lemma_best_exists,
    lemma_divisors_fit_registers, lemma_seed_exists, lemma_seed_is_unique, period_for, seed,
    spec_synthesize, synthesize_frequency, ticks,
};

verus! {

/// The clock that drives the controller's timers, in hertz.
pub const CLOCK: u32 = 72_000_000;

/// The I2C bus that the controller sits on.
pub const I2C_BUS: u8 = 1;

/// The controller's address on the bus.
pub const SLAVE_ADDR: u16 = 0x14;

/// The pulse width register of channel 0; those of the other channels follow.
pub const REG_PW: u8 = 0x20;

/// The prescaler register of timer 0; those of the other timers follow.
pub const REG_PSC: u8 = 0x40;

/// The period register of timer 0; those of the other timers follow.
pub const REG_PER: u8 = 0x44;

/// How many channels the controller has. Four channels share a timer.
pub const CHANNELS: u8 = 16;

/// The frequency that a channel is set to when it is opened, in hertz.
pub const DEFAULT_FREQ: u16 = 50;

/// The prescaler, and the period as well, that give 50 Hz on the controller's clock.
pub const DEFAULT_DIVISOR: u16 = 1200;

/// One word to send to one register of the controller.
#[derive(Clone, Copy, Debug, PartialEq, Eq, Structural)]
pub struct RegisterWrite {
    /// The register's address.
    pub reg: u8,
    /// The word as the bus call takes it: the value with its two bytes swapped, so that
    /// the high byte travels first.
    pub word: u16,
}

/// The point of `to_range` that lies where `s` lies in `from_range`, rounded towards the
/// start of `to_range`.
pub open spec fn spec_map_range(from_range: (i32, i32), to_range: (i32, i32), s: i32) -> int {
    to_range.0 + trunc_div((s - from_range.0) * (to_range.1 - to_range.0), from_range.1 - from_range.0)
}

/// The value with its two bytes swapped.
pub open spec fn spec_swap_bytes(v: u16) -> u16 {
    ((v % 256) * 256 + v / 256) as u16
}

/// The write that stores `stored` in the register `reg`.
pub open spec fn store(reg: int, stored: int) -> RegisterWrite {
    RegisterWrite { reg: reg as u8, word: spec_swap_bytes(stored as u16) }
}

/// The point of `to_range` that lies where `s` lies in `from_range`, in full width.
fn map_wide(from_range: (i32, i32), to_range: (i32, i32), s: i32) -> (r: i128)
    requires
        from_range.0 != from_range.1,
    ensures
        r == spec_map_range(from_range, to_range, s),
{
    let offset: i128 = s as i128 - from_range.0 as i128;
    let to_span: i128 = to_range.1 as i128 - to_range.0 as i128;
    let from_span: i128 = from_range.1 as i128 - from_range.0 as i128;
    assert(-0x1_0000_0000 * 0x1_0000_0000 <= offset * to_span <= 0x1_0000_0000 * 0x1_0000_0000)
        by (nonlinear_arith)
        requires
            -0x1_0000_0000 <= offset <= 0x1_0000_0000,
            -0x1_0000_0000 <= to_span <= 0x1_0000_0000,
    ;
    let scaled: i128 = offset * to_span;
    let scaled_abs: i128 = if scaled < 0 {
        -scaled
    } else {
        scaled
    };
    let span_abs: i128 = if from_span < 0 {
        -from_span
    } else {
        from_span
    };
    let quotient_abs: i128 = scaled_abs / span_abs;
    assert(0 <= quotient_abs <= scaled_abs) by (nonlinear_arith)
        requires
            quotient_abs == scaled_abs / span_abs,
            scaled_abs >= 0,
            span_abs >= 1,
    ;
    let quotient: i128 = if (scaled >= 0) == (from_span > 0) {
        quotient_abs
    } else {
        -quotient_abs
    };
    to_range.0 as i128 + quotient
}

/// Maps `s` from `from_range` onto `to_range` in a straight line:
/// `to.0 + (s - from.0) * (to.1 - to.0) / (from.1 - from.0)`, the quotient rounded
/// towards zero.
///
/// `from_range` must not be empty, and the result must fit; [`checked_map_range`] asks
/// for neither.
pub fn map_range(from_range: (i32, i32), to_range: (i32, i32), s: i32) -> (r: i32)
    requires
        from_range.0 != from_range.1,
        i32::MIN <= spec_map_range(from_range, to_range, s) <= i32::MAX,
    ensures
        r == spec_map_range(from_range, to_range, s),
{
    map_wide(from_range, to_range, s) as i32
}

/// Maps `s` from `from_range` onto `to_range` as [`map_range`] does, or returns `None`
/// if `from_range` is empty or the result does not fit.
pub fn checked_map_range(from_range: (i32, i32), to_range: (i32, i32), s: i32) -> (r: Option<i32>)
    ensures
        r is Some <==> from_range.0 != from_range.1 && i32::MIN <= spec_map_range(
            from_range,
            to_range,
            s,
        ) <= i32::MAX,
        r matches Some(v) ==> v == spec_map_range(from_range, to_range, s),
{
    if from_range.0 == from_range.1 {
        return None;
    }
    let wide: i128 = map_wide(from_range, to_range, s);
    if wide < i32::MIN as i128 || wide > i32::MAX as i128 {
        None
    } else {
        Some(wide as i32)
    }
}

/// The plan that sends `writes` in order. A write that fails is a
/// `RegisterWriteFailure`: it ends the plan, and no write after it is sent.
pub fn transfer(writes: Vec<RegisterWrite>) -> (r: Plan<RegisterWrite>)
    ensures
        r@ == PlanState::start(writes@, ControlError::RegisterWriteFailure),
{
    Plan::new(writes, ControlError::RegisterWriteFailure)
}

/// Swaps the two bytes of `v`.
pub fn swap_bytes(v: u16) -> (r: u16)
    ensures
        r == spec_swap_bytes(v),
{
    (v % 256) * 256 + v / 256
}

/// Swapping the bytes twice gives the value back.
pub proof fn lemma_swap_bytes_twice(v: u16)
    ensures
        spec_swap_bytes(spec_swap_bytes(v)) == v,
{
}

impl RegisterWrite {
    /// The value that the register holds after the write.
    pub open spec fn spec_value(self) -> u16 {
        spec_swap_bytes(self.word)
    }

    /// The value that the register holds after the write.
    #[verifier::when_used_as_spec(spec_value)]
    pub fn value(self) -> (r: u16)
        ensures
            r == self.spec_value(),
    {
        swap_bytes(self.word)
    }
}

/// What a channel knows of itself.
#[derive(Clone, Copy, Debug, PartialEq, Eq, Structural)]
pub struct PwmState {
    /// The number of the channel.
    pub channel: u8,
    /// What the period register of the channel's timer holds: the period less one.
    pub period: u16,
}

impl PwmState {
    /// The channel exists, and the period register holds a period less one.
    pub open spec fn wf(self) -> bool {
        self.channel < CHANNELS && self.period < u16::MAX
    }

    /// The timer that drives the channel.
    pub open spec fn timer(self) -> int {
        self.channel as int / 4
    }

    /// The write that sets the prescaler of the channel's timer to `prescaler`.
    pub open spec fn prescaler_write(self, prescaler: int) -> RegisterWrite {
        store(REG_PSC + self.timer(), prescaler - 1)
    }

    /// The write that sets the period of the channel's timer to `period`.
    pub open spec fn period_write(self, period: int) -> RegisterWrite {
        store(REG_PER + self.timer(), period - 1)
    }

    /// The write that stores `stored` as the channel's pulse width.
    pub open spec fn pulse_width_write(self, stored: int) -> RegisterWrite {
        store(REG_PW + self.channel, stored)
    }

    /// The prescaler and the period that bring the channel's timer nearest to `freq`
    /// hertz.
    pub open spec fn divisors(freq: int) -> (int, int) {
        spec_synthesize(CLOCK as int, freq)->0
    }

    /// The writes that set the channel's timer to `freq` hertz: its prescaler, then its
    /// period.
    pub open spec fn freq_writes(self, freq: int) -> Seq<RegisterWrite> {
        seq![
            self.prescaler_write(PwmState::divisors(freq).0),
            self.period_write(PwmState::divisors(freq).1),
        ]
    }

    /// The channel once its timer has been set to `freq` hertz.
    pub open spec fn with_freq(self, freq: int) -> PwmState {
        PwmState { period: (PwmState::divisors(freq).1 - 1) as u16, ..self }
    }

    /// The channel after `sent` of the two writes that set its timer to `freq` hertz
    /// have gone out: it remembers the new period once the write of the prescaler, the
    /// first of the two, has gone out, and is as it was before that.
    pub open spec fn after_freq(self, freq: int, sent: int) -> PwmState {
        if freq != 0 && sent >= 1 {
            self.with_freq(freq)
        } else {
            self
        }
    }

    /// The channel `channel` as it is before its timer has been set.
    pub open spec fn unset(channel: u8) -> PwmState {
        PwmState { channel, period: 0 }
    }

    /// The channel `channel` as it is once opened, with its timer at 50 Hz.
    pub open spec fn opened(channel: u8) -> PwmState {
        PwmState { channel, period: (DEFAULT_DIVISOR - 1) as u16 }
    }

    /// The writes that open the channel `channel`: the prescaler and the period for
    /// 50 Hz.
    pub open spec fn opening_writes(channel: u8) -> Seq<RegisterWrite> {
        seq![
            PwmState::unset(channel).prescaler_write(DEFAULT_DIVISOR as int),
            PwmState::unset(channel).period_write(DEFAULT_DIVISOR as int),
        ]
    }

    /// The pulse width register's value for a duty cycle of `percent` of the period
    /// register's, rounded down.
    pub open spec fn percent_of_period(self, percent: int) -> int {
        self.period * percent / 100
    }
}

/// At the 50 Hz that a channel is opened with, the prescaler and the period are 1200
/// each, which hits the frequency exactly.
pub proof fn lemma_default_divisors()
    ensures
        PwmState::divisors(DEFAULT_FREQ as int) == (1200int, 1200int),
{
    let c = CLOCK as int;
    let t = DEFAULT_FREQ as int;
    assert(c == 72_000_000 && t == 50);
    lemma_best_exists(c, t);
    let p = PwmState::divisors(t).0;
    let s = seed(c, t);
    assert(is_seed(c, t, 1200)) by (nonlinear_arith)
        requires
            c == 72_000_000,
            t == 50,
    ;
    lemma_seed_exists(c, t);
    lemma_seed_is_unique(c, t, 1200, s);
    assert(in_window(s, p) && in_window(s, 1200));
    assert(1195 <= p < 1205);
    lemma_exact_at_1200(p);
    assert(is_valid(c, t, 1200));
    let d = ticks(c, t, p);
    let exact = ticks(c, t, 1200);
    assert(t * exact - c == 0 && t * d - c == 50 * d - 72_000_000) by (nonlinear_arith)
        requires
            c == 72_000_000,
            t == 50,
            exact == 1_440_000,
    ;
    if p < 1200 {
        assert(error_le(c, t, p, 1200));
        assert(abs(t * d - c) * exact <= 0 * d);
    } else if p > 1200 {
        assert(0 * d <= abs(t * d - c) * exact) by (nonlinear_arith)
            requires
                abs(t * d - c) >= 0,
                exact >= 0,
        ;
        assert(error_le(c, t, 1200, p));
    }
}

/// Of the prescalers around 1200, only 1200 itself divides the clock into a whole
/// number of periods at 50 Hz.
proof fn lemma_exact_at_1200(p: int)
    requires
        1195 <= p < 1205,
    ensures
        period_for(72_000_000, 50, 1200) == 1200,
        ticks(72_000_000, 50, 1200) == 1_440_000,
        p < 1200 ==> 0 < ticks(72_000_000, 50, p) < 1_440_000,
        0 < ticks(72_000_000, 50, p) <= 1_440_000,
{
    let c = 72_000_000int;
    assert(c / (50int * 1200) == 1200);
    assert(ticks(c, 50, 1200) == 1200int * 1200);
    if p == 1195 {
        assert(c / (50int * 1195) == 1205);
        assert(ticks(c, 50, p) == 1195int * 1205);
    } else if p == 1196 {
        assert(c / (50int * 1196) == 1204);
        assert(ticks(c, 50, p) == 1196int * 1204);
    } else if p == 1197 {
        assert(c / (50int * 1197) == 1203);
        assert(ticks(c, 50, p) == 1197int * 1203);
    } else if p == 1198 {
        assert(c / (50int * 1198) == 1202);
        assert(ticks(c, 50, p) == 1198int * 1202);
    } else if p == 1199 {
        assert(c / (50int * 1199) == 1201);
        assert(ticks(c, 50, p) == 1199int * 1201);
    } else if p == 1201 {
        assert(c / (50int * 1201) == 1199);
        assert(ticks(c, 50, p) == 1201int * 1199);
    } else if p == 1202 {
        assert(c / (50int * 1202) == 1198);
        assert(ticks(c, 50, p) == 1202int * 1198);
    } else if p == 1203 {
        assert(c / (50int * 1203) == 1197);
        assert(ticks(c, 50, p) == 1203int * 1197);
    } else if p == 1204 {
        assert(c / (50int * 1204) == 1196);
        assert(ticks(c, 50, p) == 1204int * 1196);
    }
}

/// If the write of the prescaler fails, the channel remembers the period that it had:
/// the plan that sends the two writes of a new frequency has then sent none, which
/// leaves the channel as it was. Once that write has gone out, the channel remembers the
/// new period, whatever becomes of the second write.
pub proof fn lemma_freq_follows_the_prescaler_write(
    channel: PwmState,
    freq: int,
    outcomes: Seq<bool>,
)
    requires
        freq != 0,
        outcomes.len() > 0,
    ensures
        ({
            let plan = PlanState::start(
                channel.freq_writes(freq),
                ControlError::RegisterWriteFailure,
            ).run(outcomes);
            &&& !outcomes[0] ==> plan.done == 0 && plan.result() == Some(
                Err::<(), ControlError>(ControlError::RegisterWriteFailure),
            ) && channel.after_freq(freq, plan.done) == channel
            &&& outcomes[0] ==> plan.done >= 1 && channel.after_freq(freq, plan.done)
                == channel.with_freq(freq)
        }),
{
    let writes = channel.freq_writes(freq);
    let start = PlanState::start(writes, ControlError::RegisterWriteFailure);
    if !outcomes[0] {
        lemma_plan_stops_at_first_failure(writes, ControlError::RegisterWriteFailure, outcomes, 0);
    } else {
        lemma_run_splits_plan(start, outcomes, 1);
        assert(outcomes.take(1).drop_last() =~= Seq::<bool>::empty());
        assert(start.run(outcomes.take(1)) == start.next(true)) by {
            reveal_with_fuel(PlanState::run, 2);
        }
        lemma_run_keeps_plan(start.next(true), outcomes.skip(1));
    }
}

/// One PWM channel of the controller.
#[derive(Debug)]
pub struct PWM {
    channel: u8,
    period: u16,
}

impl View for PWM {
    type V = PwmState;

    closed spec fn view(&self) -> PwmState {
        PwmState { channel: self.channel, period: self.period }
    }
}

impl PWM {
    #[verifier::type_invariant]
    spec fn inv(self) -> bool {
        self@.wf()
    }

    /// What the channel knows of itself.
    pub fn state(&self) -> (r: PwmState)
        ensures
            r == self@,
            r.wf(),
    {
        proof {
            use_type_invariant(self);
        }
        PwmState { channel: self.channel, period: self.period }
    }

    /// Opens the channel `channel` and sets its timer to 50 Hz.
    ///
    /// Returns the writes that set its timer, in the order in which they are to be sent,
    /// and the channel as it is once they have gone out: a caller that sends them through
    /// a [`Plan`] gets the channel from [`Plan::conclude`] only then. Fails with
    /// `InvalidParameter` exactly if there is no such channel.
    pub fn new(channel: u8) -> (r: Result<(PWM, Vec<RegisterWrite>), ControlError>)
        ensures
            r is Ok <==> channel < CHANNELS,
            r matches Ok((pwm, writes)) ==> pwm@ == PwmState::opened(channel) && writes@
                == PwmState::opening_writes(channel),
            r matches Err(e) ==> e == ControlError::InvalidParameter,
    {
        if channel >= CHANNELS {
            return Err(ControlError::InvalidParameter);
        }
        let mut pwm: PWM = PWM { channel, period: 0 };
        proof {
            lemma_default_divisors();
        }
        match pwm.freq(DEFAULT_FREQ) {
            Ok(writes) => {
                pwm.freq_sent(DEFAULT_FREQ, writes.len());
                Ok((pwm, writes))
            },
            Err(e) => Err(e),
        }
    }

    /// Works out the writes that set the channel's timer to the frequency nearest to
    /// `freq` hertz that a prescaler and a period can give. The channel itself changes
    /// only when [`freq_sent`](PWM::freq_sent) hears how far the writes have got.
    ///
    /// Returns the write of the prescaler and the write of the period, in the order in
    /// which they are to be sent. Fails with `InvalidParameter` exactly if `freq` is zero.
    pub fn freq(&self, freq: u16) -> (r: Result<Vec<RegisterWrite>, ControlError>)
        ensures
            r is Ok <==> freq != 0,
            r matches Ok(writes) ==> writes@ == self@.freq_writes(freq as int),
            r matches Err(e) ==> e == ControlError::InvalidParameter,
            freq != 0 ==> {
                let (p, per) = PwmState::divisors(freq as int);
                1 <= p <= 0xFFFF && 1 <= per <= 0xFFFF && is_best(CLOCK as int, freq as int, p)
                    && per == period_for(CLOCK as int, freq as int, p)
            },
    {
        proof {
            use_type_invariant(self);
        }
        match synthesize_frequency(CLOCK, freq as u32) {
            Ok((psc, per)) => {
                proof {
                    lemma_divisors_fit_registers(CLOCK as int, freq as int, psc as int);
                }
                let timer: u8 = self.channel / 4;
                Ok(
                    vec![
                        RegisterWrite { reg: REG_PSC + timer, word: swap_bytes((psc - 1) as u16) },
                        RegisterWrite { reg: REG_PER + timer, word: swap_bytes((per - 1) as u16) },
                    ],
                )
            },
            Err(e) => Err(e),
        }
    }

    /// Takes in how many of the two writes of [`freq`](PWM::freq) have gone out, and
    /// remembers the new period if the write of the prescaler, the first of them, is
    /// among those. If that write has failed, or `freq` is zero, the channel stays as it
    /// was.
    pub fn freq_sent(&mut self, freq: u16, sent: usize)
        ensures
            final(self)@ == old(self)@.after_freq(freq as int, sent as int),
            sent == 0 ==> final(self)@ == old(self)@,
    {
        proof {
            use_type_invariant(&*self);
        }
        if sent >= 1 {
            match synthesize_frequency(CLOCK, freq as u32) {
                Ok((psc, per)) => {
                    proof {
                        lemma_divisors_fit_registers(CLOCK as int, freq as int, psc as int);
                    }
                    self.period = (per - 1) as u16;
                },
                Err(_) => {},
            }
        }
    }

    /// Sets the prescaler of the channel's timer.
    ///
    /// Fails with `InvalidParameter` exactly if `prescaler` is zero.
    pub fn prescaler(&self, prescaler: u16) -> (r: Result<RegisterWrite, ControlError>)
        ensures
            prescaler == 0 ==> r == Err::<RegisterWrite, ControlError>(ControlError::InvalidParameter),
            prescaler != 0 ==> r == Ok::<RegisterWrite, ControlError>(
                self@.prescaler_write(prescaler as int),
            ),
    {
        proof {
            use_type_invariant(self);
        }
        if prescaler == 0 {
            return Err(ControlError::InvalidParameter);
        }
        let timer: u8 = self.channel / 4;
        Ok(RegisterWrite { reg: REG_PSC + timer, word: swap_bytes(prescaler - 1) })
    }

    /// Sets the period of the channel's timer, and remembers it for
    /// [`pulse_width_percent`](PWM::pulse_width_percent) from now on, whether or not the
    /// write goes out.
    ///
    /// Fails with `InvalidParameter` exactly if `per` is zero; the channel is then left as
    /// it was.
    pub fn period(&mut self, per: u16) -> (r: Result<RegisterWrite, ControlError>)
        ensures
            per == 0 ==> r == Err::<RegisterWrite, ControlError>(ControlError::InvalidParameter)
                && final(self)@ == old(self)@,
            per != 0 ==> r == Ok::<RegisterWrite, ControlError>(old(self)@.period_write(per as int))
                && final(self)@ == (PwmState { period: (per - 1) as u16, ..old(self)@ }),
    {
        proof {
            use_type_invariant(&*self);
        }
        if per == 0 {
            return Err(ControlError::InvalidParameter);
        }
        let timer: u8 = self.channel / 4;
        self.period = per - 1;
        Ok(RegisterWrite { reg: REG_PER + timer, word: swap_bytes(self.period) })
    }

    /// Stores `stored` in the channel's pulse width register as it is.
    pub(crate) fn pulse_width_ticks(&self, stored: u16) -> (r: RegisterWrite)
        ensures
            r == self@.pulse_width_write(stored as int),
    {
        proof {
            use_type_invariant(self);
        }
        RegisterWrite { reg: REG_PW + self.channel, word: swap_bytes(stored) }
    }

    /// Sets the pulse width of the channel to `pw` ticks of its timer, stored less one as a
    /// prescaler and a period are.
    ///
    /// Fails with `InvalidParameter` exactly if `pw` is zero.
    pub fn pulse_width(&self, pw: u16) -> (r: Result<RegisterWrite, ControlError>)
        ensures
            pw == 0 ==> r == Err::<RegisterWrite, ControlError>(ControlError::InvalidParameter),
            pw != 0 ==> r == Ok::<RegisterWrite, ControlError>(self@.pulse_width_write(pw - 1)),
    {
        if pw == 0 {
            return Err(ControlError::InvalidParameter);
        }
        Ok(self.pulse_width_ticks(pw - 1))
    }

    /// Sets the duty cycle of the channel: the pulse width register gets
    /// `pulse_width_percent` hundredths of what the period register holds, rounded down.
    ///
    /// Fails with `InvalidParameter` exactly if `pulse_width_percent` is above 100.
    pub fn pulse_width_percent(&self, pulse_width_percent: u32) -> (r: Result<
        RegisterWrite,
        ControlError,
    >)
        ensures
            pulse_width_percent > 100 ==> r == Err::<RegisterWrite, ControlError>(
                ControlError::InvalidParameter,
            ),
            pulse_width_percent <= 100 ==> r == Ok::<RegisterWrite, ControlError>(
                self@.pulse_width_write(self@.percent_of_period(pulse_width_percent as int)),
            ),
    {
        proof {
            use_type_invariant(self);
        }
        if pulse_width_percent > 100 {
            return Err(ControlError::InvalidParameter);
        }
        assert(0 <= self.period * pulse_width_percent <= 100 * self.period) by (nonlinear_arith)
            requires
                pulse_width_percent <= 100,
        ;
        let stored: u32 = (self.period as u32 * pulse_width_percent) / 100;
        Ok(self.pulse_width_ticks(stored as u16))
    }
}

} // verus!
