//! Motors and servos: from a signed speed or an angle to the writes that carry it out.
//!
//! A motor takes a duty cycle on its PWM channel and a level on its direction pin. A
//! motor that is asked for too small a duty cycle stalls, so every speed other than zero
//! is mapped onto the upper part of the duty range, from the motor's smallest effective
//! duty cycle up to 100 percent.
//!
//! A direction is always the direction in which the wheel turns. The right motor is
//! mounted the other way round than the left one, so the same direction puts opposite
//! levels on the two direction pins; [`pin_level`] is the one place where that shows.
//!
//! A servo takes a pulse of 500 to 2500 microseconds, once in a frame of 20 milliseconds,
//! and turns from -90 to 90 degrees in proportion.

use vstd::prelude::*;
use crate::arith::abs;
use crate::error::ControlError;
use crate::pwm::{map_range, spec_map_range, PwmState, RegisterWrite, PWM};

verus! {

/// The period of a motor's timer.
pub const PERIOD: u16 = 1200;

/// The prescaler of a motor's timer.
pub const PRESCALER: u16 = 1200;

/// The longest pulse that a servo takes, in microseconds.
pub const MAX_PW: u16 = 2500;

/// The shortest pulse that a servo takes, in microseconds.
pub const MIN_PW: u16 = 500;

/// The period of a servo's timer.
pub const SERVO_PERIOD: u16 = 4095;

/// The prescaler of a servo's timer: the clock, over the servo's 50 Hz, over the period.
pub const SERVO_PRESCALER: u16 = 351;

/// The length of a servo's frame in microseconds, for its 50 Hz signal.
pub const FRAME_PERIOD_US: u16 = 20_000;

/// The smallest duty cycle, in percent, at which a motor turns.
pub const STALL_DUTY: u32 = 50;

/// The largest speed, forward or backward, in percent.
pub const MAX_SPEED: i32 = 100;

/// The PWM channel of the left motor.
pub const LEFT_MOTOR_PWM_PIN: u8 = 12;

/// The direction pin of the left motor.
pub const LEFT_MOTOR_DIR_PIN: u8 = 23;

/// The PWM channel of the right motor.
pub const RIGHT_MOTOR_PWM_PIN: u8 = 13;

/// The direction pin of the right motor.
pub const RIGHT_MOTOR_DIR_PIN: u8 = 24;

/// The direction in which a wheel turns.
#[derive(Clone, Copy, Debug, PartialEq, Eq, Structural)]
pub enum Direction {
    Forward,
    Reverse,
}

/// The level of a direction pin.
#[derive(Clone, Copy, Debug, PartialEq, Eq, Structural)]
pub enum PinLevel {
    High,
    Low,
}

/// The level on the direction pin that turns a wheel in `direction`: high for forward
/// and low for reverse, and the other way round for a motor that is mounted reversed.
pub open spec fn spec_pin_level(direction: Direction, reversed: bool) -> PinLevel {
    if (direction == Direction::Forward) != reversed {
        PinLevel::High
    } else {
        PinLevel::Low
    }
}

/// The level on the direction pin that turns a wheel in `direction`: high for forward
/// and low for reverse, and the other way round for a motor that is mounted reversed.
#[verifier::when_used_as_spec(spec_pin_level)]
pub fn pin_level(direction: Direction, reversed: bool) -> (r: PinLevel)
    ensures
        r == spec_pin_level(direction, reversed),
{
    match direction {
        Direction::Forward => if reversed {
            PinLevel::Low
        } else {
            PinLevel::High
        },
        Direction::Reverse => if reversed {
            PinLevel::High
        } else {
            PinLevel::Low
        },
    }
}

/// Which motors a command is for.
#[derive(Clone, Copy, Debug, PartialEq, Eq, Structural)]
pub enum MotorSelect {
    Left,
    Right,
    Both,
}

impl MotorSelect {
    /// The motors that a selector number stands for: 0 for the left one, 1 for the right
    /// one, 2 for both. No other number stands for any.
    pub open spec fn spec_from_index(index: u8) -> Option<MotorSelect> {
        if index == 0 {
            Some(MotorSelect::Left)
        } else if index == 1 {
            Some(MotorSelect::Right)
        } else if index == 2 {
            Some(MotorSelect::Both)
        } else {
            None
        }
    }

    /// The motors that a selector number stands for: 0 for the left one, 1 for the right
    /// one, 2 for both.
    ///
    /// Fails with `InvalidParameter` for every other number: an unknown selector never
    /// falls back on both motors.
    pub fn from_index(index: u8) -> (r: Result<MotorSelect, ControlError>)
        ensures
            match MotorSelect::spec_from_index(index) {
                Some(target) => r == Ok::<MotorSelect, ControlError>(target),
                None => r == Err::<MotorSelect, ControlError>(ControlError::InvalidParameter),
            },
    {
        match index {
            0 => Ok(MotorSelect::Left),
            1 => Ok(MotorSelect::Right),
            2 => Ok(MotorSelect::Both),
            _ => Err(ControlError::InvalidParameter),
        }
    }
}

/// What to do to one motor: the word for its pulse width register and the level for its
/// direction pin.
#[derive(Clone, Copy, Debug, PartialEq, Eq, Structural)]
pub struct MotorAction {
    /// The motor's direction pin.
    pub dir_pin: u8,
    /// The direction in which the wheel is to turn.
    pub direction: Direction,
    /// The level to put on the direction pin for that direction.
    pub level: PinLevel,
    /// The duty cycle in percent, from 0 to 100.
    pub duty: u32,
    /// The write that sets this duty cycle.
    pub pulse_width: RegisterWrite,
}

/// What to do to the two motors; `None` for a motor that is to be left as it is.
#[derive(Clone, Copy, Debug, PartialEq, Eq, Structural)]
pub struct WheelActions {
    pub left: Option<MotorAction>,
    pub right: Option<MotorAction>,
}

/// The direction that a signed speed asks for: forward above zero, reverse otherwise.
pub open spec fn spec_direction(speed: int) -> Direction {
    if speed > 0 {
        Direction::Forward
    } else {
        Direction::Reverse
    }
}

/// The duty cycle for a speed of the given magnitude on a motor that stalls below
/// `min_duty`: zero for zero, and otherwise the point of `min_duty..=100` that lies where
/// the magnitude lies in `0..=100`.
pub open spec fn spec_duty(magnitude: int, min_duty: int) -> int {
    if magnitude == 0 {
        0
    } else {
        min_duty + magnitude * (100 - min_duty) / 100
    }
}

/// With the usual smallest duty cycle of 50 percent, a speed of magnitude `m` other than
/// zero gets the duty cycle `m / 2 + 50`.
pub proof fn lemma_duty_at_stall_duty(magnitude: int)
    requires
        0 < magnitude <= 100,
    ensures
        spec_duty(magnitude, STALL_DUTY as int) == magnitude / 2 + 50,
{
}

/// A duty cycle is zero or lies between the smallest effective one and 100 percent, and
/// a larger magnitude never gets a smaller one.
pub proof fn lemma_duty_range(m1: int, m2: int, min_duty: int)
    requires
        0 <= m1 <= m2 <= 100,
        0 <= min_duty <= 100,
    ensures
        0 <= spec_duty(m1, min_duty) <= spec_duty(m2, min_duty) <= 100,
        m1 > 0 ==> spec_duty(m1, min_duty) >= min_duty,
{
    let span = 100 - min_duty;
    assert(0 <= m1 * span <= m2 * span <= 100 * span) by (nonlinear_arith)
        requires
            0 <= m1 <= m2 <= 100,
            span >= 0,
    ;
}

/// One motor: its PWM channel, its direction pin, which way round it is mounted, and the
/// smallest duty cycle at which it turns.
#[derive(Debug)]
pub struct Motor {
    pub pwm: PWM,
    pub dir_pin: u8,
    /// Whether the motor is mounted the other way round, so that a low level on its
    /// direction pin turns the wheel forward.
    pub reversed: bool,
    /// The smallest effective duty cycle in percent, at most 100.
    pub min_duty: u32,
}

impl Motor {
    /// What a speed asks of this motor.
    pub open spec fn action(self, speed: int) -> MotorAction {
        let duty = spec_duty(abs(speed), self.min_duty as int);
        MotorAction {
            dir_pin: self.dir_pin,
            direction: spec_direction(speed),
            level: spec_pin_level(spec_direction(speed), self.reversed),
            duty: duty as u32,
            pulse_width: self.pwm@.pulse_width_write(self.pwm@.percent_of_period(duty)),
        }
    }

    /// Whether this motor can carry out a speed: the speed is a percentage, and so is the
    /// motor's smallest duty cycle.
    pub open spec fn accepts(self, speed: int) -> bool {
        -MAX_SPEED <= speed <= MAX_SPEED && self.min_duty <= 100
    }

    /// The writes that open a motor on PWM channel `pwm_pin`: those that open the channel,
    /// then the period and the prescaler of a motor.
    pub open spec fn opening_writes(pwm_pin: u8) -> Seq<RegisterWrite> {
        PwmState::opening_writes(pwm_pin) + seq![
            PwmState::unset(pwm_pin).period_write(PERIOD as int),
            PwmState::unset(pwm_pin).prescaler_write(PRESCALER as int),
        ]
    }

    /// The PWM channel of a motor once it has been opened on `pwm_pin`.
    pub open spec fn opened_pwm(pwm_pin: u8) -> PwmState {
        PwmState { period: (PERIOD - 1) as u16, ..PwmState::unset(pwm_pin) }
    }

    /// Opens the motor on PWM channel `pwm_pin` with direction pin `dir_pin`, and sets its
    /// timer. The motor gets the usual smallest duty cycle of 50 percent and counts as
    /// mounted the usual way round.
    ///
    /// Returns the motor and the writes to send, in order. Fails with `InvalidParameter`
    /// exactly if there is no such channel.
    pub fn new(pwm_pin: u8, dir_pin: u8) -> (r: Result<(Motor, Vec<RegisterWrite>), ControlError>)
        ensures
            r is Ok <==> pwm_pin < crate::pwm::CHANNELS,
            r matches Ok((motor, writes)) ==> {
                &&& motor.pwm@ == Motor::opened_pwm(pwm_pin)
                &&& motor.dir_pin == dir_pin
                &&& !motor.reversed
                &&& motor.min_duty == STALL_DUTY
                &&& writes@ == Motor::opening_writes(pwm_pin)
            },
            r matches Err(e) ==> e == ControlError::InvalidParameter,
    {
        let (mut pwm, mut writes) = match PWM::new(pwm_pin) {
            Ok(opened) => opened,
            Err(e) => { return Err(e); },
        };
        let period_write: RegisterWrite = match pwm.period(PERIOD) {
            Ok(w) => w,
            Err(e) => { return Err(e); },
        };
        let prescaler_write: RegisterWrite = match pwm.prescaler(PRESCALER) {
            Ok(w) => w,
            Err(e) => { return Err(e); },
        };
        writes.push(period_write);
        writes.push(prescaler_write);
        Ok((Motor { pwm, dir_pin, reversed: false, min_duty: STALL_DUTY }, writes))
    }

    /// Turns a signed speed in percent into the wheel's direction, the level on the
    /// direction pin that goes with it, and the duty cycle: forward for a speed above
    /// zero, reverse otherwise, and a duty cycle of zero for a speed of zero.
    ///
    /// Fails with `InvalidParameter` exactly if the speed is not within -100 to 100, or if
    /// the motor's smallest duty cycle is above 100.
    pub fn speed(&self, speed: i32) -> (r: Result<MotorAction, ControlError>)
        ensures
            self.accepts(speed as int) ==> r == Ok::<MotorAction, ControlError>(
                self.action(speed as int),
            ),
            !self.accepts(speed as int) ==> r == Err::<MotorAction, ControlError>(
                ControlError::InvalidParameter,
            ),
            r matches Ok(a) ==> a.duty <= 100 && (speed == 0 ==> a.duty == 0) && (speed != 0
                ==> a.duty >= self.min_duty),
    {
        if speed < -MAX_SPEED || speed > MAX_SPEED || self.min_duty > 100 {
            return Err(ControlError::InvalidParameter);
        }
        let direction: Direction = if speed > 0 {
            Direction::Forward
        } else {
            Direction::Reverse
        };
        let magnitude: u32 = if speed < 0 {
            (-speed) as u32
        } else {
            speed as u32
        };
        proof {
            lemma_duty_range(magnitude as int, 100, self.min_duty as int);
        }
        let duty: u32 = if magnitude == 0 {
            0
        } else {
            let span: u32 = 100 - self.min_duty;
            assert(0 <= magnitude * span <= 100 * 100) by (nonlinear_arith)
                requires
                    0 <= magnitude <= 100,
                    0 <= span <= 100,
            ;
            self.min_duty + magnitude * span / 100
        };
        match self.pwm.pulse_width_percent(duty) {
            Ok(pulse_width) => Ok(
                MotorAction {
                    dir_pin: self.dir_pin,
                    direction,
                    level: pin_level(direction, self.reversed),
                    duty,
                    pulse_width,
                },
            ),
            Err(e) => Err(e),
        }
    }
}

/// The two motors of the robot.
#[derive(Debug)]
pub struct Motors {
    pub left_motor: Motor,
    pub right_motor: Motor,
}

impl Motors {
    /// Whether `target` is for the left motor.
    pub open spec fn addresses_left(target: MotorSelect) -> bool {
        target == MotorSelect::Left || target == MotorSelect::Both
    }

    /// Whether `target` is for the right motor.
    pub open spec fn addresses_right(target: MotorSelect) -> bool {
        target == MotorSelect::Right || target == MotorSelect::Both
    }

    /// Whether every motor that `target` is for can carry out `speed`.
    pub open spec fn accepts_wheel(self, speed: int, target: MotorSelect) -> bool {
        &&& Motors::addresses_left(target) ==> self.left_motor.accepts(speed)
        &&& Motors::addresses_right(target) ==> self.right_motor.accepts(speed)
    }

    /// What `speed` asks of the motors that `target` is for, and nothing for the other.
    pub open spec fn spec_wheel(self, speed: int, target: MotorSelect) -> WheelActions {
        WheelActions {
            left: if Motors::addresses_left(target) {
                Some(self.left_motor.action(speed))
            } else {
                None
            },
            right: if Motors::addresses_right(target) {
                Some(self.right_motor.action(speed))
            } else {
                None
            },
        }
    }

    /// What a pair of speeds asks of the two motors.
    pub open spec fn spec_speed(self, left_speed: int, right_speed: int) -> WheelActions {
        WheelActions {
            left: Some(self.left_motor.action(left_speed)),
            right: Some(self.right_motor.action(right_speed)),
        }
    }

    /// Whether the two motors can carry out a pair of speeds.
    pub open spec fn accepts_speed(self, left_speed: int, right_speed: int) -> bool {
        self.left_motor.accepts(left_speed) && self.right_motor.accepts(right_speed)
    }

    /// The writes that open the two motors, the left motor's before the right motor's.
    pub open spec fn opening_writes() -> Seq<RegisterWrite> {
        Motor::opening_writes(LEFT_MOTOR_PWM_PIN) + Motor::opening_writes(RIGHT_MOTOR_PWM_PIN)
    }

    /// Opens the two motors on their channels and pins. The right motor is mounted the
    /// other way round than the left one.
    ///
    /// Returns the motors and the writes to send, in order.
    pub fn new() -> (r: Result<(Motors, Vec<RegisterWrite>), ControlError>)
        ensures
            r matches Ok((motors, writes)) && {
                &&& motors.left_motor.pwm@ == Motor::opened_pwm(LEFT_MOTOR_PWM_PIN)
                &&& motors.left_motor.dir_pin == LEFT_MOTOR_DIR_PIN
                &&& !motors.left_motor.reversed
                &&& motors.left_motor.min_duty == STALL_DUTY
                &&& motors.right_motor.pwm@ == Motor::opened_pwm(RIGHT_MOTOR_PWM_PIN)
                &&& motors.right_motor.dir_pin == RIGHT_MOTOR_DIR_PIN
                &&& motors.right_motor.reversed
                &&& motors.right_motor.min_duty == STALL_DUTY
                &&& writes@ == Motors::opening_writes()
            },
    {
        let (left_motor, mut writes) = match Motor::new(LEFT_MOTOR_PWM_PIN, LEFT_MOTOR_DIR_PIN) {
            Ok(opened) => opened,
            Err(e) => { return Err(e); },
        };
        let (mut right_motor, mut right_writes) = match Motor::new(
            RIGHT_MOTOR_PWM_PIN,
            RIGHT_MOTOR_DIR_PIN,
        ) {
            Ok(opened) => opened,
            Err(e) => { return Err(e); },
        };
        right_motor.reversed = true;
        writes.append(&mut right_writes);
        Ok((Motors { left_motor, right_motor }, writes))
    }

    /// Drives the motors that `target` is for at `speed` percent, forward for a speed
    /// above zero and in reverse otherwise. With `Both`, the two motors get the same
    /// direction and the same duty cycle; a motor that `target` is not for is left as it
    /// is.
    ///
    /// Fails with `InvalidParameter`, and asks nothing of either motor, exactly if a motor
    /// that `target` is for cannot carry out the speed.
    pub fn wheel(&self, speed: i32, target: MotorSelect) -> (r: Result<WheelActions, ControlError>)
        ensures
            self.accepts_wheel(speed as int, target) ==> r == Ok::<WheelActions, ControlError>(
                self.spec_wheel(speed as int, target),
            ),
            !self.accepts_wheel(speed as int, target) ==> r == Err::<WheelActions, ControlError>(
                ControlError::InvalidParameter,
            ),
    {
        let left: Option<MotorAction> = match target {
            MotorSelect::Right => None,
            _ => match self.left_motor.speed(speed) {
                Ok(a) => Some(a),
                Err(e) => { return Err(e); },
            },
        };
        let right: Option<MotorAction> = match target {
            MotorSelect::Left => None,
            _ => match self.right_motor.speed(speed) {
                Ok(a) => Some(a),
                Err(e) => { return Err(e); },
            },
        };
        Ok(WheelActions { left, right })
    }

    /// Stops both motors: a duty cycle of zero on each.
    ///
    /// Fails with `InvalidParameter` exactly if the smallest duty cycle of a motor is
    /// above 100.
    pub fn stop(&self) -> (r: Result<WheelActions, ControlError>)
        ensures
            self.accepts_speed(0, 0) ==> r == Ok::<WheelActions, ControlError>(self.spec_speed(0, 0)),
            !self.accepts_speed(0, 0) ==> r == Err::<WheelActions, ControlError>(
                ControlError::InvalidParameter,
            ),
            r matches Ok(a) ==> a.left->0.duty == 0 && a.right->0.duty == 0,
    {
        self.speed(0, 0)
    }

    /// Drives the left wheel at `left_speed` percent and the right wheel at `right_speed`
    /// percent, each forward for a speed above zero and in reverse otherwise.
    ///
    /// Fails with `InvalidParameter`, and asks nothing of either motor, exactly if a speed
    /// is not within -100 to 100 or the smallest duty cycle of a motor is above 100.
    pub fn speed(&self, left_speed: i32, right_speed: i32) -> (r: Result<WheelActions, ControlError>)
        ensures
            self.accepts_speed(left_speed as int, right_speed as int) ==> r == Ok::<
                WheelActions,
                ControlError,
            >(self.spec_speed(left_speed as int, right_speed as int)),
            !self.accepts_speed(left_speed as int, right_speed as int) ==> r == Err::<
                WheelActions,
                ControlError,
            >(ControlError::InvalidParameter),
    {
        let left: MotorAction = match self.left_motor.speed(left_speed) {
            Ok(a) => a,
            Err(e) => { return Err(e); },
        };
        let right: MotorAction = match self.right_motor.speed(right_speed) {
            Ok(a) => a,
            Err(e) => { return Err(e); },
        };
        Ok(WheelActions { left: Some(left), right: Some(right) })
    }

    /// Drives both wheels forward at `speed` percent, in a straight line: the same as
    /// [`wheel`](Motors::wheel) for both motors.
    pub fn forward(&self, speed: i32) -> (r: Result<WheelActions, ControlError>)
        ensures
            self.accepts_wheel(speed as int, MotorSelect::Both) ==> r == Ok::<
                WheelActions,
                ControlError,
            >(self.spec_wheel(speed as int, MotorSelect::Both)),
            self.accepts_speed(speed as int, speed as int) ==> r == Ok::<WheelActions, ControlError>(
                self.spec_speed(speed as int, speed as int),
            ),
            !self.accepts_speed(speed as int, speed as int) ==> r == Err::<
                WheelActions,
                ControlError,
            >(ControlError::InvalidParameter),
    {
        self.speed(speed, speed)
    }

    /// Drives both wheels backward at `speed` percent.
    pub fn backward(&self, speed: i32) -> (r: Result<WheelActions, ControlError>)
        ensures
            self.accepts_speed(-speed, -speed) ==> r == Ok::<WheelActions, ControlError>(
                self.spec_speed(-speed, -speed),
            ),
            !self.accepts_speed(-speed, -speed) ==> r == Err::<WheelActions, ControlError>(
                ControlError::InvalidParameter,
            ),
    {
        if speed < -MAX_SPEED || speed > MAX_SPEED {
            return Err(ControlError::InvalidParameter);
        }
        self.speed(-speed, -speed)
    }

    /// Turns left on the spot: the left wheel backward and the right wheel forward, at
    /// `speed` percent each.
    pub fn turn_left(&self, speed: i32) -> (r: Result<WheelActions, ControlError>)
        ensures
            self.accepts_speed(-speed, speed as int) ==> r == Ok::<WheelActions, ControlError>(
                self.spec_speed(-speed, speed as int),
            ),
            !self.accepts_speed(-speed, speed as int) ==> r == Err::<WheelActions, ControlError>(
                ControlError::InvalidParameter,
            ),
    {
        if speed < -MAX_SPEED || speed > MAX_SPEED {
            return Err(ControlError::InvalidParameter);
        }
        self.speed(-speed, speed)
    }

    /// Turns right on the spot: the left wheel forward and the right wheel backward, at
    /// `speed` percent each.
    pub fn turn_right(&self, speed: i32) -> (r: Result<WheelActions, ControlError>)
        ensures
            self.accepts_speed(speed as int, -speed) ==> r == Ok::<WheelActions, ControlError>(
                self.spec_speed(speed as int, -speed),
            ),
            !self.accepts_speed(speed as int, -speed) ==> r == Err::<WheelActions, ControlError>(
                ControlError::InvalidParameter,
            ),
    {
        if speed < -MAX_SPEED || speed > MAX_SPEED {
            return Err(ControlError::InvalidParameter);
        }
        self.speed(speed, -speed)
    }
}

/// A speed of zero for both motors gives a duty cycle of zero on each, whatever the
/// motors were doing before and whatever their timers are set to.
pub proof fn lemma_wheel_zero_stops_both(motors: Motors)
    requires
        motors.accepts_wheel(0, MotorSelect::Both),
    ensures
        motors.spec_wheel(0, MotorSelect::Both).left matches Some(a) && a.duty == 0,
        motors.spec_wheel(0, MotorSelect::Both).right matches Some(a) && a.duty == 0,
{
}

/// A command for both motors gives them the same direction, and the same duty cycle if
/// they stall at the same one.
pub proof fn lemma_wheel_both_is_even(motors: Motors, speed: int)
    requires
        motors.left_motor.min_duty == motors.right_motor.min_duty,
    ensures
        motors.spec_wheel(speed, MotorSelect::Both).left->0.direction == motors.spec_wheel(
            speed,
            MotorSelect::Both,
        ).right->0.direction,
        motors.spec_wheel(speed, MotorSelect::Both).left->0.duty == motors.spec_wheel(
            speed,
            MotorSelect::Both,
        ).right->0.duty,
{
}

/// Driving forward is the command for both motors: both wheels get the same direction and,
/// if they stall at the same duty cycle, the same duty cycle; for a speed above zero the
/// direction is forward, with a high level on the pin of a motor mounted the usual way
/// round and a low level on the pin of one mounted reversed.
pub proof fn lemma_forward_is_wheel_both(motors: Motors, speed: int)
    ensures
        motors.spec_speed(speed, speed) == motors.spec_wheel(speed, MotorSelect::Both),
        motors.accepts_speed(speed, speed) == motors.accepts_wheel(speed, MotorSelect::Both),
        speed > 0 ==> motors.spec_speed(speed, speed).left->0.direction == Direction::Forward
            && motors.spec_speed(speed, speed).right->0.direction == Direction::Forward,
        motors.left_motor.min_duty == motors.right_motor.min_duty ==> motors.spec_speed(
            speed,
            speed,
        ).left->0.duty == motors.spec_speed(speed, speed).right->0.duty,
        speed > 0 && !motors.left_motor.reversed && motors.right_motor.reversed
            ==> motors.spec_speed(speed, speed).left->0.level == PinLevel::High
            && motors.spec_speed(speed, speed).right->0.level == PinLevel::Low,
{
}

/// Turning on the spot gives the two wheels opposite directions, and the same duty cycle
/// if they stall at the same one: to the left the left wheel turns in reverse and the
/// right wheel forward, to the right the other way round.
pub proof fn lemma_turns_are_opposite(motors: Motors, speed: int)
    requires
        speed > 0,
    ensures
        motors.spec_speed(-speed, speed).left->0.direction == Direction::Reverse,
        motors.spec_speed(-speed, speed).right->0.direction == Direction::Forward,
        motors.spec_speed(speed, -speed).left->0.direction == Direction::Forward,
        motors.spec_speed(speed, -speed).right->0.direction == Direction::Reverse,
        motors.left_motor.min_duty == motors.right_motor.min_duty ==> motors.spec_speed(
            -speed,
            speed,
        ).left->0.duty == motors.spec_speed(-speed, speed).right->0.duty,
{
}

/// A command for one motor asks nothing of the other.
pub proof fn lemma_wheel_one_side_only(motors: Motors, speed: int)
    ensures
        motors.spec_wheel(speed, MotorSelect::Left).right is None,
        motors.spec_wheel(speed, MotorSelect::Left).left == Some(motors.left_motor.action(speed)),
        motors.spec_wheel(speed, MotorSelect::Right).left is None,
        motors.spec_wheel(speed, MotorSelect::Right).right == Some(
            motors.right_motor.action(speed),
        ),
{
}

/// What a servo knows of itself.
#[derive(Clone, Copy, Debug, PartialEq, Eq, Structural)]
pub struct ServoState {
    /// The servo's PWM channel.
    pub pwm: PwmState,
    /// The pulse that turns the servo to -90 degrees, in microseconds.
    pub min_pw: u16,
    /// The pulse that turns the servo to 90 degrees, in microseconds.
    pub max_pw: u16,
}

/// The angle, held to the range of -90 to 90 degrees.
pub open spec fn clamp_angle(angle: int) -> int {
    if angle < -90 {
        -90
    } else if angle > 90 {
        90
    } else {
        angle
    }
}

/// The value of the pulse width register for a pulse of `pw_us` microseconds: the same
/// part of the timer's period as the pulse is of the frame, rounded down.
pub open spec fn spec_register_value(pw_us: int) -> int {
    pw_us * SERVO_PERIOD / (FRAME_PERIOD_US as int)
}

impl ServoState {
    /// The pulse range is in order and lies within the frame.
    pub open spec fn wf(self) -> bool {
        self.pwm.wf() && self.min_pw <= self.max_pw <= FRAME_PERIOD_US
    }

    /// The pulse for an angle, in microseconds: the point of the pulse range that lies
    /// where the angle, held to -90 to 90 degrees, lies in that range of angles, rounded
    /// down.
    pub open spec fn pulse_width_us(self, angle: int) -> int {
        self.min_pw + (clamp_angle(angle) + 90) * (self.max_pw - self.min_pw) / 180
    }

    /// The write that sends a pulse of `pw_us` microseconds.
    pub open spec fn pulse_write(self, pw_us: int) -> RegisterWrite {
        self.pwm.pulse_width_write(spec_register_value(pw_us))
    }

    /// The write that turns the servo to an angle.
    pub open spec fn angle_write(self, angle: int) -> RegisterWrite {
        self.pulse_write(self.pulse_width_us(angle))
    }
}

/// The pulse for -90 degrees is the shortest of the range, the pulse for 90 degrees the
/// longest, and the pulse for 0 degrees lies midway between them.
pub proof fn lemma_angle_endpoints(servo: ServoState)
    requires
        servo.wf(),
    ensures
        servo.pulse_width_us(-90) == servo.min_pw,
        servo.pulse_width_us(90) == servo.max_pw,
        servo.pulse_width_us(0) == servo.min_pw + (servo.max_pw - servo.min_pw) / 2,
{
    let span = servo.max_pw - servo.min_pw;
    assert(0 * span / 180 == 0 && 180 * span / 180 == span && 90 * span / 180 == span / 2);
}

/// A larger angle never gets a shorter pulse or a smaller register value, and no angle
/// gets a pulse outside the servo's range or a register value beyond the timer's period.
pub proof fn lemma_angle_is_monotonic(servo: ServoState, a: int, b: int)
    requires
        servo.wf(),
        a <= b,
    ensures
        servo.min_pw <= servo.pulse_width_us(a) <= servo.pulse_width_us(b) <= servo.max_pw,
        0 <= spec_register_value(servo.pulse_width_us(a)) <= spec_register_value(
            servo.pulse_width_us(b),
        ) <= SERVO_PERIOD,
{
    let span = servo.max_pw - servo.min_pw;
    let x = clamp_angle(a) + 90;
    let y = clamp_angle(b) + 90;
    assert(0 <= x * span <= y * span <= 180 * span) by (nonlinear_arith)
        requires
            0 <= x <= y <= 180,
            span >= 0,
    ;
}

/// The pulse for an angle is what the straight-line map from the range of angles onto
/// the range of pulses gives.
pub proof fn lemma_pulse_width_is_mapped_range(servo: ServoState, angle: i32)
    requires
        servo.wf(),
        -90 <= angle <= 90,
    ensures
        servo.pulse_width_us(angle as int) == spec_map_range(
            (-90i32, 90i32),
            (servo.min_pw as i32, servo.max_pw as i32),
            angle,
        ),
{
    let span = servo.max_pw - servo.min_pw;
    let x = angle + 90;
    assert(x * span >= 0) by (nonlinear_arith)
        requires
            x >= 0,
            span >= 0,
    ;
}

/// One servo on a PWM channel.
#[derive(Debug)]
pub struct Servo {
    pwm: PWM,
    min_pw: u16,
    max_pw: u16,
}

impl View for Servo {
    type V = ServoState;

    closed spec fn view(&self) -> ServoState {
        ServoState { pwm: self.pwm@, min_pw: self.min_pw, max_pw: self.max_pw }
    }
}

impl Servo {
    #[verifier::type_invariant]
    spec fn inv(self) -> bool {
        self@.wf()
    }

    /// The servo as it is once opened on `channel` with the given pulse range.
    pub open spec fn opened(channel: u8, min_pw: u16, max_pw: u16) -> ServoState {
        ServoState {
            pwm: PwmState { period: (SERVO_PERIOD - 1) as u16, ..PwmState::unset(channel) },
            min_pw,
            max_pw,
        }
    }

    /// The writes that open a servo on `channel`: those that open the channel, then the
    /// period and the prescaler of a servo.
    pub open spec fn opening_writes(channel: u8) -> Seq<RegisterWrite> {
        PwmState::opening_writes(channel) + seq![
            PwmState::unset(channel).period_write(SERVO_PERIOD as int),
            PwmState::unset(channel).prescaler_write(SERVO_PRESCALER as int),
        ]
    }

    /// Opens a servo with the usual pulse range of 500 to 2500 microseconds on PWM channel
    /// `pwm_pin`.
    ///
    /// Returns the servo and the writes to send, in order. Fails with `InvalidParameter`
    /// exactly if there is no such channel.
    pub fn new(pwm_pin: u8) -> (r: Result<(Servo, Vec<RegisterWrite>), ControlError>)
        ensures
            r is Ok <==> pwm_pin < crate::pwm::CHANNELS,
            r matches Ok((servo, writes)) ==> servo@ == Servo::opened(pwm_pin, MIN_PW, MAX_PW)
                && writes@ == Servo::opening_writes(pwm_pin),
            r matches Err(e) ==> e == ControlError::InvalidParameter,
    {
        Servo::with_pulse_range(pwm_pin, MIN_PW, MAX_PW)
    }

    /// Opens a servo that takes pulses of `min_pw` to `max_pw` microseconds on PWM channel
    /// `pwm_pin`.
    ///
    /// Returns the servo and the writes to send, in order. Fails with `InvalidParameter`
    /// exactly if there is no such channel, if `min_pw` is above `max_pw`, or if `max_pw`
    /// is longer than the frame of 20 000 microseconds.
    pub fn with_pulse_range(pwm_pin: u8, min_pw: u16, max_pw: u16) -> (r: Result<
        (Servo, Vec<RegisterWrite>),
        ControlError,
    >)
        ensures
            r is Ok <==> pwm_pin < crate::pwm::CHANNELS && min_pw <= max_pw <= FRAME_PERIOD_US,
            r matches Ok((servo, writes)) ==> servo@ == Servo::opened(pwm_pin, min_pw, max_pw)
                && writes@ == Servo::opening_writes(pwm_pin),
            r matches Err(e) ==> e == ControlError::InvalidParameter,
    {
        if min_pw > max_pw || max_pw > FRAME_PERIOD_US {
            return Err(ControlError::InvalidParameter);
        }
        let (mut pwm, mut writes) = match PWM::new(pwm_pin) {
            Ok(opened) => opened,
            Err(e) => { return Err(e); },
        };
        let period_write: RegisterWrite = match pwm.period(SERVO_PERIOD) {
            Ok(w) => w,
            Err(e) => { return Err(e); },
        };
        let prescaler_write: RegisterWrite = match pwm.prescaler(SERVO_PRESCALER) {
            Ok(w) => w,
            Err(e) => { return Err(e); },
        };
        writes.push(period_write);
        writes.push(prescaler_write);
        Ok((Servo { pwm, min_pw, max_pw }, writes))
    }

    /// What the servo knows of itself.
    pub fn state(&self) -> (r: ServoState)
        ensures
            r == self@,
            r.wf(),
    {
        proof {
            use_type_invariant(self);
        }
        ServoState { pwm: self.pwm.state(), min_pw: self.min_pw, max_pw: self.max_pw }
    }

    /// Sends the servo a pulse of `pw_time` microseconds in each frame.
    ///
    /// Fails with `InvalidParameter` exactly if `pw_time` is negative or longer than the
    /// frame of 20 000 microseconds.
    pub fn pulse_width_time(&self, pw_time: i32) -> (r: Result<RegisterWrite, ControlError>)
        ensures
            0 <= pw_time <= FRAME_PERIOD_US ==> r == Ok::<RegisterWrite, ControlError>(
                self@.pulse_write(pw_time as int),
            ),
            !(0 <= pw_time <= FRAME_PERIOD_US) ==> r == Err::<RegisterWrite, ControlError>(
                ControlError::InvalidParameter,
            ),
    {
        if pw_time < 0 || pw_time > FRAME_PERIOD_US as i32 {
            return Err(ControlError::InvalidParameter);
        }
        Ok(self.pulse(pw_time))
    }

    /// The write that sends a pulse of `pw_time` microseconds.
    fn pulse(&self, pw_time: i32) -> (r: RegisterWrite)
        requires
            0 <= pw_time <= FRAME_PERIOD_US,
        ensures
            r == self@.pulse_write(pw_time as int),
    {
        assert(0 <= pw_time * SERVO_PERIOD <= 20_000 * 4095 && pw_time * SERVO_PERIOD / (
        FRAME_PERIOD_US as int) <= 4095) by (nonlinear_arith)
            requires
                0 <= pw_time <= 20_000,
                SERVO_PERIOD == 4095,
                FRAME_PERIOD_US == 20_000,
        ;
        let value: i32 = (pw_time * SERVO_PERIOD as i32) / FRAME_PERIOD_US as i32;
        self.pwm.pulse_width_ticks(value as u16)
    }

    /// Turns the servo to `angle` degrees; an angle beyond -90 or 90 degrees counts as
    /// -90 or 90.
    pub fn angle(&self, angle: i32) -> (r: RegisterWrite)
        ensures
            r == self@.angle_write(angle as int),
    {
        proof {
            use_type_invariant(self);
            lemma_angle_is_monotonic(self@, angle as int, angle as int);
        }
        let angle: i32 = if angle < -90 {
            -90
        } else if angle > 90 {
            90
        } else {
            angle
        };
        proof {
            lemma_pulse_width_is_mapped_range(self@, angle);
        }
        let pw_time: i32 = map_range((-90, 90), (self.min_pw as i32, self.max_pw as i32), angle);
        let pw_time: i32 = if pw_time < self.min_pw as i32 {
            self.min_pw as i32
        } else if pw_time > self.max_pw as i32 {
            self.max_pw as i32
        } else {
            pw_time
        };
        self.pulse(pw_time)
    }
}

} // verus!
