//! Perception-to-actuation control core of a small wheeled robot.
//!
//! Every function here is a pure computation on plain values: the hardware layer reads
//! pins, clocks and camera frames, hands the readings in, and performs the register and
//! pin writes that come back.

pub mod arith;
pub mod depth;
pub mod drive;
pub mod error;
pub mod eyes;
pub mod frequency;
pub mod i2c;
pub mod lane;
pub mod plan;
pub mod pwm;

use vstd::prelude::*;
use crate::depth::{Ultrasonic, ECHO_ATTEMPTS, ECHO_TIMEOUT_US};
use crate::drive::{Motors, Servo, MAX_PW, MIN_PW};
use crate::error::ControlError;
use crate::i2c::{boot, boot_start, boot_steps, reset_steps, BootStep};
use crate::plan::{Plan, PlanAction};
use crate::pwm::{PwmState, RegisterWrite};

verus! {

/// The channel of the servo that pans the camera.
pub const CAMERA_PAN_SERVO_PIN: u8 = 0;

/// The channel of the servo that tilts the camera.
pub const CAMERA_TILT_SERVO_PIN: u8 = 1;

/// The channel of the servo that steers.
pub const STEERING_SERVO_PIN: u8 = 2;

/// Begins bringing the board up: the reset of the controller, then the opening of the bus
/// to it.
///
/// The plan that comes back hands out the steps one at a time. It ends with `Ok`
/// exactly if every step of the reset and of the opening succeeds; the first step that
/// fails ends it with `HardwareInitFailure`, and no step after that one is carried
/// out, so a failed reset leaves the bus unopened.
pub fn main_init() -> (r: Plan<BootStep>)
    ensures
        r@ == boot_start(boot_steps()),
        r@.action() == PlanAction::Perform(reset_steps()[0]),
{
    boot()
}

/// Opens the two camera servos and the steering servo, and turns each to its angle of
/// `init_angles`, in degrees.
///
/// Returns the servos, in the order pan, tilt, steering, and the writes to send: those
/// that open the three servos, then the three that set the angles.
pub fn servos_init(init_angles: [i32; 3]) -> (r: Result<([Servo; 3], Vec<RegisterWrite>), ControlError>)
    ensures
        r matches Ok((servos, writes)) && {
            &&& servos[0]@ == Servo::opened(CAMERA_PAN_SERVO_PIN, MIN_PW, MAX_PW)
            &&& servos[1]@ == Servo::opened(CAMERA_TILT_SERVO_PIN, MIN_PW, MAX_PW)
            &&& servos[2]@ == Servo::opened(STEERING_SERVO_PIN, MIN_PW, MAX_PW)
            &&& writes@ == Servo::opening_writes(CAMERA_PAN_SERVO_PIN) + Servo::opening_writes(
                CAMERA_TILT_SERVO_PIN,
            ) + Servo::opening_writes(STEERING_SERVO_PIN) + seq![
                servos[0]@.angle_write(init_angles[0] as int),
                servos[1]@.angle_write(init_angles[1] as int),
                servos[2]@.angle_write(init_angles[2] as int),
            ]
        },
{
    let (pan, mut writes) = match Servo::new(CAMERA_PAN_SERVO_PIN) {
        Ok(opened) => opened,
        Err(e) => { return Err(e); },
    };
    let (tilt, mut tilt_writes) = match Servo::new(CAMERA_TILT_SERVO_PIN) {
        Ok(opened) => opened,
        Err(e) => { return Err(e); },
    };
    let (steering, mut steering_writes) = match Servo::new(STEERING_SERVO_PIN) {
        Ok(opened) => opened,
        Err(e) => { return Err(e); },
    };
    writes.append(&mut tilt_writes);
    writes.append(&mut steering_writes);
    writes.push(pan.angle(init_angles[0]));
    writes.push(tilt.angle(init_angles[1]));
    writes.push(steering.angle(init_angles[2]));
    Ok(([pan, tilt, steering], writes))
}

/// Opens the two motors and sets the period and the prescaler of their timers.
///
/// Returns the motors and the writes to send: those that open the motors, then the period
/// and the prescaler of the left motor, then those of the right motor. Fails with
/// `InvalidParameter` exactly if `period` or `prescaler` is zero.
pub fn motors_init(period: u16, prescaler: u16) -> (r: Result<(Motors, Vec<RegisterWrite>), ControlError>)
    ensures
        r is Ok <==> period != 0 && prescaler != 0,
        r matches Err(e) ==> e == ControlError::InvalidParameter,
        r matches Ok((motors, writes)) ==> {
            let left = PwmState::unset(crate::drive::LEFT_MOTOR_PWM_PIN);
            let right = PwmState::unset(crate::drive::RIGHT_MOTOR_PWM_PIN);
            &&& motors.left_motor.pwm@ == (PwmState { period: (period - 1) as u16, ..left })
            &&& motors.right_motor.pwm@ == (PwmState { period: (period - 1) as u16, ..right })
            &&& motors.left_motor.dir_pin == crate::drive::LEFT_MOTOR_DIR_PIN
            &&& motors.right_motor.dir_pin == crate::drive::RIGHT_MOTOR_DIR_PIN
            &&& motors.left_motor.min_duty == crate::drive::STALL_DUTY
            &&& motors.right_motor.min_duty == crate::drive::STALL_DUTY
            &&& !motors.left_motor.reversed
            &&& motors.right_motor.reversed
            &&& writes@ == Motors::opening_writes() + seq![
                left.period_write(period as int),
                left.prescaler_write(prescaler as int),
                right.period_write(period as int),
                right.prescaler_write(prescaler as int),
            ]
        },
{
    if period == 0 || prescaler == 0 {
        return Err(ControlError::InvalidParameter);
    }
    let (mut motors, mut writes) = match Motors::new() {
        Ok(opened) => opened,
        Err(e) => { return Err(e); },
    };
    let left_period: RegisterWrite = match motors.left_motor.pwm.period(period) {
        Ok(w) => w,
        Err(e) => { return Err(e); },
    };
    let left_prescaler: RegisterWrite = match motors.left_motor.pwm.prescaler(prescaler) {
        Ok(w) => w,
        Err(e) => { return Err(e); },
    };
    let right_period: RegisterWrite = match motors.right_motor.pwm.period(period) {
        Ok(w) => w,
        Err(e) => { return Err(e); },
    };
    let right_prescaler: RegisterWrite = match motors.right_motor.pwm.prescaler(prescaler) {
        Ok(w) => w,
        Err(e) => { return Err(e); },
    };
    writes.push(left_period);
    writes.push(left_prescaler);
    writes.push(right_period);
    writes.push(right_prescaler);
    Ok((motors, writes))
}

/// A sequencer for the robot's range sensor, with the usual limits: at most
/// `ECHO_TIMEOUT_US` microseconds of waiting for each edge of the echo, and at most
/// `ECHO_ATTEMPTS` attempts.
pub fn ultrasonic_init() -> (r: Ultrasonic)
    ensures
        r@ == crate::depth::SonarState::spec_new(ECHO_TIMEOUT_US, ECHO_ATTEMPTS),
{
    Ultrasonic::new(ECHO_TIMEOUT_US, ECHO_ATTEMPTS)
}

/// A place to try things out on the robot; as it stands it does nothing and succeeds.
pub fn scratchpad() -> (r: Result<(), ControlError>)
    ensures
        r is Ok,
{
    Ok(())
}

} // verus!
