use dust::drive::{
    pin_level, Direction, Motor, MotorAction, MotorSelect, Motors, PinLevel, Servo, ServoState,
    WheelActions,
};
use dust::error::ControlError;
use dust::pwm::{PwmState, RegisterWrite};

fn motors() -> Motors {
    Motors::new().unwrap().0
}

fn pulse(reg: u8, stored: u16) -> RegisterWrite {
    RegisterWrite { reg, word: stored.swap_bytes() }
}

#[test]
fn wheel_zero_both_stops_both_sides() {
    let motors = motors();
    let actions = motors.wheel(0, MotorSelect::Both).unwrap();
    let left = actions.left.unwrap();
    let right = actions.right.unwrap();
    assert_eq!(left.duty, 0);
    assert_eq!(right.duty, 0);
    assert_eq!(left.direction, Direction::Reverse);
    assert_eq!(right.direction, Direction::Reverse);
    assert_eq!(left.level, PinLevel::Low);
    assert_eq!(right.level, PinLevel::High);
    assert_eq!(left.pulse_width, pulse(0x2C, 0));
    assert_eq!(right.pulse_width, pulse(0x2D, 0));
}

#[test]
fn wheel_zero_both_stops_whatever_the_timers_hold() {
    let (mut motors, _) = dust::motors_init(40_000, 7).unwrap();
    motors.left_motor.min_duty = 80;
    let actions = motors.wheel(0, MotorSelect::Both).unwrap();
    assert_eq!(actions.left.unwrap().duty, 0);
    assert_eq!(actions.right.unwrap().duty, 0);
    assert_eq!(actions.left.unwrap().pulse_width.value(), 0);
    assert_eq!(actions.right.unwrap().pulse_width.value(), 0);
}

#[test]
fn wheel_fifty_left_drives_the_left_side_only() {
    let motors = motors();
    let actions = motors.wheel(50, MotorSelect::Left).unwrap();
    assert_eq!(
        actions,
        WheelActions {
            left: Some(MotorAction {
                dir_pin: 23,
                direction: Direction::Forward,
                level: PinLevel::High,
                duty: 75,
                // 75 percent of the period register's 1199
                pulse_width: pulse(0x2C, 899),
            }),
            right: None,
        }
    );
}

#[test]
fn wheel_right_drives_the_right_side_only() {
    let motors = motors();
    let actions = motors.wheel(-100, MotorSelect::Right).unwrap();
    assert_eq!(actions.left, None);
    assert_eq!(
        actions.right,
        Some(MotorAction {
            dir_pin: 24,
            direction: Direction::Reverse,
            level: PinLevel::High,
            duty: 100,
            pulse_width: pulse(0x2D, 1199),
        })
    );
}

#[test]
fn wheel_both_gives_both_sides_the_same() {
    let motors = motors();
    let actions = motors.wheel(30, MotorSelect::Both).unwrap();
    let left = actions.left.unwrap();
    let right = actions.right.unwrap();
    assert_eq!(left.duty, 65);
    assert_eq!(right.duty, 65);
    assert_eq!(left.direction, Direction::Forward);
    assert_eq!(right.direction, Direction::Forward);
    assert_eq!(left.level, PinLevel::High);
    assert_eq!(right.level, PinLevel::Low);
}

#[test]
fn nonzero_speeds_land_in_the_upper_half_of_the_duty_range() {
    let motors = motors();
    for speed in -100..=100i32 {
        let action = motors.left_motor.speed(speed).unwrap();
        if speed == 0 {
            assert_eq!(action.duty, 0);
        } else {
            assert_eq!(action.duty, speed.unsigned_abs() / 2 + 50);
        }
        assert_eq!(
            action.direction,
            if speed > 0 { Direction::Forward } else { Direction::Reverse }
        );
        assert_eq!(action.pulse_width.value() as u32, 1199 * action.duty / 100);
    }
}

#[test]
fn smallest_duty_cycle_can_be_set() {
    let mut motors = motors();
    motors.left_motor.min_duty = 20;
    assert_eq!(motors.left_motor.speed(50).unwrap().duty, 60);
    assert_eq!(motors.left_motor.speed(1).unwrap().duty, 20);
    assert_eq!(motors.left_motor.speed(100).unwrap().duty, 100);
    motors.left_motor.min_duty = 0;
    assert_eq!(motors.left_motor.speed(-37).unwrap().duty, 37);
    motors.left_motor.min_duty = 101;
    assert_eq!(motors.left_motor.speed(50), Err(ControlError::InvalidParameter));
    assert_eq!(
        motors.wheel(50, MotorSelect::Both),
        Err(ControlError::InvalidParameter)
    );
    assert!(motors.wheel(50, MotorSelect::Right).is_ok());
}

#[test]
fn speeds_beyond_a_hundred_percent_are_rejected() {
    let motors = motors();
    for target in [MotorSelect::Left, MotorSelect::Right, MotorSelect::Both] {
        assert_eq!(motors.wheel(101, target), Err(ControlError::InvalidParameter));
        assert_eq!(motors.wheel(-101, target), Err(ControlError::InvalidParameter));
        assert_eq!(motors.wheel(i32::MIN, target), Err(ControlError::InvalidParameter));
        assert!(motors.wheel(100, target).is_ok());
        assert!(motors.wheel(-100, target).is_ok());
    }
    assert_eq!(motors.speed(0, 101), Err(ControlError::InvalidParameter));
    assert_eq!(motors.speed(-101, 0), Err(ControlError::InvalidParameter));
    assert_eq!(motors.forward(i32::MIN), Err(ControlError::InvalidParameter));
    assert_eq!(motors.backward(i32::MIN), Err(ControlError::InvalidParameter));
    assert_eq!(motors.turn_left(i32::MAX), Err(ControlError::InvalidParameter));
    assert_eq!(motors.turn_right(i32::MIN), Err(ControlError::InvalidParameter));
}

#[test]
fn forward_drives_both_wheels_the_same_way() {
    let motors = motors();
    for speed in [1, 40, 60, 100] {
        let forward = motors.forward(speed).unwrap();
        assert_eq!(forward, motors.wheel(speed, MotorSelect::Both).unwrap());
        assert_eq!(forward, motors.speed(speed, speed).unwrap());
        assert_ne!(forward, motors.turn_right(speed).unwrap());
        assert_ne!(forward, motors.turn_left(speed).unwrap());
        let left = forward.left.unwrap();
        let right = forward.right.unwrap();
        assert_eq!(left.direction, Direction::Forward);
        assert_eq!(right.direction, Direction::Forward);
        assert_eq!(left.duty, speed as u32 / 2 + 50);
        assert_eq!(right.duty, speed as u32 / 2 + 50);
        // the right motor is mounted the other way round
        assert_eq!(left.level, PinLevel::High);
        assert_eq!(right.level, PinLevel::Low);
    }
}

#[test]
fn backward_drives_both_wheels_in_reverse() {
    let motors = motors();
    let backward = motors.backward(60).unwrap();
    assert_eq!(backward, motors.wheel(-60, MotorSelect::Both).unwrap());
    assert_eq!(backward.left.unwrap().direction, Direction::Reverse);
    assert_eq!(backward.right.unwrap().direction, Direction::Reverse);
    assert_eq!(backward.left.unwrap().duty, 80);
    assert_eq!(backward.right.unwrap().duty, 80);
    assert_eq!(backward.left.unwrap().level, PinLevel::Low);
    assert_eq!(backward.right.unwrap().level, PinLevel::High);
}

#[test]
fn turning_drives_the_wheels_in_opposite_directions() {
    let motors = motors();
    let left = motors.turn_left(40).unwrap();
    assert_eq!(left, motors.speed(-40, 40).unwrap());
    assert_eq!(left.left.unwrap().direction, Direction::Reverse);
    assert_eq!(left.right.unwrap().direction, Direction::Forward);
    assert_eq!(left.left.unwrap().duty, 70);
    assert_eq!(left.right.unwrap().duty, 70);
    assert_eq!(left.left.unwrap().level, PinLevel::Low);
    assert_eq!(left.right.unwrap().level, PinLevel::Low);

    let right = motors.turn_right(40).unwrap();
    assert_eq!(right, motors.speed(40, -40).unwrap());
    assert_eq!(right.left.unwrap().direction, Direction::Forward);
    assert_eq!(right.right.unwrap().direction, Direction::Reverse);
    assert_eq!(right.left.unwrap().level, PinLevel::High);
    assert_eq!(right.right.unwrap().level, PinLevel::High);
}

#[test]
fn the_mounting_decides_the_level_for_a_direction() {
    assert_eq!(pin_level(Direction::Forward, false), PinLevel::High);
    assert_eq!(pin_level(Direction::Reverse, false), PinLevel::Low);
    assert_eq!(pin_level(Direction::Forward, true), PinLevel::Low);
    assert_eq!(pin_level(Direction::Reverse, true), PinLevel::High);
    let motors = motors();
    assert!(!motors.left_motor.reversed);
    assert!(motors.right_motor.reversed);
    let mut motor = Motor::new(3, 17).unwrap().0;
    assert!(!motor.reversed);
    assert_eq!(motor.speed(10).unwrap().level, PinLevel::High);
    motor.reversed = true;
    assert_eq!(motor.speed(10).unwrap().level, PinLevel::Low);
    assert_eq!(motor.speed(10).unwrap().direction, Direction::Forward);
}

#[test]
fn stop_gives_zero_duty_on_both_sides() {
    let motors = motors();
    let actions = motors.stop().unwrap();
    assert_eq!(actions.left.unwrap().duty, 0);
    assert_eq!(actions.right.unwrap().duty, 0);
    assert_eq!(actions.left.unwrap().pulse_width, pulse(0x2C, 0));
    assert_eq!(actions.right.unwrap().pulse_width, pulse(0x2D, 0));
}

#[test]
fn opening_a_motor_sets_its_timer() {
    let (motor, writes) = Motor::new(12, 23).unwrap();
    assert_eq!(motor.pwm.state(), PwmState { channel: 12, period: 1199 });
    assert_eq!(motor.dir_pin, 23);
    assert_eq!(motor.min_duty, 50);
    assert_eq!(
        writes,
        vec![pulse(0x43, 1199), pulse(0x47, 1199), pulse(0x47, 1199), pulse(0x43, 1199)]
    );
    assert_eq!(Motor::new(16, 23).err(), Some(ControlError::InvalidParameter));
}

#[test]
fn opening_the_motors_opens_left_then_right() {
    let (motors, writes) = Motors::new().unwrap();
    assert_eq!(motors.left_motor.pwm.state().channel, 12);
    assert_eq!(motors.right_motor.pwm.state().channel, 13);
    assert_eq!(motors.left_motor.dir_pin, 23);
    assert_eq!(motors.right_motor.dir_pin, 24);
    let left = Motor::new(12, 23).unwrap().1;
    let right = Motor::new(13, 24).unwrap().1;
    assert_eq!(writes, [left, right].concat());
}

#[test]
fn servo_angles_map_onto_the_pulse_range() {
    let (servo, _) = Servo::new(2).unwrap();
    // 500 us, 2500 us and 1500 us of a 20 000 us frame, in 4095ths
    assert_eq!(servo.angle(-90), pulse(0x22, 102));
    assert_eq!(servo.angle(90), pulse(0x22, 511));
    assert_eq!(servo.angle(0), pulse(0x22, 307));
    assert_eq!(servo.angle(-90), servo.pulse_width_time(500).unwrap());
    assert_eq!(servo.angle(90), servo.pulse_width_time(2500).unwrap());
    assert_eq!(servo.angle(0), servo.pulse_width_time(1500).unwrap());
    // 45 degrees: 500 + 135 * 2000 / 180 = 2000 us
    assert_eq!(servo.angle(45), servo.pulse_width_time(2000).unwrap());
    // 1 degree: 500 + 91 * 2000 / 180 = 1511.1 us
    assert_eq!(servo.angle(1), servo.pulse_width_time(1511).unwrap());
}

#[test]
fn servo_angles_are_clamped() {
    let (servo, _) = Servo::new(0).unwrap();
    assert_eq!(servo.angle(-91), servo.angle(-90));
    assert_eq!(servo.angle(i32::MIN), servo.angle(-90));
    assert_eq!(servo.angle(91), servo.angle(90));
    assert_eq!(servo.angle(i32::MAX), servo.angle(90));
}

#[test]
fn servo_mapping_is_monotonic_and_in_range() {
    let (servo, _) = Servo::with_pulse_range(1, 600, 2400).unwrap();
    let mut last = 0u16;
    for angle in -120..=120 {
        let write = servo.angle(angle);
        assert_eq!(write.reg, 0x21);
        let value = write.value();
        assert!(value >= last);
        assert!(value >= (600u32 * 4095 / 20_000) as u16);
        assert!(value <= (2400u32 * 4095 / 20_000) as u16);
        last = value;
    }
}

#[test]
fn servo_pulse_must_fit_the_frame() {
    let (servo, _) = Servo::new(0).unwrap();
    assert_eq!(servo.pulse_width_time(0), Ok(pulse(0x20, 0)));
    assert_eq!(servo.pulse_width_time(20_000), Ok(pulse(0x20, 4095)));
    assert_eq!(servo.pulse_width_time(-1), Err(ControlError::InvalidParameter));
    assert_eq!(servo.pulse_width_time(20_001), Err(ControlError::InvalidParameter));
    assert_eq!(servo.pulse_width_time(i32::MAX), Err(ControlError::InvalidParameter));
}

#[test]
fn opening_a_servo_sets_its_timer() {
    let (servo, writes) = Servo::new(2).unwrap();
    assert_eq!(
        servo.state(),
        ServoState { pwm: PwmState { channel: 2, period: 4094 }, min_pw: 500, max_pw: 2500 }
    );
    assert_eq!(
        writes,
        vec![pulse(0x40, 1199), pulse(0x44, 1199), pulse(0x44, 4094), pulse(0x40, 350)]
    );
}

#[test]
fn servo_pulse_range_must_be_in_order() {
    assert!(Servo::with_pulse_range(0, 1000, 1000).is_ok());
    assert!(Servo::with_pulse_range(0, 0, 20_000).is_ok());
    assert_eq!(
        Servo::with_pulse_range(0, 1001, 1000).err(),
        Some(ControlError::InvalidParameter)
    );
    assert_eq!(
        Servo::with_pulse_range(0, 500, 20_001).err(),
        Some(ControlError::InvalidParameter)
    );
    assert_eq!(Servo::with_pulse_range(16, 500, 2500).err(), Some(ControlError::InvalidParameter));
    assert_eq!(Servo::new(16).err(), Some(ControlError::InvalidParameter));
}

#[test]
fn an_unknown_motor_selector_is_rejected() {
    assert_eq!(MotorSelect::from_index(0), Ok(MotorSelect::Left));
    assert_eq!(MotorSelect::from_index(1), Ok(MotorSelect::Right));
    assert_eq!(MotorSelect::from_index(2), Ok(MotorSelect::Both));
    for index in 3..=u8::MAX {
        assert_eq!(MotorSelect::from_index(index), Err(ControlError::InvalidParameter));
    }
}
