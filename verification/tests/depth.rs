use dust::depth::{
    distance_cm, measure_distance, Action, EchoSample, Phase, Reading, SonarState, Ultrasonic,
    ECHO_ATTEMPTS, ECHO_PIN, ECHO_TIMEOUT_US, ECHO_US_PER_CM, TRIG_PIN,
};

fn low(now_us: u64) -> EchoSample {
    EchoSample { now_us, echo_high: false }
}

fn high(now_us: u64) -> EchoSample {
    EchoSample { now_us, echo_high: true }
}

#[test]
fn echo_time_converts_at_fifty_eight_microseconds_a_centimetre() {
    assert_eq!(ECHO_US_PER_CM, 58);
    assert_eq!(distance_cm(0), 0);
    assert_eq!(distance_cm(57), 0);
    assert_eq!(distance_cm(58), 1);
    assert_eq!(distance_cm(579), 9);
    assert_eq!(distance_cm(580), 10);
    assert_eq!(distance_cm(5800), 100);
    assert_eq!(distance_cm(20_000), 344);
    assert_eq!(distance_cm(u64::MAX), u64::MAX / 58);
}

#[test]
fn an_echo_in_time_gives_its_distance() {
    let samples = vec![low(0), low(100), high(200), high(3000), low(6000), low(7000)];
    assert_eq!(measure_distance(20_000, 3, &samples), Reading::Distance(100));
    let samples = vec![low(0), high(10), low(590)];
    assert_eq!(measure_distance(20_000, 1, &samples), Reading::Distance(10));
}

#[test]
fn a_silent_echo_line_gives_no_signal_after_all_attempts() {
    let timeout = 1000u64;
    for max_attempts in 0..5u32 {
        let mut sensor = Ultrasonic::new(timeout, max_attempts);
        let mut action = sensor.start();
        let mut now = 0u64;
        let mut triggers = 0u32;
        let mut longest_wait = 0u64;
        let mut since = 0u64;
        loop {
            match action {
                Action::Report(reading) => {
                    assert_eq!(reading, Reading::NoSignal);
                    break;
                }
                Action::Trigger { settle_us, pulse_us } => {
                    assert_eq!((settle_us, pulse_us), (5, 10));
                    triggers += 1;
                    now += settle_us + pulse_us;
                    since = now;
                }
                Action::Poll => {
                    now += 7;
                    longest_wait = longest_wait.max(now - since);
                }
                Action::Rest => panic!("a started measurement does not rest"),
            }
            action = sensor.step(low(now));
        }
        assert_eq!(triggers, max_attempts);
        assert_eq!(sensor.state().timeouts, max_attempts);
        assert_eq!(sensor.state().phase, Phase::TimedOut);
        assert_eq!(sensor.reading(), Some(Reading::NoSignal));
        // no attempt waits for more than one poll beyond the timeout
        assert!(longest_wait <= timeout + 7);
    }
}

#[test]
fn a_silent_recording_gives_no_signal() {
    let samples: Vec<EchoSample> = (0..40u64).map(|i| low(i * 100)).collect();
    // each attempt: one sample after the trigger, then polls until 1000 us have passed
    assert_eq!(measure_distance(1000, 3, &samples), Reading::NoSignal);
    let mut sensor = Ultrasonic::new(1000, 3);
    assert_eq!(sensor.read(&samples), Reading::NoSignal);
    assert_eq!(sensor.state().timeouts, 3);
    assert_eq!(sensor.state().phase, Phase::TimedOut);
}

#[test]
fn a_silent_recording_of_any_length_gives_no_signal() {
    for len in 0..60u64 {
        for step in [0u64, 1, 7, 400, 5000] {
            let samples: Vec<EchoSample> = (0..len).map(|i| low(i * step)).collect();
            for max_attempts in 0..4u32 {
                let mut sensor = Ultrasonic::new(1000, max_attempts);
                assert_eq!(sensor.read(&samples), Reading::NoSignal);
                assert_eq!(sensor.state().timeouts, max_attempts);
                assert_eq!(sensor.state().phase, Phase::TimedOut);
                assert_ne!(sensor.read(&samples), Reading::Distance(0));
            }
        }
    }
}

#[test]
fn a_recording_that_ends_too_soon_counts_as_silent_from_there_on() {
    // the echo line has risen, and the recording ends before it falls
    let samples = vec![low(0), high(10), high(20)];
    let mut sensor = Ultrasonic::new(1000, 3);
    assert_eq!(sensor.read(&samples), Reading::NoSignal);
    assert_eq!(sensor.state().timeouts, 3);
    assert_eq!(measure_distance(1000, 3, &Vec::new()), Reading::NoSignal);
    assert_eq!(measure_distance(1000, 0, &Vec::new()), Reading::NoSignal);
}

#[test]
fn a_timed_out_attempt_is_tried_again() {
    let samples = vec![
        low(0),
        low(600),
        low(1001),
        // second attempt
        low(2000),
        high(2100),
        low(2680),
    ];
    let mut sensor = Ultrasonic::new(1000, 2);
    assert_eq!(sensor.read(&samples), Reading::Distance(10));
    assert_eq!(sensor.state().timeouts, 1);
}

#[test]
fn each_attempt_gets_one_trigger_pulse() {
    // two attempts time out, the third one hears the echo
    let samples = vec![
        low(0),
        low(1001),
        low(2000),
        high(2001),
        high(3002),
        low(4000),
        high(4001),
        low(4059),
    ];
    let mut sensor = Ultrasonic::new(1000, 5);
    let mut pulses = 0;
    let mut action = sensor.start();
    for sample in samples {
        if let Action::Trigger { .. } = action {
            pulses += 1;
        }
        action = sensor.step(sample);
    }
    assert_eq!(action, Action::Report(Reading::Distance(1)));
    assert_eq!(sensor.state().timeouts, 2);
    assert_eq!(pulses, 3);
}

#[test]
fn an_echo_that_never_falls_times_out() {
    let samples = vec![low(0), high(10), high(500), high(1010), high(1011)];
    assert_eq!(measure_distance(1000, 1, &samples), Reading::NoSignal);
}

#[test]
fn a_late_edge_does_not_count() {
    // the rising edge shows 1001 us after the trigger
    let samples = vec![low(0), high(1001), low(1100)];
    assert_eq!(measure_distance(1000, 1, &samples), Reading::NoSignal);
    // the falling edge shows 1001 us after the rising edge
    let samples = vec![low(0), high(10), low(1011)];
    assert_eq!(measure_distance(1000, 1, &samples), Reading::NoSignal);
    // both edges show just in time
    let samples = vec![low(0), high(1000), low(2000)];
    assert_eq!(measure_distance(1000, 1, &samples), Reading::Distance(17));
}

#[test]
fn a_zero_distance_is_a_reading_and_not_a_missing_signal() {
    let samples = vec![low(0), high(10), low(20)];
    let reading = measure_distance(1000, 1, &samples);
    assert_eq!(reading, Reading::Distance(0));
    assert_ne!(reading, Reading::NoSignal);
}

#[test]
fn a_distance_never_exceeds_what_the_timeout_allows() {
    let samples = vec![low(0), high(1000), low(2000)];
    for timeout in [0u64, 1, 57, 58, 999, 1000, 5000] {
        match measure_distance(timeout, 2, &samples) {
            Reading::Distance(d) => assert!(d <= timeout / 58),
            Reading::NoSignal => assert!(timeout < 1000),
        }
    }
}

#[test]
fn the_sequencer_walks_through_its_phases() {
    let mut sensor = Ultrasonic::new(1000, 2);
    assert_eq!(
        sensor.state(),
        SonarState { timeout_us: 1000, max_attempts: 2, timeouts: 0, phase: Phase::Idle }
    );
    assert_eq!(sensor.action(), Action::Rest);
    assert_eq!(sensor.reading(), None);
    // a sample before the start changes nothing
    assert_eq!(sensor.step(high(5)), Action::Rest);
    assert_eq!(sensor.state().phase, Phase::Idle);

    assert_eq!(sensor.start(), Action::Trigger { settle_us: 5, pulse_us: 10 });
    assert_eq!(sensor.state().phase, Phase::Triggering);
    assert_eq!(sensor.step(low(100)), Action::Poll);
    assert_eq!(sensor.state().phase, Phase::WaitingRisingEdge { since_us: 100 });
    assert_eq!(sensor.step(low(150)), Action::Poll);
    assert_eq!(sensor.state().phase, Phase::WaitingRisingEdge { since_us: 100 });
    assert_eq!(sensor.step(high(200)), Action::Poll);
    assert_eq!(sensor.state().phase, Phase::WaitingFallingEdge { since_us: 200 });
    assert_eq!(sensor.step(high(700)), Action::Poll);
    assert_eq!(sensor.step(low(783)), Action::Report(Reading::Distance(10)));
    assert_eq!(sensor.state().phase, Phase::Done { distance_cm: 10 });
    // a finished measurement stays finished
    assert_eq!(sensor.step(high(9000)), Action::Report(Reading::Distance(10)));
    assert_eq!(sensor.reading(), Some(Reading::Distance(10)));
    // until the next one starts
    assert_eq!(sensor.start(), Action::Trigger { settle_us: 5, pulse_us: 10 });
    assert_eq!(sensor.reading(), None);
}

#[test]
fn a_clock_that_runs_backwards_counts_as_no_time_passed() {
    let samples = vec![low(5000), high(4000), low(3000)];
    assert_eq!(measure_distance(1000, 1, &samples), Reading::Distance(0));
}

#[test]
fn the_sensor_is_opened_with_its_limits() {
    assert_eq!((ECHO_TIMEOUT_US, ECHO_ATTEMPTS), (20_000, 10));
    assert_eq!((TRIG_PIN, ECHO_PIN), (27, 22));
    let sensor = dust::ultrasonic_init();
    assert_eq!(
        sensor.state(),
        SonarState { timeout_us: 20_000, max_attempts: 10, timeouts: 0, phase: Phase::Idle }
    );
}
