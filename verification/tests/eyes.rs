use dust::eyes::{
    cuda_check, detect_green_light, horizontal_threshold, steer_by_lines, vertical_threshold,
    HOUGH_THRESHOLD, WAIT_MILLIS,
};
use dust::lane::{LaneEstimate, LineSegment, SlopeThreshold, Steering};

#[test]
fn more_green_than_red_is_a_green_light() {
    assert!(detect_green_light(1, 0));
    assert!(detect_green_light(5000, 4999));
    assert!(!detect_green_light(0, 0));
    assert!(!detect_green_light(7, 7));
    assert!(!detect_green_light(4999, 5000));
    assert!(!detect_green_light(i32::MIN, i32::MAX));
    assert!(detect_green_light(i32::MAX, i32::MIN));
}

#[test]
fn one_graphics_card_is_enough() {
    assert!(cuda_check(1));
    assert!(cuda_check(4));
    assert!(!cuda_check(0));
    assert!(!cuda_check(-1));
}

#[test]
fn the_usual_thresholds_are_a_hundredth_and_a_thousand() {
    assert_eq!(horizontal_threshold(), SlopeThreshold { num: 1, den: 100 });
    assert_eq!(vertical_threshold(), SlopeThreshold { num: 1000, den: 1 });
    assert_eq!(HOUGH_THRESHOLD, 50);
    assert_eq!(WAIT_MILLIS, 1000);
}

#[test]
fn only_the_vertical_lines_of_a_frame_steer() {
    let lines = vec![
        // horizontal, though it would make a left border
        LineSegment::new(10, 400, 30_000, 399),
        LineSegment::new(100, 400, 120, 100),
        // too steep to count, though it would make a nearer right border
        LineSegment::new(330, 2000, 329, 0),
        LineSegment::new(560, 400, 520, 100),
    ];
    let decision = steer_by_lines(&lines, 640);
    assert_eq!(decision.estimate.nearest_left, LineSegment::new(100, 400, 120, 100));
    assert_eq!(decision.estimate.nearest_right, LineSegment::new(560, 400, 520, 100));
    assert_eq!(decision.deviation_half_px, -20);
    assert_eq!(decision.steering, Steering::SteerLeft);
}

#[test]
fn the_lane_centre_in_pixels_rounds_towards_zero() {
    let estimate = |half: i64| LaneEstimate {
        nearest_left: LineSegment::zero(),
        nearest_right: LineSegment::zero(),
        lane_center_half_px: half,
    };
    assert_eq!(estimate(640).center_px(), 320);
    assert_eq!(estimate(661).center_px(), 330);
    assert_eq!(estimate(1).center_px(), 0);
    assert_eq!(estimate(-1).center_px(), 0);
    assert_eq!(estimate(-661).center_px(), -330);
    assert_eq!(estimate(i64::MIN).center_px(), i64::MIN / 2);
}
