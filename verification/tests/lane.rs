use dust::lane::{
    calculate_lane_center, classify, lane_detector, line_categorization, nearest_border, steer,
    LaneEstimate, LineClass, LineSegment, Side, SlopeThreshold, Steering,
};

fn line(x1: i32, y1: i32, x2: i32, y2: i32) -> LineSegment {
    LineSegment::new(x1, y1, x2, y2)
}

const HORIZONTAL: SlopeThreshold = SlopeThreshold { num: 1, den: 100 };
const VERTICAL: SlopeThreshold = SlopeThreshold { num: 1000, den: 1 };

#[test]
fn symmetric_borders_keep_straight() {
    let lines = vec![line(100, 400, 120, 100), line(540, 400, 520, 100)];
    let decision = lane_detector(&lines, 640);
    assert_eq!(decision.estimate.nearest_left, line(100, 400, 120, 100));
    assert_eq!(decision.estimate.nearest_right, line(540, 400, 520, 100));
    // (100 + 540) / 2 = 320, in half pixels
    assert_eq!(decision.estimate.lane_center_half_px, 640);
    assert_eq!(decision.deviation_half_px, 0);
    assert_eq!(decision.steering, Steering::KeepStraight);
}

#[test]
fn a_flat_line_is_horizontal() {
    for (x1, x2) in [(0, 1), (1, 0), (-5, 640), (i32::MIN, i32::MAX), (i32::MAX, i32::MIN)] {
        for y in [0, 1, -7, i32::MIN, i32::MAX] {
            assert_eq!(classify(line(x1, y, x2, y), HORIZONTAL, VERTICAL), LineClass::Horizontal);
        }
    }
    let lines = vec![line(10, 50, 300, 50)];
    let (horizontal, vertical, other) = line_categorization(&lines, HORIZONTAL, VERTICAL);
    assert_eq!(horizontal, lines);
    assert!(vertical.is_empty());
    assert!(other.is_empty());
}

#[test]
fn a_point_has_an_infinite_slope() {
    assert_eq!(classify(line(3, 4, 3, 4), HORIZONTAL, VERTICAL), LineClass::Vertical);
}

#[test]
fn lines_are_sorted_by_slope() {
    // slope exactly 1/100 is not below the first threshold
    assert_eq!(classify(line(0, 0, 100, 1), HORIZONTAL, VERTICAL), LineClass::Vertical);
    assert_eq!(classify(line(0, 0, 101, 1), HORIZONTAL, VERTICAL), LineClass::Horizontal);
    assert_eq!(classify(line(0, 0, -101, -1), HORIZONTAL, VERTICAL), LineClass::Horizontal);
    // infinite slope
    assert_eq!(classify(line(7, 0, 7, 300), HORIZONTAL, VERTICAL), LineClass::Vertical);
    // slope 999 and slope 1000
    assert_eq!(classify(line(0, 0, 1, 999), HORIZONTAL, VERTICAL), LineClass::Vertical);
    assert_eq!(classify(line(0, 0, 1, 1000), HORIZONTAL, VERTICAL), LineClass::Other);
    assert_eq!(classify(line(0, 0, -1, 1000), HORIZONTAL, VERTICAL), LineClass::Other);
    assert_eq!(classify(line(1, 5000, 0, 0), HORIZONTAL, VERTICAL), LineClass::Other);
    // a tighter second threshold
    let steep = SlopeThreshold { num: 2, den: 1 };
    assert_eq!(classify(line(0, 0, 10, 19), HORIZONTAL, steep), LineClass::Vertical);
    assert_eq!(classify(line(0, 0, 10, 20), HORIZONTAL, steep), LineClass::Other);
    assert_eq!(classify(line(0, 0, 0, 20), HORIZONTAL, steep), LineClass::Vertical);
}

#[test]
fn thresholds_of_zero_and_without_bound() {
    let zero = SlopeThreshold { num: 0, den: 1 };
    let unbounded = SlopeThreshold { num: 1, den: 0 };
    // nothing lies below zero
    assert_eq!(classify(line(0, 0, 5, 0), zero, zero), LineClass::Other);
    assert_eq!(classify(line(0, 0, 0, 5), zero, zero), LineClass::Vertical);
    // every finite slope lies below an unbounded threshold
    assert_eq!(classify(line(0, 0, 1, i32::MAX), unbounded, zero), LineClass::Horizontal);
    assert_eq!(classify(line(0, 0, 0, 5), unbounded, zero), LineClass::Vertical);
    assert_eq!(classify(line(0, 0, 1, i32::MAX), zero, unbounded), LineClass::Vertical);
}

#[test]
fn extreme_coordinates_are_sorted_exactly() {
    let t = SlopeThreshold { num: u32::MAX, den: u32::MAX };
    // slope just below 1 and exactly 1, at the full width of the coordinates
    assert_eq!(
        classify(line(i32::MIN, i32::MIN, i32::MAX, i32::MAX - 1), t, t),
        LineClass::Horizontal
    );
    assert_eq!(classify(line(i32::MIN, i32::MIN, i32::MAX, i32::MAX), t, t), LineClass::Other);
}

#[test]
fn buckets_keep_the_order_and_share_nothing() {
    let lines = vec![
        line(0, 0, 200, 1),
        line(5, 0, 5, 9),
        line(0, 0, 1, 2000),
        line(300, 7, 0, 7),
        line(100, 400, 120, 100),
        line(0, 0, 1, 1000),
        line(9, 9, 9, 9),
    ];
    let (horizontal, vertical, other) = line_categorization(&lines, HORIZONTAL, VERTICAL);
    assert_eq!(horizontal, vec![line(0, 0, 200, 1), line(300, 7, 0, 7)]);
    assert_eq!(vertical, vec![line(5, 0, 5, 9), line(100, 400, 120, 100), line(9, 9, 9, 9)]);
    assert_eq!(other, vec![line(0, 0, 1, 2000), line(0, 0, 1, 1000)]);
    assert_eq!(horizontal.len() + vertical.len() + other.len(), lines.len());
    let (h, v, o) = line_categorization(&Vec::new(), HORIZONTAL, VERTICAL);
    assert!(h.is_empty() && v.is_empty() && o.is_empty());
}

#[test]
fn nearest_border_is_the_closest_candidate() {
    let lines = vec![
        line(50, 400, 80, 100),
        line(300, 400, 310, 100),
        line(200, 400, 210, 100),
        line(600, 400, 590, 100),
        line(330, 400, 325, 100),
    ];
    assert_eq!(nearest_border(&lines, Side::Left, 640), line(300, 400, 310, 100));
    assert_eq!(nearest_border(&lines, Side::Right, 640), line(330, 400, 325, 100));
    let estimate = calculate_lane_center(&lines, 640);
    assert_eq!(
        estimate,
        LaneEstimate {
            nearest_left: line(300, 400, 310, 100),
            nearest_right: line(330, 400, 325, 100),
            lane_center_half_px: 630,
        }
    );
}

#[test]
fn the_first_of_equally_near_borders_wins() {
    let lines = vec![line(300, 400, 310, 100), line(300, 500, 305, 0), line(300, 400, 310, 100)];
    assert_eq!(nearest_border(&lines, Side::Left, 640), line(300, 400, 310, 100));
    let lines = vec![line(300, 500, 305, 0), line(300, 400, 310, 100)];
    assert_eq!(nearest_border(&lines, Side::Left, 640), line(300, 500, 305, 0));
}

#[test]
fn lines_that_lean_or_run_the_wrong_way_are_no_borders() {
    let lines = vec![
        // left of centre but leaning away from it
        line(300, 400, 290, 100),
        // left of centre but running down the screen
        line(300, 100, 310, 400),
        // right of centre but leaning away from it
        line(340, 400, 350, 100),
        // right of centre but running down the screen
        line(340, 100, 330, 400),
        // on the centre line
        line(320, 400, 330, 100),
        line(320, 400, 310, 100),
    ];
    assert_eq!(nearest_border(&lines, Side::Left, 640), LineSegment::zero());
    assert_eq!(nearest_border(&lines, Side::Right, 640), LineSegment::zero());
    let decision = lane_detector(&lines, 640);
    assert_eq!(decision.estimate.lane_center_half_px, 0);
    assert_eq!(decision.deviation_half_px, 640);
    assert_eq!(decision.steering, Steering::SteerRight);
}

#[test]
fn a_border_may_start_at_the_edge_of_the_frame_or_beyond() {
    let lines = vec![line(0, 400, 20, 100)];
    assert_eq!(nearest_border(&lines, Side::Left, 640), line(0, 400, 20, 100));
    let lines = vec![line(-5, 400, 10, 100), line(0, 400, 20, 100)];
    assert_eq!(nearest_border(&lines, Side::Left, 640), line(0, 400, 20, 100));
    let lines = vec![line(i32::MIN, 400, 10, 100)];
    assert_eq!(nearest_border(&lines, Side::Left, 640), line(i32::MIN, 400, 10, 100));
    let lines = vec![line(700, 400, 630, 100), line(640, 400, 630, 100)];
    assert_eq!(nearest_border(&lines, Side::Right, 640), line(640, 400, 630, 100));
    let lines = vec![line(i32::MAX, 400, 630, 100)];
    assert_eq!(nearest_border(&lines, Side::Right, 640), line(i32::MAX, 400, 630, 100));
    let decision = lane_detector(&vec![line(0, 400, 20, 100), line(640, 400, 630, 100)], 640);
    assert_eq!(decision.deviation_half_px, 0);
    assert_eq!(decision.steering, Steering::KeepStraight);
}

#[test]
fn a_missing_border_pulls_the_centre_to_the_left_edge() {
    let lines = vec![line(540, 400, 520, 100)];
    let decision = lane_detector(&lines, 640);
    assert_eq!(decision.estimate.nearest_left, LineSegment::zero());
    assert_eq!(decision.estimate.lane_center_half_px, 540);
    assert_eq!(decision.deviation_half_px, 100);
    assert_eq!(decision.steering, Steering::SteerRight);
}

#[test]
fn deviation_decides_the_steering() {
    assert_eq!(steer(-1), Steering::SteerLeft);
    assert_eq!(steer(i64::MIN), Steering::SteerLeft);
    assert_eq!(steer(0), Steering::KeepStraight);
    assert_eq!(steer(1), Steering::SteerRight);
    assert_eq!(steer(i64::MAX), Steering::SteerRight);
    // lane centre at 330.5: right of the image centre, so steer left
    let lines = vec![line(101, 400, 120, 100), line(560, 400, 520, 100)];
    let decision = lane_detector(&lines, 640);
    assert_eq!(decision.estimate.lane_center_half_px, 661);
    assert_eq!(decision.deviation_half_px, -21);
    assert_eq!(decision.steering, Steering::SteerLeft);
}

#[test]
fn an_odd_width_has_its_centre_between_two_pixels() {
    // centre at 320.5: pixel 320 lies left of it, pixel 321 right of it
    let lines = vec![line(320, 400, 330, 100), line(321, 400, 310, 100)];
    let decision = lane_detector(&lines, 641);
    assert_eq!(decision.estimate.nearest_left, line(320, 400, 330, 100));
    assert_eq!(decision.estimate.nearest_right, line(321, 400, 310, 100));
    assert_eq!(decision.deviation_half_px, 0);
    assert_eq!(decision.steering, Steering::KeepStraight);
}

#[test]
fn an_empty_frame_steers_by_the_sentinels() {
    let decision = lane_detector(&Vec::new(), 640);
    assert_eq!(decision.estimate.nearest_left, LineSegment::zero());
    assert_eq!(decision.estimate.nearest_right, LineSegment::zero());
    assert_eq!(decision.steering, Steering::SteerRight);
    let decision = lane_detector(&Vec::new(), 0);
    assert_eq!(decision.steering, Steering::KeepStraight);
}
