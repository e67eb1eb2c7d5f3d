//! What the robot makes of the numbers that the vision library hands it.
//!
//! Finding edges, lines and circles in a frame is the vision library's work. This module
//! holds the settings that the robot calls it with and the decisions that it takes on what
//! comes back.

use vstd::prelude::*;
use crate::lane::{
    bucket, lane_decision, lane_detector, line_categorization, LaneDecision, LineClass,
    LineSegment, SlopeThreshold,
};

verus! {

/// How long a window stays on the screen, in milliseconds.
pub const WAIT_MILLIS: i32 = 1000;

/// How many votes make a line in the probabilistic line transform.
pub const HOUGH_THRESHOLD: i32 = 50;

/// The slope below which a line counts as horizontal: a hundredth.
pub open spec fn spec_horizontal_threshold() -> SlopeThreshold {
    SlopeThreshold { num: 1, den: 100 }
}

/// The slope below which a line that is not horizontal counts as vertical: a thousand.
pub open spec fn spec_vertical_threshold() -> SlopeThreshold {
    SlopeThreshold { num: 1000, den: 1 }
}

/// The slope below which a line counts as horizontal: a hundredth.
#[verifier::when_used_as_spec(spec_horizontal_threshold)]
pub fn horizontal_threshold() -> (r: SlopeThreshold)
    ensures
        r == spec_horizontal_threshold(),
{
    SlopeThreshold { num: 1, den: 100 }
}

/// The slope below which a line that is not horizontal counts as vertical: a thousand.
#[verifier::when_used_as_spec(spec_vertical_threshold)]
pub fn vertical_threshold() -> (r: SlopeThreshold)
    ensures
        r == spec_vertical_threshold(),
{
    SlopeThreshold { num: 1000, den: 1 }
}

/// Whether a graphics card can be used: the vision library has found at least one.
pub fn cuda_check(dev_count: i32) -> (r: bool)
    ensures
        r == (dev_count > 0),
{
    dev_count > 0
}

/// Whether the traffic light shows green: the frame holds more green pixels than red
/// ones.
pub fn detect_green_light(green_pixel_count: i32, red_pixel_count: i32) -> (r: bool)
    ensures
        r == (green_pixel_count > red_pixel_count),
{
    green_pixel_count > red_pixel_count
}

/// Decides the steering for one frame from all the line segments found in it: the
/// vertical ones among them, by the usual thresholds, are the lane borders to steer by.
pub fn steer_by_lines(lines: &Vec<LineSegment>, image_width: u32) -> (r: LaneDecision)
    ensures
        r == lane_decision(
            bucket(lines@, LineClass::Vertical, horizontal_threshold(), vertical_threshold()),
            image_width as int,
        ),
{
    let (_, vertical, _) = line_categorization(lines, horizontal_threshold(), vertical_threshold());
    lane_detector(&vertical, image_width)
}

} // verus!
