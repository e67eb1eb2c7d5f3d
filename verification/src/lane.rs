//! Lane geometry: sorting detected line segments by slope, picking the lane borders
//! nearest to the image centre, and turning the lane's offset into a steering decision.
//!
//! Slopes and centres are kept exact. A slope bound is a fraction of two integers and is
//! compared by cross-multiplication; horizontal positions that may fall between two pixels
//! are counted in half pixels.

use vstd::prelude::*;
use crate::arith::{abs, trunc_div};

verus! {

/// A detected line segment from `(x1, y1)` to `(x2, y2)`, in pixel coordinates with the
/// y axis pointing down.
#[derive(Clone, Copy, Debug, PartialEq, Eq, Structural)]
pub struct LineSegment {
    pub x1: i32,
    pub y1: i32,
    pub x2: i32,
    pub y2: i32,
}

/// The bucket a line segment falls into by the steepness of its slope.
#[derive(Clone, Copy, Debug, PartialEq, Eq, Structural)]
pub enum LineClass {
    Horizontal,
    Vertical,
    Other,
}

/// A bound on the absolute slope, as the exact fraction `num / den`.
///
/// A zero denominator stands for an unbounded threshold: every finite slope lies below it
/// unless the numerator is zero too.
#[derive(Clone, Copy, Debug, PartialEq, Eq, Structural)]
pub struct SlopeThreshold {
    pub num: u32,
    pub den: u32,
}

/// What to do with the steering for the current frame.
#[derive(Clone, Copy, Debug, PartialEq, Eq, Structural)]
pub enum Steering {
    SteerLeft,
    SteerRight,
    KeepStraight,
}

/// The side of the image centre on which a lane border is looked for.
#[derive(Clone, Copy, Debug, PartialEq, Eq, Structural)]
pub enum Side {
    Left,
    Right,
}

/// The lane borders nearest to the image centre and the lane centre between them.
#[derive(Clone, Copy, Debug, PartialEq, Eq, Structural)]
pub struct LaneEstimate {
    /// The nearest border left of centre, or the zero segment if there is none.
    pub nearest_left: LineSegment,
    /// The nearest border right of centre, or the zero segment if there is none.
    pub nearest_right: LineSegment,
    /// The x coordinate of the lane centre, in half pixels: the sum of the two borders'
    /// start x coordinates.
    pub lane_center_half_px: i64,
}

/// The outcome of one frame: the lane estimate, its offset from the image centre and the
/// steering it calls for.
#[derive(Clone, Copy, Debug, PartialEq, Eq, Structural)]
pub struct LaneDecision {
    pub estimate: LaneEstimate,
    /// Image centre minus lane centre, in half pixels.
    pub deviation_half_px: i64,
    pub steering: Steering,
}

impl LaneEstimate {
    /// The pixel column of the lane centre, rounded towards zero.
    pub open spec fn spec_center_px(self) -> int {
        trunc_div(self.lane_center_half_px as int, 2)
    }

    /// The pixel column of the lane centre, rounded towards zero.
    pub fn center_px(self) -> (r: i64)
        ensures
            r == self.spec_center_px(),
    {
        self.lane_center_half_px / 2
    }
}

impl LineSegment {
    /// The segment that stands for "no line found".
    pub open spec fn spec_zero() -> LineSegment {
        LineSegment { x1: 0, y1: 0, x2: 0, y2: 0 }
    }

    /// Horizontal extent, end minus start.
    pub open spec fn dx(self) -> int {
        self.x2 - self.x1
    }

    /// Vertical extent, end minus start.
    pub open spec fn dy(self) -> int {
        self.y2 - self.y1
    }

    /// The slope `dy / dx` is infinite: the segment has no horizontal extent.
    pub open spec fn slope_is_infinite(self) -> bool {
        self.dx() == 0
    }

    /// `|dy / dx| < num / den`, for a finite slope.
    pub open spec fn slope_below(self, t: SlopeThreshold) -> bool {
        self.dx() != 0 && abs(self.dy()) * t.den < t.num * abs(self.dx())
    }

    /// The bucket of this segment: horizontal below the first threshold; otherwise
    /// vertical if the slope is infinite or below the second threshold; otherwise other.
    pub open spec fn class(self, horizontal: SlopeThreshold, vertical: SlopeThreshold) -> LineClass {
        if self.slope_below(horizontal) {
            LineClass::Horizontal
        } else if self.slope_is_infinite() || self.slope_below(vertical) {
            LineClass::Vertical
        } else {
            LineClass::Other
        }
    }

    /// Distance of the start point from the image centre line, in half pixels.
    pub open spec fn center_distance(self, image_width: int) -> int {
        abs(2 * self.x1 - image_width)
    }

    /// A border on the given side: it starts on that side of the image centre, leans
    /// towards the centre (its end lies further towards the other side than its start),
    /// and its start lies below its end on the screen.
    pub open spec fn is_candidate(self, side: Side, image_width: int) -> bool {
        match side {
            Side::Left => 2 * self.x1 < image_width && self.x1 < self.x2 && self.y1 > self.y2,
            Side::Right => 2 * self.x1 > image_width && self.x1 > self.x2 && self.y1 > self.y2,
        }
    }

    pub fn new(x1: i32, y1: i32, x2: i32, y2: i32) -> (r: LineSegment)
        ensures
            r == (LineSegment { x1, y1, x2, y2 }),
    {
        LineSegment { x1, y1, x2, y2 }
    }

    /// The segment that stands for "no line found".
    #[verifier::when_used_as_spec(spec_zero)]
    pub fn zero() -> (r: LineSegment)
        ensures
            r == LineSegment::spec_zero(),
    {
        LineSegment { x1: 0, y1: 0, x2: 0, y2: 0 }
    }
}

/// `lines[i]` is the border that the selection keeps for `side` among the first `bound`
/// segments: a candidate at least as near to the centre as every other candidate among
/// them, and strictly nearer than every candidate before it, so that among equally near
/// candidates the first one found wins.
pub open spec fn is_nearest_among(
    lines: Seq<LineSegment>,
    side: Side,
    image_width: int,
    bound: int,
    i: int,
) -> bool {
    &&& 0 <= i < bound <= lines.len()
    &&& lines[i].is_candidate(side, image_width)
    &&& forall|j: int|
        0 <= j < bound && #[trigger] lines[j].is_candidate(side, image_width)
            ==> lines[i].center_distance(image_width) <= lines[j].center_distance(image_width)
    &&& forall|j: int|
        0 <= j < i && #[trigger] lines[j].is_candidate(side, image_width) ==> lines[i].center_distance(
            image_width,
        ) < lines[j].center_distance(image_width)
}

/// `lines[i]` is the border that the selection keeps for `side`.
pub open spec fn is_nearest(lines: Seq<LineSegment>, side: Side, image_width: int, i: int) -> bool {
    is_nearest_among(lines, side, image_width, lines.len() as int, i)
}

/// The candidate of `side` nearest to the image centre, the first of them if several are
/// equally near, or the zero segment if `lines` holds no candidate.
pub open spec fn nearest_line(lines: Seq<LineSegment>, side: Side, image_width: int) -> LineSegment {
    if exists|i: int| is_nearest(lines, side, image_width, i) {
        lines[choose|i: int| is_nearest(lines, side, image_width, i)]
    } else {
        LineSegment::spec_zero()
    }
}

/// The lane estimate of a frame: the nearest border on each side, and the sum of their
/// start x coordinates, which is the lane centre in half pixels.
pub open spec fn lane_estimate(lines: Seq<LineSegment>, image_width: int) -> LaneEstimate {
    let left = nearest_line(lines, Side::Left, image_width);
    let right = nearest_line(lines, Side::Right, image_width);
    LaneEstimate {
        nearest_left: left,
        nearest_right: right,
        lane_center_half_px: (left.x1 + right.x1) as i64,
    }
}

/// Image centre minus lane centre, in half pixels. The image centre lies at
/// `image_width` half pixels.
pub open spec fn deviation(lines: Seq<LineSegment>, image_width: int) -> int {
    image_width - lane_estimate(lines, image_width).lane_center_half_px
}

/// The decision for a frame with the given vertical segments.
pub open spec fn lane_decision(lines: Seq<LineSegment>, image_width: int) -> LaneDecision {
    LaneDecision {
        estimate: lane_estimate(lines, image_width),
        deviation_half_px: deviation(lines, image_width) as i64,
        steering: steering_for(deviation(lines, image_width)),
    }
}

/// Steer left on a negative deviation, right on a positive one, straight on none.
pub open spec fn steering_for(deviation: int) -> Steering {
    if deviation < 0 {
        Steering::SteerLeft
    } else if deviation > 0 {
        Steering::SteerRight
    } else {
        Steering::KeepStraight
    }
}

/// The segments of the given bucket are those this predicate holds of.
pub open spec fn in_class(
    class: LineClass,
    horizontal: SlopeThreshold,
    vertical: SlopeThreshold,
) -> spec_fn(LineSegment) -> bool {
    |l: LineSegment| l.class(horizontal, vertical) == class
}

/// The segments of `lines` that fall into `class`, in the order in which they were found.
pub open spec fn bucket(
    lines: Seq<LineSegment>,
    class: LineClass,
    horizontal: SlopeThreshold,
    vertical: SlopeThreshold,
) -> Seq<LineSegment> {
    lines.filter(in_class(class, horizontal, vertical))
}

/// `|b - a|`, which always fits in 64 bits.
fn span(a: i32, b: i32) -> (r: u64)
    ensures
        r == abs(b - a),
        r <= 0xFFFF_FFFF,
{
    let d: i64 = b as i64 - a as i64;
    if d < 0 {
        (-d) as u64
    } else {
        d as u64
    }
}

/// Whether the slope of `line` is finite and lies strictly below `t`.
fn slope_below(line: LineSegment, t: SlopeThreshold) -> (r: bool)
    ensures
        r == line.slope_below(t),
{
    let run: u64 = span(line.x1, line.x2);
    let rise: u64 = span(line.y1, line.y2);
    assert(rise * t.den <= 0xFFFF_FFFF * 0xFFFF_FFFF) by (nonlinear_arith)
        requires
            rise <= 0xFFFF_FFFF,
            t.den <= 0xFFFF_FFFF,
    ;
    assert(t.num * run <= 0xFFFF_FFFF * 0xFFFF_FFFF) by (nonlinear_arith)
        requires
            run <= 0xFFFF_FFFF,
            t.num <= 0xFFFF_FFFF,
    ;
    run != 0 && rise * (t.den as u64) < (t.num as u64) * run
}

/// Sorts one segment into its bucket by the steepness of its slope.
pub fn classify(line: LineSegment, horizontal: SlopeThreshold, vertical: SlopeThreshold) -> (r:
    LineClass)
    ensures
        r == line.class(horizontal, vertical),
{
    if slope_below(line, horizontal) {
        LineClass::Horizontal
    } else if line.x1 == line.x2 || slope_below(line, vertical) {
        LineClass::Vertical
    } else {
        LineClass::Other
    }
}

/// Splits the segments of a frame into the horizontal, the vertical and the other ones.
///
/// Each segment lands in exactly one of the three results, and each result keeps the
/// order in which its segments were detected.
pub fn line_categorization(
    lines: &Vec<LineSegment>,
    horizontal_threshold: SlopeThreshold,
    vertical_threshold: SlopeThreshold,
) -> (r: (Vec<LineSegment>, Vec<LineSegment>, Vec<LineSegment>))
    ensures
        r.0@ == bucket(lines@, LineClass::Horizontal, horizontal_threshold, vertical_threshold),
        r.1@ == bucket(lines@, LineClass::Vertical, horizontal_threshold, vertical_threshold),
        r.2@ == bucket(lines@, LineClass::Other, horizontal_threshold, vertical_threshold),
        r.0@.len() + r.1@.len() + r.2@.len() == lines@.len(),
{
    let mut horizontal_lines: Vec<LineSegment> = Vec::new();
    let mut vertical_lines: Vec<LineSegment> = Vec::new();
    let mut other_lines: Vec<LineSegment> = Vec::new();
    let ghost ht = horizontal_threshold;
    let ghost vt = vertical_threshold;
    proof {
        reveal(Seq::filter);
        assert(lines@.take(0) =~= Seq::<LineSegment>::empty());
    }
    let mut i: usize = 0;
    while i < lines.len()
        invariant
            i <= lines.len(),
            horizontal_lines@ == bucket(lines@.take(i as int), LineClass::Horizontal, ht, vt),
            vertical_lines@ == bucket(lines@.take(i as int), LineClass::Vertical, ht, vt),
            other_lines@ == bucket(lines@.take(i as int), LineClass::Other, ht, vt),
            horizontal_lines@.len() + vertical_lines@.len() + other_lines@.len() == i,
            ht == horizontal_threshold,
            vt == vertical_threshold,
        decreases lines.len() - i,
    {
        let line: LineSegment = lines[i];
        proof {
            let seen = lines@.take(i as int);
            assert(lines@.take(i + 1) =~= seen.push(line));
            seen.lemma_filter_push(line, in_class(LineClass::Horizontal, ht, vt));
            seen.lemma_filter_push(line, in_class(LineClass::Vertical, ht, vt));
            seen.lemma_filter_push(line, in_class(LineClass::Other, ht, vt));
        }
        match classify(line, horizontal_threshold, vertical_threshold) {
            LineClass::Horizontal => horizontal_lines.push(line),
            LineClass::Vertical => vertical_lines.push(line),
            LineClass::Other => other_lines.push(line),
        }
        i += 1;
    }
    proof {
        assert(lines@.take(lines@.len() as int) =~= lines@);
    }
    (horizontal_lines, vertical_lines, other_lines)
}

/// Whether `line` is a border candidate on `side`.
fn is_candidate(line: LineSegment, side: Side, image_width: u32) -> (r: bool)
    ensures
        r == line.is_candidate(side, image_width as int),
{
    let doubled: i64 = 2 * (line.x1 as i64);
    match side {
        Side::Left => doubled < image_width as i64 && line.x1 < line.x2 && line.y1 > line.y2,
        Side::Right => doubled > image_width as i64 && line.x1 > line.x2 && line.y1 > line.y2,
    }
}

/// Distance of the start of `line` from the image centre line, in half pixels.
fn center_distance(line: LineSegment, image_width: u32) -> (r: i64)
    ensures
        r == line.center_distance(image_width as int),
{
    let offset: i64 = 2 * (line.x1 as i64) - image_width as i64;
    if offset < 0 {
        -offset
    } else {
        offset
    }
}

/// No two positions of `lines` are both the nearest border of one side.
pub proof fn lemma_nearest_is_unique(
    lines: Seq<LineSegment>,
    side: Side,
    image_width: int,
    i: int,
    k: int,
)
    requires
        is_nearest(lines, side, image_width, i),
        is_nearest(lines, side, image_width, k),
    ensures
        i == k,
{
    if i < k {
        assert(lines[i].is_candidate(side, image_width));
    } else if k < i {
        assert(lines[k].is_candidate(side, image_width));
    }
}

/// The border of `side` nearest to the image centre, or the zero segment.
pub fn nearest_border(lines: &Vec<LineSegment>, side: Side, image_width: u32) -> (r: LineSegment)
    ensures
        r == nearest_line(lines@, side, image_width as int),
{
    let ghost w = image_width as int;
    let mut best: LineSegment = LineSegment::zero();
    let mut best_distance: i64 = 0;
    let mut found: bool = false;
    let ghost mut at: int = 0;
    let mut i: usize = 0;
    while i < lines.len()
        invariant
            i <= lines.len(),
            w == image_width as int,
            !found ==> best == LineSegment::spec_zero() && forall|j: int|
                0 <= j < i ==> !(#[trigger] lines@[j].is_candidate(side, w)),
            found ==> best == lines@[at] && best_distance == best.center_distance(w)
                && is_nearest_among(lines@, side, w, i as int, at),
        decreases lines.len() - i,
    {
        let line: LineSegment = lines[i];
        if is_candidate(line, side, image_width) {
            let distance: i64 = center_distance(line, image_width);
            if !found || distance < best_distance {
                best = line;
                best_distance = distance;
                found = true;
                proof {
                    at = i as int;
                }
            }
        }
        i += 1;
    }
    proof {
        if found {
            assert(is_nearest(lines@, side, w, at));
            let k = choose|k: int| is_nearest(lines@, side, w, k);
            lemma_nearest_is_unique(lines@, side, w, at, k);
        } else {
            assert forall|k: int| !is_nearest(lines@, side, w, k) by {
                if 0 <= k < lines@.len() {
                    assert(!lines@[k].is_candidate(side, w));
                }
            }
        }
    }
    best
}

/// Estimates the lane of a frame from its vertical segments: the nearest border on each
/// side of the image centre and the lane centre between them.
///
/// A side without a border counts as the zero segment, which pulls the lane centre
/// towards the left edge of the image.
pub fn calculate_lane_center(v_lines: &Vec<LineSegment>, image_width: u32) -> (r: LaneEstimate)
    ensures
        r == lane_estimate(v_lines@, image_width as int),
        r.lane_center_half_px == r.nearest_left.x1 + r.nearest_right.x1,
{
    let nearest_left: LineSegment = nearest_border(v_lines, Side::Left, image_width);
    let nearest_right: LineSegment = nearest_border(v_lines, Side::Right, image_width);
    LaneEstimate {
        nearest_left,
        nearest_right,
        lane_center_half_px: nearest_left.x1 as i64 + nearest_right.x1 as i64,
    }
}

/// The steering that a deviation calls for.
pub fn steer(deviation_half_px: i64) -> (r: Steering)
    ensures
        r == steering_for(deviation_half_px as int),
{
    if deviation_half_px < 0 {
        Steering::SteerLeft
    } else if deviation_half_px > 0 {
        Steering::SteerRight
    } else {
        Steering::KeepStraight
    }
}

/// Decides the steering for one frame from its vertical segments alone: no earlier frame
/// enters into it.
pub fn lane_detector(v_lines: &Vec<LineSegment>, image_width: u32) -> (r: LaneDecision)
    ensures
        r == lane_decision(v_lines@, image_width as int),
        r.deviation_half_px == image_width - (r.estimate.nearest_left.x1
            + r.estimate.nearest_right.x1),
{
    let estimate: LaneEstimate = calculate_lane_center(v_lines, image_width);
    let deviation_half_px: i64 = image_width as i64 - estimate.lane_center_half_px;
    LaneDecision { estimate, deviation_half_px, steering: steer(deviation_half_px) }
}

/// A segment without vertical extent and with some horizontal extent, whose slope is
/// therefore zero, is horizontal under every first threshold above zero, whatever the
/// second threshold: it is never vertical and never other.
pub proof fn lemma_flat_line_is_horizontal(
    line: LineSegment,
    horizontal: SlopeThreshold,
    vertical: SlopeThreshold,
)
    requires
        line.y1 == line.y2,
        line.x1 != line.x2,
        horizontal.num > 0,
    ensures
        line.class(horizontal, vertical) == LineClass::Horizontal,
{
    let run = abs(line.dx());
    let rise = abs(line.dy());
    assert(horizontal.num * run > 0) by (nonlinear_arith)
        requires
            horizontal.num > 0,
            run > 0,
    ;
    assert(rise * horizontal.den == 0) by (nonlinear_arith)
        requires
            rise == 0,
    ;
}

/// A bucket holds exactly the segments of the frame that are of its class, so the three
/// buckets share no segment and together hold them all.
pub proof fn lemma_bucket_membership(
    lines: Seq<LineSegment>,
    class: LineClass,
    horizontal: SlopeThreshold,
    vertical: SlopeThreshold,
    line: LineSegment,
)
    ensures
        bucket(lines, class, horizontal, vertical).contains(line) <==> lines.contains(line)
            && line.class(horizontal, vertical) == class,
{
    let pred = in_class(class, horizontal, vertical);
    let kept = lines.filter(pred);
    if kept.contains(line) {
        lines.lemma_filter_contains_rev(pred, line);
        let k = choose|k: int| 0 <= k < kept.len() && kept[k] == line;
        lines.lemma_filter_pred(pred, k);
    }
    if lines.contains(line) && pred(line) {
        let i = choose|i: int| 0 <= i < lines.len() && lines[i] == line;
        lines.lemma_filter_contains(pred, i);
    }
}

/// The selected border of a side is one of the frame's candidates of that side, or the
/// zero segment if the frame has none.
pub proof fn lemma_nearest_line_is_candidate_or_zero(
    lines: Seq<LineSegment>,
    side: Side,
    image_width: int,
)
    ensures
        (exists|j: int| 0 <= j < lines.len() && #[trigger] lines[j].is_candidate(side, image_width))
            ==> lines.contains(nearest_line(lines, side, image_width)) && nearest_line(
            lines,
            side,
            image_width,
        ).is_candidate(side, image_width),
        (forall|j: int| 0 <= j < lines.len() ==> !(#[trigger] lines[j].is_candidate(side, image_width)))
            ==> nearest_line(lines, side, image_width) == LineSegment::spec_zero(),
{
    if exists|j: int| 0 <= j < lines.len() && #[trigger] lines[j].is_candidate(side, image_width) {
        lemma_some_candidate_is_nearest(lines, side, image_width, lines.len() as int);
        let i = choose|i: int| is_nearest_among(lines, side, image_width, lines.len() as int, i);
        assert(is_nearest(lines, side, image_width, i));
    }
}

/// Among the first `bound` segments of a frame, one candidate is the nearest, if there
/// is a candidate at all.
proof fn lemma_some_candidate_is_nearest(
    lines: Seq<LineSegment>,
    side: Side,
    image_width: int,
    bound: int,
)
    requires
        0 <= bound <= lines.len(),
        exists|j: int| 0 <= j < bound && #[trigger] lines[j].is_candidate(side, image_width),
    ensures
        exists|i: int| is_nearest_among(lines, side, image_width, bound, i),
    decreases bound,
{
    let last = bound - 1;
    if exists|j: int| 0 <= j < last && #[trigger] lines[j].is_candidate(side, image_width) {
        lemma_some_candidate_is_nearest(lines, side, image_width, last);
        let k = choose|k: int| is_nearest_among(lines, side, image_width, last, k);
        if lines[last].is_candidate(side, image_width) && lines[last].center_distance(image_width)
            < lines[k].center_distance(image_width) {
            assert(is_nearest_among(lines, side, image_width, bound, last));
        } else {
            assert(is_nearest_among(lines, side, image_width, bound, k));
        }
    } else {
        assert(is_nearest_among(lines, side, image_width, bound, last));
    }
}

} // verus!
