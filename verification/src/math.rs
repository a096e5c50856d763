//! Points, rectangles and the bounds of what is drawn.

use vstd::prelude::*;
use crate::scalar::Real;

verus! {

/// A point of the world.
#[derive(Clone, Copy, Debug, PartialEq, Eq, Structural)]
pub struct Point {
    pub x: Real,
    pub y: Real,
}

/// The pattern of minus two hundred: the least coordinate that is drawn.
pub const DRAW_MIN_BITS: u64 = 0xc069_0000_0000_0000;

/// The pattern of 2120: the largest horizontal coordinate that is drawn.
pub const DRAW_MAX_X_BITS: u64 = 0x40a0_9000_0000_0000;

/// The pattern of 1280: the largest vertical coordinate that is drawn.
pub const DRAW_MAX_Y_BITS: u64 = 0x4094_0000_0000_0000;

/// Whether a point lies within the bounds of what is drawn: the screen and
/// two hundred units around it, bounds included.
pub open spec fn in_bound(x: Real, y: Real) -> bool {
    &&& (Real { bits: DRAW_MIN_BITS }).le_spec(x)
    &&& x.le_spec(Real { bits: DRAW_MAX_X_BITS })
    &&& (Real { bits: DRAW_MIN_BITS }).le_spec(y)
    &&& y.le_spec(Real { bits: DRAW_MAX_Y_BITS })
}

/// Tells whether a point lies within the bounds of what is drawn.
pub fn check_in_bound(x: Real, y: Real) -> (r: bool)
    ensures
        r == in_bound(x, y),
{
    let least: Real = Real::from_bits(DRAW_MIN_BITS);
    least.le(x) && x.le(Real::from_bits(DRAW_MAX_X_BITS)) && least.le(y) && y.le(
        Real::from_bits(DRAW_MAX_Y_BITS),
    )
}

/// The four ways a line can run, by its angle in degrees: toward the right
/// edge of the screen, the bottom edge, the left edge or the top edge.
#[derive(Clone, Copy, Debug, PartialEq, Eq, Structural)]
pub enum Gx {
    I,
    Ii,
    Iii,
    Iv,
}

/// The pattern of 45.
pub const DEGREE_45_BITS: u64 = 0x4046_8000_0000_0000;

/// The pattern of 135.
pub const DEGREE_135_BITS: u64 = 0x4060_e000_0000_0000;

/// The pattern of 225.
pub const DEGREE_225_BITS: u64 = 0x406c_2000_0000_0000;

/// The pattern of 315.
pub const DEGREE_315_BITS: u64 = 0x4073_b000_0000_0000;

/// The pattern of 360.
pub const DEGREE_360_BITS: u64 = 0x4076_8000_0000_0000;

/// Whether `value` lies between `low` and `high`, bounds included.
pub open spec fn within(value: Real, low: u64, high: u64) -> bool {
    (Real { bits: low }).le_spec(value) && value.le_spec(Real { bits: high })
}

/// The way a line of the given angle runs, for an angle from zero to 360
/// degrees. An angle on the bound between two ways belongs to the first of
/// them, and 315 degrees belong to the first way.
pub open spec fn gx_of(valid_degree: Real) -> Option<Gx> {
    if within(valid_degree, DEGREE_315_BITS, DEGREE_360_BITS) || within(
        valid_degree,
        0,
        DEGREE_45_BITS,
    ) {
        Some(Gx::I)
    } else if within(valid_degree, DEGREE_45_BITS, DEGREE_135_BITS) {
        Some(Gx::Ii)
    } else if within(valid_degree, DEGREE_135_BITS, DEGREE_225_BITS) {
        Some(Gx::Iii)
    } else if within(valid_degree, DEGREE_225_BITS, DEGREE_315_BITS) {
        Some(Gx::Iv)
    } else {
        None
    }
}

fn is_within(value: Real, low: u64, high: u64) -> (r: bool)
    ensures
        r == within(value, low, high),
{
    Real::from_bits(low).le(value) && value.le(Real::from_bits(high))
}

/// Tells the way a line of the given angle runs, or nothing where the angle
/// does not lie from zero to 360 degrees.
pub fn find_gx(valid_degree: Real) -> (r: Option<Gx>)
    ensures
        r == gx_of(valid_degree),
        r.is_some() == within(valid_degree, 0, DEGREE_360_BITS),
{
    if is_within(valid_degree, DEGREE_315_BITS, DEGREE_360_BITS) || is_within(
        valid_degree,
        0,
        DEGREE_45_BITS,
    ) {
        Some(Gx::I)
    } else if is_within(valid_degree, DEGREE_45_BITS, DEGREE_135_BITS) {
        Some(Gx::Ii)
    } else if is_within(valid_degree, DEGREE_135_BITS, DEGREE_225_BITS) {
        Some(Gx::Iii)
    } else if is_within(valid_degree, DEGREE_225_BITS, DEGREE_315_BITS) {
        Some(Gx::Iv)
    } else {
        None
    }
}

/// Tells the way a line of the given angle runs.
pub fn get_gx(valid_degree: Real) -> (r: Gx)
    requires
        within(valid_degree, 0, DEGREE_360_BITS),
    ensures
        gx_of(valid_degree) == Some(r),
{
    match find_gx(valid_degree) {
        Some(gx) => gx,
        None => Gx::I,
    }
}

/// Whether a point lies in the judge range of a note, given the two bounds
/// of the range along the axis that suits the way the line runs: the
/// horizontal axis where it runs toward the right or the left edge, the
/// vertical axis otherwise.
pub open spec fn in_judge_range(gx: Gx, point_x: Real, point_y: Real, near: Real, far: Real) -> bool {
    match gx {
        Gx::I => point_x.ge_spec(near) && point_x.le_spec(far),
        Gx::Iii => point_x.ge_spec(far) && point_x.le_spec(near),
        Gx::Ii => point_y.ge_spec(far) && point_y.le_spec(near),
        Gx::Iv => point_y.ge_spec(near) && point_y.le_spec(far),
    }
}

/// Tells whether a point lies in the judge range of a note.
pub fn is_point_in_judge_range(gx: Gx, point_x: Real, point_y: Real, near: Real, far: Real) -> (r: bool)
    ensures
        r == in_judge_range(gx, point_x, point_y, near, far),
{
    match gx {
        Gx::I => point_x.ge(near) && point_x.le(far),
        Gx::Iii => point_x.ge(far) && point_x.le(near),
        Gx::Ii => point_y.ge(far) && point_y.le(near),
        Gx::Iv => point_y.ge(near) && point_y.le(far),
    }
}

/// Whether two spans of numbers have a number in common.
pub open spec fn overlap(min1: Real, max1: Real, min2: Real, max2: Real) -> bool {
    !(max1.lt_spec(min2) || max2.lt_spec(min1))
}

/// Tells whether two spans of numbers have a number in common.
pub fn intervals_overlap(min1: Real, max1: Real, min2: Real, max2: Real) -> (r: bool)
    ensures
        r == overlap(min1, max1, min2, max2),
{
    !(max1.lt(min2) || max2.lt(min1))
}

/// What two rectangles cast on an axis: the axis, and the span that each
/// rectangle covers along it.
#[derive(Clone, Copy, Debug, PartialEq, Eq, Structural)]
pub struct Shadow {
    pub axis_x: Real,
    pub axis_y: Real,
    pub min1: Real,
    pub max1: Real,
    pub min2: Real,
    pub max2: Real,
}

impl Shadow {
    /// Whether the axis has no direction.
    pub open spec fn degenerate(self) -> bool {
        !self.axis_x.nan() && self.axis_x.key() == 0 && !self.axis_y.nan() && self.axis_y.key()
            == 0
    }

    /// Whether the axis does not separate the rectangles.
    pub open spec fn joins(self) -> bool {
        self.degenerate() || overlap(self.min1, self.max1, self.min2, self.max2)
    }
}

/// Whether no axis separates the rectangles.
pub open spec fn rectangles_overlap(shadows: Seq<Shadow>) -> bool {
    forall|i: int| 0 <= i < shadows.len() ==> (#[trigger] shadows[i]).joins()
}

/// Tells whether two rectangles overlap, from what they cast on the axes of
/// their sides: they do unless an axis separates them. An axis without a
/// direction separates nothing.
pub fn check_rectangles_overlap(shadows: &Vec<Shadow>) -> (r: bool)
    ensures
        r == rectangles_overlap(shadows@),
{
    let len: usize = shadows.len();
    let mut i: usize = 0;
    while i < len
        invariant
            len == shadows@.len(),
            i <= len,
            forall|k: int| 0 <= k < i ==> (#[trigger] shadows@[k]).joins(),
        decreases len - i,
    {
        let shadow: Shadow = shadows[i];
        let zero: Real = Real::zero();
        let degenerate: bool = shadow.axis_x.le(zero) && shadow.axis_x.ge(zero) && shadow.axis_y.le(
            zero,
        ) && shadow.axis_y.ge(zero);
        if !degenerate && !intervals_overlap(shadow.min1, shadow.max1, shadow.min2, shadow.max2) {
            assert(!shadows@[i as int].joins());
            return false;
        }
        i = i + 1;
    }
    true
}

/// The pattern of 1920, the width of the screen.
pub const WORLD_WIDTH_BITS: u64 = 0x409e_0000_0000_0000;

/// The pattern of 1080, the height of the screen.
pub const WORLD_HEIGHT_BITS: u64 = 0x4090_e000_0000_0000;

/// Which edges of the screen the two ends of a line sit on, as the host has
/// found by comparing each coordinate with the edge.
#[derive(Clone, Copy, Debug, PartialEq, Eq, Structural)]
pub struct Edges {
    pub first_left: bool,
    pub first_right: bool,
    pub first_top: bool,
    pub first_bottom: bool,
    pub second_left: bool,
    pub second_right: bool,
    pub second_top: bool,
    pub second_bottom: bool,
}

/// Whether a line misses the screen: its ends sit on the left and the right
/// edge and both lie above or both below the screen, or they sit on the top
/// and the bottom edge and both lie left or both right of the screen.
pub open spec fn misses_screen(first: Point, second: Point, edges: Edges) -> bool {
    let zero = Real::zero_spec();
    let width = Real { bits: WORLD_WIDTH_BITS };
    let height = Real { bits: WORLD_HEIGHT_BITS };
    ||| {
        &&& (edges.first_left && edges.second_right) || (edges.second_left && edges.first_right)
        &&& (first.y.le_spec(zero) && second.y.le_spec(zero)) || (first.y.ge_spec(height)
            && second.y.ge_spec(height))
    }
    ||| {
        &&& (edges.first_top && edges.second_bottom) || (edges.second_top && edges.first_bottom)
        &&& (first.x.le_spec(zero) && second.x.le_spec(zero)) || (first.x.ge_spec(width)
            && second.x.ge_spec(width))
    }
}

/// Tells whether a line misses the screen.
pub fn check_misses_screen(first: &Point, second: &Point, edges: &Edges) -> (r: bool)
    ensures
        r == misses_screen(*first, *second, *edges),
{
    let zero: Real = Real::zero();
    let width: Real = Real::from_bits(WORLD_WIDTH_BITS);
    let height: Real = Real::from_bits(WORLD_HEIGHT_BITS);
    (((edges.first_left && edges.second_right) || (edges.second_left && edges.first_right)) && ((
    first.y.le(zero) && second.y.le(zero)) || (first.y.ge(height) && second.y.ge(height)))) || (((
    edges.first_top && edges.second_bottom) || (edges.second_top && edges.first_bottom)) && ((
    first.x.le(zero) && second.x.le(zero)) || (first.x.ge(width) && second.x.ge(width))))
}

} // verus!
