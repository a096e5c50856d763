use phasetida_core::chart::{
    Event1, Event2, Event4, FormatVersion, NoteType, TimeState, WithTimeRange, WithValue,
};
use phasetida_core::math::{
    check_in_bound, check_misses_screen, check_rectangles_overlap, find_gx, get_gx,
    intervals_overlap, is_point_in_judge_range, Edges, Gx, Point, Shadow, DEGREE_135_BITS,
    DEGREE_225_BITS, DEGREE_315_BITS, DEGREE_360_BITS, DEGREE_45_BITS, DRAW_MAX_X_BITS,
    DRAW_MAX_Y_BITS, DRAW_MIN_BITS, WORLD_HEIGHT_BITS, WORLD_WIDTH_BITS,
};
use phasetida_core::scalar::{Real, INFINITY_BITS, MINUS_SIXTEEN_BITS, ONE_BITS, SIGN_BIT};

fn pat(x: f64) -> Real {
    Real::from_bits(x.to_bits())
}

fn samples() -> Vec<f64> {
    vec![
        0.0,
        -0.0,
        1.0,
        -1.0,
        0.08,
        -0.08,
        5.12,
        -5.12,
        16.0,
        -16.0,
        -16.000000000000004,
        1e-310,
        -1e-310,
        f64::MIN_POSITIVE,
        f64::MAX,
        f64::MIN,
        f64::INFINITY,
        f64::NEG_INFINITY,
        f64::NAN,
        -f64::NAN,
        360.0,
        1920.0,
        0.1 + 0.2,
        0.3,
    ]
}

#[test]
fn constants_are_the_patterns_of_their_numbers() {
    assert_eq!(SIGN_BIT, (-0.0f64).to_bits());
    assert_eq!(INFINITY_BITS, f64::INFINITY.to_bits());
    assert_eq!(ONE_BITS, 1.0f64.to_bits());
    assert_eq!(MINUS_SIXTEEN_BITS, (-16.0f64).to_bits());
    assert_eq!(DRAW_MIN_BITS, (-200.0f64).to_bits());
    assert_eq!(DRAW_MAX_X_BITS, 2120.0f64.to_bits());
    assert_eq!(DRAW_MAX_Y_BITS, 1280.0f64.to_bits());
    assert_eq!(Real::zero().to_bits(), 0.0f64.to_bits());
    assert_eq!(Real::one().to_bits(), 1.0f64.to_bits());
    assert_eq!(Real::minus_sixteen().to_bits(), (-16.0f64).to_bits());
}

#[test]
fn comparisons_agree_with_the_hardware() {
    for a in samples() {
        for b in samples() {
            assert_eq!(pat(a).lt(pat(b)), a < b, "{} < {}", a, b);
            assert_eq!(pat(a).le(pat(b)), a <= b, "{} <= {}", a, b);
            assert_eq!(pat(a).gt(pat(b)), a > b, "{} > {}", a, b);
            assert_eq!(pat(a).ge(pat(b)), a >= b, "{} >= {}", a, b);
        }
    }
}

#[test]
fn nan_and_abs_agree_with_the_hardware() {
    for a in samples() {
        assert_eq!(pat(a).is_nan(), a.is_nan());
        assert_eq!(pat(a).abs().to_bits(), a.abs().to_bits());
    }
}

#[test]
fn max_agrees_with_the_hardware_in_value() {
    for a in samples() {
        for b in samples() {
            let ours = f64::from_bits(pat(a).max(pat(b)).to_bits());
            let theirs = a.max(b);
            if theirs.is_nan() {
                assert!(ours.is_nan());
            } else {
                assert!(ours == theirs, "max({}, {})", a, b);
            }
        }
    }
}

#[test]
fn zeros_compare_equal() {
    assert!(pat(0.0).le(pat(-0.0)));
    assert!(pat(-0.0).le(pat(0.0)));
    assert!(!pat(-0.0).lt(pat(0.0)));
    assert!(pat(-0.0).max(pat(0.0)).to_bits() == (-0.0f64).to_bits());
}

#[test]
fn note_types_are_read_from_one_to_four() {
    assert!(NoteType::try_from(1) == Ok(NoteType::Tap));
    assert!(NoteType::try_from(2) == Ok(NoteType::Drag));
    assert!(NoteType::try_from(3) == Ok(NoteType::Hold));
    assert!(NoteType::try_from(4) == Ok(NoteType::Flick));
    assert!(NoteType::try_from(0) == Err(()));
    assert!(NoteType::try_from(5) == Err(()));
    assert!(NoteType::try_from(-1) == Err(()));
    assert!(NoteType::try_from(i32::MAX) == Err(()));
}

#[test]
fn note_types_are_written_as_one_to_four() {
    assert_eq!(i8::from(NoteType::Tap), 1);
    assert_eq!(i8::from(NoteType::Drag), 2);
    assert_eq!(i8::from(NoteType::Hold), 3);
    assert_eq!(i8::from(NoteType::Flick), 4);
    for code in 1..=4 {
        let kind = NoteType::try_from(code).unwrap();
        assert_eq!(i32::from(i8::from(kind)), code);
    }
}

#[test]
fn format_versions_have_their_numbers() {
    assert_eq!(FormatVersion::V1.number(), 1);
    assert_eq!(FormatVersion::V3.number(), 3);
}

#[test]
fn events_give_their_values() {
    let speed = Event1 { start_time: pat(0.0), end_time: pat(10.0), value: pat(2.5) };
    let (a, b) = speed.get_value();
    assert_eq!((a.to_bits(), b.to_bits()), (2.5f64.to_bits(), 2.5f64.to_bits()));
    let turn = Event2 {
        start_time: pat(0.0),
        end_time: pat(10.0),
        start: pat(30.0),
        end: pat(60.0),
    };
    let (a, b) = turn.get_value();
    assert_eq!((a.to_bits(), b.to_bits()), (30.0f64.to_bits(), 60.0f64.to_bits()));
    let shift = Event4 {
        start_time: pat(0.0),
        end_time: pat(10.0),
        start: pat(0.1),
        end: pat(0.2),
        start2: pat(0.3),
        end2: pat(0.4),
    };
    let ((xa, xb), (ya, yb)) = shift.get_value();
    assert_eq!(xa.to_bits(), 0.1f64.to_bits());
    assert_eq!(xb.to_bits(), 0.2f64.to_bits());
    assert_eq!(ya.to_bits(), 0.3f64.to_bits());
    assert_eq!(yb.to_bits(), 0.4f64.to_bits());
    let (za, zb) = <Event1 as WithValue<Real>>::zero();
    assert_eq!((za.to_bits(), zb.to_bits()), (0, 0));
    let ((a, b), (c, d)) = <Event4 as WithValue<(Real, Real)>>::zero();
    assert_eq!((a.to_bits(), b.to_bits(), c.to_bits(), d.to_bits()), (0, 0, 0, 0));
}

#[test]
fn events_tell_where_a_moment_lies() {
    let event = Event2 {
        start_time: pat(10.0),
        end_time: pat(20.0),
        start: pat(0.0),
        end: pat(1.0),
    };
    assert!(event.check_time(pat(9.999)) == TimeState::Early);
    assert!(event.check_time(pat(10.0)) == TimeState::During);
    assert!(event.check_time(pat(15.0)) == TimeState::During);
    assert!(event.check_time(pat(20.0)) == TimeState::During);
    assert!(event.check_time(pat(20.001)) == TimeState::Late);
    assert!(event.check_time(pat(f64::NAN)) == TimeState::During);
    assert_eq!(event.time_start().to_bits(), 10.0f64.to_bits());
    assert_eq!(event.time_end().to_bits(), 20.0f64.to_bits());
}

#[test]
fn bounds_of_what_is_drawn_are_inclusive() {
    assert!(check_in_bound(pat(-200.0), pat(-200.0)));
    assert!(check_in_bound(pat(2120.0), pat(1280.0)));
    assert!(check_in_bound(pat(0.0), pat(0.0)));
    assert!(!check_in_bound(pat(-200.0001), pat(0.0)));
    assert!(!check_in_bound(pat(2120.0001), pat(0.0)));
    assert!(!check_in_bound(pat(0.0), pat(-200.0001)));
    assert!(!check_in_bound(pat(0.0), pat(1280.0001)));
    assert!(!check_in_bound(pat(f64::NAN), pat(0.0)));
}

#[test]
fn constants_of_the_screen_are_the_patterns_of_their_numbers() {
    assert_eq!(DEGREE_45_BITS, 45.0f64.to_bits());
    assert_eq!(DEGREE_135_BITS, 135.0f64.to_bits());
    assert_eq!(DEGREE_225_BITS, 225.0f64.to_bits());
    assert_eq!(DEGREE_315_BITS, 315.0f64.to_bits());
    assert_eq!(DEGREE_360_BITS, 360.0f64.to_bits());
    assert_eq!(WORLD_WIDTH_BITS, 1920.0f64.to_bits());
    assert_eq!(WORLD_HEIGHT_BITS, 1080.0f64.to_bits());
}

#[test]
fn an_angle_runs_one_of_four_ways() {
    assert!(find_gx(pat(0.0)) == Some(Gx::I));
    assert!(find_gx(pat(-0.0)) == Some(Gx::I));
    assert!(find_gx(pat(45.0)) == Some(Gx::I));
    assert!(find_gx(pat(45.000001)) == Some(Gx::Ii));
    assert!(find_gx(pat(90.0)) == Some(Gx::Ii));
    assert!(find_gx(pat(135.0)) == Some(Gx::Ii));
    assert!(find_gx(pat(135.000001)) == Some(Gx::Iii));
    assert!(find_gx(pat(225.0)) == Some(Gx::Iii));
    assert!(find_gx(pat(225.000001)) == Some(Gx::Iv));
    assert!(find_gx(pat(314.999999)) == Some(Gx::Iv));
    assert!(find_gx(pat(315.0)) == Some(Gx::I));
    assert!(find_gx(pat(360.0)) == Some(Gx::I));
    assert!(find_gx(pat(360.000001)) == None);
    assert!(find_gx(pat(-0.000001)) == None);
    assert!(find_gx(pat(f64::NAN)) == None);
    assert!(get_gx(pat(200.0)) == Gx::Iii);
    assert!(get_gx(pat(300.0)) == Gx::Iv);
}

#[test]
fn spans_overlap_when_neither_lies_before_the_other() {
    assert!(intervals_overlap(pat(0.0), pat(1.0), pat(1.0), pat(2.0)));
    assert!(intervals_overlap(pat(0.0), pat(5.0), pat(1.0), pat(2.0)));
    assert!(!intervals_overlap(pat(0.0), pat(1.0), pat(1.5), pat(2.0)));
    assert!(!intervals_overlap(pat(3.0), pat(4.0), pat(1.5), pat(2.0)));
    assert!(intervals_overlap(pat(f64::NAN), pat(f64::NAN), pat(1.5), pat(2.0)));
}

fn cast(axis: (f64, f64), one: (f64, f64), two: (f64, f64)) -> Shadow {
    Shadow {
        axis_x: pat(axis.0),
        axis_y: pat(axis.1),
        min1: pat(one.0),
        max1: pat(one.1),
        min2: pat(two.0),
        max2: pat(two.1),
    }
}

#[test]
fn rectangles_overlap_unless_an_axis_separates_them() {
    let joined = cast((1.0, 0.0), (0.0, 2.0), (1.0, 3.0));
    let apart = cast((0.0, 1.0), (0.0, 2.0), (2.5, 3.0));
    let nowhere = cast((0.0, -0.0), (0.0, 2.0), (2.5, 3.0));
    assert!(check_rectangles_overlap(&vec![joined, joined, joined, joined]));
    assert!(!check_rectangles_overlap(&vec![joined, joined, apart, joined]));
    assert!(!check_rectangles_overlap(&vec![apart]));
    assert!(check_rectangles_overlap(&vec![joined, nowhere]));
    assert!(check_rectangles_overlap(&vec![]));
}

#[test]
fn a_point_lies_in_the_judge_range_between_its_bounds() {
    let (low, high) = (pat(10.0), pat(20.0));
    assert!(is_point_in_judge_range(Gx::I, pat(10.0), pat(99.0), low, high));
    assert!(is_point_in_judge_range(Gx::I, pat(20.0), pat(99.0), low, high));
    assert!(!is_point_in_judge_range(Gx::I, pat(20.5), pat(15.0), low, high));
    assert!(is_point_in_judge_range(Gx::Iii, pat(15.0), pat(99.0), high, low));
    assert!(!is_point_in_judge_range(Gx::Iii, pat(15.0), pat(99.0), low, high));
    assert!(is_point_in_judge_range(Gx::Ii, pat(99.0), pat(15.0), high, low));
    assert!(!is_point_in_judge_range(Gx::Ii, pat(15.0), pat(99.0), high, low));
    assert!(is_point_in_judge_range(Gx::Iv, pat(99.0), pat(15.0), low, high));
    assert!(!is_point_in_judge_range(Gx::Iv, pat(99.0), pat(9.0), low, high));
}

fn ends(first: (f64, f64), second: (f64, f64)) -> (Point, Point) {
    (
        Point { x: pat(first.0), y: pat(first.1) },
        Point { x: pat(second.0), y: pat(second.1) },
    )
}

#[test]
fn a_line_misses_the_screen_when_both_ends_lie_beyond_one_edge() {
    let none = Edges {
        first_left: false,
        first_right: false,
        first_top: false,
        first_bottom: false,
        second_left: false,
        second_right: false,
        second_top: false,
        second_bottom: false,
    };
    let mut across = none;
    across.first_left = true;
    across.second_right = true;
    let (a, b) = ends((0.0, -10.0), (1920.0, 0.0));
    assert!(check_misses_screen(&a, &b, &across));
    let (a, b) = ends((0.0, 1080.0), (1920.0, 2000.0));
    assert!(check_misses_screen(&a, &b, &across));
    let (a, b) = ends((0.0, -10.0), (1920.0, 5.0));
    assert!(!check_misses_screen(&a, &b, &across));
    let (a, b) = ends((0.0, -10.0), (1920.0, 0.0));
    assert!(!check_misses_screen(&a, &b, &none));
    let mut down = none;
    down.second_top = true;
    down.first_bottom = true;
    let (a, b) = ends((1920.0, 1080.0), (1925.0, 0.0));
    assert!(check_misses_screen(&a, &b, &down));
    let (a, b) = ends((-1.0, 1080.0), (0.0, 0.0));
    assert!(check_misses_screen(&a, &b, &down));
    let (a, b) = ends((1.0, 1080.0), (0.0, 0.0));
    assert!(!check_misses_screen(&a, &b, &down));
}

#[test]
fn comparisons_agree_with_the_hardware_on_many_patterns() {
    let mut state: u64 = 0x9e37_79b9_7f4a_7c15;
    let mut next = || {
        state = state.wrapping_mul(6364136223846793005).wrapping_add(1442695040888963407);
        let high = state;
        state = state.wrapping_mul(6364136223846793005).wrapping_add(1442695040888963407);
        (high & 0xffff_ffff_0000_0000) | (state >> 32)
    };
    for round in 0..40_000 {
        let a = next();
        let b = if round % 4 == 0 { a ^ (1 << (round % 64)) } else { next() };
        let (x, y) = (f64::from_bits(a), f64::from_bits(b));
        let (p, q) = (Real::from_bits(a), Real::from_bits(b));
        assert_eq!(p.lt(q), x < y);
        assert_eq!(p.le(q), x <= y);
        assert_eq!(p.gt(q), x > y);
        assert_eq!(p.ge(q), x >= y);
        assert_eq!(p.is_nan(), x.is_nan());
        assert_eq!(p.abs().to_bits(), x.abs().to_bits());
    }
}
