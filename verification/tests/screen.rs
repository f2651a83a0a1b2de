use rpbc::screen::{clamped_share, coordinate_along, Ratio};

#[test]
fn shares_inside_the_span_are_exact() {
    assert_eq!(clamped_share(5, 10), Ratio { num: 5, den: 10 });
    assert_eq!(clamped_share(1, 3), Ratio { num: 1, den: 3 });
}

#[test]
fn shares_are_clamped_to_the_unit_interval() {
    assert_eq!(clamped_share(-1, 10), Ratio { num: 0, den: 1 });
    assert_eq!(clamped_share(0, 10), Ratio { num: 0, den: 1 });
    assert_eq!(clamped_share(10, 10), Ratio { num: 1, den: 1 });
    assert_eq!(clamped_share(15, 10), Ratio { num: 1, den: 1 });
}

#[test]
fn a_reversed_span_still_measures_from_its_start() {
    assert_eq!(clamped_share(-5, -10), Ratio { num: 5, den: 10 });
    assert_eq!(clamped_share(5, -10), Ratio { num: 0, den: 1 });
    assert_eq!(clamped_share(-20, -10), Ratio { num: 1, den: 1 });
}

#[test]
fn an_empty_span_gives_the_far_end_unless_below() {
    assert_eq!(clamped_share(0, 0), Ratio { num: 1, den: 1 });
    assert_eq!(clamped_share(3, 0), Ratio { num: 1, den: 1 });
    assert_eq!(clamped_share(-3, 0), Ratio { num: 0, den: 1 });
}

#[test]
fn coordinates_are_carried_between_the_corners() {
    let half = Ratio { num: 1, den: 2 };
    let p = coordinate_along(100, 300, half);
    assert_eq!(p, Ratio { num: 400, den: 2 });
    let q = coordinate_along(300, 100, Ratio { num: 1, den: 4 });
    // 300 + (100 - 300) / 4 = 250
    assert_eq!(q, Ratio { num: 1000, den: 4 });
    assert_eq!(coordinate_along(-50, 50, Ratio { num: 0, den: 1 }), Ratio { num: -50, den: 1 });
    assert_eq!(coordinate_along(-50, 50, Ratio { num: 1, den: 1 }), Ratio { num: 50, den: 1 });
}

#[test]
fn extreme_corners_and_spans_do_not_overflow() {
    let share = clamped_share(i64::MAX as i128 - i64::MIN as i128 - 1, i64::MAX as i128 - i64::MIN as i128);
    let p = coordinate_along(i32::MIN, i32::MAX, share);
    assert!(p.den > 0);
    assert!(p.num <= i32::MAX as i128 * p.den);
    assert!(p.num >= i32::MIN as i128 * p.den);
}
