use simulation::fraction::Fraction;
use simulation::genes::{
    accumulated, angle_range, angle_step_range, clamp, crossed, thrust_range, thrust_step_range, CrossError,
    GeneRange,
};

/// A range that leaves every value as it is.
fn pass() -> GeneRange {
    GeneRange { start: i32::MIN, end: i32::MAX }
}

/// A range that only caps values at `max`.
fn at_most(max: i32) -> GeneRange {
    GeneRange { start: i32::MIN, end: max }
}

#[test]
fn different_vecs() {
    let a = vec![1, 2, 3];
    let b = vec![4, 5];
    assert!(crossed(&a, &b, Fraction::new(1, 2), pass()).is_err());
}

#[test]
fn wrong_i1() {
    let a = vec![1, 2, 3];
    let b = vec![4, 5, 6];
    assert!(crossed(&a, &b, Fraction::new(-1, 2), pass()).is_err());
}

#[test]
fn wrong_i2() {
    let a = vec![1, 2, 3];
    let b = vec![4, 5, 6];
    assert!(crossed(&a, &b, Fraction::new(3, 2), pass()).is_err());
}

#[test]
fn crossing1() {
    let a1 = vec![1, 2, 3, 4];
    let b1 = vec![5, 6, 7, 8];
    let (a2, b2) = crossed(&a1, &b1, Fraction::new(1, 4), pass()).unwrap();
    assert_eq!(a2, vec![4, 5, 6, 7]);
    assert_eq!(b2, vec![2, 3, 4, 5]);
}

#[test]
fn crossing2() {
    let a1 = vec![1, 2, 3, 4];
    let b1 = vec![5, 6, 7, 8];
    let (a2, b2) = crossed(&a1, &b1, Fraction::new(1, 2), pass()).unwrap();
    assert_eq!(a2, vec![3, 4, 5, 6]);
    assert_eq!(b2, vec![3, 4, 5, 6]);
}

#[test]
fn crossing_clamped() {
    let a1 = vec![1, 2, 3, 4];
    let b1 = vec![5, 6, 7, 8];
    let (a2, b2) = crossed(&a1, &b1, Fraction::new(1, 2), at_most(4)).unwrap();
    assert_eq!(a2, vec![3, 4, 4, 4]);
    assert_eq!(b2, vec![3, 4, 4, 4]);
}

#[test]
fn accumulate1() {
    let a = [1, 1, 1, 1];
    let a: Vec<_> = accumulated(0, &a, pass());
    assert_eq!(a, vec![1, 2, 3, 4]);
}

#[test]
fn accumulate2() {
    let a = [1, 1, 1, 1];
    let a: Vec<_> = accumulated(3, &a, pass());
    assert_eq!(a, vec![4, 5, 6, 7]);
}

#[test]
fn accumulate_clamped() {
    let a = [1, 1, 1, 1];
    let a: Vec<_> = accumulated(3, &a, at_most(6));
    assert_eq!(a, vec![4, 5, 6, 6]);
}

#[test]
fn crossing_reports_which_input_is_wrong() {
    let a = vec![1, 2, 3];
    let b = vec![4, 5];
    assert_eq!(
        crossed(&a, &b, Fraction::new(1, 2), pass()),
        Err(CrossError::LengthMismatch { left: 3, right: 2 })
    );
    // the lengths are judged before the cross point
    assert_eq!(
        crossed(&a, &b, Fraction::new(3, 2), pass()),
        Err(CrossError::LengthMismatch { left: 3, right: 2 })
    );
    let c = vec![4, 5, 6];
    assert_eq!(crossed(&a, &c, Fraction::new(3, 2), pass()), Err(CrossError::CrossPointOutOfRange));
    assert_eq!(crossed(&a, &c, Fraction::new(1, 0), pass()), Err(CrossError::CrossPointOutOfRange));
    assert_eq!(crossed(&a, &c, Fraction::new(-1, -2), pass()), Err(CrossError::CrossPointOutOfRange));
}

#[test]
fn crossing_at_the_ends_hands_the_parents_back() {
    let a = vec![-7, 0, 9];
    let b = vec![3, -2, 11];
    assert_eq!(crossed(&a, &b, Fraction::new(1, 1), pass()), Ok((a.clone(), b.clone())));
    assert_eq!(crossed(&a, &b, Fraction::new(0, 1), pass()), Ok((b.clone(), a.clone())));
}

#[test]
fn crossing_rounds_ties_away_from_zero() {
    // halfway between 1 and 2, and between -1 and -2
    assert_eq!(crossed(&[1], &[2], Fraction::new(1, 2), pass()), Ok((vec![2], vec![2])));
    assert_eq!(crossed(&[-1], &[-2], Fraction::new(1, 2), pass()), Ok((vec![-2], vec![-2])));
    // a third of the way: 1/3 * 0 + 2/3 * 10 = 6.67, 1/3 * 10 + 2/3 * 0 = 3.33
    assert_eq!(crossed(&[0], &[10], Fraction::new(1, 3), pass()), Ok((vec![7], vec![3])));
    assert_eq!(crossed(&[0], &[-10], Fraction::new(1, 3), pass()), Ok((vec![-7], vec![-3])));
}

#[test]
fn crossing_survives_the_widest_inputs() {
    let big = Fraction::new(i64::MAX - 1, i64::MAX);
    let r = crossed(&[i32::MAX, i32::MIN], &[i32::MIN, i32::MAX], big, pass()).unwrap();
    assert_eq!(r.0, vec![i32::MAX, i32::MIN]);
    assert_eq!(r.1, vec![i32::MIN, i32::MAX]);
}

#[test]
fn clamp_brings_values_into_the_range() {
    let range = GeneRange { start: -15, end: 15 };
    assert_eq!(clamp(-16, range), -15);
    assert_eq!(clamp(-15, range), -15);
    assert_eq!(clamp(3, range), 3);
    assert_eq!(clamp(15, range), 15);
    assert_eq!(clamp(400, range), 15);
    // an empty range yields its lower bound
    assert_eq!(clamp(0, GeneRange { start: 5, end: 1 }), 5);
}

#[test]
fn the_ranges_are_those_of_the_design() {
    assert_eq!(angle_range(), GeneRange { start: -90, end: 90 });
    assert_eq!(thrust_range(), GeneRange { start: 0, end: 4 });
    assert_eq!(angle_step_range(), GeneRange { start: -15, end: 15 });
    assert_eq!(thrust_step_range(), GeneRange { start: -1, end: 1 });
}

#[test]
fn accumulation_sticks_at_the_bounds() {
    // the sum is clamped at every step, not only at the end
    let deltas = [15, 15, 15, 15, 15, 15, 15, -15];
    assert_eq!(accumulated(0, &deltas, angle_range()), vec![15, 30, 45, 60, 75, 90, 90, 75]);
    let thrusts = [1, 1, 1, 1, 1, 1, -1, -1, -1, -1, -1, -1];
    assert_eq!(accumulated(0, &thrusts, thrust_range()), vec![1, 2, 3, 4, 4, 4, 3, 2, 1, 0, 0, 0]);
}

#[test]
fn accumulation_of_nothing_is_nothing() {
    assert_eq!(accumulated(7, &[], angle_range()), Vec::<i32>::new());
}

#[test]
fn accumulation_does_not_overflow() {
    assert_eq!(accumulated(i32::MAX, &[i32::MAX, i32::MIN], pass()), vec![i32::MAX, -1]);
    assert_eq!(accumulated(i32::MIN, &[i32::MIN], pass()), vec![i32::MIN]);
}

#[test]
fn fractions_know_the_unit_interval() {
    assert!(Fraction::new(0, 1).in_unit_interval());
    assert!(Fraction::new(1, 1).in_unit_interval());
    assert!(Fraction::new(1, 5).in_unit_interval());
    assert!(!Fraction::new(6, 5).in_unit_interval());
    assert!(!Fraction::new(-1, 5).in_unit_interval());
    assert!(!Fraction::new(0, 0).in_unit_interval());
    assert!(!Fraction::new(-1, -5).in_unit_interval());
}

#[test]
fn fractions_scale_by_rounding_down() {
    assert_eq!(Fraction::new(1, 5).scale(300), 60);
    assert_eq!(Fraction::new(1, 5).scale(4), 0);
    assert_eq!(Fraction::new(7, 10).scale(10), 7);
    assert_eq!(Fraction::new(1, 3).scale(10), 3);
    assert_eq!(Fraction::new(1, 1).scale(usize::MAX), usize::MAX);
    assert_eq!(Fraction::new(i64::MAX, i64::MAX).scale(usize::MAX), usize::MAX);
    assert_eq!(Fraction::new(0, 9).scale(usize::MAX), 0);
}
