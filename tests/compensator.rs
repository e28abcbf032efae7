use picool::compensator::Compensator;

/// Degrees Celsius in thousandths of a degree.
fn m(degrees: f64) -> i32 {
    (degrees * 1000.0).round() as i32
}

/// Degrees Celsius in thousandths of a degree, as a threshold or compensation.
fn m64(degrees: f64) -> i64 {
    m(degrees) as i64
}

#[test]
fn compensate_default() {
    let compensator = Compensator::new(m(40.0), m(0.0), m(-3.0));
    assert_eq!(m64(0.0), compensator.get_compensation());
}

#[test]
fn heat_compensate_one_exact_measure() {
    let mut compensator = Compensator::new(m(40.0), m(0.0), m(-3.0));
    compensator.push_observation(m(40.0));
    assert_eq!(m64(0.0), compensator.get_compensation());
    assert_eq!(m64(40.0), compensator.get_threshold());
}

#[test]
fn heat_compensate_one_high_measure() {
    let mut compensator = Compensator::new(m(40.0), m(0.0), m(-3.0));
    compensator.push_observation(m(41.0));
    assert_eq!(m64(-1.0), compensator.get_compensation());
    assert_eq!(m64(39.0), compensator.get_threshold());
}

#[test]
fn heat_compensate_two_high_measure() {
    let mut compensator = Compensator::new(m(40.0), m(0.0), m(-3.0));
    compensator.push_observation(m(42.0));
    assert_eq!(m64(-2.0), compensator.get_compensation());
    assert_eq!(m64(38.0), compensator.get_threshold());
    compensator.push_observation(m(40.0));
    assert_eq!(m64(-2.0), compensator.get_compensation());
    assert_eq!(m64(38.0), compensator.get_threshold());
}

#[test]
fn heat_compensate_one_high_measure_capped() {
    let mut compensator = Compensator::new(m(40.0), m(0.0), m(-0.5));
    compensator.push_observation(m(41.0));
    assert_eq!(m64(-0.5), compensator.get_compensation());
    assert_eq!(m64(39.5), compensator.get_threshold());
    assert_eq!(true, compensator.is_capped());
}

#[test]
fn heat_compensate_one_inverted_measure() {
    let mut compensator = Compensator::new(m(40.0), m(0.0), m(-0.5));
    compensator.push_observation(m(39.5));
    assert_eq!(m64(0.0), compensator.get_compensation());
    assert_eq!(m64(40.0), compensator.get_threshold());
    assert_eq!(false, compensator.is_capped());
}

#[test]
fn heat_compensate_one_high_measure_adjust() {
    let mut compensator = Compensator::new(m(40.0), m(-1.0), m(-3.0));
    compensator.push_observation(m(40.5));
    assert_eq!(m64(-1.5), compensator.get_compensation());
    assert_eq!(m64(38.5), compensator.get_threshold());
}

#[test]
fn heat_compensate_one_low_measure_adjust() {
    let mut compensator = Compensator::new(m(40.0), m(-3.0), m(-3.0));
    compensator.push_observation(m(39.0));
    assert_eq!(m64(-2.0), compensator.get_compensation());
    assert_eq!(m64(38.0), compensator.get_threshold());
}

#[test]
fn cool_compensate_one_low_measure() {
    let mut compensator = Compensator::new(m(33.0), m(0.0), m(3.0));
    compensator.push_observation(m(32.0));
    assert_eq!(m64(1.0), compensator.get_compensation());
    assert_eq!(m64(34.0), compensator.get_threshold());
}

#[test]
fn cool_compensate_two_low_measure() {
    let mut compensator = Compensator::new(m(33.0), m(0.0), m(3.0));
    compensator.push_observation(m(32.0));
    assert_eq!(m64(1.0), compensator.get_compensation());
    assert_eq!(m64(34.0), compensator.get_threshold());
    compensator.push_observation(m(33.0));
    assert_eq!(m64(1.0), compensator.get_compensation());
    assert_eq!(m64(34.0), compensator.get_threshold());
}

#[test]
fn cool_compensate_five_low_measure_adjust() {
    let mut compensator = Compensator::new(m(33.0), m(0.0), m(3.0));
    // A swing of one degree to start with.
    compensator.push_observation(m(32.0));
    assert_eq!(m64(1.0), compensator.get_compensation());
    assert_eq!(m64(34.0), compensator.get_threshold());
    compensator.push_observation(m(33.0));
    assert_eq!(m64(1.0), compensator.get_compensation());
    assert_eq!(m64(34.0), compensator.get_threshold());
    // The swing grows to one and a half degrees.
    compensator.push_observation(m(32.5));
    assert_eq!(m64(1.0), compensator.get_compensation());
    assert_eq!(m64(34.0), compensator.get_threshold());
    compensator.push_observation(m(32.5));
    assert_eq!(m64(1.25), compensator.get_compensation());
    assert_eq!(m64(34.25), compensator.get_threshold());
    compensator.push_observation(m(32.75));
    assert_eq!(m64(1.5), compensator.get_compensation());
    assert_eq!(m64(34.5), compensator.get_threshold());
}

#[test]
fn cool_compensate_one_low_measure_capped() {
    let mut compensator = Compensator::new(m(33.0), m(0.0), m(0.5));
    compensator.push_observation(m(32.0));
    assert_eq!(m64(0.5), compensator.get_compensation());
    assert_eq!(m64(33.5), compensator.get_threshold());
    assert_eq!(true, compensator.is_capped());
}

#[test]
fn cool_compensate_one_inverted_measure() {
    let mut compensator = Compensator::new(m(33.0), m(0.0), m(0.5));
    compensator.push_observation(m(33.5));
    assert_eq!(m64(0.0), compensator.get_compensation());
    assert_eq!(m64(33.0), compensator.get_threshold());
    assert_eq!(false, compensator.is_capped());
}

#[test]
fn cool_compensate_one_high_measure_adjust() {
    let mut compensator = Compensator::new(m(33.0), m(3.0), m(3.0));
    compensator.push_observation(m(33.5));
    assert_eq!(m64(2.5), compensator.get_compensation());
    assert_eq!(m64(35.5), compensator.get_threshold());
}

#[test]
fn seeded_beyond_cap_is_capped() {
    let compensator = Compensator::new(m(33.0), m(5.0), m(3.0));
    assert!(compensator.is_capped());
    assert_eq!(m64(3.0), compensator.get_compensation());
    assert_eq!(m64(36.0), compensator.get_threshold());
}

#[test]
fn seeded_with_wrong_sign_is_zeroed() {
    let compensator = Compensator::new(m(40.0), m(1.0), m(-3.0));
    assert!(!compensator.is_capped());
    assert_eq!(0, compensator.get_compensation());
    assert_eq!(m64(40.0), compensator.get_threshold());
}

#[test]
fn small_change_is_ignored() {
    // A median within a hundredth of a degree of the compensation leaves it alone.
    let mut compensator = Compensator::new(0, 1000, 3000);
    compensator.push_observation(-10);
    assert_eq!(1000, compensator.get_compensation());
    let mut compensator = Compensator::new(0, 1000, 3000);
    compensator.push_observation(-11);
    assert_eq!(1011, compensator.get_compensation());
}

#[test]
fn even_median_rounds_down() {
    let mut compensator = Compensator::new(0, 0, 3000);
    compensator.push_observation(-1000);
    assert_eq!(1000, compensator.get_compensation());
    // Deltas 1000 and 1031: their mean 1015.5 is rounded down.
    compensator.push_observation(-31);
    assert_eq!(1015, compensator.get_compensation());
}

#[test]
fn oldest_observation_is_evicted() {
    let mut compensator = Compensator::new(0, 0, 100_000);
    let mut value: i32 = -1000;
    for _ in 0..10 {
        compensator.push_observation(value);
        value -= 1000;
    }
    assert_eq!(10_000, compensator.get_compensation());
    // Deltas 1000, 3000, ..., 19000 are held; the eleventh pushes out the first.
    compensator.push_observation(-11_000);
    assert_eq!(12_000, compensator.get_compensation());
    compensator.push_observation(-12_000);
    assert_eq!(14_000, compensator.get_compensation());
}

#[test]
fn compensation_never_leaves_cap_range() {
    let mut cooling = Compensator::new(m(1.3), 0, m(1.6));
    let mut heating = Compensator::new(m(4.4), 0, m(-1.6));
    let readings = [-20_000, 30_000, 500, 9_000, -7_000, 1_300, 4_400, 100_000, -100_000, 0];
    for r in readings {
        cooling.push_observation(r);
        heating.push_observation(r);
        let c = cooling.get_compensation();
        let h = heating.get_compensation();
        assert!(0 <= c && c <= m64(1.6));
        assert!(-m64(1.6) <= h && h <= 0);
    }
}
