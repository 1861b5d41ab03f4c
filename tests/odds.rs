use nba_stats_api::odds::{devigged_over_prob, implied_prob};

#[test]
fn implied_probability_of_favourite() {
    let p = implied_prob(-110);
    assert_eq!((p.num, p.den), (110, 210));
    let approx = p.num as f64 / p.den as f64;
    assert!((approx - 0.5238).abs() < 0.0001);
}

#[test]
fn implied_probability_of_underdog() {
    let p = implied_prob(150);
    assert_eq!((p.num, p.den), (100, 250));
    assert_eq!(p.num * 5, p.den * 2);
}

#[test]
fn implied_probability_strictly_between_zero_and_one() {
    for odds in [i32::MIN, -100_000, -101, -100, -1, 1, 99, 100, 101, 100_000, i32::MAX] {
        let p = implied_prob(odds);
        assert!(0 < p.num && p.num < p.den, "odds {}", odds);
    }
}

#[test]
fn symmetric_market_devigs_to_one_half() {
    let p = devigged_over_prob(Some(-110), Some(-110)).unwrap();
    assert_eq!(p.num * 2, p.den);
}

#[test]
fn even_market_devigs_to_one_half() {
    let p = devigged_over_prob(Some(100), Some(-100)).unwrap();
    assert_eq!(p.num * 2, p.den);
}

#[test]
fn missing_side_gives_no_fair_probability() {
    assert!(devigged_over_prob(None, Some(-110)).is_none());
    assert!(devigged_over_prob(Some(-110), None).is_none());
    assert!(devigged_over_prob(None, None).is_none());
}

#[test]
fn negligible_market_gives_no_fair_probability() {
    assert!(devigged_over_prob(Some(i32::MAX), Some(i32::MAX)).is_none());
    assert!(devigged_over_prob(Some(i32::MAX), Some(-110)).is_some());
}

#[test]
fn devig_removes_margin_proportionally() {
    // 130/230 over and 100/210 under: fair over = 130*210 / (130*210 + 100*230).
    let p = devigged_over_prob(Some(-130), Some(110)).unwrap();
    assert_eq!((p.num, p.den), (130 * 210, 130 * 210 + 100 * 230));
}
