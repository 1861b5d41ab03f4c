use nba_stats_api::clock::{
    clock_from_groups, has_game_started, has_game_started_on, parse_game_time, CivilDate,
    EasternClock,
};

fn clock(year: i32, month: u32, day: u32, hour: u32, minute: u32) -> EasternClock {
    EasternClock { date: CivilDate { year, month, day }, hour, minute }
}

#[test]
fn unix_time_converts_to_eastern_standard_time() {
    // 2024-01-15 12:00 UTC is 07:00 EST.
    let c = EasternClock::at_unix_seconds(1_705_320_000).unwrap();
    assert_eq!(c, clock(2024, 1, 15, 7, 0));
}

#[test]
fn unix_time_converts_to_eastern_daylight_time() {
    // 2024-07-04 02:30 UTC is 22:30 EDT on July 3.
    let c = EasternClock::at_unix_seconds(1_720_060_200).unwrap();
    assert_eq!(c, clock(2024, 7, 3, 22, 30));
}

#[test]
fn far_timestamps_have_no_clock() {
    assert!(EasternClock::at_unix_seconds(i64::MAX).is_none());
    assert!(EasternClock::at_unix_seconds(i64::MIN).is_none());
    assert!(EasternClock::at_unix_seconds(1_000_000_000_000).is_some());
}

#[test]
fn past_dated_game_has_started() {
    let now = clock(2025, 3, 1, 9, 0);
    assert!(has_game_started("2020-01-01", &None, &now));
    assert!(has_game_started("2020-01-01", &Some("TBD".to_string()), &now));
    assert!(has_game_started("2020-01-01", &Some("11:59 PM".to_string()), &now));
    assert!(has_game_started_on(Some(CivilDate { year: 2020, month: 1, day: 1 }), &None, &now));
}

#[test]
fn future_dated_game_has_not_started() {
    let now = clock(2025, 3, 1, 23, 59);
    assert!(!has_game_started("2025-03-02", &Some("1:00 AM".to_string()), &now));
    assert!(!has_game_started("2099-12-31", &None, &now));
}

#[test]
fn unparseable_date_counts_as_not_started() {
    let now = clock(2025, 3, 1, 23, 59);
    assert!(!has_game_started("yesterday", &None, &now));
    assert!(!has_game_started("2025-02-30", &None, &now));
}

#[test]
fn placeholder_times_today_have_not_started() {
    let now = clock(2025, 3, 1, 23, 59);
    for t in ["TBD", "Scheduled", "12:00 AM"] {
        assert!(!has_game_started("2025-03-01", &Some(t.to_string()), &now));
    }
    assert!(!has_game_started("2025-03-01", &None, &now));
}

#[test]
fn late_game_today_starts_at_its_time() {
    let t = Some("11:59 PM".to_string());
    assert!(!has_game_started("2025-03-01", &t, &clock(2025, 3, 1, 23, 58)));
    assert!(!has_game_started("2025-03-01", &t, &clock(2025, 3, 1, 12, 0)));
    assert!(has_game_started("2025-03-01", &t, &clock(2025, 3, 1, 23, 59)));
}

#[test]
fn evening_game_with_zone_suffix() {
    let t = Some("7:30 pm ET".to_string());
    assert!(!has_game_started("2025-03-01", &t, &clock(2025, 3, 1, 19, 29)));
    assert!(has_game_started("2025-03-01", &t, &clock(2025, 3, 1, 19, 30)));
    assert!(has_game_started("2025-03-01", &t, &clock(2025, 3, 1, 20, 0)));
}

#[test]
fn unmatched_time_today_has_not_started() {
    let t = Some("tip-off soon".to_string());
    assert!(!has_game_started("2025-03-01", &t, &clock(2025, 3, 1, 23, 59)));
}

#[test]
fn game_times_read_on_the_24_hour_clock() {
    assert_eq!(parse_game_time("7:30 PM"), Some((19, 30)));
    assert_eq!(parse_game_time("7:30 pm ET"), Some((19, 30)));
    assert_eq!(parse_game_time("10:00 AM EST"), Some((10, 0)));
    assert_eq!(parse_game_time("12:15 AM"), Some((0, 15)));
    assert_eq!(parse_game_time("12:30 PM EDT"), Some((12, 30)));
    assert_eq!(parse_game_time("  9:05PM  "), Some((21, 5)));
    assert_eq!(parse_game_time("TBD"), None);
    assert_eq!(parse_game_time("7 PM"), None);
}

#[test]
fn capture_groups_read_as_clock() {
    let g = |h: &str, m: &str, x: &str| Some(vec![h.to_string(), m.to_string(), x.to_string()]);
    assert_eq!(clock_from_groups(g("7", "30", "PM")), Some((19, 30)));
    assert_eq!(clock_from_groups(g("12", "00", "am")), Some((0, 0)));
    assert_eq!(clock_from_groups(g("12", "45", "pm")), Some((12, 45)));
    assert_eq!(clock_from_groups(g("11", "05", "AM")), Some((11, 5)));
    assert_eq!(clock_from_groups(g("٧", "30", "PM")), None);
    assert_eq!(clock_from_groups(g("7", "30", "Pm")), None);
    assert_eq!(clock_from_groups(Some(vec!["7".to_string()])), None);
    assert_eq!(clock_from_groups(None), None);
}
