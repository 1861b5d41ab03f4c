use nba_stats_api::props::{combine_prop_lines, player_props_response, team_id_by_full_name, UnderdogProp};
use nba_stats_api::schedule::Team;

fn prop(stat: &str, value: i64, choice: &str, price: Option<i64>) -> UnderdogProp {
    UnderdogProp {
        id: 1,
        full_name: "Luka Doncic".to_string(),
        team_name: Some("Dallas Mavericks".to_string()),
        opponent_name: Some("Boston Celtics".to_string()),
        stat_name: stat.to_string(),
        stat_value: value,
        choice: choice.to_string(),
        american_price: price,
        decimal_price: None,
        scheduled_at: Some("2025-03-01T19:30:00".to_string()),
    }
}

fn team(id: i64, full_name: &str) -> Team {
    Team { team_id: id, name: String::new(), full_name: full_name.to_string(), abbreviation: String::new(), city: String::new(), state: None, year_founded: None, last_updated: None }
}

#[test]
fn over_and_under_combine_per_stat() {
    let props = vec![
        prop("assists", 8_500_000, "over", Some(-115)),
        prop("points", 30_500_000, "under", Some(-105)),
        prop("assists", 9_500_000, "under", Some(-110)),
        prop("points", 31_500_000, "over", Some(-120)),
    ];
    let lines = combine_prop_lines(&props);
    assert_eq!(lines.len(), 2);
    assert_eq!((lines[0].stat_name.as_str(), lines[0].line, lines[0].over_odds, lines[0].under_odds), ("assists", 8_500_000, Some(-115), Some(-110)));
    assert_eq!((lines[1].stat_name.as_str(), lines[1].line, lines[1].over_odds, lines[1].under_odds), ("points", 30_500_000, Some(-120), Some(-105)));
    assert_eq!(lines[0].opponent.as_deref(), Some("Boston Celtics"));
}

#[test]
fn lines_follow_stat_importance() {
    let props = vec![
        prop("double_doubles", 500_000, "over", Some(200)),
        prop("turnovers", 3_500_000, "over", Some(-110)),
        prop("assists", 8_500_000, "over", Some(-115)),
        prop("points", 30_500_000, "over", Some(-120)),
        prop("rebounds", 9_500_000, "over", Some(-110)),
    ];
    let r = player_props_response(&props, &vec![team(1610612738, "Boston Celtics")], String::new());
    let order: Vec<&str> = r.props.iter().map(|l| l.stat_name.as_str()).collect();
    assert_eq!(order, ["points", "rebounds", "assists", "turnovers", "double_doubles"]);
    assert_eq!(r.player_name, "Luka Doncic");
    assert_eq!(r.opponent_id, Some(1610612738));
    assert_eq!(r.opponent_name.as_deref(), Some("Boston Celtics"));
}

#[test]
fn later_price_on_a_side_wins() {
    let props = vec![prop("points", 30_500_000, "over", Some(-120)), prop("points", 30_500_000, "over", Some(-125)), prop("points", 30_500_000, "other", Some(500))];
    let lines = combine_prop_lines(&props);
    assert_eq!(lines[0].over_odds, Some(-125));
    assert_eq!(lines[0].under_odds, None);
}

#[test]
fn no_lines_keeps_given_name() {
    let r = player_props_response(&vec![], &vec![], "Someone".to_string());
    assert_eq!(r.player_name, "Someone");
    assert!(r.props.is_empty());
    assert_eq!(r.opponent_id, None);
}

#[test]
fn unknown_opponent_has_no_id() {
    let teams = vec![team(1, "Dallas Mavericks"), team(2, "Boston Celtics"), team(3, "Boston Celtics")];
    assert_eq!(team_id_by_full_name(&teams, &"Boston Celtics".to_string()), Some(2));
    assert_eq!(team_id_by_full_name(&teams, &"Miami Heat".to_string()), None);
}
