use nba_stats_api::queries::{
    default_limit, is_dnp_stat_column, opponent_team_id, GameLogsQuery, ListPlayersQuery,
    ScheduleQuery, ScheduleSelection, ScreenerQuery,
};

#[test]
fn game_log_limit_defaults_and_caps() {
    assert_eq!(default_limit(), 20);
    assert_eq!(GameLogsQuery { limit: 100, stat_category: None }.capped_limit(), 82);
    assert_eq!(GameLogsQuery { limit: 10, stat_category: None }.capped_limit(), 10);
}

#[test]
fn stat_column_defaults_to_points() {
    assert_eq!(GameLogsQuery { limit: 20, stat_category: None }.stat_column(), "points");
    assert_eq!(GameLogsQuery { limit: 20, stat_category: Some("assists".to_string()) }.stat_column(), "assists");
}

#[test]
fn only_known_stat_columns_are_accepted() {
    assert!(is_dnp_stat_column("points"));
    assert!(is_dnp_stat_column("steals_plus_blocks"));
    assert!(!is_dnp_stat_column("points; DROP TABLE player_stats"));
    assert!(!is_dnp_stat_column(""));
}

#[test]
fn player_list_window() {
    assert_eq!(ListPlayersQuery { limit: None, offset: None }.window(50), (0, 50));
    assert_eq!(ListPlayersQuery { limit: Some(10), offset: Some(5) }.window(50), (5, 15));
    assert_eq!(ListPlayersQuery { limit: Some(10), offset: Some(45) }.window(50), (45, 50));
    assert_eq!(ListPlayersQuery { limit: None, offset: Some(60) }.window(50), (50, 50));
    assert_eq!(ListPlayersQuery { limit: Some(-3), offset: Some(-2) }.window(50), (0, 0));
}

#[test]
fn opponent_is_the_other_team() {
    assert_eq!(opponent_team_id(Some(1), Some((1, 2))), Some(2));
    assert_eq!(opponent_team_id(Some(2), Some((1, 2))), Some(1));
    assert_eq!(opponent_team_id(None, Some((1, 2))), None);
    assert_eq!(opponent_team_id(Some(1), None), None);
}

#[test]
fn schedule_selection_prefers_date() {
    let q = ScheduleQuery { date: Some("2025-03-01".to_string()), team: Some("BOS".to_string()) };
    assert_eq!(q.selection(), ScheduleSelection::ByDate("2025-03-01".to_string()));
    let q = ScheduleQuery { date: None, team: Some("BOS".to_string()) };
    assert_eq!(q.selection(), ScheduleSelection::ByTeam("BOS".to_string()));
    assert_eq!(ScheduleQuery { date: None, team: None }.selection(), ScheduleSelection::Today);
}

#[test]
fn screener_date_defaults_to_today() {
    assert_eq!(ScreenerQuery { game_date: None }.date_or("2025-03-01".to_string()), "2025-03-01");
    assert_eq!(ScreenerQuery { game_date: Some("2025-03-02".to_string()) }.date_or("2025-03-01".to_string()), "2025-03-02");
}
