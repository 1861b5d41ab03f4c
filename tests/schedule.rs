use nba_stats_api::clock::{CivilDate, EasternClock};
use nba_stats_api::schedule::{
    roster_players, schedule_response, upcoming_games, HealthResponse, RosterPlayerRow, ScheduleRow,
};

fn game(id: &str, date: &str, time: Option<&str>) -> ScheduleRow {
    ScheduleRow {
        game_id: id.to_string(),
        game_date: date.to_string(),
        game_time: time.map(|t| t.to_string()),
        game_status: None,
        home_team_id: 1,
        home_team_name: Some("Celtics".to_string()),
        home_team_abbreviation: Some("BOS".to_string()),
        home_team_city: None,
        away_team_id: 2,
        away_team_name: None,
        away_team_abbreviation: Some("LAL".to_string()),
        away_team_city: Some("Los Angeles".to_string()),
    }
}

#[test]
fn schedule_game_fills_missing_texts() {
    let g = game("001", "2025-03-01", None).to_schedule_game();
    assert_eq!(g.game_id, "001");
    assert_eq!(g.game_time, "TBD");
    assert_eq!(g.game_status, "");
    assert_eq!((g.home_team.id, g.home_team.name.as_str(), g.home_team.abbreviation.as_str(), g.home_team.city.as_str()), (1, "Celtics", "BOS", ""));
    assert_eq!((g.away_team.id, g.away_team.name.as_str(), g.away_team.city.as_str()), (2, "", "Los Angeles"));
    let timed = game("002", "2025-03-01", Some("7:30 PM ET")).to_schedule_game();
    assert_eq!(timed.game_time, "7:30 PM ET");
}

#[test]
fn roster_player_defaults_to_available() {
    let row = RosterPlayerRow { player_id: 5, player_name: "A".to_string(), position: Some("G".to_string()), injury_status: None, injury_description: None, has_props: true };
    let p = row.to_roster_player();
    assert_eq!(p.injury_status, "Available");
    assert_eq!(p.position.as_deref(), Some("G"));
    assert!(p.has_props);
    let hurt = RosterPlayerRow { injury_status: Some("Out".to_string()), ..row };
    assert_eq!(hurt.to_roster_player().injury_status, "Out");
    assert_eq!(roster_players(&vec![hurt]).len(), 1);
}

#[test]
fn schedule_response_counts_games() {
    let r = schedule_response(&vec![game("1", "2025-03-01", None), game("2", "2025-03-02", None)]);
    assert_eq!(r.count, 2);
    assert_eq!(r.games[1].game_id, "2");
}

#[test]
fn upcoming_games_drop_started_ones() {
    let now = EasternClock { date: CivilDate { year: 2025, month: 3, day: 1 }, hour: 20, minute: 0 };
    let rows = vec![
        game("early", "2025-03-01", Some("7:00 PM")),
        game("late", "2025-03-01", Some("10:30 PM")),
        game("tbd", "2025-03-01", Some("TBD")),
        game("tomorrow", "2025-03-02", Some("1:00 PM")),
    ];
    let ids: Vec<String> = upcoming_games(&rows, &now).into_iter().map(|g| g.game_id).collect();
    assert_eq!(ids, ["late", "tbd", "tomorrow"]);
}

#[test]
fn game_with_rosters_shows_both_teams() {
    let row = RosterPlayerRow { player_id: 5, player_name: "A".to_string(), position: None, injury_status: None, injury_description: None, has_props: false };
    let g = game("1", "2025-03-01", Some("7:00 PM")).with_rosters(&vec![row], &vec![]);
    assert_eq!(g.home_players.len(), 1);
    assert_eq!(g.home_players[0].injury_status, "Available");
    assert!(g.away_players.is_empty());
    assert_eq!(g.game_time, "7:00 PM");
}

#[test]
fn health_is_ok() {
    let h = HealthResponse::ok_at(1_700_000_000);
    assert_eq!(h.status, "ok");
    assert_eq!(h.timestamp, 1_700_000_000);
}
