use nba_stats_api::context::{
    dominant_zones, matchup_stat, rebound_ranks, upcoming_matchup_context, MatchupStat,
    ReboundRanks, TeamReboundStats, TeamStats,
};
use nba_stats_api::play_types::{PlayerPlayTypes, TeamDefensivePlayTypes};
use nba_stats_api::zones::{AssistZoneMatchup, AssistZoneMatchupResponse, ShootingZoneMatchup, ShootingZoneMatchupResponse};

fn zone(name: &str, fga: u64, rank: i32, has_data: bool) -> ShootingZoneMatchup {
    ShootingZoneMatchup { zone_name: name.to_string(), player_fgm: 0, player_fga: fga, player_fg_pct: 0, player_volume_pct: 0, opp_fg_pct: 0, opp_rank: rank, league_avg_pct: 0, advantage: 0, is_three: false, has_data }
}

fn offense(play_type: &str, pct: i64) -> PlayerPlayTypes {
    PlayerPlayTypes { player_id: 7, season: String::new(), play_type: play_type.to_string(), points: 0, points_per_game: 0, possessions: 0, poss_per_game: 0, ppp: 0, fg_pct: 0, pct_of_total_points: pct, games_played: 0, last_updated: String::new() }
}

fn defense(team: i64, play_type: &str, ppp: i64) -> TeamDefensivePlayTypes {
    TeamDefensivePlayTypes { team_id: team, season: String::new(), play_type: play_type.to_string(), poss_pct: 0, possessions: 0, poss_per_game: 0, ppp, fg_pct: 0, efg_pct: 0, points: 0, points_per_game: 0, games_played: 0, last_updated: String::new() }
}

fn rebounds(team: i64, reb: i64, oreb: i64, dreb: i64) -> TeamReboundStats {
    TeamReboundStats { team_id: team, reb_allowed: reb, oreb_allowed: oreb, dreb_allowed: dreb }
}

fn stats() -> Option<TeamStats> {
    Some(TeamStats { team_id: 3, season: "2025-26".to_string(), pace: Some(99_500_000), off_rating: None, def_rating: Some(110_200_000), net_rating: None, games_played: None, wins: None, losses: None })
}

#[test]
fn stat_types_are_recognised() {
    assert_eq!(matchup_stat("points"), MatchupStat::Points);
    assert_eq!(matchup_stat("assists"), MatchupStat::Assists);
    assert_eq!(matchup_stat("rebounds"), MatchupStat::Rebounds);
    assert_eq!(matchup_stat("steals"), MatchupStat::Other);
}

#[test]
fn dominant_zones_by_volume_with_data() {
    let zones = vec![zone("A", 5, 1, true), zone("B", 9, 2, false), zone("C", 7, 3, true), zone("D", 0, 4, true), zone("E", 6, 5, true)];
    let names: Vec<String> = dominant_zones(&zones).into_iter().map(|z| z.zone_name).collect();
    assert_eq!(names, ["C", "E"]);
}

#[test]
fn rebound_ranks_ascending() {
    let rows = vec![rebounds(1, 40_000_000, 10_000_000, 30_000_000), rebounds(2, 42_000_000, 9_000_000, 33_000_000), rebounds(3, 44_000_000, 11_000_000, 29_000_000)];
    assert_eq!(rebound_ranks(&rows, 2), Some(ReboundRanks { reb_allowed: 42_000_000, oreb_allowed: 9_000_000, dreb_allowed: 33_000_000, reb_rank: 2, oreb_rank: 1, dreb_rank: 3 }));
    assert_eq!(rebound_ranks(&rows, 9), None);
}

#[test]
fn points_context_uses_zones_and_play_types() {
    let shooting = Some(ShootingZoneMatchupResponse { player_name: String::new(), player_id: 7, opponent_name: String::new(), opponent_id: 3, total_fga: 0, zones: vec![zone("Mid-Range", 8, 12, true), zone("Restricted Area", 10, 4, true)] });
    let league = vec![defense(1, "Isolation", 900_000), defense(3, "Isolation", 950_000), defense(3, "Spot Up", 1_000_000)];
    let players = vec![offense("Isolation", 20_000_000), offense("Spot Up", 30_000_000), offense("Transition", 40_000_000)];
    let r = upcoming_matchup_context("Opp".to_string(), "points".to_string(), &stats(), &shooting, &players, 3, &league, &None, None, &vec![]);
    assert_eq!((r.def_rtg, r.pace), (Some(110_200_000), Some(99_500_000)));
    assert_eq!((r.dsz_name.as_deref(), r.dsz_rank), (Some("Restricted Area"), Some(4)));
    assert_eq!((r.dsz2_name.as_deref(), r.dsz2_rank), (Some("Mid-Range"), Some(12)));
    assert_eq!((r.dpt_name.as_deref(), r.dpt_rank), (Some("Spot Up"), Some(1)));
    assert_eq!((r.dpt2_name.as_deref(), r.dpt2_rank), (Some("Isolation"), Some(2)));
    assert_eq!(r.daz_name, None);
    assert_eq!(r.rebounds_allowed, None);
}

#[test]
fn assists_context_uses_first_assist_zones() {
    let assist = Some(AssistZoneMatchupResponse { player_name: String::new(), opponent_name: String::new(), total_assists: 3, zones: vec![AssistZoneMatchup { zone_name: "Restricted Area".to_string(), player_assists: 3, player_ast_pct: 100_000_000, opp_def_rank: 7, opp_def_fg_pct: 0, has_data: true }] });
    let r = upcoming_matchup_context("Opp".to_string(), "assists".to_string(), &None, &None, &vec![], 3, &vec![], &assist, Some(24_500_000), &vec![]);
    assert_eq!((r.daz_name.as_deref(), r.daz_rank), (Some("Restricted Area"), Some(7)));
    assert_eq!((r.daz2_name, r.daz2_rank), (None, None));
    assert_eq!(r.assists_allowed, Some(24_500_000));
    assert_eq!((r.def_rtg, r.dsz_name), (None, None));
}

#[test]
fn rebounds_context_names_the_ranks() {
    let rows = vec![rebounds(1, 40_000_000, 10_000_000, 30_000_000), rebounds(3, 44_000_000, 11_000_000, 29_000_000)];
    let r = upcoming_matchup_context("Opp".to_string(), "rebounds".to_string(), &None, &None, &vec![], 3, &vec![], &None, None, &rows);
    assert_eq!((r.dsz_name.as_deref(), r.dsz_rank), (Some("Total Reb"), Some(2)));
    assert_eq!((r.dsz2_name.as_deref(), r.dsz2_rank), (Some("OREB"), Some(2)));
    assert_eq!((r.dpt_name.as_deref(), r.dpt_rank), (Some("DREB"), Some(1)));
    assert_eq!(r.rebounds_allowed, Some(44_000_000));
}

#[test]
fn other_stats_have_no_context() {
    let r = upcoming_matchup_context("Opp".to_string(), "steals".to_string(), &stats(), &None, &vec![offense("Isolation", 1)], 3, &vec![defense(3, "Isolation", 1)], &None, Some(1), &vec![rebounds(3, 1, 1, 1)]);
    assert_eq!((r.dsz_name, r.dpt_name, r.daz_name, r.assists_allowed, r.rebounds_allowed), (None, None, None, None, None));
    assert_eq!(r.stat_type, "steals");
}
