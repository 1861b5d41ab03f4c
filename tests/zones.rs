use nba_stats_api::zones::{
    assist_zone_matchup, shooting_zone_matchup, PlayerAssistZones, PlayerShootingZones,
    TeamDefensiveZones,
};

fn shooting(zone: &str, fgm: u64, fga: u64, pct: i64) -> PlayerShootingZones {
    PlayerShootingZones {
        player_id: 7,
        season: "2025-26".to_string(),
        zone_name: zone.to_string(),
        fgm,
        fga,
        fg_pct: pct,
        efg_pct: pct,
        last_updated: String::new(),
    }
}

fn defense(team: i64, zone: &str, fraction: i64) -> TeamDefensiveZones {
    TeamDefensiveZones {
        team_id: team,
        season: "2025-26".to_string(),
        zone_name: zone.to_string(),
        opp_fgm: 0,
        opp_fga: 0,
        opp_fg_pct: fraction,
        opp_efg_pct: fraction,
        last_updated: String::new(),
    }
}

fn league() -> Vec<TeamDefensiveZones> {
    vec![
        defense(1, "Mid-Range", 400_000),
        defense(3, "Mid-Range", 420_000),
        defense(2, "Mid-Range", 440_000),
        defense(1, "Restricted Area", 600_000),
        defense(2, "Restricted Area", 700_000),
        defense(3, "Restricted Area", 650_000),
        defense(1, "Left Corner 3", 380_000),
        defense(2, "Left Corner 3", 360_000),
    ]
}

#[test]
fn zones_without_player_rows_are_zero_filled() {
    let player = vec![shooting("Mid-Range", 4_500_000, 10_000_000, 45_000_000), shooting("Restricted Area", 12_000_000, 20_000_000, 60_000_000)];
    let r = shooting_zone_matchup("P".to_string(), 7, "Opp".to_string(), 3, &player, &league());
    assert_eq!(r.zones.len(), 6);
    assert_eq!(r.total_fga, 30_000_000);
    let names: Vec<&str> = r.zones.iter().map(|z| z.zone_name.as_str()).collect();
    assert_eq!(names, ["Above the Break 3", "In The Paint (Non-RA)", "Left Corner 3", "Mid-Range", "Restricted Area", "Right Corner 3"]);
    let threes: Vec<bool> = r.zones.iter().map(|z| z.is_three).collect();
    assert_eq!(threes, [true, false, true, false, false, true]);
    for i in [0, 1, 2, 5] {
        let z = &r.zones[i];
        assert!(!z.has_data);
        assert_eq!((z.player_fgm, z.player_fga, z.player_fg_pct, z.player_volume_pct), (0, 0, 0, 0));
    }
}

#[test]
fn opponent_at_league_average_leaves_player_term() {
    let player = vec![shooting("Mid-Range", 4_500_000, 10_000_000, 45_000_000), shooting("Restricted Area", 12_000_000, 20_000_000, 60_000_000)];
    let r = shooting_zone_matchup("P".to_string(), 7, "Opp".to_string(), 3, &player, &league());
    let mid = &r.zones[3];
    assert!(mid.has_data);
    assert_eq!(mid.league_avg_pct, 42_000_000);
    assert_eq!(mid.opp_fg_pct, 42_000_000);
    assert_eq!(mid.advantage, 3_000_000);
    assert_eq!(mid.player_volume_pct, 33_333_333);
    assert_eq!(mid.opp_rank, 2);
    let ra = &r.zones[4];
    assert!(ra.has_data);
    assert_eq!(ra.league_avg_pct, 65_000_000);
    assert_eq!(ra.opp_fg_pct, 65_000_000);
    assert_eq!(ra.advantage, -5_000_000);
    assert_eq!(ra.player_volume_pct, 66_666_666);
    assert_eq!(ra.opp_rank, 2);
}

#[test]
fn opponent_without_zone_row_gets_middle_rank() {
    let r = shooting_zone_matchup("P".to_string(), 7, "Opp".to_string(), 3, &vec![], &league());
    let corner = &r.zones[2];
    assert_eq!(corner.opp_rank, 15);
    assert_eq!(corner.opp_fg_pct, 0);
    assert_eq!(corner.league_avg_pct, 37_000_000);
    assert_eq!(corner.advantage, -74_000_000);
    assert_eq!(r.zones[0].league_avg_pct, 0);
    assert_eq!(r.zones[0].advantage, 0);
    assert_eq!(r.total_fga, 0);
}

#[test]
fn shooting_rank_is_sort_position() {
    let rows = vec![defense(1, "Mid-Range", 420_000), defense(2, "Mid-Range", 410_000), defense(3, "Mid-Range", 420_000)];
    let r = shooting_zone_matchup("P".to_string(), 7, "Opp".to_string(), 3, &vec![], &rows);
    assert_eq!(r.zones[3].opp_rank, 3);
    let r1 = shooting_zone_matchup("P".to_string(), 7, "Opp".to_string(), 1, &vec![], &rows);
    assert_eq!(r1.zones[3].opp_rank, 2);
}

#[test]
fn advantage_unchanged_by_uniform_shift() {
    let base = shooting_zone_matchup("P".to_string(), 7, "O".to_string(), 3, &vec![shooting("Mid-Range", 1, 2, 45_000_000)], &league());
    let shifted_league: Vec<TeamDefensiveZones> = league().into_iter().map(|mut d| { d.opp_fg_pct += 10_000; d }).collect();
    let shifted = shooting_zone_matchup("P".to_string(), 7, "O".to_string(), 3, &vec![shooting("Mid-Range", 1, 2, 46_000_000)], &shifted_league);
    assert_eq!(base.zones[3].advantage, shifted.zones[3].advantage);
}

#[test]
fn other_zone_names_are_not_counted() {
    let player = vec![shooting("Mid-Range", 1, 10_000_000, 40_000_000), shooting("Backcourt", 0, 10_000_000, 0)];
    let r = shooting_zone_matchup("P".to_string(), 7, "Opp".to_string(), 3, &player, &league());
    assert_eq!(r.total_fga, 10_000_000);
    assert_eq!(r.zones[3].player_volume_pct, 100_000_000);
}

fn assists(zone: &str, n: i64) -> PlayerAssistZones {
    PlayerAssistZones { player_id: 7, season: "2025-26".to_string(), zone_name: zone.to_string(), assists: n, ast_fgm: n, ast_fga: n, last_updated: None }
}

#[test]
fn assist_matchup_shares_and_count_ranks() {
    let rows = vec![
        defense(1, "Restricted Area", 600_000),
        defense(2, "Restricted Area", 650_000),
        defense(3, "Restricted Area", 650_000),
        defense(4, "Restricted Area", 700_000),
        defense(3, "Mid-Range", 420_000),
    ];
    let player = vec![assists("Restricted Area", 10), assists("Mid-Range", 5), assists("Unknown", 5)];
    let r = assist_zone_matchup("P".to_string(), "Opp".to_string(), &player, 3, &rows);
    assert_eq!(r.total_assists, 20);
    assert_eq!(r.zones.len(), 3);
    let ra = &r.zones[0];
    assert_eq!((ra.player_assists, ra.player_ast_pct, ra.opp_def_rank, ra.opp_def_fg_pct, ra.has_data), (10, 50_000_000, 2, 650_000, true));
    let r2 = assist_zone_matchup("P".to_string(), "Opp".to_string(), &player, 2, &rows);
    assert_eq!(r2.zones[0].opp_def_rank, 2);
    let mid = &r.zones[1];
    assert_eq!((mid.player_ast_pct, mid.opp_def_rank, mid.has_data), (25_000_000, 1, true));
    let unknown = &r.zones[2];
    assert_eq!((unknown.player_ast_pct, unknown.opp_def_rank, unknown.opp_def_fg_pct, unknown.has_data), (25_000_000, 0, 0, false));
}

#[test]
fn assist_matchup_without_assists() {
    let r = assist_zone_matchup("P".to_string(), "Opp".to_string(), &vec![assists("Mid-Range", 0)], 3, &league());
    assert_eq!(r.total_assists, 0);
    assert_eq!(r.zones[0].player_ast_pct, 0);
    assert_eq!(r.player_name, "P");
    assert_eq!(r.opponent_name, "Opp");
}
