use nba_stats_api::play_types::{play_type_matchup, rank_play_types, PlayerPlayTypes, TeamDefensivePlayTypes};

fn defense(team: i64, play_type: &str, ppp: i64) -> TeamDefensivePlayTypes {
    TeamDefensivePlayTypes {
        team_id: team,
        season: "2025-26".to_string(),
        play_type: play_type.to_string(),
        poss_pct: 0,
        possessions: 0,
        poss_per_game: 0,
        ppp,
        fg_pct: 0,
        efg_pct: 0,
        points: 0,
        points_per_game: 0,
        games_played: 0,
        last_updated: String::new(),
    }
}

fn offense(play_type: &str, ppg: i64, pct: i64) -> PlayerPlayTypes {
    PlayerPlayTypes {
        player_id: 7,
        season: "2025-26".to_string(),
        play_type: play_type.to_string(),
        points: 0,
        points_per_game: ppg,
        possessions: 0,
        poss_per_game: 0,
        ppp: 0,
        fg_pct: 0,
        pct_of_total_points: pct,
        games_played: 0,
        last_updated: String::new(),
    }
}

#[test]
fn thirty_teams_rank_one_to_thirty() {
    // Distinct values given in scrambled order.
    let rows: Vec<TeamDefensivePlayTypes> = (0..30).map(|t| defense(t, "Isolation", 800_000 + ((t * 7) % 30) * 10_000)).collect();
    let ranks = rank_play_types(&rows);
    let mut seen: Vec<i32> = ranks.iter().map(|r| r.rank).collect();
    seen.sort();
    assert_eq!(seen, (1..=30).collect::<Vec<i32>>());
    for (r, d) in ranks.iter().zip(rows.iter()) {
        assert_eq!(r.team_id, d.team_id);
        assert_eq!(r.rank as i64, 1 + (d.ppp - 800_000) / 10_000);
    }
}

#[test]
fn ranks_restart_for_each_play_type() {
    let rows = vec![
        defense(1, "Isolation", 900_000),
        defense(1, "Spot Up", 1_000_000),
        defense(2, "Isolation", 850_000),
        defense(2, "Spot Up", 950_000),
        defense(3, "Isolation", 950_000),
    ];
    let ranks: Vec<i32> = rank_play_types(&rows).iter().map(|r| r.rank).collect();
    assert_eq!(ranks, [2, 2, 1, 1, 3]);
}

#[test]
fn tied_values_take_sequential_positions() {
    let rows = vec![defense(1, "Isolation", 900_000), defense(2, "Isolation", 900_000), defense(3, "Isolation", 950_000)];
    let ranks: Vec<i32> = rank_play_types(&rows).iter().map(|r| r.rank).collect();
    assert_eq!(ranks, [1, 2, 3]);
}

#[test]
fn matchup_keeps_covered_play_types_by_points() {
    let league = vec![
        defense(1, "Isolation", 900_000),
        defense(3, "Isolation", 950_000),
        defense(3, "Spot Up", 1_000_000),
        defense(1, "Spot Up", 1_100_000),
        defense(1, "Transition", 1_200_000),
    ];
    let player = vec![offense("Isolation", 5_000_000, 20_000_000), offense("Transition", 9_000_000, 30_000_000), offense("Spot Up", 7_000_000, 25_000_000)];
    let r = play_type_matchup("P".to_string(), "Opp".to_string(), &player, 3, &league);
    assert_eq!(r.player_name, "P");
    assert_eq!(r.opponent_name, "Opp");
    assert_eq!(r.matchups.len(), 2);
    let m0 = &r.matchups[0];
    assert_eq!((m0.play_type.as_str(), m0.player_ppg, m0.pct_of_total, m0.opp_ppp, m0.opp_rank), ("Spot Up", 7_000_000, 25_000_000, 1_000_000, 1));
    let m1 = &r.matchups[1];
    assert_eq!((m1.play_type.as_str(), m1.player_ppg, m1.opp_ppp, m1.opp_rank), ("Isolation", 5_000_000, 950_000, 2));
}

#[test]
fn matchup_without_opponent_data_is_empty() {
    let player = vec![offense("Isolation", 5_000_000, 20_000_000)];
    let r = play_type_matchup("P".to_string(), "Opp".to_string(), &player, 9, &vec![defense(1, "Isolation", 900_000)]);
    assert!(r.matchups.is_empty());
}
