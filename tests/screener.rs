use nba_stats_api::clock::{CivilDate, EasternClock};
use nba_stats_api::screener::{pick_for_group, top_picks, top_picks_up_to, SharpBookLine, TopPickRow};

fn now() -> EasternClock {
    EasternClock { date: CivilDate { year: 2025, month: 3, day: 1 }, hour: 12, minute: 0 }
}

fn row(player: &str, stat: &str, book: &str, over: i32, under: i32) -> TopPickRow {
    TopPickRow {
        player_name: player.to_string(),
        stat_type: stat.to_string(),
        ud_line: 24_500_000,
        ud_odds: Some(-110),
        sportsbook: book.to_string(),
        book_line: 24_500_000,
        over_odds: Some(over),
        under_odds: Some(under),
        home_team: "BOS".to_string(),
        away_team: "LAL".to_string(),
        game_date: "2025-03-01".to_string(),
        game_time: Some("7:30 PM".to_string()),
    }
}

#[test]
fn larger_absolute_edge_ranks_first() {
    // Over edge of about +0.019 for A, under edge of about -0.093 for B.
    let rows = vec![row("A", "points", "pinnacle", -130, 110), row("B", "points", "pinnacle", 120, -150)];
    let picks = top_picks(&rows, &now());
    assert_eq!(picks.len(), 2);
    assert_eq!(picks[0].player_name, "B");
    assert_eq!(picks[0].direction, "UNDER");
    assert_eq!(picks[0].edge_pct, 93);
    assert_eq!(picks[0].ud_implied_prob, 476);
    assert_eq!(picks[0].best_book_devigged_prob, 569);
    assert_eq!(picks[1].player_name, "A");
    assert_eq!(picks[1].direction, "OVER");
    assert_eq!(picks[1].edge_pct, 19);
    assert_eq!(picks[1].ud_implied_prob, 524);
    assert_eq!(picks[1].best_book_devigged_prob, 543);
}

#[test]
fn negligible_edge_drops_the_group() {
    // A fair over of 0.5 against a reference of 101/201: |edge| is about 0.0025.
    let mut r = row("C", "rebounds", "pinnacle", -110, -110);
    r.ud_odds = Some(-101);
    let picks = top_picks(&vec![r, row("A", "points", "pinnacle", -130, 110)], &now());
    assert_eq!(picks.len(), 1);
    assert_eq!(picks[0].player_name, "A");
}

#[test]
fn best_book_per_group_keeps_all_lines() {
    let mut off_line = row("A", "points", "draftkings", 150, -190);
    off_line.book_line = 25_500_000;
    let rows = vec![
        row("A", "points", "fanduel", -125, 105),
        off_line,
        row("A", "points", "pinnacle", -130, 110),
        row("A", "points", "circa", -128, 108),
    ];
    let picks = top_picks(&rows, &now());
    assert_eq!(picks.len(), 1);
    let p = &picks[0];
    assert_eq!(p.best_book, "pinnacle");
    assert_eq!(p.edge_pct, 19);
    assert_eq!(p.books.len(), 4);
    assert_eq!(p.books[1].sportsbook, "draftkings");
    assert_eq!(p.books[1].line, 25_500_000);
}

#[test]
fn equal_edges_keep_the_first_book() {
    let rows = vec![row("A", "points", "first", -130, 110), row("A", "points", "second", -130, 110)];
    let picks = top_picks(&rows, &now());
    assert_eq!(picks[0].best_book, "first");
}

#[test]
fn line_tolerance_is_one_hundredth() {
    let mut close = row("A", "points", "close", -130, 110);
    close.book_line = 24_509_999;
    let mut far = row("B", "points", "far", -130, 110);
    far.book_line = 24_510_000;
    let picks = top_picks(&vec![close, far], &now());
    assert_eq!(picks.len(), 1);
    assert_eq!(picks[0].player_name, "A");
}

#[test]
fn started_games_are_screened_out() {
    let mut early = row("A", "points", "pinnacle", -130, 110);
    early.game_time = Some("11:00 AM".to_string());
    let mut yesterday = row("B", "points", "pinnacle", 120, -150);
    yesterday.game_date = "2025-02-28".to_string();
    let late = row("C", "points", "pinnacle", 125, -155);
    let picks = top_picks(&vec![early, yesterday, late], &now());
    assert_eq!(picks.len(), 1);
    assert_eq!(picks[0].player_name, "C");
}

#[test]
fn missing_reference_odds_default_to_minus_110() {
    let mut r = row("A", "points", "pinnacle", -130, 110);
    r.ud_odds = None;
    let picks = top_picks(&vec![r], &now());
    assert_eq!(picks[0].edge_pct, 19);
    assert_eq!(picks[0].ud_odds, None);
}

#[test]
fn no_matching_book_or_missing_odds_gives_no_pick() {
    let mut off = row("A", "points", "pinnacle", -130, 110);
    off.book_line = 30_000_000;
    let mut one_sided = row("B", "points", "pinnacle", -130, 110);
    one_sided.under_odds = None;
    assert!(top_picks(&vec![off, one_sided], &now()).is_empty());
}

#[test]
fn groups_are_by_player_and_stat() {
    let rows = vec![row("A", "points", "x", -130, 110), row("A", "assists", "x", 120, -150)];
    let picks = top_picks(&rows, &now());
    assert_eq!(picks.len(), 2);
    assert_eq!(picks[0].stat_type, "assists");
    assert_eq!(picks[1].stat_type, "points");
}

#[test]
fn at_most_twenty_picks() {
    let names: Vec<String> = (0..25).map(|i| format!("P{}", i)).collect();
    let rows: Vec<TopPickRow> = names.iter().map(|n| row(n, "points", "x", 120, -150)).collect();
    let picks = top_picks(&rows, &now());
    assert_eq!(picks.len(), 20);
    for w in picks.windows(2) {
        assert!(w[0].edge_pct >= w[1].edge_pct);
    }
}

#[test]
fn group_pick_reads_the_best_book() {
    let head = row("A", "points", "x", -130, 110);
    let books = vec![SharpBookLine { sportsbook: "y".to_string(), line: 24_500_000, over_odds: Some(120), under_odds: Some(-150) }];
    let p = pick_for_group(&head, books).unwrap();
    assert_eq!(p.best_book, "y");
    assert_eq!(p.direction, "UNDER");
    assert_eq!(p.edge_pct, 93);
    assert!(pick_for_group(&head, vec![]).is_none());
}

#[test]
fn pick_limit_is_configurable() {
    let rows = vec![row("A", "points", "x", -130, 110), row("B", "points", "x", 120, -150)];
    let one = top_picks_up_to(&rows, &now(), 1);
    assert_eq!(one.len(), 1);
    assert_eq!(one[0].player_name, "B");
    assert!(top_picks_up_to(&rows, &now(), 0).is_empty());
}
