use vstd::prelude::*;
use crate::schedule::text_or;
use crate::text::same_text;

verus! {

/// Games returned for a game log when no limit is asked for.
pub fn default_limit() -> (r: i64)
    ensures
        r == 20,
{
    20
}

/// Most games in a season, the largest game-log limit.
pub const MAX_GAME_LOG_LIMIT: i64 = 82;

/// Paging of the player list.
#[derive(Debug)]
pub struct ListPlayersQuery {
    pub limit: Option<i64>,
    pub offset: Option<i64>,
}

pub open spec fn nonneg(x: Option<i64>) -> int {
    match x {
        Some(v) => if v < 0 {
            0
        } else {
            v as int
        },
        None => 0,
    }
}

pub open spec fn min(a: int, b: int) -> int {
    if a < b { a } else { b }
}

impl ListPlayersQuery {
    /// The range `[start, end)` of a list of `len` players to return: skip `offset` players
    /// (none when absent), then take `limit` (all when absent). Negative values count as zero.
    pub fn window(&self, len: usize) -> (r: (usize, usize))
        ensures
            r.0 == min(nonneg(self.offset), len as int),
            r.1 == match self.limit {
                Some(_) => min(r.0 + nonneg(self.limit), len as int),
                None => len as int,
            },
    {
        let skip: u64 = match self.offset {
            Some(o) => if o < 0 { 0 } else { o as u64 },
            None => 0,
        };
        let start: usize = if skip < len as u64 { skip as usize } else { len };
        let end: usize = match self.limit {
            Some(l) => {
                let take: u64 = if l < 0 { 0 } else { l as u64 };
                if take < (len - start) as u64 { start + take as usize } else { len }
            },
            None => len,
        };
        (start, end)
    }
}

/// Lookup of a player by name.
#[derive(Debug)]
pub struct SearchQuery {
    pub name: String,
}

/// Lookup of a team by abbreviation.
#[derive(Debug)]
pub struct SearchTeamQuery {
    pub abbr: Option<String>,
}

/// Game-log request: number of games and the stat shown for absent teammates.
#[derive(Debug)]
pub struct GameLogsQuery {
    pub limit: i64,
    pub stat_category: Option<String>,
}

impl GameLogsQuery {
    /// The requested number of games, at most a season.
    pub fn capped_limit(&self) -> (r: i64)
        ensures
            r == min(self.limit as int, MAX_GAME_LOG_LIMIT as int),
    {
        if self.limit < MAX_GAME_LOG_LIMIT {
            self.limit
        } else {
            MAX_GAME_LOG_LIMIT
        }
    }

    /// The stat shown for absent teammates, "points" when none is asked for.
    pub fn stat_column(&self) -> (r: String)
        ensures
            r@ == text_or(self.stat_category, "points"@),
    {
        match &self.stat_category {
            Some(s) => s.clone(),
            None => String::from_str("points"),
        }
    }
}

/// Season-average stats that can be shown for absent teammates.
pub open spec fn is_dnp_stat(s: Seq<char>) -> bool {
    s == "points"@ || s == "assists"@ || s == "rebounds"@ || s == "threes_made"@ || s
        == "threes_attempted"@ || s == "fg_attempted"@ || s == "pts_plus_ast"@ || s
        == "pts_plus_reb"@ || s == "ast_plus_reb"@ || s == "pts_plus_ast_plus_reb"@ || s
        == "steals"@ || s == "blocks"@ || s == "steals_plus_blocks"@ || s == "turnovers"@
}

/// Whether a stat can be shown for absent teammates; any other stat yields no teammates.
pub fn is_dnp_stat_column(s: &str) -> (r: bool)
    ensures
        r == is_dnp_stat(s@),
{
    same_text(s, "points") || same_text(s, "assists") || same_text(s, "rebounds") || same_text(
        s,
        "threes_made",
    ) || same_text(s, "threes_attempted") || same_text(s, "fg_attempted") || same_text(
        s,
        "pts_plus_ast",
    ) || same_text(s, "pts_plus_reb") || same_text(s, "ast_plus_reb") || same_text(
        s,
        "pts_plus_ast_plus_reb",
    ) || same_text(s, "steals") || same_text(s, "blocks") || same_text(s, "steals_plus_blocks")
        || same_text(s, "turnovers")
}

/// The opponent in a game: the away team when the player's team is at home, else the home
/// team; none without a team or a game.
pub fn opponent_team_id(player_team: Option<i64>, game_teams: Option<(i64, i64)>) -> (r: Option<i64>)
    ensures
        r == (match (player_team, game_teams) {
            (Some(t), Some((home, away))) => Some(if home == t { away } else { home }),
            _ => None,
        }),
{
    match (player_team, game_teams) {
        (Some(t), Some((home, away))) => Some(if home == t { away } else { home }),
        _ => None,
    }
}

/// Play-type matchup request.
#[derive(Debug)]
pub struct PlayTypeMatchupQuery {
    pub opponent_id: i64,
}

/// Assist-zone matchup request.
#[derive(Debug)]
pub struct AssistZoneMatchupQuery {
    pub opponent_id: i64,
}

/// Upcoming-matchup request: opponent and stat ("points", "assists" or "rebounds").
#[derive(Debug)]
pub struct UpcomingMatchupQuery {
    pub opponent_id: i64,
    pub stat_type: String,
}

/// Top-picks request for a date.
#[derive(Debug)]
pub struct ScreenerQuery {
    pub game_date: Option<String>,
}

impl ScreenerQuery {
    /// The requested date, or `today` when none is given.
    pub fn date_or(&self, today: String) -> (r: String)
        ensures
            r@ == text_or(self.game_date, today@),
    {
        match &self.game_date {
            Some(d) => d.clone(),
            None => today,
        }
    }
}

/// Schedule request: a date (YYYY-MM-DD) or a team abbreviation.
#[derive(Debug)]
pub struct ScheduleQuery {
    pub date: Option<String>,
    pub team: Option<String>,
}

/// Which games a schedule request asks for.
#[derive(Debug, PartialEq, Eq)]
pub enum ScheduleSelection {
    ByDate(String),
    ByTeam(String),
    Today,
}

impl ScheduleQuery {
    /// A date takes precedence over a team; with neither, today's games.
    pub fn selection(&self) -> (r: ScheduleSelection)
        ensures
            match (self.date, self.team) {
                (Some(d), _) => r == ScheduleSelection::ByDate(d),
                (None, Some(t)) => r == ScheduleSelection::ByTeam(t),
                (None, None) => r == ScheduleSelection::Today,
            },
    {
        match (&self.date, &self.team) {
            (Some(d), _) => ScheduleSelection::ByDate(d.clone()),
            (None, Some(t)) => ScheduleSelection::ByTeam(t.clone()),
            (None, None) => ScheduleSelection::Today,
        }
    }
}

} // verus!
