use vstd::prelude::*;
use crate::clock::{date_parsed, game_started, has_game_started, opt_view, EasternClock, GAME_DATE_FORMAT};

verus! {

/// A team.
#[derive(Debug)]
pub struct Team {
    pub team_id: i64,
    pub name: String,
    pub full_name: String,
    pub abbreviation: String,
    pub city: String,
    pub state: Option<String>,
    pub year_founded: Option<i64>,
    pub last_updated: Option<String>,
}

/// A team as shown with a game.
#[derive(Debug)]
pub struct TeamInfo {
    pub id: i64,
    pub name: String,
    pub abbreviation: String,
    pub city: String,
}

/// A scheduled game as stored.
#[derive(Debug)]
pub struct ScheduleRow {
    pub game_id: String,
    pub game_date: String,
    pub game_time: Option<String>,
    pub game_status: Option<String>,
    pub home_team_id: i64,
    pub home_team_name: Option<String>,
    pub home_team_abbreviation: Option<String>,
    pub home_team_city: Option<String>,
    pub away_team_id: i64,
    pub away_team_name: Option<String>,
    pub away_team_abbreviation: Option<String>,
    pub away_team_city: Option<String>,
}

/// A scheduled game as shown.
#[derive(Debug)]
pub struct ScheduleGame {
    pub game_id: String,
    pub game_date: String,
    pub game_time: String,
    pub game_status: String,
    pub home_team: TeamInfo,
    pub away_team: TeamInfo,
}

/// A list of games.
#[derive(Debug)]
pub struct ScheduleResponse {
    pub games: Vec<ScheduleGame>,
    pub count: usize,
}

/// A roster entry as stored.
#[derive(Debug)]
pub struct RosterPlayerRow {
    pub player_id: i64,
    pub player_name: String,
    pub position: Option<String>,
    pub injury_status: Option<String>,
    pub injury_description: Option<String>,
    pub has_props: bool,
}

/// A roster entry as shown.
#[derive(Debug)]
pub struct RosterPlayer {
    pub player_id: i64,
    pub player_name: String,
    pub position: Option<String>,
    pub injury_status: String,
    pub injury_description: Option<String>,
    pub has_props: bool,
}

/// A game with both teams' rosters.
#[derive(Debug)]
pub struct GameWithRosters {
    pub game_id: String,
    pub game_date: String,
    pub game_time: String,
    pub game_status: String,
    pub home_team: TeamInfo,
    pub away_team: TeamInfo,
    pub home_players: Vec<RosterPlayer>,
    pub away_players: Vec<RosterPlayer>,
}

/// A list of games with rosters.
#[derive(Debug)]
pub struct RosterResponse {
    pub games: Vec<GameWithRosters>,
    pub count: usize,
}

/// Service status.
#[derive(Debug)]
pub struct HealthResponse {
    pub status: String,
    pub timestamp: i64,
}

impl HealthResponse {
    /// A healthy status at the given Unix time.
    pub fn ok_at(timestamp: i64) -> (r: HealthResponse)
        ensures
            r.status@ == seq!['o', 'k'],
            r.timestamp == timestamp,
    {
        proof {
            reveal_strlit("ok");
        }
        let status = String::from_str("ok");
        assert(status@ =~= seq!['o', 'k']);
        HealthResponse { status, timestamp }
    }
}

/// The text of an optional string, empty when absent.
pub open spec fn text_or_empty(s: Option<String>) -> Seq<char> {
    match s {
        Some(t) => t@,
        None => Seq::empty(),
    }
}

/// The text of an optional string, or `fallback` when absent.
pub open spec fn text_or(s: Option<String>, fallback: Seq<char>) -> Seq<char> {
    match s {
        Some(t) => t@,
        None => fallback,
    }
}

fn string_or_empty(s: &Option<String>) -> (r: String)
    ensures
        r@ == text_or_empty(*s),
{
    match s {
        Some(t) => t.clone(),
        None => String::new(),
    }
}

fn string_or(s: &Option<String>, fallback: &str) -> (r: String)
    ensures
        r@ == text_or(*s, fallback@),
{
    match s {
        Some(t) => t.clone(),
        None => String::from_str(fallback),
    }
}

pub fn copy_opt(s: &Option<String>) -> (r: Option<String>)
    ensures
        r == *s,
{
    match s {
        Some(t) => Some(t.clone()),
        None => None,
    }
}

impl RosterPlayerRow {
    /// The roster entry as shown: a missing injury status reads "Available".
    pub fn to_roster_player(&self) -> (r: RosterPlayer)
        ensures
            r.player_id == self.player_id,
            r.player_name == self.player_name,
            r.position == self.position,
            r.injury_status@ == text_or(self.injury_status, "Available"@),
            r.injury_description == self.injury_description,
            r.has_props == self.has_props,
    {
        RosterPlayer {
            player_id: self.player_id,
            player_name: self.player_name.clone(),
            position: copy_opt(&self.position),
            injury_status: string_or(&self.injury_status, "Available"),
            injury_description: copy_opt(&self.injury_description),
            has_props: self.has_props,
        }
    }
}

impl ScheduleRow {
    pub open spec fn home_info_is(self, t: TeamInfo) -> bool {
        t.id == self.home_team_id && t.name@ == text_or_empty(self.home_team_name)
            && t.abbreviation@ == text_or_empty(self.home_team_abbreviation) && t.city@
            == text_or_empty(self.home_team_city)
    }

    pub open spec fn away_info_is(self, t: TeamInfo) -> bool {
        t.id == self.away_team_id && t.name@ == text_or_empty(self.away_team_name)
            && t.abbreviation@ == text_or_empty(self.away_team_abbreviation) && t.city@
            == text_or_empty(self.away_team_city)
    }

    fn home_info(&self) -> (r: TeamInfo)
        ensures
            self.home_info_is(r),
    {
        TeamInfo {
            id: self.home_team_id,
            name: string_or_empty(&self.home_team_name),
            abbreviation: string_or_empty(&self.home_team_abbreviation),
            city: string_or_empty(&self.home_team_city),
        }
    }

    fn away_info(&self) -> (r: TeamInfo)
        ensures
            self.away_info_is(r),
    {
        TeamInfo {
            id: self.away_team_id,
            name: string_or_empty(&self.away_team_name),
            abbreviation: string_or_empty(&self.away_team_abbreviation),
            city: string_or_empty(&self.away_team_city),
        }
    }

    /// `g` shows this row: a missing time reads "TBD", other missing texts are empty.
    pub open spec fn shown_as(self, g: ScheduleGame) -> bool {
        &&& g.game_id == self.game_id
        &&& g.game_date == self.game_date
        &&& g.game_time@ == text_or(self.game_time, "TBD"@)
        &&& g.game_status@ == text_or_empty(self.game_status)
        &&& self.home_info_is(g.home_team)
        &&& self.away_info_is(g.away_team)
    }

    pub fn copy(&self) -> (r: ScheduleRow)
        ensures
            r == *self,
    {
        ScheduleRow {
            game_id: self.game_id.clone(),
            game_date: self.game_date.clone(),
            game_time: copy_opt(&self.game_time),
            game_status: copy_opt(&self.game_status),
            home_team_id: self.home_team_id,
            home_team_name: copy_opt(&self.home_team_name),
            home_team_abbreviation: copy_opt(&self.home_team_abbreviation),
            home_team_city: copy_opt(&self.home_team_city),
            away_team_id: self.away_team_id,
            away_team_name: copy_opt(&self.away_team_name),
            away_team_abbreviation: copy_opt(&self.away_team_abbreviation),
            away_team_city: copy_opt(&self.away_team_city),
        }
    }

    /// The game as shown: a missing time reads "TBD", other missing texts are empty.
    pub fn to_schedule_game(&self) -> (r: ScheduleGame)
        ensures
            self.shown_as(r),
    {
        ScheduleGame {
            game_id: self.game_id.clone(),
            game_date: self.game_date.clone(),
            game_time: string_or(&self.game_time, "TBD"),
            game_status: string_or_empty(&self.game_status),
            home_team: self.home_info(),
            away_team: self.away_info(),
        }
    }

    /// The game as shown with both teams' rosters.
    pub fn with_rosters(&self, home: &Vec<RosterPlayerRow>, away: &Vec<RosterPlayerRow>) -> (r: GameWithRosters)
        ensures
            r.game_id == self.game_id,
            r.game_date == self.game_date,
            r.game_time@ == text_or(self.game_time, "TBD"@),
            r.game_status@ == text_or_empty(self.game_status),
            self.home_info_is(r.home_team),
            self.away_info_is(r.away_team),
            roster_shown(r.home_players@, home@),
            roster_shown(r.away_players@, away@),
    {
        GameWithRosters {
            game_id: self.game_id.clone(),
            game_date: self.game_date.clone(),
            game_time: string_or(&self.game_time, "TBD"),
            game_status: string_or_empty(&self.game_status),
            home_team: self.home_info(),
            away_team: self.away_info(),
            home_players: roster_players(home),
            away_players: roster_players(away),
        }
    }
}

/// `shown` holds each roster row as shown, in order.
pub open spec fn roster_shown(shown: Seq<RosterPlayer>, rows: Seq<RosterPlayerRow>) -> bool {
    shown.len() == rows.len() && forall|i: int|
        0 <= i < rows.len() ==> {
            let (p, r) = (#[trigger] shown[i], rows[i]);
            p.player_id == r.player_id && p.player_name == r.player_name && p.position == r.position
                && p.injury_status@ == text_or(r.injury_status, "Available"@)
                && p.injury_description == r.injury_description && p.has_props == r.has_props
        }
}

/// Each roster row as shown, in order.
pub fn roster_players(rows: &Vec<RosterPlayerRow>) -> (r: Vec<RosterPlayer>)
    ensures
        roster_shown(r@, rows@),
{
    let mut out: Vec<RosterPlayer> = Vec::new();
    let mut i: usize = 0;
    while i < rows.len()
        invariant
            i <= rows@.len(),
            roster_shown(out@, rows@.take(i as int)),
        decreases rows.len() - i,
    {
        out.push(rows[i].to_roster_player());
        i += 1;
        assert(roster_shown(out@, rows@.take(i as int))) by {
            assert forall|k: int| 0 <= k < i implies rows@.take(i as int)[k] == rows@[k] by {}
        }
    }
    assert(rows@.take(rows@.len() as int) =~= rows@);
    out
}

/// The games shown, in order, with their number.
pub fn schedule_response(rows: &Vec<ScheduleRow>) -> (r: ScheduleResponse)
    ensures
        r.count == rows@.len(),
        r.games@.len() == rows@.len(),
        forall|i: int| 0 <= i < rows@.len() ==> rows@[i].shown_as(#[trigger] r.games@[i]),
{
    let mut games: Vec<ScheduleGame> = Vec::new();
    let mut i: usize = 0;
    while i < rows.len()
        invariant
            i <= rows@.len(),
            games@.len() == i,
            forall|k: int| 0 <= k < i ==> rows@[k].shown_as(#[trigger] games@[k]),
        decreases rows.len() - i,
    {
        games.push(rows[i].to_schedule_game());
        i += 1;
    }
    let count = games.len();
    ScheduleResponse { games, count }
}

/// The game has not started by `now`.
pub open spec fn not_started(now: (int, int, int, int, int)) -> spec_fn(ScheduleRow) -> bool {
    |g: ScheduleRow|
        !game_started(date_parsed(g.game_date@, GAME_DATE_FORMAT@), opt_view(g.game_time), now)
}

/// The games that have not started by `now`, in order.
pub fn upcoming_games(rows: &Vec<ScheduleRow>, now: &EasternClock) -> (r: Vec<ScheduleRow>)
    ensures
        r@ == rows@.filter(not_started(now@)),
{
    let ghost pred = not_started(now@);
    let mut out: Vec<ScheduleRow> = Vec::new();
    let mut i: usize = 0;
    while i < rows.len()
        invariant
            i <= rows@.len(),
            pred == not_started(now@),
            out@ == rows@.take(i as int).filter(pred),
        decreases rows.len() - i,
    {
        proof {
            rows@.take(i as int).lemma_filter_push(rows@[i as int], pred);
        }
        assert(rows@.take(i + 1) =~= rows@.take(i as int).push(rows@[i as int]));
        if !has_game_started(rows[i].game_date.as_str(), &rows[i].game_time, now) {
            out.push(rows[i].copy());
        }
        i += 1;
    }
    assert(rows@.take(rows@.len() as int) =~= rows@);
    out
}

} // verus!
