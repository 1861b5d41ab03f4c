use vstd::prelude::*;
use crate::play_types::{
    covered, play_type_rank, rank_of_row, team_play_type_index, play_type_position,
    PlayerPlayTypes, TeamDefensivePlayTypes,
};
use crate::ranking::{is_top_desc, top_desc, Ranked};
use crate::clock::opt_view;
use crate::schedule::copy_opt;
use crate::text::same_text;
use crate::zones::{AssistZoneMatchup, AssistZoneMatchupResponse, ShootingZoneMatchup, ShootingZoneMatchupResponse};

verus! {

/// A team's pace and ratings, in micro-units.
#[derive(Debug)]
pub struct TeamStats {
    pub team_id: i64,
    pub season: String,
    pub pace: Option<i64>,
    pub off_rating: Option<i64>,
    pub def_rating: Option<i64>,
    pub net_rating: Option<i64>,
    pub games_played: Option<i64>,
    pub wins: Option<i64>,
    pub losses: Option<i64>,
}

/// Rebounds a team allows per game, in micro-units.
#[derive(Debug)]
pub struct TeamReboundStats {
    pub team_id: i64,
    pub reb_allowed: i64,
    pub oreb_allowed: i64,
    pub dreb_allowed: i64,
}

/// An opponent's rebounding allowed and its league ranks (1 = fewest allowed).
#[derive(Debug, PartialEq, Eq)]
pub struct ReboundRanks {
    pub reb_allowed: i64,
    pub oreb_allowed: i64,
    pub dreb_allowed: i64,
    pub reb_rank: i32,
    pub oreb_rank: i32,
    pub dreb_rank: i32,
}

/// Defensive context of an opponent for one stat of an upcoming game. Decimal fields are in
/// micro-units.
#[derive(Debug)]
pub struct UpcomingMatchupResponse {
    pub opponent_name: String,
    pub stat_type: String,
    pub def_rtg: Option<i64>,
    pub pace: Option<i64>,
    pub dsz_rank: Option<i32>,
    pub dsz_name: Option<String>,
    pub dsz2_rank: Option<i32>,
    pub dsz2_name: Option<String>,
    pub dpt_rank: Option<i32>,
    pub dpt_name: Option<String>,
    pub dpt2_rank: Option<i32>,
    pub dpt2_name: Option<String>,
    pub daz_rank: Option<i32>,
    pub daz_name: Option<String>,
    pub daz2_rank: Option<i32>,
    pub daz2_name: Option<String>,
    pub assists_allowed: Option<i64>,
    pub rebounds_allowed: Option<i64>,
    pub oreb_allowed: Option<i64>,
    pub dreb_allowed: Option<i64>,
}

/// The stat an upcoming-matchup request is about.
#[derive(Debug, PartialEq, Eq, Clone, Copy)]
pub enum MatchupStat {
    Points,
    Assists,
    Rebounds,
    Other,
}

pub open spec fn matchup_stat_of(s: Seq<char>) -> MatchupStat {
    if s == "points"@ {
        MatchupStat::Points
    } else if s == "assists"@ {
        MatchupStat::Assists
    } else if s == "rebounds"@ {
        MatchupStat::Rebounds
    } else {
        MatchupStat::Other
    }
}

/// Which context a stat type asks for.
pub fn matchup_stat(stat_type: &str) -> (r: MatchupStat)
    ensures
        r == matchup_stat_of(stat_type@),
{
    if same_text(stat_type, "points") {
        MatchupStat::Points
    } else if same_text(stat_type, "assists") {
        MatchupStat::Assists
    } else if same_text(stat_type, "rebounds") {
        MatchupStat::Rebounds
    } else {
        MatchupStat::Other
    }
}

impl Ranked for ShootingZoneMatchup {
    open spec fn rank_key(&self) -> int {
        self.player_fga as int
    }

    fn key(&self) -> (k: i128) {
        self.player_fga as i128
    }
}

impl Ranked for PlayerPlayTypes {
    open spec fn rank_key(&self) -> int {
        self.pct_of_total_points as int
    }

    fn key(&self) -> (k: i128) {
        self.pct_of_total_points as i128
    }
}

impl ShootingZoneMatchup {
    pub fn copy(&self) -> (r: ShootingZoneMatchup)
        ensures
            r == *self,
    {
        ShootingZoneMatchup {
            zone_name: self.zone_name.clone(),
            player_fgm: self.player_fgm,
            player_fga: self.player_fga,
            player_fg_pct: self.player_fg_pct,
            player_volume_pct: self.player_volume_pct,
            opp_fg_pct: self.opp_fg_pct,
            opp_rank: self.opp_rank,
            league_avg_pct: self.league_avg_pct,
            advantage: self.advantage,
            is_three: self.is_three,
            has_data: self.has_data,
        }
    }
}

impl PlayerPlayTypes {
    pub fn copy(&self) -> (r: PlayerPlayTypes)
        ensures
            r == *self,
    {
        PlayerPlayTypes {
            player_id: self.player_id,
            season: self.season.clone(),
            play_type: self.play_type.clone(),
            points: self.points,
            points_per_game: self.points_per_game,
            possessions: self.possessions,
            poss_per_game: self.poss_per_game,
            ppp: self.ppp,
            fg_pct: self.fg_pct,
            pct_of_total_points: self.pct_of_total_points,
            games_played: self.games_played,
            last_updated: self.last_updated.clone(),
        }
    }
}

/// A zone where both sides have data and the player shoots.
pub open spec fn shot_zone() -> spec_fn(ShootingZoneMatchup) -> bool {
    |z: ShootingZoneMatchup| z.has_data && z.player_fga > 0
}

/// The player's two highest-volume zones with data (fewer when there are fewer).
pub fn dominant_zones(zones: &Vec<ShootingZoneMatchup>) -> (r: Vec<ShootingZoneMatchup>)
    ensures
        is_top_desc(r@, zones@.filter(shot_zone()), 2),
{
    let ghost pred = shot_zone();
    let mut cands: Vec<ShootingZoneMatchup> = Vec::new();
    let mut i: usize = 0;
    while i < zones.len()
        invariant
            i <= zones@.len(),
            pred == shot_zone(),
            cands@ == zones@.take(i as int).filter(pred),
        decreases zones.len() - i,
    {
        proof {
            zones@.take(i as int).lemma_filter_push(zones@[i as int], pred);
        }
        assert(zones@.take(i + 1) =~= zones@.take(i as int).push(zones@[i as int]));
        if zones[i].has_data && zones[i].player_fga > 0 {
            cands.push(zones[i].copy());
        }
        i += 1;
    }
    assert(zones@.take(zones@.len() as int) =~= zones@);
    top_desc(cands, 2)
}

/// The player's two play types with the largest share of points among those the opponent
/// has data for (fewer when there are fewer).
pub fn dominant_play_types(
    player_types: &Vec<PlayerPlayTypes>,
    opponent_id: i64,
    league: &Vec<TeamDefensivePlayTypes>,
) -> (r: Vec<PlayerPlayTypes>)
    ensures
        is_top_desc(r@, player_types@.filter(covered(league@, opponent_id)), 2),
{
    let ghost pred = covered(league@, opponent_id);
    let mut cands: Vec<PlayerPlayTypes> = Vec::new();
    let mut i: usize = 0;
    while i < player_types.len()
        invariant
            i <= player_types@.len(),
            pred == covered(league@, opponent_id),
            cands@ == player_types@.take(i as int).filter(pred),
        decreases player_types.len() - i,
    {
        proof {
            player_types@.take(i as int).lemma_filter_push(player_types@[i as int], pred);
        }
        assert(player_types@.take(i + 1) =~= player_types@.take(i as int).push(player_types@[i as int]));
        if play_type_position(league, opponent_id, &player_types[i].play_type).is_some() {
            cands.push(player_types[i].copy());
        }
        i += 1;
    }
    assert(player_types@.take(player_types@.len() as int) =~= player_types@);
    top_desc(cands, 2)
}

/// Index of the first rebounding row of `team`.
pub open spec fn rebound_row(rows: Seq<TeamReboundStats>, team: i64) -> Option<int>
    decreases rows.len(),
{
    if rows.len() == 0 {
        None
    } else {
        match rebound_row(rows.drop_last(), team) {
            Some(i) => Some(i),
            None => if rows.last().team_id == team {
                Some(rows.len() - 1)
            } else {
                None
            },
        }
    }
}

/// Which rebounding figure a rank is over.
pub open spec fn rebound_value(r: TeamReboundStats, which: int) -> int {
    if which == 0 {
        r.reb_allowed as int
    } else if which == 1 {
        r.oreb_allowed as int
    } else {
        r.dreb_allowed as int
    }
}

/// Number of the first `n` rows ahead of row `o` in ascending order of figure `which`, rows
/// with equal figures keeping their order.
pub open spec fn rebound_ahead(rows: Seq<TeamReboundStats>, n: int, o: int, which: int) -> int
    decreases n,
{
    if n <= 0 {
        0
    } else {
        let j = n - 1;
        rebound_ahead(rows, n - 1, o, which) + if rebound_value(rows[j], which) < rebound_value(
            rows[o],
            which,
        ) || (rebound_value(rows[j], which) == rebound_value(rows[o], which) && j < o) {
            1int
        } else {
            0
        }
    }
}

/// Position (from 1) of row `o` in ascending order of figure `which`.
pub open spec fn rebound_rank(rows: Seq<TeamReboundStats>, o: int, which: int) -> int {
    1 + rebound_ahead(rows, rows.len() as int, o, which)
}

proof fn lemma_rebound_prefix(rows: Seq<TeamReboundStats>, team: i64, i: int)
    requires
        0 <= i < rows.len(),
        rebound_row(rows.take(i + 1), team) == Some(i),
    ensures
        rebound_row(rows, team) == Some(i),
    decreases rows.len(),
{
    if rows.len() > i + 1 {
        assert(rows.drop_last().take(i + 1) =~= rows.take(i + 1));
        lemma_rebound_prefix(rows.drop_last(), team, i);
    } else {
        assert(rows.take(i + 1) =~= rows);
    }
}

fn rebound_position(rows: &Vec<TeamReboundStats>, team: i64) -> (r: Option<usize>)
    ensures
        rebound_row(rows@, team) == (match r {
            Some(k) => Some(k as int),
            None => None,
        }),
        r matches Some(k) ==> k < rows@.len(),
{
    let mut i: usize = 0;
    while i < rows.len()
        invariant
            i <= rows@.len(),
            rebound_row(rows@.take(i as int), team) is None,
        decreases rows.len() - i,
    {
        assert(rows@.take(i + 1).drop_last() =~= rows@.take(i as int));
        if rows[i].team_id == team {
            proof {
                lemma_rebound_prefix(rows@, team, i as int);
            }
            return Some(i);
        }
        i += 1;
    }
    assert(rows@.take(rows@.len() as int) =~= rows@);
    None
}

fn rebound_figure(r: &TeamReboundStats, which: u8) -> (v: i64)
    requires
        which < 3,
    ensures
        v == rebound_value(*r, which as int),
{
    if which == 0 {
        r.reb_allowed
    } else if which == 1 {
        r.oreb_allowed
    } else {
        r.dreb_allowed
    }
}

fn rank_by(rows: &Vec<TeamReboundStats>, o: usize, which: u8) -> (r: i32)
    requires
        o < rows@.len() < i32::MAX,
        which < 3,
    ensures
        r == rebound_rank(rows@, o as int, which as int),
{
    let v = rebound_figure(&rows[o], which);
    let mut n: usize = 0;
    let mut j: usize = 0;
    while j < rows.len()
        invariant
            o < rows@.len() < i32::MAX,
            which < 3,
            v == rebound_value(rows@[o as int], which as int),
            j <= rows@.len(),
            n == rebound_ahead(rows@, j as int, o as int, which as int),
            n <= j,
        decreases rows.len() - j,
    {
        let w = rebound_figure(&rows[j], which);
        if w < v || (w == v && j < o) {
            n += 1;
        }
        j += 1;
    }
    (n + 1) as i32
}

/// The opponent's rebounding allowed with its rank among all teams for total, offensive and
/// defensive rebounds; none when the opponent has no row.
pub fn rebound_ranks(rows: &Vec<TeamReboundStats>, opponent_id: i64) -> (r: Option<ReboundRanks>)
    requires
        rows@.len() < i32::MAX,
    ensures
        match rebound_row(rows@, opponent_id) {
            None => r is None,
            Some(o) => r == Some(
                ReboundRanks {
                    reb_allowed: rows@[o].reb_allowed,
                    oreb_allowed: rows@[o].oreb_allowed,
                    dreb_allowed: rows@[o].dreb_allowed,
                    reb_rank: rebound_rank(rows@, o, 0) as i32,
                    oreb_rank: rebound_rank(rows@, o, 1) as i32,
                    dreb_rank: rebound_rank(rows@, o, 2) as i32,
                },
            ),
        },
{
    match rebound_position(rows, opponent_id) {
        None => None,
        Some(o) => Some(
            ReboundRanks {
                reb_allowed: rows[o].reb_allowed,
                oreb_allowed: rows[o].oreb_allowed,
                dreb_allowed: rows[o].dreb_allowed,
                reb_rank: rank_by(rows, o, 0),
                oreb_rank: rank_by(rows, o, 1),
                dreb_rank: rank_by(rows, o, 2),
            },
        ),
    }
}


/// Name and opponent rank of the `i`-th dominant zone, when there is one.
pub open spec fn zone_slot(dz: Seq<ShootingZoneMatchup>, i: int) -> (Option<Seq<char>>, Option<i32>) {
    if i < dz.len() {
        (Some(dz[i].zone_name@), Some(dz[i].opp_rank))
    } else {
        (None, None)
    }
}

/// Name and opponent rank of the `i`-th dominant play type, when there is one.
pub open spec fn play_type_slot(
    dp: Seq<PlayerPlayTypes>,
    i: int,
    league: Seq<TeamDefensivePlayTypes>,
    opponent_id: i64,
) -> (Option<Seq<char>>, Option<i32>) {
    if i < dp.len() {
        (
            Some(dp[i].play_type@),
            Some(
                play_type_rank(
                    league,
                    team_play_type_index(league, opponent_id, dp[i].play_type@)->0,
                ) as i32,
            ),
        )
    } else {
        (None, None)
    }
}

/// Name and opponent rank of the `i`-th assist zone, when there is one.
pub open spec fn assist_slot(zones: Seq<AssistZoneMatchup>, i: int) -> (Option<Seq<char>>, Option<i32>) {
    if i < zones.len() {
        (Some(zones[i].zone_name@), Some(zones[i].opp_def_rank))
    } else {
        (None, None)
    }
}

pub open spec fn zone_fields(r: UpcomingMatchupResponse) -> ((Option<Seq<char>>, Option<i32>), (Option<Seq<char>>, Option<i32>)) {
    ((opt_view(r.dsz_name), r.dsz_rank), (opt_view(r.dsz2_name), r.dsz2_rank))
}

pub open spec fn play_type_fields(r: UpcomingMatchupResponse) -> ((Option<Seq<char>>, Option<i32>), (Option<Seq<char>>, Option<i32>)) {
    ((opt_view(r.dpt_name), r.dpt_rank), (opt_view(r.dpt2_name), r.dpt2_rank))
}

pub open spec fn assist_fields(r: UpcomingMatchupResponse) -> ((Option<Seq<char>>, Option<i32>), (Option<Seq<char>>, Option<i32>)) {
    ((opt_view(r.daz_name), r.daz_rank), (opt_view(r.daz2_name), r.daz2_rank))
}

pub open spec fn no_slot() -> ((Option<Seq<char>>, Option<i32>), (Option<Seq<char>>, Option<i32>)) {
    ((None, None), (None, None))
}

fn zone_slot_of(dz: &Vec<ShootingZoneMatchup>, i: usize) -> (r: (Option<String>, Option<i32>))
    ensures
        (opt_view(r.0), r.1) == zone_slot(dz@, i as int),
{
    if i < dz.len() {
        (Some(dz[i].zone_name.clone()), Some(dz[i].opp_rank))
    } else {
        (None, None)
    }
}

fn assist_slot_of(zones: &Vec<AssistZoneMatchup>, i: usize) -> (r: (Option<String>, Option<i32>))
    ensures
        (opt_view(r.0), r.1) == assist_slot(zones@, i as int),
{
    if i < zones.len() {
        (Some(zones[i].zone_name.clone()), Some(zones[i].opp_def_rank))
    } else {
        (None, None)
    }
}

fn play_type_slot_of(
    dp: &Vec<PlayerPlayTypes>,
    i: usize,
    league: &Vec<TeamDefensivePlayTypes>,
    opponent_id: i64,
) -> (r: (Option<String>, Option<i32>))
    requires
        league@.len() < i32::MAX,
        forall|k: int| 0 <= k < dp@.len() ==> team_play_type_index(league@, opponent_id, #[trigger] dp@[k].play_type@) is Some,
    ensures
        (opt_view(r.0), r.1) == play_type_slot(dp@, i as int, league@, opponent_id),
{
    if i < dp.len() {
        let k = play_type_position(league, opponent_id, &dp[i].play_type).unwrap();
        (Some(dp[i].play_type.clone()), Some(rank_of_row(league, k)))
    } else {
        (None, None)
    }
}

fn text(s: &str) -> (r: String)
    ensures
        r@ == s@,
{
    String::from_str(s)
}

/// Defensive context of the opponent for an upcoming game, by stat:
/// for points, the player's two highest-volume shooting zones and two largest play types
/// with the opponent's ranks; for assists, the player's first two assist zones with the
/// opponent's ranks and the assists the opponent allows; for rebounds, the rebounding the
/// opponent allows with its ranks (total, offensive, defensive). Team pace and defensive
/// rating are given for every stat.
pub fn upcoming_matchup_context(
    opponent_name: String,
    stat_type: String,
    team_stats: &Option<TeamStats>,
    shooting: &Option<ShootingZoneMatchupResponse>,
    player_types: &Vec<PlayerPlayTypes>,
    opponent_id: i64,
    league_play_types: &Vec<TeamDefensivePlayTypes>,
    assist: &Option<AssistZoneMatchupResponse>,
    assists_allowed: Option<i64>,
    rebounds: &Vec<TeamReboundStats>,
) -> (r: UpcomingMatchupResponse)
    requires
        league_play_types@.len() < i32::MAX,
        rebounds@.len() < i32::MAX,
    ensures
        r.opponent_name == opponent_name,
        r.stat_type == stat_type,
        r.def_rtg == (match team_stats {
            Some(s) => s.def_rating,
            None => None,
        }),
        r.pace == (match team_stats {
            Some(s) => s.pace,
            None => None,
        }),
        matchup_stat_of(stat_type@) == MatchupStat::Points ==> {
            &&& match shooting {
                Some(m) => exists|dz: Seq<ShootingZoneMatchup>|
                    is_top_desc(dz, m.zones@.filter(shot_zone()), 2) && zone_fields(r) == (
                        zone_slot(dz, 0),
                        zone_slot(dz, 1),
                    ),
                None => zone_fields(r) == no_slot(),
            }
            &&& exists|dp: Seq<PlayerPlayTypes>|
                is_top_desc(dp, player_types@.filter(covered(league_play_types@, opponent_id)), 2)
                    && play_type_fields(r) == (
                    play_type_slot(dp, 0, league_play_types@, opponent_id),
                    play_type_slot(dp, 1, league_play_types@, opponent_id),
                )
            &&& assist_fields(r) == no_slot()
            &&& r.assists_allowed is None && r.rebounds_allowed is None && r.oreb_allowed is None
                && r.dreb_allowed is None
        },
        matchup_stat_of(stat_type@) == MatchupStat::Assists ==> {
            &&& assist_fields(r) == match assist {
                Some(a) => (assist_slot(a.zones@, 0), assist_slot(a.zones@, 1)),
                None => no_slot(),
            }
            &&& r.assists_allowed == assists_allowed
            &&& zone_fields(r) == no_slot() && play_type_fields(r) == no_slot()
            &&& r.rebounds_allowed is None && r.oreb_allowed is None && r.dreb_allowed is None
        },
        matchup_stat_of(stat_type@) == MatchupStat::Rebounds ==> {
            &&& assist_fields(r) == no_slot() && r.assists_allowed is None
            &&& r.dpt2_name is None && r.dpt2_rank is None
            &&& match rebound_row(rebounds@, opponent_id) {
                None => zone_fields(r) == no_slot() && r.dpt_name is None && r.dpt_rank is None
                    && r.rebounds_allowed is None && r.oreb_allowed is None && r.dreb_allowed is None,
                Some(o) => {
                    &&& r.rebounds_allowed == Some(rebounds@[o].reb_allowed)
                    &&& r.oreb_allowed == Some(rebounds@[o].oreb_allowed)
                    &&& r.dreb_allowed == Some(rebounds@[o].dreb_allowed)
                    &&& zone_fields(r) == (
                        (Some("Total Reb"@), Some(rebound_rank(rebounds@, o, 0) as i32)),
                        (Some("OREB"@), Some(rebound_rank(rebounds@, o, 1) as i32)),
                    )
                    &&& opt_view(r.dpt_name) == Some("DREB"@)
                    &&& r.dpt_rank == Some(rebound_rank(rebounds@, o, 2) as i32)
                },
            }
        },
        matchup_stat_of(stat_type@) == MatchupStat::Other ==> {
            &&& zone_fields(r) == no_slot() && play_type_fields(r) == no_slot() && assist_fields(r)
                == no_slot()
            &&& r.assists_allowed is None && r.rebounds_allowed is None && r.oreb_allowed is None
                && r.dreb_allowed is None
        },
{
    let (def_rtg, pace) = match team_stats {
        Some(s) => (s.def_rating, s.pace),
        None => (None, None),
    };
    let kind = matchup_stat(stat_type.as_str());
    let mut r = UpcomingMatchupResponse {
        opponent_name,
        stat_type,
        def_rtg,
        pace,
        dsz_rank: None,
        dsz_name: None,
        dsz2_rank: None,
        dsz2_name: None,
        dpt_rank: None,
        dpt_name: None,
        dpt2_rank: None,
        dpt2_name: None,
        daz_rank: None,
        daz_name: None,
        daz2_rank: None,
        daz2_name: None,
        assists_allowed: None,
        rebounds_allowed: None,
        oreb_allowed: None,
        dreb_allowed: None,
    };
    match kind {
        MatchupStat::Points => {
            match shooting {
                Some(m) => {
                    let dz = dominant_zones(&m.zones);
                    let (n0, k0) = zone_slot_of(&dz, 0);
                    let (n1, k1) = zone_slot_of(&dz, 1);
                    r.dsz_name = n0;
                    r.dsz_rank = k0;
                    r.dsz2_name = n1;
                    r.dsz2_rank = k1;
                },
                None => {},
            }
            let dp = dominant_play_types(player_types, opponent_id, league_play_types);
            proof {
                lemma_top_covered(dp@, player_types@, league_play_types@, opponent_id);
            }
            let (n0, k0) = play_type_slot_of(&dp, 0, league_play_types, opponent_id);
            let (n1, k1) = play_type_slot_of(&dp, 1, league_play_types, opponent_id);
            r.dpt_name = n0;
            r.dpt_rank = k0;
            r.dpt2_name = n1;
            r.dpt2_rank = k1;
        },
        MatchupStat::Assists => {
            match assist {
                Some(a) => {
                    let (n0, k0) = assist_slot_of(&a.zones, 0);
                    let (n1, k1) = assist_slot_of(&a.zones, 1);
                    r.daz_name = n0;
                    r.daz_rank = k0;
                    r.daz2_name = n1;
                    r.daz2_rank = k1;
                },
                None => {},
            }
            r.assists_allowed = assists_allowed;
        },
        MatchupStat::Rebounds => {
            match rebound_ranks(rebounds, opponent_id) {
                Some(rk) => {
                    r.rebounds_allowed = Some(rk.reb_allowed);
                    r.oreb_allowed = Some(rk.oreb_allowed);
                    r.dreb_allowed = Some(rk.dreb_allowed);
                    r.dsz_name = Some(text("Total Reb"));
                    r.dsz_rank = Some(rk.reb_rank);
                    r.dsz2_name = Some(text("OREB"));
                    r.dsz2_rank = Some(rk.oreb_rank);
                    r.dpt_name = Some(text("DREB"));
                    r.dpt_rank = Some(rk.dreb_rank);
                },
                None => {},
            }
        },
        MatchupStat::Other => {},
    }
    r
}

proof fn lemma_top_covered(
    dp: Seq<PlayerPlayTypes>,
    players: Seq<PlayerPlayTypes>,
    league: Seq<TeamDefensivePlayTypes>,
    opponent_id: i64,
)
    requires
        is_top_desc(dp, players.filter(covered(league, opponent_id)), 2),
    ensures
        forall|k: int| 0 <= k < dp.len() ==> team_play_type_index(league, opponent_id, #[trigger] dp[k].play_type@) is Some,
{
    broadcast use vstd::seq_lib::group_to_multiset_ensures, vstd::seq_lib::group_filter_ensures;

    let all = players.filter(covered(league, opponent_id));
    let s = choose|s: Seq<PlayerPlayTypes>|
        #[trigger] s.to_multiset() == all.to_multiset() && crate::ranking::sorted_desc(s) && dp == s.take(
            if 2 < s.len() {
                2int
            } else {
                s.len() as int
            },
        );
    assert forall|k: int| 0 <= k < dp.len() implies team_play_type_index(league, opponent_id, #[trigger] dp[k].play_type@) is Some by {
        let x = dp[k];
        assert(x == s[k]);
        assert(s.contains(x));
        assert(s.to_multiset().count(x) > 0);
        assert(all.to_multiset().count(x) > 0);
        assert(all.contains(x));
        let j = choose|j: int| 0 <= j < all.len() && all[j] == x;
        assert(covered(league, opponent_id)(all[j]));
    }
}

} // verus!
