use vstd::prelude::*;
use crate::ranking::{is_top_desc, top_desc, Ranked};

verus! {

/// A player's production in one play type. Decimal fields are in micro-units.
#[derive(Debug)]
pub struct PlayerPlayTypes {
    pub player_id: i64,
    pub season: String,
    pub play_type: String,
    pub points: i64,
    pub points_per_game: i64,
    pub possessions: i64,
    pub poss_per_game: i64,
    pub ppp: i64,
    pub fg_pct: i64,
    pub pct_of_total_points: i64,
    pub games_played: i64,
    pub last_updated: String,
}

/// What a team allows in one play type. Decimal fields are in micro-units.
#[derive(Debug)]
pub struct TeamDefensivePlayTypes {
    pub team_id: i64,
    pub season: String,
    pub play_type: String,
    pub poss_pct: i64,
    pub possessions: i64,
    pub poss_per_game: i64,
    pub ppp: i64,
    pub fg_pct: i64,
    pub efg_pct: i64,
    pub points: i64,
    pub points_per_game: i64,
    pub games_played: i64,
    pub last_updated: String,
}

/// League-wide rank of a team's defense in one play type (1 = fewest points per possession).
#[derive(Debug)]
pub struct PlayTypeRank {
    pub team_id: i64,
    pub play_type: String,
    pub rank: i32,
}

/// One play type of a matchup. Decimal fields are in micro-units.
#[derive(Debug)]
pub struct PlayTypeMatchup {
    pub play_type: String,
    pub player_ppg: i64,
    pub pct_of_total: i64,
    pub opp_ppp: i64,
    pub opp_rank: i32,
}

/// A player's play-type matchup against an opponent.
#[derive(Debug)]
pub struct PlayTypeMatchupResponse {
    pub player_name: String,
    pub opponent_name: String,
    pub matchups: Vec<PlayTypeMatchup>,
}

impl Ranked for PlayTypeMatchup {
    open spec fn rank_key(&self) -> int {
        self.player_ppg as int
    }

    fn key(&self) -> (k: i128) {
        self.player_ppg as i128
    }
}

/// Row `j` comes before row `i` of the same play type in ascending order of points per
/// possession, rows with equal values keeping their order.
pub open spec fn ranks_ahead(rows: Seq<TeamDefensivePlayTypes>, j: int, i: int) -> bool {
    rows[j].play_type@ == rows[i].play_type@ && (rows[j].ppp < rows[i].ppp || (rows[j].ppp
        == rows[i].ppp && j < i))
}

/// Number of rows among the first `n` that come before row `i`.
pub open spec fn count_ahead(rows: Seq<TeamDefensivePlayTypes>, n: int, i: int) -> int
    decreases n,
{
    if n <= 0 {
        0
    } else {
        count_ahead(rows, n - 1, i) + if ranks_ahead(rows, n - 1, i) {
            1int
        } else {
            0
        }
    }
}

/// Number of rows among the first `n` with play type `t`.
pub open spec fn count_type(rows: Seq<TeamDefensivePlayTypes>, n: int, t: Seq<char>) -> int
    decreases n,
{
    if n <= 0 {
        0
    } else {
        count_type(rows, n - 1, t) + if rows[n - 1].play_type@ == t {
            1int
        } else {
            0
        }
    }
}

/// Rank of row `i` within its play type: its 1-based position in ascending order of points
/// per possession.
pub open spec fn play_type_rank(rows: Seq<TeamDefensivePlayTypes>, i: int) -> int {
    1 + count_ahead(rows, rows.len() as int, i)
}

/// Ranks every team's defense within each play type: sequential 1-based positions in
/// ascending order of points per possession, restarting for each play type. Entries follow
/// the order of `rows`.
pub fn rank_play_types(rows: &Vec<TeamDefensivePlayTypes>) -> (r: Vec<PlayTypeRank>)
    requires
        rows@.len() < i32::MAX,
    ensures
        r@.len() == rows@.len(),
        forall|i: int|
            0 <= i < rows@.len() ==> (#[trigger] r@[i]).team_id == rows@[i].team_id
                && r@[i].play_type == rows@[i].play_type && r@[i].rank == play_type_rank(
                rows@,
                i,
            ),
{
    let mut out: Vec<PlayTypeRank> = Vec::new();
    let mut i: usize = 0;
    while i < rows.len()
        invariant
            i <= rows@.len() < i32::MAX,
            out@.len() == i,
            forall|k: int|
                0 <= k < i ==> (#[trigger] out@[k]).team_id == rows@[k].team_id
                    && out@[k].play_type == rows@[k].play_type && out@[k].rank == play_type_rank(
                    rows@,
                    k,
                ),
        decreases rows.len() - i,
    {
        out.push(
            PlayTypeRank {
                team_id: rows[i].team_id,
                play_type: rows[i].play_type.clone(),
                rank: rank_of_row(rows, i),
            },
        );
        i += 1;
    }
    out
}

pub(crate) fn rank_of_row(rows: &Vec<TeamDefensivePlayTypes>, i: usize) -> (r: i32)
    requires
        i < rows@.len() < i32::MAX,
    ensures
        r == play_type_rank(rows@, i as int),
{
    let mut n: usize = 0;
    let mut j: usize = 0;
    while j < rows.len()
        invariant
            i < rows@.len() < i32::MAX,
            j <= rows@.len(),
            n == count_ahead(rows@, j as int, i as int),
            n <= j,
        decreases rows.len() - j,
    {
        if rows[j].play_type == rows[i].play_type && (rows[j].ppp < rows[i].ppp || (rows[j].ppp
            == rows[i].ppp && j < i)) {
            n += 1;
        }
        j += 1;
    }
    (n + 1) as i32
}

proof fn lemma_count_ahead_le_type(rows: Seq<TeamDefensivePlayTypes>, n: int, i: int)
    requires
        0 <= n <= rows.len(),
        0 <= i < rows.len(),
    ensures
        count_ahead(rows, n, i) + (if i < n {
            1int
        } else {
            0
        }) <= count_type(rows, n, rows[i].play_type@),
    decreases n,
{
    if n > 0 {
        lemma_count_ahead_le_type(rows, n - 1, i);
    }
}

proof fn lemma_count_ahead_strict(rows: Seq<TeamDefensivePlayTypes>, n: int, i: int, j: int)
    requires
        0 <= n <= rows.len(),
        0 <= i < rows.len(),
        0 <= j < rows.len(),
        ranks_ahead(rows, i, j),
    ensures
        count_ahead(rows, n, i) + (if i < n {
            1int
        } else {
            0
        }) <= count_ahead(rows, n, j),
    decreases n,
{
    if n > 0 {
        lemma_count_ahead_strict(rows, n - 1, i, j);
    }
}

/// Within one play type the ranks are 1 to the number of rows of that play type.
pub proof fn law_play_type_rank_range(rows: Seq<TeamDefensivePlayTypes>, i: int)
    requires
        0 <= i < rows.len(),
    ensures
        1 <= play_type_rank(rows, i) <= count_type(rows, rows.len() as int, rows[i].play_type@),
{
    lemma_count_ahead_le_type(rows, rows.len() as int, i);
    lemma_count_ahead_nonneg(rows, rows.len() as int, i);
}

proof fn lemma_count_ahead_nonneg(rows: Seq<TeamDefensivePlayTypes>, n: int, i: int)
    ensures
        0 <= count_ahead(rows, n, i),
    decreases n,
{
    if n > 0 {
        lemma_count_ahead_nonneg(rows, n - 1, i);
    }
}

/// Two different rows of the same play type never share a rank, so the ranks of a play
/// type's rows are a permutation of 1 to their number.
pub proof fn law_play_type_ranks_distinct(rows: Seq<TeamDefensivePlayTypes>, i: int, j: int)
    requires
        0 <= i < rows.len(),
        0 <= j < rows.len(),
        i != j,
        rows[i].play_type@ == rows[j].play_type@,
    ensures
        play_type_rank(rows, i) != play_type_rank(rows, j),
{
    if ranks_ahead(rows, i, j) {
        lemma_count_ahead_strict(rows, rows.len() as int, i, j);
    } else {
        lemma_count_ahead_strict(rows, rows.len() as int, j, i);
    }
}


/// Index of the first row of `team` for play type `t`.
pub open spec fn team_play_type_index(rows: Seq<TeamDefensivePlayTypes>, team: i64, t: Seq<char>) -> Option<int>
    decreases rows.len(),
{
    if rows.len() == 0 {
        None
    } else {
        match team_play_type_index(rows.drop_last(), team, t) {
            Some(i) => Some(i),
            None => if rows.last().team_id == team && rows.last().play_type@ == t {
                Some(rows.len() - 1)
            } else {
                None
            },
        }
    }
}

/// The opponent has defensive data for the player's play type.
pub open spec fn covered(league: Seq<TeamDefensivePlayTypes>, opponent_id: i64) -> spec_fn(PlayerPlayTypes) -> bool {
    |p: PlayerPlayTypes| team_play_type_index(league, opponent_id, p.play_type@) is Some
}

/// `m` is the matchup entry for the player's play-type row `p`.
pub open spec fn is_play_type_matchup(
    m: PlayTypeMatchup,
    p: PlayerPlayTypes,
    league: Seq<TeamDefensivePlayTypes>,
    opponent_id: i64,
) -> bool {
    let k = team_play_type_index(league, opponent_id, p.play_type@)->0;
    &&& m.play_type == p.play_type
    &&& m.player_ppg == p.points_per_game
    &&& m.pct_of_total == p.pct_of_total_points
    &&& m.opp_ppp == league[k].ppp
    &&& m.opp_rank == play_type_rank(league, k)
}

/// `ms` are the matchup entries of the player's play types that the opponent has data for,
/// in the order of the player's rows.
pub open spec fn are_matchups_of(
    ms: Seq<PlayTypeMatchup>,
    players: Seq<PlayerPlayTypes>,
    league: Seq<TeamDefensivePlayTypes>,
    opponent_id: i64,
) -> bool {
    let ps = players.filter(covered(league, opponent_id));
    ms.len() == ps.len() && forall|i: int|
        0 <= i < ps.len() ==> #[trigger] is_play_type_matchup(ms[i], ps[i], league, opponent_id)
}

proof fn lemma_play_type_prefix(rows: Seq<TeamDefensivePlayTypes>, team: i64, t: Seq<char>, i: int)
    requires
        0 <= i < rows.len(),
        team_play_type_index(rows.take(i + 1), team, t) == Some(i),
    ensures
        team_play_type_index(rows, team, t) == Some(i),
    decreases rows.len(),
{
    if rows.len() > i + 1 {
        assert(rows.drop_last().take(i + 1) =~= rows.take(i + 1));
        lemma_play_type_prefix(rows.drop_last(), team, t, i);
    } else {
        assert(rows.take(i + 1) =~= rows);
    }
}

pub(crate) fn play_type_position(rows: &Vec<TeamDefensivePlayTypes>, team: i64, t: &String) -> (r: Option<usize>)
    ensures
        team_play_type_index(rows@, team, t@) == (match r {
            Some(k) => Some(k as int),
            None => None,
        }),
        r matches Some(k) ==> k < rows@.len(),
{
    let mut i: usize = 0;
    while i < rows.len()
        invariant
            i <= rows@.len(),
            team_play_type_index(rows@.take(i as int), team, t@) is None,
        decreases rows.len() - i,
    {
        assert(rows@.take(i + 1).drop_last() =~= rows@.take(i as int));
        if rows[i].team_id == team && rows[i].play_type == *t {
            proof {
                lemma_play_type_prefix(rows@, team, t@, i as int);
            }
            return Some(i);
        }
        i += 1;
    }
    assert(rows@.take(rows@.len() as int) =~= rows@);
    None
}

/// A player's play-type matchup against an opponent: each play type of the player that the
/// opponent has defensive data for, with the opponent's points per possession allowed and
/// league-wide rank, by descending player points per game. `league` holds every team's
/// defensive play-type rows, the opponent's included.
pub fn play_type_matchup(
    player_name: String,
    opponent_name: String,
    player_types: &Vec<PlayerPlayTypes>,
    opponent_id: i64,
    league: &Vec<TeamDefensivePlayTypes>,
) -> (r: PlayTypeMatchupResponse)
    requires
        league@.len() < i32::MAX,
    ensures
        r.player_name == player_name,
        r.opponent_name == opponent_name,
        exists|ms: Seq<PlayTypeMatchup>|
            are_matchups_of(ms, player_types@, league@, opponent_id) && is_top_desc(
                r.matchups@,
                ms,
                ms.len(),
            ),
{
    let ghost pred = covered(league@, opponent_id);
    let mut ms: Vec<PlayTypeMatchup> = Vec::new();
    let mut i: usize = 0;
    while i < player_types.len()
        invariant
            i <= player_types@.len(),
            league@.len() < i32::MAX,
            pred == covered(league@, opponent_id),
            ms@.len() == player_types@.take(i as int).filter(pred).len(),
            forall|m: int|
                0 <= m < ms@.len() ==> #[trigger] is_play_type_matchup(
                    ms@[m],
                    player_types@.take(i as int).filter(pred)[m],
                    league@,
                    opponent_id,
                ),
        decreases player_types.len() - i,
    {
        let p = &player_types[i];
        let ghost prev = ms@;
        let ghost fs = player_types@.take(i as int).filter(pred);
        proof {
            player_types@.take(i as int).lemma_filter_push(player_types@[i as int], pred);
        }
        assert(player_types@.take(i + 1) =~= player_types@.take(i as int).push(player_types@[i as int]));
        match play_type_position(league, opponent_id, &p.play_type) {
            Some(k) => {
                ms.push(
                    PlayTypeMatchup {
                        play_type: p.play_type.clone(),
                        player_ppg: p.points_per_game,
                        pct_of_total: p.pct_of_total_points,
                        opp_ppp: league[k].ppp,
                        opp_rank: rank_of_row(league, k),
                    },
                );
                assert forall|m: int| 0 <= m < ms@.len() implies #[trigger] is_play_type_matchup(
                    ms@[m],
                    player_types@.take(i + 1).filter(pred)[m],
                    league@,
                    opponent_id,
                ) by {
                    if m < fs.len() {
                        assert(ms@[m] == prev[m]);
                    }
                }
            },
            None => {},
        }
        i += 1;
    }
    assert(player_types@.take(player_types@.len() as int) =~= player_types@);
    let n = ms.len();
    let ghost all = ms@;
    let sorted = top_desc(ms, n);
    assert(are_matchups_of(all, player_types@, league@, opponent_id));
    PlayTypeMatchupResponse { player_name, opponent_name, matchups: sorted }
}

} // verus!
