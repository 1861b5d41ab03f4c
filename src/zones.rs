use vstd::prelude::*;
use crate::text::same_text;

verus! {

/// One hundred percent in micro-units.
pub const HUNDRED_PCT: i64 = 100_000_000;

/// Rank given to an opponent without data for a zone (the middle of a 30-team league).
pub const DEFAULT_ZONE_RANK: i32 = 15;

/// A player's shooting in one zone. Makes and attempts are in micro-units; `fg_pct` and
/// `efg_pct` are percentages in micro-units (45.0% is `45_000_000`).
#[derive(Debug)]
pub struct PlayerShootingZones {
    pub player_id: i64,
    pub season: String,
    pub zone_name: String,
    pub fgm: u64,
    pub fga: u64,
    pub fg_pct: i64,
    pub efg_pct: i64,
    pub last_updated: String,
}

/// What a team allows in one zone. Makes and attempts are in micro-units; `opp_fg_pct`
/// and `opp_efg_pct` are fractions in micro-units (0.35 is `350_000`).
#[derive(Debug)]
pub struct TeamDefensiveZones {
    pub team_id: i64,
    pub season: String,
    pub zone_name: String,
    pub opp_fgm: u64,
    pub opp_fga: u64,
    pub opp_fg_pct: i64,
    pub opp_efg_pct: i64,
    pub last_updated: String,
}

/// One zone of a shooting matchup. Percentages are in micro-units of a percent.
#[derive(Debug)]
pub struct ShootingZoneMatchup {
    pub zone_name: String,
    pub player_fgm: u64,
    pub player_fga: u64,
    pub player_fg_pct: i64,
    pub player_volume_pct: i64,
    pub opp_fg_pct: i64,
    pub opp_rank: i32,
    pub league_avg_pct: i64,
    pub advantage: i64,
    pub is_three: bool,
    pub has_data: bool,
}

/// A player's shooting matchup against an opponent, one entry per fixed zone.
#[derive(Debug)]
pub struct ShootingZoneMatchupResponse {
    pub player_name: String,
    pub player_id: i64,
    pub opponent_name: String,
    pub opponent_id: i64,
    pub total_fga: u128,
    pub zones: Vec<ShootingZoneMatchup>,
}

/// Number of fixed shooting zones.
pub const ZONE_COUNT: usize = 6;

/// Name of the fixed zone at display position `i`.
pub open spec fn zone_name(i: int) -> Seq<char> {
    if i == 0 {
        "Above the Break 3"@
    } else if i == 1 {
        "In The Paint (Non-RA)"@
    } else if i == 2 {
        "Left Corner 3"@
    } else if i == 3 {
        "Mid-Range"@
    } else if i == 4 {
        "Restricted Area"@
    } else {
        "Right Corner 3"@
    }
}

/// Whether the fixed zone at display position `i` is behind the three-point line.
pub open spec fn zone_is_three(i: int) -> bool {
    i == 0 || i == 2 || i == 5
}

pub open spec fn is_fixed_zone(z: Seq<char>) -> bool {
    exists|i: int| 0 <= i < ZONE_COUNT && #[trigger] zone_name(i) == z
}

fn fixed_zone(i: usize) -> (r: (&'static str, bool))
    requires
        i < ZONE_COUNT,
    ensures
        r.0@ == zone_name(i as int),
        r.1 == zone_is_three(i as int),
{
    if i == 0 {
        ("Above the Break 3", true)
    } else if i == 1 {
        ("In The Paint (Non-RA)", false)
    } else if i == 2 {
        ("Left Corner 3", true)
    } else if i == 3 {
        ("Mid-Range", false)
    } else if i == 4 {
        ("Restricted Area", false)
    } else {
        ("Right Corner 3", true)
    }
}

fn is_fixed_zone_name(z: &str) -> (r: bool)
    ensures
        r == is_fixed_zone(z@),
{
    let mut i: usize = 0;
    while i < ZONE_COUNT
        invariant
            i <= ZONE_COUNT,
            forall|j: int| 0 <= j < i ==> zone_name(j) != z@,
        decreases ZONE_COUNT - i,
    {
        if same_text(fixed_zone(i).0, z) {
            return true;
        }
        i += 1;
    }
    false
}

/// Index of the first player row for zone `z`.
pub open spec fn player_zone_index(rows: Seq<PlayerShootingZones>, z: Seq<char>) -> Option<int>
    decreases rows.len(),
{
    if rows.len() == 0 {
        None
    } else {
        match player_zone_index(rows.drop_last(), z) {
            Some(i) => Some(i),
            None => if rows.last().zone_name@ == z {
                Some(rows.len() - 1)
            } else {
                None
            },
        }
    }
}

/// Index of the first row of `team` for zone `z`.
pub open spec fn team_zone_index(rows: Seq<TeamDefensiveZones>, team: i64, z: Seq<char>) -> Option<
    int,
>
    decreases rows.len(),
{
    if rows.len() == 0 {
        None
    } else {
        match team_zone_index(rows.drop_last(), team, z) {
            Some(i) => Some(i),
            None => if rows.last().team_id == team && rows.last().zone_name@ == z {
                Some(rows.len() - 1)
            } else {
                None
            },
        }
    }
}

/// Number of league rows for zone `z`.
pub open spec fn zone_row_count(rows: Seq<TeamDefensiveZones>, z: Seq<char>) -> int
    decreases rows.len(),
{
    if rows.len() == 0 {
        0
    } else {
        zone_row_count(rows.drop_last(), z) + if rows.last().zone_name@ == z {
            1int
        } else {
            0
        }
    }
}

/// Sum of the allowed fractions of the league rows for zone `z`.
pub open spec fn zone_fraction_sum(rows: Seq<TeamDefensiveZones>, z: Seq<char>) -> int
    decreases rows.len(),
{
    if rows.len() == 0 {
        0
    } else {
        zone_fraction_sum(rows.drop_last(), z) + if rows.last().zone_name@ == z {
            rows.last().opp_fg_pct as int
        } else {
            0
        }
    }
}

/// League average allowed percentage for zone `z` (micro-units of a percent, rounded down);
/// zero without rows.
pub open spec fn league_average_pct(rows: Seq<TeamDefensiveZones>, z: Seq<char>) -> int {
    let n = zone_row_count(rows, z);
    if n == 0 {
        0
    } else {
        zone_fraction_sum(rows, z) * 100 / n
    }
}

/// Number of league rows for zone `z` ahead of row `o` in ascending order of the allowed
/// fraction `pct`, rows with equal fractions keeping their order.
pub open spec fn rows_ahead(rows: Seq<TeamDefensiveZones>, z: Seq<char>, pct: int, o: int) -> int
    decreases rows.len(),
{
    if rows.len() == 0 {
        0
    } else {
        let j = rows.len() - 1;
        let r = rows.last();
        rows_ahead(rows.drop_last(), z, pct, o) + if r.zone_name@ == z && (r.opp_fg_pct < pct || (
        r.opp_fg_pct == pct && j < o)) {
            1int
        } else {
            0
        }
    }
}

/// Sum of a player's attempts over the rows of the fixed zones.
pub open spec fn total_attempts(rows: Seq<PlayerShootingZones>) -> int
    decreases rows.len(),
{
    if rows.len() == 0 {
        0
    } else {
        total_attempts(rows.drop_last()) + if is_fixed_zone(rows.last().zone_name@) {
            rows.last().fga as int
        } else {
            0
        }
    }
}

/// Combined matchup signal in percentage points: how far the player shoots above the
/// league average plus how far the opponent allows above it.
pub open spec fn zone_advantage(player_pct: int, opp_pct: int, league_pct: int) -> int {
    (player_pct - league_pct) + (opp_pct - league_pct)
}

/// The advantage is unchanged when the player's percentage, the opponent's allowed
/// percentage and the league average all move by the same amount.
pub proof fn law_advantage_shift(player_pct: int, opp_pct: int, league_pct: int, c: int)
    ensures
        zone_advantage(player_pct + c, opp_pct + c, league_pct + c) == zone_advantage(
            player_pct,
            opp_pct,
            league_pct,
        ),
{
}

pub open spec fn valid_fraction(x: i64) -> bool {
    0 <= x <= 1_000_000
}

pub open spec fn valid_percentage(x: i64) -> bool {
    0 <= x <= HUNDRED_PCT
}

/// `m` is the matchup entry for the fixed zone at position `i`.
pub open spec fn is_zone_matchup(
    m: ShootingZoneMatchup,
    i: int,
    player_rows: Seq<PlayerShootingZones>,
    opponent_id: i64,
    league: Seq<TeamDefensiveZones>,
) -> bool {
    let z = zone_name(i);
    let p = player_zone_index(player_rows, z);
    let o = team_zone_index(league, opponent_id, z);
    let avg = league_average_pct(league, z);
    let total = total_attempts(player_rows);
    let (fgm, fga, pct) = match p {
        Some(k) => (player_rows[k].fgm as int, player_rows[k].fga as int, player_rows[k].fg_pct as int),
        None => (0, 0, 0),
    };
    let opp_pct = match o {
        Some(k) => league[k].opp_fg_pct * 100,
        None => 0,
    };
    &&& m.zone_name@ == z
    &&& m.is_three == zone_is_three(i)
    &&& m.player_fgm == fgm
    &&& m.player_fga == fga
    &&& m.player_fg_pct == pct
    &&& m.player_volume_pct == (if total > 0 {
        fga * HUNDRED_PCT / total
    } else {
        0
    })
    &&& m.opp_fg_pct == opp_pct
    &&& m.league_avg_pct == avg
    &&& m.opp_rank == (match o {
        Some(k) => 1 + rows_ahead(league, z, league[k].opp_fg_pct as int, k),
        None => DEFAULT_ZONE_RANK as int,
    })
    &&& m.advantage == zone_advantage(pct, opp_pct, avg)
    &&& m.has_data == (p is Some && o is Some)
}

fn player_zone_position(rows: &Vec<PlayerShootingZones>, z: &str) -> (r: Option<usize>)
    ensures
        player_zone_index(rows@, z@) == (match r {
            Some(k) => Some(k as int),
            None => None,
        }),
        r matches Some(k) ==> k < rows@.len(),
{
    let mut i: usize = 0;
    while i < rows.len()
        invariant
            i <= rows@.len(),
            player_zone_index(rows@.take(i as int), z@) is None,
        decreases rows.len() - i,
    {
        assert(rows@.take(i + 1).drop_last() =~= rows@.take(i as int));
        if same_text(rows[i].zone_name.as_str(), z) {
            proof {
                lemma_player_zone_prefix(rows@, z@, i as int);
            }
            return Some(i);
        }
        i += 1;
    }
    assert(rows@.take(rows@.len() as int) =~= rows@);
    None
}

proof fn lemma_player_zone_prefix(rows: Seq<PlayerShootingZones>, z: Seq<char>, i: int)
    requires
        0 <= i < rows.len(),
        player_zone_index(rows.take(i + 1), z) == Some(i),
    ensures
        player_zone_index(rows, z) == Some(i),
    decreases rows.len(),
{
    if rows.len() > i + 1 {
        assert(rows.drop_last().take(i + 1) =~= rows.take(i + 1));
        lemma_player_zone_prefix(rows.drop_last(), z, i);
    } else {
        assert(rows.take(i + 1) =~= rows);
    }
}

proof fn lemma_team_zone_prefix(rows: Seq<TeamDefensiveZones>, team: i64, z: Seq<char>, i: int)
    requires
        0 <= i < rows.len(),
        team_zone_index(rows.take(i + 1), team, z) == Some(i),
    ensures
        team_zone_index(rows, team, z) == Some(i),
    decreases rows.len(),
{
    if rows.len() > i + 1 {
        assert(rows.drop_last().take(i + 1) =~= rows.take(i + 1));
        lemma_team_zone_prefix(rows.drop_last(), team, z, i);
    } else {
        assert(rows.take(i + 1) =~= rows);
    }
}

fn team_zone_position(rows: &Vec<TeamDefensiveZones>, team: i64, z: &str) -> (r: Option<usize>)
    ensures
        team_zone_index(rows@, team, z@) == (match r {
            Some(k) => Some(k as int),
            None => None,
        }),
        r matches Some(k) ==> k < rows@.len(),
{
    let mut i: usize = 0;
    while i < rows.len()
        invariant
            i <= rows@.len(),
            team_zone_index(rows@.take(i as int), team, z@) is None,
        decreases rows.len() - i,
    {
        assert(rows@.take(i + 1).drop_last() =~= rows@.take(i as int));
        if rows[i].team_id == team && same_text(rows[i].zone_name.as_str(), z) {
            proof {
                lemma_team_zone_prefix(rows@, team, z@, i as int);
            }
            return Some(i);
        }
        i += 1;
    }
    assert(rows@.take(rows@.len() as int) =~= rows@);
    None
}


fn zone_totals(rows: &Vec<TeamDefensiveZones>, z: &str) -> (r: (u64, u128))
    requires
        forall|k: int| 0 <= k < rows@.len() ==> valid_fraction(#[trigger] rows@[k].opp_fg_pct),
        rows@.len() <= usize::MAX,
    ensures
        r.0 == zone_row_count(rows@, z@),
        r.1 == zone_fraction_sum(rows@, z@),
        r.1 <= 1_000_000 * r.0,
{
    let mut n: u64 = 0;
    let mut sum: u128 = 0;
    let mut i: usize = 0;
    while i < rows.len()
        invariant
            i <= rows@.len(),
            forall|k: int| 0 <= k < rows@.len() ==> valid_fraction(#[trigger] rows@[k].opp_fg_pct),
            n == zone_row_count(rows@.take(i as int), z@),
            sum == zone_fraction_sum(rows@.take(i as int), z@),
            n <= i,
            sum <= 1_000_000 * n,
        decreases rows.len() - i,
    {
        assert(rows@.take(i + 1).drop_last() =~= rows@.take(i as int));
        assert(rows@.take(i + 1).last() == rows@[i as int]);
        if same_text(rows[i].zone_name.as_str(), z) {
            n += 1;
            sum += rows[i].opp_fg_pct as u128;
        }
        i += 1;
    }
    assert(rows@.take(rows@.len() as int) =~= rows@);
    (n, sum)
}

fn count_ahead(rows: &Vec<TeamDefensiveZones>, z: &str, pct: i64, o: usize) -> (r: u64)
    ensures
        r == rows_ahead(rows@, z@, pct as int, o as int),
        r <= rows@.len(),
{
    let mut n: u64 = 0;
    let mut i: usize = 0;
    while i < rows.len()
        invariant
            i <= rows@.len(),
            n == rows_ahead(rows@.take(i as int), z@, pct as int, o as int),
            n <= i,
        decreases rows.len() - i,
    {
        assert(rows@.take(i + 1).drop_last() =~= rows@.take(i as int));
        assert(rows@.take(i + 1).last() == rows@[i as int]);
        let r = &rows[i];
        if same_text(r.zone_name.as_str(), z) && (r.opp_fg_pct < pct || (r.opp_fg_pct == pct && i
            < o)) {
            n += 1;
        }
        i += 1;
    }
    assert(rows@.take(rows@.len() as int) =~= rows@);
    n
}

fn attempts_total(rows: &Vec<PlayerShootingZones>) -> (r: u128)
    ensures
        r == total_attempts(rows@),
        r <= 0x1_0000_0000_0000_0000 * rows@.len(),
{
    let mut t: u128 = 0;
    let mut i: usize = 0;
    while i < rows.len()
        invariant
            i <= rows@.len(),
            t == total_attempts(rows@.take(i as int)),
            t <= 0x1_0000_0000_0000_0000 * i,
        decreases rows.len() - i,
    {
        assert(rows@.take(i + 1).drop_last() =~= rows@.take(i as int));
        assert(rows@.take(i + 1).last() == rows@[i as int]);
        if is_fixed_zone_name(rows[i].zone_name.as_str()) {
            t += rows[i].fga as u128;
        }
        i += 1;
    }
    assert(rows@.take(rows@.len() as int) =~= rows@);
    t
}

proof fn lemma_fixed_zone_attempts(rows: Seq<PlayerShootingZones>, k: int)
    requires
        0 <= k < rows.len(),
        is_fixed_zone(rows[k].zone_name@),
    ensures
        rows[k].fga <= total_attempts(rows),
        0 <= total_attempts(rows),
    decreases rows.len(),
{
    if k < rows.len() - 1 {
        lemma_fixed_zone_attempts(rows.drop_last(), k);
    } else {
        lemma_attempts_nonneg(rows.drop_last());
    }
}

proof fn lemma_attempts_nonneg(rows: Seq<PlayerShootingZones>)
    ensures
        0 <= total_attempts(rows),
    decreases rows.len(),
{
    if rows.len() > 0 {
        lemma_attempts_nonneg(rows.drop_last());
    }
}

proof fn lemma_first_zone_row_named(rows: Seq<PlayerShootingZones>, z: Seq<char>)
    requires
        player_zone_index(rows, z) is Some,
    ensures
        ({
            let k = player_zone_index(rows, z)->0;
            0 <= k < rows.len() && rows[k].zone_name@ == z
        }),
    decreases rows.len(),
{
    if rows.len() > 0 {
        if player_zone_index(rows.drop_last(), z) is Some {
            lemma_first_zone_row_named(rows.drop_last(), z);
        }
    }
}

proof fn lemma_team_row_named(rows: Seq<TeamDefensiveZones>, team: i64, z: Seq<char>)
    requires
        team_zone_index(rows, team, z) is Some,
    ensures
        ({
            let k = team_zone_index(rows, team, z)->0;
            0 <= k < rows.len() && rows[k].zone_name@ == z && rows[k].team_id == team
        }),
    decreases rows.len(),
{
    if rows.len() > 0 {
        if team_zone_index(rows.drop_last(), team, z) is Some {
            lemma_team_row_named(rows.drop_last(), team, z);
        }
    }
}

/// The matchup entry of one fixed zone.
fn zone_entry(
    i: usize,
    player_zones: &Vec<PlayerShootingZones>,
    total: u128,
    opponent_id: i64,
    league: &Vec<TeamDefensiveZones>,
) -> (m: ShootingZoneMatchup)
    requires
        i < ZONE_COUNT,
        total == total_attempts(player_zones@),
        forall|k: int| 0 <= k < player_zones@.len() ==> valid_percentage(#[trigger] player_zones@[k].fg_pct),
        forall|k: int| 0 <= k < league@.len() ==> valid_fraction(#[trigger] league@[k].opp_fg_pct),
        league@.len() < i32::MAX,
    ensures
        is_zone_matchup(m, i as int, player_zones@, opponent_id, league@),
{
    let (name, is_three) = fixed_zone(i);
    let p = player_zone_position(player_zones, name);
    let o = team_zone_position(league, opponent_id, name);
    let (n, sum) = zone_totals(league, name);
    let avg: i64 = if n == 0 {
        0
    } else {
        assert(sum * 100 / (n as int) <= HUNDRED_PCT) by (nonlinear_arith)
            requires sum <= 1_000_000 * n, n > 0;
        ((sum * 100) / (n as u128)) as i64
    };
    let (fgm, fga, pct): (u64, u64, i64) = match p {
        Some(k) => (player_zones[k].fgm, player_zones[k].fga, player_zones[k].fg_pct),
        None => (0, 0, 0),
    };
    let volume: i64 = if total > 0 {
        proof {
            if p is Some {
                lemma_first_zone_row_named(player_zones@, zone_name(i as int));
                assert(is_fixed_zone(zone_name(i as int)));
                lemma_fixed_zone_attempts(player_zones@, p->0 as int);
            }
        }
        assert(fga <= total);
        assert(fga as int * HUNDRED_PCT / total as int <= HUNDRED_PCT) by (nonlinear_arith)
            requires fga <= total, total > 0;
        ((fga as u128 * 100_000_000) / total) as i64
    } else {
        0
    };
    let (opp_pct, rank): (i64, i32) = match o {
        Some(k) => {
            let f = league[k].opp_fg_pct;
            let ahead = count_ahead(league, name, f, k);
            (f * 100, (1 + ahead) as i32)
        },
        None => (0, DEFAULT_ZONE_RANK),
    };
    let advantage = (pct - avg) + (opp_pct - avg);
    ShootingZoneMatchup {
        zone_name: name.to_string(),
        player_fgm: fgm,
        player_fga: fga,
        player_fg_pct: pct,
        player_volume_pct: volume,
        opp_fg_pct: opp_pct,
        opp_rank: rank,
        league_avg_pct: avg,
        advantage,
        is_three,
        has_data: p.is_some() && o.is_some(),
    }
}

/// A player's shooting matchup against an opponent over the six fixed zones, in display
/// order. `league_zones` holds every team's defensive zone rows, the opponent's included.
pub fn shooting_zone_matchup(
    player_name: String,
    player_id: i64,
    opponent_name: String,
    opponent_id: i64,
    player_zones: &Vec<PlayerShootingZones>,
    league_zones: &Vec<TeamDefensiveZones>,
) -> (r: ShootingZoneMatchupResponse)
    requires
        forall|k: int| 0 <= k < player_zones@.len() ==> valid_percentage(#[trigger] player_zones@[k].fg_pct),
        forall|k: int| 0 <= k < league_zones@.len() ==> valid_fraction(#[trigger] league_zones@[k].opp_fg_pct),
        league_zones@.len() < i32::MAX,
    ensures
        r.player_name == player_name,
        r.player_id == player_id,
        r.opponent_name == opponent_name,
        r.opponent_id == opponent_id,
        r.total_fga == total_attempts(player_zones@),
        r.zones@.len() == ZONE_COUNT,
        forall|i: int|
            0 <= i < ZONE_COUNT ==> is_zone_matchup(
                #[trigger] r.zones@[i],
                i,
                player_zones@,
                opponent_id,
                league_zones@,
            ),
{
    let total = attempts_total(player_zones);
    let mut zones: Vec<ShootingZoneMatchup> = Vec::new();
    let mut i: usize = 0;
    while i < ZONE_COUNT
        invariant
            i <= ZONE_COUNT,
            total == total_attempts(player_zones@),
            forall|k: int| 0 <= k < player_zones@.len() ==> valid_percentage(#[trigger] player_zones@[k].fg_pct),
            forall|k: int| 0 <= k < league_zones@.len() ==> valid_fraction(#[trigger] league_zones@[k].opp_fg_pct),
            league_zones@.len() < i32::MAX,
            zones@.len() == i,
            forall|j: int|
                0 <= j < i ==> is_zone_matchup(
                    #[trigger] zones@[j],
                    j,
                    player_zones@,
                    opponent_id,
                    league_zones@,
                ),
        decreases ZONE_COUNT - i,
    {
        zones.push(zone_entry(i, player_zones, total, opponent_id, league_zones));
        i += 1;
    }
    ShootingZoneMatchupResponse {
        player_name,
        player_id,
        opponent_name,
        opponent_id,
        total_fga: total,
        zones,
    }
}


/// A player's assists from one zone.
#[derive(Debug)]
pub struct PlayerAssistZones {
    pub player_id: i64,
    pub season: String,
    pub zone_name: String,
    pub assists: i64,
    pub ast_fgm: i64,
    pub ast_fga: i64,
    pub last_updated: Option<String>,
}

/// One zone of an assist matchup. `player_ast_pct` is a percentage and `opp_def_fg_pct` a
/// fraction, both in micro-units.
#[derive(Debug)]
pub struct AssistZoneMatchup {
    pub zone_name: String,
    pub player_assists: i64,
    pub player_ast_pct: i64,
    pub opp_def_rank: i32,
    pub opp_def_fg_pct: i64,
    pub has_data: bool,
}

/// A player's assist matchup against an opponent, one entry per zone the player has data in.
#[derive(Debug)]
pub struct AssistZoneMatchupResponse {
    pub player_name: String,
    pub opponent_name: String,
    pub total_assists: i64,
    pub zones: Vec<AssistZoneMatchup>,
}

/// Sum of the assists over the rows.
pub open spec fn assist_total(rows: Seq<PlayerAssistZones>) -> int
    decreases rows.len(),
{
    if rows.len() == 0 {
        0
    } else {
        assist_total(rows.drop_last()) + rows.last().assists as int
    }
}

/// Number of league rows for zone `z` that allow a fraction strictly below `pct`.
pub open spec fn rows_below(rows: Seq<TeamDefensiveZones>, z: Seq<char>, pct: int) -> int
    decreases rows.len(),
{
    if rows.len() == 0 {
        0
    } else {
        rows_below(rows.drop_last(), z, pct) + if rows.last().zone_name@ == z
            && rows.last().opp_fg_pct < pct {
            1int
        } else {
            0
        }
    }
}

/// `m` is the assist matchup entry for player row `a`.
pub open spec fn is_assist_matchup(
    m: AssistZoneMatchup,
    a: PlayerAssistZones,
    total: int,
    opponent_id: i64,
    league: Seq<TeamDefensiveZones>,
) -> bool {
    let o = team_zone_index(league, opponent_id, a.zone_name@);
    &&& m.zone_name == a.zone_name
    &&& m.player_assists == a.assists
    &&& m.player_ast_pct == (if total > 0 {
        a.assists * HUNDRED_PCT / total
    } else {
        0
    })
    &&& match o {
        Some(k) => {
            &&& m.opp_def_fg_pct == league[k].opp_fg_pct
            &&& m.opp_def_rank == 1 + rows_below(league, a.zone_name@, league[k].opp_fg_pct as int)
            &&& m.has_data
        },
        None => m.opp_def_fg_pct == 0 && m.opp_def_rank == 0 && !m.has_data,
    }
}

proof fn lemma_assist_total_bounds(rows: Seq<PlayerAssistZones>, k: int)
    requires
        0 <= k < rows.len(),
        forall|j: int| 0 <= j < rows.len() ==> #[trigger] rows[j].assists >= 0,
    ensures
        rows[k].assists <= assist_total(rows),
    decreases rows.len(),
{
    lemma_assist_total_nonneg(rows.drop_last());
    if k < rows.len() - 1 {
        assert forall|j: int| 0 <= j < rows.drop_last().len() implies #[trigger] rows.drop_last()[j].assists >= 0 by {
            assert(rows.drop_last()[j] == rows[j]);
        }
        lemma_assist_total_bounds(rows.drop_last(), k);
        assert(rows[rows.len() - 1].assists >= 0);
    }
}

proof fn lemma_assist_total_nonneg(rows: Seq<PlayerAssistZones>)
    requires
        forall|j: int| 0 <= j < rows.len() ==> #[trigger] rows[j].assists >= 0,
    ensures
        0 <= assist_total(rows),
    decreases rows.len(),
{
    if rows.len() > 0 {
        assert forall|j: int| 0 <= j < rows.drop_last().len() implies #[trigger] rows.drop_last()[j].assists >= 0 by {
            assert(rows.drop_last()[j] == rows[j]);
        }
        lemma_assist_total_nonneg(rows.drop_last());
        assert(rows[rows.len() - 1].assists >= 0);
    }
}

fn count_below(rows: &Vec<TeamDefensiveZones>, z: &str, pct: i64) -> (r: u64)
    ensures
        r == rows_below(rows@, z@, pct as int),
        r <= rows@.len(),
{
    let mut n: u64 = 0;
    let mut i: usize = 0;
    while i < rows.len()
        invariant
            i <= rows@.len(),
            n == rows_below(rows@.take(i as int), z@, pct as int),
            n <= i,
        decreases rows.len() - i,
    {
        assert(rows@.take(i + 1).drop_last() =~= rows@.take(i as int));
        assert(rows@.take(i + 1).last() == rows@[i as int]);
        if same_text(rows[i].zone_name.as_str(), z) && rows[i].opp_fg_pct < pct {
            n += 1;
        }
        i += 1;
    }
    assert(rows@.take(rows@.len() as int) =~= rows@);
    n
}

/// A player's assist matchup against an opponent: for each of the player's assist zones,
/// in the given order, the share of the player's assists, the opponent's allowed fraction
/// and the opponent's rank (one plus the number of league rows allowing strictly less).
pub fn assist_zone_matchup(
    player_name: String,
    opponent_name: String,
    player_zones: &Vec<PlayerAssistZones>,
    opponent_id: i64,
    league_zones: &Vec<TeamDefensiveZones>,
) -> (r: AssistZoneMatchupResponse)
    requires
        forall|k: int| 0 <= k < player_zones@.len() ==> #[trigger] player_zones@[k].assists >= 0,
        assist_total(player_zones@) <= i64::MAX,
        league_zones@.len() < i32::MAX,
    ensures
        r.player_name == player_name,
        r.opponent_name == opponent_name,
        r.total_assists == assist_total(player_zones@),
        r.zones@.len() == player_zones@.len(),
        forall|i: int|
            0 <= i < player_zones@.len() ==> is_assist_matchup(
                #[trigger] r.zones@[i],
                player_zones@[i],
                assist_total(player_zones@),
                opponent_id,
                league_zones@,
            ),
{
    let mut total: i64 = 0;
    let mut i: usize = 0;
    while i < player_zones.len()
        invariant
            i <= player_zones@.len(),
            forall|k: int| 0 <= k < player_zones@.len() ==> #[trigger] player_zones@[k].assists >= 0,
            assist_total(player_zones@) <= i64::MAX,
            total == assist_total(player_zones@.take(i as int)),
        decreases player_zones.len() - i,
    {
        assert(player_zones@.take(i + 1).drop_last() =~= player_zones@.take(i as int));
        proof {
            let pre = player_zones@.take(i + 1);
            assert forall|j: int| 0 <= j < pre.len() implies #[trigger] pre[j].assists >= 0 by {
                assert(pre[j] == player_zones@[j]);
            }
            lemma_assist_total_bounds(pre, i as int);
            lemma_assist_prefix_le(player_zones@, i + 1);
        }
        total = total + player_zones[i].assists;
        i += 1;
    }
    assert(player_zones@.take(player_zones@.len() as int) =~= player_zones@);
    let mut zones: Vec<AssistZoneMatchup> = Vec::new();
    let mut i: usize = 0;
    while i < player_zones.len()
        invariant
            i <= player_zones@.len(),
            forall|k: int| 0 <= k < player_zones@.len() ==> #[trigger] player_zones@[k].assists >= 0,
            total == assist_total(player_zones@),
            league_zones@.len() < i32::MAX,
            zones@.len() == i,
            forall|j: int|
                0 <= j < i ==> is_assist_matchup(
                    #[trigger] zones@[j],
                    player_zones@[j],
                    total as int,
                    opponent_id,
                    league_zones@,
                ),
        decreases player_zones.len() - i,
    {
        let a = &player_zones[i];
        let pct: i64 = if total > 0 {
            proof {
                lemma_assist_total_bounds(player_zones@, i as int);
            }
            assert(a.assists as int * HUNDRED_PCT / total as int <= HUNDRED_PCT) by (nonlinear_arith)
                requires 0 <= a.assists <= total, total > 0;
            ((a.assists as i128 * 100_000_000) / (total as i128)) as i64
        } else {
            0
        };
        let m = match team_zone_position(league_zones, opponent_id, a.zone_name.as_str()) {
            Some(k) => {
                let f = league_zones[k].opp_fg_pct;
                let below = count_below(league_zones, a.zone_name.as_str(), f);
                AssistZoneMatchup {
                    zone_name: a.zone_name.clone(),
                    player_assists: a.assists,
                    player_ast_pct: pct,
                    opp_def_rank: (1 + below) as i32,
                    opp_def_fg_pct: f,
                    has_data: true,
                }
            },
            None => AssistZoneMatchup {
                zone_name: a.zone_name.clone(),
                player_assists: a.assists,
                player_ast_pct: pct,
                opp_def_rank: 0,
                opp_def_fg_pct: 0,
                has_data: false,
            },
        };
        zones.push(m);
        i += 1;
    }
    AssistZoneMatchupResponse { player_name, opponent_name, total_assists: total, zones }
}

proof fn lemma_assist_prefix_le(rows: Seq<PlayerAssistZones>, i: int)
    requires
        0 <= i <= rows.len(),
        forall|j: int| 0 <= j < rows.len() ==> #[trigger] rows[j].assists >= 0,
    ensures
        assist_total(rows.take(i)) <= assist_total(rows),
    decreases rows.len(),
{
    if i < rows.len() {
        assert forall|j: int| 0 <= j < rows.drop_last().len() implies #[trigger] rows.drop_last()[j].assists >= 0 by {
            assert(rows.drop_last()[j] == rows[j]);
        }
        assert(rows.drop_last().take(i) =~= rows.take(i));
        lemma_assist_prefix_le(rows.drop_last(), i);
        assert(rows[rows.len() - 1].assists >= 0);
    } else {
        assert(rows.take(i) =~= rows);
    }
}

} // verus!
