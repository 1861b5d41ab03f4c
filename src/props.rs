use vstd::prelude::*;
use crate::ranking::{is_top_desc, top_desc, Ranked};
use crate::schedule::{copy_opt, Team};
use crate::text::same_text;

verus! {

/// One posted reference-book line. `stat_value` and `decimal_price` are in micro-units.
#[derive(Debug)]
pub struct UnderdogProp {
    pub id: i64,
    pub full_name: String,
    pub team_name: Option<String>,
    pub opponent_name: Option<String>,
    pub stat_name: String,
    pub stat_value: i64,
    pub choice: String,
    pub american_price: Option<i64>,
    pub decimal_price: Option<i64>,
    pub scheduled_at: Option<String>,
}

/// Over and under odds of one stat combined. `line` is in micro-units.
#[derive(Debug)]
pub struct PropLine {
    pub stat_name: String,
    pub line: i64,
    pub over_odds: Option<i64>,
    pub under_odds: Option<i64>,
    pub opponent: Option<String>,
    pub scheduled_at: Option<String>,
}

/// A player's lines with the opponent.
#[derive(Debug)]
pub struct PlayerPropsResponse {
    pub player_name: String,
    pub opponent_id: Option<i64>,
    pub opponent_name: Option<String>,
    pub props: Vec<PropLine>,
}

/// Display position of a stat; unknown stats come last.
pub open spec fn stat_order(s: Seq<char>) -> int {
    if s == "points"@ {
        0
    } else if s == "rebounds"@ {
        1
    } else if s == "assists"@ {
        2
    } else if s == "pts_rebs_asts"@ {
        3
    } else if s == "pts_asts"@ {
        4
    } else if s == "pts_rebs"@ {
        5
    } else if s == "rebs_asts"@ {
        6
    } else if s == "three_points_made"@ {
        7
    } else if s == "blks_stls"@ {
        8
    } else if s == "steals"@ {
        9
    } else if s == "blocks"@ {
        10
    } else if s == "turnovers"@ {
        11
    } else if s == "free_throws_made"@ {
        12
    } else {
        99
    }
}

fn stat_order_of(s: &str) -> (r: i64)
    ensures
        r == stat_order(s@),
{
    if same_text(s, "points") {
        0
    } else if same_text(s, "rebounds") {
        1
    } else if same_text(s, "assists") {
        2
    } else if same_text(s, "pts_rebs_asts") {
        3
    } else if same_text(s, "pts_asts") {
        4
    } else if same_text(s, "pts_rebs") {
        5
    } else if same_text(s, "rebs_asts") {
        6
    } else if same_text(s, "three_points_made") {
        7
    } else if same_text(s, "blks_stls") {
        8
    } else if same_text(s, "steals") {
        9
    } else if same_text(s, "blocks") {
        10
    } else if same_text(s, "turnovers") {
        11
    } else if same_text(s, "free_throws_made") {
        12
    } else {
        99
    }
}

impl Ranked for PropLine {
    open spec fn rank_key(&self) -> int {
        -stat_order(self.stat_name@)
    }

    fn key(&self) -> (k: i128) {
        -(stat_order_of(self.stat_name.as_str()) as i128)
    }
}

/// The distinct stats of the lines, in order of first appearance.
pub open spec fn stat_keys(props: Seq<UnderdogProp>) -> Seq<Seq<char>>
    decreases props.len(),
{
    if props.len() == 0 {
        seq![]
    } else {
        let ks = stat_keys(props.drop_last());
        if ks.contains(props.last().stat_name@) {
            ks
        } else {
            ks.push(props.last().stat_name@)
        }
    }
}

/// The value of the first line of stat `k`.
pub open spec fn first_value(props: Seq<UnderdogProp>, k: Seq<char>) -> i64
    decreases props.len(),
{
    if props.len() == 0 {
        0
    } else if stat_keys(props.drop_last()).contains(k) {
        first_value(props.drop_last(), k)
    } else {
        props.last().stat_value
    }
}

/// The price of the last line of stat `k` on side `choice`; none without such a line.
pub open spec fn last_price(props: Seq<UnderdogProp>, k: Seq<char>, choice: Seq<char>) -> Option<i64>
    decreases props.len(),
{
    if props.len() == 0 {
        None
    } else if props.last().stat_name@ == k && props.last().choice@ == choice {
        props.last().american_price
    } else {
        last_price(props.drop_last(), k, choice)
    }
}

/// `l` combines the lines of stat `k`; opponent and time come from the first line overall.
pub open spec fn is_line_of(l: PropLine, props: Seq<UnderdogProp>, k: Seq<char>) -> bool {
    &&& l.stat_name@ == k
    &&& l.line == first_value(props, k)
    &&& l.over_odds == last_price(props, k, "over"@)
    &&& l.under_odds == last_price(props, k, "under"@)
    &&& l.opponent == props[0].opponent_name
    &&& l.scheduled_at == props[0].scheduled_at
}

/// `ls` combine the lines of each stat, in order of first appearance.
pub open spec fn are_lines_of(ls: Seq<PropLine>, props: Seq<UnderdogProp>) -> bool {
    let ks = stat_keys(props);
    ls.len() == ks.len() && forall|j: int| 0 <= j < ks.len() ==> #[trigger] is_line_of(ls[j], props, ks[j])
}

proof fn lemma_stat_keys_distinct(props: Seq<UnderdogProp>)
    ensures
        stat_keys(props).no_duplicates(),
    decreases props.len(),
{
    if props.len() > 0 {
        lemma_stat_keys_distinct(props.drop_last());
        let ks = stat_keys(props.drop_last());
        let k = props.last().stat_name@;
        if !ks.contains(k) {
            assert forall|i: int, j: int|
                0 <= i < ks.push(k).len() && 0 <= j < ks.push(k).len() && i != j implies ks.push(
                k,
            )[i] != ks.push(k)[j] by {
                if i == ks.len() {
                    assert(ks[j] != k);
                } else if j == ks.len() {
                    assert(ks[i] != k);
                }
            }
        }
    }
}

fn find_line(lines: &Vec<PropLine>, stat: &String) -> (r: Option<usize>)
    ensures
        r matches Some(j) ==> j < lines@.len() && lines@[j as int].stat_name@ == stat@,
        r is None ==> forall|j: int| 0 <= j < lines@.len() ==> lines@[j].stat_name@ != stat@,
{
    let mut j: usize = 0;
    while j < lines.len()
        invariant
            j <= lines@.len(),
            forall|m: int| 0 <= m < j ==> lines@[m].stat_name@ != stat@,
        decreases lines.len() - j,
    {
        if lines[j].stat_name == *stat {
            return Some(j);
        }
        j += 1;
    }
    None
}

/// Combines over and under lines per stat, in order of first appearance.
pub fn combine_prop_lines(props: &Vec<UnderdogProp>) -> (r: Vec<PropLine>)
    requires
        props@.len() > 0,
    ensures
        are_lines_of(r@, props@),
{
    let ghost all = props@;
    let mut lines: Vec<PropLine> = Vec::new();
    let mut i: usize = 0;
    while i < props.len()
        invariant
            0 < props@.len(),
            all == props@,
            i <= props@.len(),
            lines@.len() == stat_keys(props@.take(i as int)).len(),
            forall|j: int|
                0 <= j < lines@.len() ==> {
                    let ks = stat_keys(props@.take(i as int));
                    let l = #[trigger] lines@[j];
                    &&& l.stat_name@ == ks[j]
                    &&& l.line == first_value(props@.take(i as int), ks[j])
                    &&& l.over_odds == last_price(props@.take(i as int), ks[j], "over"@)
                    &&& l.under_odds == last_price(props@.take(i as int), ks[j], "under"@)
                    &&& l.opponent == props@[0].opponent_name
                    &&& l.scheduled_at == props@[0].scheduled_at
                },
        decreases props.len() - i,
    {
        let ghost pre = props@.take(i as int);
        let ghost post = props@.take(i + 1);
        let ghost ks = stat_keys(pre);
        let ghost before = lines@;
        let x = &props[i];
        assert(post.drop_last() =~= pre);
        assert(post.last() == props@[i as int]);
        proof {
            lemma_stat_keys_distinct(pre);
        }
        let is_over = same_text(x.choice.as_str(), "over");
        let is_under = same_text(x.choice.as_str(), "under");
        match find_line(&lines, &x.stat_name) {
            Some(j) => {
                assert(ks.contains(x.stat_name@)) by {
                    assert(ks[j as int] == x.stat_name@);
                }
                let mut l = lines.remove(j);
                if is_over {
                    l.over_odds = x.american_price;
                }
                if is_under {
                    l.under_odds = x.american_price;
                }
                lines.insert(j, l);
                assert forall|m: int| 0 <= m < lines@.len() implies {
                    let ks2 = stat_keys(post);
                    let l = #[trigger] lines@[m];
                    &&& l.stat_name@ == ks2[m]
                    &&& l.line == first_value(post, ks2[m])
                    &&& l.over_odds == last_price(post, ks2[m], "over"@)
                    &&& l.under_odds == last_price(post, ks2[m], "under"@)
                    &&& l.opponent == props@[0].opponent_name
                    &&& l.scheduled_at == props@[0].scheduled_at
                } by {
                    if m != j {
                        assert(ks[m] != ks[j as int]);
                        assert(lines@[m] == before[m]);
                    }
                }
            },
            None => {
                assert(!ks.contains(x.stat_name@)) by {
                    if ks.contains(x.stat_name@) {
                        let m = choose|m: int| 0 <= m < ks.len() && ks[m] == x.stat_name@;
                        assert(before[m].stat_name@ == ks[m]);
                    }
                }
                proof {
                    lemma_no_price_without_key(pre, x.stat_name@, "over"@);
                    lemma_no_price_without_key(pre, x.stat_name@, "under"@);
                }
                lines.push(
                    PropLine {
                        stat_name: x.stat_name.clone(),
                        line: x.stat_value,
                        over_odds: if is_over { x.american_price } else { None },
                        under_odds: if is_under { x.american_price } else { None },
                        opponent: copy_opt(&props[0].opponent_name),
                        scheduled_at: copy_opt(&props[0].scheduled_at),
                    },
                );
                assert forall|m: int| 0 <= m < lines@.len() implies {
                    let ks2 = stat_keys(post);
                    let l = #[trigger] lines@[m];
                    &&& l.stat_name@ == ks2[m]
                    &&& l.line == first_value(post, ks2[m])
                    &&& l.over_odds == last_price(post, ks2[m], "over"@)
                    &&& l.under_odds == last_price(post, ks2[m], "under"@)
                    &&& l.opponent == props@[0].opponent_name
                    &&& l.scheduled_at == props@[0].scheduled_at
                } by {
                    if m < ks.len() {
                        assert(lines@[m] == before[m]);
                        assert(ks[m] != x.stat_name@) by {
                            assert(ks.contains(ks[m]));
                        }
                    }
                }
            },
        }
        i += 1;
    }
    assert(props@.take(props@.len() as int) =~= props@);
    lines
}

proof fn lemma_no_price_without_key(props: Seq<UnderdogProp>, k: Seq<char>, choice: Seq<char>)
    requires
        !stat_keys(props).contains(k),
    ensures
        last_price(props, k, choice) is None,
    decreases props.len(),
{
    if props.len() > 0 {
        let ks = stat_keys(props.drop_last());
        if ks.contains(k) {
            let m = choose|m: int| 0 <= m < ks.len() && ks[m] == k;
            if !ks.contains(props.last().stat_name@) {
                assert(ks.push(props.last().stat_name@)[m] == k);
            }
        }
        if props.last().stat_name@ == k {
            if !ks.contains(k) {
                assert(ks.push(k)[ks.len() as int] == k);
            }
        }
        lemma_no_price_without_key(props.drop_last(), k, choice);
    }
}

/// Index of the first team with the given full name.
pub open spec fn team_named(teams: Seq<Team>, name: Seq<char>) -> Option<int>
    decreases teams.len(),
{
    if teams.len() == 0 {
        None
    } else {
        match team_named(teams.drop_last(), name) {
            Some(i) => Some(i),
            None => if teams.last().full_name@ == name {
                Some(teams.len() - 1)
            } else {
                None
            },
        }
    }
}

proof fn lemma_team_named_prefix(teams: Seq<Team>, name: Seq<char>, i: int)
    requires
        0 <= i < teams.len(),
        team_named(teams.take(i + 1), name) == Some(i),
    ensures
        team_named(teams, name) == Some(i),
    decreases teams.len(),
{
    if teams.len() > i + 1 {
        assert(teams.drop_last().take(i + 1) =~= teams.take(i + 1));
        lemma_team_named_prefix(teams.drop_last(), name, i);
    } else {
        assert(teams.take(i + 1) =~= teams);
    }
}

/// The id of the first team with the given full name.
pub fn team_id_by_full_name(teams: &Vec<Team>, name: &String) -> (r: Option<i64>)
    ensures
        r == (match team_named(teams@, name@) {
            Some(i) => Some(teams@[i].team_id),
            None => None,
        }),
{
    let mut i: usize = 0;
    while i < teams.len()
        invariant
            i <= teams@.len(),
            team_named(teams@.take(i as int), name@) is None,
        decreases teams.len() - i,
    {
        assert(teams@.take(i + 1).drop_last() =~= teams@.take(i as int));
        if teams[i].full_name == *name {
            proof {
                lemma_team_named_prefix(teams@, name@, i as int);
            }
            return Some(teams[i].team_id);
        }
        i += 1;
    }
    assert(teams@.take(teams@.len() as int) =~= teams@);
    None
}

/// A player's lines for display: over and under combined per stat, ordered by stat
/// importance, with the opponent of the first line and its team id. Without lines, the
/// given player name and nothing else.
pub fn player_props_response(props: &Vec<UnderdogProp>, teams: &Vec<Team>, name_without_lines: String) -> (r: PlayerPropsResponse)
    ensures
        props@.len() == 0 ==> r.player_name == name_without_lines && r.opponent_id is None
            && r.opponent_name is None && r.props@.len() == 0,
        props@.len() > 0 ==> {
            &&& r.player_name == props@[0].full_name
            &&& r.opponent_name == props@[0].opponent_name
            &&& r.opponent_id == (match props@[0].opponent_name {
                Some(n) => match team_named(teams@, n@) {
                    Some(i) => Some(teams@[i].team_id),
                    None => None,
                },
                None => None,
            })
            &&& exists|ls: Seq<PropLine>| are_lines_of(ls, props@) && is_top_desc(r.props@, ls, ls.len())
        },
{
    if props.len() == 0 {
        return PlayerPropsResponse {
            player_name: name_without_lines,
            opponent_id: None,
            opponent_name: None,
            props: Vec::new(),
        };
    }
    let opponent_name = copy_opt(&props[0].opponent_name);
    let opponent_id = match &opponent_name {
        Some(n) => team_id_by_full_name(teams, n),
        None => None,
    };
    let lines = combine_prop_lines(props);
    let ghost ls = lines@;
    let n = lines.len();
    let sorted = top_desc(lines, n);
    assert(are_lines_of(ls, props@));
    PlayerPropsResponse {
        player_name: props[0].full_name.clone(),
        opponent_id,
        opponent_name,
        props: sorted,
    }
}

} // verus!
