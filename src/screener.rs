use vstd::prelude::*;
use crate::clock::{date_parsed, game_started, has_game_started, opt_view, EasternClock, GAME_DATE_FORMAT};
use crate::odds::{
    devig_den, devig_num, devigged_over_prob, implied_den, implied_num, implied_prob,
    lemma_mul_le, lemma_mul_pos, negligible_total,
};
use vstd::arithmetic::div_mod::lemma_fundamental_div_mod;
use crate::ranking::{is_top_desc, top_desc, Ranked};
use crate::schedule::copy_opt;

verus! {

/// Largest magnitude of American odds that the screener compares: within it, edges are
/// compared exactly in 128-bit arithmetic.
pub const MAX_ODDS: i32 = 1_000_000;

/// Odds assumed for the reference book when it posts none.
pub const DEFAULT_REFERENCE_ODDS: i32 = -110;

/// Two lines (in micro-units) closer than this are the same line.
pub const LINE_TOLERANCE: i64 = 10_000;

/// Number of picks returned at most by default.
pub const MAX_PICKS: usize = 20;

pub open spec fn valid_odds(o: int) -> bool {
    o != 0 && -MAX_ODDS <= o <= MAX_ODDS
}

pub open spec fn valid_opt_odds(o: Option<i32>) -> bool {
    o matches Some(v) ==> valid_odds(v as int)
}

/// One candidate: a reference-book line paired with one sharp book's line for the same
/// player, stat and game. Lines are in micro-units.
#[derive(Debug)]
pub struct TopPickRow {
    pub player_name: String,
    pub stat_type: String,
    pub ud_line: i64,
    pub ud_odds: Option<i32>,
    pub sportsbook: String,
    pub book_line: i64,
    pub over_odds: Option<i32>,
    pub under_odds: Option<i32>,
    pub home_team: String,
    pub away_team: String,
    pub game_date: String,
    pub game_time: Option<String>,
}

/// One sharp book's line (in micro-units) and odds.
#[derive(Debug)]
pub struct SharpBookLine {
    pub sportsbook: String,
    pub line: i64,
    pub over_odds: Option<i32>,
    pub under_odds: Option<i32>,
}

/// A selected pick. Probabilities and the edge are in tenths of a percent.
#[derive(Debug)]
pub struct TopPick {
    pub player_name: String,
    pub stat_type: String,
    pub direction: String,
    pub ud_line: i64,
    pub ud_odds: Option<i32>,
    pub ud_implied_prob: i64,
    pub edge_pct: i64,
    pub best_book: String,
    pub best_book_devigged_prob: i64,
    pub books: Vec<SharpBookLine>,
    pub home_team: String,
    pub away_team: String,
    pub game_date: String,
}

/// The picks for a date.
#[derive(Debug)]
pub struct TopPicksResponse {
    pub picks: Vec<TopPick>,
    pub last_updated: Option<String>,
}

impl Ranked for TopPick {
    open spec fn rank_key(&self) -> int {
        self.edge_pct as int
    }

    fn key(&self) -> (k: i128) {
        self.edge_pct as i128
    }
}

impl TopPickRow {
    pub open spec fn wf(&self) -> bool {
        valid_opt_odds(self.ud_odds) && valid_opt_odds(self.over_odds) && valid_opt_odds(
            self.under_odds,
        )
    }

    pub fn copy(&self) -> (r: TopPickRow)
        ensures
            r == *self,
    {
        TopPickRow {
            player_name: self.player_name.clone(),
            stat_type: self.stat_type.clone(),
            ud_line: self.ud_line,
            ud_odds: self.ud_odds,
            sportsbook: self.sportsbook.clone(),
            book_line: self.book_line,
            over_odds: self.over_odds,
            under_odds: self.under_odds,
            home_team: self.home_team.clone(),
            away_team: self.away_team.clone(),
            game_date: self.game_date.clone(),
            game_time: copy_opt(&self.game_time),
        }
    }
}

/// The sharp book's part of a candidate row.
pub open spec fn book_of(r: TopPickRow) -> SharpBookLine {
    SharpBookLine {
        sportsbook: r.sportsbook,
        line: r.book_line,
        over_odds: r.over_odds,
        under_odds: r.under_odds,
    }
}

/// The grouping key of a row: player and stat.
pub open spec fn row_key(r: TopPickRow) -> (Seq<char>, Seq<char>) {
    (r.player_name@, r.stat_type@)
}

/// The row's game has not started by `now`.
pub open spec fn is_live(now: (int, int, int, int, int)) -> spec_fn(TopPickRow) -> bool {
    |r: TopPickRow|
        !game_started(date_parsed(r.game_date@, GAME_DATE_FORMAT@), opt_view(r.game_time), now)
}

/// Rows whose game has not started by `now`.
pub open spec fn live_rows(rows: Seq<TopPickRow>, now: (int, int, int, int, int)) -> Seq<TopPickRow> {
    rows.filter(is_live(now))
}

/// The distinct keys of the rows, in order of first appearance.
pub open spec fn group_keys(rows: Seq<TopPickRow>) -> Seq<(Seq<char>, Seq<char>)>
    decreases rows.len(),
{
    if rows.len() == 0 {
        seq![]
    } else {
        let ks = group_keys(rows.drop_last());
        if ks.contains(row_key(rows.last())) {
            ks
        } else {
            ks.push(row_key(rows.last()))
        }
    }
}

/// The sharp-book lines of the rows with the given key, in order.
pub open spec fn group_books(rows: Seq<TopPickRow>, k: (Seq<char>, Seq<char>)) -> Seq<SharpBookLine>
    decreases rows.len(),
{
    if rows.len() == 0 {
        seq![]
    } else {
        let bs = group_books(rows.drop_last(), k);
        if row_key(rows.last()) == k {
            bs.push(book_of(rows.last()))
        } else {
            bs
        }
    }
}

/// The first row with the given key, which carries the group's reference line and game.
pub open spec fn group_head(rows: Seq<TopPickRow>, k: (Seq<char>, Seq<char>)) -> TopPickRow
    decreases rows.len(),
{
    if rows.len() == 0 {
        arbitrary()
    } else if group_keys(rows.drop_last()).contains(k) {
        group_head(rows.drop_last(), k)
    } else {
        rows.last()
    }
}

/// The groups of the rows: first row and sharp-book lines for each key.
pub open spec fn groups(rows: Seq<TopPickRow>) -> Seq<(TopPickRow, Seq<SharpBookLine>)> {
    group_keys(rows).map_values(
        |k: (Seq<char>, Seq<char>)| (group_head(rows, k), group_books(rows, k)),
    )
}

pub open spec fn reference_odds(head: TopPickRow) -> int {
    match head.ud_odds {
        Some(o) => o as int,
        None => DEFAULT_REFERENCE_ODDS as int,
    }
}

pub open spec fn abs(x: int) -> int {
    if x < 0 { -x } else { x }
}

/// A sharp line counts when it is within the tolerance of the reference line.
pub open spec fn line_matches(line: int, reference: int) -> bool {
    -LINE_TOLERANCE < line - reference < LINE_TOLERANCE
}

/// The edge `fair over - reference over` of a book as a ratio (numerator, positive
/// denominator); none when the book's market cannot be devigged.
pub open spec fn book_edge(b: SharpBookLine, ref_odds: int) -> Option<(int, int)> {
    match (b.over_odds, b.under_odds) {
        (Some(o), Some(u)) => if negligible_total(o as int, u as int) {
            None
        } else {
            let fair_n = devig_num(o as int, u as int);
            let fair_d = devig_den(o as int, u as int);
            Some(
                (
                    fair_n * implied_den(ref_odds) - implied_num(ref_odds) * fair_d,
                    fair_d * implied_den(ref_odds),
                ),
            )
        },
        _ => None,
    }
}

/// `|e| > |f|` for ratios with positive denominators.
pub open spec fn wider(e: (int, int), f: (int, int)) -> bool {
    abs(e.0) * f.1 > abs(f.0) * e.1
}

/// Index and edge of the matching book with the largest absolute edge (the first one on
/// ties); a book needs a nonzero edge.
pub open spec fn best_book(books: Seq<SharpBookLine>, reference: int, ref_odds: int) -> Option<
    (int, (int, int)),
>
    decreases books.len(),
{
    if books.len() == 0 {
        None
    } else {
        let prev = best_book(books.drop_last(), reference, ref_odds);
        let b = books.last();
        if line_matches(b.line as int, reference) {
            match book_edge(b, ref_odds) {
                Some(e) => if (match prev {
                    None => e.0 != 0,
                    Some((_, p)) => wider(e, p),
                }) {
                    Some(((books.len() - 1) as int, e))
                } else {
                    prev
                },
                None => prev,
            }
        } else {
            prev
        }
    }
}

/// `n / d` as tenths of a percent, rounded half up.
pub open spec fn tenths_pct(n: int, d: int) -> int {
    (2000 * n + d) / (2 * d)
}

/// A group yields a pick when some book matches and the best edge is at least 1/200.
pub open spec fn yields_pick(head: TopPickRow, books: Seq<SharpBookLine>) -> bool {
    match best_book(books, head.ud_line as int, reference_odds(head)) {
        Some((_, e)) => 200 * abs(e.0) >= e.1,
        None => false,
    }
}

/// `p` is the pick of the group with first row `head` and sharp-book lines `books`.
pub open spec fn is_pick_of(p: TopPick, head: TopPickRow, books: Seq<SharpBookLine>) -> bool {
    let (i, e) = best_book(books, head.ud_line as int, reference_odds(head))->0;
    let over = e.0 > 0;
    let ro = reference_odds(head);
    let b = books[i];
    let fair_n = devig_num(b.over_odds->0 as int, b.under_odds->0 as int);
    let fair_d = devig_den(b.over_odds->0 as int, b.under_odds->0 as int);
    &&& p.player_name == head.player_name
    &&& p.stat_type == head.stat_type
    &&& p.direction@ == (if over {
        seq!['O', 'V', 'E', 'R']
    } else {
        seq!['U', 'N', 'D', 'E', 'R']
    })
    &&& p.ud_line == head.ud_line
    &&& p.ud_odds == head.ud_odds
    &&& p.ud_implied_prob == (if over {
        tenths_pct(implied_num(ro), implied_den(ro))
    } else {
        tenths_pct(implied_den(ro) - implied_num(ro), implied_den(ro))
    })
    &&& p.edge_pct == tenths_pct(abs(e.0), e.1)
    &&& p.best_book == b.sportsbook
    &&& p.best_book_devigged_prob == (if over {
        tenths_pct(fair_n, fair_d)
    } else {
        tenths_pct(fair_d - fair_n, fair_d)
    })
    &&& p.books@ == books
    &&& p.home_team == head.home_team
    &&& p.away_team == head.away_team
    &&& p.game_date == head.game_date
}

pub open spec fn has_pick() -> spec_fn((TopPickRow, Seq<SharpBookLine>)) -> bool {
    |g: (TopPickRow, Seq<SharpBookLine>)| yields_pick(g.0, g.1)
}

/// The groups that yield a pick, in order of first appearance.
pub open spec fn pick_groups(rows: Seq<TopPickRow>) -> Seq<(TopPickRow, Seq<SharpBookLine>)> {
    groups(rows).filter(has_pick())
}

/// `picks` are the picks of the groups of `rows`, in order of first appearance.
pub open spec fn are_picks_of(picks: Seq<TopPick>, rows: Seq<TopPickRow>) -> bool {
    let gs = pick_groups(rows);
    picks.len() == gs.len() && forall|i: int|
        0 <= i < gs.len() ==> #[trigger] is_pick_of(picks[i], gs[i].0, gs[i].1)
}


proof fn lemma_implied_bounds(o: int)
    requires
        valid_odds(o),
    ensures
        1 <= implied_num(o) < implied_den(o) <= 1_000_100,
        101 <= implied_den(o),
{
}

proof fn lemma_fair_bounds(o: int, u: int)
    requires
        valid_odds(o),
        valid_odds(u),
    ensures
        0 < devig_num(o, u) < devig_den(o, u) <= 2_000_400_020_000,
        devig_num(o, u) <= 1_000_200_010_000,
{
    lemma_implied_bounds(o);
    lemma_implied_bounds(u);
    lemma_mul_le(implied_num(o), implied_den(u), 1_000_100, 1_000_100);
    lemma_mul_le(implied_num(u), implied_den(o), 1_000_100, 1_000_100);
    lemma_mul_pos(implied_num(o), implied_den(u));
    lemma_mul_pos(implied_num(u), implied_den(o));
}

proof fn lemma_edge_bounds(b: SharpBookLine, ref_odds: int)
    requires
        valid_opt_odds(b.over_odds),
        valid_opt_odds(b.under_odds),
        valid_odds(ref_odds),
        book_edge(b, ref_odds) is Some,
    ensures
        ({
            let e = book_edge(b, ref_odds)->0;
            0 < e.1 <= EDGE_DEN_BOUND && abs(e.0) < e.1
        }),
{
    let o = b.over_odds->0 as int;
    let u = b.under_odds->0 as int;
    lemma_implied_bounds(o);
    lemma_implied_bounds(u);
    lemma_implied_bounds(ref_odds);
    let (a, bb, c, d) = (implied_num(o), implied_den(o), implied_num(u), implied_den(u));
    let (un, ud) = (implied_num(ref_odds), implied_den(ref_odds));
    lemma_mul_le(a, d, 1_000_100, 1_000_100);
    lemma_mul_le(c, bb, 1_000_100, 1_000_100);
    lemma_mul_pos(a, d);
    lemma_mul_pos(c, bb);
    let fair_n = a * d;
    let fair_d = a * d + c * bb;
    lemma_mul_le(fair_d, ud, 2_000_400_020_000, 1_000_100);
    lemma_mul_pos(fair_d, ud);
    assert(fair_n * ud < fair_d * ud) by (nonlinear_arith)
        requires
            fair_n < fair_d,
            0 < ud,
    ;
    assert(un * fair_d < ud * fair_d) by (nonlinear_arith)
        requires
            un < ud,
            0 < fair_d,
    ;
    assert(0 < fair_n * ud) by (nonlinear_arith)
        requires
            0 < fair_n,
            0 < ud,
    ;
    assert(0 < un * fair_d) by (nonlinear_arith)
        requires
            0 < un,
            0 < fair_d,
    ;
    assert(ud * fair_d == fair_d * ud) by (nonlinear_arith);
}

/// Bound on the denominator of an edge between valid odds.
pub const EDGE_DEN_BOUND: u128 = 2_000_600_060_002_000_000;

fn tenths(n: u128, d: u128) -> (r: i64)
    requires
        n <= d,
        0 < d <= EDGE_DEN_BOUND,
    ensures
        r as int == tenths_pct(n as int, d as int),
        0 <= r <= 1000,
{
    let x = 2000 * n + d;
    let m = 2 * d;
    let q = x / m;
    proof {
        lemma_fundamental_div_mod(x as int, m as int);
    }
    assert(q <= 1000) by (nonlinear_arith)
        requires
            x == q * m + (x % m),
            0 <= x % m < m,
            x <= 2001 * d,
            m == 2 * d,
            d > 0,
    ;
    q as i64
}

fn direction_text(over: bool) -> (r: String)
    ensures
        r@ == (if over {
            seq!['O', 'V', 'E', 'R']
        } else {
            seq!['U', 'N', 'D', 'E', 'R']
        }),
{
    proof {
        reveal_strlit("OVER");
        reveal_strlit("UNDER");
    }
    if over {
        let r = String::from_str("OVER");
        assert(r@ =~= seq!['O', 'V', 'E', 'R']);
        r
    } else {
        let r = String::from_str("UNDER");
        assert(r@ =~= seq!['U', 'N', 'D', 'E', 'R']);
        r
    }
}

/// The pick of a group with first row `head` and sharp-book lines `books`: the matching
/// book with the largest absolute edge, when that edge is at least half a percent.
pub fn pick_for_group(head: &TopPickRow, books: Vec<SharpBookLine>) -> (r: Option<TopPick>)
    requires
        head.wf(),
        forall|i: int|
            0 <= i < books@.len() ==> valid_opt_odds(#[trigger] books@[i].over_odds)
                && valid_opt_odds(books@[i].under_odds),
    ensures
        r is Some <== yields_pick(*head, books@),
        r is Some ==> yields_pick(*head, books@),
        r matches Some(p) ==> is_pick_of(p, *head, books@),
{
    let ref_odds: i32 = match head.ud_odds {
        Some(o) => o,
        None => DEFAULT_REFERENCE_ODDS,
    };
    let ghost ro = ref_odds as int;
    assert(ro == reference_odds(*head));
    proof {
        lemma_implied_bounds(ro);
    }
    let reference = implied_prob(ref_odds);
    let un = reference.num as i128;
    let ud = reference.den as i128;
    let mut best: Option<(usize, i128, i128)> = None;
    let mut j: usize = 0;
    while j < books.len()
        invariant
            j <= books@.len(),
            valid_odds(ro),
            un == implied_num(ro),
            ud == implied_den(ro),
            forall|i: int|
                0 <= i < books@.len() ==> valid_opt_odds(#[trigger] books@[i].over_odds)
                    && valid_opt_odds(books@[i].under_odds),
            best_book(books@.take(j as int), head.ud_line as int, ro) == (match best {
                Some((bi, bn, bd)) => Some((bi as int, (bn as int, bd as int))),
                None => None,
            }),
            best matches Some((bi, bn, bd)) ==> bi < books@.len() && 0 < bd <= EDGE_DEN_BOUND
                && abs(bn as int) < bd && book_edge(books@[bi as int], ro) == Some(
                (bn as int, bd as int),
            ),
        decreases books.len() - j,
    {
        let b = &books[j];
        assert(books@.take(j + 1).drop_last() =~= books@.take(j as int));
        assert(books@.take(j + 1).last() == books@[j as int]);
        let diff = b.line as i128 - head.ud_line as i128;
        if -(LINE_TOLERANCE as i128) < diff && diff < LINE_TOLERANCE as i128 {
            match devigged_over_prob(b.over_odds, b.under_odds) {
                Some(fair) => {
                    proof {
                        lemma_edge_bounds(*b, ro);
                        lemma_fair_bounds(b.over_odds->0 as int, b.under_odds->0 as int);
                    }
                    let fn_ = fair.num as i128;
                    let fd = fair.den as i128;
                    proof {
                        lemma_mul_le(fn_ as int, ud as int, 0x100_0000_0000, 0x10_0000);
                        lemma_mul_le(un as int, fd as int, 0x10_0000, 0x200_0000_0000);
                        lemma_mul_le(fd as int, ud as int, 0x200_0000_0000, 0x10_0000);
                    }
                    let en = fn_ * ud - un * fd;
                    let ed = fd * ud;
                    assert(book_edge(*b, ro) == Some((en as int, ed as int)));
                    let abs_en: i128 = if en < 0 { -en } else { en };
                    let take = match best {
                        None => en != 0,
                        Some((_, bn, bd)) => {
                            let abs_bn: i128 = if bn < 0 { -bn } else { bn };
                            proof {
                                lemma_mul_le(abs_en as int, bd as int, EDGE_DEN_BOUND as int, EDGE_DEN_BOUND as int);
                                lemma_mul_le(abs_bn as int, ed as int, EDGE_DEN_BOUND as int, EDGE_DEN_BOUND as int);
                            }
                            abs_en * bd > abs_bn * ed
                        },
                    };
                    if take {
                        best = Some((j, en, ed));
                    }
                },
                None => {},
            }
        }
        j += 1;
    }
    assert(books@.take(books@.len() as int) =~= books@);
    let (bi, bn, bd) = match best {
        Some(t) => t,
        None => return None,
    };
    let abs_bn: i128 = if bn < 0 { -bn } else { bn };
    if 200 * abs_bn < bd {
        return None;
    }
    let over = bn > 0;
    let b = &books[bi];
    let fair = match devigged_over_prob(b.over_odds, b.under_odds) {
        Some(f) => f,
        None => return None,
    };
    proof {
        lemma_fair_bounds(b.over_odds->0 as int, b.under_odds->0 as int);
    }
    let ud_dir = if over { reference.num } else { reference.den - reference.num };
    let fair_dir = if over { fair.num } else { fair.den - fair.num };
    let ud_implied_prob = tenths(ud_dir as u128, reference.den as u128);
    let edge_pct = tenths(abs_bn as u128, bd as u128);
    let best_book_devigged_prob = tenths(fair_dir as u128, fair.den as u128);
    let best_book_name = b.sportsbook.clone();
    Some(
        TopPick {
            player_name: head.player_name.clone(),
            stat_type: head.stat_type.clone(),
            direction: direction_text(over),
            ud_line: head.ud_line,
            ud_odds: head.ud_odds,
            ud_implied_prob,
            edge_pct,
            best_book: best_book_name,
            best_book_devigged_prob,
            books,
            home_team: head.home_team.clone(),
            away_team: head.away_team.clone(),
            game_date: head.game_date.clone(),
        },
    )
}


proof fn lemma_keys_grow(rows: Seq<TopPickRow>, k: (Seq<char>, Seq<char>))
    requires
        rows.len() > 0,
        group_keys(rows.drop_last()).contains(k),
    ensures
        group_keys(rows).contains(k),
{
    let ks = group_keys(rows.drop_last());
    if !ks.contains(row_key(rows.last())) {
        let i = choose|i: int| 0 <= i < ks.len() && ks[i] == k;
        assert(ks.push(row_key(rows.last()))[i] == k);
    }
}

proof fn lemma_absent_key_no_books(rows: Seq<TopPickRow>, k: (Seq<char>, Seq<char>))
    requires
        !group_keys(rows).contains(k),
    ensures
        group_books(rows, k) == Seq::<SharpBookLine>::empty(),
    decreases rows.len(),
{
    if rows.len() > 0 {
        if group_keys(rows.drop_last()).contains(k) {
            lemma_keys_grow(rows, k);
        }
        lemma_absent_key_no_books(rows.drop_last(), k);
        let ks = group_keys(rows.drop_last());
        if row_key(rows.last()) == k {
            if !ks.contains(k) {
                assert(ks.push(k)[ks.len() as int] == k);
            }
        }
    }
}

proof fn lemma_keys_distinct(rows: Seq<TopPickRow>)
    ensures
        group_keys(rows).no_duplicates(),
    decreases rows.len(),
{
    if rows.len() > 0 {
        lemma_keys_distinct(rows.drop_last());
        let ks = group_keys(rows.drop_last());
        let k = row_key(rows.last());
        if !ks.contains(k) {
            assert forall|i: int, j: int|
                0 <= i < ks.push(k).len() && 0 <= j < ks.push(k).len() && i != j implies ks.push(
                k,
            )[i] != ks.push(k)[j] by {
                if i == ks.len() {
                    assert(ks[j] != k);
                } else if j == ks.len() {
                    assert(ks[i] != k);
                }
            }
        }
    }
}

/// The rows whose game has not started by `now`.
pub fn live_candidates(rows: &Vec<TopPickRow>, now: &EasternClock) -> (r: Vec<TopPickRow>)
    ensures
        r@ == live_rows(rows@, now@),
        (forall|i: int| 0 <= i < rows@.len() ==> #[trigger] rows@[i].wf()) ==> forall|i: int|
            0 <= i < r@.len() ==> #[trigger] r@[i].wf(),
{
    let mut out: Vec<TopPickRow> = Vec::new();
    let mut i: usize = 0;
    while i < rows.len()
        invariant
            i <= rows@.len(),
            out@ == live_rows(rows@.take(i as int), now@),
            (forall|m: int| 0 <= m < rows@.len() ==> #[trigger] rows@[m].wf()) ==> forall|m: int|
                0 <= m < out@.len() ==> #[trigger] out@[m].wf(),
        decreases rows.len() - i,
    {
        let row = &rows[i];
        proof {
            rows@.take(i as int).lemma_filter_push(rows@[i as int], is_live(now@));
        }
        assert(rows@.take(i + 1) =~= rows@.take(i as int).push(rows@[i as int]));
        if !has_game_started(row.game_date.as_str(), &row.game_time, now) {
            out.push(row.copy());
        }
        i += 1;
    }
    assert(rows@.take(rows@.len() as int) =~= rows@);
    out
}

fn find_group(heads: &Vec<TopPickRow>, row: &TopPickRow) -> (r: Option<usize>)
    ensures
        r matches Some(j) ==> j < heads@.len() && row_key(heads@[j as int]) == row_key(*row),
        r is None ==> forall|j: int| 0 <= j < heads@.len() ==> row_key(heads@[j]) != row_key(*row),
{
    let mut j: usize = 0;
    while j < heads.len()
        invariant
            j <= heads@.len(),
            forall|m: int| 0 <= m < j ==> row_key(heads@[m]) != row_key(*row),
        decreases heads.len() - j,
    {
        if heads[j].player_name == row.player_name && heads[j].stat_type == row.stat_type {
            return Some(j);
        }
        j += 1;
    }
    None
}

/// The rows grouped by player and stat in order of first appearance: the first row of each
/// group and the group's sharp-book lines.
pub fn group_candidates(rows: &Vec<TopPickRow>) -> (r: (Vec<TopPickRow>, Vec<Vec<SharpBookLine>>))
    ensures
        r.0@.len() == group_keys(rows@).len(),
        r.1@.len() == group_keys(rows@).len(),
        forall|j: int|
            0 <= j < r.0@.len() ==> r.0@[j] == group_head(rows@, #[trigger] group_keys(rows@)[j])
                && r.1@[j]@ == group_books(rows@, group_keys(rows@)[j]),
{
    let mut heads: Vec<TopPickRow> = Vec::new();
    let mut lines: Vec<Vec<SharpBookLine>> = Vec::new();
    let mut i: usize = 0;
    while i < rows.len()
        invariant
            i <= rows@.len(),
            heads@.len() == group_keys(rows@.take(i as int)).len(),
            lines@.len() == heads@.len(),
            forall|j: int|
                0 <= j < heads@.len() ==> row_key(heads@[j]) == #[trigger] group_keys(
                    rows@.take(i as int),
                )[j] && heads@[j] == group_head(rows@.take(i as int), group_keys(
                    rows@.take(i as int),
                )[j]) && lines@[j]@ == group_books(rows@.take(i as int), group_keys(
                    rows@.take(i as int),
                )[j]),
        decreases rows.len() - i,
    {
        let ghost pre = rows@.take(i as int);
        let ghost post = rows@.take(i + 1);
        let ghost ks = group_keys(pre);
        let row = &rows[i];
        assert(post.drop_last() =~= pre);
        assert(post.last() == rows@[i as int]);
        proof {
            lemma_keys_distinct(pre);
        }
        let book = SharpBookLine {
            sportsbook: row.sportsbook.clone(),
            line: row.book_line,
            over_odds: row.over_odds,
            under_odds: row.under_odds,
        };
        assert(book == book_of(*row));
        match find_group(&heads, row) {
            Some(j) => {
                assert(ks.contains(row_key(*row))) by {
                    assert(ks[j as int] == row_key(*row));
                }
                assert(group_keys(post) == ks);
                let ghost before = lines@;
                let mut bs = lines.remove(j);
                bs.push(book);
                lines.insert(j, bs);
                assert forall|m: int| 0 <= m < heads@.len() implies row_key(heads@[m])
                    == #[trigger] group_keys(post)[m] && heads@[m] == group_head(
                    post,
                    group_keys(post)[m],
                ) && lines@[m]@ == group_books(post, group_keys(post)[m]) by {
                    assert(group_keys(post)[m] == ks[m]);
                    if m != j {
                        assert(ks[m] != ks[j as int]);
                        assert(lines@[m] == before[m]);
                    }
                }
            },
            None => {
                assert(!ks.contains(row_key(*row))) by {
                    if ks.contains(row_key(*row)) {
                        let m = choose|m: int| 0 <= m < ks.len() && ks[m] == row_key(*row);
                        assert(row_key(heads@[m]) == ks[m]);
                    }
                }
                assert(group_keys(post) == ks.push(row_key(*row)));
                proof {
                    lemma_absent_key_no_books(pre, row_key(*row));
                }
                heads.push(row.copy());
                let mut bs: Vec<SharpBookLine> = Vec::new();
                bs.push(book);
                lines.push(bs);
                assert forall|m: int| 0 <= m < heads@.len() implies row_key(heads@[m])
                    == #[trigger] group_keys(post)[m] && heads@[m] == group_head(
                    post,
                    group_keys(post)[m],
                ) && lines@[m]@ == group_books(post, group_keys(post)[m]) by {
                    if m < ks.len() {
                        assert(group_keys(post)[m] == ks[m]);
                        assert(ks[m] != row_key(*row)) by {
                            assert(ks.contains(ks[m]));
                        }
                    } else {
                        assert(group_keys(post)[m] == row_key(*row));
                        assert(lines@[m]@ =~= seq![book_of(*row)]);
                    }
                }
            },
        }
        i += 1;
    }
    assert(rows@.take(rows@.len() as int) =~= rows@);
    (heads, lines)
}


proof fn lemma_group_wf(rows: Seq<TopPickRow>, k: (Seq<char>, Seq<char>))
    requires
        forall|i: int| 0 <= i < rows.len() ==> #[trigger] rows[i].wf(),
    ensures
        group_keys(rows).contains(k) ==> group_head(rows, k).wf(),
        forall|i: int|
            0 <= i < group_books(rows, k).len() ==> valid_opt_odds(
                #[trigger] group_books(rows, k)[i].over_odds,
            ) && valid_opt_odds(group_books(rows, k)[i].under_odds),
    decreases rows.len(),
{
    if rows.len() > 0 {
        let prev = rows.drop_last();
        assert forall|i: int| 0 <= i < prev.len() implies #[trigger] prev[i].wf() by {
            assert(prev[i] == rows[i]);
        }
        lemma_group_wf(prev, k);
        assert(rows.last() == rows[rows.len() - 1]);
        let bs = group_books(prev, k);
        if row_key(rows.last()) == k {
            assert forall|i: int|
                0 <= i < bs.push(book_of(rows.last())).len() implies valid_opt_odds(
                #[trigger] bs.push(book_of(rows.last()))[i].over_odds,
            ) && valid_opt_odds(bs.push(book_of(rows.last()))[i].under_odds) by {
                if i < bs.len() {
                    assert(bs.push(book_of(rows.last()))[i] == bs[i]);
                } else {
                    assert(rows[rows.len() - 1].wf());
                }
            }
        }
    }
}

/// Screens candidate rows with the default limit of `MAX_PICKS` picks.
pub fn top_picks(rows: &Vec<TopPickRow>, now: &EasternClock) -> (r: Vec<TopPick>)
    requires
        forall|i: int| 0 <= i < rows@.len() ==> #[trigger] rows@[i].wf(),
    ensures
        exists|picks: Seq<TopPick>|
            are_picks_of(picks, live_rows(rows@, now@)) && is_top_desc(
                r@,
                picks,
                MAX_PICKS as nat,
            ),
{
    top_picks_up_to(rows, now, MAX_PICKS)
}

/// Screens candidate rows: drops rows whose game has started by `now`, groups the rest by
/// player and stat, keeps for each group the matching sharp book with the largest absolute
/// edge (at least half a percent), and returns at most `limit` picks by descending edge.
pub fn top_picks_up_to(rows: &Vec<TopPickRow>, now: &EasternClock, limit: usize) -> (r: Vec<TopPick>)
    requires
        forall|i: int| 0 <= i < rows@.len() ==> #[trigger] rows@[i].wf(),
    ensures
        exists|picks: Seq<TopPick>|
            are_picks_of(picks, live_rows(rows@, now@)) && is_top_desc(
                r@,
                picks,
                limit as nat,
            ),
{
    let live = live_candidates(rows, now);
    let (heads, lines) = group_candidates(&live);
    let ghost orig = lines@;
    let ghost ks = group_keys(live@);
    let ghost gs = groups(live@);
    let mut rest = lines;
    let mut picks: Vec<TopPick> = Vec::new();
    let mut j: usize = 0;
    assert(rest@ =~= orig.subrange(0, orig.len() as int));
    while j < heads.len()
        invariant
            j <= heads@.len(),
            heads@.len() == ks.len(),
            orig.len() == ks.len(),
            gs == groups(live@),
            ks == group_keys(live@),
            forall|m: int| 0 <= m < live@.len() ==> #[trigger] live@[m].wf(),
            forall|m: int|
                0 <= m < heads@.len() ==> heads@[m] == group_head(live@, #[trigger] ks[m])
                    && orig[m]@ == group_books(live@, ks[m]),
            rest@ == orig.subrange(j as int, orig.len() as int),
            picks@.len() == gs.take(j as int).filter(has_pick()).len(),
            forall|m: int|
                0 <= m < picks@.len() ==> #[trigger] is_pick_of(
                    picks@[m],
                    gs.take(j as int).filter(has_pick())[m].0,
                    gs.take(j as int).filter(has_pick())[m].1,
                ),
        decreases heads.len() - j,
    {
        let ghost fs = gs.take(j as int).filter(has_pick());
        let ghost prev = picks@;
        let bs = rest.remove(0);
        assert(bs == orig[j as int]);
        let ghost k = ks[j as int];
        assert(heads@[j as int] == group_head(live@, k) && bs@ == group_books(live@, k));
        assert(gs[j as int] == (group_head(live@, k), group_books(live@, k)));
        proof {
            lemma_group_wf(live@, k);
            assert(ks.contains(k));
            gs.take(j as int).lemma_filter_push(gs[j as int], has_pick());
        }
        assert(gs.take(j + 1) =~= gs.take(j as int).push(gs[j as int]));
        match pick_for_group(&heads[j], bs) {
            Some(p) => {
                picks.push(p);
                assert forall|m: int| 0 <= m < picks@.len() implies #[trigger] is_pick_of(
                    picks@[m],
                    gs.take(j + 1).filter(has_pick())[m].0,
                    gs.take(j + 1).filter(has_pick())[m].1,
                ) by {
                    if m < fs.len() {
                        assert(picks@[m] == prev[m]);
                    }
                }
            },
            None => {},
        }
        assert(rest@ =~= orig.subrange(j + 1, orig.len() as int));
        j += 1;
    }
    assert(gs.take(j as int) =~= gs);
    let r = top_desc(picks, limit);
    assert(are_picks_of(picks@, live_rows(rows@, now@)));
    r
}

} // verus!
