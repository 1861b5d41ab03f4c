use chrono::{Datelike, Timelike};
use vstd::prelude::*;
use crate::text::{chars_of, same_text, string_of};

verus! {

/// A calendar date.
#[derive(Clone, Copy, Debug, PartialEq, Eq)]
pub struct CivilDate {
    pub year: i32,
    pub month: u32,
    pub day: u32,
}

impl CivilDate {
    pub open spec fn view(self) -> (int, int, int) {
        (self.year as int, self.month as int, self.day as int)
    }

    pub open spec fn wf(self) -> bool {
        1 <= self.month <= 12 && 1 <= self.day <= 31
    }
}

/// Calendar order on (year, month, day) triples.
pub open spec fn date_lt(a: (int, int, int), b: (int, int, int)) -> bool {
    a.0 < b.0 || (a.0 == b.0 && (a.1 < b.1 || (a.1 == b.1 && a.2 < b.2)))
}

/// The current instant as wall-clock time in US Eastern time, where all games are scheduled.
#[derive(Clone, Copy, Debug, PartialEq, Eq)]
pub struct EasternClock {
    pub date: CivilDate,
    pub hour: u32,
    pub minute: u32,
}

/// Year, month, day, hour and minute in US Eastern time of a Unix timestamp in seconds.
pub uninterp spec fn eastern_wall_clock(unix_secs: int) -> (int, int, int, int, int);

/// Latest timestamp, in absolute value, that is converted to Eastern time.
pub const MAX_CLOCK_SECS: i64 = 1_000_000_000_000;

impl EasternClock {
    pub open spec fn wf(self) -> bool {
        self.date.wf() && self.hour < 24 && self.minute < 60
    }

    pub open spec fn view(self) -> (int, int, int, int, int) {
        (
            self.date.year as int,
            self.date.month as int,
            self.date.day as int,
            self.hour as int,
            self.minute as int,
        )
    }

    /// Eastern wall-clock time of a Unix timestamp; none beyond `MAX_CLOCK_SECS`
    /// seconds from the epoch.
    pub fn at_unix_seconds(unix_secs: i64) -> (r: Option<EasternClock>)
        ensures
            r is Some <==> -MAX_CLOCK_SECS <= unix_secs <= MAX_CLOCK_SECS,
            r matches Some(c) ==> c.wf() && c@ == eastern_wall_clock(unix_secs as int),
    {
        if -MAX_CLOCK_SECS <= unix_secs && unix_secs <= MAX_CLOCK_SECS {
            Some(eastern_clock_of(unix_secs))
        } else {
            None
        }
    }
}

/// Relies on chrono's `DateTime::from_timestamp` (which succeeds for every timestamp within
/// `MAX_CLOCK_SECS` of the epoch) and chrono-tz's `America/New_York` zone through
/// `with_timezone`, with `Datelike` and `Timelike` giving a valid date, an hour below 24
/// and a minute below 60.
#[verifier::external_body]
fn eastern_clock_of(unix_secs: i64) -> (r: EasternClock)
    requires
        -MAX_CLOCK_SECS <= unix_secs <= MAX_CLOCK_SECS,
    ensures
        r.wf(),
        r@ == eastern_wall_clock(unix_secs as int),
{
    let utc = chrono::DateTime::from_timestamp(unix_secs, 0).unwrap();
    let et = utc.with_timezone(&chrono_tz::America::New_York);
    EasternClock {
        date: CivilDate { year: et.year(), month: et.month(), day: et.day() },
        hour: et.hour(),
        minute: et.minute(),
    }
}

/// The date that chrono's `NaiveDate::parse_from_str` reads from `text` with `format`.
pub uninterp spec fn date_parsed(text: Seq<char>, format: Seq<char>) -> Option<(int, int, int)>;

/// Relies on chrono's `NaiveDate::parse_from_str`: the parsed date, none when the text does
/// not follow the format; a `NaiveDate` is always a valid calendar date.
#[verifier::external_body]
fn parse_date(text: &str, format: &str) -> (r: Option<CivilDate>)
    ensures
        r matches Some(d) ==> d.wf(),
        date_parsed(text@, format@) == (match r {
            Some(d) => Some(d@),
            None => None,
        }),
{
    match chrono::NaiveDate::parse_from_str(text, format) {
        Ok(d) => Some(CivilDate { year: d.year(), month: d.month(), day: d.day() }),
        Err(_) => None,
    }
}

/// The text of the capture groups (after the whole match) of the leftmost match of `pattern`
/// in `text`, a group that took no part being empty; none when the pattern does not compile
/// or does not match.
pub uninterp spec fn regex_groups(pattern: Seq<char>, text: Seq<char>) -> Option<Seq<Seq<char>>>;

/// Relies on regex's `Regex::new` and `Regex::captures` (leftmost-first match).
#[verifier::external_body]
fn capture_groups(pattern: &str, text: &str) -> (r: Option<Vec<String>>)
    ensures
        regex_groups(pattern@, text@) == (match r {
            Some(g) => Some(g@.map_values(|s: String| s@)),
            None => None,
        }),
{
    let re = match regex::Regex::new(pattern) {
        Ok(re) => re,
        Err(_) => return None,
    };
    let caps = re.captures(text)?;
    Some(caps.iter().skip(1).map(|m| m.map_or(String::new(), |m| m.as_str().to_string())).collect())
}

/// Format of game dates.
pub const GAME_DATE_FORMAT: &'static str = "%Y-%m-%d";

/// A game time such as "7:30 PM" or "10:00 am".
pub const GAME_TIME_PATTERN: &'static str = r"(\d{1,2}):(\d{2})\s*(AM|PM|am|pm)";

pub open spec fn is_ascii_digit(c: char) -> bool {
    '0' <= c <= '9'
}

/// The value of one or two ASCII decimal digits.
pub open spec fn small_decimal(s: Seq<char>) -> Option<int> {
    if s.len() == 1 && is_ascii_digit(s[0]) {
        Some(s[0] as int - '0' as int)
    } else if s.len() == 2 && is_ascii_digit(s[0]) && is_ascii_digit(s[1]) {
        Some(10 * (s[0] as int - '0' as int) + (s[1] as int - '0' as int))
    } else {
        None
    }
}

/// Whether a meridiem marker is "PM" (`Some(true)`) or "AM" (`Some(false)`).
pub open spec fn meridiem(s: Seq<char>) -> Option<bool> {
    if s == seq!['P', 'M'] || s == seq!['p', 'm'] {
        Some(true)
    } else if s == seq!['A', 'M'] || s == seq!['a', 'm'] {
        Some(false)
    } else {
        None
    }
}

/// A 12-hour clock hour on the 24-hour clock: 12 AM is 0, 12 PM stays 12, other PM hours add 12.
pub open spec fn hour_24(hour: int, pm: bool) -> int {
    if pm && hour != 12 {
        hour + 12
    } else if !pm && hour == 12 {
        0
    } else {
        hour
    }
}

/// Hour and minute on the 24-hour clock read from the groups (hour, minute, meridiem)
/// of a game-time match.
pub open spec fn clock_of_groups(groups: Option<Seq<Seq<char>>>) -> Option<(int, int)> {
    match groups {
        Some(g) => if g.len() == 3 {
            match (small_decimal(g[0]), small_decimal(g[1]), meridiem(g[2])) {
                (Some(h), Some(m), Some(pm)) => Some((hour_24(h, pm), m)),
                _ => None,
            }
        } else {
            None
        },
        None => None,
    }
}

fn small_decimal_of(s: &str) -> (r: Option<u32>)
    ensures
        r matches Some(v) ==> v < 100,
        small_decimal(s@) == (match r {
            Some(v) => Some(v as int),
            None => None,
        }),
{
    let n = s.unicode_len();
    if n == 1 {
        let c = s.get_char(0);
        if '0' <= c && c <= '9' {
            return Some((c as u32) - ('0' as u32));
        }
    } else if n == 2 {
        let c0 = s.get_char(0);
        let c1 = s.get_char(1);
        if '0' <= c0 && c0 <= '9' && '0' <= c1 && c1 <= '9' {
            return Some(10 * ((c0 as u32) - ('0' as u32)) + ((c1 as u32) - ('0' as u32)));
        }
    }
    None
}

fn meridiem_of(s: &str) -> (r: Option<bool>)
    ensures
        r == meridiem(s@),
{
    proof {
        reveal_strlit("PM");
        reveal_strlit("pm");
        reveal_strlit("AM");
        reveal_strlit("am");
    }
    assert("PM"@ =~= seq!['P', 'M']);
    assert("pm"@ =~= seq!['p', 'm']);
    assert("AM"@ =~= seq!['A', 'M']);
    assert("am"@ =~= seq!['a', 'm']);
    if same_text(s, "PM") || same_text(s, "pm") {
        Some(true)
    } else if same_text(s, "AM") || same_text(s, "am") {
        Some(false)
    } else {
        None
    }
}

/// Hour and minute on the 24-hour clock from the capture groups (hour, minute, meridiem)
/// of a game-time match; none unless there are three groups holding one or two ASCII
/// digits, two ASCII digits and a meridiem marker.
pub fn clock_from_groups(groups: Option<Vec<String>>) -> (r: Option<(u32, u32)>)
    ensures
        clock_of_groups(
            match groups {
                Some(g) => Some(g@.map_values(|s: String| s@)),
                None => None,
            },
        ) == (match r {
            Some((h, m)) => Some((h as int, m as int)),
            None => None,
        }),
        r matches Some((h, m)) ==> h < 112 && m < 100,
{
    let g = match groups {
        Some(g) => g,
        None => return None,
    };
    let ghost gv = g@.map_values(|s: String| s@);
    if g.len() != 3 {
        return None;
    }
    assert(gv[0] == g@[0]@ && gv[1] == g@[1]@ && gv[2] == g@[2]@);
    let h = match small_decimal_of(g[0].as_str()) {
        Some(h) => h,
        None => return None,
    };
    let m = match small_decimal_of(g[1].as_str()) {
        Some(m) => m,
        None => return None,
    };
    let pm = match meridiem_of(g[2].as_str()) {
        Some(pm) => pm,
        None => return None,
    };
    let h24 = if pm && h != 12 {
        h + 12
    } else if !pm && h == 12 {
        0
    } else {
        h
    };
    Some((h24, m))
}

/// Unicode `White_Space` characters, which `str::trim` removes.
pub open spec fn is_white_space(c: char) -> bool {
    ('\u{9}' <= c <= '\u{d}') || c == ' ' || c == '\u{85}' || c == '\u{a0}' || c == '\u{1680}'
        || ('\u{2000}' <= c <= '\u{200a}') || c == '\u{2028}' || c == '\u{2029}' || c == '\u{202f}'
        || c == '\u{205f}' || c == '\u{3000}'
}

pub open spec fn trim_start(s: Seq<char>) -> Seq<char>
    decreases s.len(),
{
    if s.len() > 0 && is_white_space(s[0]) {
        trim_start(s.drop_first())
    } else {
        s
    }
}

pub open spec fn trim_end(s: Seq<char>) -> Seq<char>
    decreases s.len(),
{
    if s.len() > 0 && is_white_space(s.last()) {
        trim_end(s.drop_last())
    } else {
        s
    }
}

/// The text without leading and trailing white space.
pub open spec fn trimmed(s: Seq<char>) -> Seq<char> {
    trim_end(trim_start(s))
}

/// The text with every trailing repetition of a nonempty suffix removed.
pub open spec fn strip_suffix_all(s: Seq<char>, suffix: Seq<char>) -> Seq<char>
    decreases s.len(),
{
    if suffix.len() > 0 && suffix.len() <= s.len() && s.subrange(
        s.len() - suffix.len(),
        s.len() as int,
    ) == suffix {
        strip_suffix_all(s.subrange(0, s.len() - suffix.len()), suffix)
    } else {
        s
    }
}

/// A game time with a trailing time-zone abbreviation ("ET", "EST", "EDT") removed.
pub open spec fn without_zone(s: Seq<char>) -> Seq<char> {
    trimmed(
        strip_suffix_all(
            strip_suffix_all(strip_suffix_all(trimmed(s), seq!['E', 'T']), seq!['E', 'S', 'T']),
            seq!['E', 'D', 'T'],
        ),
    )
}

/// Hour and minute of a game time on the 24-hour clock.
pub open spec fn game_clock(time: Seq<char>) -> Option<(int, int)> {
    clock_of_groups(regex_groups(GAME_TIME_PATTERN@, without_zone(time)))
}

/// Time strings that mean the start time is not yet known.
pub open spec fn is_unscheduled(time: Seq<char>) -> bool {
    time == seq!['T', 'B', 'D'] || time == seq!['S', 'c', 'h', 'e', 'd', 'u', 'l', 'e', 'd']
        || time == seq!['1', '2', ':', '0', '0', ' ', 'A', 'M']
}

/// Whether a game has started: past dates always, future dates never; on the current date
/// only when the start time is known and the clock has reached it.
pub open spec fn game_started(
    date: Option<(int, int, int)>,
    time: Option<Seq<char>>,
    now: (int, int, int, int, int),
) -> bool {
    match date {
        None => false,
        Some(d) => {
            let today = (now.0, now.1, now.2);
            if date_lt(today, d) {
                false
            } else if date_lt(d, today) {
                true
            } else {
                match time {
                    None => false,
                    Some(t) => if is_unscheduled(t) {
                        false
                    } else {
                        match game_clock(t) {
                            None => false,
                            Some((h, m)) => now.3 > h || (now.3 == h && now.4 >= m),
                        }
                    },
                }
            }
        },
    }
}

pub open spec fn opt_view(s: Option<String>) -> Option<Seq<char>> {
    match s {
        Some(t) => Some(t@),
        None => None,
    }
}

fn sub_chars(v: &Vec<char>, lo: usize, hi: usize) -> (r: Vec<char>)
    requires
        lo <= hi <= v@.len(),
    ensures
        r@ == v@.subrange(lo as int, hi as int),
{
    let mut out: Vec<char> = Vec::new();
    let mut i = lo;
    while i < hi
        invariant
            lo <= i <= hi,
            hi <= v@.len(),
            out@ == v@.subrange(lo as int, i as int),
        decreases hi - i,
    {
        out.push(v[i]);
        i += 1;
        assert(out@ =~= v@.subrange(lo as int, i as int));
    }
    out
}

fn white_space(c: char) -> (r: bool)
    ensures
        r == is_white_space(c),
{
    ('\u{9}' <= c && c <= '\u{d}') || c == ' ' || c == '\u{85}' || c == '\u{a0}' || c == '\u{1680}'
        || ('\u{2000}' <= c && c <= '\u{200a}') || c == '\u{2028}' || c == '\u{2029}' || c
        == '\u{202f}' || c == '\u{205f}' || c == '\u{3000}'
}

fn trim_chars(v: &Vec<char>) -> (r: Vec<char>)
    ensures
        r@ == trimmed(v@),
{
    let n = v.len();
    let mut b: usize = 0;
    assert(v@.subrange(0, n as int) =~= v@);
    while b < n && white_space(v[b])
        invariant
            b <= n == v@.len(),
            trim_start(v@) == trim_start(v@.subrange(b as int, n as int)),
        decreases n - b,
    {
        assert(v@.subrange(b as int, n as int).drop_first() =~= v@.subrange(b + 1, n as int));
        b += 1;
    }
    let mut e: usize = n;
    let ghost t = v@.subrange(b as int, n as int);
    assert(trim_start(t) == t);
    while e > b && white_space(v[e - 1])
        invariant
            b <= e <= n == v@.len(),
            t == v@.subrange(b as int, n as int),
            trim_end(t) == trim_end(v@.subrange(b as int, e as int)),
        decreases e - b,
    {
        assert(v@.subrange(b as int, e as int).drop_last() =~= v@.subrange(b as int, e - 1));
        e -= 1;
    }
    sub_chars(v, b, e)
}

fn ends_with(v: &Vec<char>, suffix: &Vec<char>) -> (r: bool)
    ensures
        r == (suffix@.len() <= v@.len() && v@.subrange(
            v@.len() - suffix@.len(),
            v@.len() as int,
        ) == suffix@),
{
    let n = v.len();
    let k = suffix.len();
    if k > n {
        return false;
    }
    let mut i: usize = 0;
    while i < k
        invariant
            k <= n,
            n == v@.len(),
            k == suffix@.len(),
            i <= k,
            forall|j: int| 0 <= j < i ==> v@[n - k + j] == suffix@[j],
        decreases k - i,
    {
        if v[n - k + i] != suffix[i] {
            assert(v@.subrange(n - k, n as int)[i as int] != suffix@[i as int]);
            return false;
        }
        i += 1;
    }
    assert(v@.subrange(n - k, n as int) =~= suffix@);
    true
}

fn strip_all(v: Vec<char>, suffix: &Vec<char>) -> (r: Vec<char>)
    requires
        suffix@.len() > 0,
    ensures
        r@ == strip_suffix_all(v@, suffix@),
{
    let mut cur = v;
    while ends_with(&cur, suffix)
        invariant
            suffix@.len() > 0,
            strip_suffix_all(cur@, suffix@) == strip_suffix_all(v@, suffix@),
        decreases cur@.len(),
    {
        let k = cur.len() - suffix.len();
        cur = sub_chars(&cur, 0, k);
    }
    cur
}

/// Hour and minute on the 24-hour clock of a game time such as "7:30 PM ET".
pub fn parse_game_time(time: &str) -> (r: Option<(u32, u32)>)
    ensures
        game_clock(time@) == (match r {
            Some((h, m)) => Some((h as int, m as int)),
            None => None,
        }),
        r matches Some((h, m)) ==> h < 112 && m < 100,
{
    let et = vec!['E', 'T'];
    let est = vec!['E', 'S', 'T'];
    let edt = vec!['E', 'D', 'T'];
    let cs = chars_of(time);
    let cleaned = trim_chars(&strip_all(strip_all(strip_all(trim_chars(&cs), &et), &est), &edt));
    assert(et@ =~= seq!['E', 'T']);
    assert(est@ =~= seq!['E', 'S', 'T']);
    assert(edt@ =~= seq!['E', 'D', 'T']);
    let text = string_of(&cleaned);
    clock_from_groups(capture_groups(GAME_TIME_PATTERN, text.as_str()))
}

fn is_unscheduled_text(time: &str) -> (r: bool)
    ensures
        r == is_unscheduled(time@),
{
    proof {
        reveal_strlit("TBD");
        reveal_strlit("Scheduled");
        reveal_strlit("12:00 AM");
    }
    assert("TBD"@ =~= seq!['T', 'B', 'D']);
    assert("Scheduled"@ =~= seq!['S', 'c', 'h', 'e', 'd', 'u', 'l', 'e', 'd']);
    assert("12:00 AM"@ =~= seq!['1', '2', ':', '0', '0', ' ', 'A', 'M']);
    same_text(time, "TBD") || same_text(time, "Scheduled") || same_text(time, "12:00 AM")
}

fn date_before(a: &CivilDate, b: &CivilDate) -> (r: bool)
    ensures
        r == date_lt(a@, b@),
{
    a.year < b.year || (a.year == b.year && (a.month < b.month || (a.month == b.month && a.day
        < b.day)))
}

/// Whether a game on an already parsed date (none when the date text did not parse) has
/// started by the given Eastern wall-clock time.
pub fn has_game_started_on(date: Option<CivilDate>, game_time: &Option<String>, now: &EasternClock) -> (r: bool)
    ensures
        r == game_started(
            match date {
                Some(d) => Some(d@),
                None => None,
            },
            opt_view(*game_time),
            now@,
        ),
{
    let d = match date {
        Some(d) => d,
        None => return false,
    };
    if date_before(&now.date, &d) {
        return false;
    }
    if date_before(&d, &now.date) {
        return true;
    }
    let t = match game_time {
        Some(t) => t,
        None => return false,
    };
    if is_unscheduled_text(t.as_str()) {
        return false;
    }
    match parse_game_time(t.as_str()) {
        None => false,
        Some((h, m)) => now.hour > h || (now.hour == h && now.minute >= m),
    }
}

/// Whether a game with the given date ("YYYY-MM-DD") and free-text start time has started
/// by the given Eastern wall-clock time. A date that does not parse counts as not started.
pub fn has_game_started(game_date: &str, game_time: &Option<String>, now: &EasternClock) -> (r: bool)
    ensures
        r == game_started(date_parsed(game_date@, GAME_DATE_FORMAT@), opt_view(*game_time), now@),
{
    let date = parse_date(game_date, GAME_DATE_FORMAT);
    has_game_started_on(date, game_time, now)
}

/// A game dated before the current Eastern date has started, whatever its time text.
pub proof fn law_past_game_started(d: (int, int, int), time: Option<Seq<char>>, now: (int, int, int, int, int))
    requires
        date_lt(d, (now.0, now.1, now.2)),
    ensures
        game_started(Some(d), time, now),
{
}

/// A game dated after the current Eastern date has not started, whatever its time text.
pub proof fn law_future_game_not_started(
    d: (int, int, int),
    time: Option<Seq<char>>,
    now: (int, int, int, int, int),
)
    requires
        date_lt((now.0, now.1, now.2), d),
    ensures
        !game_started(Some(d), time, now),
{
}

/// A game today whose start time is a placeholder ("TBD", "Scheduled", "12:00 AM") or absent
/// has not started.
pub proof fn law_unscheduled_game_not_started(time: Option<Seq<char>>, now: (int, int, int, int, int))
    requires
        time matches Some(t) ==> is_unscheduled(t),
    ensures
        !game_started(Some((now.0, now.1, now.2)), time, now),
{
}

/// A game today with a known start time has started exactly when the Eastern clock has
/// reached that hour and minute.
pub proof fn law_known_time_today(t: Seq<char>, now: (int, int, int, int, int))
    requires
        !is_unscheduled(t),
        game_clock(t) is Some,
    ensures
        game_started(Some((now.0, now.1, now.2)), Some(t), now) == ({
            let (h, m) = game_clock(t)->0;
            now.3 > h || (now.3 == h && now.4 >= m)
        }),
{
}

/// "11:59" with "PM" reads as 23:59 on the 24-hour clock.
pub proof fn law_late_evening_clock()
    ensures
        clock_of_groups(Some(seq![seq!['1', '1'], seq!['5', '9'], seq!['P', 'M']])) == Some((23int, 59int)),
{
    let g = seq![seq!['1', '1'], seq!['5', '9'], seq!['P', 'M']];
    assert(g[0] == seq!['1', '1'] && g[1] == seq!['5', '9'] && g[2] == seq!['P', 'M']);
    assert(small_decimal(g[0]) == Some(11int));
    assert(small_decimal(g[1]) == Some(59int));
    assert(meridiem(g[2]) == Some(true));
}

} // verus!
