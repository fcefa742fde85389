//! One day of prayer times (minutes since midnight) and every textual form
//! the application prints them in.
use vstd::prelude::*;
use crate::clock::local_now_minutes;
use crate::conf::{Config, RawOutputMode, TimeFormat};
use crate::text::{chars_of, digits, find_char, find_from, lemma_find_char, lemma_digits_len, pad_left, join, push_char, push_slice, string_of, push_digits, push_str, push_two_digits, str_eq, two_digits, u64_to_string, views};

verus! {

broadcast use vstd::string::group_string_axioms;

/// A day of prayer times; every time is minutes since local midnight.
#[derive(Debug, Default, Clone, Copy, PartialEq, Eq, Structural)]
pub struct PrayerTimes {
    /// entry (timeset) index
    pub index: u32,
    /// day of the year in the dataset
    pub day: u32,
    pub fajr: u32,
    pub sun: u32,
    pub dhuhur: u32,
    pub asr: u32,
    pub magrib: u32,
    pub isha: u32,
}

impl PrayerTimes {
    /// The six prayer times in order: Fajr, Sun, Dhuhur, Asr, Magrib, Isha.
    pub open spec fn times(self) -> Seq<u32> {
        seq![self.fajr, self.sun, self.dhuhur, self.asr, self.magrib, self.isha]
    }
}

// ----- specifications of the renderings -----

/// Hour on the 12-hour clock as the application shows it: hours above 12
/// are taken modulo 12, so midnight stays `0` and noon stays `12`.
pub open spec fn hour12(m: nat) -> nat {
    if m / 60 > 12 {
        (m / 60) % 12
    } else {
        m / 60
    }
}

/// `"PM"` from 12:00 on, else `"AM"`.
pub open spec fn meridiem(m: nat) -> Seq<char> {
    if m / 60 > 11 {
        seq!['P', 'M']
    } else {
        seq!['A', 'M']
    }
}

/// One time of day in the given display format:
/// `hh:mm AM`, `HH:mm`, or the bare minute count.
pub open spec fn minute_text(m: nat, f: TimeFormat) -> Seq<char> {
    match f {
        TimeFormat::Twelve => two_digits(hour12(m)) + seq![':'] + two_digits(m % 60) + seq![' ']
            + meridiem(m),
        TimeFormat::TwentyFour => two_digits(m / 60) + seq![':'] + two_digits(m % 60),
        TimeFormat::Minutes => digits(m),
    }
}

/// The six prayer times rendered in format `f`.
pub open spec fn time_texts(p: PrayerTimes, f: TimeFormat) -> Seq<Seq<char>> {
    seq![
        minute_text(p.fajr as nat, f),
        minute_text(p.sun as nat, f),
        minute_text(p.dhuhur as nat, f),
        minute_text(p.asr as nat, f),
        minute_text(p.magrib as nat, f),
        minute_text(p.isha as nat, f),
    ]
}

/// Entry index and day, then the six times in format `f`.
pub open spec fn format_list(p: PrayerTimes, f: TimeFormat) -> Seq<Seq<char>> {
    seq![digits(p.index as nat), digits(p.day as nat)] + time_texts(p, f)
}

/// Scanning from `i`: the first position whose time is after `now`, or `0`
/// when there is none.
pub open spec fn upcoming_from(times: Seq<u32>, now: int, i: int) -> int
    decreases times.len() - i,
{
    if i < 0 || i >= times.len() {
        0
    } else if times[i] > now {
        i
    } else {
        upcoming_from(times, now, i + 1)
    }
}

/// The first prayer strictly after minute `now`, or `0` (Fajr) when every
/// prayer of the day has passed.
pub open spec fn upcoming_index(times: Seq<u32>, now: int) -> int {
    upcoming_from(times, now, 0)
}

proof fn lemma_upcoming_from(times: Seq<u32>, now: int, i: int)
    requires
        0 <= i <= times.len(),
    ensures
        ({
            let r = upcoming_from(times, now, i);
            ||| (i <= r < times.len() && times[r] > now && forall|j: int|
                i <= j < r ==> times[j] <= now)
            ||| (r == 0 && forall|j: int| i <= j < times.len() ==> times[j] <= now)
        }),
    decreases times.len() - i,
{
    if i < times.len() && times[i] <= now {
        lemma_upcoming_from(times, now, i + 1);
    }
}

/// `upcoming_index` is the least position holding a time after `now`, and
/// `0` when no such position exists.
pub proof fn lemma_upcoming_index(times: Seq<u32>, now: int)
    ensures
        ({
            let r = upcoming_index(times, now);
            ||| (0 <= r < times.len() && times[r] > now && forall|j: int|
                0 <= j < r ==> times[j] <= now)
            ||| (r == 0 && forall|j: int| 0 <= j < times.len() ==> times[j] <= now)
        }),
{
    lemma_upcoming_from(times, now, 0);
}

/// What `format` lists, followed by the index of the upcoming prayer.
pub open spec fn output_list(p: PrayerTimes, f: TimeFormat, now: int) -> Seq<Seq<char>> {
    format_list(p, f).push(digits(upcoming_index(p.times(), now) as nat))
}

/// `s` between double quotes.
pub open spec fn quoted(s: Seq<char>) -> Seq<char> {
    seq!['"'] + s + seq!['"']
}

pub open spec fn quote_all(items: Seq<Seq<char>>) -> Seq<Seq<char>> {
    items.map_values(|s: Seq<char>| quoted(s))
}

/// `["a", "b", ...]`: the debug rendering of a list of strings none of
/// which needs escaping.
pub open spec fn debug_list(items: Seq<Seq<char>>) -> Seq<char> {
    seq!['['] + join(quote_all(items), seq![',', ' ']) + seq![']']
}

/// Each item followed by `sep`, except the items equal to `last`.
pub open spec fn raw_data_upto(items: Seq<Seq<char>>, last: Seq<char>, sep: Seq<char>) -> Seq<char>
    decreases items.len(),
{
    if items.len() == 0 {
        Seq::empty()
    } else {
        raw_data_upto(items.drop_last(), last, sep) + items.last() + (if items.last() == last {
            Seq::empty()
        } else {
            sep
        })
    }
}

/// The raw-data rendering: every item followed by the separator, but no
/// separator after an item that equals the last item.
pub open spec fn raw_data_text(items: Seq<Seq<char>>, sep: Seq<char>) -> Seq<char> {
    raw_data_upto(items, items.last(), sep)
}

/// One `"key":"value"` member of the JSON rendering; members after the first
/// are preceded by a comma, and in the pretty form by a newline and two
/// spaces of indentation.
pub open spec fn json_member(key: Seq<char>, value: Seq<char>, pretty: bool, first: bool) -> Seq<
    char,
> {
    (if first {
        Seq::empty()
    } else {
        seq![',']
    }) + (if pretty {
        seq!['\n', ' ', ' ']
    } else {
        Seq::empty()
    }) + quoted(key) + seq![':'] + quoted(value)
}

/// The JSON object with the nine members `index`, `day`, `fajr`, `sun`,
/// `dhuhur`, `asr`, `magrib`, `isha`, `current` holding `items[0..9]` as
/// strings; the pretty form puts each member on its own line.
pub open spec fn json_text(items: Seq<Seq<char>>, pretty: bool) -> Seq<char> {
    seq!['{'] + json_member("index"@, items[0], pretty, true) + json_member(
        "day"@,
        items[1],
        pretty,
        false,
    ) + json_member("fajr"@, items[2], pretty, false) + json_member(
        "sun"@,
        items[3],
        pretty,
        false,
    ) + json_member("dhuhur"@, items[4], pretty, false) + json_member(
        "asr"@,
        items[5],
        pretty,
        false,
    ) + json_member("magrib"@, items[6], pretty, false) + json_member(
        "isha"@,
        items[7],
        pretty,
        false,
    ) + json_member("current"@, items[8], pretty, false) + (if pretty {
        seq!['\n']
    } else {
        Seq::empty()
    }) + seq!['}']
}

// ----- helpers -----

/// `(hours, minutes)` of a minute count.
pub fn to_time(minutes: &u32) -> (r: (u32, u32))
    ensures
        r.0 == *minutes / 60,
        r.1 == *minutes % 60,
{
    (*minutes / 60, *minutes % 60)
}

/// 12-hour clock hour, matching the `Twelve` display format (0 stays 0).
pub fn hour_12(minutes: u32) -> (h: u32)
    ensures
        h == hour12(minutes as nat),
{
    let h = minutes / 60;
    if h > 12 {
        h % 12
    } else {
        h
    }
}

/// Appends `minutes` rendered in format `f`.
pub fn push_minute(s: &mut String, minutes: u32, f: TimeFormat)
    ensures
        final(s)@ == old(s)@ + minute_text(minutes as nat, f),
{
    match f {
        TimeFormat::Twelve => {
            let hour = minutes / 60;
            push_two_digits(s, hour_12(minutes) as u64);
            push_char(s, ':');
            push_two_digits(s, (minutes % 60) as u64);
            push_char(s, ' ');
            if hour > 11 {
                push_char(s, 'P');
            } else {
                push_char(s, 'A');
            }
            push_char(s, 'M');
            assert(s@ =~= old(s)@ + minute_text(minutes as nat, f));
        },
        TimeFormat::TwentyFour => {
            push_two_digits(s, (minutes / 60) as u64);
            push_char(s, ':');
            push_two_digits(s, (minutes % 60) as u64);
            assert(s@ =~= old(s)@ + minute_text(minutes as nat, f));
        },
        TimeFormat::Minutes => {
            push_digits(s, minutes as u64);
        },
    }
}

/// One prayer time in the configured display format.
pub fn format_minute(minutes: u32, config: &Config) -> (s: String)
    ensures
        s@ == minute_text(minutes as nat, config.display.format),
{
    let mut s = String::new();
    push_minute(&mut s, minutes, config.display.format);
    s
}

/// Appends `item` between double quotes.
fn push_quoted(s: &mut String, item: &str)
    ensures
        final(s)@ == old(s)@ + quoted(item@),
{
    push_char(s, '"');
    push_str(s, item);
    push_char(s, '"');
    assert(s@ =~= old(s)@ + quoted(item@));
}

proof fn lemma_join_step(items: Seq<Seq<char>>, sep: Seq<char>, i: int)
    requires
        0 <= i < items.len(),
    ensures
        join(items.take(i + 1), sep) == if i == 0 {
            items[0]
        } else {
            join(items.take(i), sep) + sep + items[i]
        },
{
    assert(items.take(i + 1).drop_last() =~= items.take(i));
    if i == 0 {
        assert(items.take(1).len() == 1);
    }
}

/// `["a", "b", ...]` of the list.
pub fn debug_list_text(items: &Vec<String>) -> (s: String)
    ensures
        s@ == debug_list(views(items@)),
{
    let ghost q = quote_all(views(items@));
    let mut s = String::new();
    push_char(&mut s, '[');
    for i in 0..items.len()
        invariant
            q == quote_all(views(items@)),
            q.len() == items.len(),
            s@ == seq!['['] + join(q.take(i as int), seq![',', ' ']),
    {
        proof {
            lemma_join_step(q, seq![',', ' '], i as int);
        }
        let ghost before = s@;
        if i > 0 {
            push_char(&mut s, ',');
            push_char(&mut s, ' ');
        }
        push_quoted(&mut s, items[i].as_str());
        assert(q[i as int] == quoted(items@[i as int]@));
        assert(s@ =~= seq!['['] + join(q.take(i + 1), seq![',', ' ']));
    }
    assert(q.take(items.len() as int) =~= q);
    push_char(&mut s, ']');
    assert(s@ =~= debug_list(views(items@)));
    s
}

proof fn lemma_raw_data_step(items: Seq<Seq<char>>, last: Seq<char>, sep: Seq<char>, i: int)
    requires
        0 <= i < items.len(),
    ensures
        raw_data_upto(items.take(i + 1), last, sep) == raw_data_upto(items.take(i), last, sep)
            + items[i] + (if items[i] == last {
            Seq::<char>::empty()
        } else {
            sep
        }),
{
    assert(items.take(i + 1).drop_last() =~= items.take(i));
}

/// The raw-data rendering of the list with `sep`.
pub fn raw_data_join(items: &Vec<String>, sep: &str) -> (s: String)
    requires
        items.len() > 0,
    ensures
        s@ == raw_data_text(views(items@), sep@),
{
    let ghost v = views(items@);
    let n = items.len();
    let last = &items[n - 1];
    let mut s = String::new();
    for i in 0..n
        invariant
            n == items.len(),
            n > 0,
            v == views(items@),
            last@ == v.last(),
            s@ == raw_data_upto(v.take(i as int), v.last(), sep@),
    {
        proof {
            lemma_raw_data_step(v, v.last(), sep@, i as int);
        }
        push_str(&mut s, items[i].as_str());
        if !str_eq(items[i].as_str(), last.as_str()) {
            push_str(&mut s, sep);
        }
        assert(s@ =~= raw_data_upto(v.take(i + 1), v.last(), sep@));
    }
    assert(v.take(n as int) =~= v);
    s
}

/// Appends one JSON member.
fn push_json_member(s: &mut String, key: &str, value: &str, pretty: bool, first: bool)
    ensures
        final(s)@ == old(s)@ + json_member(key@, value@, pretty, first),
{
    if !first {
        push_char(s, ',');
    }
    if pretty {
        push_char(s, '\n');
        push_char(s, ' ');
        push_char(s, ' ');
    }
    push_quoted(s, key);
    push_char(s, ':');
    push_quoted(s, value);
    assert(s@ =~= old(s)@ + json_member(key@, value@, pretty, first));
}

/// The JSON object of the output list (`pretty` puts one member per line).
pub fn to_json(time_list: Vec<String>, pretty: bool) -> (s: String)
    requires
        time_list.len() >= 9,
    ensures
        s@ == json_text(views(time_list@), pretty),
{
    let ghost v = views(time_list@);
    let mut s = String::new();
    push_char(&mut s, '{');
    push_json_member(&mut s, "index", time_list[0].as_str(), pretty, true);
    push_json_member(&mut s, "day", time_list[1].as_str(), pretty, false);
    push_json_member(&mut s, "fajr", time_list[2].as_str(), pretty, false);
    push_json_member(&mut s, "sun", time_list[3].as_str(), pretty, false);
    push_json_member(&mut s, "dhuhur", time_list[4].as_str(), pretty, false);
    push_json_member(&mut s, "asr", time_list[5].as_str(), pretty, false);
    push_json_member(&mut s, "magrib", time_list[6].as_str(), pretty, false);
    push_json_member(&mut s, "isha", time_list[7].as_str(), pretty, false);
    push_json_member(&mut s, "current", time_list[8].as_str(), pretty, false);
    if pretty {
        push_char(&mut s, '\n');
    }
    push_char(&mut s, '}');
    assert(s@ =~= json_text(v, pretty));
    s
}

impl PrayerTimes {
    /// Builds the times from a dataset row
    /// `[index, day, fajr, sun, dhuhur, asr, magrib, isha, ..]`.
    pub fn from_vec(list: Vec<u32>) -> (p: PrayerTimes)
        requires
            list.len() >= 8,
        ensures
            p.index == list[0],
            p.day == list[1],
            p.fajr == list[2],
            p.sun == list[3],
            p.dhuhur == list[4],
            p.asr == list[5],
            p.magrib == list[6],
            p.isha == list[7],
    {
        PrayerTimes {
            index: list[0],
            day: list[1],
            fajr: list[2],
            sun: list[3],
            dhuhur: list[4],
            asr: list[5],
            magrib: list[6],
            isha: list[7],
        }
    }

    /// The six prayer times, Fajr first.
    pub fn to_vec(&self) -> (v: Vec<u32>)
        ensures
            v@ == self.times(),
    {
        let mut v = Vec::new();
        v.push(self.fajr);
        v.push(self.sun);
        v.push(self.dhuhur);
        v.push(self.asr);
        v.push(self.magrib);
        v.push(self.isha);
        assert(v@ =~= self.times());
        v
    }

    /// Index of the first prayer after minute `now_min` (`0`, Fajr, once
    /// every prayer of the day has passed).
    pub fn current_index_at(&self, now_min: u32) -> (r: usize)
        ensures
            r == upcoming_index(self.times(), now_min as int),
            r < 6,
    {
        let times = self.to_vec();
        let mut i: usize = 0;
        while i < times.len()
            invariant
                times@ == self.times(),
                i <= times.len(),
                upcoming_from(times@, now_min as int, i as int) == upcoming_index(
                    times@,
                    now_min as int,
                ),
                forall|j: int| 0 <= j < i ==> times@[j] <= now_min,
            decreases times.len() - i,
        {
            if times[i] > now_min {
                return i;
            }
            i = i + 1;
        }
        0
    }

    /// Index of the first prayer after the current local time.
    pub fn get_current_index(&self) -> (r: usize)
        ensures
            exists|m: int| 0 <= m < 1440 && r == upcoming_index(self.times(), m),
            r < 6,
    {
        let now = local_now_minutes();
        self.current_index_at(now)
    }

    /// The six times in the configured display format.
    pub fn format_time(&self, config: &Config) -> (v: Vec<String>)
        ensures
            views(v@) == time_texts(*self, config.display.format),
    {
        let mut v: Vec<String> = Vec::new();
        v.push(format_minute(self.fajr, config));
        v.push(format_minute(self.sun, config));
        v.push(format_minute(self.dhuhur, config));
        v.push(format_minute(self.asr, config));
        v.push(format_minute(self.magrib, config));
        v.push(format_minute(self.isha, config));
        assert(views(v@) =~= time_texts(*self, config.display.format));
        v
    }

    /// Entry index, day, then the six times in the configured format.
    pub fn format(&self, config: &Config) -> (v: Vec<String>)
        ensures
            views(v@) == format_list(*self, config.display.format),
    {
        let mut v: Vec<String> = Vec::new();
        v.push(u64_to_string(self.index as u64));
        v.push(u64_to_string(self.day as u64));
        let mut t = self.format_time(config);
        let ghost tv = t@;
        v.append(&mut t);
        assert(views(v@) =~= format_list(*self, config.display.format));
        v
    }
}


// ----- the custom template -----

/// What a template code stands for when it names a prayer time:
/// `f s d a m i` are Fajr, Sun, Dhuhur, Asr, Magrib, Isha.
pub open spec fn code_time(code: char, p: PrayerTimes) -> Option<u32> {
    if code == 'f' {
        Some(p.fajr)
    } else if code == 's' {
        Some(p.sun)
    } else if code == 'd' {
        Some(p.dhuhur)
    } else if code == 'a' {
        Some(p.asr)
    } else if code == 'm' {
        Some(p.magrib)
    } else if code == 'i' {
        Some(p.isha)
    } else {
        None
    }
}

/// What a template code stands for when it names a number: `c` the
/// upcoming prayer's index, `e` the entry index, `y` the day.
pub open spec fn code_text(code: char, p: PrayerTimes, now: int) -> Option<Seq<char>> {
    if code == 'c' {
        Some(digits(upcoming_index(p.times(), now) as nat))
    } else if code == 'e' {
        Some(digits(p.index as nat))
    } else if code == 'y' {
        Some(digits(p.day as nat))
    } else {
        None
    }
}

/// One suffix character applied to a time: `h` 12-hour hour, `H` 24-hour
/// hour, `m` minutes (all two digits), `p` ` AM`/` PM`, `M` the raw minute
/// count, `t` the whole time in format `f`; any other character stands for
/// itself.
pub open spec fn suffix_piece(m: nat, c: char, f: TimeFormat) -> Seq<char> {
    if c == 'h' {
        two_digits(hour12(m))
    } else if c == 'H' {
        two_digits(m / 60)
    } else if c == 'm' {
        two_digits(m % 60)
    } else if c == 'p' {
        seq![' '] + meridiem(m)
    } else if c == 'M' {
        digits(m)
    } else if c == 't' {
        minute_text(m, f)
    } else {
        seq![c]
    }
}

pub open spec fn suffix_pieces(m: nat, sfx: Seq<char>, f: TimeFormat) -> Seq<char>
    decreases sfx.len(),
{
    if sfx.len() == 0 {
        Seq::empty()
    } else {
        suffix_pieces(m, sfx.drop_last(), f) + suffix_piece(m, sfx.last(), f)
    }
}

/// A time with a suffix: the whole time in format `f` when the suffix is
/// empty, else each suffix character applied in turn.
pub open spec fn suffix_text(m: nat, sfx: Seq<char>, f: TimeFormat) -> Seq<char> {
    if sfx.len() == 0 {
        minute_text(m, f)
    } else {
        suffix_pieces(m, sfx, f)
    }
}

/// Expansion of the template `s` from position `i`.
///
/// Text up to the next `%` is copied. A `%` at the very end stays `%`. A
/// `%` followed by an unknown code stays as `%` and the code. A known code
/// takes as its suffix everything up to the next `%` (or the end): a time
/// code renders through `suffix_text`, a number code is followed by the
/// suffix verbatim.
pub open spec fn custom_from(s: Seq<char>, i: int, p: PrayerTimes, f: TimeFormat, now: int) -> Seq<
    char,
>
    decreases s.len() - i,
{
    if i < 0 || i >= s.len() {
        Seq::empty()
    } else {
        let idx = find_char(s, '%', i);
        proof {
            lemma_find_char(s, '%', i);
        }
        if idx >= s.len() {
            s.subrange(i, s.len() as int)
        } else if idx + 1 >= s.len() {
            s.subrange(i, idx) + seq!['%']
        } else {
            let code = s[idx + 1];
            if code_time(code, p) is Some || code_text(code, p, now) is Some {
                let end = find_char(s, '%', idx + 2);
                proof {
                    lemma_find_char(s, '%', idx + 2);
                }
                let sfx = s.subrange(idx + 2, end);
                let value = match code_time(code, p) {
                    Some(m) => suffix_text(m as nat, sfx, f),
                    None => code_text(code, p, now).unwrap() + sfx,
                };
                s.subrange(i, idx) + value + custom_from(s, end, p, f, now)
            } else {
                s.subrange(i, idx) + seq!['%', code] + custom_from(s, idx + 2, p, f, now)
            }
        }
    }
}

/// Expansion of the whole template `s`.
pub open spec fn custom_text(s: Seq<char>, p: PrayerTimes, f: TimeFormat, now: int) -> Seq<char> {
    custom_from(s, 0, p, f, now)
}

/// The TOML rendering: `index`, `day` and `current` as integers, the six
/// times as strings in format `f`, one `key = value` per line.
pub open spec fn toml_text(p: PrayerTimes, f: TimeFormat, now: int) -> Seq<char> {
    let t = time_texts(p, f);
    "index = "@ + digits(p.index as nat) + "\nday = "@ + digits(p.day as nat) + "\nfajr = "@
        + quoted(t[0]) + "\nsun = "@ + quoted(t[1]) + "\ndhuhur = "@ + quoted(t[2])
        + "\nasr = "@ + quoted(t[3]) + "\nmagrib = "@ + quoted(t[4]) + "\nisha = "@ + quoted(
        t[5],
    ) + "\ncurrent = "@ + digits(upcoming_index(p.times(), now) as nat)
}

/// The `--output` text for the configured raw-output mode, with `now` the
/// current minute of the day.
pub open spec fn output_text(p: PrayerTimes, c: Config, now: int) -> Seq<char> {
    let f = c.display.format;
    let items = output_list(p, f, now);
    match c.raw_output.mode {
        RawOutputMode::Array => debug_list(items),
        RawOutputMode::Custom => custom_text(c.raw_output.custom_string@, p, f, now),
        RawOutputMode::TOML => toml_text(p, f, now),
        RawOutputMode::PrettyJson => json_text(items, true),
        RawOutputMode::Json => json_text(items, false),
        RawOutputMode::RawData => raw_data_text(items, c.raw_output.raw_separator@),
    }
}

proof fn lemma_suffix_step(m: nat, sfx: Seq<char>, f: TimeFormat, i: int)
    requires
        0 <= i < sfx.len(),
    ensures
        suffix_pieces(m, sfx.take(i + 1), f) == suffix_pieces(m, sfx.take(i), f) + suffix_piece(
            m,
            sfx[i],
            f,
        ),
{
    assert(sfx.take(i + 1).drop_last() =~= sfx.take(i));
}

fn push_suffix_piece(s: &mut String, minutes: u32, c: char, f: TimeFormat)
    ensures
        final(s)@ == old(s)@ + suffix_piece(minutes as nat, c, f),
{
    if c == 'h' {
        push_two_digits(s, hour_12(minutes) as u64);
    } else if c == 'H' {
        push_two_digits(s, (minutes / 60) as u64);
    } else if c == 'm' {
        push_two_digits(s, (minutes % 60) as u64);
    } else if c == 'p' {
        push_char(s, ' ');
        if minutes / 60 > 11 {
            push_char(s, 'P');
        } else {
            push_char(s, 'A');
        }
        push_char(s, 'M');
        assert(s@ =~= old(s)@ + suffix_piece(minutes as nat, c, f));
    } else if c == 'M' {
        push_digits(s, minutes as u64);
    } else if c == 't' {
        push_minute(s, minutes, f);
    } else {
        push_char(s, c);
        assert(s@ =~= old(s)@ + suffix_piece(minutes as nat, c, f));
    }
}

/// A prayer time with a template suffix applied (see `suffix_text`).
pub fn apply_suffix(minutes: u32, suffix: &str, config: &Config) -> (s: String)
    ensures
        s@ == suffix_text(minutes as nat, suffix@, config.display.format),
{
    let cs = chars_of(suffix);
    if cs.len() == 0 {
        return format_minute(minutes, config);
    }
    let f = config.display.format;
    let mut s = String::new();
    for i in 0..cs.len()
        invariant
            cs@ == suffix@,
            cs.len() > 0,
            s@ == suffix_pieces(minutes as nat, cs@.take(i as int), f),
    {
        proof {
            lemma_suffix_step(minutes as nat, cs@, f, i as int);
        }
        push_suffix_piece(&mut s, minutes, cs[i], f);
    }
    assert(cs@.take(cs.len() as int) =~= cs@);
    s
}

impl PrayerTimes {
    fn push_custom_from(
        &self,
        out: &mut String,
        cs: &Vec<char>,
        i: usize,
        config: &Config,
        now_min: u32,
    )
        requires
            i <= cs.len(),
        ensures
            final(out)@ == old(out)@ + custom_from(
                cs@,
                i as int,
                *self,
                config.display.format,
                now_min as int,
            ),
        decreases cs.len() - i,
    {
        let ghost s = cs@;
        let ghost f = config.display.format;
        let n = cs.len();
        if i >= n {
            assert(custom_from(s, i as int, *self, f, now_min as int) =~= Seq::<char>::empty());
            return ;
        }
        let idx = find_from(cs, '%', i);
        proof {
            lemma_find_char(s, '%', i as int);
        }
        if idx >= n {
            push_slice(out, cs, i, n);
            return ;
        }
        push_slice(out, cs, i, idx);
        if idx + 1 >= n {
            push_char(out, '%');
            assert(out@ =~= old(out)@ + custom_from(s, i as int, *self, f, now_min as int));
            return ;
        }
        let code = cs[idx + 1];
        let time: Option<u32> = if code == 'f' {
            Some(self.fajr)
        } else if code == 's' {
            Some(self.sun)
        } else if code == 'd' {
            Some(self.dhuhur)
        } else if code == 'a' {
            Some(self.asr)
        } else if code == 'm' {
            Some(self.magrib)
        } else if code == 'i' {
            Some(self.isha)
        } else {
            None
        };
        let text: Option<String> = if code == 'c' {
            Some(u64_to_string(self.current_index_at(now_min) as u64))
        } else if code == 'e' {
            Some(u64_to_string(self.index as u64))
        } else if code == 'y' {
            Some(u64_to_string(self.day as u64))
        } else {
            None
        };
        assert(time == code_time(code, *self));
        assert(text is Some <==> code_text(code, *self, now_min as int) is Some);
        assert(text matches Some(t) ==> t@ == code_text(code, *self, now_min as int).unwrap());
        match (time, text) {
            (None, None) => {
                push_char(out, '%');
                push_char(out, code);
                let ghost mid = out@;
                self.push_custom_from(out, cs, idx + 2, config, now_min);
                assert(out@ =~= old(out)@ + custom_from(s, i as int, *self, f, now_min as int));
            },
            (time, text) => {
                let end = find_from(cs, '%', idx + 2);
                proof {
                    lemma_find_char(s, '%', idx + 2);
                }
                match time {
                    Some(m) => {
                        let sfx = string_of(cs, idx + 2, end);
                        let piece = apply_suffix(m, sfx.as_str(), config);
                        push_str(out, piece.as_str());
                    },
                    None => {
                        match text {
                            Some(t) => {
                                push_str(out, t.as_str());
                                push_slice(out, cs, idx + 2, end);
                            },
                            None => {},
                        }
                    },
                }
                let ghost mid = out@;
                self.push_custom_from(out, cs, end, config, now_min);
                assert(out@ =~= old(out)@ + custom_from(s, i as int, *self, f, now_min as int));
            },
        }
    }

    /// The custom template expanded with `now_min` as the current minute of
    /// the day (see `custom_text`).
    pub fn format_custom_at(&self, config: &Config, now_min: u32) -> (s: String)
        ensures
            s@ == custom_text(
                config.raw_output.custom_string@,
                *self,
                config.display.format,
                now_min as int,
            ),
    {
        let cs = chars_of(config.raw_output.custom_string.as_str());
        let mut s = String::new();
        self.push_custom_from(&mut s, &cs, 0, config, now_min);
        s
    }

    /// The custom template expanded at the current local time.
    pub fn format_custom_string(&self, config: &Config) -> (s: String)
        ensures
            exists|m: int|
                0 <= m < 1440 && s@ == custom_text(
                    config.raw_output.custom_string@,
                    *self,
                    config.display.format,
                    m,
                ),
    {
        let now = local_now_minutes();
        self.format_custom_at(config, now)
    }

    /// The TOML rendering with `now_min` as the current minute of the day.
    pub fn to_toml_at(&self, config: &Config, now_min: u32) -> (s: String)
        ensures
            s@ == toml_text(*self, config.display.format, now_min as int),
    {
        let t = self.format_time(config);
        assert(views(t@).len() == t@.len());
        let mut s = String::new();
        push_str(&mut s, "index = ");
        push_digits(&mut s, self.index as u64);
        push_str(&mut s, "\nday = ");
        push_digits(&mut s, self.day as u64);
        push_str(&mut s, "\nfajr = ");
        push_quoted(&mut s, t[0].as_str());
        push_str(&mut s, "\nsun = ");
        push_quoted(&mut s, t[1].as_str());
        push_str(&mut s, "\ndhuhur = ");
        push_quoted(&mut s, t[2].as_str());
        push_str(&mut s, "\nasr = ");
        push_quoted(&mut s, t[3].as_str());
        push_str(&mut s, "\nmagrib = ");
        push_quoted(&mut s, t[4].as_str());
        push_str(&mut s, "\nisha = ");
        push_quoted(&mut s, t[5].as_str());
        push_str(&mut s, "\ncurrent = ");
        push_digits(&mut s, self.current_index_at(now_min) as u64);
        assert(views(t@)[0] == t@[0]@);
        assert(s@ =~= toml_text(*self, config.display.format, now_min as int));
        s
    }

    /// The TOML rendering at the current local time.
    pub fn to_toml(&self, config: &Config) -> (s: String)
        ensures
            exists|m: int| 0 <= m < 1440 && s@ == toml_text(*self, config.display.format, m),
    {
        let now = local_now_minutes();
        self.to_toml_at(config, now)
    }

    /// The `--output` text with `now_min` as the current minute of the day
    /// (see `output_text`).
    pub fn output_format_at(&self, config: &Config, now_min: u32) -> (s: String)
        ensures
            s@ == output_text(*self, *config, now_min as int),
    {
        let mut time_list = self.format(config);
        time_list.push(u64_to_string(self.current_index_at(now_min) as u64));
        let ghost items = output_list(*self, config.display.format, now_min as int);
        assert(views(time_list@) =~= items);
        match config.raw_output.mode {
            RawOutputMode::Array => debug_list_text(&time_list),
            RawOutputMode::Custom => self.format_custom_at(config, now_min),
            RawOutputMode::TOML => self.to_toml_at(config, now_min),
            RawOutputMode::PrettyJson => to_json(time_list, true),
            RawOutputMode::Json => to_json(time_list, false),
            RawOutputMode::RawData => raw_data_join(
                &time_list,
                config.raw_output.raw_separator.as_str(),
            ),
        }
    }

    /// The `--output` text at the current local time.
    pub fn output_format(&self, config: &Config) -> (s: String)
        ensures
            exists|m: int| 0 <= m < 1440 && s@ == output_text(*self, *config, m),
    {
        let now = local_now_minutes();
        self.output_format_at(config, now)
    }
}

// ----- the earlier record type, with space-padded hours -----

/// A day of prayer times as the earlier data files held it; it renders hours
/// space-padded instead of zero-padded.
#[derive(Debug, Default, Clone, Copy, PartialEq, Eq, Structural)]
pub struct PrayerTime {
    pub index: u32,
    pub day: u32,
    pub fajr: u32,
    pub sun: u32,
    pub dhuhur: u32,
    pub asr: u32,
    pub magrib: u32,
    pub isha: u32,
}

impl PrayerTime {
    /// The six prayer times in order: Fajr, Sun, Dhuhur, Asr, Magrib, Isha.
    pub open spec fn times(self) -> Seq<u32> {
        seq![self.fajr, self.sun, self.dhuhur, self.asr, self.magrib, self.isha]
    }

    /// The same values as a `PrayerTimes`.
    pub open spec fn as_times(self) -> PrayerTimes {
        PrayerTimes {
            index: self.index,
            day: self.day,
            fajr: self.fajr,
            sun: self.sun,
            dhuhur: self.dhuhur,
            asr: self.asr,
            magrib: self.magrib,
            isha: self.isha,
        }
    }
}

/// Hour on this record's 12-hour clock: only hours above 13 are taken
/// modulo 12, so 13:xx stays `13`.
pub open spec fn legacy_hour12(m: nat) -> nat {
    if m / 60 > 13 {
        (m / 60) % 12
    } else {
        m / 60
    }
}

/// One time of day as this record renders it: the hour right-aligned in two
/// columns with a space, then `:mm` and, on the 12-hour clock, `AM`/`PM`.
pub open spec fn legacy_minute_text(m: nat, f: TimeFormat) -> Seq<char> {
    match f {
        TimeFormat::Twelve => pad_left(digits(legacy_hour12(m)), 2, ' ') + seq![':'] + two_digits(
            m % 60,
        ) + seq![' '] + meridiem(m),
        TimeFormat::TwentyFour => pad_left(digits(m / 60), 2, ' ') + seq![':'] + two_digits(m % 60),
        TimeFormat::Minutes => digits(m),
    }
}

pub open spec fn legacy_time_texts(p: PrayerTime, f: TimeFormat) -> Seq<Seq<char>> {
    seq![
        legacy_minute_text(p.fajr as nat, f),
        legacy_minute_text(p.sun as nat, f),
        legacy_minute_text(p.dhuhur as nat, f),
        legacy_minute_text(p.asr as nat, f),
        legacy_minute_text(p.magrib as nat, f),
        legacy_minute_text(p.isha as nat, f),
    ]
}

pub open spec fn legacy_format_list(p: PrayerTime, f: TimeFormat) -> Seq<Seq<char>> {
    seq![digits(p.index as nat), digits(p.day as nat)] + legacy_time_texts(p, f)
}

pub open spec fn legacy_output_list(p: PrayerTime, f: TimeFormat, now: int) -> Seq<Seq<char>> {
    legacy_format_list(p, f).push(digits(upcoming_index(p.times(), now) as nat))
}

/// The `--output` text of this record; the custom and TOML modes are not
/// available for it.
pub open spec fn legacy_output_text(p: PrayerTime, c: Config, now: int) -> Seq<char> {
    let items = legacy_output_list(p, c.display.format, now);
    match c.raw_output.mode {
        RawOutputMode::Array => debug_list(items),
        RawOutputMode::PrettyJson => json_text(items, true),
        RawOutputMode::Json => json_text(items, false),
        RawOutputMode::RawData => raw_data_text(items, c.raw_output.raw_separator@),
        _ => Seq::empty(),
    }
}

fn push_space_padded(s: &mut String, n: u64)
    ensures
        final(s)@ == old(s)@ + pad_left(digits(n as nat), 2, ' '),
{
    proof {
        lemma_digits_len(n as nat);
    }
    if n < 10 {
        push_char(s, ' ');
        proof {
            assert(Seq::new((2 - digits(n as nat).len()) as nat, |_i: int| ' ') =~= seq![' ']);
        }
    }
    push_digits(s, n);
    proof {
        if n < 10 {
            assert(s@ =~= old(s)@ + (seq![' '] + digits(n as nat)));
        }
    }
}

fn push_legacy_minute(s: &mut String, minutes: u32, f: TimeFormat)
    ensures
        final(s)@ == old(s)@ + legacy_minute_text(minutes as nat, f),
{
    let hour = minutes / 60;
    match f {
        TimeFormat::Twelve => {
            let h = if hour > 13 {
                hour % 12
            } else {
                hour
            };
            push_space_padded(s, h as u64);
            push_char(s, ':');
            push_two_digits(s, (minutes % 60) as u64);
            push_char(s, ' ');
            if hour > 11 {
                push_char(s, 'P');
            } else {
                push_char(s, 'A');
            }
            push_char(s, 'M');
            assert(s@ =~= old(s)@ + legacy_minute_text(minutes as nat, f));
        },
        TimeFormat::TwentyFour => {
            push_space_padded(s, hour as u64);
            push_char(s, ':');
            push_two_digits(s, (minutes % 60) as u64);
            assert(s@ =~= old(s)@ + legacy_minute_text(minutes as nat, f));
        },
        TimeFormat::Minutes => {
            push_digits(s, minutes as u64);
        },
    }
}

fn legacy_minute(minutes: u32, f: TimeFormat) -> (s: String)
    ensures
        s@ == legacy_minute_text(minutes as nat, f),
{
    let mut s = String::new();
    push_legacy_minute(&mut s, minutes, f);
    s
}

impl PrayerTime {
    /// Builds the record from a dataset row
    /// `[index, day, fajr, sun, dhuhur, asr, magrib, isha, ..]`.
    pub fn from_vec(list: Vec<u32>) -> (p: PrayerTime)
        requires
            list.len() >= 8,
        ensures
            p.index == list[0],
            p.day == list[1],
            p.fajr == list[2],
            p.sun == list[3],
            p.dhuhur == list[4],
            p.asr == list[5],
            p.magrib == list[6],
            p.isha == list[7],
    {
        PrayerTime {
            index: list[0],
            day: list[1],
            fajr: list[2],
            sun: list[3],
            dhuhur: list[4],
            asr: list[5],
            magrib: list[6],
            isha: list[7],
        }
    }

    /// The six prayer times, Fajr first.
    pub fn to_vec(&self) -> (v: Vec<u32>)
        ensures
            v@ == self.times(),
    {
        let mut v = Vec::new();
        v.push(self.fajr);
        v.push(self.sun);
        v.push(self.dhuhur);
        v.push(self.asr);
        v.push(self.magrib);
        v.push(self.isha);
        assert(v@ =~= self.times());
        v
    }

    fn as_prayer_times(&self) -> (p: PrayerTimes)
        ensures
            p == self.as_times(),
            p.times() == self.times(),
    {
        PrayerTimes {
            index: self.index,
            day: self.day,
            fajr: self.fajr,
            sun: self.sun,
            dhuhur: self.dhuhur,
            asr: self.asr,
            magrib: self.magrib,
            isha: self.isha,
        }
    }

    /// Index of the first prayer after the current local time.
    pub fn get_current_index(&self) -> (r: usize)
        ensures
            exists|m: int| 0 <= m < 1440 && r == upcoming_index(self.times(), m),
            r < 6,
    {
        self.as_prayer_times().get_current_index()
    }

    /// The six times in the configured display format.
    pub fn format_time(&self, config: &Config) -> (v: Vec<String>)
        ensures
            views(v@) == legacy_time_texts(*self, config.display.format),
    {
        let f = config.display.format;
        let mut v: Vec<String> = Vec::new();
        v.push(legacy_minute(self.fajr, f));
        v.push(legacy_minute(self.sun, f));
        v.push(legacy_minute(self.dhuhur, f));
        v.push(legacy_minute(self.asr, f));
        v.push(legacy_minute(self.magrib, f));
        v.push(legacy_minute(self.isha, f));
        assert(views(v@) =~= legacy_time_texts(*self, f));
        v
    }

    /// Entry index, day, then the six times in the configured format.
    pub fn format(&self, config: &Config) -> (v: Vec<String>)
        ensures
            views(v@) == legacy_format_list(*self, config.display.format),
    {
        let mut v: Vec<String> = Vec::new();
        v.push(u64_to_string(self.index as u64));
        v.push(u64_to_string(self.day as u64));
        let mut t = self.format_time(config);
        v.append(&mut t);
        assert(views(v@) =~= legacy_format_list(*self, config.display.format));
        v
    }

    /// The `--output` text with `now_min` as the current minute of the day.
    pub fn output_format_at(&self, config: &Config, now_min: u32) -> (s: String)
        requires
            config.raw_output.mode != RawOutputMode::Custom,
            config.raw_output.mode != RawOutputMode::TOML,
        ensures
            s@ == legacy_output_text(*self, *config, now_min as int),
    {
        let mut time_list = self.format(config);
        let current = self.as_prayer_times().current_index_at(now_min);
        time_list.push(u64_to_string(current as u64));
        assert(views(time_list@) =~= legacy_output_list(
            *self,
            config.display.format,
            now_min as int,
        ));
        match config.raw_output.mode {
            RawOutputMode::Array => debug_list_text(&time_list),
            RawOutputMode::PrettyJson => to_json(time_list, true),
            RawOutputMode::Json => to_json(time_list, false),
            _ => raw_data_join(&time_list, config.raw_output.raw_separator.as_str()),
        }
    }

    /// The `--output` text at the current local time.
    pub fn output_format(&self, config: &Config) -> (s: String)
        requires
            config.raw_output.mode != RawOutputMode::Custom,
            config.raw_output.mode != RawOutputMode::TOML,
        ensures
            exists|m: int| 0 <= m < 1440 && s@ == legacy_output_text(*self, *config, m),
    {
        let now = local_now_minutes();
        self.output_format_at(config, now)
    }
}

/// A template without `%` expands to itself: only `%` starts a code.
pub proof fn lemma_custom_plain_text(s: Seq<char>, p: PrayerTimes, f: TimeFormat, now: int)
    requires
        forall|i: int| 0 <= i < s.len() ==> s[i] != '%',
    ensures
        custom_text(s, p, f, now) == s,
{
    if s.len() > 0 {
        lemma_find_char(s, '%', 0);
        assert(find_char(s, '%', 0) == s.len());
        assert(s.subrange(0, s.len() as int) =~= s);
    }
}

/// The template made of the bare codes `codes`, each after a `%`.
pub open spec fn bare_template(codes: Seq<char>) -> Seq<char>
    decreases codes.len(),
{
    if codes.len() == 0 {
        Seq::empty()
    } else {
        seq!['%', codes[0]] + bare_template(codes.drop_first())
    }
}

/// The times that the time codes `codes` name, each in format `f`, one
/// after the other.
pub open spec fn code_times_text(codes: Seq<char>, p: PrayerTimes, f: TimeFormat) -> Seq<char>
    decreases codes.len(),
{
    if codes.len() == 0 {
        Seq::empty()
    } else {
        minute_text(code_time(codes[0], p).unwrap() as nat, f) + code_times_text(
            codes.drop_first(),
            p,
            f,
        )
    }
}

proof fn lemma_bare_template_len(codes: Seq<char>)
    ensures
        bare_template(codes).len() == 2 * codes.len(),
    decreases codes.len(),
{
    if codes.len() > 0 {
        lemma_bare_template_len(codes.drop_first());
    }
}

proof fn lemma_bare_from(s: Seq<char>, i: int, codes: Seq<char>, p: PrayerTimes, f: TimeFormat, now: int)
    requires
        0 <= i <= s.len(),
        s.subrange(i, s.len() as int) == bare_template(codes),
        forall|k: int| 0 <= k < codes.len() ==> (#[trigger] code_time(codes[k], p)) is Some,
    ensures
        custom_from(s, i, p, f, now) == code_times_text(codes, p, f),
    decreases codes.len(),
{
    lemma_bare_template_len(codes);
    if codes.len() > 0 {
        let t = s.subrange(i, s.len() as int);
        lemma_bare_template_len(codes.drop_first());
        assert(t[0] == '%');
        assert(t[1] == codes[0]);
        assert(s[i] == '%');
        assert(s[i + 1] == codes[0]);
        assert(find_char(s, '%', i) == i);
        assert(code_time(codes[0], p) is Some);
        let rest = codes.drop_first();
        assert forall|k: int| 0 <= k < rest.len() implies (#[trigger] code_time(rest[k], p)) is Some by {
            assert(rest[k] == codes[k + 1]);
        }
        assert(s.subrange(i + 2, s.len() as int) =~= t.subrange(2, t.len() as int));
        assert(t.subrange(2, t.len() as int) =~= bare_template(rest));
        let end = find_char(s, '%', i + 2);
        if rest.len() == 0 {
            assert(i + 2 == s.len());
            assert(end == s.len());
        } else {
            assert(t[2] == '%');
            assert(s[i + 2] == '%');
            assert(end == i + 2);
        }
        assert(s.subrange(i + 2, end).len() == 0);
        assert(s.subrange(i, i).len() == 0);
        lemma_bare_from(s, end, rest, p, f, now);
        let m = code_time(codes[0], p).unwrap();
        assert(suffix_text(m as nat, s.subrange(i + 2, end), f) == minute_text(m as nat, f));
        assert(custom_from(s, i, p, f, now) =~= minute_text(m as nat, f) + custom_from(
            s,
            end,
            p,
            f,
            now,
        ));
    } else {
        assert(i == s.len());
    }
}

/// A template of bare time codes (`%f%s%d%a%m%i` and the like) expands to
/// the times those codes name, each in the configured format.
pub proof fn lemma_custom_bare_codes(codes: Seq<char>, p: PrayerTimes, f: TimeFormat, now: int)
    requires
        forall|k: int| 0 <= k < codes.len() ==> (#[trigger] code_time(codes[k], p)) is Some,
    ensures
        custom_text(bare_template(codes), p, f, now) == code_times_text(codes, p, f),
{
    let s = bare_template(codes);
    assert(s.subrange(0, s.len() as int) =~= s);
    lemma_bare_from(s, 0, codes, p, f, now);
}

proof fn lemma_raw_upto_join(xs: Seq<Seq<char>>, last: Seq<char>, sep: Seq<char>)
    requires
        forall|k: int| 0 <= k < xs.len() ==> xs[k] != last,
    ensures
        raw_data_upto(xs, last, sep) == if xs.len() == 0 {
            Seq::<char>::empty()
        } else {
            join(xs, sep) + sep
        },
    decreases xs.len(),
{
    if xs.len() > 0 {
        let d = xs.drop_last();
        assert forall|k: int| 0 <= k < d.len() implies d[k] != last by {
            assert(d[k] == xs[k]);
        }
        lemma_raw_upto_join(d, last, sep);
        assert(xs.last() != last);
        if d.len() == 0 {
            assert(raw_data_upto(xs, last, sep) =~= xs[0] + sep);
        } else {
            assert(raw_data_upto(xs, last, sep) =~= join(d, sep) + sep + xs.last() + sep);
        }
    }
}

/// The raw-data rendering is the items joined by the separator whenever
/// no item before the last equals the last.
pub proof fn lemma_raw_data_join(items: Seq<Seq<char>>, sep: Seq<char>)
    requires
        items.len() >= 1,
        forall|k: int| 0 <= k < items.len() - 1 ==> items[k] != items.last(),
    ensures
        raw_data_text(items, sep) == join(items, sep),
{
    let d = items.drop_last();
    assert forall|k: int| 0 <= k < d.len() implies d[k] != items.last() by {
        assert(d[k] == items[k]);
    }
    lemma_raw_upto_join(d, items.last(), sep);
    if d.len() == 0 {
        assert(raw_data_text(items, sep) =~= items[0]);
    } else {
        assert(raw_data_text(items, sep) =~= join(d, sep) + sep + items.last());
    }
}

/// What `--output` prints in each mode: the expanded custom template, the
/// TOML text, the debug array, compact or pretty JSON of the formatted
/// list followed by the upcoming index, or that list joined by the
/// separator when its last item occurs nowhere before.
pub proof fn lemma_output_modes(p: PrayerTimes, c: Config, now: int)
    ensures
        ({
            let f = c.display.format;
            let items = output_list(p, f, now);
            let out = output_text(p, c, now);
            &&& c.raw_output.mode == RawOutputMode::Custom ==> out == custom_text(
                c.raw_output.custom_string@,
                p,
                f,
                now,
            )
            &&& c.raw_output.mode == RawOutputMode::TOML ==> out == toml_text(p, f, now)
            &&& c.raw_output.mode == RawOutputMode::Array ==> out == debug_list(items)
            &&& c.raw_output.mode == RawOutputMode::Json ==> out == json_text(items, false)
            &&& c.raw_output.mode == RawOutputMode::PrettyJson ==> out == json_text(items, true)
            &&& (c.raw_output.mode == RawOutputMode::RawData && forall|k: int|
                0 <= k < items.len() - 1 ==> items[k] != items.last()) ==> out == join(
                items,
                c.raw_output.raw_separator@,
            )
        }),
{
    let items = output_list(p, c.display.format, now);
    if c.raw_output.mode == RawOutputMode::RawData && forall|k: int|
        0 <= k < items.len() - 1 ==> items[k] != items.last() {
        lemma_raw_data_join(items, c.raw_output.raw_separator@);
    }
}

/// The six time codes in prayer order.
pub open spec fn all_time_codes() -> Seq<char> {
    seq!['f', 's', 'd', 'a', 'm', 'i']
}

proof fn lemma_all_codes_template()
    ensures
        bare_template(all_time_codes()) == "%f%s%d%a%m%i"@,
{
    let c = all_time_codes();
    assert(c.drop_first() =~= seq!['s', 'd', 'a', 'm', 'i']);
    assert(c.drop_first().drop_first() =~= seq!['d', 'a', 'm', 'i']);
    assert(c.drop_first().drop_first().drop_first() =~= seq!['a', 'm', 'i']);
    assert(c.drop_first().drop_first().drop_first().drop_first() =~= seq!['m', 'i']);
    assert(c.drop_first().drop_first().drop_first().drop_first().drop_first() =~= seq!['i']);
    assert(seq!['i'].drop_first() =~= Seq::<char>::empty());
    assert(bare_template(Seq::<char>::empty()) =~= Seq::<char>::empty());
    let b5 = bare_template(seq!['i']);
    assert(b5 =~= seq!['%', 'i']);
    let b4 = bare_template(seq!['m', 'i']);
    assert(b4 =~= seq!['%', 'm'] + b5);
    let b3 = bare_template(seq!['a', 'm', 'i']);
    assert(b3 =~= seq!['%', 'a'] + b4);
    let b2 = bare_template(seq!['d', 'a', 'm', 'i']);
    assert(b2 =~= seq!['%', 'd'] + b3);
    let b1 = bare_template(seq!['s', 'd', 'a', 'm', 'i']);
    assert(b1 =~= seq!['%', 's'] + b2);
    let b0 = bare_template(c);
    assert(b0 =~= seq!['%', 'f'] + b1);
    reveal_strlit("%f%s%d%a%m%i");
    assert(b0 =~= "%f%s%d%a%m%i"@);
}

proof fn lemma_code_times_cons(c: char, rest: Seq<char>, p: PrayerTimes, f: TimeFormat)
    ensures
        code_times_text(seq![c] + rest, p, f) == minute_text(code_time(c, p).unwrap() as nat, f)
            + code_times_text(rest, p, f),
{
    assert((seq![c] + rest).drop_first() =~= rest);
}

proof fn lemma_all_codes_times(p: PrayerTimes, f: TimeFormat)
    ensures
        ({
            let t = time_texts(p, f);
            code_times_text(all_time_codes(), p, f) == t[0] + (t[1] + (t[2] + (t[3] + (t[4]
                + t[5]))))
        }),
{
    let t = time_texts(p, f);
    let e = Seq::<char>::empty();
    let c5 = seq!['i'] + e;
    let c4 = seq!['m'] + c5;
    let c3 = seq!['a'] + c4;
    let c2 = seq!['d'] + c3;
    let c1 = seq!['s'] + c2;
    let c0 = seq!['f'] + c1;
    assert(c0 =~= all_time_codes());
    lemma_code_times_cons('i', e, p, f);
    lemma_code_times_cons('m', c5, p, f);
    lemma_code_times_cons('a', c4, p, f);
    lemma_code_times_cons('d', c3, p, f);
    lemma_code_times_cons('s', c2, p, f);
    lemma_code_times_cons('f', c1, p, f);
    assert(code_times_text(e, p, f) == e);
    assert(t[5] + e =~= t[5]);
}

/// The template `%f%s%d%a%m%i` expands to the six times in the configured
/// format, one after the other.
pub proof fn lemma_custom_all_times(p: PrayerTimes, f: TimeFormat, now: int)
    ensures
        ({
            let t = time_texts(p, f);
            custom_text("%f%s%d%a%m%i"@, p, f, now) == t[0] + (t[1] + (t[2] + (t[3] + (t[4]
                + t[5]))))
        }),
{
    let codes = all_time_codes();
    assert forall|k: int| 0 <= k < codes.len() implies (#[trigger] code_time(codes[k], p)) is Some by {
    }
    lemma_custom_bare_codes(codes, p, f, now);
    lemma_all_codes_template();
    lemma_all_codes_times(p, f);
}

} // verus!
