//! Prayer-time datasets: the salatmv tables (atolls, islands and the yearly
//! prayer-time rows, as `;`-separated text) and the per-island timeset
//! parsed out of them.
use vstd::prelude::*;
use chrono::Datelike;
use crate::prayer::PrayerTimes;
use crate::text::{
    parse_int, parse_u32, parse_usize, push_str, split, split_seq, str_eq, u64_to_string, views,
    digits,
};

verus! {

broadcast use vstd::string::group_string_axioms;

/// One island's timeset: its name, details, coordinates (as text) and its
/// yearly table of rows `[timeset, day, fajr, sun, dhuhur, asr, magrib, isha]`.
#[derive(Debug, Default, PartialEq, Eq)]
pub struct TimeSetData {
    pub name: String,
    pub details: Option<String>,
    pub coordinates: (String, String),
    pub data: Vec<Vec<u32>>,
}

/// The rows of a table: the values of each row in order.
pub open spec fn rows_view(data: Seq<Vec<u32>>) -> Seq<Seq<u32>> {
    data.map_values(|r: Vec<u32>| r@)
}

/// Row of a yearly table for day `ordinal0` (0 = January 1st) of a year.
///
/// Tables of 366 rows follow the leap-year layout with February 29th at row
/// 59, so in other years the days from March 1st on skip that row. Tables of
/// 365 rows have no such row, so in leap years the days after February 29th
/// move back by one.
pub open spec fn day_row(rows: int, ordinal0: int, leap: bool) -> int {
    if rows == 366 && !leap && ordinal0 >= 59 {
        ordinal0 + 1
    } else if rows == 365 && leap && ordinal0 >= 60 {
        ordinal0 - 1
    } else {
        ordinal0
    }
}

impl TimeSetData {
    /// The table row holding day `ordinal0` of a year (see `day_row`).
    pub fn day_index(&self, ordinal0: u32, leap: bool) -> (i: usize)
        requires
            ordinal0 < 366,
        ensures
            i == day_row(self.data.len() as int, ordinal0 as int, leap),
    {
        let rows = self.data.len();
        let d = ordinal0 as usize;
        if rows == 366 && !leap && d >= 59 {
            d + 1
        } else if rows == 365 && leap && d >= 60 {
            d - 1
        } else {
            d
        }
    }

    /// The prayer times of table row `day`.
    pub fn data_from_day(&self, day: usize) -> (p: PrayerTimes)
        requires
            day < self.data.len(),
            self.data[day as int].len() >= 8,
        ensures
            p.index == self.data[day as int][0],
            p.day == self.data[day as int][1],
            p.times() == self.data[day as int]@.subrange(2, 8),
    {
        let row = self.data[day].clone();
        let p = PrayerTimes::from_vec(row);
        assert(p.times() =~= self.data[day as int]@.subrange(2, 8));
        p
    }
}

/// Whether year `y` of the proleptic Gregorian calendar is a leap year.
pub open spec fn is_leap_year(y: int) -> bool {
    y % 4 == 0 && (y % 100 != 0 || y % 400 == 0)
}

/// The number of days in the years before year `y`, counted from January
/// 1 of year 1 (negative for the years before it).
pub open spec fn days_before_year(y: int) -> int {
    let n = y - 1;
    365 * n + n / 4 - n / 100 + n / 400
}

/// The years chrono's dates cover.
pub open spec fn in_chrono_years(y: int) -> bool {
    -262143 <= y <= 262142
}

/// The date numbered `days` in the proleptic Gregorian calendar (January 1
/// of year 1 is day 1), as its day of the year counted from 0 and whether
/// its year is a leap year; `None` outside the years chrono covers.
pub open spec fn calendar_day(days: i32) -> Option<(u32, bool)> {
    if exists|y: int|
        in_chrono_years(y) && #[trigger] days_before_year(y) < days <= days_before_year(y + 1) {
        let y = choose|y: int|
            in_chrono_years(y) && #[trigger] days_before_year(y) < days <= days_before_year(y + 1);
        Some(((days - days_before_year(y) - 1) as u32, is_leap_year(y)))
    } else {
        None
    }
}

/// `chrono::NaiveDate::from_num_days_from_ce_opt`, read through
/// `Datelike::ordinal0` and `NaiveDate::leap_year`: the day of the year and
/// the leap-year flag of the date with that number (`calendar_day`), which
/// chrono documents as the proleptic Gregorian calendar with January 1 of
/// year 1 as day 1, and its day of the year as `0..=365`.
#[verifier::external_body]
fn calendar_day_of(days: i32) -> (r: Option<(u32, bool)>)
    ensures
        r == calendar_day(days),
        r matches Some(p) ==> p.0 < 366,
{
    match chrono::NaiveDate::from_num_days_from_ce_opt(days) {
        Some(d) => Some((d.ordinal0(), d.leap_year())),
        None => None,
    }
}

impl TimeSetData {
    /// The table row holding the day numbered `days` (see `calendar_day`
    /// and `day_row`); `None` outside chrono's calendar.
    pub fn row_for_day(&self, days: i32) -> (r: Option<usize>)
        ensures
            match calendar_day(days) {
                Some(p) => r matches Some(i) && i == day_row(self.data.len() as int, p.0 as int, p.1),
                None => r is None,
            },
    {
        match calendar_day_of(days) {
            Some((ordinal0, leap)) => Some(self.day_index(ordinal0, leap)),
            None => None,
        }
    }

    /// The prayer times of the day numbered `days`; `None` when the date is
    /// outside chrono's calendar or the table has no full row for it.
    pub fn times_on_day(&self, days: i32) -> (r: Option<PrayerTimes>)
        ensures
            match calendar_day(days) {
                None => r is None,
                Some(p) => {
                    let i = day_row(self.data.len() as int, p.0 as int, p.1);
                    if i < self.data.len() && self.data[i].len() >= 8 {
                        r matches Some(t) && t.index == self.data[i][0] && t.day == self.data[i][1]
                            && t.times() == self.data[i]@.subrange(2, 8)
                    } else {
                        r is None
                    }
                },
            },
    {
        match self.row_for_day(days) {
            Some(i) => {
                if i < self.data.len() && self.data[i].len() >= 8 {
                    Some(self.data_from_day(i))
                } else {
                    None
                }
            },
            None => None,
        }
    }
}

/// The salatmv dataset as text, one table per field.
#[derive(Debug, PartialEq, Eq)]
pub struct MVRawData {
    /// rows `index;eng_name;dhi_name;ar_name`
    pub atoll: String,
    /// rows `timeset;island;atoll;eng_name;dhi_name;ar_name;_;latitude;longitude;_`
    pub island: String,
    /// rows `timeset;day;fajr;sun;dhuhur;asr;magrib;isha`
    pub pt: String,
}

/// The rows of a table text: its lines, without the last one (the text
/// after the final newline), each split at `;`.
pub open spec fn table_of(text: Seq<char>) -> Seq<Seq<Seq<char>>> {
    split_seq(text, '\n').drop_last().map_values(|r: Seq<char>| split_seq(r, ';'))
}

pub open spec fn table_view(t: Seq<Vec<String>>) -> Seq<Seq<Seq<char>>> {
    t.map_values(|r: Vec<String>| views(r@))
}

/// The fields of every row whose column `col` equals `key`, one after the
/// other.
pub open spec fn matching_fields(t: Seq<Seq<Seq<char>>>, col: int, key: Seq<char>) -> Seq<Seq<char>>
    decreases t.len(),
{
    if t.len() == 0 {
        Seq::empty()
    } else {
        matching_fields(t.drop_last(), col, key) + if t.last()[col] == key {
            t.last()
        } else {
            Seq::empty()
        }
    }
}

/// The rows whose column `col` equals `key`.
pub open spec fn matching_rows(t: Seq<Seq<Seq<char>>>, col: int, key: Seq<char>) -> Seq<
    Seq<Seq<char>>,
>
    decreases t.len(),
{
    if t.len() == 0 {
        Seq::empty()
    } else {
        matching_rows(t.drop_last(), col, key) + if t.last()[col] == key {
            seq![t.last()]
        } else {
            Seq::empty()
        }
    }
}

/// A prayer-time field as a number; `444000444` marks a field that is not
/// one.
pub open spec fn field_number(e: Seq<char>) -> u32 {
    match parse_int(e, 0, u32::MAX as int, false) {
        Ok(v) => v as u32,
        Err(_) => 444000444,
    }
}

pub open spec fn numbers_of(row: Seq<Seq<char>>) -> Seq<u32> {
    row.map_values(|e: Seq<char>| field_number(e))
}

/// Every row has at least `n` fields.
pub open spec fn rows_have(t: Seq<Seq<Seq<char>>>, n: int) -> bool {
    forall|i: int| 0 <= i < t.len() ==> (#[trigger] t[i]).len() >= n
}

/// What the island with index `island_index` needs for its timeset to be
/// read: every island row has an island column, the island's fields reach
/// the longitude, its atoll column is a number, and that atoll's row exists
/// with a name.
pub open spec fn island_readable(d: MVRawData, island_index: usize) -> bool {
    let isl = table_of(d.island@);
    let f = matching_fields(isl, 1, digits(island_index as nat));
    let atolls = table_of(d.atoll@);
    &&& rows_have(isl, 2)
    &&& f.len() >= 9
    &&& parse_int(f[2], 0, usize::MAX as int, false) matches Ok(a) && 0 <= a < atolls.len()
        && atolls[a].len() >= 2
}

/// The timeset that `parse_to_timeset` reads for island `island_index`.
pub open spec fn timeset_ok(d: MVRawData, island_index: usize, t: TimeSetData) -> bool {
    let isl = table_of(d.island@);
    let f = matching_fields(isl, 1, digits(island_index as nat));
    let atolls = table_of(d.atoll@);
    let a = parse_int(f[2], 0, usize::MAX as int, false)->Ok_0;
    let pts = matching_rows(table_of(d.pt@), 0, f[0]);
    &&& t.name@ == atolls[a][1] + ". "@ + f[3]
    &&& t.details is None
    &&& t.coordinates.0@ == f[7]
    &&& t.coordinates.1@ == f[8]
    &&& rows_view(t.data@) == pts.map_values(|r: Seq<Seq<char>>| numbers_of(r))
}

/// The rows of a table text (see `table_of`).
pub fn table(text: &str) -> (t: Vec<Vec<String>>)
    ensures
        table_view(t@) == table_of(text@),
{
    let lines = split(text, '\n');
    let n = if lines.len() > 0 {
        lines.len() - 1
    } else {
        0
    };
    let ghost lv = views(lines@);
    let mut t: Vec<Vec<String>> = Vec::new();
    for i in 0..n
        invariant
            lv == views(lines@),
            n == lines.len() - 1 || (n == 0 && lines.len() == 0),
            n <= lines.len(),
            table_view(t@) == lv.drop_last().take(i as int).map_values(
                |r: Seq<char>| split_seq(r, ';'),
            ),
    {
        let fields = split(lines[i].as_str(), ';');
        assert(lv.drop_last()[i as int] == lines@[i as int]@);
        let ghost before = t@;
        t.push(fields);
        assert(table_view(t@) =~= table_view(before).push(views(fields@)));
        assert(lv.drop_last().take(i + 1) =~= lv.drop_last().take(i as int).push(lines@[i as int]@));
        assert(table_view(t@) =~= lv.drop_last().take(i + 1).map_values(
            |r: Seq<char>| split_seq(r, ';'),
        ));
    }
    proof {
        if lines.len() == 0 {
            assert(lv.drop_last().len() == 0);
        }
        assert(lv.drop_last().take(n as int) =~= lv.drop_last());
    }
    t
}

fn cell_is(row: &Vec<String>, col: usize, key: &str) -> (b: bool)
    requires
        col < row.len(),
    ensures
        b == (row@[col as int]@ == key@),
{
    str_eq(row[col].as_str(), key)
}

/// Fields of the rows whose column `col` equals `key`, one after the other.
fn collect_fields(t: &Vec<Vec<String>>, col: usize, key: &str) -> (f: Vec<String>)
    requires
        rows_have(table_view(t@), col + 1),
    ensures
        views(f@) == matching_fields(table_view(t@), col as int, key@),
{
    let ghost tv = table_view(t@);
    let mut f: Vec<String> = Vec::new();
    for i in 0..t.len()
        invariant
            tv == table_view(t@),
            rows_have(tv, col + 1),
            views(f@) == matching_fields(tv.take(i as int), col as int, key@),
    {
        assert(tv.take(i + 1).drop_last() =~= tv.take(i as int));
        assert(tv[i as int] == views(t@[i as int]@));
        assert(tv[i as int].len() >= col + 1);
        if cell_is(&t[i], col, key) {
            let mut row = t[i].clone();
            f.append(&mut row);
        }
        assert(views(f@) =~= matching_fields(tv.take(i + 1), col as int, key@));
    }
    assert(tv.take(t.len() as int) =~= tv);
    f
}

fn numbers(row: &Vec<String>) -> (v: Vec<u32>)
    ensures
        v@ == numbers_of(views(row@)),
{
    let mut v: Vec<u32> = Vec::new();
    for i in 0..row.len()
        invariant
            v@ == numbers_of(views(row@)).take(i as int),
    {
        let x = match parse_u32(row[i].as_str()) {
            Ok(x) => x,
            Err(_) => 444000444,
        };
        v.push(x);
        assert(v@ =~= numbers_of(views(row@)).take(i + 1));
    }
    assert(numbers_of(views(row@)).take(row.len() as int) =~= numbers_of(views(row@)));
    v
}

/// The rows (as numbers) whose first column equals `key`.
fn collect_rows(t: &Vec<Vec<String>>, key: &str) -> (rows: Vec<Vec<u32>>)
    requires
        rows_have(table_view(t@), 1),
    ensures
        rows_view(rows@) == matching_rows(table_view(t@), 0, key@).map_values(
            |r: Seq<Seq<char>>| numbers_of(r),
        ),
{
    let ghost tv = table_view(t@);
    let mut rows: Vec<Vec<u32>> = Vec::new();
    for i in 0..t.len()
        invariant
            tv == table_view(t@),
            rows_have(tv, 1),
            rows_view(rows@) == matching_rows(tv.take(i as int), 0, key@).map_values(
                |r: Seq<Seq<char>>| numbers_of(r),
            ),
    {
        assert(tv.take(i + 1).drop_last() =~= tv.take(i as int));
        assert(tv[i as int] == views(t@[i as int]@));
        let ghost m_old = matching_rows(tv.take(i as int), 0, key@);
        let ghost before = rows@;
        if cell_is(&t[i], 0, key) {
            rows.push(numbers(&t[i]));
            assert(matching_rows(tv.take(i + 1), 0, key@) == m_old + seq![tv[i as int]]);
            assert(rows_view(rows@) =~= rows_view(before).push(numbers_of(tv[i as int])));
            assert((m_old + seq![tv[i as int]]).map_values(|r: Seq<Seq<char>>| numbers_of(r))
                =~= m_old.map_values(|r: Seq<Seq<char>>| numbers_of(r)).push(numbers_of(tv[i as int])));
        } else {
            assert(matching_rows(tv.take(i + 1), 0, key@) =~= m_old);
        }
        assert(rows_view(rows@) =~= matching_rows(tv.take(i + 1), 0, key@).map_values(
            |r: Seq<Seq<char>>| numbers_of(r),
        ));
    }
    assert(tv.take(t.len() as int) =~= tv);
    rows
}

proof fn lemma_split_nonempty(s: Seq<char>, sep: char)
    ensures
        split_seq(s, sep).len() >= 1,
    decreases s.len(),
{
    crate::text::lemma_find_char(s, sep, 0);
    let i = crate::text::find_char(s, sep, 0);
    if i < s.len() {
        lemma_split_nonempty(s.subrange(i + 1, s.len() as int), sep);
    }
}

proof fn lemma_table_rows_nonempty(text: Seq<char>)
    ensures
        rows_have(table_of(text), 1),
{
    let t = table_of(text);
    assert forall|i: int| 0 <= i < t.len() implies (#[trigger] t[i]).len() >= 1 by {
        lemma_split_nonempty(split_seq(text, '\n').drop_last()[i], ';');
    }
}

impl MVRawData {
    pub fn from(pt: String, atoll: String, island: String) -> (d: MVRawData)
        ensures
            d.pt == pt,
            d.atoll == atoll,
            d.island == island,
    {
        MVRawData { pt, atoll, island }
    }

    /// Whether `parse_to_timeset(island_index)` can read the island (see
    /// `island_readable`).
    pub fn can_parse(&self, island_index: usize) -> (b: bool)
        ensures
            b == island_readable(*self, island_index),
    {
        let isl = table(self.island.as_str());
        let ghost tv = table_view(isl@);
        let mut i: usize = 0;
        while i < isl.len()
            invariant
                tv == table_view(isl@),
                tv == table_of(self.island@),
                i <= isl.len(),
                forall|j: int| 0 <= j < i ==> (#[trigger] tv[j]).len() >= 2,
            decreases isl.len() - i,
        {
            assert(tv[i as int] == views(isl@[i as int]@));
            assert(tv[i as int].len() == isl@[i as int].len());
            if isl[i].len() < 2 {
                return false;
            }
            i = i + 1;
        }
        let key = u64_to_string(island_index as u64);
        let f = collect_fields(&isl, 1, key.as_str());
        if f.len() < 9 {
            return false;
        }
        let atolls = table(self.atoll.as_str());
        match parse_usize(f[2].as_str()) {
            Ok(a) => {
                if a < atolls.len() {
                    assert(table_view(atolls@)[a as int] == views(atolls@[a as int]@));
                    atolls[a].len() >= 2
                } else {
                    false
                }
            },
            Err(_) => false,
        }
    }

    /// The timeset of island `island_index` (the island column of the
    /// islands table), or `None` when the prayer-time table is empty.
    pub fn parse_to_timeset(&self, island_index: usize) -> (r: Option<TimeSetData>)
        requires
            self.pt@.len() > 0 ==> island_readable(*self, island_index),
        ensures
            self.pt@.len() == 0 ==> r is None,
            self.pt@.len() > 0 ==> (r matches Some(t) && timeset_ok(*self, island_index, t)),
    {
        if self.pt.as_str().is_empty() {
            return None;
        }
        // Island
        let isl = table(self.island.as_str());
        let key = u64_to_string(island_index as u64);
        let island_data = collect_fields(&isl, 1, key.as_str());
        let island_name = island_data[3].clone();
        // Atoll
        let atoll_index = match parse_usize(island_data[2].as_str()) {
            Ok(a) => a,
            Err(_) => {
                return None;
            },
        };
        let atolls = table(self.atoll.as_str());
        assert(table_view(atolls@)[atoll_index as int] == views(atolls@[atoll_index as int]@));
        let atoll_name = atolls[atoll_index][1].clone();
        // PT
        let timeset_index = island_data[0].clone();
        let pts = table(self.pt.as_str());
        proof {
            lemma_table_rows_nonempty(self.pt@);
        }
        let data = collect_rows(&pts, timeset_index.as_str());
        let mut name = atoll_name;
        push_str(&mut name, ". ");
        push_str(&mut name, island_name.as_str());
        let coordinates = (island_data[7].clone(), island_data[8].clone());
        Some(TimeSetData { name, details: None, coordinates, data })
    }
}

/// The key of an island row, `"<atoll>. <island>"`, when the row names an
/// atoll that exists.
pub open spec fn island_key(r: Seq<Seq<char>>, atolls: Seq<Seq<Seq<char>>>) -> Option<Seq<char>> {
    if r.len() >= 4 {
        match parse_int(r[2], 0, usize::MAX as int, false) {
            Ok(a) => if 0 <= a < atolls.len() && atolls[a].len() >= 2 {
                Some(atolls[a][1] + ". "@ + r[3])
            } else {
                None
            },
            Err(_) => None,
        }
    } else {
        None
    }
}

/// The keys of the island rows that have one, in table order.
pub open spec fn island_keys_of(isl: Seq<Seq<Seq<char>>>, atolls: Seq<Seq<Seq<char>>>) -> Seq<
    Seq<char>,
>
    decreases isl.len(),
{
    if isl.len() == 0 {
        Seq::empty()
    } else {
        island_keys_of(isl.drop_last(), atolls) + match island_key(isl.last(), atolls) {
            Some(k) => seq![k],
            None => Seq::empty(),
        }
    }
}

/// The first island row whose key is `key`.
pub open spec fn first_island_row(
    isl: Seq<Seq<Seq<char>>>,
    atolls: Seq<Seq<Seq<char>>>,
    key: Seq<char>,
    i: int,
) -> Option<int>
    decreases isl.len() - i,
{
    if i < 0 || i >= isl.len() {
        None
    } else if island_key(isl[i], atolls) == Some(key) {
        Some(i)
    } else {
        first_island_row(isl, atolls, key, i + 1)
    }
}

fn row_key(r: &Vec<String>, atolls: &Vec<Vec<String>>) -> (k: Option<String>)
    ensures
        match island_key(views(r@), table_view(atolls@)) {
            Some(v) => k matches Some(s) && s@ == v,
            None => k is None,
        },
{
    if r.len() < 4 {
        return None;
    }
    match parse_usize(r[2].as_str()) {
        Ok(a) => {
            if a < atolls.len() {
                assert(table_view(atolls@)[a as int] == views(atolls@[a as int]@));
                if atolls[a].len() >= 2 {
                    let mut k = atolls[a][1].clone();
                    push_str(&mut k, ". ");
                    push_str(&mut k, r[3].as_str());
                    Some(k)
                } else {
                    None
                }
            } else {
                None
            }
        },
        Err(_) => None,
    }
}

impl MVRawData {
    /// The key of every island that has one, `"<atoll>. <island>"`.
    pub fn island_keys(&self) -> (keys: Vec<String>)
        ensures
            views(keys@) == island_keys_of(table_of(self.island@), table_of(self.atoll@)),
    {
        let isl = table(self.island.as_str());
        let atolls = table(self.atoll.as_str());
        let ghost iv = table_view(isl@);
        let ghost av = table_view(atolls@);
        let mut keys: Vec<String> = Vec::new();
        for i in 0..isl.len()
            invariant
                iv == table_view(isl@),
                av == table_view(atolls@),
                views(keys@) == island_keys_of(iv.take(i as int), av),
        {
            assert(iv.take(i + 1).drop_last() =~= iv.take(i as int));
            assert(iv[i as int] == views(isl@[i as int]@));
            let ghost before = keys@;
            match row_key(&isl[i], &atolls) {
                Some(k) => {
                    keys.push(k);
                },
                None => {},
            }
            assert(views(keys@) =~= island_keys_of(iv.take(i + 1), av));
        }
        assert(iv.take(isl.len() as int) =~= iv);
        keys
    }

    /// The timeset of the island with key `key`: the first island row with
    /// that key gives the island index; `None` when there is no such row,
    /// its island column is not a number, the prayer-time table is empty or
    /// the island's data cannot be read.
    pub fn timeset_for_island(&self, key: &str) -> (r: Option<TimeSetData>)
        ensures
            ({
                let isl = table_of(self.island@);
                match first_island_row(isl, table_of(self.atoll@), key@, 0) {
                    None => r is None,
                    Some(i) => match parse_int(isl[i][1], 0, usize::MAX as int, false) {
                        Err(_) => r is None,
                        Ok(idx) => if self.pt@.len() > 0 && island_readable(*self, idx as usize) {
                            r matches Some(t) && timeset_ok(*self, idx as usize, t)
                        } else {
                            r is None
                        },
                    },
                }
            }),
    {
        let isl = table(self.island.as_str());
        let atolls = table(self.atoll.as_str());
        let ghost iv = table_view(isl@);
        let ghost av = table_view(atolls@);
        let mut i: usize = 0;
        while i < isl.len()
            invariant
                iv == table_view(isl@),
                av == table_view(atolls@),
                iv == table_of(self.island@),
                av == table_of(self.atoll@),
                i <= isl.len(),
                first_island_row(iv, av, key@, i as int) == first_island_row(iv, av, key@, 0),
            decreases isl.len() - i,
        {
            assert(iv[i as int] == views(isl@[i as int]@));
            let found = match row_key(&isl[i], &atolls) {
                Some(k) => str_eq(k.as_str(), key),
                None => false,
            };
            if found {
                assert(iv[i as int].len() >= 4);
                let idx = match parse_usize(isl[i][1].as_str()) {
                    Ok(v) => v,
                    Err(_) => {
                        return None;
                    },
                };
                if self.pt.as_str().is_empty() {
                    return None;
                }
                if !self.can_parse(idx) {
                    return None;
                }
                return self.parse_to_timeset(idx);
            }
            i = i + 1;
        }
        None
    }
}

/// Every day of a year lands on a row of a 365- or 366-row table, the
/// non-leap years of a 366-row table never land on its February 29th row,
/// and different days land on different rows.
pub proof fn lemma_day_row_in_table(rows: int, leap: bool, d1: int, d2: int)
    requires
        rows == 365 || rows == 366,
        0 <= d1 < (if leap {
            366int
        } else {
            365int
        }),
        0 <= d2 < (if leap {
            366int
        } else {
            365int
        }),
    ensures
        0 <= day_row(rows, d1, leap) < rows,
        rows == 366 && !leap ==> day_row(rows, d1, leap) != 59,
        d1 != d2 && !(rows == 365 && leap && (d1 == 59 && d2 == 60 || d1 == 60 && d2 == 59))
            ==> day_row(rows, d1, leap) != day_row(rows, d2, leap),
{
}

} // verus!
