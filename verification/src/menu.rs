//! The text of the main menu and of the settings lists: location line,
//! prayer rows, markers, field rows and scrolling.
use vstd::prelude::*;
use crate::conf::{Config, LocationDisplay, ProviderKind, TimeIndicator};
use crate::indicator::{
    indicator, indicator_ok, IndicatorData, IndicatorMarker, AXIS, MARKER_CURRENT, MARKER_NEXT,
    MARKER_SINGLE,
};
use crate::prayer::{time_texts, PrayerTimes};
use crate::settings::{field_value, FieldId, FieldKind, FieldRow, label_of};
use crate::state::{min, sat_sub, AppState, SettingsMode, SettingsState};
use crate::settings::fields_for;
use crate::text::{
    chars_of, owned, pad_right, push_char, push_slice, push_str, str_eq, string_of, trim_by,
    trimmed, views, Strip,
};

verus! {

broadcast use vstd::string::group_string_axioms;

/// Scanning from `i`: the first position where `", "` starts, or `s.len()`.
pub open spec fn find_comma_space(s: Seq<char>, i: int) -> int
    decreases s.len() - i,
{
    if i < 0 || i + 1 >= s.len() {
        s.len() as int
    } else if s[i] == ',' && s[i + 1] == ' ' {
        i
    } else {
        find_comma_space(s, i + 1)
    }
}

/// `(city, country)` of the active provider: a calculation location
/// `"city, country"` splits at its first `", "` (no country when there is
/// none); a salatmv island is in the Maldives.
pub open spec fn location_parts_of(c: Config) -> (Seq<char>, Seq<char>) {
    match c.provider {
        ProviderKind::Calculation => {
            let s = c.calculation.location@;
            let i = find_comma_space(s, 0);
            if i < s.len() {
                (s.subrange(0, i), s.subrange(i + 2, s.len() as int))
            } else {
                (s, Seq::empty())
            }
        },
        ProviderKind::SalatMv => (c.salatmv.island@, "Maldives"@),
    }
}

/// The menu's location line for the configured display, before trimming.
pub open spec fn location_raw(c: Config) -> Seq<char> {
    let (city, country) = location_parts_of(c);
    match c.display.location {
        LocationDisplay::Country => country,
        LocationDisplay::City => city,
        _ => city + ", "@ + country,
    }
}

/// The menu's location line: hidden when so configured or when nothing is
/// left after trimming white space and stray commas.
pub open spec fn location_line_of(c: Config) -> Option<Seq<char>> {
    if c.display.location == LocationDisplay::Hide {
        None
    } else {
        let t = trimmed(trimmed(trimmed(location_raw(c), Strip::Space), Strip::Comma), Strip::Space);
        if t.len() == 0 {
            None
        } else {
            Some(t)
        }
    }
}

fn find_comma_space_from(cs: &Vec<char>, i: usize) -> (r: usize)
    requires
        i <= cs.len(),
    ensures
        r == find_comma_space(cs@, i as int),
{
    let mut j = i;
    while j < cs.len() && cs.len() - j > 1
        invariant
            i <= j <= cs.len(),
            find_comma_space(cs@, j as int) == find_comma_space(cs@, i as int),
        decreases cs.len() - j,
    {
        if cs[j] == ',' && cs[j + 1] == ' ' {
            return j;
        }
        j = j + 1;
    }
    cs.len()
}

proof fn lemma_find_comma_space(s: Seq<char>, i: int)
    requires
        0 <= i <= s.len(),
    ensures
        i <= find_comma_space(s, i) <= s.len(),
        find_comma_space(s, i) < s.len() ==> find_comma_space(s, i) + 1 < s.len(),
    decreases s.len() - i,
{
    if i + 1 < s.len() && !(s[i] == ',' && s[i + 1] == ' ') {
        lemma_find_comma_space(s, i + 1);
    }
}

/// (city, country) derived from the active provider (see
/// `location_parts_of`).
pub fn location_parts(app_state: &AppState) -> (r: (String, String))
    ensures
        (r.0@, r.1@) == location_parts_of(app_state.config),
{
    match app_state.config.provider {
        ProviderKind::Calculation => {
            let cs = chars_of(app_state.config.calculation.location.as_str());
            let i = find_comma_space_from(&cs, 0);
            proof {
                lemma_find_comma_space(cs@, 0);
            }
            if i < cs.len() {
                (string_of(&cs, 0, i), string_of(&cs, i + 2, cs.len()))
            } else {
                (app_state.config.calculation.location.clone(), String::new())
            }
        },
        ProviderKind::SalatMv => (app_state.config.salatmv.island.clone(), owned("Maldives")),
    }
}

/// the rendered location line for the menu title, if any (see
/// `location_line_of`)
pub fn location_line(app_state: &AppState) -> (r: Option<String>)
    ensures
        match location_line_of(app_state.config) {
            Some(t) => r matches Some(s) && s@ == t,
            None => r is None,
        },
{
    let mode = app_state.config.display.location;
    if mode == LocationDisplay::Hide {
        return None;
    }
    let (city, country) = location_parts(app_state);
    let text = match mode {
        LocationDisplay::Country => country,
        LocationDisplay::City => city,
        _ => {
            let mut t = city;
            push_str(&mut t, ", ");
            push_str(&mut t, country.as_str());
            t
        },
    };
    let a = trim_by(text.as_str(), Strip::Space);
    let b = trim_by(a.as_str(), Strip::Comma);
    let c = trim_by(b.as_str(), Strip::Space);
    if c.as_str().is_empty() {
        None
    } else {
        Some(c)
    }
}

/// One prayer row: the name left-aligned in seven columns, the separator,
/// a space, the time.
pub open spec fn menu_row_text(name: Seq<char>, sep: Seq<char>, time: Seq<char>) -> Seq<char> {
    pad_right(name, 7) + sep + seq![' '] + time
}

fn push_padded(s: &mut String, t: &str, width: usize)
    ensures
        final(s)@ == old(s)@ + pad_right(t@, width as nat),
{
    let cs = chars_of(t);
    push_slice(s, &cs, 0, cs.len());
    assert(cs@.subrange(0, cs.len() as int) =~= t@);
    let mut k = cs.len();
    let ghost mid = s@;
    while k < width
        invariant
            cs.len() <= k <= width || (cs.len() >= width && k == cs.len()),
            mid == old(s)@ + t@,
            cs@ == t@,
            s@ == mid + Seq::new((k - cs.len()) as nat, |_i: int| ' '),
        decreases width - k,
    {
        push_char(s, ' ');
        assert(Seq::new((k + 1 - cs.len()) as nat, |_i: int| ' ') =~= Seq::new(
            (k - cs.len()) as nat,
            |_i: int| ' ',
        ).push(' '));
        k = k + 1;
    }
    assert(s@ =~= old(s)@ + pad_right(t@, width as nat));
}

/// A prayer row of the menu (see `menu_row_text`).
pub fn menu_row(name: &str, sep: &str, time: &str) -> (s: String)
    ensures
        s@ == menu_row_text(name@, sep@, time@),
{
    let mut s = String::new();
    push_padded(&mut s, name, 7);
    push_str(&mut s, sep);
    push_char(&mut s, ' ');
    push_str(&mut s, time);
    assert(s@ =~= menu_row_text(name@, sep@, time@));
    s
}

/// The names of the menu's prayer rows.
pub open spec fn row_names() -> Seq<Seq<char>> {
    seq!["Fajr"@, "Sun"@, "Dhuhur"@, "Asr"@, "Magrib"@, "Isha"@]
}

/// The separator between name and time: the indicator's axis when the
/// in-between indicator is on, else a colon.
pub open spec fn row_separator(c: Config) -> Seq<char> {
    if c.display.indicator == TimeIndicator::Inbetween {
        AXIS@
    } else {
        ":"@
    }
}

/// The six prayer rows of the menu (see `menu_row_text`).
pub fn menu_rows(times: &PrayerTimes, config: &Config) -> (rows: Vec<String>)
    ensures
        rows@.len() == 6,
        forall|k: int|
            0 <= k < 6 ==> (#[trigger] rows@[k])@ == menu_row_text(
                row_names()[k],
                row_separator(*config),
                time_texts(*times, config.display.format)[k],
            ),
{
    let names: [&str; 6] = ["Fajr", "Sun", "Dhuhur", "Asr", "Magrib", "Isha"];
    let sep = if config.display.indicator == TimeIndicator::Inbetween {
        AXIS
    } else {
        ":"
    };
    let times_text = times.format_time(config);
    assert(views(times_text@).len() == times_text@.len());
    let mut rows: Vec<String> = Vec::new();
    for k in 0..6
        invariant
            times_text@.len() == 6,
            views(times_text@) == time_texts(*times, config.display.format),
            sep@ == row_separator(*config),
            names@.len() == 6,
            forall|j: int| 0 <= j < 6 ==> (#[trigger] names@[j])@ == row_names()[j],
            rows@.len() == k,
            forall|j: int|
                0 <= j < k ==> (#[trigger] rows@[j])@ == menu_row_text(
                    row_names()[j],
                    row_separator(*config),
                    time_texts(*times, config.display.format)[j],
                ),
    {
        assert(views(times_text@)[k as int] == times_text@[k as int]@);
        rows.push(menu_row(names[k], sep, times_text[k].as_str()));
    }
    rows
}

/// What the menu marks for the day `day_offset` days from today: the
/// configured indicator at minute `now_min` today, with the notification
/// offset's size as its window; nothing on any other day.
pub fn menu_indicator(config: &Config, times: &PrayerTimes, now_min: u32, day_offset: i64) -> (d:
    IndicatorData)
    ensures
        day_offset != 0 ==> d.highlight is None && d.marker is None,
        day_offset == 0 ==> indicator_ok(
            config.display.indicator,
            *times,
            now_min as int,
            if config.notifications.offset < 0 {
                -config.notifications.offset
            } else {
                config.notifications.offset as int
            },
            d,
        ),
{
    if day_offset != 0 {
        return IndicatorData { highlight: None, marker: None };
    }
    let o = config.notifications.offset;
    let window: u32 = if o < 0 {
        (-(o as i64)) as u32
    } else {
        o as u32
    };
    indicator(config.display.indicator, times, now_min, window)
}

/// The marker glyph of row `i`, if the indicator puts one there.
pub open spec fn row_marker_of(i: int, d: IndicatorData) -> Option<Seq<char>> {
    match d.marker {
        Some(IndicatorMarker::Pair(p)) => if i == p.current {
            Some(MARKER_CURRENT@)
        } else if i == p.next {
            Some(MARKER_NEXT@)
        } else {
            None
        },
        Some(IndicatorMarker::Single(r)) => if i == r {
            Some(MARKER_SINGLE@)
        } else {
            None
        },
        None => None,
    }
}

/// The marker glyph of row `i`, if any (see `row_marker_of`).
pub fn row_marker(i: usize, data: &IndicatorData) -> (m: Option<&'static str>)
    ensures
        match row_marker_of(i as int, *data) {
            Some(g) => m matches Some(s) && s@ == g,
            None => m is None,
        },
{
    match data.marker {
        Some(IndicatorMarker::Pair(p)) => {
            if i == p.current {
                Some(MARKER_CURRENT)
            } else if i == p.next {
                Some(MARKER_NEXT)
            } else {
                None
            }
        },
        Some(IndicatorMarker::Single(r)) => {
            if i == r {
                Some(MARKER_SINGLE)
            } else {
                None
            }
        },
        None => None,
    }
}

/// A row split around its marker: the first `split` characters, and the
/// characters after the glyph's width (the glyph is drawn in between).
pub fn marker_line(padded: &str, glyph: &str, split: usize) -> (r: (String, String))
    ensures
        r.0@ == padded@.take(min(split as int, padded@.len() as int)),
        r.1@ == padded@.skip(min(split + glyph@.len(), padded@.len() as int)),
{
    let cs = chars_of(padded);
    let g = chars_of(glyph);
    let n = cs.len();
    let a = if split <= n {
        split
    } else {
        n
    };
    let b = if g.len() <= n && split <= n - g.len() {
        split + g.len()
    } else {
        n
    };
    let first = string_of(&cs, 0, a);
    let rest = string_of(&cs, b, n);
    assert(cs@.subrange(0, a as int) =~= padded@.take(a as int));
    assert(cs@.subrange(b as int, n as int) =~= padded@.skip(b as int));
    (first, rest)
}

/// The widest of `ws` (0 for none).
pub open spec fn widest(ws: Seq<usize>) -> int
    decreases ws.len(),
{
    if ws.len() == 0 {
        0
    } else {
        let w = widest(ws.drop_last());
        if ws.last() > w {
            ws.last() as int
        } else {
            w
        }
    }
}

/// Half of the columns left over by the widest line, to centre the menu.
pub fn center_pad(inner_width: usize, widths: &Vec<usize>) -> (p: usize)
    ensures
        p == sat_sub(inner_width as int, widest(widths@)) / 2,
{
    let mut longest: usize = 0;
    for i in 0..widths.len()
        invariant
            longest == widest(widths@.take(i as int)),
    {
        assert(widths@.take(i + 1).drop_last() =~= widths@.take(i as int));
        if widths[i] > longest {
            longest = widths[i];
        }
    }
    assert(widths@.take(widths.len() as int) =~= widths@);
    if inner_width >= longest {
        (inner_width - longest) / 2
    } else {
        0
    }
}

/// The commands of a footer as `(key, description)` texts.
pub open spec fn pairs_view(v: Seq<[&'static str; 2]>) -> Seq<(Seq<char>, Seq<char>)> {
    v.map_values(|p: [&'static str; 2]| (p@[0]@, p@[1]@))
}

/// The menu's footer commands.
pub open spec fn menu_footer_of() -> Seq<(Seq<char>, Seq<char>)> {
    seq![("q"@, "uit"@), ("c"@, "onfig"@), ("f"@, "ullscreen"@), ("Esc"@, "ape"@)]
}

/// The settings editor's footer commands for its mode.
pub open spec fn settings_footer_of(mode: SettingsMode) -> Seq<(Seq<char>, Seq<char>)> {
    match mode {
        SettingsMode::Normal => seq![
            ("tab"@, " section"@),
            ("\u{2191}\u{2193}"@, " select"@),
            ("\u{2190}\u{2192}"@, " change"@),
            ("enter"@, " edit"@),
            ("c"@, " lose"@),
            ("esc"@, " back"@),
            ("q"@, "uit"@),
        ],
        SettingsMode::TextInput { .. } => seq![
            ("type"@, " value"@),
            ("enter"@, " commit"@),
            ("esc"@, " cancel"@),
        ],
        SettingsMode::Popup { .. } => seq![
            ("\u{2191}\u{2193}"@, " select"@),
            ("type"@, " filter"@),
            ("enter"@, " apply"@),
            ("esc"@, " cancel"@),
        ],
    }
}

fn push_pair(v: &mut Vec<[&'static str; 2]>, key: &'static str, text: &'static str)
    ensures
        pairs_view(final(v)@) == pairs_view(old(v)@).push((key@, text@)),
{
    v.push([key, text]);
    assert(pairs_view(v@) =~= pairs_view(old(v)@).push((key@, text@)));
}

/// The footer commands of the menu (see `menu_footer_of`).
pub fn menu_footer() -> (v: Vec<[&'static str; 2]>)
    ensures
        pairs_view(v@) == menu_footer_of(),
{
    let mut v: Vec<[&'static str; 2]> = Vec::new();
    assert(pairs_view(v@) =~= Seq::empty());
    push_pair(&mut v, "q", "uit");
    push_pair(&mut v, "c", "onfig");
    push_pair(&mut v, "f", "ullscreen");
    push_pair(&mut v, "Esc", "ape");
    assert(pairs_view(v@) =~= menu_footer_of());
    v
}

/// The footer commands of the settings editor in `mode` (see
/// `settings_footer_of`).
pub fn settings_footer(mode: &SettingsMode) -> (v: Vec<[&'static str; 2]>)
    ensures
        pairs_view(v@) == settings_footer_of(*mode),
{
    let mut v: Vec<[&'static str; 2]> = Vec::new();
    assert(pairs_view(v@) =~= Seq::empty());
    match mode {
        SettingsMode::Normal => {
            push_pair(&mut v, "tab", " section");
            push_pair(&mut v, "\u{2191}\u{2193}", " select");
            push_pair(&mut v, "\u{2190}\u{2192}", " change");
            push_pair(&mut v, "enter", " edit");
            push_pair(&mut v, "c", " lose");
            push_pair(&mut v, "esc", " back");
            push_pair(&mut v, "q", "uit");
        },
        SettingsMode::TextInput { .. } => {
            push_pair(&mut v, "type", " value");
            push_pair(&mut v, "enter", " commit");
            push_pair(&mut v, "esc", " cancel");
        },
        SettingsMode::Popup { .. } => {
            push_pair(&mut v, "\u{2191}\u{2193}", " select");
            push_pair(&mut v, "type", " filter");
            push_pair(&mut v, "enter", " apply");
            push_pair(&mut v, "esc", " cancel");
        },
    }
    assert(pairs_view(v@) =~= settings_footer_of(*mode));
    v
}

/// The masked text of a censored field.
pub const CENSORED: &'static str = "\u{2022}\u{2022}\u{2022}\u{2022}\u{2022}\u{2022}";

/// Width of the label column of the field list.
pub const LABEL_WIDTH: usize = 16;

/// The value a field row shows: the edit buffer and a block cursor while
/// the field is edited, a mask for an unselected censored field, else the
/// field's value.
pub open spec fn shown_value(
    id: FieldId,
    c: Config,
    selected: bool,
    editing: Option<(FieldId, Seq<char>)>,
) -> Seq<char> {
    if editing matches Some((f, b)) && f == id {
        editing.unwrap().1 + seq!['\u{2588}']
    } else if (id == FieldId::ProviderLatitude || id == FieldId::ProviderLongitude) && !selected {
        CENSORED@
    } else {
        field_value(id, c)
    }
}

/// A field row: the label left-aligned in the label column, then a toggle
/// box `[x]`/`[ ]`, a choice `‹ value ›`, or the value.
pub open spec fn field_row_text(id: FieldId, kind: FieldKind, value: Seq<char>) -> Seq<char> {
    let label = pad_right(label_of(id), 16);
    match kind {
        FieldKind::Toggle => label + seq!['['] + (if value == "true"@ {
            seq!['x']
        } else {
            seq![' ']
        }) + seq![']'],
        FieldKind::Cycle => label + seq!['\u{2039}', ' '] + value + seq![' ', '\u{203A}'],
        _ => label + value,
    }
}

/// The text of one field row (see `shown_value` and `field_row_text`).
pub fn field_row(
    row: &FieldRow,
    config: &Config,
    selected: bool,
    editing: &Option<(FieldId, String)>,
) -> (s: String)
    requires
        row.label@ == label_of(row.id),
    ensures
        s@ == field_row_text(
            row.id,
            row.kind,
            shown_value(
                row.id,
                *config,
                selected,
                match editing {
                    Some((f, b)) => Some((*f, b@)),
                    None => None,
                },
            ),
        ),
{
    let value = match editing {
        Some((field, buffer)) if *field == row.id => {
            let mut v = buffer.clone();
            push_char(&mut v, '\u{2588}');
            v
        },
        _ => {
            if row.id.censored() && !selected {
                owned(CENSORED)
            } else {
                row.id.value_str(config)
            }
        },
    };
    let ghost ed = match editing {
        Some((f, b)) => Some((*f, b@)),
        None => None,
    };
    assert(value@ == shown_value(row.id, *config, selected, ed));
    let mut s = String::new();
    push_padded(&mut s, row.label, LABEL_WIDTH);
    match row.kind {
        FieldKind::Toggle => {
            push_char(&mut s, '[');
            if str_eq(value.as_str(), "true") {
                push_char(&mut s, 'x');
            } else {
                push_char(&mut s, ' ');
            }
            push_char(&mut s, ']');
        },
        FieldKind::Cycle => {
            push_char(&mut s, '\u{2039}');
            push_char(&mut s, ' ');
            push_str(&mut s, value.as_str());
            push_char(&mut s, ' ');
            push_char(&mut s, '\u{203A}');
        },
        _ => {
            push_str(&mut s, value.as_str());
        },
    }
    assert(s@ =~= field_row_text(
        row.id,
        row.kind,
        shown_value(
            row.id,
            *config,
            selected,
            match editing {
                Some((f, b)) => Some((*f, b@)),
                None => None,
            },
        ),
    ));
    s
}

/// The list offset that keeps the cursor inside a window of `visible` rows
/// and the window inside the list.
pub open spec fn scrolled_offset(cursor: int, offset: int, len: int, visible: int) -> int {
    let o1 = if cursor < offset {
        cursor
    } else {
        offset
    };
    let o2 = if cursor >= o1 + visible {
        cursor + 1 - visible
    } else {
        o1
    };
    min(o2, sat_sub(len, visible))
}

/// After scrolling, a cursor on the list lies inside the window of
/// `visible` rows, and the window starts on the list.
pub proof fn lemma_scroll_shows_cursor(cursor: int, offset: int, len: int, visible: int)
    requires
        0 <= cursor < len,
        0 <= offset,
        visible >= 1,
    ensures
        ({
            let o = scrolled_offset(cursor, offset, len, visible);
            0 <= o <= cursor < o + visible && o <= len
        }),
{
}

/// Scrolls the field list so the cursor is visible (see `scrolled_offset`).
pub fn adjust_scroll(state: &mut SettingsState, len: usize, visible: usize)
    requires
        old(state).cursor < usize::MAX - 1,
        old(state).offset + visible <= usize::MAX,
    ensures
        final(state).offset == scrolled_offset(
            old(state).cursor as int,
            old(state).offset as int,
            len as int,
            visible as int,
        ),
        final(state).cursor == old(state).cursor,
        final(state).category == old(state).category,
        final(state).mode == old(state).mode,
{
    if state.cursor < state.offset {
        state.offset = state.cursor;
    }
    if state.cursor >= state.offset + visible {
        state.offset = state.cursor + 1 - visible;
    }
    let max_offset = if len >= visible {
        len - visible
    } else {
        0
    };
    if state.offset > max_offset {
        state.offset = max_offset;
    }
}

/// The first visible entry of a picker window of `visible` rows that keeps
/// `cursor` in view, starting from `offset`.
pub fn popup_scroll(cursor: usize, offset: usize, visible: usize) -> (o: usize)
    requires
        cursor < usize::MAX - 1,
        offset + visible <= usize::MAX - 1,
    ensures
        ({
            let v = if visible >= 1 {
                visible as int
            } else {
                1
            };
            let o1 = if cursor < offset {
                cursor as int
            } else {
                offset as int
            };
            o == if cursor >= o1 + v {
                cursor + 1 - v
            } else {
                o1
            }
        }),
{
    let v = if visible >= 1 {
        visible
    } else {
        1
    };
    let mut o = offset;
    if cursor < o {
        o = cursor;
    }
    if cursor >= o + v {
        o = cursor + 1 - v;
    }
    o
}

impl AppState {
    /// Lays out the field list for a window of `visible_height` rows: the
    /// cursor is kept on a field, the list scrolled to show it, and the text
    /// of each visible row returned with whether it is selected.
    pub fn settings_rows(&mut self, visible_height: usize) -> (rows: Vec<(String, bool)>)
        requires
            old(self).settings.offset < usize::MAX - 0x10000,
            old(self).settings.cursor < usize::MAX - 16,
            visible_height < 0x10000,
        ensures
            ({
                let ids = crate::settings::section_fields(
                    old(self).settings.category as int,
                    old(self).config.provider,
                );
                let len = ids.len() as int;
                let cursor = if old(self).settings.cursor >= len {
                    sat_sub(len, 1)
                } else {
                    old(self).settings.cursor as int
                };
                let visible = if visible_height >= 1 {
                    visible_height as int
                } else {
                    1
                };
                let offset = scrolled_offset(cursor, old(self).settings.offset as int, len, visible);
                let start = min(offset, len);
                let editing = match old(self).settings.mode {
                    SettingsMode::TextInput { field, buffer } => Some((field, buffer@)),
                    _ => None,
                };
                &&& *final(self) == (AppState {
                    settings: (SettingsState {
                        cursor: final(self).settings.cursor,
                        offset: final(self).settings.offset,
                        ..old(self).settings
                    }),
                    ..*old(self)
                })
                &&& final(self).settings.cursor == cursor
                &&& final(self).settings.offset == offset
                &&& offset <= sat_sub(len, visible)
                &&& len > 0 ==> offset <= cursor < offset + visible
                &&& rows@.len() == len - start
                &&& forall|k: int|
                    0 <= k < rows@.len() ==> {
                        let id = ids[start + k];
                        let sel = start + k == cursor;
                        &&& (#[trigger] rows@[k]).1 == sel
                        &&& rows@[k].0@ == field_row_text(
                            id,
                            crate::settings::kind_of(id),
                            shown_value(id, old(self).config, sel, editing),
                        )
                    }
            }),
    {
        let fields = fields_for(self.settings.category, &self.config);
        if self.settings.cursor >= fields.len() {
            self.settings.cursor = if fields.len() >= 1 {
                fields.len() - 1
            } else {
                0
            };
        }
        let visible = if visible_height >= 1 {
            visible_height
        } else {
            1
        };
        adjust_scroll(&mut self.settings, fields.len(), visible);
        proof {
            if fields.len() > 0 {
                lemma_scroll_shows_cursor(
                    self.settings.cursor as int,
                    old(self).settings.offset as int,
                    fields.len() as int,
                    visible as int,
                );
            }
        }
        let editing: Option<(FieldId, String)> = match &self.settings.mode {
            SettingsMode::TextInput { field, buffer } => Some((*field, buffer.clone())),
            _ => None,
        };
        let start = if self.settings.offset <= fields.len() {
            self.settings.offset
        } else {
            fields.len()
        };
        let mut rows: Vec<(String, bool)> = Vec::new();
        let mut i = start;
        while i < fields.len()
            invariant
                start <= i <= fields.len(),
                rows@.len() == i - start,
                crate::settings::rows_match(
                    fields@,
                    crate::settings::section_fields(
                        self.settings.category as int,
                        self.config.provider,
                    ),
                ),
                forall|k: int|
                    0 <= k < rows@.len() ==> {
                        let id = fields@[start + k].id;
                        let sel = start + k == self.settings.cursor;
                        &&& (#[trigger] rows@[k]).1 == sel
                        &&& rows@[k].0@ == field_row_text(
                            id,
                            crate::settings::kind_of(id),
                            shown_value(
                                id,
                                self.config,
                                sel,
                                match editing {
                                    Some((f, b)) => Some((f, b@)),
                                    None => None,
                                },
                            ),
                        )
                    },
            decreases fields.len() - i,
        {
            let selected = i == self.settings.cursor;
            let text = field_row(&fields[i], &self.config, selected, &editing);
            rows.push((text, selected));
            i = i + 1;
        }
        rows
    }
}

// ----- laws of the location line -----

/// A location text as the menu shows it: trimmed of white space and stray
/// commas; nothing when that leaves no text.
pub open spec fn shown_line(t: Seq<char>) -> Option<Seq<char>> {
    let u = trimmed(trimmed(trimmed(t, Strip::Space), Strip::Comma), Strip::Space);
    if u.len() == 0 {
        None
    } else {
        Some(u)
    }
}

proof fn lemma_first_comma_space(s: Seq<char>, i: int)
    requires
        0 <= i <= s.len(),
    ensures
        forall|j: int|
            i <= j < find_comma_space(s, i) && j + 1 < s.len() ==> !(#[trigger] s[j] == ','
                && s[j + 1] == ' '),
        find_comma_space(s, i) < s.len() ==> s[find_comma_space(s, i)] == ',' && s[find_comma_space(
            s,
            i,
        ) + 1] == ' ',
    decreases s.len() - i,
{
    if i + 1 < s.len() && !(s[i] == ',' && s[i + 1] == ' ') {
        lemma_first_comma_space(s, i + 1);
    }
}

/// The location line follows the display setting: none when hidden, else
/// the shown form of the city, of the country, or of "city, country".
pub proof fn lemma_location_line_by_display(c: Config)
    ensures
        ({
            let city = location_parts_of(c).0;
            let country = location_parts_of(c).1;
            &&& c.display.location == LocationDisplay::Hide ==> location_line_of(c) is None
            &&& c.display.location == LocationDisplay::City ==> location_line_of(c) == shown_line(
                city,
            )
            &&& c.display.location == LocationDisplay::Country ==> location_line_of(c)
                == shown_line(country)
            &&& c.display.location == LocationDisplay::CityCountry ==> location_line_of(c)
                == shown_line(city + ", "@ + country)
        }),
{
}

/// How the location splits into city and country. A calculation location
/// splits at its first ", ": the city is the text before it (holding no
/// ", " itself), the country the text after, and together they give the
/// location back; without a ", " the whole location is the city and there
/// is no country. A salatmv island is the city, in the Maldives.
pub proof fn lemma_location_parts_split(c: Config)
    ensures
        ({
            let s = c.calculation.location@;
            let city = location_parts_of(c).0;
            let country = location_parts_of(c).1;
            &&& c.provider == ProviderKind::Calculation ==> {
                &&& (exists|i: int| 0 <= i < s.len() - 1 && #[trigger] s[i] == ',' && s[i + 1] == ' ')
                    ==> s == city + ", "@ + country && forall|j: int|
                    0 <= j < city.len() - 1 ==> !(#[trigger] city[j] == ',' && city[j + 1] == ' ')
                &&& !(exists|i: int| 0 <= i < s.len() - 1 && #[trigger] s[i] == ',' && s[i + 1]
                    == ' ') ==> city == s && country.len() == 0
            }
            &&& c.provider == ProviderKind::SalatMv ==> city == c.salatmv.island@ && country
                == "Maldives"@
        }),
{
    let s = c.calculation.location@;
    lemma_first_comma_space(s, 0);
    lemma_find_comma_space(s, 0);
    let f = find_comma_space(s, 0);
    if c.provider == ProviderKind::Calculation {
        if exists|i: int| 0 <= i < s.len() - 1 && #[trigger] s[i] == ',' && s[i + 1] == ' ' {
            let i = choose|i: int| 0 <= i < s.len() - 1 && #[trigger] s[i] == ',' && s[i + 1] == ' ';
            assert(f <= i);
            assert(f < s.len());
            reveal_strlit(", ");
            assert(s =~= s.subrange(0, f) + ", "@ + s.subrange(f + 2, s.len() as int));
            let city = s.subrange(0, f);
            assert forall|j: int| 0 <= j < city.len() - 1 implies !(#[trigger] city[j] == ','
                && city[j + 1] == ' ') by {
                assert(city[j] == s[j] && city[j + 1] == s[j + 1]);
            }
        } else {
            if f < s.len() {
                assert(s[f] == ',' && s[f + 1] == ' ');
            }
        }
    }
}

} // verus!
