//! The application state and the settings editor's state machine: every
//! key press and mouse event moves the state on and tells the caller which
//! outside work (reloading the provider, saving, checking coordinates) to
//! do next.
use vstd::prelude::*;
use crate::conf::{CalculationConfig, Config, ProviderKind};
use crate::data::{
    first_island_row, island_keys_of, island_readable, table_of, table_view, MVRawData,
};
use crate::input::{InputMap, Key, Modifier};
use crate::notif::{NotifState, notif_step, targets_of};
use crate::prayer::PrayerTimes;
use crate::settings::{
    clamp_i32, commit_outcome, config_committed, cycled, field_value, fields_for, fuzzy,
    is_subsequence, kind_of, label_of, lemma_option_index_bound, option_index, options_count,
    section_fields, toggled, FieldId, FieldKind, FieldRow, PopupKind,
};
use crate::text::{
    lowercase, owned, parse_int, pop_char, push_char, push_str, split, split_seq, to_lowercase,
    trim, trimmed, views, Strip,
};
use crate::ui_state::{in_rect, inner_row, row_in_rect, Rect, Screen};

verus! {

broadcast use vstd::string::group_string_axioms;

// ----- what the pickers offer -----

/// The places and islands the pickers offer: city rows
/// `[name, country, latitude, longitude]` and the salatmv dataset.
#[derive(Debug)]
pub struct Catalog {
    pub cities: Vec<[String; 4]>,
    pub mv: MVRawData,
}

impl Default for Catalog {
    fn default() -> (c: Self)
        ensures
            c.cities@.len() == 0,
            c.mv.pt@.len() == 0,
            c.mv.atoll@.len() == 0,
            c.mv.island@.len() == 0,
    {
        Catalog {
            cities: Vec::new(),
            mv: MVRawData::from(String::new(), String::new(), String::new()),
        }
    }
}

/// One entry of a picker.
#[derive(Debug)]
pub enum PopupEntry {
    City([String; 4]),
    Island(String),
}

pub open spec fn city_view(c: [String; 4]) -> Seq<Seq<char>> {
    seq![c@[0]@, c@[1]@, c@[2]@, c@[3]@]
}

/// A line of the city list as a city: its first four `;`-separated
/// fields (name, country, latitude, longitude), when it has four.
pub open spec fn city_of(line: Seq<char>) -> Option<Seq<Seq<char>>> {
    let f = split_seq(line, ';');
    if f.len() >= 4 {
        Some(f.take(4))
    } else {
        None
    }
}

/// The cities of the lines that hold one, in order.
pub open spec fn cities_of(lines: Seq<Seq<char>>) -> Seq<Seq<Seq<char>>>
    decreases lines.len(),
{
    if lines.len() == 0 {
        Seq::empty()
    } else {
        cities_of(lines.drop_last()) + match city_of(lines.last()) {
            Some(c) => seq![c],
            None => Seq::empty(),
        }
    }
}

/// The cities of a city list: one line per city, `name;country;latitude;
/// longitude` (further fields are ignored, shorter lines skipped).
pub fn city_rows(text: &str) -> (cities: Vec<[String; 4]>)
    ensures
        cities@.map_values(|c: [String; 4]| city_view(c)) == cities_of(split_seq(text@, '\n')),
{
    let lines = split(text, '\n');
    let ghost lv = views(lines@);
    let mut cities: Vec<[String; 4]> = Vec::new();
    for i in 0..lines.len()
        invariant
            lv == views(lines@),
            cities@.map_values(|c: [String; 4]| city_view(c)) == cities_of(lv.take(i as int)),
    {
        assert(lv.take(i + 1).drop_last() =~= lv.take(i as int));
        assert(lv[i as int] == lines@[i as int]@);
        let fields = split(lines[i].as_str(), ';');
        let ghost fv = views(fields@);
        let ghost before = cities@.map_values(|c: [String; 4]| city_view(c));
        if fields.len() >= 4 {
            let row = [fields[0].clone(), fields[1].clone(), fields[2].clone(), fields[3].clone()];
            assert(city_view(row) =~= fv.take(4));
            cities.push(row);
            assert(cities@.map_values(|c: [String; 4]| city_view(c)) =~= before.push(city_view(row)));
        } else {
            assert(fv.len() == fields@.len());
        }
        assert(cities@.map_values(|c: [String; 4]| city_view(c)) =~= cities_of(lv.take(i + 1)));
    }
    assert(lv.take(lines.len() as int) =~= lv);
    cities
}

/// An entry as (is a city, its texts).
pub open spec fn entry_view(e: PopupEntry) -> (bool, Seq<Seq<char>>) {
    match e {
        PopupEntry::City(c) => (true, city_view(c)),
        PopupEntry::Island(k) => (false, seq![k@]),
    }
}

/// The pattern typed into a picker, as it is matched.
pub open spec fn needle_of(filter: Seq<char>) -> Seq<char> {
    lowercase(trimmed(filter, Strip::Space))
}

/// `name` matches the pattern (an empty pattern matches everything).
pub open spec fn name_matches(needle: Seq<char>, name: Seq<char>) -> bool {
    needle.len() == 0 || is_subsequence(lowercase(needle), lowercase(name))
}

pub open spec fn matching_cities(cs: Seq<Seq<Seq<char>>>, needle: Seq<char>) -> Seq<Seq<Seq<char>>>
    decreases cs.len(),
{
    if cs.len() == 0 {
        Seq::empty()
    } else {
        let c = cs.last();
        matching_cities(cs.drop_last(), needle) + if needle.len() == 0 || is_subsequence(
            lowercase(needle),
            lowercase(c[0]),
        ) || is_subsequence(lowercase(needle), lowercase(c[1])) {
            seq![c]
        } else {
            Seq::empty()
        }
    }
}

pub open spec fn matching_names(ks: Seq<Seq<char>>, needle: Seq<char>) -> Seq<Seq<char>>
    decreases ks.len(),
{
    if ks.len() == 0 {
        Seq::empty()
    } else {
        matching_names(ks.drop_last(), needle) + if name_matches(needle, ks.last()) {
            seq![ks.last()]
        } else {
            Seq::empty()
        }
    }
}

/// What a picker of `kind` lists for the typed `filter`: the cities whose
/// name or country matches, or the island keys that match, in catalog order.
pub open spec fn popup_view(kind: PopupKind, filter: Seq<char>, cat: Catalog) -> Seq<
    (bool, Seq<Seq<char>>),
> {
    let needle = needle_of(filter);
    match kind {
        PopupKind::Location => matching_cities(
            cat.cities@.map_values(|c: [String; 4]| city_view(c)),
            needle,
        ).map_values(|c: Seq<Seq<char>>| (true, c)),
        PopupKind::Island => matching_names(
            island_keys_of(table_of(cat.mv.island@), table_of(cat.mv.atoll@)),
            needle,
        ).map_values(|k: Seq<char>| (false, seq![k])),
    }
}

/// Every entry of the catalog for a picker of `kind`, in catalog order.
pub open spec fn all_entries(kind: PopupKind, cat: Catalog) -> Seq<(bool, Seq<Seq<char>>)> {
    match kind {
        PopupKind::Location => cat.cities@.map_values(|c: [String; 4]| city_view(c)).map_values(
            |c: Seq<Seq<char>>| (true, c),
        ),
        PopupKind::Island => island_keys_of(table_of(cat.mv.island@), table_of(cat.mv.atoll@)).map_values(
            |k: Seq<char>| (false, seq![k]),
        ),
    }
}

proof fn lemma_empty_needle_cities(cs: Seq<Seq<Seq<char>>>)
    ensures
        matching_cities(cs, Seq::empty()) == cs,
    decreases cs.len(),
{
    if cs.len() > 0 {
        lemma_empty_needle_cities(cs.drop_last());
        assert(cs.drop_last().push(cs.last()) =~= cs);
    }
}

proof fn lemma_empty_needle_names(ks: Seq<Seq<char>>)
    ensures
        matching_names(ks, Seq::empty()) == ks,
    decreases ks.len(),
{
    if ks.len() > 0 {
        lemma_empty_needle_names(ks.drop_last());
        assert(ks.drop_last().push(ks.last()) =~= ks);
    }
}

/// The entries a picker of `kind` lists for the typed `filter` (see
/// `popup_view`); a blank filter lists every entry of the catalog.
pub fn popup_entries(kind: PopupKind, filter: &str, catalog: &Catalog) -> (v: Vec<PopupEntry>)
    ensures
        v@.map_values(|e: PopupEntry| entry_view(e)) == popup_view(kind, filter@, *catalog),
        trimmed(filter@, Strip::Space).len() == 0 ==> v@.map_values(|e: PopupEntry| entry_view(e))
            == all_entries(kind, *catalog),
{
    let t = trim(filter);
    let needle = to_lowercase(t.as_str());
    let ghost nd = needle@;
    let mut v: Vec<PopupEntry> = Vec::new();
    match kind {
        PopupKind::Location => {
            let cs = &catalog.cities;
            let ghost cv = cs@.map_values(|c: [String; 4]| city_view(c));
            for i in 0..cs.len()
                invariant
                    cv == cs@.map_values(|c: [String; 4]| city_view(c)),
                    nd == needle@,
                    v@.map_values(|e: PopupEntry| entry_view(e)) == matching_cities(
                        cv.take(i as int),
                        nd,
                    ).map_values(|c: Seq<Seq<char>>| (true, c)),
            {
                let c = &cs[i];
                assert(cv.take(i + 1).drop_last() =~= cv.take(i as int));
                assert(cv[i as int] == city_view(cs@[i as int]));
                let ghost before = v@;
                let ghost m_old = matching_cities(cv.take(i as int), nd);
                let keep = needle.as_str().is_empty() || fuzzy(c[0].as_str(), needle.as_str())
                    || fuzzy(c[1].as_str(), needle.as_str());
                if keep {
                    let row = [c[0].clone(), c[1].clone(), c[2].clone(), c[3].clone()];
                    assert(city_view(row) == city_view(*c));
                    v.push(PopupEntry::City(row));
                    assert(matching_cities(cv.take(i + 1), nd) == m_old.push(cv[i as int]));
                    assert(v@.map_values(|e: PopupEntry| entry_view(e)) =~= before.map_values(
                        |e: PopupEntry| entry_view(e),
                    ).push((true, cv[i as int])));
                } else {
                    assert(matching_cities(cv.take(i + 1), nd) =~= m_old);
                }
                assert(v@.map_values(|e: PopupEntry| entry_view(e)) =~= matching_cities(
                    cv.take(i + 1),
                    nd,
                ).map_values(|c: Seq<Seq<char>>| (true, c)));
            }
            assert(cv.take(cs.len() as int) =~= cv);
        },
        PopupKind::Island => {
            let keys = catalog.mv.island_keys();
            let ghost kv = views(keys@);
            for i in 0..keys.len()
                invariant
                    kv == views(keys@),
                    nd == needle@,
                    v@.map_values(|e: PopupEntry| entry_view(e)) == matching_names(
                        kv.take(i as int),
                        nd,
                    ).map_values(|k: Seq<char>| (false, seq![k])),
            {
                assert(kv.take(i + 1).drop_last() =~= kv.take(i as int));
                let ghost before = v@;
                let ghost m_old = matching_names(kv.take(i as int), nd);
                let keep = needle.as_str().is_empty() || fuzzy(keys[i].as_str(), needle.as_str());
                if keep {
                    v.push(PopupEntry::Island(keys[i].clone()));
                    assert(matching_names(kv.take(i + 1), nd) == m_old.push(kv[i as int]));
                    assert(v@.map_values(|e: PopupEntry| entry_view(e)) =~= before.map_values(
                        |e: PopupEntry| entry_view(e),
                    ).push((false, seq![kv[i as int]])));
                } else {
                    assert(matching_names(kv.take(i + 1), nd) =~= m_old);
                }
                assert(v@.map_values(|e: PopupEntry| entry_view(e)) =~= matching_names(
                    kv.take(i + 1),
                    nd,
                ).map_values(|k: Seq<char>| (false, seq![k])));
            }
            assert(kv.take(keys.len() as int) =~= kv);
        },
    }
    proof {
        if trimmed(filter@, Strip::Space).len() == 0 {
            assert(nd.len() == 0);
            assert(nd =~= Seq::<char>::empty());
            lemma_empty_needle_cities(catalog.cities@.map_values(|c: [String; 4]| city_view(c)));
            lemma_empty_needle_names(
                island_keys_of(table_of(catalog.mv.island@), table_of(catalog.mv.atoll@)),
            );
        }
    }
    v
}

// ----- state -----

#[derive(Debug, Default, PartialEq, Eq)]
pub enum SettingsMode {
    #[default]
    Normal,
    TextInput { field: FieldId, buffer: String },
    Popup { kind: PopupKind, cursor: usize, offset: usize, filter: String },
}

#[derive(Debug)]
pub struct SettingsState {
    pub category: usize,
    pub cursor: usize,
    pub offset: usize,
    pub mode: SettingsMode,
}

impl Default for SettingsState {
    fn default() -> (s: Self)
        ensures
            s.category == 0,
            s.cursor == 0,
            s.offset == 0,
            s.mode == SettingsMode::Normal,
    {
        SettingsState { category: 0, cursor: 0, offset: 0, mode: SettingsMode::Normal }
    }
}

/// last-known layout rects for mouse support; populated each frame during draw
#[derive(Debug, Clone, Copy)]
pub struct UiMouse {
    /// settings split panes: [sections, fields]
    pub settings_panes: [Rect; 2],
    /// whole popup window, for click-outside detection
    pub popup_rect: Rect,
    /// popup entry list area, for click to select/apply
    pub popup_list: Rect,
}

pub open spec fn empty_rect(r: Rect) -> bool {
    r.x == 0 && r.y == 0 && r.width == 0 && r.height == 0
}

impl Default for UiMouse {
    fn default() -> (m: Self)
        ensures
            empty_rect(m.settings_panes@[0]),
            empty_rect(m.settings_panes@[1]),
            empty_rect(m.popup_rect),
            empty_rect(m.popup_list),
    {
        let r = Rect { x: 0, y: 0, width: 0, height: 0 };
        UiMouse { settings_panes: [r, r], popup_rect: r, popup_list: r }
    }
}

/// What the caller has to do after an event.
#[derive(Debug)]
pub enum Action {
    /// nothing outside the state
    Nothing,
    /// the configuration changed: reload the prayer-time provider when
    /// `provider` is set, then save the configuration
    Changed { provider: bool },
    /// check `text` as a floating-point coordinate for `field`, then report
    /// back through `AppState::coordinate_committed`
    CommitCoordinate { field: FieldId, text: String },
    /// a city was picked: set the coordinates from its latitude and
    /// longitude texts, then reload the provider and save
    ApplyCity { latitude: String, longitude: String },
}

/// The application's state between events.
#[derive(Debug)]
pub struct AppState {
    pub fullscreen: bool,
    pub input_map: InputMap,
    pub input_char: char,
    pub config: Config,
    pub day_offset: i64,
    pub screen: Screen,
    pub notif: NotifState,
    pub settings: SettingsState,
    pub message: Option<String>,
    pub ui_mouse: UiMouse,
    pub catalog: Catalog,
}

impl Default for AppState {
    fn default() -> (s: Self)
        ensures
            !s.fullscreen,
            s.day_offset == 0,
            s.screen == Screen::Menu,
            s.message is None,
            s.settings.category == 0,
            s.settings.cursor == 0,
            s.settings.offset == 0,
            s.settings.mode == SettingsMode::Normal,
            crate::conf::is_default_config(s.config),
            s.notif.day is None,
            forall|i: int| 0 <= i < 6 ==> !s.notif.fired@[i],
            s.input_map.spec_key() == Key::NoKey,
            s.input_map.spec_modifier() == Modifier::NoModifier,
            s.input_map.spec_raw() is None,
            s.input_char == '\0',
            empty_rect(s.ui_mouse.settings_panes@[0]),
            empty_rect(s.ui_mouse.settings_panes@[1]),
            empty_rect(s.ui_mouse.popup_rect),
            empty_rect(s.ui_mouse.popup_list),
            s.catalog.cities@.len() == 0,
            s.catalog.mv.pt@.len() == 0,
            s.catalog.mv.atoll@.len() == 0,
            s.catalog.mv.island@.len() == 0,
    {
        AppState {
            fullscreen: false,
            input_map: InputMap::new(),
            input_char: '\0',
            config: Config::default(),
            day_offset: 0,
            screen: Screen::Menu,
            notif: NotifState::default(),
            settings: SettingsState::default(),
            message: None,
            ui_mouse: UiMouse::default(),
            catalog: Catalog::default(),
        }
    }
}

// ----- relations the handlers are specified with -----

/// Number of fields of the current section.
pub open spec fn row_count(s: AppState) -> int {
    section_fields(s.settings.category as int, s.config.provider).len() as int
}

/// Number of entries a picker currently lists.
pub open spec fn popup_count(s: AppState, kind: PopupKind, filter: Seq<char>) -> int {
    popup_view(kind, filter, s.catalog).len() as int
}

/// `m` is the picker of `kind` at `cursor`/`offset` with pattern `filter`.
pub open spec fn is_popup(m: SettingsMode, kind: PopupKind, cursor: int, offset: int, filter: Seq<
    char,
>) -> bool {
    m matches SettingsMode::Popup { kind: k, cursor: c, offset: o, filter: f } && k == kind && c
        == cursor && o == offset && f@ == filter
}

/// `m` edits `field` with `buffer` typed so far.
pub open spec fn is_text(m: SettingsMode, field: FieldId, buffer: Seq<char>) -> bool {
    m matches SettingsMode::TextInput { field: f, buffer: b } && f == field && b@ == buffer
}

/// `s1` is `s0` with only the settings mode changed.
pub open spec fn same_but_mode(s0: AppState, s1: AppState) -> bool {
    s1 == (AppState { settings: (SettingsState { mode: s1.settings.mode, ..s0.settings }), ..s0 })
}

/// `s0` with the settings mode reset to normal.
pub open spec fn normal_mode(s0: AppState) -> AppState {
    AppState { settings: (SettingsState { mode: SettingsMode::Normal, ..s0.settings }), ..s0 }
}

/// `s0` with the settings cursor at `c`.
pub open spec fn with_cursor(s0: AppState, c: int) -> AppState {
    AppState { settings: (SettingsState { cursor: c as usize, ..s0.settings }), ..s0 }
}

pub open spec fn sat_sub(a: int, b: int) -> int {
    if a >= b {
        a - b
    } else {
        0
    }
}

pub open spec fn min(a: int, b: int) -> int {
    if a <= b {
        a
    } else {
        b
    }
}

pub open spec fn flip(k: ProviderKind) -> ProviderKind {
    match k {
        ProviderKind::Calculation => ProviderKind::SalatMv,
        ProviderKind::SalatMv => ProviderKind::Calculation,
    }
}

pub open spec fn is_provider_field(id: FieldId) -> bool {
    id == FieldId::ProviderType || id == FieldId::ProviderLocation || id == FieldId::ProviderMethod
        || id == FieldId::ProviderMadhab || id == FieldId::ProviderLatitude || id
        == FieldId::ProviderLongitude || id == FieldId::Island
}

/// `c` with the notification offset moved by `delta`, saturating.
pub open spec fn stepped(c: Config, delta: int) -> Config {
    Config {
        notifications: (crate::conf::Notifications {
            offset: clamp_i32(c.notifications.offset + delta),
            ..c.notifications
        }),
        ..c
    }
}

/// The state stays within the machine's ranges the handlers compute in.
pub open spec fn bounded(s: AppState) -> bool {
    &&& s.settings.cursor < usize::MAX - 16
    &&& s.settings.offset < usize::MAX - 0x10000
    &&& (s.settings.mode matches SettingsMode::Popup { cursor, offset, .. } ==> cursor < usize::MAX
        - 16 && offset < usize::MAX - 0x10000)
    &&& s.ui_mouse.settings_panes@[0].fits()
    &&& s.ui_mouse.settings_panes@[1].fits()
    &&& s.ui_mouse.popup_rect.fits()
    &&& s.ui_mouse.popup_list.fits()
    &&& i64::MIN + 64 <= s.day_offset <= i64::MAX - 64
    &&& isize::MIN + 16 <= s.config.notifications.offset <= isize::MAX - 16
}

/// Switching the provider type: the other provider becomes active, the
/// cursor stays within the provider section, and the provider reloads.
pub open spec fn switch_ok(s0: AppState, s1: AppState, a: Action) -> bool {
    let p = flip(s0.config.provider);
    let len = section_fields(0, p).len() as int;
    &&& s1 == (AppState {
        config: (Config { provider: p, ..s0.config }),
        settings: (SettingsState {
            cursor: min(s0.settings.cursor as int, sat_sub(len, 1)) as usize,
            ..s0.settings
        }),
        ..s0
    })
    &&& a == Action::Changed { provider: true }
}

/// Changing the selected field by `delta`: a choice field cycles (the
/// provider type switches), the offset steps, other fields stay.
pub open spec fn edit_ok(s0: AppState, s1: AppState, a: Action, delta: int) -> bool {
    let ids = section_fields(s0.settings.category as int, s0.config.provider);
    let cur = s0.settings.cursor as int;
    if cur >= ids.len() {
        s1 == s0 && a == Action::Nothing
    } else {
        let id = ids[cur];
        match kind_of(id) {
            FieldKind::Cycle => if id == FieldId::ProviderType {
                switch_ok(s0, s1, a)
            } else {
                s1 == (AppState { config: cycled(id, s0.config, delta), ..s0 }) && a
                    == Action::Changed { provider: is_provider_field(id) }
            },
            FieldKind::Text { numeric: true } => if id == FieldId::NotifOffset {
                s1 == (AppState { config: stepped(s0.config, delta), ..s0 }) && a
                    == Action::Changed { provider: false }
            } else {
                s1 == s0 && a == Action::Nothing
            },
            _ => s1 == s0 && a == Action::Nothing,
        }
    }
}

/// Activating the selected field: a toggle flips, a choice moves one
/// option on, a picker opens empty, a text field starts editing its value.
pub open spec fn activate_ok(s0: AppState, s1: AppState, a: Action) -> bool {
    let ids = section_fields(s0.settings.category as int, s0.config.provider);
    let cur = s0.settings.cursor as int;
    if cur >= ids.len() {
        s1 == s0 && a == Action::Nothing
    } else {
        let id = ids[cur];
        match kind_of(id) {
            FieldKind::Toggle => s1 == (AppState { config: toggled(id, s0.config), ..s0 }) && a
                == Action::Changed { provider: false },
            FieldKind::Cycle => edit_ok(s0, s1, a, 1),
            FieldKind::Pick(kind) => same_but_mode(s0, s1) && is_popup(
                s1.settings.mode,
                kind,
                0,
                0,
                Seq::empty(),
            ) && a == Action::Nothing,
            FieldKind::Text { .. } => same_but_mode(s0, s1) && is_text(
                s1.settings.mode,
                id,
                field_value(id, s0.config),
            ) && a == Action::Nothing,
        }
    }
}

/// A key in the editor's normal mode: tab/back-tab change section, up/down
/// move the cursor, left/right change the field (by ten with shift), enter
/// activates it, escape or the config key go back to the menu.
pub open spec fn normal_key_ok(
    s0: AppState,
    s1: AppState,
    a: Action,
    key: Key,
    modifier: Modifier,
) -> bool {
    let step: int = if modifier == Modifier::Shift {
        10
    } else {
        1
    };
    let rc = row_count(s0);
    let cat = s0.settings.category as int;
    if rc == 0 {
        s1 == s0 && a == Action::Nothing
    } else {
        match key {
            Key::Prev => s1 == (AppState {
                settings: (SettingsState { category: ((cat + 3) % 4) as usize, cursor: 0, ..s0.settings }),
                ..s0
            }) && a == Action::Nothing,
            Key::Next => s1 == (AppState {
                settings: (SettingsState { category: ((cat + 1) % 4) as usize, cursor: 0, ..s0.settings }),
                ..s0
            }) && a == Action::Nothing,
            Key::Up => s1 == with_cursor(s0, sat_sub(s0.settings.cursor as int, 1)) && a
                == Action::Nothing,
            Key::Down => s1 == with_cursor(s0, min(s0.settings.cursor + 1, rc - 1)) && a
                == Action::Nothing,
            Key::Left => edit_ok(s0, s1, a, -step),
            Key::Right => edit_ok(s0, s1, a, step),
            Key::Enter => activate_ok(s0, s1, a),
            Key::Escape => s1 == (AppState { screen: Screen::Menu, ..s0 }) && a == Action::Nothing,
            Key::Config => s1 == (AppState { screen: Screen::Menu, ..s0 }) && a == Action::Nothing,
            _ => s1 == s0 && a == Action::Nothing,
        }
    }
}

impl AppState {
    /// Opens the picker of `kind` with an empty pattern.
    pub fn open_picker(&mut self, kind: PopupKind)
        ensures
            same_but_mode(*old(self), *final(self)),
            is_popup(final(self).settings.mode, kind, 0, 0, Seq::empty()),
    {
        self.settings.mode = SettingsMode::Popup {
            kind,
            cursor: 0,
            offset: 0,
            filter: String::new(),
        };
    }

    /// Puts the editor in the picker of `kind` at `cursor`/`offset`.
    pub fn store_popup(&mut self, kind: PopupKind, cursor: usize, offset: usize, filter: String)
        ensures
            same_but_mode(*old(self), *final(self)),
            is_popup(final(self).settings.mode, kind, cursor as int, offset as int, filter@),
    {
        self.settings.mode = SettingsMode::Popup { kind, cursor, offset, filter };
    }

    /// The picker's kind, cursor, offset and pattern, when one is open.
    pub fn popup_mode_snapshot(&self) -> (r: Option<(PopupKind, usize, usize, String)>)
        ensures
            match self.settings.mode {
                SettingsMode::Popup { kind, cursor, offset, filter } => r matches Some(t) && t.0
                    == kind && t.1 == cursor && t.2 == offset && t.3@ == filter@,
                _ => r is None,
            },
    {
        match &self.settings.mode {
            SettingsMode::Popup { kind, cursor, offset, filter } => Some(
                (*kind, *cursor, *offset, filter.clone()),
            ),
            _ => None,
        }
    }

    /// The selected field's row, if the cursor is on one.
    pub fn current_row(&self) -> (r: Option<FieldRow>)
        ensures
            ({
                let ids = section_fields(self.settings.category as int, self.config.provider);
                if self.settings.cursor < ids.len() {
                    r matches Some(row) && row.id == ids[self.settings.cursor as int] && row.kind
                        == kind_of(row.id) && row.label@ == label_of(row.id)
                } else {
                    r is None
                }
            }),
    {
        let rows = fields_for(self.settings.category, &self.config);
        if self.settings.cursor < rows.len() {
            Some(rows[self.settings.cursor])
        } else {
            None
        }
    }

    /// After a change: reload the provider when it changed, then save.
    pub fn after_change(&mut self, provider_changed: bool) -> (a: Action)
        ensures
            *final(self) == *old(self),
            a == (Action::Changed { provider: provider_changed }),
    {
        Action::Changed { provider: provider_changed }
    }

    /// Flips between the two provider types (see `switch_ok`).
    pub fn switch_provider_type(&mut self) -> (a: Action)
        ensures
            switch_ok(*old(self), *final(self), a),
    {
        self.config.provider = match self.config.provider {
            ProviderKind::Calculation => ProviderKind::SalatMv,
            ProviderKind::SalatMv => ProviderKind::Calculation,
        };
        let len = fields_for(0, &self.config).len();
        let last = if len >= 1 {
            len - 1
        } else {
            0
        };
        if self.settings.cursor > last {
            self.settings.cursor = last;
        }
        self.after_change(true)
    }

    /// Changes the selected field by `delta` (see `edit_ok`).
    pub fn edit_current(&mut self, delta: isize) -> (a: Action)
        requires
            ({
                let ids = section_fields(
                    old(self).settings.category as int,
                    old(self).config.provider,
                );
                let cur = old(self).settings.cursor as int;
                cur < ids.len() ==> (option_index(ids[cur], old(self).config) matches Some(i)
                    ==> i + delta <= isize::MAX) && (ids[cur] == FieldId::NotifOffset ==> isize::MIN
                    <= old(self).config.notifications.offset + delta <= isize::MAX)
            }),
        ensures
            edit_ok(*old(self), *final(self), a, delta as int),
    {
        let row = match self.current_row() {
            Some(row) => row,
            None => {
                return Action::Nothing;
            },
        };
        match row.kind {
            FieldKind::Cycle => {
                if row.id == FieldId::ProviderType {
                    self.switch_provider_type()
                } else {
                    row.id.cycle(&mut self.config, delta);
                    let p = row.id.is_provider();
                    self.after_change(p)
                }
            },
            FieldKind::Text { numeric: true } => {
                if row.id.steppable() {
                    row.id.step(&mut self.config, delta);
                    self.after_change(false)
                } else {
                    Action::Nothing
                }
            },
            _ => Action::Nothing,
        }
    }

    /// Activates the selected field (see `activate_ok`).
    pub fn activate_current(&mut self) -> (a: Action)
        requires
            isize::MIN + 16 <= old(self).config.notifications.offset <= isize::MAX - 16,
        ensures
            activate_ok(*old(self), *final(self), a),
    {
        let row = match self.current_row() {
            Some(row) => row,
            None => {
                return Action::Nothing;
            },
        };
        match row.kind {
            FieldKind::Toggle => {
                row.id.toggle(&mut self.config);
                self.after_change(false)
            },
            FieldKind::Cycle => self.edit_current(1),
            FieldKind::Pick(kind) => {
                self.open_picker(kind);
                Action::Nothing
            },
            FieldKind::Text { .. } => {
                let buffer = row.id.value_str(&self.config);
                self.settings.mode = SettingsMode::TextInput { field: row.id, buffer };
                Action::Nothing
            },
        }
    }

    /// A key in the editor's normal mode (see `normal_key_ok`).
    pub fn handle_normal_key(&mut self, key: (Key, Modifier)) -> (a: Action)
        requires
            bounded(*old(self)),
        ensures
            normal_key_ok(*old(self), *final(self), a, key.0, key.1),
    {
        let (key, modifier) = key;
        let step: isize = match modifier {
            Modifier::Shift => 10,
            _ => 1,
        };
        proof {
            let ids = section_fields(self.settings.category as int, self.config.provider);
            if (self.settings.cursor as int) < ids.len() {
                lemma_option_index_bound(ids[self.settings.cursor as int], self.config);
            }
        }
        let row_count = fields_for(self.settings.category, &self.config).len();
        if row_count == 0 {
            return Action::Nothing;
        }
        match key {
            Key::Prev => {
                self.settings.category = (self.settings.category + 4 - 1) % 4;
                self.settings.cursor = 0;
                Action::Nothing
            },
            Key::Next => {
                self.settings.category = (self.settings.category + 1) % 4;
                self.settings.cursor = 0;
                Action::Nothing
            },
            Key::Up => {
                self.settings.cursor = if self.settings.cursor >= 1 {
                    self.settings.cursor - 1
                } else {
                    0
                };
                Action::Nothing
            },
            Key::Down => {
                let next = self.settings.cursor + 1;
                self.settings.cursor = if next <= row_count - 1 {
                    next
                } else {
                    row_count - 1
                };
                Action::Nothing
            },
            Key::Left => self.edit_current(-step),
            Key::Right => self.edit_current(step),
            Key::Enter => self.activate_current(),
            Key::Escape | Key::Config => {
                self.screen = Screen::Menu;
                Action::Nothing
            },
            _ => Action::Nothing,
        }
    }
}

// ----- pickers and text editing -----

/// Whether `timeset_for_island(key)` finds a readable timeset.
pub open spec fn island_found(mv: MVRawData, key: Seq<char>) -> bool {
    let isl = table_of(mv.island@);
    match first_island_row(isl, table_of(mv.atoll@), key, 0) {
        None => false,
        Some(i) => match parse_int(isl[i][1], 0, usize::MAX as int, false) {
            Err(_) => false,
            Ok(idx) => mv.pt@.len() > 0 && island_readable(mv, idx as usize),
        },
    }
}

/// Applying the picker entry at `cursor`: nothing to apply keeps the
/// picker; a city becomes the location (its coordinates are handed out);
/// an island becomes the salatmv island when its data can be read, else the
/// picker stays with a message.
pub open spec fn apply_popup_ok(
    s0: AppState,
    s1: AppState,
    a: Action,
    kind: PopupKind,
    cursor: int,
    offset: int,
    filter: Seq<char>,
) -> bool {
    let entries = popup_view(kind, filter, s0.catalog);
    if cursor >= entries.len() {
        same_but_mode(s0, s1) && is_popup(s1.settings.mode, kind, cursor, offset, filter) && a
            == Action::Nothing
    } else {
        let e = entries[cursor];
        if e.0 {
            let c = e.1;
            &&& s1 == (AppState {
                config: (Config {
                    calculation: (CalculationConfig {
                        location: s1.config.calculation.location,
                        ..s0.config.calculation
                    }),
                    ..s0.config
                }),
                settings: (SettingsState { mode: SettingsMode::Normal, ..s0.settings }),
                ..s0
            })
            &&& s1.config.calculation.location@ == c[0] + ", "@ + c[1]
            &&& (a matches Action::ApplyCity { latitude, longitude } && latitude@ == c[2]
                && longitude@ == c[3])
        } else {
            let key = e.1[0];
            if !island_found(s0.catalog.mv, key) {
                &&& s1 == (AppState {
                    message: s1.message,
                    settings: (SettingsState { mode: s1.settings.mode, ..s0.settings }),
                    ..s0
                })
                &&& (s1.message matches Some(m) && m@ == "failed to parse island data"@)
                &&& is_popup(s1.settings.mode, kind, cursor, offset, filter)
                &&& a == Action::Nothing
            } else {
                let len = section_fields(0, s0.config.provider).len() as int;
                &&& s1 == (AppState {
                    config: (Config {
                        salatmv: (crate::conf::SalatMvConfig { island: s1.config.salatmv.island }),
                        ..s0.config
                    }),
                    settings: (SettingsState {
                        cursor: min(s0.settings.cursor as int, sat_sub(len, 1)) as usize,
                        mode: SettingsMode::Normal,
                        ..s0.settings
                    }),
                    ..s0
                })
                &&& s1.config.salatmv.island@ == key
                &&& a == (Action::Changed { provider: true })
            }
        }
    }
}

/// A key while a picker is open: up/down move (by ten with shift),
/// enter applies, escape closes, backspace and typed characters edit the
/// pattern (which restarts the list at the top).
pub open spec fn popup_key_ok(
    s0: AppState,
    s1: AppState,
    a: Action,
    key: Key,
    modifier: Modifier,
) -> bool {
    let s0n = normal_mode(s0);
    match s0.settings.mode {
        SettingsMode::Popup { kind, cursor, offset, filter } => {
            let step: int = if modifier == Modifier::Shift {
                10
            } else {
                1
            };
            let len = popup_count(s0, kind, filter@);
            let stored = |c: int, o: int, f: Seq<char>|
                same_but_mode(s0, s1) && is_popup(s1.settings.mode, kind, c, o, f) && a
                    == Action::Nothing;
            if key == Key::Up {
                stored(min(sat_sub(cursor as int, step), sat_sub(len, 1)), offset as int, filter@)
            } else if key == Key::Down && len > 0 {
                stored(min(cursor + step, len - 1), offset as int, filter@)
            } else if key == Key::Enter {
                apply_popup_ok(s0n, s1, a, kind, cursor as int, offset as int, filter@)
            } else if key == Key::Escape {
                s1 == s0n && a == Action::Nothing
            } else if key == Key::Backspace {
                stored(
                    0,
                    0,
                    if filter@.len() > 0 {
                        filter@.drop_last()
                    } else {
                        filter@
                    },
                )
            } else {
                match s0.input_map.spec_raw() {
                    Some(c) => stored(0, 0, filter@.push(c)),
                    None => stored(cursor as int, offset as int, filter@),
                }
            }
        },
        _ => s1 == s0n && a == Action::Nothing,
    }
}

/// A key while a text field is edited: enter commits (coordinates are
/// handed out to be checked; a refused text keeps the editor open with a
/// message), escape cancels, backspace and typed characters edit the text.
pub open spec fn text_key_ok(s0: AppState, s1: AppState, a: Action, key: Key) -> bool {
    let s0n = normal_mode(s0);
    match s0.settings.mode {
        SettingsMode::TextInput { field, buffer } => {
            let kept = |b: Seq<char>|
                same_but_mode(s0, s1) && is_text(s1.settings.mode, field, b) && a
                    == Action::Nothing;
            if key == Key::Enter {
                if field == FieldId::ProviderLatitude || field == FieldId::ProviderLongitude {
                    s1 == s0n && (a matches Action::CommitCoordinate { field: f, text } && f == field
                        && text@ == buffer@)
                } else {
                    match commit_outcome(field, buffer@) {
                        Ok(_) => config_committed(field, s0.config, s1.config, buffer@) && s1 == (
                        AppState { config: s1.config, ..s0n }) && a == (Action::Changed {
                            provider: is_provider_field(field),
                        }),
                        Err(m) => {
                            &&& s1 == (AppState {
                                message: s1.message,
                                settings: (SettingsState { mode: s1.settings.mode, ..s0.settings }),
                                ..s0
                            })
                            &&& (s1.message matches Some(e) && e@ == m)
                            &&& is_text(s1.settings.mode, field, buffer@)
                            &&& a == Action::Nothing
                        },
                    }
                }
            } else if key == Key::Escape {
                s1 == s0n && a == Action::Nothing
            } else if key == Key::Backspace {
                kept(
                    if buffer@.len() > 0 {
                        buffer@.drop_last()
                    } else {
                        buffer@
                    },
                )
            } else {
                match s0.input_map.spec_raw() {
                    Some(c) => kept(buffer@.push(c)),
                    None => kept(buffer@),
                }
            }
        },
        _ => s1 == s0n && a == Action::Nothing,
    }
}

/// A key in the settings screen: the message clears, then the key goes to
/// the text editor, the picker or the normal mode, whichever is active.
pub open spec fn settings_key_ok(s0: AppState, s1: AppState, a: Action) -> bool {
    let sm = AppState { message: None, ..s0 };
    let key = s0.input_map.spec_key();
    let modifier = s0.input_map.spec_modifier();
    match s0.settings.mode {
        SettingsMode::TextInput { .. } => text_key_ok(sm, s1, a, key),
        SettingsMode::Popup { .. } => popup_key_ok(sm, s1, a, key, modifier),
        SettingsMode::Normal => normal_key_ok(sm, s1, a, key, modifier),
    }
}

/// A checked coordinate lands: the accepted text replaces the coordinate
/// and the provider reloads; a refusal reopens the editor with the message.
pub open spec fn coordinate_ok(
    s0: AppState,
    s1: AppState,
    a: Action,
    field: FieldId,
    text: Seq<char>,
    result: Result<Seq<char>, Seq<char>>,
) -> bool {
    match result {
        Ok(v) => {
            &&& (if field == FieldId::ProviderLatitude {
                s1.config.coordinates.latitude@ == v && s1 == (AppState {
                    config: (Config {
                        coordinates: (crate::conf::Coords {
                            latitude: s1.config.coordinates.latitude,
                            ..s0.config.coordinates
                        }),
                        ..s0.config
                    }),
                    ..s0
                })
            } else {
                s1.config.coordinates.longitude@ == v && s1 == (AppState {
                    config: (Config {
                        coordinates: (crate::conf::Coords {
                            longitude: s1.config.coordinates.longitude,
                            ..s0.config.coordinates
                        }),
                        ..s0.config
                    }),
                    ..s0
                })
            })
            &&& a == (Action::Changed { provider: true })
        },
        Err(m) => {
            &&& s1 == (AppState {
                message: s1.message,
                settings: (SettingsState { mode: s1.settings.mode, ..s0.settings }),
                ..s0
            })
            &&& (s1.message matches Some(e) && e@ == m)
            &&& is_text(s1.settings.mode, field, text)
            &&& a == Action::Nothing
        },
    }
}

/// Makes a picked city the location, `"<name>, <country>"`. Its coordinate
/// texts, `city[2]` and `city[3]`, are floating point and set by the
/// application.
pub fn apply_city(config: &mut Config, city: &[String; 4])
    ensures
        *final(config) == (Config {
            calculation: (CalculationConfig {
                location: final(config).calculation.location,
                ..old(config).calculation
            }),
            ..*old(config)
        }),
        final(config).calculation.location@ == city@[0]@ + ", "@ + city@[1]@,
{
    let mut loc = city[0].clone();
    push_str(&mut loc, ", ");
    push_str(&mut loc, city[1].as_str());
    config.calculation.location = loc;
}

impl AppState {
    /// Applies the picker entry at `cursor` (see `apply_popup_ok`).
    pub fn apply_popup(&mut self, kind: PopupKind, cursor: usize, offset: usize, filter: String) -> (a:
        Action)
        ensures
            apply_popup_ok(
                *old(self),
                *final(self),
                a,
                kind,
                cursor as int,
                offset as int,
                filter@,
            ),
    {
        let entries = popup_entries(kind, filter.as_str(), &self.catalog);
        let ghost ev = entries@.map_values(|e: PopupEntry| entry_view(e));
        if cursor >= entries.len() {
            self.store_popup(kind, cursor, offset, filter);
            return Action::Nothing;
        }
        assert(ev[cursor as int] == entry_view(entries@[cursor as int]));
        match &entries[cursor] {
            PopupEntry::City(c) => {
                apply_city(&mut self.config, c);
                self.settings.mode = SettingsMode::Normal;
                Action::ApplyCity { latitude: c[2].clone(), longitude: c[3].clone() }
            },
            PopupEntry::Island(key) => {
                if self.catalog.mv.timeset_for_island(key.as_str()).is_none() {
                    self.message = Some(owned("failed to parse island data"));
                    self.store_popup(kind, cursor, offset, filter);
                    return Action::Nothing;
                }
                self.config.salatmv.island = key.clone();
                let len = fields_for(0, &self.config).len();
                let last = if len >= 1 {
                    len - 1
                } else {
                    0
                };
                if self.settings.cursor > last {
                    self.settings.cursor = last;
                }
                self.settings.mode = SettingsMode::Normal;
                self.after_change(true)
            },
        }
    }

    /// A key while a picker is open (see `popup_key_ok`).
    pub fn handle_popup_key(&mut self, key: (Key, Modifier)) -> (a: Action)
        requires
            bounded(*old(self)),
        ensures
            popup_key_ok(*old(self), *final(self), a, key.0, key.1),
    {
        let (key, modifier) = key;
        let step: usize = match modifier {
            Modifier::Shift => 10,
            _ => 1,
        };
        let mut taken = SettingsMode::Normal;
        std::mem::swap(&mut taken, &mut self.settings.mode);
        match taken {
            SettingsMode::Popup { kind, cursor, offset, filter } => {
                let len = popup_entries(kind, filter.as_str(), &self.catalog).len();
                let last = if len >= 1 {
                    len - 1
                } else {
                    0
                };
                if key == Key::Up {
                    let up = if cursor >= step {
                        cursor - step
                    } else {
                        0
                    };
                    self.store_popup(
                        kind,
                        if up <= last {
                            up
                        } else {
                            last
                        },
                        offset,
                        filter,
                    );
                    Action::Nothing
                } else if key == Key::Down && len > 0 {
                    let down = cursor + step;
                    self.store_popup(
                        kind,
                        if down <= last {
                            down
                        } else {
                            last
                        },
                        offset,
                        filter,
                    );
                    Action::Nothing
                } else if key == Key::Enter {
                    self.apply_popup(kind, cursor, offset, filter)
                } else if key == Key::Escape {
                    Action::Nothing
                } else if key == Key::Backspace {
                    let mut next = filter;
                    pop_char(&mut next);
                    self.store_popup(kind, 0, 0, next);
                    Action::Nothing
                } else {
                    match self.input_map.get_raw_char() {
                        Some(c) => {
                            let mut next = filter;
                            push_char(&mut next, c);
                            self.store_popup(kind, 0, 0, next);
                        },
                        None => {
                            self.store_popup(kind, cursor, offset, filter);
                        },
                    }
                    Action::Nothing
                }
            },
            _ => Action::Nothing,
        }
    }

    /// A key while a text field is edited (see `text_key_ok`).
    pub fn handle_text_key(&mut self, key: Key) -> (a: Action)
        ensures
            text_key_ok(*old(self), *final(self), a, key),
    {
        let mut taken = SettingsMode::Normal;
        std::mem::swap(&mut taken, &mut self.settings.mode);
        match taken {
            SettingsMode::TextInput { field, buffer } => {
                if key == Key::Enter {
                    if field.censored() {
                        return Action::CommitCoordinate { field, text: buffer };
                    }
                    let is_provider = field.is_provider();
                    match field.commit_text(&mut self.config, buffer.as_str()) {
                        Ok(()) => self.after_change(is_provider),
                        Err(err) => {
                            self.message = Some(err);
                            self.settings.mode = SettingsMode::TextInput { field, buffer };
                            Action::Nothing
                        },
                    }
                } else if key == Key::Escape {
                    Action::Nothing
                } else if key == Key::Backspace {
                    let mut buffer = buffer;
                    pop_char(&mut buffer);
                    self.settings.mode = SettingsMode::TextInput { field, buffer };
                    Action::Nothing
                } else {
                    let mut buffer = buffer;
                    match self.input_map.get_raw_char() {
                        Some(c) => push_char(&mut buffer, c),
                        None => {},
                    }
                    self.settings.mode = SettingsMode::TextInput { field, buffer };
                    Action::Nothing
                }
            },
            _ => Action::Nothing,
        }
    }

    /// Reports the application's check of a coordinate text for `field`:
    /// `Ok` with the coordinate's canonical text, or `Err` with the message
    /// (see `coordinate_ok`).
    pub fn coordinate_committed(
        &mut self,
        field: FieldId,
        text: String,
        result: Result<String, String>,
    ) -> (a: Action)
        requires
            field == FieldId::ProviderLatitude || field == FieldId::ProviderLongitude,
        ensures
            coordinate_ok(
                *old(self),
                *final(self),
                a,
                field,
                text@,
                match result {
                    Ok(v) => Ok(v@),
                    Err(m) => Err(m@),
                },
            ),
    {
        match result {
            Ok(v) => {
                if field == FieldId::ProviderLatitude {
                    self.config.coordinates.latitude = v;
                } else {
                    self.config.coordinates.longitude = v;
                }
                self.after_change(true)
            },
            Err(e) => {
                self.message = Some(e);
                self.settings.mode = SettingsMode::TextInput { field, buffer: text };
                Action::Nothing
            },
        }
    }

    /// The current key in the settings screen (see `settings_key_ok`).
    pub fn handle_settings_key(&mut self) -> (a: Action)
        requires
            bounded(*old(self)),
        ensures
            settings_key_ok(*old(self), *final(self), a),
    {
        self.message = None;
        let key = match self.input_map.get_key() {
            Some(k) => k,
            None => (Key::NoKey, Modifier::NoModifier),
        };
        let is_text = match &self.settings.mode {
            SettingsMode::TextInput { .. } => true,
            _ => false,
        };
        let is_popup = match &self.settings.mode {
            SettingsMode::Popup { .. } => true,
            _ => false,
        };
        if is_text {
            self.handle_text_key(key.0)
        } else if is_popup {
            self.handle_popup_key(key)
        } else {
            self.handle_normal_key(key)
        }
    }
}

// ----- mouse -----

#[derive(Debug, Clone, Copy, PartialEq, Eq, Structural)]
pub enum MouseButton {
    Left,
    Right,
    Middle,
}

#[derive(Debug, Clone, Copy, PartialEq, Eq, Structural)]
pub enum MouseEventKind {
    Down(MouseButton),
    Up(MouseButton),
    Drag(MouseButton),
    Moved,
    ScrollDown,
    ScrollUp,
    ScrollLeft,
    ScrollRight,
}

/// A mouse event at cell `(column, row)`.
#[derive(Debug, Clone, Copy, PartialEq, Eq, Structural)]
pub struct MouseEvent {
    pub kind: MouseEventKind,
    pub column: u16,
    pub row: u16,
    pub modifiers: Modifier,
}

/// The wheel in the settings screen: it moves the picker's cursor, or the
/// selected field in normal mode.
pub open spec fn scroll_ok(s0: AppState, s1: AppState, delta: int) -> bool {
    match s0.settings.mode {
        SettingsMode::Popup { kind, cursor, offset, filter } => {
            let len = popup_count(s0, kind, filter@);
            let max = sat_sub(len, 1);
            let next = if delta > 0 {
                min(cursor + 1, max)
            } else {
                min(sat_sub(cursor as int, 1), max)
            };
            same_but_mode(s0, s1) && is_popup(s1.settings.mode, kind, next, offset as int, filter@)
        },
        SettingsMode::Normal => {
            let rc = row_count(s0);
            if rc == 0 {
                s1 == s0
            } else if delta > 0 {
                s1 == with_cursor(s0, min(s0.settings.cursor + 1, rc - 1))
            } else {
                s1 == with_cursor(s0, sat_sub(s0.settings.cursor as int, 1))
            }
        },
        _ => s1 == s0,
    }
}

/// A right click in the settings screen's normal mode: on the selected
/// choice field it steps backwards, on another field it selects it, on a
/// section it does nothing, elsewhere it goes back to the menu.
pub open spec fn right_click_ok(s0: AppState, s1: AppState, a: Action, x: int, y: int) -> bool {
    if !(s0.settings.mode is Normal) {
        s1 == s0 && a == Action::Nothing
    } else {
        let panes = s0.ui_mouse.settings_panes@;
        let ids = section_fields(s0.settings.category as int, s0.config.provider);
        let r1 = inner_row(x, y, panes[1]);
        if r1 is Some && s0.settings.offset + r1.unwrap() < ids.len() {
            let idx = s0.settings.offset + r1.unwrap();
            if s0.settings.cursor == idx && kind_of(ids[idx]) == FieldKind::Cycle {
                edit_ok(s0, s1, a, -1)
            } else {
                s1 == with_cursor(s0, idx) && a == Action::Nothing
            }
        } else if inner_row(x, y, panes[0]) is Some {
            s1 == s0 && a == Action::Nothing
        } else {
            s1 == (AppState { screen: Screen::Menu, ..s0 }) && a == Action::Nothing
        }
    }
}

/// A left click while a text field is edited: anywhere but on the edited
/// field ends editing (and a click on another field selects it).
pub open spec fn text_click_ok(s0: AppState, s1: AppState, a: Action, x: int, y: int) -> bool {
    match s0.settings.mode {
        SettingsMode::TextInput { field, .. } => {
            let ids = section_fields(s0.settings.category as int, s0.config.provider);
            let r1 = inner_row(x, y, s0.ui_mouse.settings_panes@[1]);
            let hit = r1 is Some && s0.settings.offset + r1.unwrap() < ids.len();
            let idx = s0.settings.offset + r1.unwrap();
            &&& a == Action::Nothing
            &&& if hit && ids[idx] == field {
                s1 == s0
            } else if hit {
                s1 == with_cursor(normal_mode(s0), idx)
            } else {
                s1 == normal_mode(s0)
            }
        },
        _ => s1 == s0 && a == Action::Nothing,
    }
}

/// A left click while a picker is open: outside the picker closes it; on
/// the selected entry it applies it; on another entry it selects it.
pub open spec fn popup_click_ok(s0: AppState, s1: AppState, a: Action, x: int, y: int) -> bool {
    match s0.settings.mode {
        SettingsMode::Popup { kind, cursor, offset, filter } => {
            if !s0.ui_mouse.popup_rect.contains(x, y) {
                s1 == normal_mode(s0) && a == Action::Nothing
            } else {
                let r = inner_row(x, y, s0.ui_mouse.popup_list);
                let idx = offset + r.unwrap();
                if r is None || idx >= popup_count(s0, kind, filter@) {
                    s1 == s0 && a == Action::Nothing
                } else if idx == cursor {
                    apply_popup_ok(s0, s1, a, kind, cursor as int, offset as int, filter@)
                } else {
                    same_but_mode(s0, s1) && is_popup(
                        s1.settings.mode,
                        kind,
                        idx,
                        offset as int,
                        filter@,
                    ) && a == Action::Nothing
                }
            }
        },
        _ => s1 == s0 && a == Action::Nothing,
    }
}

/// A left click in the settings screen: a section row selects the section,
/// a field row selects the field, and a click on the selected field
/// activates it.
pub open spec fn click_ok(s0: AppState, s1: AppState, a: Action, x: int, y: int) -> bool {
    match s0.settings.mode {
        SettingsMode::Popup { .. } => popup_click_ok(s0, s1, a, x, y),
        SettingsMode::TextInput { .. } => text_click_ok(s0, s1, a, x, y),
        SettingsMode::Normal => {
            let panes = s0.ui_mouse.settings_panes@;
            let r0 = inner_row(x, y, panes[0]);
            let r1 = inner_row(x, y, panes[1]);
            let rc = row_count(s0);
            if r0 is Some {
                a == Action::Nothing && if r0.unwrap() < 4 {
                    s1 == (AppState {
                        settings: (SettingsState {
                            category: r0.unwrap(),
                            cursor: 0,
                            ..s0.settings
                        }),
                        ..s0
                    })
                } else {
                    s1 == s0
                }
            } else if r1 is Some && s0.settings.offset + r1.unwrap() < rc {
                let idx = s0.settings.offset + r1.unwrap();
                if s0.settings.cursor == idx {
                    activate_ok(s0, s1, a)
                } else {
                    s1 == with_cursor(s0, idx) && a == Action::Nothing
                }
            } else {
                s1 == s0 && a == Action::Nothing
            }
        },
    }
}

/// A mouse event: on the menu the wheel changes the day and a right click
/// opens the settings; on the settings screen the wheel scrolls and the
/// buttons click.
pub open spec fn mouse_ok(s0: AppState, s1: AppState, a: Action, ev: MouseEvent) -> bool {
    let x = ev.column as int;
    let y = ev.row as int;
    let menu = s0.screen == Screen::Menu;
    let settings = s0.screen == Screen::Settings;
    match ev.kind {
        MouseEventKind::ScrollDown => if menu {
            s1 == (AppState { day_offset: (s0.day_offset + 1) as i64, ..s0 }) && a == Action::Nothing
        } else if settings {
            scroll_ok(s0, s1, 1) && a == Action::Nothing
        } else {
            s1 == s0 && a == Action::Nothing
        },
        MouseEventKind::ScrollUp => if menu {
            s1 == (AppState { day_offset: (s0.day_offset - 1) as i64, ..s0 }) && a == Action::Nothing
        } else if settings {
            scroll_ok(s0, s1, -1) && a == Action::Nothing
        } else {
            s1 == s0 && a == Action::Nothing
        },
        MouseEventKind::Down(MouseButton::Right) => if menu {
            s1 == (AppState { screen: Screen::Settings, ..s0 }) && a == Action::Nothing
        } else if settings {
            right_click_ok(s0, s1, a, x, y)
        } else {
            s1 == s0 && a == Action::Nothing
        },
        MouseEventKind::Down(MouseButton::Left) => if settings {
            click_ok(s0, s1, a, x, y)
        } else {
            s1 == s0 && a == Action::Nothing
        },
        _ => s1 == s0 && a == Action::Nothing,
    }
}

impl AppState {
    /// The wheel in the settings screen (see `scroll_ok`).
    pub fn settings_scroll(&mut self, delta: isize)
        requires
            bounded(*old(self)),
        ensures
            scroll_ok(*old(self), *final(self), delta as int),
    {
        let snapshot = self.popup_mode_snapshot();
        match snapshot {
            Some((kind, cursor, offset, filter)) => {
                let len = popup_entries(kind, filter.as_str(), &self.catalog).len();
                let max = if len >= 1 {
                    len - 1
                } else {
                    0
                };
                let next = if delta > 0 {
                    if cursor + 1 <= max {
                        cursor + 1
                    } else {
                        max
                    }
                } else {
                    let back = if cursor >= 1 {
                        cursor - 1
                    } else {
                        0
                    };
                    if back <= max {
                        back
                    } else {
                        max
                    }
                };
                self.store_popup(kind, next, offset, filter);
            },
            None => {
                let is_normal = match &self.settings.mode {
                    SettingsMode::Normal => true,
                    _ => false,
                };
                if is_normal {
                    let row_count = fields_for(self.settings.category, &self.config).len();
                    if row_count == 0 {
                        return ;
                    }
                    if delta > 0 {
                        let next = self.settings.cursor + 1;
                        self.settings.cursor = if next <= row_count - 1 {
                            next
                        } else {
                            row_count - 1
                        };
                    } else {
                        self.settings.cursor = if self.settings.cursor >= 1 {
                            self.settings.cursor - 1
                        } else {
                            0
                        };
                    }
                }
            },
        }
    }

    /// A right click in the settings screen (see `right_click_ok`).
    pub fn handle_settings_right_click(&mut self, column: u16, row: u16) -> (a: Action)
        requires
            bounded(*old(self)),
        ensures
            right_click_ok(*old(self), *final(self), a, column as int, row as int),
    {
        let is_normal = match &self.settings.mode {
            SettingsMode::Normal => true,
            _ => false,
        };
        if !is_normal {
            return Action::Nothing;
        }
        let panes = self.ui_mouse.settings_panes;
        match row_in_rect(column, row, panes[1]) {
            Some(vis) => {
                let rows = fields_for(self.settings.category, &self.config);
                let index = self.settings.offset + vis;
                if index < rows.len() {
                    let is_cycle = match rows[index].kind {
                        FieldKind::Cycle => true,
                        _ => false,
                    };
                    if self.settings.cursor == index && is_cycle {
                        return self.edit_current(-1);
                    } else {
                        self.settings.cursor = index;
                        return Action::Nothing;
                    }
                }
            },
            None => {},
        }
        if row_in_rect(column, row, panes[0]).is_some() {
            return Action::Nothing;
        }
        self.screen = Screen::Menu;
        Action::Nothing
    }

    /// A left click while a text field is edited (see `text_click_ok`).
    pub fn handle_text_click(&mut self, column: u16, row: u16) -> (a: Action)
        requires
            bounded(*old(self)),
        ensures
            text_click_ok(*old(self), *final(self), a, column as int, row as int),
    {
        let editing = match &self.settings.mode {
            SettingsMode::TextInput { field, .. } => *field,
            _ => {
                return Action::Nothing;
            },
        };
        let fields = self.ui_mouse.settings_panes[1];
        let rows = fields_for(self.settings.category, &self.config);
        let clicked: Option<(usize, FieldId)> = match row_in_rect(column, row, fields) {
            Some(vis) => {
                let index = self.settings.offset + vis;
                if index < rows.len() {
                    Some((index, rows[index].id))
                } else {
                    None
                }
            },
            None => None,
        };
        match clicked {
            Some((index, id)) => {
                if id == editing {
                    return Action::Nothing;
                }
                self.settings.mode = SettingsMode::Normal;
                self.settings.cursor = index;
            },
            None => {
                self.settings.mode = SettingsMode::Normal;
            },
        }
        Action::Nothing
    }

    /// A left click while a picker is open (see `popup_click_ok`).
    pub fn handle_popup_click(&mut self, column: u16, row: u16) -> (a: Action)
        requires
            bounded(*old(self)),
        ensures
            popup_click_ok(*old(self), *final(self), a, column as int, row as int),
    {
        let (kind, cursor, offset, filter) = match self.popup_mode_snapshot() {
            Some(t) => t,
            None => {
                return Action::Nothing;
            },
        };
        if !in_rect(column, row, self.ui_mouse.popup_rect) {
            self.settings.mode = SettingsMode::Normal;
            return Action::Nothing;
        }
        let vis = match row_in_rect(column, row, self.ui_mouse.popup_list) {
            Some(v) => v,
            None => {
                return Action::Nothing;
            },
        };
        let len = popup_entries(kind, filter.as_str(), &self.catalog).len();
        let index = offset + vis;
        if index >= len {
            return Action::Nothing;
        }
        if index == cursor {
            self.apply_popup(kind, index, offset, filter)
        } else {
            self.store_popup(kind, index, offset, filter);
            Action::Nothing
        }
    }

    /// A left click in the settings screen (see `click_ok`).
    pub fn handle_settings_click(&mut self, column: u16, row: u16) -> (a: Action)
        requires
            bounded(*old(self)),
        ensures
            click_ok(*old(self), *final(self), a, column as int, row as int),
    {
        let is_popup = match &self.settings.mode {
            SettingsMode::Popup { .. } => true,
            _ => false,
        };
        if is_popup {
            return self.handle_popup_click(column, row);
        }
        let is_text = match &self.settings.mode {
            SettingsMode::TextInput { .. } => true,
            _ => false,
        };
        if is_text {
            return self.handle_text_click(column, row);
        }
        let panes = self.ui_mouse.settings_panes;
        match row_in_rect(column, row, panes[0]) {
            Some(cat) => {
                if cat < 4 {
                    self.settings.category = cat;
                    self.settings.cursor = 0;
                }
                return Action::Nothing;
            },
            None => {},
        }
        match row_in_rect(column, row, panes[1]) {
            Some(vis) => {
                let len = fields_for(self.settings.category, &self.config).len();
                let index = self.settings.offset + vis;
                if index < len {
                    if self.settings.cursor == index {
                        return self.activate_current();
                    } else {
                        self.settings.cursor = index;
                    }
                }
            },
            None => {},
        }
        Action::Nothing
    }

    /// Dispatches a mouse event (see `mouse_ok`).
    pub fn handle_mouse_event(&mut self, mouse: MouseEvent) -> (a: Action)
        requires
            bounded(*old(self)),
        ensures
            mouse_ok(*old(self), *final(self), a, mouse),
    {
        let column = mouse.column;
        let row = mouse.row;
        let menu = self.screen == Screen::Menu;
        let settings = self.screen == Screen::Settings;
        match mouse.kind {
            MouseEventKind::ScrollDown => {
                if menu {
                    self.day_offset = self.day_offset + 1;
                } else if settings {
                    self.settings_scroll(1);
                }
                Action::Nothing
            },
            MouseEventKind::ScrollUp => {
                if menu {
                    self.day_offset = self.day_offset - 1;
                } else if settings {
                    self.settings_scroll(-1);
                }
                Action::Nothing
            },
            MouseEventKind::Down(MouseButton::Right) => {
                if menu {
                    self.screen = Screen::Settings;
                    Action::Nothing
                } else if settings {
                    self.handle_settings_right_click(column, row)
                } else {
                    Action::Nothing
                }
            },
            MouseEventKind::Down(MouseButton::Left) => {
                if settings {
                    self.handle_settings_click(column, row)
                } else {
                    Action::Nothing
                }
            },
            _ => Action::Nothing,
        }
    }
}

// ----- the event loop's decisions -----

/// What the event loop does after a key.
#[derive(Debug)]
pub enum InputOutcome {
    Quit,
    Continue(Action),
}

/// A key on the menu screen: left/right change the day (by a month of 30
/// days with shift), escape returns to today, the config key opens the
/// settings.
pub open spec fn menu_key_ok(s0: AppState, s1: AppState, key: Key, modifier: Modifier) -> bool {
    let d = s0.day_offset as int;
    let shift = modifier == Modifier::Shift;
    if key == Key::Right {
        s1 == (AppState { day_offset: (d + if shift { 30int } else { 1int }) as i64, ..s0 })
    } else if key == Key::Left {
        s1 == (AppState { day_offset: (d - if shift { 30int } else { 1int }) as i64, ..s0 })
    } else if key == Key::Escape {
        s1 == (AppState { day_offset: 0, ..s0 })
    } else if key == Key::Config {
        s1 == (AppState { screen: Screen::Settings, ..s0 })
    } else {
        s1 == s0
    }
}

/// One key of the event loop. While a field is edited or a picker is open
/// every key goes to the settings editor. Otherwise the command `q` quits and
/// `f` toggles full screen; then the settings screen takes the key, and the
/// other screens move through the days.
pub open spec fn input_ok(s0: AppState, s1: AppState, o: InputOutcome) -> bool {
    let cmd = match s0.input_map.spec_key() {
        Key::Command(c) => Some(c),
        _ => None,
    };
    let key = s0.input_map.spec_key();
    let modifier = s0.input_map.spec_modifier();
    if s0.screen == Screen::Settings && !(s0.settings.mode is Normal) {
        o matches InputOutcome::Continue(a) && settings_key_ok(s0, s1, a)
    } else if cmd == Some('q') {
        s1 == s0 && o is Quit
    } else {
        let sf = if cmd == Some('f') {
            AppState { fullscreen: !s0.fullscreen, ..s0 }
        } else {
            s0
        };
        if s0.screen == Screen::Settings {
            o matches InputOutcome::Continue(a) && settings_key_ok(sf, s1, a)
        } else {
            (o matches InputOutcome::Continue(a) && a == Action::Nothing) && menu_key_ok(
                sf,
                s1,
                key,
                modifier,
            )
        }
    }
}

/// On the menu, moving a day (or, with shift, a month) forward and then back
/// returns to the day shown before.
pub proof fn lemma_day_back_undoes_forward(
    s0: AppState,
    s1: AppState,
    s2: AppState,
    modifier: Modifier,
)
    requires
        i64::MIN + 64 <= s0.day_offset <= i64::MAX - 64,
        menu_key_ok(s0, s1, Key::Right, modifier),
        menu_key_ok(s1, s2, Key::Left, modifier),
    ensures
        s2 == s0,
{
}

/// Switching the provider type twice gives back the configuration: both
/// providers' settings stay stored while the other one is active.
pub proof fn lemma_switch_twice(s0: AppState, s1: AppState, s2: AppState, a1: Action, a2: Action)
    requires
        switch_ok(s0, s1, a1),
        switch_ok(s1, s2, a2),
    ensures
        s2.config == s0.config,
{
}

/// Every section has fields to show.
pub proof fn lemma_sections_nonempty(category: int, provider: ProviderKind)
    requires
        0 <= category < 4,
    ensures
        section_fields(category, provider).len() > 0,
{
}

/// In the settings editor, going to the next section and then back to the
/// previous one returns to the section (and first row) left: the section
/// index always stays among the four sections.
pub proof fn lemma_prev_undoes_next(
    s0: AppState,
    s1: AppState,
    s2: AppState,
    a1: Action,
    a2: Action,
    modifier: Modifier,
)
    requires
        s0.settings.category < 4,
        s0.settings.cursor == 0,
        normal_key_ok(s0, s1, a1, Key::Next, modifier),
        normal_key_ok(s1, s2, a2, Key::Prev, modifier),
    ensures
        s1.settings.category < 4,
        s2 == s0,
        a1 == Action::Nothing && a2 == Action::Nothing,
{
    lemma_sections_nonempty(s0.settings.category as int, s0.config.provider);
    lemma_sections_nonempty((s0.settings.category as int + 1) % 4, s0.config.provider);
}

impl AppState {
    /// Decides what the current key does (see `input_ok`).
    pub fn handle_input(&mut self) -> (o: InputOutcome)
        requires
            bounded(*old(self)),
        ensures
            input_ok(*old(self), *final(self), o),
    {
        let editing = match &self.settings.mode {
            SettingsMode::Normal => false,
            _ => true,
        };
        if self.screen == Screen::Settings && editing {
            return InputOutcome::Continue(self.handle_settings_key());
        }
        match self.input_map.get_command() {
            Some('q') => {
                return InputOutcome::Quit;
            },
            Some('f') => {
                self.fullscreen = !self.fullscreen;
            },
            _ => {},
        }
        if self.screen == Screen::Settings {
            return InputOutcome::Continue(self.handle_settings_key());
        }
        let (key, modifier) = match self.input_map.get_key() {
            Some(k) => k,
            None => (Key::NoKey, Modifier::NoModifier),
        };
        let shift = modifier == Modifier::Shift;
        if key == Key::Right {
            self.day_offset = self.day_offset + if shift {
                30
            } else {
                1
            };
        } else if key == Key::Left {
            self.day_offset = self.day_offset - if shift {
                30
            } else {
                1
            };
        } else if key == Key::Escape {
            self.day_offset = 0;
        } else if key == Key::Config {
            self.screen = Screen::Settings;
        }
        InputOutcome::Continue(Action::Nothing)
    }

    /// The day shown: `today` (a day number) moved by the day offset;
    /// `None` when that leaves the range of day numbers.
    pub fn offset_day(&self, today: i32) -> (r: Option<i32>)
        ensures
            r == if i32::MIN <= today + self.day_offset <= i32::MAX {
                Some((today + self.day_offset) as i32)
            } else {
                None::<i32>
            },
    {
        let sum: i128 = today as i128 + self.day_offset as i128;
        if i32::MIN as i128 <= sum && sum <= i32::MAX as i128 {
            Some(sum as i32)
        } else {
            None
        }
    }

    /// Notification bookkeeping at minute `now_min` of day `today` (days
    /// since the common era) for the day's prayer times; returns the prayers
    /// to announce now. Nothing happens while notifications are disabled.
    pub fn check_notifications(&mut self, today: i32, now_min: i64, times: &PrayerTimes) -> (sent:
        Vec<usize>)
        ensures
            !old(self).config.notifications.enabled ==> sent@.len() == 0 && *final(self) == *old(
                self,
            ),
            old(self).config.notifications.enabled ==> *final(self) == (AppState {
                notif: final(self).notif,
                ..*old(self)
            }) && notif_step(
                old(self).notif,
                final(self).notif,
                sent@,
                today,
                now_min as int,
                targets_of(*times, old(self).config.notifications.offset as int),
            ),
    {
        if !self.config.notifications.enabled {
            return Vec::new();
        }
        let offset = self.config.notifications.offset;
        self.notif.step(today, now_min, times, offset)
    }
}

// ----- laws of the keys and the wheel -----

/// The step of left/right: ten with shift, else one.
pub open spec fn key_step(m: Modifier) -> int {
    if m == Modifier::Shift {
        10
    } else {
        1
    }
}

/// In the editor's normal mode, Left undoes Right: pressing Right and then
/// Left with the same modifier on a field gives the configuration back
/// (for an offset far enough from the ends of `i32` not to be clamped).
pub proof fn lemma_left_undoes_right(
    s0: AppState,
    s1: AppState,
    s2: AppState,
    a1: Action,
    a2: Action,
    m: Modifier,
)
    requires
        normal_key_ok(s0, s1, a1, Key::Right, m),
        normal_key_ok(s1, s2, a2, Key::Left, m),
        i32::MIN + 10 <= s0.config.notifications.offset <= i32::MAX - 10,
    ensures
        s2.config == s0.config,
{
    let ids = section_fields(s0.settings.category as int, s0.config.provider);
    let cur = s0.settings.cursor as int;
    let d = key_step(m);
    if row_count(s0) > 0 && cur < ids.len() {
        let id = ids[cur];
        if kind_of(id) == FieldKind::Cycle {
            if id == FieldId::ProviderType {
                lemma_switch_twice(s0, s1, s2, a1, a2);
            } else {
                crate::settings::lemma_cycle_inverse(id, s0.config, d);
                assert(s1.config.provider == s0.config.provider);
            }
        }
    }
}

/// Left on the notification offset lowers it by the step (stopping at the
/// smallest `i32`); on a choice field other than the provider type it
/// moves the option back by the step, wrapping around.
pub proof fn lemma_left_lowers(s0: AppState, s1: AppState, a: Action, m: Modifier)
    requires
        normal_key_ok(s0, s1, a, Key::Left, m),
        s0.settings.cursor < section_fields(s0.settings.category as int, s0.config.provider).len(),
    ensures
        ({
            let id = section_fields(s0.settings.category as int, s0.config.provider)[s0.settings.cursor as int];
            let o = s0.config.notifications.offset - key_step(m);
            &&& id == FieldId::NotifOffset ==> s1.config.notifications.offset == if o < i32::MIN {
                i32::MIN as int
            } else {
                o
            }
            &&& (kind_of(id) == FieldKind::Cycle && id != FieldId::ProviderType) ==> option_index(
                id,
                s1.config,
            ) == Some(
                (option_index(id, s0.config).unwrap() - key_step(m)) % options_count(id).unwrap(),
            )
        }),
{
    let ids = section_fields(s0.settings.category as int, s0.config.provider);
    let id = ids[s0.settings.cursor as int];
    if kind_of(id) == FieldKind::Cycle && id != FieldId::ProviderType {
        crate::settings::lemma_cycled_index(id, s0.config, -key_step(m));
    }
}

/// On the menu the wheel moves the shown day: down one day on, up one day
/// back, so down and then up returns to the day shown before.
pub proof fn lemma_wheel_moves_day(
    s0: AppState,
    s1: AppState,
    s2: AppState,
    a1: Action,
    a2: Action,
    down: MouseEvent,
    up: MouseEvent,
)
    requires
        s0.screen == Screen::Menu,
        i64::MIN + 1 <= s0.day_offset <= i64::MAX - 1,
        down.kind == MouseEventKind::ScrollDown,
        up.kind == MouseEventKind::ScrollUp,
        mouse_ok(s0, s1, a1, down),
        mouse_ok(s1, s2, a2, up),
    ensures
        s1.day_offset == s0.day_offset + 1,
        s2.day_offset == s1.day_offset - 1,
        s2 == s0,
{
}

/// On the menu the wheel up shows the previous day and changes nothing
/// else.
pub proof fn lemma_wheel_up_goes_back(s0: AppState, s1: AppState, a: Action, up: MouseEvent)
    requires
        s0.screen == Screen::Menu,
        i64::MIN + 1 <= s0.day_offset,
        up.kind == MouseEventKind::ScrollUp,
        mouse_ok(s0, s1, a, up),
    ensures
        s1.day_offset == s0.day_offset - 1,
        s1 == (AppState { day_offset: s1.day_offset, ..s0 }),
{
}

// ----- laws of the pickers -----

proof fn lemma_matching_names_contains(ks: Seq<Seq<char>>, needle: Seq<char>, k: Seq<char>)
    ensures
        matching_names(ks, needle).contains(k) <==> (ks.contains(k) && name_matches(needle, k)),
    decreases ks.len(),
{
    if ks.len() > 0 {
        let d = ks.drop_last();
        lemma_matching_names_contains(d, needle, k);
        let md = matching_names(d, needle);
        let tail = if name_matches(needle, ks.last()) {
            seq![ks.last()]
        } else {
            Seq::<Seq<char>>::empty()
        };
        let m = matching_names(ks, needle);
        assert(m == md + tail);
        if m.contains(k) {
            let j = choose|j: int| 0 <= j < m.len() && m[j] == k;
            if j < md.len() {
                assert(md[j] == k);
                let i2 = choose|i2: int| 0 <= i2 < d.len() && d[i2] == k;
                assert(ks[i2] == k);
            } else {
                assert(tail[j - md.len()] == k);
                assert(ks[ks.len() - 1] == k);
            }
        }
        if ks.contains(k) && name_matches(needle, k) {
            let i2 = choose|i2: int| 0 <= i2 < ks.len() && ks[i2] == k;
            if i2 < d.len() {
                assert(d[i2] == k);
                assert(md.contains(k));
                let j = choose|j: int| 0 <= j < md.len() && md[j] == k;
                assert(m[j] == k);
            } else {
                assert(m[md.len() as int] == k);
            }
        }
    }
}

/// An island key is listed for a typed pattern exactly when it is one of
/// the catalog's keys and the pattern, trimmed and lower-cased, is (lower-
/// cased again, as the match does) a subsequence of the lower-cased key:
/// the match ignores the case of both the key and the pattern.
pub proof fn lemma_island_filter(filter: Seq<char>, cat: Catalog, k: Seq<char>)
    ensures
        popup_view(PopupKind::Island, filter, cat).contains((false, seq![k])) <==> (island_keys_of(
            table_of(cat.mv.island@),
            table_of(cat.mv.atoll@),
        ).contains(k) && (lowercase(trimmed(filter, Strip::Space)).len() == 0 || is_subsequence(
            lowercase(lowercase(trimmed(filter, Strip::Space))),
            lowercase(k),
        ))),
{
    let ks = island_keys_of(table_of(cat.mv.island@), table_of(cat.mv.atoll@));
    let needle = needle_of(filter);
    let mn = matching_names(ks, needle);
    let v = popup_view(PopupKind::Island, filter, cat);
    lemma_matching_names_contains(ks, needle, k);
    assert(v == mn.map_values(|x: Seq<char>| (false, seq![x])));
    if v.contains((false, seq![k])) {
        let j = choose|j: int| 0 <= j < v.len() && v[j] == (false, seq![k]);
        assert(seq![mn[j]][0] == seq![k][0]);
        assert(mn[j] == k);
    }
    if mn.contains(k) {
        let j = choose|j: int| 0 <= j < mn.len() && mn[j] == k;
        assert(v[j] == (false, seq![k]));
    }
}

/// Two island keys of the catalog that differ only in case are listed, or
/// left out, together.
pub proof fn lemma_island_filter_ignores_case(filter: Seq<char>, cat: Catalog, k1: Seq<char>, k2: Seq<char>)
    requires
        lowercase(k1) == lowercase(k2),
        island_keys_of(table_of(cat.mv.island@), table_of(cat.mv.atoll@)).contains(k1),
        island_keys_of(table_of(cat.mv.island@), table_of(cat.mv.atoll@)).contains(k2),
    ensures
        popup_view(PopupKind::Island, filter, cat).contains((false, seq![k1])) == popup_view(
            PopupKind::Island,
            filter,
            cat,
        ).contains((false, seq![k2])),
{
    lemma_island_filter(filter, cat, k1);
    lemma_island_filter(filter, cat, k2);
}

proof fn lemma_matching_cities_contains(cs: Seq<Seq<Seq<char>>>, needle: Seq<char>, c: Seq<Seq<char>>)
    ensures
        matching_cities(cs, needle).contains(c) <==> (cs.contains(c) && (needle.len() == 0
            || is_subsequence(lowercase(needle), lowercase(c[0])) || is_subsequence(
            lowercase(needle),
            lowercase(c[1]),
        ))),
    decreases cs.len(),
{
    if cs.len() > 0 {
        let d = cs.drop_last();
        lemma_matching_cities_contains(d, needle, c);
        let md = matching_cities(d, needle);
        let l = cs.last();
        let keep = needle.len() == 0 || is_subsequence(lowercase(needle), lowercase(l[0]))
            || is_subsequence(lowercase(needle), lowercase(l[1]));
        let tail = if keep {
            seq![l]
        } else {
            Seq::<Seq<Seq<char>>>::empty()
        };
        let m = matching_cities(cs, needle);
        assert(m == md + tail);
        if m.contains(c) {
            let j = choose|j: int| 0 <= j < m.len() && m[j] == c;
            if j < md.len() {
                assert(md[j] == c);
                let i2 = choose|i2: int| 0 <= i2 < d.len() && d[i2] == c;
                assert(cs[i2] == c);
            } else {
                assert(tail[j - md.len()] == c);
                assert(cs[cs.len() - 1] == c);
            }
        }
        if cs.contains(c) && (needle.len() == 0 || is_subsequence(lowercase(needle), lowercase(c[0]))
            || is_subsequence(lowercase(needle), lowercase(c[1]))) {
            let i2 = choose|i2: int| 0 <= i2 < cs.len() && cs[i2] == c;
            if i2 < d.len() {
                assert(d[i2] == c);
                assert(md.contains(c));
                let j = choose|j: int| 0 <= j < md.len() && md[j] == c;
                assert(m[j] == c);
            } else {
                assert(m[md.len() as int] == c);
            }
        }
    }
}

/// A city is listed for a typed pattern exactly when it is in the catalog
/// and the pattern, trimmed and lower-cased, is (lower-cased again) a
/// subsequence of its lower-cased name or of its lower-cased country.
pub proof fn lemma_city_filter(filter: Seq<char>, cat: Catalog, c: Seq<Seq<char>>)
    ensures
        popup_view(PopupKind::Location, filter, cat).contains((true, c)) <==> (cat.cities@.map_values(
            |x: [String; 4]| city_view(x),
        ).contains(c) && (lowercase(trimmed(filter, Strip::Space)).len() == 0 || is_subsequence(
            lowercase(lowercase(trimmed(filter, Strip::Space))),
            lowercase(c[0]),
        ) || is_subsequence(lowercase(lowercase(trimmed(filter, Strip::Space))), lowercase(c[1])))),
{
    let cs = cat.cities@.map_values(|x: [String; 4]| city_view(x));
    let needle = needle_of(filter);
    let mc = matching_cities(cs, needle);
    let v = popup_view(PopupKind::Location, filter, cat);
    lemma_matching_cities_contains(cs, needle, c);
    assert(v == mc.map_values(|x: Seq<Seq<char>>| (true, x)));
    if v.contains((true, c)) {
        let j = choose|j: int| 0 <= j < v.len() && v[j] == (true, c);
        assert(mc[j] == c);
    }
    if mc.contains(c) {
        let j = choose|j: int| 0 <= j < mc.len() && mc[j] == c;
        assert(v[j] == (true, c));
    }
}

/// On the menu, Right shows a later day and Left an earlier one, by a day
/// (a month of 30 days with shift); Escape returns to today.
pub proof fn lemma_day_keys_direction(s0: AppState, s1: AppState, key: Key, m: Modifier)
    requires
        menu_key_ok(s0, s1, key, m),
        i64::MIN + 30 <= s0.day_offset <= i64::MAX - 30,
    ensures
        key == Key::Right ==> s1.day_offset == s0.day_offset + (if m == Modifier::Shift {
            30int
        } else {
            1int
        }),
        key == Key::Left ==> s1.day_offset == s0.day_offset - (if m == Modifier::Shift {
            30int
        } else {
            1int
        }),
        key == Key::Escape ==> s1.day_offset == 0,
{
}

} // verus!
