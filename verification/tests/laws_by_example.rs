use salatui::conf::Config;
use salatui::input::{Key, Modifier};
use salatui::notif::NotifState;
use salatui::prayer::PrayerTimes;
use salatui::settings::FieldId;
use salatui::state::{AppState, InputOutcome};
use salatui::ui_state::Screen;

fn key(app: &mut AppState, k: Key, m: Modifier) -> InputOutcome {
    app.input_map.reset();
    app.input_map.set_input(k);
    app.input_map.set_modifier(m);
    app.handle_input()
}

#[test]
fn a_day_back_undoes_a_day_forward() {
    let mut app = AppState::default();
    app.day_offset = -12;
    for m in [Modifier::NoModifier, Modifier::Shift] {
        key(&mut app, Key::Right, m);
        assert_ne!(app.day_offset, -12);
        key(&mut app, Key::Left, m);
        assert_eq!(app.day_offset, -12);
    }
}

#[test]
fn previous_section_undoes_next_section() {
    let mut app = AppState::default();
    app.screen = Screen::Settings;
    for start in 0..4 {
        app.settings.category = start;
        app.settings.cursor = 0;
        key(&mut app, Key::Next, Modifier::NoModifier);
        assert!(app.settings.category < 4);
        key(&mut app, Key::Prev, Modifier::NoModifier);
        assert_eq!(app.settings.category, start);
        assert_eq!(app.settings.cursor, 0);
    }
}

#[test]
fn committing_the_shown_offset_changes_nothing() {
    for offset in [0, 15, -30, i32::MAX, i32::MIN] {
        let mut c = Config::default();
        c.notifications.offset = offset;
        let shown = FieldId::NotifOffset.value_str(&c);
        let mut d = Config::default();
        d.notifications.offset = offset;
        assert_eq!(FieldId::NotifOffset.commit_text(&mut d, &shown), Ok(()));
        assert_eq!(d.notifications.offset, offset);
    }
}

#[test]
fn cycling_back_undoes_cycling_forward() {
    for id in [FieldId::ProviderMethod, FieldId::ProviderMadhab, FieldId::TimeFormat, FieldId::RawMode] {
        for delta in [1isize, 2, 10, -3] {
            let mut c = Config::default();
            let before = id.value_str(&c);
            id.cycle(&mut c, delta);
            id.cycle(&mut c, -delta);
            assert_eq!(id.value_str(&c), before);
        }
    }
}

#[test]
fn toggling_twice_restores() {
    for id in [FieldId::Fullscreen, FieldId::Seconds, FieldId::NotifEnabled] {
        let mut c = Config::default();
        let before = id.value_str(&c);
        id.toggle(&mut c);
        assert_ne!(id.value_str(&c), before);
        id.toggle(&mut c);
        assert_eq!(id.value_str(&c), before);
    }
}

#[test]
fn each_prayer_is_announced_once_and_only_when_due() {
    let p = PrayerTimes::from_vec(vec![0, 0, 293, 365, 736, 932, 1098, 1171]);
    let mut s = NotifState::default();
    assert!(s.step(9, 292, &p, 0).is_empty());
    assert_eq!(s.step(9, 293, &p, 0), vec![0]);
    assert!(s.step(9, 294, &p, 0).is_empty());
    // a late check announces what became due meanwhile, once
    assert_eq!(s.step(9, 800, &p, 0), vec![1, 2]);
    assert!(s.step(9, 801, &p, 0).is_empty());
    // with an offset the announcement comes earlier
    let mut t = NotifState::default();
    assert!(t.step(9, 200, &p, -10).is_empty());
    assert_eq!(t.step(9, 283, &p, -10), vec![0]);
    // on a new day what has passed already is not announced
    let mut u = NotifState::default();
    assert!(u.step(10, 900, &p, 0).is_empty());
    assert_eq!(u.step(10, 940, &p, 0), vec![3]);
}

#[test]
fn plain_templates_expand_to_themselves() {
    let p = PrayerTimes::from_vec(vec![0, 0, 293, 365, 736, 932, 1098, 1171]);
    let mut c = Config::default();
    c.raw_output.custom_string = "no codes here".into();
    assert_eq!(p.format_custom_at(&c, 600), "no codes here");
}

#[test]
fn the_shown_day_moves_with_the_offset() {
    let mut app = AppState::default();
    assert_eq!(app.offset_day(738_000), Some(738_000));
    app.day_offset = -30;
    assert_eq!(app.offset_day(738_000), Some(737_970));
    app.day_offset = 10;
    assert_eq!(app.offset_day(i32::MAX - 5), None);
    app.day_offset = i64::MIN + 64;
    assert_eq!(app.offset_day(0), None);
}

#[test]
fn bare_codes_expand_to_the_times() {
    let p = PrayerTimes::from_vec(vec![0, 0, 293, 365, 736, 932, 1098, 1171]);
    let mut c = Config::default();
    c.raw_output.custom_string = "%f%s%d%a%m%i".into();
    assert_eq!(p.format_custom_at(&c, 600), p.format_time(&c).concat());
}

#[test]
fn raw_data_is_the_joined_list() {
    let p = PrayerTimes::from_vec(vec![77, 225, 293, 365, 736, 932, 1098, 1171]);
    let mut c = Config::default();
    c.raw_output.mode = salatui::conf::RawOutputMode::RawData;
    c.raw_output.raw_separator = ";".into();
    let mut list = p.format(&c);
    list.push("2".into());
    assert_eq!(p.output_format_at(&c, 600), list.join(";"));
}

#[test]
fn cycling_a_full_round_changes_nothing() {
    for (id, n) in [(FieldId::ProviderMethod, 12isize), (FieldId::RawMode, 6), (FieldId::Location, 4)] {
        let mut c = Config::default();
        let before = id.value_str(&c);
        id.cycle(&mut c, n);
        assert_eq!(id.value_str(&c), before);
    }
    let mut c = Config::default();
    FieldId::ProviderType.cycle(&mut c, 1);
    assert_eq!(c.provider, Config::default().provider);
}
