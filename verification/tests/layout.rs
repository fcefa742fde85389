use salatui::conf::{LocationDisplay, ProviderKind, TimeFormat, TimeIndicator};
use salatui::prayer::PrayerTimes;
use salatui::indicator::{
    IndicatorData, IndicatorMarker, Pair, AXIS, MARKER_CURRENT, MARKER_NEXT, MARKER_SINGLE,
};
use salatui::menu::{
    adjust_scroll, center_pad, field_row, location_line, location_parts, marker_line, menu_indicator,
    menu_row, menu_rows, popup_scroll, row_marker, CENSORED,
};
use salatui::settings::{fields_for, FieldId};
use salatui::state::{AppState, SettingsMode, SettingsState};
use salatui::ui_state::{centered_rect, in_rect, shrink, FooterSpan, Rect, Screen, UIState};

#[test]
fn rectangles() {
    let area = Rect { x: 0, y: 0, width: 100, height: 40 };
    assert_eq!(centered_rect(area, 60, 20), Rect { x: 20, y: 10, width: 60, height: 20 });
    // narrow percentages are widened to 24 columns, short areas cap the height
    let small = Rect { x: 2, y: 3, width: 30, height: 9 };
    assert_eq!(centered_rect(small, 10, 20), Rect { x: 5, y: 4, width: 24, height: 7 });
    // never fewer than 5 rows
    let flat = Rect { x: 0, y: 0, width: 40, height: 4 };
    assert_eq!(centered_rect(flat, 50, 20).height, 5);
    assert_eq!(shrink(Rect { x: 1, y: 1, width: 10, height: 5 }), Rect { x: 2, y: 2, width: 8, height: 3 });
    assert_eq!(shrink(Rect { x: u16::MAX, y: 0, width: 1, height: 0 }), Rect { x: u16::MAX, y: 1, width: 0, height: 0 });
    let r = Rect { x: 5, y: 5, width: 2, height: 2 };
    assert!(in_rect(5, 6, r));
    assert!(!in_rect(7, 6, r));
}

#[test]
fn footer_and_header() {
    let mut ui = UIState::default();
    ui.set_header("Salat");
    ui.set_footer(vec![["q", " quit"], ["c", " config"]]);
    ui.set_screen(Screen::Settings);
    assert_eq!(ui.get_header_line(), "Salat");
    assert_eq!(ui.main.screen, Screen::Settings);
    assert_eq!(
        ui.get_footer_line(),
        vec![
            FooterSpan::Key("q".into()),
            FooterSpan::Text(" quit".into()),
            FooterSpan::Separator,
            FooterSpan::Key("c".into()),
            FooterSpan::Text(" config".into()),
        ]
    );
    let r = Rect { x: 0, y: 1, width: 80, height: 20 };
    ui.set_screen_rect(r);
    assert_eq!(ui.get_screen_rect(), r);
}

#[test]
fn location_lines() {
    let mut app = AppState::default();
    app.config.calculation.location = "Makkah, Saudi Arabia".into();
    assert_eq!(location_parts(&app), ("Makkah".to_string(), "Saudi Arabia".to_string()));
    assert_eq!(location_line(&app), None);
    app.config.display.location = LocationDisplay::CityCountry;
    assert_eq!(location_line(&app).as_deref(), Some("Makkah, Saudi Arabia"));
    app.config.display.location = LocationDisplay::Country;
    assert_eq!(location_line(&app).as_deref(), Some("Saudi Arabia"));
    // a location without a country shows no stray comma
    app.config.calculation.location = "Kaaba".into();
    app.config.display.location = LocationDisplay::CityCountry;
    assert_eq!(location_line(&app).as_deref(), Some("Kaaba"));
    app.config.display.location = LocationDisplay::Country;
    assert_eq!(location_line(&app), None);
    app.config.provider = ProviderKind::SalatMv;
    app.config.display.location = LocationDisplay::CityCountry;
    assert_eq!(location_line(&app).as_deref(), Some("K. Male', Maldives"));
}

#[test]
fn menu_rows_and_markers() {
    assert_eq!(menu_row("Fajr", ":", "04:53"), "Fajr   : 04:53");
    assert_eq!(menu_row("Maghrib!", "|", "x"), "Maghrib!| x");
    let pair = IndicatorData {
        highlight: Some(1),
        marker: Some(IndicatorMarker::Pair(Pair { current: 1, next: 2 })),
    };
    assert_eq!(row_marker(1, &pair), Some(MARKER_CURRENT));
    assert_eq!(row_marker(2, &pair), Some(MARKER_NEXT));
    assert_eq!(row_marker(3, &pair), None);
    let single = IndicatorData { highlight: None, marker: Some(IndicatorMarker::Single(4)) };
    assert_eq!(row_marker(4, &single), Some(MARKER_SINGLE));
    assert_eq!(row_marker(4, &IndicatorData::default()), None);
    assert_eq!(marker_line("abcdef", "XY", 2), ("ab".to_string(), "ef".to_string()));
    assert_eq!(marker_line("abc", "XY", 5), ("abc".to_string(), "".to_string()));
    assert_eq!(center_pad(40, &vec![10, 22, 14]), 9);
    assert_eq!(center_pad(10, &vec![22]), 0);
    assert_eq!(center_pad(10, &vec![]), 5);
}

#[test]
fn field_rows() {
    let app = AppState::default();
    let provider = fields_for(0, &app.config);
    let display = fields_for(1, &app.config);
    // a choice
    assert_eq!(field_row(&provider[0], &app.config, false, &None), format!("{:<16}\u{2039} Calculation \u{203A}", "type"));
    // a censored coordinate, shown when selected
    assert_eq!(field_row(&provider[4], &app.config, false, &None), format!("{:<16}{CENSORED}", "latitude"));
    assert_eq!(field_row(&provider[4], &app.config, true, &None), format!("{:<16}21.4225", "latitude"));
    // a toggle
    assert_eq!(field_row(&display[4], &app.config, false, &None), format!("{:<16}[x]", "show seconds"));
    // the field being edited shows its buffer and a cursor
    let editing = Some((FieldId::ProviderLocation, "Mak".to_string()));
    assert_eq!(field_row(&provider[1], &app.config, true, &editing), format!("{:<16}Mak\u{2588}", "location"));
}

#[test]
fn scrolling_keeps_the_cursor_visible() {
    let mut s = SettingsState { category: 0, cursor: 7, offset: 0, mode: SettingsMode::Normal };
    adjust_scroll(&mut s, 10, 3);
    assert_eq!(s.offset, 5);
    s.cursor = 2;
    adjust_scroll(&mut s, 10, 3);
    assert_eq!(s.offset, 2);
    // the window never runs past the end of the list
    s.cursor = 0;
    s.offset = 9;
    adjust_scroll(&mut s, 4, 3);
    assert_eq!(s.offset, 0);
    assert_eq!(popup_scroll(12, 0, 5), 8);
    assert_eq!(popup_scroll(1, 4, 5), 1);
    assert_eq!(popup_scroll(3, 3, 0), 3);
}

#[test]
fn settings_rows_follow_the_cursor() {
    let mut app = AppState::default();
    app.settings.cursor = 9;
    let rows = app.settings_rows(3);
    // the cursor is pulled back onto the last field and the window shows it
    assert_eq!(app.settings.cursor, 5);
    assert_eq!(app.settings.offset, 3);
    assert_eq!(rows.len(), 3);
    assert_eq!(rows[2], (format!("{:<16}39.8262", "longitude"), true));
    assert_eq!(rows[0].1, false);
}

#[test]
fn menu_rows_and_indicator_of_the_day() {
    let p = PrayerTimes { index: 1, day: 2, fajr: 293, sun: 365, dhuhur: 736, asr: 932, magrib: 1098, isha: 1171 };
    let mut app = AppState::default();
    app.config.display.format = TimeFormat::TwentyFour;
    let rows = menu_rows(&p, &app.config);
    assert_eq!(rows[0], format!("Fajr   {} 04:53", AXIS));
    assert_eq!(rows[5], format!("Isha   {} 19:31", AXIS));
    app.config.display.indicator = TimeIndicator::Next;
    let rows = menu_rows(&p, &app.config);
    assert_eq!(rows[2], "Dhuhur : 12:16");
    // today the upcoming prayer is highlighted, other days show nothing
    let today = menu_indicator(&app.config, &p, 720, 0);
    assert_eq!(today.highlight, Some(2));
    let other = menu_indicator(&app.config, &p, 720, 1);
    assert_eq!(other, IndicatorData::default());
}

#[test]
fn footers_and_the_clock_minute() {
    assert_eq!(salatui::menu::menu_footer(), vec![["q", "uit"], ["c", "onfig"], ["f", "ullscreen"], ["Esc", "ape"]]);
    assert_eq!(salatui::menu::settings_footer(&SettingsMode::Normal).len(), 7);
    assert_eq!(salatui::menu::settings_footer(&SettingsMode::Normal)[1], ["\u{2191}\u{2193}", " select"]);
    let mut ui = UIState::default();
    ui.set_footer(salatui::menu::settings_footer(&SettingsMode::Normal));
    // seven distinct commands give 3 * 7 - 1 pieces
    assert_eq!(ui.get_footer_line().len(), 20);
    assert_eq!(salatui::clock::minute_of_day(13, 5), 785);
    assert_eq!(salatui::clock::minute_of_day(0, 0), 0);
    assert!(salatui::clock::local_now_minutes() < 1440);
}
