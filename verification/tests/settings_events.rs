use salatui::conf::ProviderKind;
use salatui::input::{Key, Modifier};
use salatui::settings::{fields_for, FieldId, PopupKind};
use salatui::state::{
    Action, AppState, InputOutcome, MouseButton, MouseEvent, MouseEventKind, SettingsMode,
};
use salatui::ui_state::{row_in_rect, Rect, Screen};

fn panes(app: &mut AppState) {
    app.ui_mouse.settings_panes = [
        Rect { x: 0, y: 1, width: 20, height: 20 },
        Rect { x: 21, y: 1, width: 50, height: 20 },
    ];
}

fn city(name: &str, country: &str, lat: &str, lon: &str) -> [String; 4] {
    [name.to_string(), country.to_string(), lat.to_string(), lon.to_string()]
}

#[test]
fn row_in_rect_boundaries() {
    let area = Rect { x: 10, y: 5, width: 20, height: 8 };
    // horizontally outside
    assert_eq!(row_in_rect(9, 6, area), None);
    assert_eq!(row_in_rect(30, 6, area), None);
    // borders excluded
    assert_eq!(row_in_rect(11, 5, area), None);
    assert_eq!(row_in_rect(11, 12, area), None); // bottom border
    assert_eq!(row_in_rect(11, 13, area), None); // beyond
    // content rows
    assert_eq!(row_in_rect(11, 6, area), Some(0));
    assert_eq!(row_in_rect(11, 9, area), Some(3));
}

#[test]
fn click_below_fields_selects_nothing() {
    let mut app = AppState::default();
    panes(&mut app);
    app.settings.category = 0;
    let len = fields_for(0, &app.config).len();
    // map a click far below the last visible row
    let y = app.ui_mouse.settings_panes[1].y + 1 + len as u16 + 20;
    app.handle_settings_click(30, y);
    assert_eq!(app.settings.cursor, 0);
    assert_eq!(app.settings.mode, SettingsMode::Normal);
}

#[test]
fn fields_rect_offset_maps_rows() {
    let mut app = AppState::default();
    app.ui_mouse.settings_panes = [
        Rect { x: 0, y: 1, width: 20, height: 20 },
        Rect { x: 21, y: 6, width: 50, height: 20 },
    ];
    // simulate a 3-row title + message shifting the fields list down
    app.settings.category = 0;
    // click the first actual field row (index 0 = "type")
    app.handle_settings_click(40, 7);
    assert_eq!(app.settings.cursor, 0);
}

#[test]
fn edit_mode_exits_on_outside_click() {
    let mut app = AppState::default();
    panes(&mut app);
    app.settings.mode = SettingsMode::TextInput {
        field: FieldId::RawCustomString,
        buffer: "x".into(),
    };
    // click on the sections pane (outside the field list)
    app.handle_settings_click(5, 2);
    assert_eq!(app.settings.mode, SettingsMode::Normal);
}

#[test]
fn edit_mode_kept_on_same_field_click() {
    let mut app = AppState::default();
    panes(&mut app);
    app.settings.category = 0;
    let index = app.settings.cursor;
    let id = fields_for(0, &app.config)[index].id;
    app.settings.mode = SettingsMode::TextInput {
        field: id,
        buffer: "35.5".into(),
    };
    // click back on the same field row
    let y = app.ui_mouse.settings_panes[1].y + 1 + index as u16;
    app.handle_settings_click(40, y);
    assert!(matches!(app.settings.mode, SettingsMode::TextInput { .. }));
}

#[test]
fn picker_wheel_scrolls() {
    let mut app = AppState::default();
    app.catalog.cities = vec![
        city("London", "United Kingdom", "51.50853", "-0.12574"),
        city("Makkah", "Saudi Arabia", "21.42664", "39.82563"),
    ];
    app.open_picker(PopupKind::Location);
    app.settings_scroll(1);
    let SettingsMode::Popup { cursor, offset, .. } = &app.settings.mode else {
        panic!("expected popup");
    };
    assert_eq!((*cursor, *offset), (1, 0));
    app.settings_scroll(-1);
    app.settings_scroll(-1);
    let SettingsMode::Popup { cursor, .. } = &app.settings.mode else {
        panic!("expected popup");
    };
    assert_eq!(*cursor, 0);
}

#[test]
fn right_click_selects_then_reverses() {
    let mut app = AppState::default();
    panes(&mut app);
    app.settings.category = 0;
    // madhab is field index 3
    let y = app.ui_mouse.settings_panes[1].y + 1 + 3;
    let before = app.config.calculation.madhab;
    // right-click on an unselected field only selects it
    app.handle_settings_right_click(40, y);
    assert_eq!(app.settings.cursor, 3);
    assert_eq!(app.config.calculation.madhab, before);
    // right-click on the now-selected field reverses the cycle
    app.handle_settings_right_click(40, y);
    // a backward step from before cycles to the other variant, and
    // stepping forward again restores it (2-variant madhab)
    let after = app.config.calculation.madhab;
    assert_ne!(after, before);
    FieldId::ProviderMadhab.cycle(&mut app.config, 1);
    assert_eq!(app.config.calculation.madhab, before);
}

#[test]
fn right_click_selects_unhighlighted_non_cycle() {
    let mut app = AppState::default();
    panes(&mut app);
    app.settings.category = 0;
    // latitude is a text field (index 4)
    let y = app.ui_mouse.settings_panes[1].y + 1 + 4;
    let lat_before = app.config.coordinates.latitude.clone();
    app.handle_settings_right_click(40, y);
    // select-only: cursor moves, nothing edits
    assert_eq!(app.settings.cursor, 4);
    assert_eq!(app.config.coordinates.latitude, lat_before);
    assert_eq!(app.settings.mode, SettingsMode::Normal);
    // right-click on the already-selected (non-cycle) field is a no-op
    app.handle_settings_right_click(40, y);
    assert_eq!(app.settings.cursor, 4);
    assert_eq!(app.config.coordinates.latitude, lat_before);
    assert_eq!(app.settings.mode, SettingsMode::Normal);
}

#[test]
fn click_twice_activates_cycle() {
    let mut app = AppState::default();
    panes(&mut app);
    app.settings.category = 0;
    // method is a cycle field (index 2)
    let y = app.ui_mouse.settings_panes[1].y + 1 + 2;
    let before = app.config.calculation.method;
    // first click selects only
    app.handle_settings_click(40, y);
    assert_eq!(app.settings.cursor, 2);
    assert_eq!(app.config.calculation.method, before);
    // clicking the already-selected field activates (cycles forward)
    app.handle_settings_click(40, y);
    assert_ne!(app.config.calculation.method, before);
}

#[test]
fn click_twice_edits_text() {
    let mut app = AppState::default();
    panes(&mut app);
    app.settings.category = 0;
    // latitude is a text field (index 4)
    let y = app.ui_mouse.settings_panes[1].y + 1 + 4;
    app.handle_settings_click(40, y);
    assert!(matches!(app.settings.mode, SettingsMode::Normal));
    app.handle_settings_click(40, y);
    assert!(matches!(app.settings.mode, SettingsMode::TextInput { .. }));
}

#[test]
fn menu_right_click_opens_config() {
    let mut app = AppState::default();
    app.screen = Screen::Menu;
    app.handle_mouse_event(MouseEvent {
        kind: MouseEventKind::Down(MouseButton::Right),
        column: 10,
        row: 10,
        modifiers: Modifier::NoModifier,
    });
    assert_eq!(app.screen, Screen::Settings);
}

#[test]
fn settings_right_click_empty_goes_back() {
    let mut app = AppState::default();
    app.screen = Screen::Settings;
    panes(&mut app);
    // click the title/border area (above the field list)
    app.handle_mouse_event(MouseEvent {
        kind: MouseEventKind::Down(MouseButton::Right),
        column: 30,
        row: 1,
        modifiers: Modifier::NoModifier,
    });
    assert_eq!(app.screen, Screen::Menu);
}

#[test]
fn settings_right_click_empty_space_below_fields_goes_back() {
    let mut app = AppState::default();
    app.screen = Screen::Settings;
    app.ui_mouse.settings_panes = [
        Rect { x: 0, y: 1, width: 20, height: 30 },
        Rect { x: 21, y: 1, width: 50, height: 30 },
    ];
    app.settings.category = 0;
    let len = fields_for(0, &app.config).len();
    // right-click well below the last field, still inside the fields pane
    let y = app.ui_mouse.settings_panes[1].y + 1 + len as u16 + 15;
    app.handle_mouse_event(MouseEvent {
        kind: MouseEventKind::Down(MouseButton::Right),
        column: 50,
        row: y,
        modifiers: Modifier::NoModifier,
    });
    assert_eq!(app.screen, Screen::Menu);
}

#[test]
fn settings_right_click_on_button_is_noop() {
    let mut app = AppState::default();
    app.screen = Screen::Settings;
    panes(&mut app);
    app.settings.category = 0;
    // right-click a section row -> no-op (stays in settings)
    app.handle_mouse_event(MouseEvent {
        kind: MouseEventKind::Down(MouseButton::Right),
        column: 10,
        row: 4,
        modifiers: Modifier::NoModifier,
    });
    assert_eq!(app.screen, Screen::Settings);
}

// ----- further cases -----

fn press(app: &mut AppState, key: Key, modifier: Modifier, raw: Option<char>) -> Action {
    app.input_map.reset();
    app.input_map.set_input(key);
    app.input_map.set_modifier(modifier);
    app.input_map.set_raw_char(raw);
    app.handle_settings_key()
}

#[test]
fn keys_walk_sections_and_fields() {
    let mut app = AppState::default();
    app.screen = Screen::Settings;
    press(&mut app, Key::Next, Modifier::NoModifier, None);
    assert_eq!(app.settings.category, 1);
    press(&mut app, Key::Prev, Modifier::NoModifier, None);
    press(&mut app, Key::Prev, Modifier::NoModifier, None);
    assert_eq!(app.settings.category, 3);
    press(&mut app, Key::Down, Modifier::NoModifier, None);
    press(&mut app, Key::Down, Modifier::NoModifier, None);
    press(&mut app, Key::Down, Modifier::NoModifier, None);
    press(&mut app, Key::Down, Modifier::NoModifier, None);
    assert_eq!(app.settings.cursor, 3);
    press(&mut app, Key::Up, Modifier::NoModifier, None);
    assert_eq!(app.settings.cursor, 2);
    press(&mut app, Key::Escape, Modifier::NoModifier, None);
    assert_eq!(app.screen, Screen::Menu);
}

#[test]
fn editing_the_offset_by_keys() {
    let mut app = AppState::default();
    app.settings.category = 2;
    app.settings.cursor = 1;
    let a = press(&mut app, Key::Right, Modifier::Shift, None);
    assert!(matches!(a, Action::Changed { provider: false }));
    assert_eq!(app.config.notifications.offset, 10);
    press(&mut app, Key::Enter, Modifier::NoModifier, None);
    assert_eq!(app.settings.mode, SettingsMode::TextInput { field: FieldId::NotifOffset, buffer: "10".into() });
    press(&mut app, Key::Backspace, Modifier::NoModifier, None);
    press(&mut app, Key::Command('x'), Modifier::NoModifier, Some('x'));
    let a = press(&mut app, Key::Enter, Modifier::NoModifier, None);
    assert!(matches!(a, Action::Nothing));
    assert_eq!(app.message.as_deref(), Some("invalid offset: invalid digit found in string"));
    assert_eq!(app.settings.mode, SettingsMode::TextInput { field: FieldId::NotifOffset, buffer: "1x".into() });
    press(&mut app, Key::Backspace, Modifier::NoModifier, None);
    press(&mut app, Key::Command('5'), Modifier::NoModifier, Some('5'));
    let a = press(&mut app, Key::Enter, Modifier::NoModifier, None);
    assert!(matches!(a, Action::Changed { provider: false }));
    assert_eq!(app.config.notifications.offset, 15);
    assert_eq!(app.message, None);
    assert_eq!(app.settings.mode, SettingsMode::Normal);
}

#[test]
fn coordinates_are_handed_out_and_reported_back() {
    let mut app = AppState::default();
    app.settings.cursor = 4;
    press(&mut app, Key::Enter, Modifier::NoModifier, None);
    let a = press(&mut app, Key::Enter, Modifier::NoModifier, None);
    match a {
        Action::CommitCoordinate { field, text } => {
            assert_eq!(field, FieldId::ProviderLatitude);
            assert_eq!(text, "21.4225");
        }
        _ => panic!("expected a coordinate to check"),
    }
    let a = app.coordinate_committed(FieldId::ProviderLatitude, "91".into(), Err("latitude out of range: 91".into()));
    assert!(matches!(a, Action::Nothing));
    assert_eq!(app.settings.mode, SettingsMode::TextInput { field: FieldId::ProviderLatitude, buffer: "91".into() });
    let a = app.coordinate_committed(FieldId::ProviderLatitude, "4.17".into(), Ok("4.17".into()));
    assert!(matches!(a, Action::Changed { provider: true }));
    assert_eq!(app.config.coordinates.latitude, "4.17");
}

#[test]
fn switching_provider_type_keeps_cursor_in_range() {
    let mut app = AppState::default();
    app.settings.cursor = 0;
    let a = press(&mut app, Key::Right, Modifier::NoModifier, None);
    assert!(matches!(a, Action::Changed { provider: true }));
    assert_eq!(app.config.provider, ProviderKind::SalatMv);
    app.settings.cursor = 5;
    app.switch_provider_type();
    assert_eq!(app.config.provider, ProviderKind::Calculation);
    assert_eq!(app.settings.cursor, 5);
    app.switch_provider_type();
    assert_eq!(app.settings.cursor, 1);
}

#[test]
fn picking_a_city_sets_location_and_hands_out_coordinates() {
    let mut app = AppState::default();
    app.catalog.cities = vec![
        city("London", "United Kingdom", "51.50853", "-0.12574"),
        city("Makkah", "Saudi Arabia", "21.42664", "39.82563"),
    ];
    app.settings.cursor = 1;
    press(&mut app, Key::Enter, Modifier::NoModifier, None);
    assert!(matches!(app.settings.mode, SettingsMode::Popup { kind: PopupKind::Location, .. }));
    press(&mut app, Key::Command('m'), Modifier::NoModifier, Some('m'));
    press(&mut app, Key::Command('k'), Modifier::NoModifier, Some('k'));
    let a = press(&mut app, Key::Enter, Modifier::NoModifier, None);
    match a {
        Action::ApplyCity { latitude, longitude } => {
            assert_eq!(latitude, "21.42664");
            assert_eq!(longitude, "39.82563");
        }
        _ => panic!("expected a city"),
    }
    assert_eq!(app.config.calculation.location, "Makkah, Saudi Arabia");
    assert_eq!(app.settings.mode, SettingsMode::Normal);
}

#[test]
fn event_loop_keys() {
    let mut app = AppState::default();
    app.input_map.set_input(Key::Right);
    app.input_map.set_modifier(Modifier::Shift);
    assert!(matches!(app.handle_input(), InputOutcome::Continue(Action::Nothing)));
    assert_eq!(app.day_offset, 30);
    app.input_map.reset();
    app.input_map.set_input(Key::Left);
    app.handle_input();
    assert_eq!(app.day_offset, 29);
    app.input_map.set_input(Key::Escape);
    app.handle_input();
    assert_eq!(app.day_offset, 0);
    app.input_map.set_input(Key::Command('f'));
    app.handle_input();
    assert!(app.fullscreen);
    app.input_map.set_input(Key::Config);
    app.handle_input();
    assert_eq!(app.screen, Screen::Settings);
    app.input_map.set_input(Key::Command('q'));
    assert!(matches!(app.handle_input(), InputOutcome::Quit));
    // typing 'q' into a text field does not quit
    app.settings.category = 3;
    app.settings.cursor = 2;
    app.input_map.set_input(Key::Enter);
    app.handle_input();
    app.input_map.set_input(Key::Command('q'));
    app.input_map.set_raw_char(Some('q'));
    assert!(matches!(app.handle_input(), InputOutcome::Continue(_)));
    assert_eq!(app.settings.mode, SettingsMode::TextInput { field: FieldId::RawSeparator, buffer: "\nq".into() });
}

#[test]
fn notifications_respect_enabled_flag() {
    let mut app = AppState::default();
    let p = salatui::prayer::PrayerTimes::from_vec(vec![0, 0, 293, 365, 736, 932, 1098, 1171]);
    assert!(app.check_notifications(5, 700, &p).is_empty());
    assert_eq!(app.check_notifications(5, 740, &p), vec![2]);
    app.config.notifications.enabled = false;
    assert!(app.check_notifications(5, 940, &p).is_empty());
    assert!(!app.notif.fired[3]);
}
