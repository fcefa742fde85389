use salatui::conf::{Config, DEFAULT_MV_ISLAND_KEY};
use salatui::data::{MVRawData, TimeSetData};
use salatui::input::{Key, Modifier};
use salatui::prayer::PrayerTime;
use salatui::settings::{fuzzy, FieldId, PopupKind};
use salatui::state::{apply_city, popup_entries, Action, AppState, Catalog, PopupEntry, SettingsMode};

fn city(name: &str, country: &str, lat: &str, lon: &str) -> [String; 4] {
    [name.to_string(), country.to_string(), lat.to_string(), lon.to_string()]
}

/// A small catalog standing in for the built-in city and island tables.
fn sample_catalog() -> Catalog {
    let cities = vec![
        city("London", "United Kingdom", "51.50853", "-0.12574"),
        city("Makkah", "Saudi Arabia", "21.42664", "39.82563"),
        city("Jeddah", "Saudi Arabia", "21.54238", "39.19797"),
        city("Oman", "Jordan", "31.95", "35.93"),
    ];
    let atoll = "0;Male;Maale;-\n1;K;Kaafu;-\n".to_string();
    let island = [
        "5;1;1;Male';Maale;-;x;4.1748;73.5089;y\n",
        "7;2;1;Hulhumale;Hulhumaale;-;x;4.2150;73.5400;y\n",
    ]
    .concat();
    let pt = "5;0;290;360;730;930;1090;1170\n7;0;291;361;731;931;1091;1171\n".to_string();
    Catalog { cities, mv: MVRawData::from(pt, atoll, island) }
}

#[test]
fn test_popup_filter() {
    let catalog = sample_catalog();
    assert_eq!(popup_entries(PopupKind::Location, "", &catalog).len(), catalog.cities.len());

    let hits = popup_entries(PopupKind::Location, "london", &catalog);
    assert!(!hits.is_empty());
    assert!(hits.iter().all(|e| matches!(
        e,
        PopupEntry::City(c)
            if fuzzy(&c[0], "london") || fuzzy(&c[1], "london")
    )));

    let saudi = popup_entries(PopupKind::Location, "saudi", &catalog);
    assert!(saudi.iter().all(|e| matches!(
        e,
        PopupEntry::City(c) if fuzzy(&c[0], "saudi") || fuzzy(&c[1], "saudi")
    )));
    assert!(saudi.iter().any(|e| matches!(
        e,
        PopupEntry::City(c) if c[1] == "Saudi Arabia"
    )));
    let makkah = popup_entries(PopupKind::Location, "makkah", &catalog);
    assert!(makkah.iter().any(|e| matches!(
        e,
        PopupEntry::City(c) if c[1] == "Saudi Arabia"
    )));

    assert!(popup_entries(PopupKind::Island, "anything", &catalog).is_empty());
}

#[test]
fn test_island_popup_entries() {
    let catalog = sample_catalog();
    let entries = popup_entries(PopupKind::Island, "", &catalog);
    assert_eq!(entries.len(), catalog.mv.island_keys().len());
    assert!(entries.iter().any(|e| matches!(
        e,
        PopupEntry::Island(key) if key == DEFAULT_MV_ISLAND_KEY
    )));
}

#[test]
fn test_apply_city() {
    let catalog = sample_catalog();
    let london = catalog
        .cities
        .iter()
        .find(|c| c[0] == "London" && c[1] == "United Kingdom")
        .expect("london should exist in the catalog")
        .clone();

    let mut config = Config::default();
    apply_city(&mut config, &london);
    assert_eq!(config.calculation.location, "London, United Kingdom");

    // the coordinates travel to the application in the picker's action
    let mut app = AppState { catalog, ..Default::default() };
    match app.apply_popup(PopupKind::Location, 0, 0, "london".to_string()) {
        Action::ApplyCity { latitude, longitude } => {
            assert_eq!(latitude.parse::<f64>().unwrap(), london[2].parse::<f64>().unwrap());
            assert_eq!(longitude.parse::<f64>().unwrap(), london[3].parse::<f64>().unwrap());
        }
        _ => panic!("expected the city's coordinates"),
    }
    assert_eq!(app.config.calculation.location, "London, United Kingdom");
}

fn press(app: &mut AppState, key: Key) -> Action {
    app.input_map.reset();
    app.input_map.set_input(key);
    app.input_map.set_modifier(Modifier::NoModifier);
    app.handle_settings_key()
}

#[test]
fn test_numeric_rejects() {
    // latitude: the editor hands the text out to be read as a number and
    // keeps editing when the number is refused
    let mut app = AppState::default();
    app.settings.cursor = 4;
    press(&mut app, Key::Enter);
    let typed = match press(&mut app, Key::Enter) {
        Action::CommitCoordinate { field, text } => {
            assert_eq!(field, FieldId::ProviderLatitude);
            text
        }
        _ => panic!("expected a coordinate to check"),
    };
    assert!(typed.trim().parse::<f64>().is_ok());
    app.coordinate_committed(FieldId::ProviderLatitude, "abc".into(), Err("invalid latitude".into()));
    assert!(matches!(app.settings.mode, SettingsMode::TextInput { field: FieldId::ProviderLatitude, .. }));
    app.coordinate_committed(FieldId::ProviderLatitude, "999".into(), Err("latitude out of range: 999".into()));
    assert!(matches!(app.settings.mode, SettingsMode::TextInput { .. }));
    let a = app.coordinate_committed(FieldId::ProviderLatitude, "21.4225".into(), Ok("21.4225".into()));
    assert!(matches!(a, Action::Changed { provider: true }));
    assert!((app.config.coordinates.latitude.parse::<f64>().unwrap() - 21.4225).abs() < f64::EPSILON);

    let mut config = Config::default();
    assert!(FieldId::NotifOffset.commit_text(&mut config, "").is_err());
    assert!(FieldId::NotifOffset.commit_text(&mut config, "-14").is_ok());
    assert_eq!(config.notifications.offset, -14);
    assert!(FieldId::NotifOffset.commit_text(&mut config, "99999999999").is_err());

    FieldId::NotifOffset.step(&mut config, 4);
    assert_eq!(config.notifications.offset, -10);
    FieldId::NotifOffset.step(&mut config, -20);
    assert_eq!(config.notifications.offset, -30);
}

#[test]
fn mod_test_prayertime() {
    let expected = PrayerTime { index: 77, day: 225, fajr: 293, sun: 365, dhuhur: 736, asr: 932, magrib: 1098, isha: 1171 };
    let result = PrayerTime::from_vec(vec![77, 225, 293, 365, 736, 932, 1098, 1171]);
    // a timeset with that row at day 225, standing in for a stored one
    let mut data = vec![vec![0u32; 8]; 366];
    data[225] = vec![77, 225, 293, 365, 736, 932, 1098, 1171];
    let timeset = TimeSetData { name: "GDh. Vilingili".into(), details: None, coordinates: ("0".into(), "0".into()), data };
    let row = timeset.data_from_day(225);
    let result2 = PrayerTime::from_vec(vec![row.index, row.day, row.fajr, row.sun, row.dhuhur, row.asr, row.magrib, row.isha]);
    assert_eq!(expected, result);
    assert_eq!(expected, result2);
}

#[test]
fn city_list_lines_become_cities() {
    let text = "London;United Kingdom;51.50853;-0.12574\nshort;line\nMakkah;Saudi Arabia;21.42664;39.82563;extra\n";
    let cities = salatui::state::city_rows(text);
    assert_eq!(cities.len(), 2);
    assert_eq!(cities[0], city("London", "United Kingdom", "51.50853", "-0.12574"));
    assert_eq!(cities[1], city("Makkah", "Saudi Arabia", "21.42664", "39.82563"));
    assert!(salatui::state::city_rows("").is_empty());
}
