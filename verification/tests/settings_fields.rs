use salatui::conf::{Config, LocationDisplay, Madhab, Method, ProviderKind, RawOutputMode, TimeFormat, TimeIndicator};
use salatui::settings::{fields_for, fuzzy, method_name, FieldId, FieldKind, PopupKind, CATEGORIES};

#[test]
fn test_fields_for_counts() {
    let config = Config::default();
    assert_eq!(fields_for(0, &config).len(), 6);
    assert_eq!(fields_for(1, &config).len(), 6);
    assert_eq!(fields_for(2, &config).len(), 2);
    assert_eq!(fields_for(3, &config).len(), 4);
    assert!(fields_for(4, &config).is_empty());

    let mv_config = Config {
        provider: ProviderKind::SalatMv,
        ..Config::default()
    };
    assert_eq!(fields_for(0, &mv_config).len(), 2);
}

#[test]
fn test_cycle_wraps() {
    let mut config = Config::default();

    FieldId::Indicator.cycle(&mut config, -1);
    assert_eq!(config.display.indicator, TimeIndicator::Current);
    for _ in 0..3 {
        FieldId::Indicator.cycle(&mut config, 1);
    }
    assert_eq!(config.display.indicator, TimeIndicator::Empty);

    FieldId::ProviderMadhab.cycle(&mut config, 1);
    assert_eq!(config.calculation.madhab, Madhab::Hanafi);
}

#[test]
fn test_steppable_flags() {
    assert!(FieldId::NotifOffset.steppable());
    assert!(!FieldId::ProviderLatitude.steppable());
    assert!(!FieldId::Indicator.steppable());
}

#[test]
fn test_censor_flags() {
    assert!(FieldId::ProviderLatitude.censored());
    assert!(FieldId::ProviderLongitude.censored());
    assert!(!FieldId::ProviderLocation.censored());
    assert!(!FieldId::NotifOffset.censored());
}

#[test]
fn test_pick_rows() {
    let config = Config::default();
    let rows = fields_for(0, &config);
    assert!(matches!(rows[1].kind, FieldKind::Pick(PopupKind::Location)));

    let mv_config = Config {
        provider: ProviderKind::SalatMv,
        ..Config::default()
    };
    let rows = fields_for(0, &mv_config);
    assert!(matches!(rows[1].kind, FieldKind::Pick(PopupKind::Island)));
}

#[test]
fn test_fuzzy_matcher() {
    // subsequence: chars in order
    assert!(fuzzy("Male'", "ml'"));
    assert!(fuzzy("Makkah", "mkh"));
    assert!(fuzzy("Saudi Arabia", "saudiarabia"));
    assert!(fuzzy("London", "LON"));
    // order matters
    assert!(!fuzzy("Oman", "am"));
    // missing char fails
    assert!(!fuzzy("Male'", "malex"));
}

// ----- further cases -----

#[test]
fn offset_commit_and_step() {
    let mut config = Config::default();
    assert!(FieldId::NotifOffset.commit_text(&mut config, "").is_err());
    assert_eq!(
        FieldId::NotifOffset.commit_text(&mut config, "").unwrap_err(),
        "invalid offset: cannot parse integer from empty string"
    );
    assert!(FieldId::NotifOffset.commit_text(&mut config, "-14").is_ok());
    assert_eq!(config.notifications.offset, -14);
    assert_eq!(
        FieldId::NotifOffset.commit_text(&mut config, "99999999999").unwrap_err(),
        "invalid offset: number too large to fit in target type"
    );
    assert_eq!(
        FieldId::NotifOffset.commit_text(&mut config, "1x").unwrap_err(),
        "invalid offset: invalid digit found in string"
    );
    assert_eq!(config.notifications.offset, -14);
    assert!(FieldId::NotifOffset.commit_text(&mut config, "  +7 ").is_ok());
    assert_eq!(config.notifications.offset, 7);

    config.notifications.offset = -14;
    FieldId::NotifOffset.step(&mut config, 4);
    assert_eq!(config.notifications.offset, -10);
    FieldId::NotifOffset.step(&mut config, -20);
    assert_eq!(config.notifications.offset, -30);
    config.notifications.offset = i32::MAX - 1;
    FieldId::NotifOffset.step(&mut config, 10);
    assert_eq!(config.notifications.offset, i32::MAX);
}

#[test]
fn text_fields_take_text_as_is() {
    let mut config = Config::default();
    assert!(FieldId::RawSeparator.commit_text(&mut config, " | ").is_ok());
    assert_eq!(config.raw_output.raw_separator, " | ");
    assert!(FieldId::ProviderLocation.commit_text(&mut config, "Male', Maldives").is_ok());
    assert_eq!(config.calculation.location, "Male', Maldives");
    assert_eq!(
        FieldId::Seconds.commit_text(&mut config, "x").unwrap_err(),
        "field is not editable as text"
    );
}

#[test]
fn values_and_cycles() {
    let mut config = Config::default();
    assert_eq!(FieldId::ProviderType.value_str(&config), "Calculation");
    assert_eq!(FieldId::ProviderMethod.value_str(&config), "MuslimWorldLeague");
    assert_eq!(FieldId::ProviderMadhab.value_str(&config), "Shafi");
    assert_eq!(FieldId::TimeFormat.value_str(&config), "Twelve");
    assert_eq!(FieldId::Seconds.value_str(&config), "true");
    assert_eq!(FieldId::NotifOffset.value_str(&config), "0");
    assert_eq!(FieldId::RawMode.value_str(&config), "PrettyJson");
    assert_eq!(FieldId::ProviderLatitude.value_str(&config), "21.4225");

    FieldId::ProviderMethod.cycle(&mut config, -1);
    assert_eq!(config.calculation.method, Method::Turkey);
    assert_eq!(method_name(&config.calculation.method), "Turkey");
    FieldId::ProviderMethod.cycle(&mut config, 13);
    assert_eq!(config.calculation.method, Method::MuslimWorldLeague);
    FieldId::RawMode.cycle(&mut config, 3);
    assert_eq!(config.raw_output.mode, RawOutputMode::TOML);
    FieldId::TimeFormat.cycle(&mut config, 2);
    assert_eq!(config.display.format, TimeFormat::Minutes);
    FieldId::Location.cycle(&mut config, -1);
    assert_eq!(config.display.location, LocationDisplay::CityCountry);
    // the provider type does not cycle here
    FieldId::ProviderType.cycle(&mut config, 1);
    assert_eq!(config.provider, ProviderKind::Calculation);

    FieldId::Fullscreen.toggle(&mut config);
    assert!(config.display.fullscreen);
    FieldId::Fullscreen.toggle(&mut config);
    assert!(!config.display.fullscreen);
    assert_eq!(FieldId::ProviderMethod.options_len(), Some(12));
    assert_eq!(FieldId::RawSeparator.options_len(), None);
    assert!(FieldId::Island.is_provider());
    assert!(!FieldId::RawPool.is_provider());
    assert_eq!(CATEGORIES.len(), 4);
}

#[test]
fn cycling_back_restores() {
    let mut config = Config::default();
    FieldId::Indicator.cycle(&mut config, 7);
    FieldId::Indicator.cycle(&mut config, -7);
    assert_eq!(config.display.indicator, TimeIndicator::Inbetween);
}
