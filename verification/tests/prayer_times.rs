use salatui::conf::{Config, ProviderKind, RawOutputMode, TimeFormat, DEFAULT_MV_ISLAND_KEY};
use salatui::notif::{due_notifications, NotifState};
use salatui::prayer::{apply_suffix, format_minute, hour_12, to_json, to_time, PrayerTime, PrayerTimes};

fn sample() -> PrayerTimes {
    PrayerTimes { index: 77, day: 225, fajr: 293, sun: 365, dhuhur: 736, asr: 932, magrib: 1098, isha: 1171 }
}

#[test]
fn structs_test_format() {
    let value = PrayerTimes { index: 77, day: 225, fajr: 293, sun: 365, dhuhur: 736, asr: 932, magrib: 1098, isha: 1171 };
    let mut config = Config::default();

    config.display.format = TimeFormat::Twelve;
    let expected: Vec<String> = vec!["77", "225", "04:53 AM", "06:05 AM", "12:16 PM", "03:32 PM", "06:18 PM", "07:31 PM"]
        .into_iter().map(|x| x.to_owned()).collect();
    let result = value.format(&config);

    config.display.format = TimeFormat::TwentyFour;
    let expected2: Vec<String> = vec!["77", "225", "04:53", "06:05", "12:16", "15:32", "18:18", "19:31"]
        .into_iter().map(|x| x.to_owned()).collect();
    let result2 = value.format(&config);

    assert_eq!(expected, result);
    assert_eq!(expected2, result2);
}

#[test]
fn test_custom_format_default_string() {
    let value = PrayerTimes { index: 77, day: 225, fajr: 293, sun: 365, dhuhur: 736, asr: 932, magrib: 1098, isha: 1171 };
    let mut config = Config::default();
    config.display.format = TimeFormat::Twelve;
    config.raw_output.mode = RawOutputMode::Custom;
    config.raw_output.custom_string = "[%fh:mp, %sh:mp, %dh:mp, %ah:mp, %mh:mp, %ih:mp]".into();
    assert_eq!(
        value.output_format(&config),
        "[04:53 AM, 06:05 AM, 12:16 PM, 03:32 PM, 06:18 PM, 07:31 PM]"
    );
}

#[test]
fn test_custom_format_tokens() {
    let value = PrayerTimes { index: 77, day: 225, fajr: 293, sun: 365, dhuhur: 736, asr: 932, magrib: 1098, isha: 1171 };
    let mut config = Config::default();
    config.display.format = TimeFormat::TwentyFour;
    config.raw_output.mode = RawOutputMode::Custom;

    config.raw_output.custom_string = "%e-%y %fM %st %m".into();
    assert_eq!(value.output_format(&config), "77-225 293 06:05 18:18");

    config.raw_output.custom_string = "at %sh:m and %dH".into();
    assert_eq!(value.output_format(&config), "at 06:05 and 12");

    config.raw_output.custom_string = "%dH:%dm:%dp".into();
    config.display.format = TimeFormat::Minutes;
    assert_eq!(value.output_format(&config), "12:16: PM");
}

#[test]
fn test_toml_mode() {
    let value = PrayerTimes { index: 77, day: 225, fajr: 293, sun: 365, dhuhur: 736, asr: 932, magrib: 1098, isha: 1171 };
    let mut config = Config::default();
    config.display.format = TimeFormat::TwentyFour;
    config.raw_output.mode = RawOutputMode::TOML;

    let out = value.output_format(&config);
    let mut lines = out.lines();
    assert_eq!(lines.next(), Some("index = 77"));
    assert_eq!(lines.next(), Some("day = 225"));
    assert_eq!(lines.next(), Some("fajr = \"04:53\""));
    assert_eq!(lines.next(), Some("sun = \"06:05\""));
    assert_eq!(lines.next(), Some("dhuhur = \"12:16\""));
    assert_eq!(lines.next(), Some("asr = \"15:32\""));
    assert_eq!(lines.next(), Some("magrib = \"18:18\""));
    assert_eq!(lines.next(), Some("isha = \"19:31\""));
    assert!(lines.next().unwrap().starts_with("current = "));
}

#[test]
fn test_toml_minutes_format() {
    let value = PrayerTimes { index: 77, day: 225, fajr: 293, sun: 365, dhuhur: 736, asr: 932, magrib: 1098, isha: 1171 };
    let mut config = Config::default();
    config.display.format = TimeFormat::Minutes;
    config.raw_output.mode = RawOutputMode::TOML;

    let out = value.output_format(&config);
    assert!(out.contains("fajr = \"293\""));
    assert!(out.contains("isha = \"1171\""));
}

#[test]
fn test_due_notifications() {
    let times = [293u32, 365, 736, 932, 1098, 1171];
    let targets = |offset: i64| [
        times[0] as i64 + offset, times[1] as i64 + offset, times[2] as i64 + offset,
        times[3] as i64 + offset, times[4] as i64 + offset, times[5] as i64 + offset,
    ];

    assert_eq!(due_notifications(800, targets(0), [false; 6]), vec![0, 1, 2]);
    assert_eq!(due_notifications(800, targets(0), [true, false, false, false, false, false]), vec![1, 2]);
    assert_eq!(due_notifications(290, targets(-10), [false; 6]), vec![0]);
    assert_eq!(due_notifications(290, targets(0), [false; 6]), Vec::<usize>::new());
    assert_eq!(due_notifications(1300, targets(0), [false; 6]), vec![0, 1, 2, 3, 4, 5]);
}

#[test]
fn structs_test_prayertime() {
    let expected = PrayerTimes { index: 77, day: 225, fajr: 293, sun: 365, dhuhur: 736, asr: 932, magrib: 1098, isha: 1171 };
    let result = PrayerTimes::from_vec(vec![77, 225, 293, 365, 736, 932, 1098, 1171]);
    assert_eq!(expected, result);
}

#[test]
fn test_config_defaults() {
    let config = Config::default();
    assert!(config.display.seconds);
    assert_eq!(config.provider, ProviderKind::Calculation);
    assert_eq!(config.salatmv.island, DEFAULT_MV_ISLAND_KEY);
}

#[test]
fn mod_test_format() {
    let value = PrayerTime { index: 77, day: 225, fajr: 293, sun: 365, dhuhur: 736, asr: 932, magrib: 1098, isha: 1171 };
    let mut config = Config::default();

    config.display.format = TimeFormat::Twelve;
    let expected: Vec<String> = vec!["77", "225", " 4:53 AM", " 6:05 AM", "12:16 PM", " 3:32 PM", " 6:18 PM", " 7:31 PM"]
        .into_iter().map(|x| x.to_owned()).collect();
    let result = value.format(&config);

    config.display.format = TimeFormat::TwentyFour;
    let expected2: Vec<String> = vec!["77", "225", " 4:53", " 6:05", "12:16", "15:32", "18:18", "19:31"]
        .into_iter().map(|x| x.to_owned()).collect();
    let result2 = value.format(&config);

    assert_eq!(result, expected);
    assert_eq!(result2, expected2);
}

// ----- further cases -----

#[test]
fn twelve_hour_clock_edges() {
    let mut config = Config::default();
    config.display.format = TimeFormat::Twelve;
    assert_eq!(format_minute(0, &config), "00:00 AM");
    assert_eq!(format_minute(12 * 60 + 5, &config), "12:05 PM");
    assert_eq!(format_minute(11 * 60 + 59, &config), "11:59 AM");
    assert_eq!(format_minute(23 * 60 + 59, &config), "11:59 PM");
    assert_eq!(hour_12(13 * 60), 1);
    assert_eq!(to_time(&125), (2, 5));
}

#[test]
fn current_index_picks_first_later_prayer() {
    let p = sample();
    assert_eq!(p.current_index_at(800), 3);
    assert_eq!(p.current_index_at(100), 0);
    assert_eq!(p.current_index_at(1300), 0);
    assert_eq!(p.current_index_at(736), 3);
    assert_eq!(p.current_index_at(735), 2);
    assert!(p.get_current_index() < 6);
}

#[test]
fn output_modes_at_fixed_minute() {
    let p = sample();
    let mut config = Config::default();
    config.display.format = TimeFormat::TwentyFour;
    config.raw_output.mode = RawOutputMode::Array;
    assert_eq!(
        p.output_format_at(&config, 800),
        "[\"77\", \"225\", \"04:53\", \"06:05\", \"12:16\", \"15:32\", \"18:18\", \"19:31\", \"3\"]"
    );
    config.raw_output.mode = RawOutputMode::Json;
    assert_eq!(
        p.output_format_at(&config, 800),
        "{\"index\":\"77\",\"day\":\"225\",\"fajr\":\"04:53\",\"sun\":\"06:05\",\"dhuhur\":\"12:16\",\"asr\":\"15:32\",\"magrib\":\"18:18\",\"isha\":\"19:31\",\"current\":\"3\"}"
    );
    config.raw_output.mode = RawOutputMode::PrettyJson;
    assert_eq!(
        p.output_format_at(&config, 800),
        "{\n  \"index\":\"77\",\n  \"day\":\"225\",\n  \"fajr\":\"04:53\",\n  \"sun\":\"06:05\",\n  \"dhuhur\":\"12:16\",\n  \"asr\":\"15:32\",\n  \"magrib\":\"18:18\",\n  \"isha\":\"19:31\",\n  \"current\":\"3\"\n}"
    );
    config.raw_output.mode = RawOutputMode::RawData;
    config.raw_output.raw_separator = ";".into();
    assert_eq!(p.output_format_at(&config, 800), "77;225;04:53;06:05;12:16;15:32;18:18;19:31;3");
    config.raw_output.mode = RawOutputMode::TOML;
    assert!(p.output_format_at(&config, 800).ends_with("current = 3"));
}

#[test]
fn raw_data_skips_separator_after_items_equal_to_last() {
    let p = PrayerTimes { index: 3, day: 1, fajr: 293, sun: 365, dhuhur: 736, asr: 932, magrib: 1098, isha: 1171 };
    let mut config = Config::default();
    config.display.format = TimeFormat::Minutes;
    config.raw_output.mode = RawOutputMode::RawData;
    config.raw_output.raw_separator = ",".into();
    assert_eq!(p.output_format_at(&config, 800), "31,293,365,736,932,1098,1171,3");
}

#[test]
fn custom_template_edge_cases() {
    let p = sample();
    let mut config = Config::default();
    config.display.format = TimeFormat::TwentyFour;
    config.raw_output.custom_string = "100%".into();
    assert_eq!(p.format_custom_at(&config, 800), "100%");
    config.raw_output.custom_string = "%x%f".into();
    assert_eq!(p.format_custom_at(&config, 800), "%x04:53");
    config.raw_output.custom_string = "now %c!".into();
    assert_eq!(p.format_custom_at(&config, 800), "now 3!");
    config.raw_output.custom_string = "no codes".into();
    assert_eq!(p.format_custom_at(&config, 800), "no codes");
    assert_eq!(apply_suffix(736, "hzH", &config), "12z12");
    assert_eq!(apply_suffix(736, "", &config), "12:16");
}

#[test]
fn json_needs_nine_members() {
    let items: Vec<String> = (0..9).map(|i| i.to_string()).collect();
    assert_eq!(
        to_json(items, false),
        "{\"index\":\"0\",\"day\":\"1\",\"fajr\":\"2\",\"sun\":\"3\",\"dhuhur\":\"4\",\"asr\":\"5\",\"magrib\":\"6\",\"isha\":\"7\",\"current\":\"8\"}"
    );
}

#[test]
fn notifications_fire_once_per_day() {
    let p = sample();
    let mut state = NotifState::default();
    // first sight of the day: already-passed prayers are marked, nothing sent
    assert!(state.step(10, 800, &p, 0).is_empty());
    assert_eq!(state.fired, [true, true, true, false, false, false]);
    // Asr reached
    assert_eq!(state.step(10, 932, &p, 0), vec![3]);
    // same minute again: nothing new
    assert!(state.step(10, 933, &p, 0).is_empty());
    // early reminder: Magrib with -10 minutes
    assert_eq!(state.step(10, 1088, &p, -10), vec![4]);
    // next day restarts
    assert!(state.step(11, 100, &p, 0).is_empty());
    assert_eq!(state.fired, [false; 6]);
    assert_eq!(state.step(11, 300, &p, 0), vec![0]);
}
