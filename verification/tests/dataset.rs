use salatui::conf::{Config, Madhab, Method, ProviderKind};
use salatui::data::{table, MVRawData, TimeSetData};
use salatui::provider::{plan_provider, ProviderPlan};

fn sample_data() -> MVRawData {
    let atoll = "0;Male;Maale;-\n1;K;Kaafu;-\n".to_string();
    let island = [
        "5;1;1;Male';Maale;-;x;4.1748;73.5089;y\n",
        "7;2;1;Hulhumale;Hulhumaale;-;x;4.2150;73.5400;y\n",
    ]
    .concat();
    let pt = [
        "5;0;290;360;730;930;1090;1170\n",
        "7;0;291;361;731;931;1091;1171\n",
        "5;1;292;362;732;932;1092;abc\n",
    ]
    .concat();
    MVRawData::from(pt, atoll, island)
}

fn year(rows: usize) -> TimeSetData {
    let data = (0..rows as u32).map(|d| vec![1, d, 300, 360, 720, 900, 1080, 1160]).collect();
    TimeSetData { name: "x".into(), details: None, coordinates: ("1".into(), "2".into()), data }
}

#[test]
fn tables_split_rows_and_fields() {
    let t = table("a;b\nc\n");
    assert_eq!(t, vec![vec!["a".to_string(), "b".to_string()], vec!["c".to_string()]]);
    // the text after the last newline is no row
    assert_eq!(table("a;b"), Vec::<Vec<String>>::new());
    assert_eq!(table(""), Vec::<Vec<String>>::new());
}

#[test]
fn island_timeset_is_read_from_the_tables() {
    let d = sample_data();
    assert!(d.can_parse(1));
    let t = d.parse_to_timeset(1).expect("timeset");
    assert_eq!(t.name, "K. Male'");
    assert_eq!(t.details, None);
    assert_eq!(t.coordinates, ("4.1748".to_string(), "73.5089".to_string()));
    assert_eq!(t.data, vec![
        vec![5, 0, 290, 360, 730, 930, 1090, 1170],
        vec![5, 1, 292, 362, 732, 932, 1092, 444000444],
    ]);
}

#[test]
fn unreadable_islands_are_reported() {
    let d = sample_data();
    // no island with index 9
    assert!(!d.can_parse(9));
    // an atoll index past the atoll table
    let bad = MVRawData::from(d.pt.clone(), d.atoll.clone(), "5;1;8;A;B;C;x;1;2;y\n".into());
    assert!(!bad.can_parse(1));
    // an empty prayer-time table gives no timeset
    let empty = MVRawData::from(String::new(), d.atoll.clone(), d.island.clone());
    assert_eq!(empty.parse_to_timeset(1), None);
}

#[test]
fn island_keys_and_lookup() {
    let d = sample_data();
    assert_eq!(d.island_keys(), vec!["K. Male'".to_string(), "K. Hulhumale".to_string()]);
    let t = d.timeset_for_island("K. Hulhumale").expect("island");
    assert_eq!(t.name, "K. Hulhumale");
    assert_eq!(t.data, vec![vec![7, 0, 291, 361, 731, 931, 1091, 1171]]);
    assert_eq!(d.timeset_for_island("K. Nowhere"), None);
}

#[test]
fn day_rows_follow_the_leap_layout() {
    let leap_table = year(366);
    assert_eq!(leap_table.day_index(0, false), 0);
    assert_eq!(leap_table.day_index(58, false), 58);
    // March 1st of a common year skips February 29th's row
    assert_eq!(leap_table.day_index(59, false), 60);
    assert_eq!(leap_table.day_index(364, false), 365);
    assert_eq!(leap_table.day_index(59, true), 59);
    let common_table = year(365);
    assert_eq!(common_table.day_index(59, true), 59);
    // after February 29th a leap year reads one row back
    assert_eq!(common_table.day_index(60, true), 59);
    assert_eq!(common_table.day_index(365, true), 364);
    assert_eq!(common_table.day_index(100, false), 100);
}

#[test]
fn rows_become_prayer_times() {
    let t = year(366);
    let p = t.data_from_day(42);
    assert_eq!(p.index, 1);
    assert_eq!(p.day, 42);
    assert_eq!((p.fajr, p.sun, p.dhuhur, p.asr, p.magrib, p.isha), (300, 360, 720, 900, 1080, 1160));
}

#[test]
fn provider_follows_the_configuration() {
    let d = sample_data();
    let mut c = Config::default();
    c.calculation.method = Method::Karachi;
    c.coordinates.latitude = "4.17".into();
    match plan_provider(&c, &d) {
        (ProviderPlan::Calculation { method, madhab, coordinates }, None) => {
            assert_eq!((method, madhab), (Method::Karachi, Madhab::Shafi));
            assert_eq!((coordinates.latitude.as_str(), coordinates.longitude.as_str()), ("4.17", "39.8262"));
        }
        other => panic!("unexpected {other:?}"),
    }
    c.provider = ProviderKind::SalatMv;
    c.salatmv.island = "K. Hulhumale".into();
    match plan_provider(&c, &d) {
        (ProviderPlan::DataSet(t), None) => assert_eq!(t.name, "K. Hulhumale"),
        other => panic!("unexpected {other:?}"),
    }
    c.salatmv.island = "X. Atlantis".into();
    match plan_provider(&c, &d) {
        (ProviderPlan::DataSet(t), Some(w)) => {
            assert_eq!(t.name, "K. Male'");
            assert_eq!(w, "unknown island \"X. Atlantis\", using K. Male'");
        }
        other => panic!("unexpected {other:?}"),
    }
    let none = MVRawData::from(String::new(), d.atoll.clone(), d.island.clone());
    match plan_provider(&c, &none) {
        (ProviderPlan::Calculation { method, madhab, coordinates }, Some(w)) => {
            assert_eq!((method, madhab), (Method::MuslimWorldLeague, Madhab::Shafi));
            assert_eq!((coordinates.latitude.as_str(), coordinates.longitude.as_str()), ("0", "0"));
            assert_eq!(w, "salatmv data unavailable");
        }
        other => panic!("unexpected {other:?}"),
    }
}

fn day_number(y: i32, m: u32, d: u32) -> i32 {
    chrono::Datelike::num_days_from_ce(&chrono::NaiveDate::from_ymd_opt(y, m, d).unwrap())
}

#[test]
fn calendar_days_find_their_rows() {
    let leap_table = year(366);
    assert_eq!(leap_table.row_for_day(day_number(2023, 1, 1)), Some(0));
    assert_eq!(leap_table.row_for_day(day_number(2023, 2, 28)), Some(58));
    assert_eq!(leap_table.row_for_day(day_number(2023, 3, 1)), Some(60));
    assert_eq!(leap_table.row_for_day(day_number(2024, 2, 29)), Some(59));
    assert_eq!(leap_table.row_for_day(day_number(2024, 12, 31)), Some(365));
    let common_table = year(365);
    assert_eq!(common_table.row_for_day(day_number(2024, 3, 1)), Some(59));
    assert_eq!(common_table.row_for_day(day_number(2024, 12, 31)), Some(364));
    // outside chrono's calendar
    assert_eq!(leap_table.row_for_day(i32::MAX), None);
    let p = leap_table.times_on_day(day_number(2023, 12, 31)).expect("row");
    assert_eq!(p.day, 365);
    // a short table has no row for late days
    assert_eq!(year(10).times_on_day(day_number(2023, 6, 1)), None);
}

fn days_before_year(y: i64) -> i64 {
    let n = y - 1;
    365 * n + n.div_euclid(4) - n.div_euclid(100) + n.div_euclid(400)
}

#[test]
fn calendar_covers_chronos_years() {
    let t = year(366);
    let max = chrono::Datelike::num_days_from_ce(&chrono::NaiveDate::MAX);
    let min = chrono::Datelike::num_days_from_ce(&chrono::NaiveDate::MIN);
    // the first and last day numbers of the covered years
    assert_eq!(max as i64, days_before_year(262143));
    assert_eq!(min as i64, days_before_year(-262143) + 1);
    assert!(t.row_for_day(max).is_some());
    assert!(t.row_for_day(min).is_some());
    assert_eq!(t.row_for_day(max + 1), None);
    assert_eq!(t.row_for_day(min - 1), None);
    // year 0 is a leap year: its last day is day 0
    assert_eq!(t.row_for_day(0), Some(365));
    assert_eq!(day_number(2000, 12, 31) as i64, days_before_year(2001));
}
