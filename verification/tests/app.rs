use daily_folder::daily_folder::app::{
    parse_date, sleep_until_next_day_secs, Cli, DayTracker, RunMode,
};
use daily_folder::date::Date;

fn cli() -> Cli {
    Cli {
        root_directory: None,
        settings_file: "./.settings/impresos.toml".to_string(),
        date: None,
        start: None,
        end: None,
        once: false,
        interval: 180,
    }
}

#[test]
fn mode_precedence() {
    let mut c = cli();
    assert!(matches!(c.mode(), RunMode::Continuous(180)));
    c.once = true;
    assert!(matches!(c.mode(), RunMode::Once));
    c.date = Some("2025-03-07".to_string());
    assert!(matches!(c.mode(), RunMode::Single(ref d) if d == "2025-03-07"));
    c.start = Some("2025-03-01".to_string());
    assert!(matches!(c.mode(), RunMode::Single(_)));
    c.end = Some("2025-03-31".to_string());
    match c.mode() {
        RunMode::Range { start, end } => {
            assert_eq!(start, "2025-03-01");
            assert_eq!(end, "2025-03-31");
        }
        _ => panic!("expected a range"),
    }
    let d = daily_folder::daifo::app::Cli {
        root_directory: None,
        settings_file: String::new(),
        date: None,
        start: None,
        end: None,
        once: true,
        interval: 1,
    };
    assert!(matches!(d.mode(), RunMode::Once));
}

#[test]
fn parse_cli_dates() {
    let d = parse_date("2025-03-07").unwrap();
    assert_eq!((d.year(), d.month(), d.day()), (2025, 3, 7));
    assert!(parse_date("07/03/2025").is_none());
}

#[test]
fn tracker_sees_day_change() {
    let a = Date::from_ymd_opt(2025, 3, 7).unwrap();
    let b = Date::from_ymd_opt(2025, 3, 8).unwrap();
    let mut t = DayTracker::new(a);
    assert!(!t.observe(a));
    assert!(t.observe(b));
    assert!(!t.observe(b));
    assert_eq!(t.last_date(), b);
}

#[test]
fn sleep_until_midnight_never_below_interval() {
    assert_eq!(sleep_until_next_day_secs(3600, 180), 3600);
    assert_eq!(sleep_until_next_day_secs(60, 180), 180);
    assert_eq!(sleep_until_next_day_secs(-5, 0), 0);
}
