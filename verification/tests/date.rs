use daily_folder::date::{dates_in_range, Date};

fn ymd(d: &Date) -> (i32, u32, u32) {
    (d.year(), d.month(), d.day())
}

#[test]
fn from_ymd_validates_days() {
    assert!(Date::from_ymd_opt(2015, 3, 14).is_some());
    assert!(Date::from_ymd_opt(2015, 0, 14).is_none());
    assert!(Date::from_ymd_opt(2015, 2, 29).is_none());
    assert!(Date::from_ymd_opt(2016, 2, 29).is_some());
    assert!(Date::from_ymd_opt(1900, 2, 29).is_none());
    assert!(Date::from_ymd_opt(2000, 2, 29).is_some());
    assert!(Date::from_ymd_opt(-4, 2, 29).is_some());
    assert!(Date::from_ymd_opt(2023, 4, 31).is_none());
    assert!(Date::from_ymd_opt(400000, 1, 1).is_none());
    assert!(Date::from_ymd_opt(-400000, 1, 1).is_none());
    // The same days as chrono accepts.
    for (y, m, d) in [(262142, 12, 31), (262143, 1, 1), (-262143, 1, 1), (-262144, 12, 31)] {
        assert_eq!(
            Date::from_ymd_opt(y, m, d).is_some(),
            chrono::NaiveDate::from_ymd_opt(y, m, d).is_some()
        );
    }
}

#[test]
fn succ_matches_calendar() {
    let next = |y, m, d| Date::from_ymd_opt(y, m, d).unwrap().succ_opt().map(|n| ymd(&n));
    assert_eq!(next(2015, 6, 3), Some((2015, 6, 4)));
    assert_eq!(next(2015, 6, 30), Some((2015, 7, 1)));
    assert_eq!(next(2015, 12, 31), Some((2016, 1, 1)));
    assert_eq!(next(2016, 2, 28), Some((2016, 2, 29)));
    assert_eq!(next(2015, 2, 28), Some((2015, 3, 1)));
    assert_eq!(next(262142, 12, 31), None);
}

#[test]
fn ordering() {
    let a = Date::from_ymd_opt(2025, 3, 7).unwrap();
    let b = Date::from_ymd_opt(2025, 3, 8).unwrap();
    assert!(a.is_before(&b));
    assert!(!b.is_before(&a));
    assert!(!a.is_before(&a));
}

#[test]
fn range_lists_each_day() {
    let s = Date::from_ymd_opt(2024, 2, 27).unwrap();
    let e = Date::from_ymd_opt(2024, 3, 2).unwrap();
    let days: Vec<_> = dates_in_range(&s, &e).iter().map(ymd).collect();
    assert_eq!(
        days,
        vec![(2024, 2, 27), (2024, 2, 28), (2024, 2, 29), (2024, 3, 1), (2024, 3, 2)]
    );
    assert!(dates_in_range(&e, &s).is_empty());
    assert_eq!(dates_in_range(&s, &s).len(), 1);
    let last = Date::from_ymd_opt(262142, 12, 31).unwrap();
    assert_eq!(dates_in_range(&last, &last).len(), 1);
}

#[test]
fn iso_format_and_parse() {
    let d = Date::from_ymd_opt(2015, 9, 5).unwrap();
    assert_eq!(d.to_iso_string(), "2015-09-05");
    assert_eq!(d.format("%d/%m/%Y").unwrap(), "05/09/2015");
    assert_eq!(d.format("%B").unwrap(), "September");
    assert!(d.format("%Q").is_none());
    let p = Date::parse_from_str("2015-09-05", "%Y-%m-%d").unwrap();
    assert_eq!(ymd(&p), (2015, 9, 5));
    assert!(Date::parse_from_str("2015-02-30", "%Y-%m-%d").is_none());
    assert!(Date::parse_from_str("yesterday", "%Y-%m-%d").is_none());
}
