use std::collections::HashMap;

use chrono::NaiveDate;
use daily_folder::daily_folder::settings::default_month_names;
use daily_folder::daily_folder::template::expand_template;
use daily_folder::date::Date;
use daily_folder::month_names::MonthNames;

#[test]
fn test_expand_template_basic() {
    let month_names = default_month_names();
    let date = Date::from_ymd_opt(2025, 1, 15).unwrap();
    let result = expand_template("%Y/%m %B/%d", date, &month_names).unwrap();
    assert_eq!(result, "2025/01 enero/15");
}

#[test]
fn test_expand_template_december() {
    let month_names = default_month_names();
    let date = Date::from_ymd_opt(2025, 12, 31).unwrap();
    let result = expand_template("%Y/%m %B/%d", date, &month_names).unwrap();
    assert_eq!(result, "2025/12 diciembre/31");
}

#[test]
fn test_expand_template_missing_month_fallback_to_locale() {
    let mut source: HashMap<String, String> = HashMap::new();
    source.insert("01".into(), "enero".into());
    let mut month_names = MonthNames::new();
    for (k, v) in source {
        month_names.insert(k, v);
    }

    let chrono_date = NaiveDate::from_ymd_opt(2025, 2, 10).unwrap();
    let date = Date::from_ymd_opt(2025, 2, 10).unwrap();
    let format = "%Y/%m %B/%d";
    // system locale fallback: if the month name is missing, it should fall
    // back to the system locale.
    let expected_formatted = chrono_date.format(format).to_string();
    let result = expand_template(format, date, &month_names).unwrap();
    assert_eq!(
        expected_formatted, result,
        "when month name is missing, should fall back to system locale"
    );
}

#[test]
fn expand_template_replaces_every_month_specifier() {
    let names = default_month_names();
    let date = Date::from_ymd_opt(2024, 2, 29).unwrap();
    assert_eq!(expand_template("%B-%B", date, &names).unwrap(), "febrero-febrero");
    // In "%%B" the name lands after a percent sign and reads as "%f", which
    // a date cannot render.
    assert_eq!(expand_template("%%B", date, &names), None);
    assert_eq!(expand_template("no specifiers", date, &names).unwrap(), "no specifiers");
}

#[test]
fn expand_template_rejects_unknown_specifier() {
    let names = default_month_names();
    let date = Date::from_ymd_opt(2024, 2, 29).unwrap();
    assert_eq!(expand_template("%Y/%Q", date, &names), None);
}

#[test]
fn month_table_later_insert_wins() {
    let mut m = MonthNames::new();
    m.insert("05".to_string(), "mayo".to_string());
    m.insert("05".to_string(), "May".to_string());
    assert_eq!(m.get(&"05".to_string()).unwrap(), "May");
    assert!(m.contains_key(&"05".to_string()));
    assert!(!m.contains_key(&"06".to_string()));
    let date = Date::from_ymd_opt(2025, 5, 1).unwrap();
    assert_eq!(expand_template("%B %d", date, &m).unwrap(), "May 01");
}
