use daily_folder::daifo::link::{
    flatten_link_name, link_plan, make_link_name, primary_link_outcome, DuplicateAction, LinkEntry, LinkOutcome,
    LinksDatabase, LINK_NAME_SEPARATOR,
};
use daily_folder::daifo::settings::{default_month_names, Settings};
use daily_folder::daifo::DaifoError;
use daily_folder::date::Date;
use daily_folder::links_db::duplicate_action;

#[test]
fn test_flatten_basic() {
    let name = flatten_link_name("./2025/01 enero/15");
    assert_eq!(name, "2025-01 enero-15");
}

#[test]
fn test_flatten_consecutive_separators() {
    let name = flatten_link_name("2026//06 junio");
    assert_eq!(name, "2026-06 junio");
}

#[test]
fn test_flatten_backslashes() {
    let name = flatten_link_name(r"2026\06 junio\15");
    assert_eq!(name, "2026-06 junio-15");
}

#[test]
fn test_flatten_mixed_separators() {
    let name = flatten_link_name("2026/06 junio\\15");
    assert_eq!(name, "2026-06 junio-15");
}

#[test]
fn test_flatten_no_separators() {
    let name = flatten_link_name("2026");
    assert_eq!(name, "2026");
}

#[test]
fn test_flatten_consecutive_dots_deduplicated() {
    let name = flatten_link_name("2026.. 06 June");
    assert_eq!(name, "2026. 06 June");
}

#[test]
fn flatten_collapses_dashes_next_to_separators() {
    assert_eq!(flatten_link_name("a-/b"), "a-b");
    assert_eq!(flatten_link_name("a--b"), "a-b");
    assert_eq!(LINK_NAME_SEPARATOR, '-');
}

#[test]
fn flatten_keeps_dot_runs_apart_from_dash_runs() {
    assert_eq!(flatten_link_name("a.-b"), "a.-b");
    assert_eq!(flatten_link_name("a-.b"), "a-.b");
    assert_eq!(flatten_link_name("a/.b"), "a-.b");
    assert_eq!(flatten_link_name("a../-b"), "a.-b");
}

#[test]
fn flatten_drops_one_leading_separator() {
    assert_eq!(flatten_link_name("/2025/01"), "2025-01");
    assert_eq!(flatten_link_name(".\\2025\\01"), "2025-01");
    assert_eq!(flatten_link_name(""), "");
}

#[test]
fn flatten_is_idempotent_on_examples() {
    for raw in ["./2025/01 enero/15", "../x//y", "-a--b/", ".//-a", "a\\\\b"] {
        let once = flatten_link_name(raw);
        assert_eq!(flatten_link_name(&once), once);
    }
}

#[test]
fn flatten_extra_separator_changes_nothing() {
    assert_eq!(flatten_link_name("./a/b"), flatten_link_name("./a//b"));
    assert_eq!(flatten_link_name("./-a"), flatten_link_name(".//-a"));
}

#[test]
fn make_link_name_expands_then_flattens() {
    let names = default_month_names();
    let date = Date::from_ymd_opt(2025, 1, 15).unwrap();
    assert_eq!(
        make_link_name("./%Y/%m %B/%d", date, &names),
        Some("2025-01 enero-15".to_string())
    );
    assert_eq!(make_link_name("%Q/%Y", date, &names), None);
}

#[test]
fn link_plan_for_default_settings() {
    let mut settings = Settings::default();
    settings.root_directory = "/srv/ftp".to_string();
    settings.duplicate_daily_folder_link_to = vec!["/desk".to_string(), "/other/".to_string()];
    let date = Date::from_ymd_opt(2025, 3, 7).unwrap();
    let plan = link_plan(&settings, date, "/srv/ftp/2025/03 marzo/07").unwrap().unwrap();
    assert_eq!(plan.link_name, "2025-03 marzo-07");
    assert_eq!(plan.link_path, "/srv/ftp/2025-03 marzo-07");
    assert_eq!(plan.target_path, "/srv/ftp/2025/03 marzo/07");
    assert_eq!(plan.created_date, "2025-03-07");
    assert_eq!(
        plan.duplicate_paths,
        vec!["/desk/2025-03 marzo-07".to_string(), "/other/2025-03 marzo-07".to_string()]
    );
}

#[test]
fn link_plan_disabled_or_invalid() {
    let mut settings = Settings::default();
    let date = Date::from_ymd_opt(2025, 3, 7).unwrap();
    settings.create_link_to_daily_folder = false;
    assert!(matches!(link_plan(&settings, date, "x"), Ok(None)));
    settings.create_link_to_daily_folder = true;
    settings.create_path = "%Q".to_string();
    match link_plan(&settings, date, "x") {
        Err(DaifoError::SettingsParse(t)) => assert_eq!(t, "%Q"),
        _ => panic!("expected a template error"),
    }
}

#[test]
fn duplicate_actions() {
    assert_eq!(duplicate_action(false, true), DuplicateAction::Skip);
    assert_eq!(duplicate_action(true, true), DuplicateAction::Register);
    assert_eq!(duplicate_action(true, false), DuplicateAction::Create);
}

fn entry(link: &str, target: &str, date: &str) -> LinkEntry {
    LinkEntry {
        link_path: link.to_string(),
        target_path: target.to_string(),
        created_date: date.to_string(),
    }
}

#[test]
fn insert_appends_entry() {
    let mut db = LinksDatabase::new();
    db.insert(entry("a", "t", "2025-01-01"));
    db.insert(entry("b", "t", "2025-01-02"));
    assert_eq!(db.links.len(), 2);
    assert_eq!(db.links[1].link_path, "b");
    assert!(db.contains_link(&"a".to_string()));
    assert!(!db.contains_link(&"c".to_string()));
}

#[test]
fn record_outcomes_registers_links() {
    let settings = Settings::default();
    let mut s = settings.clone();
    s.duplicate_daily_folder_link_to = vec!["d1".to_string(), "d2".to_string(), "d3".to_string(), "d4".to_string()];
    let date = Date::from_ymd_opt(2025, 3, 7).unwrap();
    let plan = link_plan(&s, date, "day").unwrap().unwrap();
    let mut db = LinksDatabase::new();
    let created = db.record_link_outcomes(
        &plan,
        LinkOutcome::Failed,
        &vec![LinkOutcome::Created, LinkOutcome::Failed, LinkOutcome::AlreadyPresent, LinkOutcome::Skipped],
    );
    assert!(created);
    let paths: Vec<&str> = db.links.iter().map(|e| e.link_path.as_str()).collect();
    assert_eq!(paths, vec!["./2025-03 marzo-07", "d1/2025-03 marzo-07", "d3/2025-03 marzo-07"]);
    assert!(db.links.iter().all(|e| e.target_path == "day" && e.created_date == "2025-03-07"));

    // Running again with everything in place changes nothing.
    let before = db.links.len();
    let created = db.record_link_outcomes(
        &plan,
        LinkOutcome::AlreadyPresent,
        &vec![LinkOutcome::AlreadyPresent, LinkOutcome::Skipped, LinkOutcome::AlreadyPresent, LinkOutcome::Skipped],
    );
    assert!(!created);
    assert_eq!(db.links.len(), before);
}

#[test]
fn cleanup_drops_gone_and_old_entries() {
    let mut db = LinksDatabase::new();
    db.insert(entry("l1", "t1", "2025-03-07"));
    db.insert(entry("l2", "t2", "2025-03-06"));
    db.insert(entry("l3", "t3", "2025-03-08"));
    db.insert(entry("l4", "t4", "not a date"));
    db.insert(entry("l5", "t5", "2025-03-07"));
    let today = Date::from_ymd_opt(2025, 3, 7).unwrap();
    let removed = db.cleanup_stale(today, &vec![true, true, true, true, false]);
    let kept: Vec<&str> = db.links.iter().map(|e| e.link_path.as_str()).collect();
    let gone: Vec<&str> = removed.iter().map(|e| e.link_path.as_str()).collect();
    assert_eq!(kept, vec!["l1", "l3"]);
    assert_eq!(gone, vec!["l2", "l4", "l5"]);
    // A second cleanup on the same day drops nothing more.
    let removed = db.cleanup_stale(today, &vec![true, true]);
    assert!(removed.is_empty());
    assert_eq!(db.links.len(), 2);
}

#[test]
fn primary_link_outcome_cases() {
    assert_eq!(primary_link_outcome(None), LinkOutcome::AlreadyPresent);
    assert_eq!(primary_link_outcome(Some(Ok(()))), LinkOutcome::Created);
    assert_eq!(
        primary_link_outcome(Some(Err(DaifoError::SettingsParse("denied".to_string())))),
        LinkOutcome::Failed
    );
}
