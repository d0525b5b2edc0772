use daily_folder::daily_folder::link::{
    flatten_link_name, link_plan, make_link_name, primary_shortcut_outcome, shortcut_script_text, LinkOutcome,
    LinksDatabase,
};
use daily_folder::daily_folder::settings::{default_month_names, Settings};
use daily_folder::daily_folder::ImpresosError;
use daily_folder::date::Date;

#[test]
fn link_test_flatten_basic() {
    let name = flatten_link_name("./2025/01 enero/15");
    assert_eq!(name, "2025-01 enero-15.lnk");
}

#[test]
fn link_test_flatten_consecutive_separators() {
    let name = flatten_link_name("2026//06 junio");
    assert_eq!(name, "2026-06 junio.lnk");
}

#[test]
fn link_test_flatten_backslashes() {
    let name = flatten_link_name(r"2026\06 junio\15");
    assert_eq!(name, "2026-06 junio-15.lnk");
}

#[test]
fn link_test_flatten_mixed_separators() {
    let name = flatten_link_name("2026/06 junio\\15");
    assert_eq!(name, "2026-06 junio-15.lnk");
}

#[test]
fn link_test_flatten_no_separators() {
    let name = flatten_link_name("2026");
    assert_eq!(name, "2026.lnk");
}

#[test]
fn link_test_flatten_consecutive_dots_deduplicated() {
    let name = flatten_link_name("2026.. 06 June");
    assert_eq!(name, "2026. 06 June.lnk");
}

#[test]
fn shortcut_name_keeps_literal_dashes() {
    // Only separators and dots collapse; a dash typed in the path stays.
    assert_eq!(flatten_link_name("a-/b"), "a--b.lnk");
    assert_eq!(flatten_link_name("a/.b"), "a-b.lnk");
    assert_eq!(flatten_link_name("./a//b"), flatten_link_name("./a/b"));
}

#[test]
fn shortcut_name_for_template() {
    let names = default_month_names();
    let date = Date::from_ymd_opt(2025, 12, 31).unwrap();
    assert_eq!(
        make_link_name("./%Y/%m %B/%d", date, &names),
        Some("2025-12 diciembre-31.lnk".to_string())
    );
}

#[test]
fn shortcut_plan_and_invalid_template() {
    let mut settings = Settings::default();
    let date = Date::from_ymd_opt(2025, 3, 7).unwrap();
    let plan = link_plan(&settings, date, "./2025/03 marzo/07").unwrap().unwrap();
    assert_eq!(plan.link_path, "./2025-03 marzo-07.lnk");
    settings.create_path = "%Y/%J".to_string();
    match link_plan(&settings, date, "x") {
        Err(ImpresosError::InvalidTemplate(t)) => assert_eq!(t, "%Y/%J"),
        _ => panic!("expected InvalidTemplate"),
    }
    let mut db = LinksDatabase::new();
    assert!(db.record_link_outcomes(&plan, LinkOutcome::Created, &vec![]));
    assert_eq!(db.links.len(), 1);
}

#[test]
fn primary_shortcut_outcome_cases() {
    assert!(matches!(primary_shortcut_outcome(None), Ok(LinkOutcome::AlreadyPresent)));
    assert!(matches!(primary_shortcut_outcome(Some(Ok(()))), Ok(LinkOutcome::Created)));
    let failed = primary_shortcut_outcome(Some(Err(ImpresosError::LinkCreationFailed("denied".to_string()))));
    assert!(matches!(failed, Err(ImpresosError::LinkCreationFailed(m)) if m == "denied"));
}

#[test]
fn shortcut_script_quotes_paths() {
    let script = shortcut_script_text("C:\\ftp\\it's.lnk", "C:\\ftp\\2025");
    assert_eq!(
        script,
        "\n$WScriptShell = New-Object -ComObject WScript.Shell\n$Shortcut = $WScriptShell.CreateShortcut('C:\\ftp\\it''s.lnk')\n$Shortcut.TargetPath = 'C:\\ftp\\2025'\n$Shortcut.Save()\n"
    );
}
