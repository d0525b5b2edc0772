use daily_folder::paths::{join_path, join_with};
use daily_folder::daifo;
use daily_folder::daily_folder as impresos;
use daily_folder::date::Date;

fn names(prefix: &str, n: usize, ext: &str) -> Vec<String> {
    (0..n).map(|i| format!("{prefix}_{i}.{ext}")).collect()
}

#[test]
fn test_should_create_printed_by_count() {
    let files = names("file", 60, "txt");
    let result = daifo::ops::should_create_printed(true, &files, 50, &[]);
    assert!(result, "Should trigger by file count");
}

#[test]
fn test_should_create_printed_by_extension() {
    let files = vec!["documento.pdf".to_string()];
    let extensions = vec!["pdf", "png"];
    let result = daifo::ops::should_create_printed(true, &files, 100, &extensions);
    assert!(result, "Should trigger by .pdf extension");
}

#[test]
fn test_should_not_create_printed() {
    let files = vec!["documento.txt".to_string()];
    let extensions = vec!["pdf"];
    let result = daifo::ops::should_create_printed(true, &files, 100, &extensions);
    assert!(!result, "Should not trigger");
}

#[test]
fn test_should_create_impresos_by_count() {
    let files = names("file", 60, "txt");
    assert!(impresos::ops::should_create_impresos(true, &files, 50, &[]));
}

#[test]
fn test_should_create_impresos_by_extension() {
    let files = vec!["documento.pdf".to_string()];
    assert!(impresos::ops::should_create_impresos(true, &files, 100, &["pdf", "png"]));
}

#[test]
fn test_should_not_create_impresos() {
    let files = vec!["documento.txt".to_string()];
    assert!(!impresos::ops::should_create_impresos(true, &files, 100, &["pdf"]));
}

#[test]
fn trigger_rules_edge_cases() {
    let ops = daifo::ops::should_create_printed;
    // A missing directory never triggers.
    assert!(!ops(false, &names("f", 10, "pdf"), 0, &["pdf"]));
    // Exactly max_files does not trigger; one more does.
    assert!(!ops(true, &names("f", 5, "txt"), 5, &[]));
    assert!(ops(true, &names("f", 6, "txt"), 5, &[]));
    // Case and leading dots of the trigger are ignored.
    assert!(ops(true, &vec!["SCAN.PDF".to_string()], 9, &["..Pdf"]));
    // Only the last extension counts, and a dot-file has none.
    assert!(!ops(true, &vec!["a.pdf.txt".to_string()], 9, &["pdf"]));
    assert!(!ops(true, &vec![".pdf".to_string()], 9, &["pdf"]));
    assert!(ops(true, &vec![".x.pdf".to_string()], 9, &["pdf"]));
    // An empty trigger matches a name ending in a dot.
    assert!(ops(true, &vec!["a.".to_string()], 9, &[""]));
    assert!(!ops(true, &vec!["..".to_string()], 9, &[""]));
}

#[test]
fn day_wants_printed_uses_settings() {
    let mut s = daifo::settings::Settings::default();
    assert!(daifo::ops::day_wants_printed(&s, true, &vec!["x.png".to_string()]));
    assert!(!daifo::ops::day_wants_printed(&s, true, &names("f", 5, "txt")));
    assert!(daifo::ops::day_wants_printed(&s, true, &names("f", 6, "txt")));
    s.extension_trigger_printed = vec![];
    assert!(!daifo::ops::day_wants_printed(&s, true, &vec!["x.png".to_string()]));
    let d = impresos::settings::Settings::default();
    assert!(impresos::ops::day_wants_impresos(&d, true, &vec!["x._TF".to_string()]));
}

#[test]
fn test_generate_date_path() {
    let settings = daifo::settings::Settings::default();
    let date = Date::from_ymd_opt(2025, 3, 7).unwrap();
    let path = daifo::ops::generate_date_path(&settings, date).unwrap();
    let path = std::path::Path::new(&path);
    assert!(path.starts_with("./"));
    assert!(path.to_str().unwrap().contains("2025"));
    assert!(path.to_str().unwrap().contains("03 marzo"));
    assert!(path.to_str().unwrap().contains("07"));
}

#[test]
fn ops_test_generate_date_path() {
    let settings = impresos::settings::Settings::default();
    let date = Date::from_ymd_opt(2025, 3, 7).unwrap();
    let path = impresos::ops::generate_date_path(&settings, date).unwrap();
    let path = std::path::Path::new(&path);
    assert!(path.starts_with("./"));
    assert!(path.to_str().unwrap().contains("2025"));
    assert!(path.to_str().unwrap().contains("03 marzo"));
    assert!(path.to_str().unwrap().contains("07"));
}

#[test]
fn generate_date_path_exact() {
    let mut settings = impresos::settings::Settings::default();
    let date = Date::from_ymd_opt(2025, 3, 7).unwrap();
    assert_eq!(
        impresos::ops::generate_date_path(&settings, date).unwrap(),
        "././2025/03 marzo/07"
    );
    settings.root_directory = "D:\\ftp".to_string();
    settings.create_path = "%Y/%d".to_string();
    assert_eq!(impresos::ops::generate_date_path(&settings, date).unwrap(), "D:\\ftp/2025/07");
    settings.create_path = "%Y/%!".to_string();
    assert!(matches!(
        impresos::ops::generate_date_path(&settings, date),
        Err(impresos::ImpresosError::InvalidTemplate(_))
    ));
    let mut d = daifo::settings::Settings::default();
    d.create_path = "%Y/%!".to_string();
    assert!(matches!(
        daifo::ops::generate_date_path(&d, date),
        Err(daifo::DaifoError::SettingsParse(_))
    ));
}

#[test]
fn printed_dir_is_inside_day_dir() {
    let s = daifo::settings::Settings::default();
    assert_eq!(daifo::ops::printed_dir_path(&s, "./2025/03 marzo/07"), "./2025/03 marzo/07/printed");
    let d = impresos::settings::Settings::default();
    assert_eq!(impresos::ops::impresos_dir_path(&d, "root/"), "root/impresos");
}

#[test]
fn join_path_rules() {
    assert_eq!(join_path("a", "b"), "a/b");
    assert_eq!(join_path("a/", "b"), "a/b");
    assert_eq!(join_with("a\\", "b", '/'), "a\\/b");
    assert_eq!(join_with("a\\", "b", '\\'), "a\\b");
    assert_eq!(join_path("", "b"), "b");
    assert_eq!(join_path("a", "/b"), "/b");
    assert_eq!(join_path("a", ""), "a/");
}

#[test]
fn dated_folder_structure_example() {
    let mut settings = daifo::settings::Settings::default();
    settings.root_directory = "D:/ftp".to_string();
    let date = Date::from_ymd_opt(2025, 3, 15).unwrap();
    assert_eq!(
        daifo::ops::generate_date_path(&settings, date).unwrap(),
        "D:/ftp/./2025/03 marzo/15"
    );
    let day = daifo::ops::generate_date_path(&settings, date).unwrap();
    assert_eq!(daifo::ops::printed_dir_path(&settings, &day), "D:/ftp/./2025/03 marzo/15/printed");
}

#[test]
fn more_files_keep_the_printed_folder_wanted() {
    let s = daifo::settings::Settings::default();
    let mut files = vec!["scan.pdf".to_string()];
    assert!(daifo::ops::day_wants_printed(&s, true, &files));
    files.extend(names("more", 3, "txt"));
    assert!(daifo::ops::day_wants_printed(&s, true, &files));
}

#[test]
fn join_with_windows_rules() {
    assert_eq!(join_with("C:\\ftp", "2025", '\\'), "C:\\ftp\\2025");
    assert_eq!(join_with("C:\\ftp", "/x", '\\'), "C:/x");
    assert_eq!(join_with("C:\\ftp", "\\x", '\\'), "C:\\x");
    assert_eq!(join_with("C:\\ftp", "D:\\x", '\\'), "D:\\x");
    assert_eq!(join_with("C:", "x", '\\'), "C:x");
    assert_eq!(join_with("ftp", "\\x", '\\'), "\\x");
    assert_eq!(join_with("ftp", "D:x", '/'), "ftp/D:x");
    assert_eq!(join_with("ftp", "\\x", '/'), "ftp/\\x");
}

#[test]
fn join_with_windows_prefixes() {
    assert_eq!(
        join_with("\\\\?\\D:\\ftp", "./2025/03 marzo/15", '\\'),
        "\\\\?\\D:\\ftp\\2025\\03 marzo\\15"
    );
    assert_eq!(join_with("\\\\?\\D:\\ftp", "../x", '\\'), "\\\\?\\D:\\x");
    assert_eq!(join_with("\\\\?\\D:\\ftp", "/x", '\\'), "\\\\?\\D:\\x");
    assert_eq!(
        join_with("\\\\?\\UNC\\server\\share", "a/b", '\\'),
        "\\\\?\\UNC\\server\\share\\a\\b"
    );
    assert_eq!(join_with("\\\\server\\share\\ftp", "\\x", '\\'), "\\\\server\\share\\x");
    assert_eq!(join_with("\\\\server\\share", "x", '\\'), "\\\\server\\share\\x");
    assert_eq!(join_with("C:\\ftp", "\\\\server\\share\\x", '\\'), "\\\\server\\share\\x");
    assert_eq!(join_with("C:\\ftp", "\\\\.\\COM1", '\\'), "\\\\.\\COM1");
    assert_eq!(join_with("\\\\server", "\\x", '\\'), "\\x");
}
