use daily_folder::daifo;
use daily_folder::daily_folder as impresos;
use daily_folder::daily_folder::template::month_key_string;

#[test]
fn test_default_month_names_complete() {
    let names = daifo::settings::default_month_names();
    for i in 1..=12 {
        let key = format!("{:02}", i);
        assert!(names.contains_key(&key), "Missing month {}", key);
    }
}

#[test]
fn settings_test_default_month_names_complete() {
    let names = impresos::settings::default_month_names();
    for i in 1..=12 {
        let key = format!("{:02}", i);
        assert!(names.contains_key(&key), "Falta el mes {}", key);
    }
}

#[test]
fn default_month_names_values() {
    let names = impresos::settings::default_month_names();
    assert_eq!(names.get(&"03".to_string()).unwrap(), "marzo");
    assert_eq!(names.get(&"12".to_string()).unwrap(), "diciembre");
    assert!(names.get(&"13".to_string()).is_none());
    assert_eq!(month_key_string(7), "07");
    assert_eq!(month_key_string(11), "11");
}

#[test]
fn default_settings_values() {
    let s = daifo::settings::Settings::default();
    assert_eq!(s.root_directory, "./");
    assert_eq!(s.create_path, "./%Y/%m %B/%d");
    assert_eq!(s.extension_trigger_printed, vec!["pdf", "png", "_tf"]);
    assert_eq!(s.max_files_before_trigger, 5);
    assert_eq!(s.printed_folder_name, "printed");
    assert!(s.create_link_to_daily_folder);
    assert!(s.duplicate_daily_folder_link_to.is_empty());
    let d = impresos::settings::Settings::default();
    assert_eq!(d.impresos_folder_name, "impresos");
    assert_eq!(d.extension_trigger_impresos, vec!["pdf", "png", "_tf"]);
}

#[test]
fn override_root_directory() {
    let mut s = impresos::settings::Settings::default();
    s.override_root_directory(None);
    assert_eq!(s.root_directory, "./");
    s.override_root_directory(Some("D:/ftp".to_string()));
    assert_eq!(s.root_directory, "D:/ftp");
}

#[test]
fn default_document_text() {
    let doc = daifo::settings::build_default_toml_document().to_string();
    let expected = "# Root directory where the date structure is created.\n# Por default is the application's location.\n# A real use case could be another partition, e.g. `D:\\`\nroot_directory = \"./\"\n";
    assert!(doc.starts_with(expected), "{doc}");
    assert!(doc.contains("extension_trigger_printed = [\"pdf\", \"png\", \"_tf\"]\n"));
    assert!(doc.contains("max_files_before_trigger = 5\n"));
    assert!(doc.contains("printed_folder_name = \"printed\"\n"));
    assert!(doc.contains("create_link_to_daily_folder = true\n"));
    assert!(doc.contains("duplicate_daily_folder_link_to = []\n"));
    assert!(doc.contains("01 = \"enero\"\n"));
    assert!(doc.contains("12 = \"diciembre\"\n"));
    let doc = impresos::settings::build_default_toml_document().to_string();
    assert!(doc.contains("impresos_folder_name = \"impresos\"\n"));
    assert!(doc.contains("# Número máximo de archivos en un directorio día antes de crear\n"));
}

#[test]
fn default_document_reads_back_as_the_defaults() {
    let text = daifo::settings::build_default_toml_document().to_string();
    let table: toml::Table = toml::from_str(&text).unwrap();
    let defaults = daifo::settings::Settings::default();
    assert_eq!(table["root_directory"].as_str().unwrap(), defaults.root_directory);
    assert_eq!(table["create_path"].as_str().unwrap(), defaults.create_path);
    let exts: Vec<&str> = table["extension_trigger_printed"]
        .as_array()
        .unwrap()
        .iter()
        .map(|v| v.as_str().unwrap())
        .collect();
    assert_eq!(exts, defaults.extension_trigger_printed);
    assert_eq!(
        table["max_files_before_trigger"].as_integer().unwrap(),
        defaults.max_files_before_trigger as i64
    );
    assert_eq!(table["printed_folder_name"].as_str().unwrap(), defaults.printed_folder_name);
    assert_eq!(table["create_link_to_daily_folder"].as_bool().unwrap(), true);
    assert!(table["duplicate_daily_folder_link_to"].as_array().unwrap().is_empty());
    let months = table["month_names"].as_table().unwrap();
    assert_eq!(months.len(), 12);
    for (key, name) in months {
        assert_eq!(defaults.month_names.get(key).unwrap(), name.as_str().unwrap());
    }
}

#[test]
fn impresos_document_reads_back_as_the_defaults() {
    let text = impresos::settings::build_default_toml_document().to_string();
    let table: toml::Table = toml::from_str(&text).unwrap();
    let defaults = impresos::settings::Settings::default();
    assert_eq!(defaults.impresos_folder_name, "impresos");
    assert_eq!(table["impresos_folder_name"].as_str().unwrap(), defaults.impresos_folder_name);
    assert_eq!(table["root_directory"].as_str().unwrap(), defaults.root_directory);
    assert_eq!(table["create_path"].as_str().unwrap(), defaults.create_path);
    let exts: Vec<&str> = table["extension_trigger_impresos"]
        .as_array()
        .unwrap()
        .iter()
        .map(|v| v.as_str().unwrap())
        .collect();
    assert_eq!(exts, defaults.extension_trigger_impresos);
    assert_eq!(
        table["max_files_before_trigger"].as_integer().unwrap(),
        defaults.max_files_before_trigger as i64
    );
    assert_eq!(table["create_link_to_daily_folder"].as_bool().unwrap(), true);
    assert!(table["duplicate_daily_folder_link_to"].as_array().unwrap().is_empty());
    let months = table["month_names"].as_table().unwrap();
    assert_eq!(months.len(), 12);
    for (key, name) in months {
        assert_eq!(defaults.month_names.get(key).unwrap(), name.as_str().unwrap());
    }
}
