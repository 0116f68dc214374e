use lancedb_viewer::commands;
use lancedb_viewer::models::{AppError, ErrorCategory, ScanResult};
use lancedb_viewer::settings::{
    get_last_scanned_folder, get_mapping_file_path, load_settings, set_last_scanned_folder,
    set_mapping_file_path, settings_path, AppSettings,
};

#[test]
fn parse_missing_settings() {
    let settings = load_settings(None);
    let value = get_last_scanned_folder(&settings);
    assert!(value.is_none());
}

#[test]
fn save_and_read_last_scanned_folder() {
    let mut settings = load_settings(None);
    set_last_scanned_folder(&mut settings, "C:\\test\\dbs");
    let settings = load_settings(Some(settings));
    let value = get_last_scanned_folder(&settings);
    assert_eq!(value.as_deref(), Some("C:\\test\\dbs"));
}

#[test]
fn save_multiple_settings() {
    let mut settings = load_settings(None);
    set_last_scanned_folder(&mut settings, "C:\\test\\dbs");
    let mut settings = load_settings(Some(settings));
    set_mapping_file_path(&mut settings, "C:\\map.json");
    let settings = load_settings(Some(settings));

    let folder = get_last_scanned_folder(&settings);
    let mapping = get_mapping_file_path(&settings);

    assert_eq!(folder.as_deref(), Some("C:\\test\\dbs"));
    assert_eq!(mapping.as_deref(), Some("C:\\map.json"));
}

#[test]
fn an_unset_mapping_path_is_none() {
    let mut settings = AppSettings::default();
    assert_eq!(get_mapping_file_path(&settings), None);
    assert_eq!(get_last_scanned_folder(&settings), None);
    set_last_scanned_folder(&mut settings, "X");
    assert_eq!(get_mapping_file_path(&settings), None);
    assert_eq!(get_last_scanned_folder(&settings).as_deref(), Some("X"));
}

#[test]
fn settings_do_not_clobber_each_other() {
    let mut settings = AppSettings::default();
    set_mapping_file_path(&mut settings, "map-1");
    set_last_scanned_folder(&mut settings, "folder-1");
    set_mapping_file_path(&mut settings, "map-2");
    assert_eq!(get_last_scanned_folder(&settings).as_deref(), Some("folder-1"));
    assert_eq!(get_mapping_file_path(&settings).as_deref(), Some("map-2"));
    set_last_scanned_folder(&mut settings, "");
    assert_eq!(get_last_scanned_folder(&settings).as_deref(), Some(""));
    assert_eq!(get_mapping_file_path(&settings).as_deref(), Some("map-2"));
}

#[test]
fn loaded_settings_are_kept_as_found() {
    let found = AppSettings {
        last_scanned_folder: None,
        mapping_file_path: Some("m".to_string()),
    };
    let settings = load_settings(Some(found));
    assert_eq!(settings.last_scanned_folder, None);
    assert_eq!(settings.mapping_file_path.as_deref(), Some("m"));
}

#[test]
fn the_settings_document_is_located() {
    let named = settings_path(
        Some("/tmp/x/settings.json".to_string()),
        Some("/home/u/.config".to_string()),
        "/tmp".to_string(),
    );
    assert_eq!(named.base, "/tmp/x/settings.json");
    assert!(named.components.is_empty());

    let configured = settings_path(None, Some("/home/u/.config".to_string()), "/tmp".to_string());
    assert_eq!(configured.base, "/home/u/.config");
    assert_eq!(configured.components, vec!["lancedb-viewer", "settings.json"]);

    let fallback = settings_path(None, None, "/tmp".to_string());
    assert_eq!(fallback.base, "/tmp");
    assert_eq!(fallback.components, vec!["lancedb-viewer", "settings.json"]);
}

#[test]
fn a_scan_surfaces_invalid_paths_only() {
    let invalid = AppError::new(ErrorCategory::InvalidPath, "Folder path is invalid", Some("p".to_string()));
    let error = commands::scan_folder(Err(invalid)).err().expect("error");
    assert_eq!(error.category, ErrorCategory::InvalidPath);
    assert_eq!(error.message, "Folder path is invalid");
    assert_eq!(error.detail.as_deref(), Some("p"));

    let other = AppError::new(ErrorCategory::OpenFailed, "Unable to open", Some("io".to_string()));
    let error = commands::scan_folder(Err(other)).err().expect("error");
    assert_eq!(error.category, ErrorCategory::Unknown);
    assert_eq!(error.message, "Scan failed");
    assert_eq!(error.detail.as_deref(), Some("io"));

    let bare = AppError::new(ErrorCategory::PermissionDenied, "denied", None);
    let error = commands::scan_folder(Err(bare)).err().expect("error");
    assert_eq!(error.category, ErrorCategory::Unknown);
    assert_eq!(error.message, "Scan failed");
    assert_eq!(error.detail, None);

    let found = ScanResult { tables: Vec::new(), warnings: vec!["w".to_string()] };
    let passed = commands::scan_folder(Ok(found)).expect("scan");
    assert!(passed.tables.is_empty());
    assert_eq!(passed.warnings, vec!["w"]);
}

#[test]
fn a_picked_folder_is_remembered() {
    let mut settings = AppSettings::default();
    set_mapping_file_path(&mut settings, "m");
    assert_eq!(commands::select_folder(&mut settings, None), None);
    assert_eq!(get_last_scanned_folder(&settings), None);
    let picked = commands::select_folder(&mut settings, Some("/data".to_string()));
    assert_eq!(picked.as_deref(), Some("/data"));
    assert_eq!(get_last_scanned_folder(&settings).as_deref(), Some("/data"));
    assert_eq!(get_mapping_file_path(&settings).as_deref(), Some("m"));
}

#[test]
fn failures_of_the_shell_are_reported() {
    assert_eq!(commands::read_text_file(Ok("text".to_string())).expect("text"), "text");
    let error = commands::read_text_file(Err("no such file".to_string())).err().expect("error");
    assert_eq!(error.category, ErrorCategory::Unknown);
    assert_eq!(error.message, "Failed to read file");
    assert_eq!(error.detail.as_deref(), Some("no such file"));

    assert!(commands::set_mapping_file_path(Ok(())).is_ok());
    let error = commands::set_mapping_file_path(Err("disk full".to_string())).err().expect("error");
    assert_eq!(error.category, ErrorCategory::Unknown);
    assert_eq!(error.message, "Failed to save settings");
    assert_eq!(error.detail.as_deref(), Some("disk full"));
}
