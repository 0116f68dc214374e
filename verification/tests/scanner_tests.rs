use arrow::datatypes::{DataType, Field, Schema};
use lancedb_viewer::introspect::TableProbe;
use lancedb_viewer::models::{AppError, ErrorCategory, TableDetails};
use lancedb_viewer::scanner::{
    describe_failure, describe_table_failure, describe_walk_error, entry_kind,
    looks_like_lancedb_dir, marks_table, plan_entry, root_kind, scan_folder, table_name_of,
    table_target, target_from, walk_enters, walk_inspects, DirEntryInfo, EntryKind, EntryPlan,
    RootKind, ScanEvent,
};

fn entry(name: &str, kind: EntryKind) -> DirEntryInfo {
    DirEntryInfo { name: name.to_string(), kind }
}

fn ready(rows: usize) -> TableProbe {
    TableProbe::Ready {
        row_count: Some(rows),
        schema: Schema::new(vec![Field::new("id", DataType::Int64, false)]),
    }
}

fn candidate(db_path: &str, table_name: &str, probe: TableProbe) -> ScanEvent {
    ScanEvent::Candidate {
        db_path: db_path.to_string(),
        table_name: table_name.to_string(),
        probe,
    }
}

#[test]
fn scan_invalid_path_returns_invalid_path_error() {
    let path = "Z:\\this\\path\\should\\not\\exist\\for\\tests";
    let result = scan_folder(path, RootKind::Missing, &Vec::new());
    assert!(result.is_err());
    let err = result.err().expect("error");
    match err.category {
        ErrorCategory::InvalidPath => {}
        other => panic!("unexpected category: {:?}", other),
    }
    assert_eq!(err.message, "Folder path is invalid");
    assert_eq!(err.detail.as_deref(), Some(path));
}

#[test]
fn scan_of_a_file_is_an_invalid_path() {
    let events = vec![candidate("/data", "t", ready(1))];
    let err = scan_folder("/etc/hosts", RootKind::NotADirectory, &events).err().expect("error");
    assert_eq!(err.category, ErrorCategory::InvalidPath);
    assert_eq!(err.detail.as_deref(), Some("/etc/hosts"));
}

#[test]
fn scan_without_tables_reports_nothing() {
    let found = scan_folder("/data", RootKind::Directory, &Vec::new()).expect("scan");
    assert!(found.tables.is_empty());
    assert!(found.warnings.is_empty());
}

#[test]
fn scan_reports_one_table_and_one_warning() {
    let events = vec![
        candidate("/data/db", "good", ready(7)),
        candidate(
            "/data/db",
            "bad",
            TableProbe::SchemaUnavailable { detail: "manifest missing".to_string() },
        ),
    ];
    let found = scan_folder("/data", RootKind::Directory, &events).expect("scan");
    assert_eq!(found.tables.len(), 1);
    assert_eq!(found.warnings.len(), 1);
    assert_eq!(found.tables[0].db_path, "/data/db");
    assert_eq!(found.tables[0].table_name, "good");
    assert_eq!(found.tables[0].row_count, Some(7));
    assert!(!found.tables[0].has_vector);
    assert_eq!(found.tables[0].vector_dimension, None);
    assert_eq!(
        found.warnings[0],
        "table metadata failed: /data/db/bad - Unable to read schema (manifest missing)"
    );
}

#[test]
fn scan_keeps_the_order_of_events() {
    let events = vec![
        ScanEvent::WalkFailed { message: "permission denied: /data/secret".to_string() },
        candidate("/data/a", "one", ready(1)),
        candidate("/data/b", "two", TableProbe::DatasetUnavailable { detail: String::new() }),
        candidate("/data/c", "three", ready(3)),
        ScanEvent::WalkFailed { message: "loop".to_string() },
    ];
    let found = scan_folder("/data", RootKind::Directory, &events).expect("scan");
    let names: Vec<&str> = found.tables.iter().map(|t| t.table_name.as_str()).collect();
    assert_eq!(names, vec!["one", "three"]);
    assert_eq!(
        found.warnings,
        vec![
            "walk error: permission denied: /data/secret",
            "table metadata failed: /data/b/two - Unable to open LanceDB dataset",
            "walk error: loop",
        ]
    );
    assert_eq!(found.tables.len() + found.warnings.len(), events.len());
}

#[test]
fn table_roots_are_known_by_their_markers() {
    assert!(looks_like_lancedb_dir(&vec![entry("_latest.manifest", EntryKind::File)]));
    assert!(looks_like_lancedb_dir(&vec![entry("_versions", EntryKind::Directory)]));
    assert!(looks_like_lancedb_dir(&vec![entry("_transactions", EntryKind::Directory)]));
    assert!(looks_like_lancedb_dir(&vec![
        entry("data", EntryKind::Directory),
        entry("readme.txt", EntryKind::File),
        entry("_versions", EntryKind::Directory),
    ]));
    assert!(!looks_like_lancedb_dir(&Vec::new()));
    assert!(!looks_like_lancedb_dir(&vec![entry("_latest.manifest", EntryKind::Directory)]));
    assert!(!looks_like_lancedb_dir(&vec![entry("_versions", EntryKind::File)]));
    assert!(!looks_like_lancedb_dir(&vec![entry("_transactions", EntryKind::File)]));
    assert!(!looks_like_lancedb_dir(&vec![entry("_versions", EntryKind::Other)]));
    assert!(!looks_like_lancedb_dir(&vec![
        entry("versions", EntryKind::Directory),
        entry("_Versions", EntryKind::Directory),
        entry("_latest.manifest.bak", EntryKind::File),
    ]));
    assert!(marks_table(&entry("_latest.manifest", EntryKind::File)));
    assert!(!marks_table(&entry("_latest.manifest", EntryKind::Other)));
}

#[test]
fn table_names_lose_the_lance_ending() {
    assert_eq!(table_name_of("foo.lance"), "foo");
    assert_eq!(table_name_of("foo"), "foo");
    assert_eq!(table_name_of("foo.lance.lance"), "foo.lance");
    assert_eq!(table_name_of(".lance"), "");
    assert_eq!(table_name_of("foo.Lance"), "foo.Lance");
    assert_eq!(table_name_of("foo.lance "), "foo.lance ");
    assert_eq!(table_name_of("lance"), "lance");
    assert_eq!(table_name_of(""), "");
    assert_eq!(table_name_of("données.lance"), "données");
}

#[test]
fn a_table_directory_names_its_dataset_and_table() {
    let target = target_from(
        "/data/db/foo.lance",
        Some("/data/db".to_string()),
        Some("foo.lance".to_string()),
    );
    assert_eq!(target.db_path, "/data/db");
    assert_eq!(target.table_name, "foo");
    let target = target_from("/", None, None);
    assert_eq!(target.db_path, "/");
    assert_eq!(target.table_name, "");
    let target = target_from("plain", Some(String::new()), Some("plain".to_string()));
    assert_eq!(target.db_path, "");
    assert_eq!(target.table_name, "plain");
}

#[test]
fn a_path_is_split_as_the_platform_splits_it() {
    let path = std::path::Path::new("data").join("db").join("foo.lance");
    let target = table_target(&path.to_string_lossy());
    assert_eq!(target.db_path, std::path::Path::new("data").join("db").to_string_lossy());
    assert_eq!(target.table_name, "foo");
    let target = table_target("tables");
    assert_eq!(target.db_path, "");
    assert_eq!(target.table_name, "tables");
}

#[test]
fn entries_are_planned_by_kind_and_listing() {
    let root = vec![entry("_versions", EntryKind::Directory)];
    let plain = vec![entry("notes.txt", EntryKind::File)];
    assert_eq!(plan_entry(false, true, &root), EntryPlan::Inspect);
    assert_eq!(plan_entry(false, true, &plain), EntryPlan::Enter);
    assert_eq!(plan_entry(false, true, &Vec::new()), EntryPlan::Enter);
    assert_eq!(plan_entry(false, false, &Vec::new()), EntryPlan::Pass);
    assert_eq!(plan_entry(false, false, &root), EntryPlan::Pass);
}

#[test]
fn symbolic_links_are_excluded() {
    let root = vec![entry("_latest.manifest", EntryKind::File)];
    assert_eq!(plan_entry(true, true, &root), EntryPlan::Exclude);
    assert_eq!(plan_entry(true, true, &Vec::new()), EntryPlan::Exclude);
    assert_eq!(plan_entry(true, false, &Vec::new()), EntryPlan::Exclude);
}

#[test]
fn failures_are_put_in_words() {
    let with_detail = AppError::new(ErrorCategory::OpenFailed, "Unable to open", Some("io".to_string()));
    let empty_detail = AppError::new(ErrorCategory::OpenFailed, "Unable to open", Some(String::new()));
    let no_detail = AppError::new(ErrorCategory::OpenFailed, "Unable to open", None);
    assert_eq!(describe_failure(&with_detail), "Unable to open (io)");
    assert_eq!(describe_failure(&empty_detail), "Unable to open");
    assert_eq!(describe_failure(&no_detail), "Unable to open");
    assert_eq!(
        describe_table_failure("/d", "t", &with_detail),
        "table metadata failed: /d/t - Unable to open (io)"
    );
    assert_eq!(
        describe_table_failure("", "", &no_detail),
        "table metadata failed: / - Unable to open"
    );
    assert_eq!(describe_walk_error("denied"), "walk error: denied");
    assert_eq!(describe_walk_error(""), "walk error: ");
}

#[test]
fn details_become_a_summary() {
    let details = TableDetails {
        db_path: "/d".to_string(),
        table_name: "t".to_string(),
        row_count: Some(9),
        has_vector: true,
        vector_dimension: Some(4),
        schema_fields: Vec::new(),
    };
    let summary = details.into_summary();
    assert_eq!(summary.db_path, "/d");
    assert_eq!(summary.table_name, "t");
    assert_eq!(summary.row_count, Some(9));
    assert!(summary.has_vector);
    assert_eq!(summary.vector_dimension, Some(4));
}

#[test]
fn roots_and_entries_are_told_apart() {
    assert_eq!(root_kind(false, false), RootKind::Missing);
    assert_eq!(root_kind(false, true), RootKind::Missing);
    assert_eq!(root_kind(true, false), RootKind::NotADirectory);
    assert_eq!(root_kind(true, true), RootKind::Directory);
    assert_eq!(entry_kind(true, false), EntryKind::File);
    assert_eq!(entry_kind(false, true), EntryKind::Directory);
    assert_eq!(entry_kind(false, false), EntryKind::Other);
    assert_eq!(entry_kind(true, true), EntryKind::File);
}

#[test]
fn plain_paths_split_at_the_last_slash() {
    let paths = vec![
        "a/b",
        "/a/b",
        "/data/db/foo.lance",
        "data/db/foo.lance",
        "./a/b",
        "../a/b",
        "a/../b/c",
        "a/./b/c",
        "a/.../b",
        "a/.b/.c",
        "a b/c d",
        "données/tâble.lance",
        "a/b.lance.lance",
        "a/.lance",
        "x/y/z/w/v",
        "-/_",
    ];
    for path in paths {
        let cut = path.rfind('/').expect("slash");
        let target = table_target(path);
        assert_eq!(target.db_path, &path[..cut], "{:?}", path);
        assert_eq!(target.table_name, table_name_of(&path[cut + 1..]), "{:?}", path);
    }
    for name in vec!["a", "foo.lance", ".hidden", "...", "a b", "tâble"] {
        let target = table_target(name);
        assert_eq!(target.db_path, "", "{:?}", name);
        assert_eq!(target.table_name, table_name_of(name), "{:?}", name);
    }
    let target = table_target("/data/db/foo.lance");
    assert_eq!(target.db_path, "/data/db");
    assert_eq!(target.table_name, "foo");
}

#[test]
fn other_paths_are_read_as_the_platform_reads_them() {
    let target = table_target("");
    assert_eq!(target.db_path, "");
    assert_eq!(target.table_name, "");
    let target = table_target("..");
    assert_eq!(target.table_name, "");
    let root = std::path::MAIN_SEPARATOR.to_string();
    let target = table_target(&root);
    assert_eq!(target.db_path, root);
    assert_eq!(target.table_name, "");
}

#[test]
fn only_plain_directories_are_entered_and_only_table_roots_inspected() {
    assert!(walk_enters(EntryPlan::Enter));
    assert!(!walk_enters(EntryPlan::Inspect));
    assert!(!walk_enters(EntryPlan::Exclude));
    assert!(!walk_enters(EntryPlan::Pass));
    assert!(walk_inspects(EntryPlan::Inspect));
    assert!(!walk_inspects(EntryPlan::Enter));
    assert!(!walk_inspects(EntryPlan::Exclude));
    assert!(!walk_inspects(EntryPlan::Pass));
    let root = vec![entry("_transactions", EntryKind::Directory)];
    assert!(!walk_enters(plan_entry(false, true, &root)));
    assert!(walk_inspects(plan_entry(false, true, &root)));
    assert!(!walk_enters(plan_entry(true, true, &root)));
    assert!(!walk_inspects(plan_entry(true, true, &root)));
    assert!(walk_enters(plan_entry(false, true, &Vec::new())));
}
