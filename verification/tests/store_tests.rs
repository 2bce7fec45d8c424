use deltagen::errors::BackupError;
use deltagen::names::base_artifact_name;
use deltagen::names::format_timestamp;
use deltagen::names::generation_dir_name;
use deltagen::names::parse_generation_name;
use deltagen::names::Timestamp;
use deltagen::store::create_new_generation;
use deltagen::store::get_latest_generation;
use deltagen::store::resolve_generation_dir;
use deltagen::store::EntryInfo;
use deltagen::store::GenResolution;

fn entry(name: &str, is_dir: bool) -> EntryInfo {
    EntryInfo { name: name.to_string(), is_dir }
}

fn ts() -> Timestamp {
    Timestamp { year: 2024, month: 1, day: 15, hour: 9, minute: 30, second: 0 }
}

#[test]
fn latest_generation_is_numeric_max() {
    let entries = vec![
        entry("base3_x", true),
        entry("base1_y", true),
        entry("base10_z", true),
        entry("notbase_q", true),
    ];
    let g = get_latest_generation(&entries).expect("a generation should be found");
    assert_eq!(g.base_idx, 10);
    assert_eq!(g.dir_name, "base10_z");
}

#[test]
fn latest_generation_ignores_files_and_foreign_names() {
    let entries = vec![
        entry("base5_20240101_000000", false),
        entry("readme.txt", true),
        entry("base_20240101_000000", true),
        entry("base2_20240101_000000", true),
    ];
    let g = get_latest_generation(&entries).expect("a generation should be found");
    assert_eq!(g.base_idx, 2);
    assert_eq!(g.dir_name, "base2_20240101_000000");
}

#[test]
fn latest_generation_none_when_nothing_matches() {
    let entries = vec![entry("notbase_q", true), entry("base9", true), entry("basex_1", true)];
    assert!(get_latest_generation(&entries).is_none());
}

#[test]
fn parse_generation_names() {
    assert_eq!(parse_generation_name("base10_z"), Some(10));
    assert_eq!(parse_generation_name("base007_x"), Some(7));
    assert_eq!(parse_generation_name("base1_20240115_093000"), Some(1));
    assert_eq!(parse_generation_name("notbase_q"), None);
    assert_eq!(parse_generation_name("base_q"), None);
    assert_eq!(parse_generation_name("base12"), None);
    assert_eq!(parse_generation_name("base12x_y"), None);
    assert_eq!(parse_generation_name("base1_"), Some(1));
    // an index too large for the index type excludes the directory
    assert_eq!(parse_generation_name("base99999999999999999999_x"), None);
}

#[test]
fn generation_dir_name_round_trips() {
    let name = generation_dir_name(7, &ts());
    assert_eq!(name, "base7_20240115_093000");
    assert_eq!(parse_generation_name(name.as_str()), Some(7));
}

#[test]
fn timestamp_is_zero_padded() {
    let t = Timestamp { year: 987, month: 3, day: 4, hour: 5, minute: 6, second: 7 };
    assert_eq!(format_timestamp(&t), "09870304_050607");
}

#[test]
fn resolve_creates_index_one_on_empty_root() {
    let entries: Vec<EntryInfo> = vec![];
    let r = resolve_generation_dir(&entries, "some/dir/report.docx", &ts())
        .expect("resolution should succeed");
    match r {
        GenResolution::Create(plan) => {
            assert_eq!(plan.dir_name, "base1_20240115_093000");
            assert_eq!(plan.base_file_name, "report.docx.base");
        }
        GenResolution::Existing(_) => panic!("an empty root has nothing to reuse"),
    }
}

#[test]
fn resolve_reuses_existing_maximum() {
    let entries = vec![
        entry("base2_20230101_000000", true),
        entry("base7_20240101_000000", true),
        entry("base4_20231231_235959", true),
    ];
    let r = resolve_generation_dir(&entries, "report.docx", &ts())
        .expect("resolution should succeed");
    match r {
        GenResolution::Existing(g) => {
            assert_eq!(g.base_idx, 7);
            assert_eq!(g.dir_name, "base7_20240101_000000");
        }
        GenResolution::Create(_) => panic!("an existing generation must be reused"),
    }
}

#[test]
fn resolve_rejects_path_without_file_name() {
    let entries: Vec<EntryInfo> = vec![];
    let r = resolve_generation_dir(&entries, "some/dir/", &ts());
    assert!(matches!(r, Err(BackupError::InvalidNameError)));
}

#[test]
fn create_plan_names_and_parses_back() {
    let plan = create_new_generation(12, &ts(), "work.txt").expect("plan should succeed");
    assert_eq!(plan.dir_name, "base12_20240115_093000");
    assert_eq!(plan.base_file_name, "work.txt.base");
    assert_eq!(parse_generation_name(plan.dir_name.as_str()), Some(12));
}

#[test]
fn base_artifact_uses_basename_only() {
    assert_eq!(base_artifact_name("report.docx").unwrap(), "report.docx.base");
    assert_eq!(base_artifact_name("a/b/report.docx").unwrap(), "report.docx.base");
    assert_eq!(base_artifact_name("c:\\dir\\report.docx").unwrap(), "report.docx.base");
    assert!(matches!(base_artifact_name("a/b/"), Err(BackupError::InvalidNameError)));
    assert!(matches!(base_artifact_name(""), Err(BackupError::InvalidNameError)));
}
