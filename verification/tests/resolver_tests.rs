use deltagen::errors::BackupError;
use deltagen::resolver::guess_base_name;
use deltagen::resolver::resolve_base_name;

#[test]
fn new_scheme_strips_three_trailing_segments() {
    let guessed = guess_base_name("report.2024.docx.20240115_093000.bsdiff.diff");
    assert_eq!(guessed, "report.2024.docx.base");
}

#[test]
fn new_scheme_recognizes_hdiff_too() {
    let guessed = guess_base_name("notes.txt.20240115_093000.hdiff.diff");
    assert_eq!(guessed, "notes.txt.base");
}

#[test]
fn legacy_scheme_cuts_at_first_timestamp() {
    // The ordinary legacy case: the first ".20" starts the timestamp.
    assert_eq!(guess_base_name("data.txt.20240115"), "data.txt.base");
}

#[test]
fn legacy_scheme_is_ambiguous_for_names_containing_dot_20() {
    // The split happens at the *first* ".20", so an original name that itself
    // contains ".20" loses everything from that point on — the documented
    // limitation of the legacy naming scheme.
    assert_eq!(guess_base_name("report.2024.docx.20240115"), "report.base");
}

#[test]
fn legacy_scheme_keeps_whole_name_without_timestamp() {
    assert_eq!(guess_base_name("somefile"), "somefile.base");
    // two dots only, so the algorithm token alone does not make it new-scheme
    assert_eq!(guess_base_name("a.bsdiff.diff"), "a.bsdiff.diff.base");
}

#[test]
fn resolution_prefers_the_guessed_base() {
    let r = resolve_base_name("report.docx.20240115_093000.bsdiff.diff", "work/report.docx", true, false);
    assert_eq!(r.unwrap(), "report.docx.base");
}

#[test]
fn resolution_falls_back_to_working_file_base() {
    let r = resolve_base_name("renamed.20240115", "work/report.docx", false, true);
    assert_eq!(r.unwrap(), "report.docx.base");
}

#[test]
fn resolution_fails_with_the_guessed_name() {
    let r = resolve_base_name("renamed.20240115", "work/report.docx", false, false);
    match r {
        Err(BackupError::MissingBaseError { guessed_name }) => {
            assert_eq!(guessed_name, "renamed.base");
        }
        _ => panic!("resolution must stop once every heuristic is exhausted"),
    }
}

#[test]
fn resolution_rejects_work_path_without_file_name() {
    let r = resolve_base_name("renamed.20240115", "work/dir/", false, false);
    assert!(matches!(r, Err(BackupError::InvalidNameError)));
}

#[test]
fn error_messages_distinguish_kinds() {
    let missing = BackupError::MissingBaseError { guessed_name: "renamed.base".to_string() };
    assert_eq!(missing.message(), "base file (.base) not found: renamed.base");
    let codec = BackupError::CodecError("bad magic".to_string());
    assert!(codec.message().starts_with("codec error"));
    let io = BackupError::IoError("disk full".to_string());
    assert_eq!(io.message(), "io error: disk full");
    let invalid = BackupError::InvalidNameError;
    assert_eq!(invalid.message(), "invalid work file name");
}
