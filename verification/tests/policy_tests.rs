use deltagen::errors::BackupError;
use deltagen::external::external_codec_outcome;
use deltagen::external::hdiff_apply_args;
use deltagen::external::hdiff_produce_args;
use deltagen::policy::should_rotate;
use deltagen::policy::Threshold;

fn half() -> Threshold {
    Threshold { num: 1, den: 2 }
}

#[test]
fn rotation_triggers_above_the_threshold() {
    assert!(should_rotate(1000, 600, &half()));
}

#[test]
fn rotation_waits_below_the_threshold() {
    assert!(!should_rotate(1000, 400, &half()));
}

#[test]
fn rotation_needs_strict_excess() {
    // exactly the threshold fraction is not yet over it
    assert!(!should_rotate(1000, 500, &half()));
    assert!(should_rotate(1000, 501, &half()));
}

#[test]
fn empty_base_never_rotates() {
    let tiny = Threshold { num: 1, den: 100 };
    assert!(!should_rotate(0, 999999, &tiny));
}

#[test]
fn rotation_is_exact_on_large_sizes() {
    // the products exceed 64 bits, yet the comparison stays exact
    let t = Threshold { num: u64::MAX, den: u64::MAX };
    assert!(!should_rotate(u64::MAX, u64::MAX, &t));
    assert!(should_rotate(1, 2, &t));
}

#[test]
fn produce_args_follow_the_tool_order() {
    let args = hdiff_produce_args("old.bin", "new.bin", "out.diff");
    assert_eq!(args, vec!["-f", "-s", "-c-zstd", "old.bin", "new.bin", "out.diff"]);
}

#[test]
fn apply_args_follow_the_tool_order() {
    let args = hdiff_apply_args("file.base", "file.diff", "file.out");
    assert_eq!(args, vec!["-f", "-s", "file.base", "file.diff", "file.out"]);
}

#[test]
fn external_outcome_keeps_exit_code_and_stderr() {
    assert!(external_codec_outcome(true, 0, String::new()).is_ok());
    match external_codec_outcome(false, 3, "boom".to_string()) {
        Err(BackupError::ExternalToolError { exit_code, stderr }) => {
            assert_eq!(exit_code, 3);
            assert_eq!(stderr, "boom");
        }
        _ => panic!("a failing exit must surface exit code and stderr"),
    }
}
