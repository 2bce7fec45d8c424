use vstd::prelude::*;
use vstd::string::StringExecFns;

use crate::errors::BackupError;

verus! {

/// The argument list for the external tool's produce direction, in the order
/// the tool requires: force-overwrite flag, single-threaded-safe flag, the
/// zstd compression selector, then the old, new and delta paths.
pub fn hdiff_produce_args(old_file: &str, new_file: &str, diff_file: &str) -> (r: Vec<String>)
    ensures
        r@.len() == 6,
        r@[0]@ == "-f"@,
        r@[1]@ == "-s"@,
        r@[2]@ == "-c-zstd"@,
        r@[3]@ == old_file@,
        r@[4]@ == new_file@,
        r@[5]@ == diff_file@,
{
    let mut v: Vec<String> = Vec::new();
    v.push(String::from_str("-f"));
    v.push(String::from_str("-s"));
    v.push(String::from_str("-c-zstd"));
    v.push(String::from_str(old_file));
    v.push(String::from_str(new_file));
    v.push(String::from_str(diff_file));
    v
}

/// The argument list for the external tool's apply direction: force-overwrite
/// flag, single-threaded-safe flag, then the base, delta and output paths.
pub fn hdiff_apply_args(base_file: &str, diff_file: &str, out_file: &str) -> (r: Vec<String>)
    ensures
        r@.len() == 5,
        r@[0]@ == "-f"@,
        r@[1]@ == "-s"@,
        r@[2]@ == base_file@,
        r@[3]@ == diff_file@,
        r@[4]@ == out_file@,
{
    let mut v: Vec<String> = Vec::new();
    v.push(String::from_str("-f"));
    v.push(String::from_str("-s"));
    v.push(String::from_str(base_file));
    v.push(String::from_str(diff_file));
    v.push(String::from_str(out_file));
    v
}

/// Maps an external tool's exit to the codec outcome: a successful exit means
/// the delta was produced or applied; any other exit surfaces the exit code
/// and the captured stderr (stdout is ignored), never a silent failure.
pub fn external_codec_outcome(exit_success: bool, exit_code: i32, stderr: String) -> (r: Result<
    (),
    BackupError,
>)
    ensures
        exit_success <==> r is Ok,
        !exit_success ==> (r matches Err(e) && e matches BackupError::ExternalToolError {
            exit_code: c,
            stderr: s,
        } && c == exit_code && s@ == stderr@),
{
    if exit_success {
        Ok(())
    } else {
        Err(BackupError::ExternalToolError { exit_code, stderr })
    }
}

} // verus!
