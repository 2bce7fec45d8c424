use vstd::prelude::*;
use vstd::string::StrSliceExecFns;
use vstd::string::StringExecFns;

use crate::errors::BackupError;
use crate::text::char_is_digit;
use crate::text::dec_digits;
use crate::text::digits_val;
use crate::text::is_ascii_digit;
use crate::text::lemma_dec_digits_props;
use crate::text::lemma_padded_digits_props;
use crate::text::padded_dec;
use crate::text::padded_digits;
use crate::text::u64_to_dec;

verus! {

/// A wall-clock reading, as plain fields, used only to stamp names of newly
/// created generation directories (the index, not the timestamp, orders
/// generations).
pub struct Timestamp {
    pub year: u64,
    pub month: u64,
    pub day: u64,
    pub hour: u64,
    pub minute: u64,
    pub second: u64,
}

impl Timestamp {
    /// Field ranges of a calendar date and a time of day.
    pub open spec fn valid(&self) -> bool {
        self.year <= 9999 && 1 <= self.month <= 12 && 1 <= self.day <= 31 && self.hour <= 23
            && self.minute <= 59 && self.second <= 59
    }
}

/// The `YYYYMMDD_HHMMSS` rendering of a timestamp.
pub open spec fn timestamp_chars(ts: Timestamp) -> Seq<char> {
    padded_digits(ts.year as nat, 4) + padded_digits(ts.month as nat, 2) + padded_digits(
        ts.day as nat,
        2,
    ) + "_"@ + padded_digits(ts.hour as nat, 2) + padded_digits(ts.minute as nat, 2)
        + padded_digits(ts.second as nat, 2)
}

/// The name of a generation directory: `base<index>_<YYYYMMDD_HHMMSS>`.
pub open spec fn generation_dir_name_spec(idx: u64, ts: Timestamp) -> Seq<char> {
    "base"@ + dec_digits(idx as nat) + "_"@ + timestamp_chars(ts)
}

/// Renders a timestamp as `YYYYMMDD_HHMMSS`.
pub fn format_timestamp(ts: &Timestamp) -> (r: String)
    requires
        ts.valid(),
    ensures
        r@ == timestamp_chars(*ts),
{
    let mut r = padded_dec(ts.year, 4);
    r.append(padded_dec(ts.month, 2).as_str());
    r.append(padded_dec(ts.day, 2).as_str());
    r.append("_");
    r.append(padded_dec(ts.hour, 2).as_str());
    r.append(padded_dec(ts.minute, 2).as_str());
    r.append(padded_dec(ts.second, 2).as_str());
    proof {
        assert(r@ =~= timestamp_chars(*ts));
    }
    r
}

/// Builds the directory name of a new generation with the given index.
pub fn generation_dir_name(idx: u64, ts: &Timestamp) -> (r: String)
    requires
        ts.valid(),
    ensures
        r@ == generation_dir_name_spec(idx, *ts),
{
    let mut r = String::from_str("base");
    r.append(u64_to_dec(idx).as_str());
    r.append("_");
    r.append(format_timestamp(ts).as_str());
    proof {
        assert(r@ =~= generation_dir_name_spec(idx, *ts));
    }
    r
}

/// `j` marks a generation-pattern match in `s`: the name starts with `base`,
/// positions 4 to `j` hold at least one decimal digit, and `s[j]` is the
/// underscore that separates index from timestamp.
pub open spec fn is_gen_match_at(s: Seq<char>, j: int) -> bool {
    4 < j < s.len() && s.subrange(0, 4) == "base"@ && s[j] == '_' && (forall|k: int|
        4 <= k < j ==> is_ascii_digit(s[k]))
}

/// The name matches the generation-naming pattern `base<digits>_...`.
pub open spec fn gen_name_matches(s: Seq<char>) -> bool {
    exists|j: int| is_gen_match_at(s, j)
}

/// Position of the underscore ending the digit run (meaningful only when the
/// name matches; there is at most one such position).
pub open spec fn gen_match_idx(s: Seq<char>) -> int {
    choose|j: int| is_gen_match_at(s, j)
}

/// The generation index a directory name encodes: the digits between `base`
/// and the following underscore, if the name matches the pattern and the
/// digits fit the index type (otherwise the name is treated as non-matching).
pub open spec fn parse_gen_index(s: Seq<char>) -> Option<u64> {
    if gen_name_matches(s) {
        let v = digits_val(s.subrange(4, gen_match_idx(s)));
        if v <= u64::MAX {
            Some(v as u64)
        } else {
            None
        }
    } else {
        None
    }
}

/// At most one position can end the digit run: the underscore itself is not
/// a digit.
pub proof fn lemma_gen_match_unique(s: Seq<char>, j1: int, j2: int)
    requires
        is_gen_match_at(s, j1),
        is_gen_match_at(s, j2),
    ensures
        j1 == j2,
{
    assert('_' as u32 == 95);
    if j1 < j2 {
        assert(is_ascii_digit(s[j1]));
    } else if j2 < j1 {
        assert(is_ascii_digit(s[j2]));
    }
}

/// Extracts the generation index from a directory name, `None` when the name
/// does not match the `base<digits>_` pattern or the digits overflow.
pub fn parse_generation_name(name: &str) -> (r: Option<u64>)
    ensures
        r == parse_gen_index(name@),
{
    proof {
        reveal_strlit("base");
    }
    let len = name.unicode_len();
    if len < 6 {
        proof {
            assert forall|j: int| !is_gen_match_at(name@, j) by {}
        }
        return None;
    }
    if !(name.get_char(0) == 'b' && name.get_char(1) == 'a' && name.get_char(2) == 's'
        && name.get_char(3) == 'e') {
        proof {
            assert forall|j: int| !is_gen_match_at(name@, j) by {
                if 4 < j < name@.len() && name@.subrange(0, 4) == "base"@ {
                    assert(name@[0] == name@.subrange(0, 4)[0]);
                    assert(name@[1] == name@.subrange(0, 4)[1]);
                    assert(name@[2] == name@.subrange(0, 4)[2]);
                    assert(name@[3] == name@.subrange(0, 4)[3]);
                }
            }
        }
        return None;
    }
    let mut i: usize = 4;
    let mut val: u64 = 0;
    let mut overflow: bool = false;
    loop
        invariant
            len == name@.len(),
            6 <= len,
            4 <= i <= len,
            forall|k: int| 4 <= k < i ==> is_ascii_digit(name@[k]),
            !overflow ==> val == digits_val(name@.subrange(4, i as int)),
            overflow ==> digits_val(name@.subrange(4, i as int)) > u64::MAX,
        ensures
            4 <= i <= len,
            forall|k: int| 4 <= k < i ==> is_ascii_digit(name@[k]),
            !overflow ==> val == digits_val(name@.subrange(4, i as int)),
            overflow ==> digits_val(name@.subrange(4, i as int)) > u64::MAX,
            i == len || !is_ascii_digit(name@[i as int]),
        decreases len - i,
    {
        if i == len {
            break ;
        }
        let c = name.get_char(i);
        if !char_is_digit(c) {
            break ;
        }
        let d = (c as u32 - 48) as u64;
        proof {
            assert(name@.subrange(4, i + 1).drop_last() =~= name@.subrange(4, i as int));
            assert(name@.subrange(4, i + 1).last() == name@[i as int]);
        }
        if overflow {
            proof {
                assert(digits_val(name@.subrange(4, i + 1)) == digits_val(
                    name@.subrange(4, i as int),
                ) * 10 + d);
            }
        } else {
            let extended = match val.checked_mul(10) {
                Some(v10) => v10.checked_add(d),
                None => None,
            };
            match extended {
                Some(v) => {
                    val = v;
                },
                None => {
                    overflow = true;
                },
            }
        }
        i += 1;
    }
    // The digit run ends at `i`; a match needs at least one digit and an
    // underscore right after the run.
    if i == 4 {
        proof {
            assert forall|j: int| !is_gen_match_at(name@, j) by {
                if 4 < j < name@.len() && is_gen_match_at(name@, j) {
                    assert(is_ascii_digit(name@[4]));
                }
            }
        }
        return None;
    }
    if i == len {
        proof {
            assert forall|j: int| !is_gen_match_at(name@, j) by {
                if is_gen_match_at(name@, j) {
                    assert(is_ascii_digit(name@[j]));
                    assert('_' as u32 == 95);
                }
            }
        }
        return None;
    }
    let c = name.get_char(i);
    if c != '_' {
        proof {
            assert forall|j: int| !is_gen_match_at(name@, j) by {
                if is_gen_match_at(name@, j) {
                    if j < i as int {
                        assert('_' as u32 == 95);
                        assert(is_ascii_digit(name@[j]));
                    } else if j > i as int {
                        assert(is_ascii_digit(name@[i as int]));
                    }
                }
            }
        }
        return None;
    }
    proof {
        assert(name@.subrange(0, 4) =~= "base"@);
        assert(is_gen_match_at(name@, i as int));
        assert(is_gen_match_at(name@, gen_match_idx(name@)));
        lemma_gen_match_unique(name@, gen_match_idx(name@), i as int);
    }
    if overflow {
        None
    } else {
        Some(val)
    }
}

/// A generation directory name built for index `idx` parses back to exactly
/// `idx`: a later scan of the root recovers the index that creation embedded
/// in the name.
pub proof fn lemma_generation_name_parses_back(idx: u64, ts: Timestamp)
    ensures
        parse_gen_index(generation_dir_name_spec(idx, ts)) == Some(idx),
{
    reveal_strlit("base");
    reveal_strlit("_");
    let s = generation_dir_name_spec(idx, ts);
    lemma_dec_digits_props(idx as nat);
    let d = dec_digits(idx as nat);
    let j: int = 4 + d.len() as int;
    lemma_padded_digits_props(ts.year as nat, 4);
    lemma_padded_digits_props(ts.month as nat, 2);
    lemma_padded_digits_props(ts.day as nat, 2);
    lemma_padded_digits_props(ts.hour as nat, 2);
    lemma_padded_digits_props(ts.minute as nat, 2);
    lemma_padded_digits_props(ts.second as nat, 2);
    assert(timestamp_chars(ts).len() == 15);
    assert(s.len() == 5 + d.len() + 15);
    assert(s.subrange(0, 4) =~= "base"@);
    assert(s[j] == '_');
    assert forall|k: int| 4 <= k < j implies is_ascii_digit(s[k]) by {
        assert(s[k] == d[k - 4]);
    }
    assert(is_gen_match_at(s, j));
    assert(is_gen_match_at(s, gen_match_idx(s)));
    lemma_gen_match_unique(s, gen_match_idx(s), j);
    assert(s.subrange(4, j) =~= d);
}

/// A path separator, either direction.
pub open spec fn is_path_sep(c: char) -> bool {
    c == '/' || c == '\\'
}

/// `i` starts the file-name component of `s`: nothing from `i` on is a
/// separator, and `i` is the string's start or sits right after a separator.
pub open spec fn is_basename_start(s: Seq<char>, i: int) -> bool {
    0 <= i <= s.len() && (i == 0 || is_path_sep(s[i - 1])) && (forall|k: int|
        i <= k < s.len() ==> !is_path_sep(s[k]))
}

/// The start of the file-name component (there is exactly one such position).
pub open spec fn basename_start(s: Seq<char>) -> int {
    choose|i: int| is_basename_start(s, i)
}

/// The file-name component of a path: everything after the last separator.
pub open spec fn basename_chars(s: Seq<char>) -> Seq<char> {
    s.subrange(basename_start(s), s.len() as int)
}

/// The path has a non-empty file-name component.
pub open spec fn has_file_name(s: Seq<char>) -> bool {
    basename_start(s) < s.len()
}

/// The start of the file-name component is unique.
pub proof fn lemma_basename_start_unique(s: Seq<char>, i1: int, i2: int)
    requires
        is_basename_start(s, i1),
        is_basename_start(s, i2),
    ensures
        i1 == i2,
{
    if i1 < i2 {
        assert(!is_path_sep(s[i2 - 1]));
    } else if i2 < i1 {
        assert(!is_path_sep(s[i1 - 1]));
    }
}

/// Finds where the file-name component of `path` starts (its length when the
/// path ends in a separator or is empty).
pub fn file_name_start(path: &str) -> (r: usize)
    ensures
        r as int == basename_start(path@),
        is_basename_start(path@, r as int),
{
    let len = path.unicode_len();
    let mut i: usize = len;
    loop
        invariant
            len == path@.len(),
            i <= len,
            forall|k: int| i <= k < len ==> !is_path_sep(path@[k]),
        ensures
            i <= len,
            forall|k: int| i <= k < len ==> !is_path_sep(path@[k]),
            i == 0 || is_path_sep(path@[i - 1]),
        decreases i,
    {
        if i == 0 {
            break ;
        }
        let c = path.get_char(i - 1);
        if c == '/' || c == '\\' {
            break ;
        }
        i -= 1;
    }
    proof {
        assert(is_basename_start(path@, i as int));
        assert(is_basename_start(path@, basename_start(path@)));
        lemma_basename_start_unique(path@, i as int, basename_start(path@));
    }
    i
}

/// The name of a generation's base snapshot for a working file: the file's
/// basename (not its full path) with `.base` appended, so relocating the
/// working file while keeping its name preserves continuity. A path with no
/// file-name component is rejected with `InvalidNameError` before any I/O.
pub fn base_artifact_name(work_file: &str) -> (r: Result<String, BackupError>)
    ensures
        r matches Ok(n) ==> has_file_name(work_file@) && n@ == basename_chars(work_file@)
            + ".base"@,
        r is Ok <==> has_file_name(work_file@),
        r matches Err(e) ==> e is InvalidNameError,
{
    let len = work_file.unicode_len();
    let start = file_name_start(work_file);
    if start == len {
        return Err(BackupError::InvalidNameError);
    }
    let base = work_file.substring_char(start, len);
    Ok(String::from_str(base).concat(".base"))
}

} // verus!
