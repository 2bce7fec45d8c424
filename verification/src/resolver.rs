use vstd::prelude::*;
use vstd::string::StrSliceExecFns;
use vstd::string::StringExecFns;

use crate::errors::BackupError;
use crate::names::base_artifact_name;
use crate::names::basename_chars;
use crate::names::has_file_name;
use crate::text::contains_seq;
use crate::text::contains_str;
use crate::text::count_char;
use crate::text::count_char_str;
use crate::text::find_first_str;
use crate::text::first_match_idx;
use crate::text::lemma_count_char_concat;
use crate::text::lemma_count_char_singleton;
use crate::text::lemma_first_match_unique;

verus! {

/// `p` is where the original file name ends inside a new-scheme delta name:
/// the dot that begins the three trailing dot-segments (timestamp, algorithm,
/// `diff`), i.e. the third-from-last dot.
pub open spec fn is_new_scheme_cut(s: Seq<char>, p: int) -> bool {
    0 <= p < s.len() && s[p] == '.' && count_char(s.subrange(p, s.len() as int), '.') == 3
}

/// The third-from-last dot's position (meaningful when the name has at least
/// three dots; there is at most one such position).
pub open spec fn new_scheme_cut(s: Seq<char>) -> int {
    choose|p: int| is_new_scheme_cut(s, p)
}

/// A delta name follows the new scheme when it has at least three dots and
/// names one of the two delta algorithms between dots.
pub open spec fn is_new_scheme(s: Seq<char>) -> bool {
    count_char(s, '.') >= 3 && (contains_seq(s, ".bsdiff."@) || contains_seq(s, ".hdiff."@))
}

/// The legacy scheme cuts at the first occurrence of `.20` (a year-2000-era
/// timestamp start); a name without one is kept whole. This split at the
/// *first* `.20` is ambiguous for original file names that themselves contain
/// `.20`, a known limitation of the legacy naming scheme.
pub open spec fn legacy_prefix(s: Seq<char>) -> Seq<char> {
    if contains_seq(s, ".20"@) {
        s.subrange(0, first_match_idx(s, ".20"@))
    } else {
        s
    }
}

/// The base-snapshot name inferred from a delta artifact's file name: the
/// original name recovered under whichever scheme applies, with `.base`
/// appended.
pub open spec fn guessed_base_name(s: Seq<char>) -> Seq<char> {
    if is_new_scheme(s) {
        s.subrange(0, new_scheme_cut(s)) + ".base"@
    } else {
        legacy_prefix(s) + ".base"@
    }
}

/// Only one dot has exactly two dots after it.
pub proof fn lemma_new_scheme_cut_unique(s: Seq<char>, p1: int, p2: int)
    requires
        is_new_scheme_cut(s, p1),
        is_new_scheme_cut(s, p2),
    ensures
        p1 == p2,
{
    if p1 < p2 {
        lemma_cut_order(s, p1, p2);
    } else if p2 < p1 {
        lemma_cut_order(s, p2, p1);
    }
}

/// Of two dots, the earlier one has the strictly larger suffix count.
proof fn lemma_cut_order(s: Seq<char>, p1: int, p2: int)
    requires
        0 <= p1 < p2 < s.len(),
        s[p1] == '.',
    ensures
        count_char(s.subrange(p1, s.len() as int), '.') > count_char(
            s.subrange(p2, s.len() as int),
            '.',
        ),
{
    assert(s.subrange(p1, s.len() as int) =~= s.subrange(p1, p2) + s.subrange(
        p2,
        s.len() as int,
    ));
    lemma_count_char_concat(s.subrange(p1, p2), s.subrange(p2, s.len() as int), '.');
    assert(s.subrange(p1, p2)[0] == '.');
    crate::text::lemma_count_char_one(s.subrange(p1, p2), '.', 0);
}

/// Finds the third-from-last dot of a name with at least three dots.
fn find_new_scheme_cut(s: &str) -> (r: usize)
    requires
        count_char(s@, '.') >= 3,
    ensures
        is_new_scheme_cut(s@, r as int),
        r as int == new_scheme_cut(s@),
{
    let len = s.unicode_len();
    let mut i: usize = len;
    let mut seen: usize = 0;
    loop
        invariant
            len == s@.len(),
            i <= len,
            count_char(s@, '.') >= 3,
            seen == count_char(s@.subrange(i as int, len as int), '.'),
            seen <= 2,
        decreases i,
    {
        proof {
            if i == 0 {
                assert(s@.subrange(0, len as int) =~= s@);
                assert(false);
            }
        }
        let c = s.get_char(i - 1);
        proof {
            assert(s@.subrange(i - 1, len as int) =~= seq![s@[i - 1]] + s@.subrange(
                i as int,
                len as int,
            ));
            lemma_count_char_concat(seq![s@[i - 1]], s@.subrange(i as int, len as int), '.');
            lemma_count_char_singleton(s@[i - 1], '.');
        }
        if c == '.' {
            if seen == 2 {
                proof {
                    assert(is_new_scheme_cut(s@, i - 1));
                    assert(is_new_scheme_cut(s@, new_scheme_cut(s@)));
                    lemma_new_scheme_cut_unique(s@, new_scheme_cut(s@), i - 1);
                }
                return i - 1;
            }
            seen += 1;
        }
        i -= 1;
    }
}

/// Infers the base-snapshot name a delta artifact was produced against, from
/// its file name alone. A name with at least three dots naming a delta
/// algorithm loses its trailing three dot-segments; otherwise the name is cut
/// at the first `.20`; `.base` is appended either way.
pub fn guess_base_name(diff_filename: &str) -> (r: String)
    ensures
        r@ == guessed_base_name(diff_filename@),
{
    let dots = count_char_str(diff_filename, '.');
    let new_scheme = dots >= 3 && (contains_str(diff_filename, ".bsdiff.") || contains_str(
        diff_filename,
        ".hdiff.",
    ));
    proof {
        assert(new_scheme == is_new_scheme(diff_filename@));
    }
    if new_scheme {
        let p = find_new_scheme_cut(diff_filename);
        let prefix = diff_filename.substring_char(0, p);
        let r = String::from_str(prefix).concat(".base");
        proof {
            assert(r@ =~= guessed_base_name(diff_filename@));
        }
        r
    } else {
        match find_first_str(diff_filename, ".20") {
            Some(idx) => {
                proof {
                    lemma_first_match_unique(diff_filename@, ".20"@, idx as int);
                }
                let prefix = diff_filename.substring_char(0, idx);
                let r = String::from_str(prefix).concat(".base");
                proof {
                    assert(r@ =~= guessed_base_name(diff_filename@));
                }
                r
            },
            None => {
                let r = String::from_str(diff_filename).concat(".base");
                proof {
                    assert(r@ =~= guessed_base_name(diff_filename@));
                }
                r
            },
        }
    }
}

/// Picks the base a delta must be applied against. `guessed_exists` and
/// `fallback_exists` report whether the guessed name and the working file's
/// own `<basename>.base` exist beside the delta (resolution inspects names
/// and existence only, never file contents). The guess wins when present;
/// otherwise the working file's base is the last resort; when both are
/// missing, resolution stops with the guessed name rather than risking a
/// wrong base.
pub fn resolve_base_name(
    diff_filename: &str,
    work_file: &str,
    guessed_exists: bool,
    fallback_exists: bool,
) -> (r: Result<String, BackupError>)
    ensures
        guessed_exists ==> (r matches Ok(n) && n@ == guessed_base_name(diff_filename@)),
        !guessed_exists && !has_file_name(work_file@) ==> r matches Err(
            BackupError::InvalidNameError,
        ),
        !guessed_exists && has_file_name(work_file@) && fallback_exists ==> (r matches Ok(n) && n@
            == basename_chars(work_file@) + ".base"@),
        !guessed_exists && has_file_name(work_file@) && !fallback_exists ==> (r matches Err(e)
            && e matches BackupError::MissingBaseError { guessed_name } && guessed_name@
            == guessed_base_name(diff_filename@)),
{
    let guessed = guess_base_name(diff_filename);
    if guessed_exists {
        return Ok(guessed);
    }
    let fallback = match base_artifact_name(work_file) {
        Ok(n) => n,
        Err(e) => {
            return Err(e);
        },
    };
    if fallback_exists {
        Ok(fallback)
    } else {
        Err(BackupError::MissingBaseError { guessed_name: guessed })
    }
}

} // verus!
