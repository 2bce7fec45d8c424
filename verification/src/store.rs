use vstd::prelude::*;

use crate::errors::BackupError;
use crate::names::base_artifact_name;
use crate::names::basename_chars;
use crate::names::generation_dir_name;
use crate::names::generation_dir_name_spec;
use crate::names::has_file_name;
use crate::names::lemma_generation_name_parses_back;
use crate::names::parse_gen_index;
use crate::names::parse_generation_name;
use crate::names::Timestamp;

verus! {

/// One entry of a root's directory listing, as plain values.
pub struct EntryInfo {
    pub name: String,
    pub is_dir: bool,
}

/// A generation found under a root: its directory name and the index encoded
/// in it.
pub struct BackupGenInfo {
    pub dir_name: String,
    pub base_idx: u64,
}

/// What to put on disk for a new generation: the directory to create under
/// the root, and the name of the base snapshot to copy the working file to
/// inside it.
pub struct GenerationPlan {
    pub dir_name: String,
    pub base_file_name: String,
}

/// Outcome of resolving a root: either the latest existing generation, or a
/// plan for the first one (index 1) where the root has none.
pub enum GenResolution {
    Existing(BackupGenInfo),
    Create(GenerationPlan),
}

/// The generation index an entry contributes: directories whose name matches
/// the generation pattern count, everything else (files, foreign names,
/// unparseable indices) is ignored.
pub open spec fn entry_gen_index(e: EntryInfo) -> Option<u64> {
    if e.is_dir {
        parse_gen_index(e.name@)
    } else {
        None
    }
}

/// `idx` is the numerically largest generation index among the entries, and
/// some entry carries it.
pub open spec fn is_latest_index(entries: Seq<EntryInfo>, idx: u64) -> bool {
    (exists|i: int|
        0 <= i < entries.len() && #[trigger] entry_gen_index(entries[i]) == Some(idx)) && (forall|
        i: int,
    |
        0 <= i < entries.len() ==> (#[trigger] entry_gen_index(entries[i]) is Some
            ==> entry_gen_index(entries[i])->Some_0 <= idx))
}

/// No entry of the listing is a generation directory.
pub open spec fn no_generation(entries: Seq<EntryInfo>) -> bool {
    forall|i: int| 0 <= i < entries.len() ==> #[trigger] entry_gen_index(entries[i]) is None
}

/// Scans a root's directory listing for the latest generation: the directory
/// matching the generation-naming pattern with the numerically maximum index
/// (numeric, not lexicographic, comparison). Non-matching names, plain files
/// and unparseable indices are excluded rather than failing the scan; `None`
/// when nothing matches.
pub fn get_latest_generation(entries: &Vec<EntryInfo>) -> (r: Option<BackupGenInfo>)
    ensures
        r matches Some(g) ==> is_latest_index(entries@, g.base_idx),
        r matches Some(g) ==> exists|i: int|
            0 <= i < entries@.len() && #[trigger] entry_gen_index(entries@[i]) == Some(g.base_idx)
                && entries@[i].name@ == g.dir_name@,
        r is None <==> no_generation(entries@),
{
    let mut best: Option<BackupGenInfo> = None;
    let mut i: usize = 0;
    while i < entries.len()
        invariant
            i <= entries@.len(),
            best matches Some(g) ==> exists|k: int|
                0 <= k < i && #[trigger] entry_gen_index(entries@[k]) == Some(g.base_idx)
                    && entries@[k].name@ == g.dir_name@,
            best matches Some(g) ==> forall|k: int|
                0 <= k < i ==> (#[trigger] entry_gen_index(entries@[k]) is Some ==> entry_gen_index(
                    entries@[k],
                )->Some_0 <= g.base_idx),
            best is None ==> forall|k: int|
                0 <= k < i ==> #[trigger] entry_gen_index(entries@[k]) is None,
        decreases entries@.len() - i,
    {
        let e = &entries[i];
        if e.is_dir {
            match parse_generation_name(e.name.as_str()) {
                Some(idx) => {
                    proof {
                        assert(entry_gen_index(entries@[i as int]) == Some(idx));
                    }
                    let better = match &best {
                        Some(g) => idx > g.base_idx,
                        None => true,
                    };
                    if better {
                        best = Some(BackupGenInfo { dir_name: e.name.clone(), base_idx: idx });
                        proof {
                            assert(entries@[i as int].name@ == e.name@);
                        }
                    }
                },
                None => {
                    proof {
                        assert(entry_gen_index(entries@[i as int]) is None);
                    }
                },
            }
        } else {
            proof {
                assert(entry_gen_index(entries@[i as int]) is None);
            }
        }
        i += 1;
    }
    best
}

/// Plans a new generation with the given index: the directory is named
/// `base<index>_<timestamp>`, and the base snapshot inside it is named after
/// the working file's basename plus `.base`. The planned directory name
/// parses back to exactly `index`, so later scans find it. Fails with
/// `InvalidNameError` exactly when the working file path has no file-name
/// component.
pub fn create_new_generation(idx: u64, ts: &Timestamp, work_file: &str) -> (r: Result<
    GenerationPlan,
    BackupError,
>)
    requires
        ts.valid(),
    ensures
        r matches Ok(p) ==> p.dir_name@ == generation_dir_name_spec(idx, *ts),
        r matches Ok(p) ==> p.base_file_name@ == basename_chars(work_file@) + ".base"@,
        r matches Ok(p) ==> parse_gen_index(p.dir_name@) == Some(idx),
        r is Ok <==> has_file_name(work_file@),
        r matches Err(e) ==> e is InvalidNameError,
{
    let base_file_name = match base_artifact_name(work_file) {
        Ok(n) => n,
        Err(e) => {
            return Err(e);
        },
    };
    let dir_name = generation_dir_name(idx, ts);
    proof {
        lemma_generation_name_parses_back(idx, *ts);
    }
    Ok(GenerationPlan { dir_name, base_file_name })
}

/// The index a resolution settles on: an existing generation's own index, or
/// 1 for the first generation of a previously empty root.
pub open spec fn resolution_index(r: GenResolution) -> u64 {
    match r {
        GenResolution::Existing(g) => g.base_idx,
        GenResolution::Create(_) => 1,
    }
}

/// Resolves the generation to work in: the latest existing generation when
/// the root has one (its index is the maximum over the listing), otherwise a
/// plan to create generation index 1 — the maximum of no indices, defaulted
/// to 0, plus one. Never leaves a root without at least one (planned)
/// generation; fails only when a first generation is needed and the working
/// file path has no file-name component.
pub fn resolve_generation_dir(entries: &Vec<EntryInfo>, work_file: &str, now: &Timestamp) -> (r:
    Result<GenResolution, BackupError>)
    requires
        now.valid(),
    ensures
        !no_generation(entries@) ==> (r matches Ok(res) && res matches GenResolution::Existing(g)
            && is_latest_index(entries@, g.base_idx) && exists|i: int|
            0 <= i < entries@.len() && #[trigger] entry_gen_index(entries@[i]) == Some(g.base_idx)
                && entries@[i].name@ == g.dir_name@),
        no_generation(entries@) && has_file_name(work_file@) ==> (r matches Ok(res)
            && res matches GenResolution::Create(p) && p.dir_name@ == generation_dir_name_spec(
            1,
            *now,
        ) && p.base_file_name@ == basename_chars(work_file@) + ".base"@ && parse_gen_index(
            p.dir_name@,
        ) == Some(1u64)),
        no_generation(entries@) && !has_file_name(work_file@) ==> r matches Err(
            BackupError::InvalidNameError,
        ),
        r matches Ok(res) ==> (no_generation(entries@) ==> resolution_index(res) == 1),
        r matches Ok(res) ==> (!no_generation(entries@) ==> is_latest_index(
            entries@,
            resolution_index(res),
        )),
{
    match get_latest_generation(entries) {
        Some(info) => Ok(GenResolution::Existing(info)),
        None => {
            match create_new_generation(1, now, work_file) {
                Ok(plan) => Ok(GenResolution::Create(plan)),
                Err(e) => Err(e),
            }
        },
    }
}

} // verus!
