//! The move algorithm for one source/destination pair, verified against
//! the filesystem model: resolve the source string, make the requested
//! backup of the destination, then attempt the atomic rename and fall
//! back to a whole-file copy (which deliberately leaves the source in
//! place) unless copying is disabled.

use vstd::prelude::*;
use crate::backup::{
    bare_candidate_spec, lemma_candidate_injective, numbered_candidate_spec, BackupPlanner,
    PlannerPhase,
};
use crate::errors::MvError;
use crate::fsmodel::{has_key, FsModel};
use crate::options::{BackupChoice, Options};
use crate::paths::{contains_nul, resolve_source, resolved_source_spec, valid_path_bytes};

verus! {

/// `t` is the first free numbered candidate: its own slot is free and
/// every lower-numbered slot is taken.
pub open spec fn first_free_target(
    dest: Seq<u8>,
    suffix: Seq<u8>,
    m: Map<Seq<u8>, Seq<u8>>,
    t: Seq<u8>,
) -> bool {
    exists|i: nat|
        t == numbered_candidate_spec(dest, suffix, i)
            && !m.contains_key(numbered_candidate_spec(dest, suffix, i))
            && (forall|j: nat|
                j < i ==> m.contains_key(numbered_candidate_spec(dest, suffix, j)))
}

/// Where a backup of `dest` may land in store `m` under `choice`:
/// `Simple` always uses the bare candidate; `Existing` uses it when free
/// and otherwise probes; `Numbered` always probes from index 0; and
/// `NoBackup` never lands anywhere.
pub open spec fn backup_target_ok(
    choice: BackupChoice,
    dest: Seq<u8>,
    suffix: Seq<u8>,
    m: Map<Seq<u8>, Seq<u8>>,
    t: Seq<u8>,
) -> bool {
    match choice {
        BackupChoice::Simple => t == bare_candidate_spec(dest, suffix),
        BackupChoice::Existing => if !m.contains_key(bare_candidate_spec(dest, suffix)) {
            t == bare_candidate_spec(dest, suffix)
        } else {
            first_free_target(dest, suffix, m, t)
        },
        BackupChoice::Numbered => first_free_target(dest, suffix, m, t),
        BackupChoice::NoBackup => false,
    }
}

/// The store after the backup copy, if one was made.
pub open spec fn backup_effect(
    m: Map<Seq<u8>, Seq<u8>>,
    t: Option<Seq<u8>>,
    dest: Seq<u8>,
) -> Map<Seq<u8>, Seq<u8>> {
    match t {
        Option::Some(p) => m.insert(p, m[dest]),
        Option::None => m,
    }
}

/// The store after a successful atomic rename: the source entry moves to
/// the destination path.
pub open spec fn rename_effect(
    m: Map<Seq<u8>, Seq<u8>>,
    from: Seq<u8>,
    to: Seq<u8>,
) -> Map<Seq<u8>, Seq<u8>> {
    m.remove(from).insert(to, m[from])
}

/// The store after a successful fallback copy: the destination receives
/// the source's content and the source entry stays.
pub open spec fn copy_effect(
    m: Map<Seq<u8>, Seq<u8>>,
    from: Seq<u8>,
    to: Seq<u8>,
) -> Map<Seq<u8>, Seq<u8>> {
    m.insert(to, m[from])
}

/// The view of a decided backup path.
pub open spec fn backup_view(t: Option<Vec<u8>>) -> Option<Seq<u8>> {
    match t {
        Option::Some(p) => Option::Some(p@),
        Option::None => Option::None,
    }
}

/// A store of `s.len()` files cannot hold `k` distinct numbered
/// candidates when `k` exceeds that length: the candidate search is sure
/// to find a free slot among the first `s.len() + 1` indices.
pub proof fn lemma_candidate_pigeonhole(
    s: Seq<(Vec<u8>, Vec<u8>)>,
    dest: Seq<u8>,
    suffix: Seq<u8>,
    k: nat,
)
    requires
        forall|j: nat| j < k ==> has_key(s, numbered_candidate_spec(dest, suffix, j)),
    ensures
        k <= s.len(),
    decreases k,
{
    if k > 0 {
        let c = numbered_candidate_spec(dest, suffix, (k - 1) as nat);
        assert(has_key(s, c));
        let i = choose|i: int| 0 <= i < s.len() && s[i].0@ == c;
        let s2 = s.remove(i);
        s.remove_ensures(i);
        assert forall|j: nat| j < k - 1 implies has_key(
            s2, numbered_candidate_spec(dest, suffix, j)) by {
            let cj = numbered_candidate_spec(dest, suffix, j);
            assert(has_key(s, cj));
            let w = choose|w: int| 0 <= w < s.len() && s[w].0@ == cj;
            lemma_candidate_injective(dest, suffix, j, (k - 1) as nat);
            assert(w != i);
            if w < i {
                assert(s2[w] == s[w]);
            } else {
                assert(s2[w - 1] == s[w]);
            }
        }
        lemma_candidate_pigeonhole(s2, dest, suffix, (k - 1) as nat);
    }
}

/// Whether the backup decision `t` is the right one for store `m`:
/// a backup lands at a law-abiding target exactly when one was requested,
/// the choice allows one, and the destination exists.
pub open spec fn backup_decision_ok(
    opts: Options,
    m: Map<Seq<u8>, Seq<u8>>,
    dest: Seq<u8>,
    t: Option<Seq<u8>>,
) -> bool {
    match t {
        Option::Some(p) => opts.backup_requested_spec()
            && opts.choice_spec() != BackupChoice::NoBackup
            && m.contains_key(dest)
            && backup_target_ok(opts.choice_spec(), dest, opts.suffix_spec(), m, p),
        Option::None => !opts.backup_requested_spec()
            || opts.choice_spec() == BackupChoice::NoBackup
            || !m.contains_key(dest),
    }
}

/// The whole effect of moving `source` to `dest` in store `m`: path
/// validation, then the backup copy, then the rename, falling back to a
/// plain copy (which leaves the source in place) unless `no_copy` forbids
/// it.  `m2` is the store afterwards and `report` what the move says of
/// itself.
pub open spec fn move_step_post(
    m: Map<Seq<u8>, Seq<u8>>,
    opts: Options,
    source: Seq<u8>,
    dest: Seq<u8>,
    rename_ok: bool,
    m2: Map<Seq<u8>, Seq<u8>>,
    report: MoveReport,
) -> bool {
    let rs = resolved_source_spec(opts, source);
    if !valid_path_bytes(rs) || !valid_path_bytes(dest) {
        &&& m2 == m
        &&& report.outcome == Result::<(), MvError>::Err(MvError::InvalidPath)
        &&& report.backup_path is None
        &&& !report.renamed
    } else {
        let t = backup_view(report.backup_path);
        let m1 = backup_effect(m, t, dest);
        &&& backup_decision_ok(opts, m, dest, t)
        &&& if rename_ok && m1.contains_key(rs) {
            &&& m2 == rename_effect(m1, rs, dest)
            &&& report.outcome is Ok
            &&& report.renamed
        } else if !opts.no_copy {
            &&& !report.renamed
            &&& if m1.contains_key(rs) {
                &&& m2 == copy_effect(m1, rs, dest)
                &&& report.outcome is Ok
            } else {
                &&& m2 == m1
                &&& report.outcome == Result::<(), MvError>::Err(MvError::CopyFailed)
            }
        } else {
            &&& m2 == m1
            &&& report.outcome == Result::<(), MvError>::Err(MvError::RenameFailed)
            &&& !report.renamed
        }
    }
}

/// What one move did.
pub struct MoveReport {
    /// Success, or the error that ended the move.
    pub outcome: Result<(), MvError>,
    /// Where the destination was backed up to, if it was.
    pub backup_path: Option<Vec<u8>>,
    /// Whether the atomic rename itself succeeded (as opposed to the
    /// fallback copy).
    pub renamed: bool,
}

/// The termination measure of the probe dialogue.
pub open spec fn planner_measure(planner: BackupPlanner, nbound: u64) -> int {
    match planner.phase {
        PlannerPhase::AwaitDest => nbound + 3,
        PlannerPhase::AwaitBare => nbound + 2,
        PlannerPhase::AwaitNumbered => nbound + 1 - planner.idx,
        _ => 0,
    }
}

/// Move one source to the destination within the model store.
///
/// `rename_ok` models whether the operating system's atomic rename can
/// succeed for this pair at all (it cannot across filesystems, for
/// instance); even then the rename needs the source present.  On rename
/// failure the fallback copies the source's bytes to the destination and
/// deliberately leaves the source in place, unless `no_copy` forbids it,
/// in which case the rename failure is the move's error.
pub fn run_move(
    fs: &mut FsModel,
    opts: &Options,
    source: &Vec<u8>,
    dest: &Vec<u8>,
    rename_ok: bool,
) -> (report: MoveReport)
    requires
        old(fs).wf(),
        old(fs).files@.len() < u64::MAX,
    ensures
        final(fs).wf(),
        final(fs).files@.len() <= old(fs).files@.len() + 2,
        move_step_post(old(fs)@, *opts, source@, dest@, rename_ok, final(fs)@, report),
{
    let ghost m = fs@;

    let resolved = match resolve_source(opts, source) {
        Ok(p) => p,
        Err(_) => {
            return MoveReport {
                outcome: Err(MvError::InvalidPath),
                backup_path: Option::None,
                renamed: false,
            };
        },
    };
    if contains_nul(dest) {
        return MoveReport {
            outcome: Err(MvError::InvalidPath),
            backup_path: Option::None,
            renamed: false,
        };
    }

    // Backup phase: drive the planner's probe dialogue against the store,
    // with the numbered search bounded by the number of files.
    let nbound: u64 = fs.file_count() as u64;
    let mut planner = BackupPlanner::new(opts, dest);
    while planner.is_awaiting() && !(matches!(planner.phase, PlannerPhase::AwaitNumbered)
        && planner.idx > nbound)
        invariant
            fs.wf(),
            fs@ == m,
            fs.files@.len() == nbound,
            nbound < u64::MAX,
            planner.wf(),
            planner.dest@ == dest@,
            planner.suffix@ == opts.suffix_spec(),
            planner.choice == opts.choice_spec(),
            planner.phase is AwaitDest || planner.phase is AwaitBare ==> planner.idx == 0,
            planner.phase is AwaitDest ==> opts.backup_requested_spec(),
            planner.phase is NoAction ==> !opts.backup_requested_spec()
                || opts.choice_spec() == BackupChoice::NoBackup
                || !m.contains_key(dest@),
            planner.phase is AwaitBare ==> opts.backup_requested_spec()
                && m.contains_key(dest@),
            planner.phase is AwaitNumbered ==> opts.backup_requested_spec()
                && m.contains_key(dest@)
                && (planner.choice == BackupChoice::Existing
                    ==> m.contains_key(bare_candidate_spec(dest@, opts.suffix_spec())))
                && (forall|j: nat| j < planner.idx
                    ==> m.contains_key(numbered_candidate_spec(dest@, opts.suffix_spec(), j)))
                && planner.idx <= nbound + 1,
            planner.phase is CopyToBare ==> opts.backup_requested_spec()
                && m.contains_key(dest@)
                && (planner.choice == BackupChoice::Simple
                    || (planner.choice == BackupChoice::Existing
                        && !m.contains_key(bare_candidate_spec(dest@, opts.suffix_spec())))),
            planner.phase is CopyToNumbered ==> opts.backup_requested_spec()
                && m.contains_key(dest@)
                && (planner.choice == BackupChoice::Existing
                    || planner.choice == BackupChoice::Numbered)
                && (planner.choice == BackupChoice::Existing
                    ==> m.contains_key(bare_candidate_spec(dest@, opts.suffix_spec())))
                && !m.contains_key(
                    numbered_candidate_spec(dest@, opts.suffix_spec(), planner.idx as nat))
                && (forall|j: nat| j < planner.idx
                    ==> m.contains_key(numbered_candidate_spec(dest@, opts.suffix_spec(), j))),
        decreases planner_measure(planner, nbound),
    {
        let probe = planner.current_probe();
        let e = fs.exists_path(&probe);
        planner.note_exists(e);
    }

    if planner.is_awaiting() {
        // The loop can only still be waiting with every candidate up to
        // the file count taken, which a finite store cannot manage.
        proof {
            assert forall|j: nat| j < nbound + 1 implies has_key(
                fs.files@, numbered_candidate_spec(dest@, opts.suffix_spec(), j)) by {
                assert(m.contains_key(numbered_candidate_spec(dest@, opts.suffix_spec(), j)));
            }
            lemma_candidate_pigeonhole(fs.files@, dest@, opts.suffix_spec(), (nbound + 1) as nat);
            assert(false);
        }
    }
    let mut backup_path: Option<Vec<u8>> = Option::None;
    if !planner.is_awaiting() {
        match planner.backup_target() {
            Option::Some(t) => {
                match fs.read(dest) {
                    Option::Some(content) => {
                        fs.set_file(&t, content);
                        backup_path = Option::Some(t);
                    },
                    Option::None => {
                        proof {
                            assert(false);
                        }
                    },
                }
            },
            Option::None => {},
        }
    }
    let ghost t_view = backup_view(backup_path);
    let ghost m1 = backup_effect(m, t_view, dest@);
    proof {
        assert(fs@ == m1);
        match t_view {
            Option::Some(p) => {
                if planner.phase is CopyToNumbered {
                    assert(p == numbered_candidate_spec(
                        dest@, opts.suffix_spec(), planner.idx as nat));
                    assert(first_free_target(dest@, opts.suffix_spec(), m, p));
                }
            },
            Option::None => {},
        }
        assert(backup_decision_ok(*opts, m, dest@, t_view));
    }

    // Move phase: atomic rename, then the copy fallback.
    let src_exists = fs.exists_path(&resolved);
    if rename_ok && src_exists {
        match fs.read(&resolved) {
            Option::Some(content) => {
                fs.remove_path(&resolved);
                fs.set_file(dest, content);
            },
            Option::None => {
                proof {
                    assert(false);
                }
            },
        }
        MoveReport { outcome: Ok(()), backup_path, renamed: true }
    } else if !opts.no_copy {
        match fs.read(&resolved) {
            Option::Some(content) => {
                fs.set_file(dest, content);
                MoveReport { outcome: Ok(()), backup_path, renamed: false }
            },
            Option::None => {
                MoveReport {
                    outcome: Err(MvError::CopyFailed),
                    backup_path,
                    renamed: false,
                }
            },
        }
    } else {
        MoveReport {
            outcome: Err(MvError::RenameFailed),
            backup_path,
            renamed: false,
        }
    }
}

/// The trace of a whole invocation: `ms` is the chain of stores the
/// batch passes through, one move step taking each to the next.
pub open spec fn batch_trace(
    ms: Seq<Map<Seq<u8>, Seq<u8>>>,
    m0: Map<Seq<u8>, Seq<u8>>,
    mn: Map<Seq<u8>, Seq<u8>>,
    opts: Options,
    sources: Seq<Vec<u8>>,
    dest: Seq<u8>,
    rename_ok: bool,
    reports: Seq<MoveReport>,
) -> bool {
    &&& ms.len() == sources.len() + 1
    &&& ms[0] == m0
    &&& ms[sources.len() as int] == mn
    &&& reports.len() == sources.len()
    &&& forall|i: int| 0 <= i < sources.len()
        ==> move_step_post(ms[i], opts, sources[i]@, dest, rename_ok, ms[i + 1], reports[i])
}

/// Move every source to the destination in turn.  A failing source never
/// stops the batch: each one is attempted and reported, in order, later
/// sources acting on the store the earlier ones left behind.
pub fn run_batch(
    fs: &mut FsModel,
    opts: &Options,
    sources: &Vec<Vec<u8>>,
    dest: &Vec<u8>,
    rename_ok: bool,
) -> (reports: Vec<MoveReport>)
    requires
        old(fs).wf(),
        old(fs).files@.len() + 2 * sources@.len() < u64::MAX,
    ensures
        final(fs).wf(),
        reports@.len() == sources@.len(),
        exists|ms: Seq<Map<Seq<u8>, Seq<u8>>>|
            batch_trace(ms, old(fs)@, final(fs)@, *opts, sources@, dest@, rename_ok, reports@),
{
    let mut reports: Vec<MoveReport> = Vec::new();
    let ghost mut ms: Seq<Map<Seq<u8>, Seq<u8>>> = seq![fs@];
    let mut k: usize = 0;
    while k < sources.len()
        invariant
            fs.wf(),
            k <= sources@.len(),
            old(fs).files@.len() + 2 * sources@.len() < u64::MAX,
            fs.files@.len() <= old(fs).files@.len() + 2 * k,
            reports@.len() == k,
            ms.len() == k + 1,
            ms[0] == old(fs)@,
            ms[k as int] == fs@,
            forall|i: int| 0 <= i < k
                ==> move_step_post(
                    ms[i], *opts, sources@[i]@, dest@, rename_ok, ms[i + 1], reports@[i]),
        decreases sources@.len() - k,
    {
        let report = run_move(fs, opts, &sources[k], dest, rename_ok);
        reports.push(report);
        proof {
            ms = ms.push(fs@);
        }
        k += 1;
    }
    proof {
        assert(batch_trace(
            ms, old(fs)@, fs@, *opts, sources@, dest@, rename_ok, reports@));
    }
    reports
}

/// After a successful atomic rename of distinct paths, the source path
/// no longer exists and the destination holds the source's bytes.
pub proof fn lemma_rename_moves_the_file(
    m: Map<Seq<u8>, Seq<u8>>,
    rs: Seq<u8>,
    dest: Seq<u8>,
)
    requires
        m.contains_key(rs),
        rs != dest,
    ensures
        !rename_effect(m, rs, dest).contains_key(rs),
        rename_effect(m, rs, dest).contains_key(dest),
        rename_effect(m, rs, dest)[dest] == m[rs],
{
}

/// After the fallback copy, the destination holds the source's bytes and
/// the source still exists, unchanged: the fallback is a copy, not a
/// move.
pub proof fn lemma_fallback_keeps_the_source(
    m: Map<Seq<u8>, Seq<u8>>,
    rs: Seq<u8>,
    dest: Seq<u8>,
)
    requires
        m.contains_key(rs),
        rs != dest,
    ensures
        copy_effect(m, rs, dest).contains_key(dest),
        copy_effect(m, rs, dest)[dest] == m[rs],
        copy_effect(m, rs, dest).contains_key(rs),
        copy_effect(m, rs, dest)[rs] == m[rs],
{
}

/// Backup precedes the destructive write: when a backup was made to a
/// path `t` distinct from the destination and from the resolved source,
/// then whatever the move phase then did, the backup file holds the
/// destination's pre-move content.
pub proof fn lemma_backup_survives_move(
    m: Map<Seq<u8>, Seq<u8>>,
    m1: Map<Seq<u8>, Seq<u8>>,
    m2: Map<Seq<u8>, Seq<u8>>,
    t: Seq<u8>,
    dest: Seq<u8>,
    rs: Seq<u8>,
)
    requires
        m.contains_key(dest),
        m1 == backup_effect(m, Option::Some(t), dest),
        m2 == m1 || m2 == rename_effect(m1, rs, dest) || m2 == copy_effect(m1, rs, dest),
        t != dest,
        t != rs,
    ensures
        m2.contains_key(t),
        m2[t] == m[dest],
{
}

} // verus!
