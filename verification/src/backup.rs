//! Backup naming and the backup decision machine.
//!
//! A backup candidate is `dest + suffix` (the bare candidate) or
//! `dest + suffix + i` for a decimal index `i`.  The `BackupPlanner` asks
//! its driver one existence question at a time and decides where, if
//! anywhere, the destination should be copied before it can be
//! overwritten.  The driver performs the probes (against the real
//! filesystem, or against the in-crate model) and feeds the answers back.

use vstd::prelude::*;
use crate::options::{BackupChoice, Options};
use crate::paths::clone_bytes;

verus! {

/// The decimal digit bytes of `n`, most significant first.
pub open spec fn decimal_spec(n: nat) -> Seq<u8>
    decreases n,
{
    if n < 10 {
        seq![(48 + n) as u8]
    } else {
        decimal_spec(n / 10).push((48 + n % 10) as u8)
    }
}

/// The bare backup candidate: destination plus suffix.
pub open spec fn bare_candidate_spec(dest: Seq<u8>, suffix: Seq<u8>) -> Seq<u8> {
    dest + suffix
}

/// The numbered backup candidate: destination plus suffix plus index.
pub open spec fn numbered_candidate_spec(dest: Seq<u8>, suffix: Seq<u8>, i: nat) -> Seq<u8> {
    dest + suffix + decimal_spec(i)
}

/// Append the decimal digits of `i` to `out`.
pub fn push_decimal(out: &mut Vec<u8>, i: u64)
    ensures
        final(out)@ == old(out)@ + decimal_spec(i as nat),
    decreases i,
{
    if i < 10 {
        out.push(48 + i as u8);
        proof {
            assert(final(out)@ =~= old(out)@ + decimal_spec(i as nat));
        }
    } else {
        push_decimal(out, i / 10);
        out.push(48 + (i % 10) as u8);
        proof {
            assert(final(out)@ =~= old(out)@ + decimal_spec(i as nat));
        }
    }
}

/// Build the bare candidate `dest + suffix`.
pub fn bare_candidate(dest: &Vec<u8>, suffix: &Vec<u8>) -> (r: Vec<u8>)
    ensures
        r@ == bare_candidate_spec(dest@, suffix@),
{
    let mut r = clone_bytes(dest);
    r.extend_from_slice(suffix.as_slice());
    proof {
        assert(r@ =~= dest@ + suffix@);
    }
    r
}

/// Build the numbered candidate `dest + suffix + i`.
pub fn numbered_candidate(dest: &Vec<u8>, suffix: &Vec<u8>, i: u64) -> (r: Vec<u8>)
    ensures
        r@ == numbered_candidate_spec(dest@, suffix@, i as nat),
{
    let mut r = bare_candidate(dest, suffix);
    push_decimal(&mut r, i);
    proof {
        assert(r@ =~= dest@ + suffix@ + decimal_spec(i as nat));
    }
    r
}

/// A decimal rendering is never empty.
pub proof fn lemma_decimal_len(n: nat)
    ensures
        decimal_spec(n).len() >= 1,
    decreases n,
{
    if n >= 10 {
        lemma_decimal_len(n / 10);
    }
}

/// Distinct indices render as distinct digit strings.
pub proof fn lemma_decimal_injective(a: nat, b: nat)
    requires
        decimal_spec(a) == decimal_spec(b),
    ensures
        a == b,
    decreases a,
{
    let da = decimal_spec(a);
    let db = decimal_spec(b);
    if a < 10 && b < 10 {
        assert(da[0] == db[0]);
        assert((48 + a) as u8 == (48 + b) as u8);
    } else if a < 10 {
        lemma_decimal_len(b / 10);
        assert(da.len() == 1 && db.len() >= 2);
    } else if b < 10 {
        lemma_decimal_len(a / 10);
        assert(da.len() >= 2 && db.len() == 1);
    } else {
        assert(da.last() == db.last());
        assert((48 + a % 10) as u8 == (48 + b % 10) as u8);
        assert(a % 10 == b % 10);
        assert(da.drop_last() =~= decimal_spec(a / 10));
        assert(db.drop_last() =~= decimal_spec(b / 10));
        lemma_decimal_injective(a / 10, b / 10);
    }
}

/// Appending to a common prefix is cancellative.
pub proof fn lemma_concat_cancel(pre: Seq<u8>, x: Seq<u8>, y: Seq<u8>)
    requires
        pre + x == pre + y,
    ensures
        x == y,
{
    assert((pre + x).len() == pre.len() + x.len());
    assert((pre + y).len() == pre.len() + y.len());
    assert forall|i: int| 0 <= i < x.len() implies x[i] == y[i] by {
        assert((pre + x)[pre.len() + i] == x[i]);
        assert((pre + y)[pre.len() + i] == y[i]);
    }
    assert(x =~= y);
}

/// Distinct indices give distinct numbered candidates.
pub proof fn lemma_candidate_injective(dest: Seq<u8>, suffix: Seq<u8>, i: nat, j: nat)
    requires
        i != j,
    ensures
        numbered_candidate_spec(dest, suffix, i) != numbered_candidate_spec(dest, suffix, j),
{
    if numbered_candidate_spec(dest, suffix, i) == numbered_candidate_spec(dest, suffix, j) {
        lemma_concat_cancel(dest + suffix, decimal_spec(i), decimal_spec(j));
        lemma_decimal_injective(i, j);
    }
}

/// Where the planner stands in its probe dialogue.
#[derive(Clone, Copy, Debug, PartialEq, Eq, Structural)]
pub enum PlannerPhase {
    /// Waiting to hear whether the destination itself exists.
    AwaitDest,
    /// Waiting to hear whether the bare candidate exists.
    AwaitBare,
    /// Waiting to hear whether the current numbered candidate exists.
    AwaitNumbered,
    /// Decided: copy the destination to the bare candidate.
    CopyToBare,
    /// Decided: copy the destination to the current numbered candidate.
    CopyToNumbered,
    /// Decided: make no backup.
    NoAction,
}

/// The backup decision machine for one destination.
///
/// Protocol: while `is_awaiting`, the driver tests whether the path
/// `current_probe` exists and reports the answer through `note_exists`.
/// Once no longer awaiting, `backup_target` names the path the
/// destination must be copied to, or `None` when no backup is to be made.
pub struct BackupPlanner {
    /// The backup-naming algorithm in force.
    pub choice: BackupChoice,
    /// The destination path the backup would preserve.
    pub dest: Vec<u8>,
    /// The backup suffix in force.
    pub suffix: Vec<u8>,
    /// The numbered candidate index currently probed or decided on.
    pub idx: u64,
    /// Where the dialogue stands.
    pub phase: PlannerPhase,
}

impl BackupPlanner {
    /// The bare candidate for this planner's destination.
    pub open spec fn bare(&self) -> Seq<u8> {
        bare_candidate_spec(self.dest@, self.suffix@)
    }

    /// The numbered candidate with index `i` for this planner's destination.
    pub open spec fn cand(&self, i: nat) -> Seq<u8> {
        numbered_candidate_spec(self.dest@, self.suffix@, i)
    }

    /// The path whose existence the planner is asking about.
    pub open spec fn pending_spec(&self) -> Seq<u8> {
        match self.phase {
            PlannerPhase::AwaitDest => self.dest@,
            PlannerPhase::AwaitBare => self.bare(),
            _ => self.cand(self.idx as nat),
        }
    }

    /// Basic shape: the phases that probe numbered candidates or decide on
    /// one only arise for the probing choices.
    pub open spec fn wf(&self) -> bool {
        &&& (self.phase is AwaitDest ==> self.choice != BackupChoice::NoBackup)
        &&& (self.phase is AwaitBare ==> self.choice == BackupChoice::Existing)
        &&& (self.phase is AwaitNumbered ==> self.choice == BackupChoice::Existing
            || self.choice == BackupChoice::Numbered)
    }

    /// Start a backup dialogue.  When no backup is requested, or the
    /// requested choice is `NoBackup`, the planner is decided at once.
    pub fn new(opts: &Options, dest: &Vec<u8>) -> (r: BackupPlanner)
        ensures
            r.wf(),
            r.dest@ == dest@,
            r.suffix@ == opts.suffix_spec(),
            r.choice == opts.choice_spec(),
            r.idx == 0,
            if opts.backup_requested_spec() && opts.choice_spec() != BackupChoice::NoBackup {
                r.phase == PlannerPhase::AwaitDest
            } else {
                r.phase == PlannerPhase::NoAction
            },
    {
        let choice = opts.effective_choice();
        let active = opts.backup_requested() && !matches!(choice, BackupChoice::NoBackup);
        BackupPlanner {
            choice,
            dest: clone_bytes(dest),
            suffix: opts.suffix_bytes(),
            idx: 0,
            phase: if active { PlannerPhase::AwaitDest } else { PlannerPhase::NoAction },
        }
    }

    /// Whether the planner is still waiting for a probe answer.
    pub open spec fn is_awaiting_spec(&self) -> bool {
        self.phase is AwaitDest || self.phase is AwaitBare || self.phase is AwaitNumbered
    }

    pub fn is_awaiting(&self) -> (r: bool)
        ensures
            r == self.is_awaiting_spec(),
    {
        matches!(
            self.phase,
            PlannerPhase::AwaitDest | PlannerPhase::AwaitBare | PlannerPhase::AwaitNumbered
        )
    }

    /// The path to test for existence next.
    pub fn current_probe(&self) -> (r: Vec<u8>)
        requires
            self.is_awaiting_spec(),
        ensures
            r@ == self.pending_spec(),
    {
        match self.phase {
            PlannerPhase::AwaitDest => clone_bytes(&self.dest),
            PlannerPhase::AwaitBare => bare_candidate(&self.dest, &self.suffix),
            _ => numbered_candidate(&self.dest, &self.suffix, self.idx),
        }
    }

    /// Feed the answer to the pending probe back into the planner.
    ///
    /// The transition is pinned exactly: a missing destination ends the
    /// dialogue with no backup; an existing destination sends `Simple`
    /// straight to the bare candidate, `Existing` to probing it, and
    /// `Numbered` to probing index 0; a free candidate is decided on, a
    /// taken one advances the search.
    pub fn note_exists(&mut self, exists: bool)
        requires
            old(self).wf(),
            old(self).is_awaiting_spec(),
            old(self).idx < u64::MAX,
        ensures
            final(self).wf(),
            final(self).choice == old(self).choice,
            final(self).dest@ == old(self).dest@,
            final(self).suffix@ == old(self).suffix@,
            old(self).phase is AwaitDest && !exists
                ==> final(self).phase == PlannerPhase::NoAction,
            old(self).phase is AwaitDest && exists ==> match old(self).choice {
                BackupChoice::Simple => final(self).phase == PlannerPhase::CopyToBare,
                BackupChoice::Existing => final(self).phase == PlannerPhase::AwaitBare
                    && final(self).idx == old(self).idx,
                BackupChoice::Numbered => final(self).phase == PlannerPhase::AwaitNumbered
                    && final(self).idx == 0,
                BackupChoice::NoBackup => false,
            },
            old(self).phase is AwaitBare && !exists
                ==> final(self).phase == PlannerPhase::CopyToBare,
            old(self).phase is AwaitBare && exists
                ==> final(self).phase == PlannerPhase::AwaitNumbered && final(self).idx == 0,
            old(self).phase is AwaitNumbered && !exists
                ==> final(self).phase == PlannerPhase::CopyToNumbered
                    && final(self).idx == old(self).idx,
            old(self).phase is AwaitNumbered && exists
                ==> final(self).phase == PlannerPhase::AwaitNumbered
                    && final(self).idx == old(self).idx + 1,
    {
        match self.phase {
            PlannerPhase::AwaitDest => {
                if !exists {
                    self.phase = PlannerPhase::NoAction;
                } else {
                    match self.choice {
                        BackupChoice::Simple => {
                            self.phase = PlannerPhase::CopyToBare;
                        },
                        BackupChoice::Existing => {
                            self.phase = PlannerPhase::AwaitBare;
                        },
                        _ => {
                            self.idx = 0;
                            self.phase = PlannerPhase::AwaitNumbered;
                        },
                    }
                }
            },
            PlannerPhase::AwaitBare => {
                if !exists {
                    self.phase = PlannerPhase::CopyToBare;
                } else {
                    self.idx = 0;
                    self.phase = PlannerPhase::AwaitNumbered;
                }
            },
            _ => {
                if !exists {
                    self.phase = PlannerPhase::CopyToNumbered;
                } else {
                    self.idx = self.idx + 1;
                }
            },
        }
    }

    /// The decided backup target, once the dialogue is over.
    pub open spec fn target_spec(&self) -> Option<Seq<u8>> {
        match self.phase {
            PlannerPhase::CopyToBare => Option::Some(self.bare()),
            PlannerPhase::CopyToNumbered => Option::Some(self.cand(self.idx as nat)),
            _ => Option::None,
        }
    }

    /// The path the destination must be copied to, or `None` when no
    /// backup is to be made.
    pub fn backup_target(&self) -> (r: Option<Vec<u8>>)
        requires
            !self.is_awaiting_spec(),
        ensures
            match r {
                Option::Some(p) => self.target_spec() == Option::Some(p@),
                Option::None => self.target_spec() is None,
            },
    {
        match self.phase {
            PlannerPhase::CopyToBare => Option::Some(bare_candidate(&self.dest, &self.suffix)),
            PlannerPhase::CopyToNumbered => {
                Option::Some(numbered_candidate(&self.dest, &self.suffix, self.idx))
            },
            _ => Option::None,
        }
    }
}

} // verus!
