//! The sync decision procedure: which worktrees should be rebased onto
//! their upstream, which are skipped and why, and how the outcome counters
//! are derived from the per-worktree outcomes.
use vstd::prelude::*;

use crate::status::WorktreeStatus;
use crate::worktree::{RepoInfo, Worktree};

verus! {

/// Options of the sync procedure.
#[derive(Clone, Copy)]
pub struct SyncOptions {
    /// Classify and report without mutating anything.
    pub dry_run: bool,
    /// Fetch from the remote before classifying.
    pub fetch: bool,
}

/// How the sync procedure treats one worktree.
#[derive(Clone, Copy, Debug, PartialEq, Eq, Structural)]
pub enum SyncClass {
    /// The main worktree or a detached HEAD: passed over, not counted.
    Ignore,
    /// No upstream is configured: counted as skipped for that reason.
    NoUpstream,
    /// Zero commits behind the upstream: nothing to do, not counted.
    UpToDate,
    /// Uncommitted changes present: counted as skipped for that reason.
    Dirty,
    /// Behind a configured upstream and clean: to be rebased.
    Eligible,
}

/// The commits-behind count, with an unknown count treated as zero.
pub open spec fn spec_behind(status: WorktreeStatus) -> int {
    match status.behind {
        Some(b) => b as int,
        None => 0,
    }
}

/// The class of one worktree. The flag for a dry run plays no part here:
/// classification is identical in dry and real runs.
pub open spec fn spec_classify(
    is_main: bool,
    detached: bool,
    status: WorktreeStatus,
    dirty: bool,
) -> SyncClass {
    if is_main || detached {
        SyncClass::Ignore
    } else if status.upstream is None {
        SyncClass::NoUpstream
    } else if spec_behind(status) == 0 {
        SyncClass::UpToDate
    } else if dirty {
        SyncClass::Dirty
    } else {
        SyncClass::Eligible
    }
}

/// Classifies one worktree for the sync procedure.
pub fn classify_sync(wt: &Worktree, repo: &RepoInfo, status: &WorktreeStatus, dirty: bool) -> (c:
    SyncClass)
    ensures
        c == spec_classify(wt.spec_is_main(*repo), wt.detached, *status, dirty),
{
    if wt.is_main_worktree(repo) || wt.detached {
        SyncClass::Ignore
    } else if status.upstream.is_none() {
        SyncClass::NoUpstream
    } else {
        let behind: usize = match status.behind {
            Some(b) => b,
            None => 0,
        };
        if behind == 0 {
            SyncClass::UpToDate
        } else if dirty {
            SyncClass::Dirty
        } else {
            SyncClass::Eligible
        }
    }
}

/// The outcome counters of one sync invocation.
#[derive(Clone, Copy, Debug, PartialEq, Eq, Structural)]
pub struct SyncCounts {
    pub synced: usize,
    pub skipped_dirty: usize,
    pub skipped_no_upstream: usize,
    pub failed: usize,
}

impl SyncCounts {
    /// All counters at zero.
    pub open spec fn zero() -> SyncCounts {
        SyncCounts { synced: 0, skipped_dirty: 0, skipped_no_upstream: 0, failed: 0 }
    }

    /// The sum of all counters.
    pub open spec fn total(self) -> int {
        self.synced + self.skipped_dirty + self.skipped_no_upstream + self.failed
    }

    pub fn new() -> (c: SyncCounts)
        ensures
            c == SyncCounts::zero(),
    {
        SyncCounts { synced: 0, skipped_dirty: 0, skipped_no_upstream: 0, failed: 0 }
    }
}

/// The counters after one worktree: an eligible worktree counts as synced
/// under a dry run or a successful rebase and as failed otherwise; the two
/// skip classes count under their own counter; the rest count nowhere.
pub open spec fn spec_step(
    c: SyncCounts,
    class: SyncClass,
    dry_run: bool,
    rebase_ok: bool,
) -> SyncCounts {
    match class {
        SyncClass::Ignore => c,
        SyncClass::UpToDate => c,
        SyncClass::NoUpstream => SyncCounts {
            skipped_no_upstream: (c.skipped_no_upstream + 1) as usize,
            ..c
        },
        SyncClass::Dirty => SyncCounts { skipped_dirty: (c.skipped_dirty + 1) as usize, ..c },
        SyncClass::Eligible => if dry_run || rebase_ok {
            SyncCounts { synced: (c.synced + 1) as usize, ..c }
        } else {
            SyncCounts { failed: (c.failed + 1) as usize, ..c }
        },
    }
}

/// Whether this worktree calls for an actual rebase: only an eligible one,
/// and never under a dry run.
pub fn needs_rebase_attempt(class: SyncClass, dry_run: bool) -> (r: bool)
    ensures
        r == (class is Eligible && !dry_run),
{
    matches!(class, SyncClass::Eligible) && !dry_run
}

/// Records one worktree's outcome: returns the updated counters and whether
/// an in-progress rebase must be aborted before going on — exactly when a
/// real rebase attempt failed.
pub fn record_outcome(c: SyncCounts, class: SyncClass, dry_run: bool, rebase_ok: bool) -> (r: (
    SyncCounts,
    bool,
))
    requires
        c.total() < usize::MAX,
    ensures
        r.0 == spec_step(c, class, dry_run, rebase_ok),
        r.1 == (class is Eligible && !dry_run && !rebase_ok),
        r.0.total() <= c.total() + 1,
{
    match class {
        SyncClass::Ignore => (c, false),
        SyncClass::UpToDate => (c, false),
        SyncClass::NoUpstream => (
            SyncCounts { skipped_no_upstream: c.skipped_no_upstream + 1, ..c },
            false,
        ),
        SyncClass::Dirty => (SyncCounts { skipped_dirty: c.skipped_dirty + 1, ..c }, false),
        SyncClass::Eligible => {
            if dry_run || rebase_ok {
                (SyncCounts { synced: c.synced + 1, ..c }, false)
            } else {
                (SyncCounts { failed: c.failed + 1, ..c }, true)
            }
        },
    }
}

/// The counters over a whole run, folded left to right over the classes and
/// the per-worktree rebase outcomes.
pub open spec fn spec_tally(
    classes: Seq<SyncClass>,
    rebase_ok: Seq<bool>,
    dry_run: bool,
) -> SyncCounts
    decreases classes.len(),
{
    if classes.len() == 0 {
        SyncCounts::zero()
    } else {
        spec_step(
            spec_tally(classes.drop_last(), rebase_ok.drop_last(), dry_run),
            classes.last(),
            dry_run,
            rebase_ok.last(),
        )
    }
}

/// The counters never exceed the number of worktrees they summarize.
pub proof fn lemma_tally_total(classes: Seq<SyncClass>, rebase_ok: Seq<bool>, dry_run: bool)
    requires
        rebase_ok.len() == classes.len(),
    ensures
        0 <= spec_tally(classes, rebase_ok, dry_run).total() <= classes.len(),
    decreases classes.len(),
{
    if classes.len() > 0 {
        lemma_tally_total(classes.drop_last(), rebase_ok.drop_last(), dry_run);
    }
}

/// Derives the outcome counters from the per-worktree classes and rebase
/// outcomes. The outcome at a position matters only for an eligible
/// worktree in a real run.
pub fn sync_tally(classes: &Vec<SyncClass>, rebase_ok: &Vec<bool>, dry_run: bool) -> (c: SyncCounts)
    requires
        rebase_ok@.len() == classes@.len(),
    ensures
        c == spec_tally(classes@, rebase_ok@, dry_run),
{
    let mut c = SyncCounts::new();
    let mut i: usize = 0;
    while i < classes.len()
        invariant
            rebase_ok@.len() == classes@.len(),
            0 <= i <= classes@.len(),
            c == spec_tally(
                classes@.subrange(0, i as int),
                rebase_ok@.subrange(0, i as int),
                dry_run,
            ),
        decreases classes@.len() - i,
    {
        proof {
            assert(classes@.subrange(0, i + 1).drop_last() =~= classes@.subrange(0, i as int));
            assert(rebase_ok@.subrange(0, i + 1).drop_last() =~= rebase_ok@.subrange(0, i as int));
            lemma_tally_total(
                classes@.subrange(0, i as int),
                rebase_ok@.subrange(0, i as int),
                dry_run,
            );
        }
        let step = record_outcome(c, classes[i], dry_run, rebase_ok[i]);
        c = step.0;
        i = i + 1;
    }
    proof {
        assert(classes@.subrange(0, classes@.len() as int) =~= classes@);
        assert(rebase_ok@.subrange(0, rebase_ok@.len() as int) =~= rebase_ok@);
    }
    c
}

/// Classifies every worktree, in input order.
pub fn sync_plan(
    worktrees: &Vec<Worktree>,
    statuses: &Vec<WorktreeStatus>,
    dirty: &Vec<bool>,
    repo: &RepoInfo,
) -> (r: Vec<SyncClass>)
    requires
        statuses@.len() == worktrees@.len(),
        dirty@.len() == worktrees@.len(),
    ensures
        r@.len() == worktrees@.len(),
        forall|i: int|
            0 <= i < r@.len() ==> #[trigger] r@[i] == spec_classify(
                worktrees@[i].spec_is_main(*repo),
                worktrees@[i].detached,
                statuses@[i],
                dirty@[i],
            ),
{
    let mut r: Vec<SyncClass> = Vec::new();
    let mut i: usize = 0;
    while i < worktrees.len()
        invariant
            statuses@.len() == worktrees@.len(),
            dirty@.len() == worktrees@.len(),
            0 <= i <= worktrees@.len(),
            r@.len() == i,
            forall|j: int|
                0 <= j < i ==> #[trigger] r@[j] == spec_classify(
                    worktrees@[j].spec_is_main(*repo),
                    worktrees@[j].detached,
                    statuses@[j],
                    dirty@[j],
                ),
        decreases worktrees@.len() - i,
    {
        let c = classify_sync(&worktrees[i], repo, &statuses[i], dirty[i]);
        r.push(c);
        i = i + 1;
    }
    r
}

/// The class of the worktree at `i`.
pub open spec fn class_at(
    worktrees: Seq<Worktree>,
    statuses: Seq<WorktreeStatus>,
    dirty: Seq<bool>,
    repo: RepoInfo,
    i: int,
) -> SyncClass {
    spec_classify(worktrees[i].spec_is_main(repo), worktrees[i].detached, statuses[i], dirty[i])
}

/// The outcome counters of one whole sync run, for the given per-worktree
/// dirty states and rebase outcomes: every worktree is classified, and the
/// counters are folded over the classes in input order. A rebase outcome
/// matters only for an eligible worktree in a real run.
pub fn sync_counts(
    worktrees: &Vec<Worktree>,
    statuses: &Vec<WorktreeStatus>,
    dirty: &Vec<bool>,
    rebase_ok: &Vec<bool>,
    repo: &RepoInfo,
    dry_run: bool,
) -> (c: SyncCounts)
    requires
        statuses@.len() == worktrees@.len(),
        dirty@.len() == worktrees@.len(),
        rebase_ok@.len() == worktrees@.len(),
    ensures
        c == spec_tally(
            Seq::new(worktrees@.len(), |i: int| class_at(worktrees@, statuses@, dirty@, *repo, i)),
            rebase_ok@,
            dry_run,
        ),
{
    let plan = sync_plan(worktrees, statuses, dirty, repo);
    proof {
        assert(plan@ =~= Seq::new(
            worktrees@.len(),
            |i: int| class_at(worktrees@, statuses@, dirty@, *repo, i),
        ));
    }
    sync_tally(&plan, rebase_ok, dry_run)
}

/// A worktree with zero commits behind its configured upstream produces no
/// action and increments no counter.
pub proof fn lemma_behind_zero_no_action(
    is_main: bool,
    detached: bool,
    status: WorktreeStatus,
    dirty: bool,
    c: SyncCounts,
    dry_run: bool,
    rebase_ok: bool,
)
    requires
        status.upstream is Some,
        spec_behind(status) == 0,
    ensures
        !(spec_classify(is_main, detached, status, dirty) is Eligible),
        spec_step(c, spec_classify(is_main, detached, status, dirty), dry_run, rebase_ok) == c,
{
}

/// A dry run mutates nothing and classifies exactly as a real run would:
/// the class is computed without regard to the flag, the rebase outcomes
/// play no part under a dry run, and the dry-run counters equal those of a
/// real run in which every rebase succeeds.
pub proof fn lemma_dry_run_parity(classes: Seq<SyncClass>, ok_a: Seq<bool>, ok_b: Seq<bool>)
    requires
        ok_a.len() == classes.len(),
        ok_b.len() == classes.len(),
        forall|i: int| 0 <= i < ok_b.len() ==> ok_b[i],
    ensures
        spec_tally(classes, ok_a, true) == spec_tally(classes, ok_b, true),
        spec_tally(classes, ok_a, true) == spec_tally(classes, ok_b, false),
    decreases classes.len(),
{
    if classes.len() > 0 {
        lemma_dry_run_parity(classes.drop_last(), ok_a.drop_last(), ok_b.drop_last());
    }
}

/// A failed rebase attempt demands an abort before the procedure moves on,
/// and counts exactly one failure: the other counters are untouched.
pub proof fn lemma_failure_aborts(c: SyncCounts, dry_run: bool)
    requires
        c.total() < usize::MAX,
        !dry_run,
    ensures
        spec_step(c, SyncClass::Eligible, dry_run, false).failed == c.failed + 1,
        spec_step(c, SyncClass::Eligible, dry_run, false).synced == c.synced,
        spec_step(c, SyncClass::Eligible, dry_run, false).skipped_dirty == c.skipped_dirty,
        spec_step(c, SyncClass::Eligible, dry_run, false).skipped_no_upstream
            == c.skipped_no_upstream,
{
}

} // verus!
