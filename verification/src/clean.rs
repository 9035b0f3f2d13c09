//! The clean decision procedure: which worktrees are eligible for removal
//! under the active filters, which eligible candidates are safe to remove,
//! and whether the destructive step may proceed at all.
use vstd::prelude::*;

use crate::status::WorktreeStatus;
use crate::worktree::{RepoInfo, Worktree};

verus! {

/// Options of the clean procedure: the removal filters, and how the
/// destructive step is gated.
#[derive(Clone, Copy)]
pub struct CleanOptions {
    /// Remove worktrees whose branch is merged into the base branch.
    pub merged: bool,
    /// Remove worktrees whose upstream branch is gone.
    pub gone: bool,
    /// Remove worktrees whose last commit is older than this many days.
    pub stale_days: Option<u32>,
    /// Report what would be removed without removing anything.
    pub dry_run: bool,
    /// Bypass the interactive confirmation.
    pub yes: bool,
}

/// At least one removal filter is active. Without one the procedure selects
/// nothing: that is a usage-guidance case, not an error.
pub open spec fn has_filter(opts: CleanOptions) -> bool {
    opts.merged || opts.gone || opts.stale_days is Some
}

/// Whether any removal filter is active.
pub fn has_active_filter(opts: &CleanOptions) -> (r: bool)
    ensures
        r == has_filter(*opts),
{
    opts.merged || opts.gone || opts.stale_days.is_some()
}

/// The identity gates every candidate must pass, whatever the filters: not
/// the caller's current worktree, not the main worktree, not detached, and
/// not the base branch itself.
pub open spec fn passes_identity_gates(
    wt: Worktree,
    repo: RepoInfo,
    base: Seq<char>,
    current_path: Seq<char>,
) -> bool {
    &&& wt.path@ != current_path
    &&& !wt.spec_is_main(repo)
    &&& !wt.detached
    &&& !(wt.branch_short matches Some(b) && b@ == base)
}

/// At least one active filter matches the worktree: its branch is merged
/// into the base, its upstream is gone, or its last commit is older than the
/// stale threshold in days.
pub open spec fn filter_matches(
    wt: Worktree,
    status: Option<WorktreeStatus>,
    merged_into_base: bool,
    opts: CleanOptions,
) -> bool {
    ||| opts.merged && wt.branch_short is Some && merged_into_base
    ||| opts.gone && (status matches Some(st) && st.upstream_gone)
    ||| (opts.stale_days matches Some(days) && (status matches Some(st)
        && (st.last_commit_time matches Some(secs) && secs > (days as int) * 86400)))
}

/// A worktree qualifies for removal: it passes every identity gate and at
/// least one active filter matches it.
pub open spec fn clean_eligible(
    wt: Worktree,
    status: Option<WorktreeStatus>,
    merged_into_base: bool,
    repo: RepoInfo,
    base: Seq<char>,
    current_path: Seq<char>,
    opts: CleanOptions,
) -> bool {
    &&& passes_identity_gates(wt, repo, base, current_path)
    &&& filter_matches(wt, status, merged_into_base, opts)
}

fn is_eligible(
    wt: &Worktree,
    status: Option<&WorktreeStatus>,
    merged_into_base: bool,
    repo: &RepoInfo,
    base: &String,
    current_path: &String,
    opts: &CleanOptions,
) -> (r: bool)
    ensures
        r == clean_eligible(
            *wt,
            match status {
                Some(st) => Some(*st),
                None => None,
            },
            merged_into_base,
            *repo,
            base@,
            current_path@,
            *opts,
        ),
{
    if wt.path == *current_path {
        return false;
    }
    if wt.is_main_worktree(repo) {
        return false;
    }
    if wt.detached {
        return false;
    }
    match &wt.branch_short {
        Some(b) => if *b == *base {
            return false;
        },
        None => {},
    }
    if opts.merged && wt.branch_short.is_some() && merged_into_base {
        return true;
    }
    if opts.gone {
        match status {
            Some(st) => if st.upstream_gone {
                return true;
            },
            None => {},
        }
    }
    match opts.stale_days {
        Some(days) => {
            match status {
                Some(st) => {
                    match st.last_commit_time {
                        Some(secs) => {
                            let stale_seconds: i64 = (days as i64) * 86400;
                            if secs > stale_seconds {
                                return true;
                            }
                        },
                        None => {},
                    }
                },
                None => {},
            }
        },
        None => {},
    }
    false
}

/// The status paired with the worktree at `i`, where statuses were gathered
/// at all.
pub open spec fn status_at(statuses: Option<Seq<WorktreeStatus>>, i: int) -> Option<WorktreeStatus> {
    match statuses {
        Some(sv) => Some(sv[i]),
        None => None,
    }
}

/// The worktree at `i` qualifies for removal.
pub open spec fn eligible_at(
    worktrees: Seq<Worktree>,
    statuses: Option<Seq<WorktreeStatus>>,
    merged: Seq<bool>,
    repo: RepoInfo,
    base: Seq<char>,
    current_path: Seq<char>,
    opts: CleanOptions,
    i: int,
) -> bool {
    clean_eligible(worktrees[i], status_at(statuses, i), merged[i], repo, base, current_path, opts)
}

/// Selects the indices of the worktrees that qualify for removal, in input
/// order: exactly those that pass every identity gate and match an active
/// filter. With no active filter, nothing qualifies and nothing is selected.
pub fn select_clean_candidates(
    worktrees: &Vec<Worktree>,
    statuses: Option<&Vec<WorktreeStatus>>,
    merged: &Vec<bool>,
    repo: &RepoInfo,
    base: &String,
    current_path: &String,
    opts: &CleanOptions,
) -> (r: Vec<usize>)
    requires
        merged@.len() == worktrees@.len(),
        statuses matches Some(sv) ==> sv@.len() == worktrees@.len(),
    ensures
        forall|k: int| 0 <= k < r@.len() ==> (#[trigger] r@[k]) < worktrees@.len(),
        forall|k1: int, k2: int| 0 <= k1 < k2 < r@.len() ==> r@[k1] < r@[k2],
        forall|k: int|
            0 <= k < r@.len() ==> eligible_at(
                worktrees@,
                spec_statuses(statuses),
                merged@,
                *repo,
                base@,
                current_path@,
                *opts,
                #[trigger] r@[k] as int,
            ),
        forall|i: int|
            0 <= i < worktrees@.len() && eligible_at(
                worktrees@,
                spec_statuses(statuses),
                merged@,
                *repo,
                base@,
                current_path@,
                *opts,
                i,
            ) ==> exists|k: int| 0 <= k < r@.len() && (#[trigger] r@[k]) as int == i,
{
    let ghost sts = spec_statuses(statuses);
    let mut r: Vec<usize> = Vec::new();
    let mut i: usize = 0;
    while i < worktrees.len()
        invariant
            merged@.len() == worktrees@.len(),
            statuses matches Some(sv) ==> sv@.len() == worktrees@.len(),
            sts == spec_statuses(statuses),
            0 <= i <= worktrees@.len(),
            forall|k: int| 0 <= k < r@.len() ==> (#[trigger] r@[k]) < i,
            forall|k1: int, k2: int| 0 <= k1 < k2 < r@.len() ==> r@[k1] < r@[k2],
            forall|k: int|
                0 <= k < r@.len() ==> eligible_at(
                    worktrees@,
                    sts,
                    merged@,
                    *repo,
                    base@,
                    current_path@,
                    *opts,
                    #[trigger] r@[k] as int,
                ),
            forall|j: int|
                0 <= j < i && eligible_at(
                    worktrees@,
                    sts,
                    merged@,
                    *repo,
                    base@,
                    current_path@,
                    *opts,
                    j,
                ) ==> exists|k: int| 0 <= k < r@.len() && (#[trigger] r@[k]) as int == j,
        decreases worktrees@.len() - i,
    {
        let st_i: Option<&WorktreeStatus> = match statuses {
            Some(sv) => Some(&sv[i]),
            None => None,
        };
        let ghost r_old = r@;
        let elig = is_eligible(&worktrees[i], st_i, merged[i], repo, base, current_path, opts);
        if elig {
            r.push(i);
        }
        proof {
            assert forall|j: int|
                0 <= j < i + 1 && eligible_at(
                    worktrees@,
                    sts,
                    merged@,
                    *repo,
                    base@,
                    current_path@,
                    *opts,
                    j,
                ) implies exists|k: int| 0 <= k < r@.len() && (#[trigger] r@[k]) as int == j by {
                if j < i {
                    let k = choose|k: int| 0 <= k < r_old.len() && (#[trigger] r_old[k]) as int
                        == j;
                    assert(r@[k] as int == j);
                } else {
                    assert(elig);
                    assert(r@[r@.len() - 1] as int == j);
                }
            }
        }
        i = i + 1;
    }
    r
}

/// The spec view of an optionally gathered status list.
pub open spec fn spec_statuses(statuses: Option<&Vec<WorktreeStatus>>) -> Option<
    Seq<WorktreeStatus>,
> {
    match statuses {
        Some(sv) => Some(sv@),
        None => None,
    }
}

/// The elements of `xs` whose parallel flag equals `want`, in order.
pub open spec fn keep_where(xs: Seq<usize>, flags: Seq<bool>, want: bool) -> Seq<usize>
    decreases xs.len(),
{
    if xs.len() == 0 {
        Seq::empty()
    } else {
        let rest = keep_where(xs.drop_last(), flags.drop_last(), want);
        if flags.last() == want {
            rest.push(xs.last())
        } else {
            rest
        }
    }
}

/// Splits the selected candidates by their cached dirty state: the clean
/// ones, safe to remove, and the dirty ones, reported but never removed.
pub fn partition_candidates(candidates: &Vec<usize>, dirty: &Vec<bool>) -> (r: (Vec<usize>, Vec<
    usize,
>))
    requires
        dirty@.len() == candidates@.len(),
    ensures
        r.0@ == keep_where(candidates@, dirty@, false),
        r.1@ == keep_where(candidates@, dirty@, true),
{
    let mut clean: Vec<usize> = Vec::new();
    let mut soiled: Vec<usize> = Vec::new();
    let mut i: usize = 0;
    while i < candidates.len()
        invariant
            dirty@.len() == candidates@.len(),
            0 <= i <= candidates@.len(),
            clean@ == keep_where(
                candidates@.subrange(0, i as int),
                dirty@.subrange(0, i as int),
                false,
            ),
            soiled@ == keep_where(
                candidates@.subrange(0, i as int),
                dirty@.subrange(0, i as int),
                true,
            ),
        decreases candidates@.len() - i,
    {
        proof {
            assert(candidates@.subrange(0, i + 1).drop_last() =~= candidates@.subrange(0, i as int));
            assert(dirty@.subrange(0, i + 1).drop_last() =~= dirty@.subrange(0, i as int));
            assert(candidates@.subrange(0, i + 1).last() == candidates@[i as int]);
        }
        if dirty[i] {
            soiled.push(candidates[i]);
        } else {
            clean.push(candidates[i]);
        }
        i = i + 1;
    }
    proof {
        assert(candidates@.subrange(0, candidates@.len() as int) =~= candidates@);
        assert(dirty@.subrange(0, dirty@.len() as int) =~= dirty@);
    }
    (clean, soiled)
}

/// How the destructive step proceeds: outright, after an interactive
/// confirmation, or not at all.
#[derive(Clone, Copy, Debug, PartialEq, Eq, Structural)]
pub enum CleanGate {
    /// The caller bypassed confirmation explicitly.
    Proceed,
    /// A terminal is attached: ask before removing anything.
    AskConfirmation,
    /// Neither a bypass nor a terminal: fail closed, remove nothing.
    Refused,
}

/// How the destructive step is gated.
pub open spec fn spec_clean_gate(yes: bool, interactive: bool) -> CleanGate {
    if yes {
        CleanGate::Proceed
    } else if interactive {
        CleanGate::AskConfirmation
    } else {
        CleanGate::Refused
    }
}

/// Decides how the destructive step is gated: an explicit bypass proceeds,
/// an attached terminal is asked, anything else is refused.
pub fn clean_gate(yes: bool, interactive: bool) -> (g: CleanGate)
    ensures
        g == spec_clean_gate(yes, interactive),
{
    if yes {
        CleanGate::Proceed
    } else if interactive {
        CleanGate::AskConfirmation
    } else {
        CleanGate::Refused
    }
}

/// How many entries of `s` are true.
pub open spec fn count_true(s: Seq<bool>) -> int
    decreases s.len(),
{
    if s.len() == 0 {
        0int
    } else {
        count_true(s.drop_last()) + if s.last() {
            1int
        } else {
            0int
        }
    }
}

proof fn lemma_count_true_bound(s: Seq<bool>)
    ensures
        0 <= count_true(s) <= s.len(),
    decreases s.len(),
{
    if s.len() > 0 {
        lemma_count_true_bound(s.drop_last());
    }
}

/// Derives the success counter from the per-candidate removal outcomes.
pub fn count_successes(results: &Vec<bool>) -> (n: usize)
    ensures
        n == count_true(results@),
{
    let mut n: usize = 0;
    let mut i: usize = 0;
    while i < results.len()
        invariant
            0 <= i <= results@.len(),
            n == count_true(results@.subrange(0, i as int)),
            n <= i,
        decreases results@.len() - i,
    {
        proof {
            assert(results@.subrange(0, i + 1).drop_last() =~= results@.subrange(0, i as int));
            lemma_count_true_bound(results@.subrange(0, i as int));
        }
        if results[i] {
            n = n + 1;
        }
        i = i + 1;
    }
    proof {
        assert(results@.subrange(0, results@.len() as int) =~= results@);
    }
    n
}

/// A selected candidate is never the base branch's worktree, the caller's
/// current worktree, the main worktree, or a detached worktree, whatever
/// combination of filters selected it.
pub proof fn lemma_selection_respects_identity_gates(
    wt: Worktree,
    status: Option<WorktreeStatus>,
    merged_into_base: bool,
    repo: RepoInfo,
    base: Seq<char>,
    current_path: Seq<char>,
    opts: CleanOptions,
)
    requires
        clean_eligible(wt, status, merged_into_base, repo, base, current_path, opts),
    ensures
        wt.path@ != current_path,
        !wt.spec_is_main(repo),
        !wt.detached,
        !(wt.branch_short matches Some(b) && b@ == base),
{
}

/// With no active filter, nothing is ever eligible: the procedure performs
/// no selection.
pub proof fn lemma_no_filter_no_selection(
    wt: Worktree,
    status: Option<WorktreeStatus>,
    merged_into_base: bool,
    repo: RepoInfo,
    base: Seq<char>,
    current_path: Seq<char>,
    opts: CleanOptions,
)
    requires
        !has_filter(opts),
    ensures
        !clean_eligible(wt, status, merged_into_base, repo, base, current_path, opts),
{
}

/// With only the stale filter active, a candidate that passes the identity
/// gates qualifies exactly when its last commit is strictly older than the
/// threshold of `days` days: one day past the threshold qualifies, one day
/// short of it does not.
pub proof fn lemma_stale_boundary(
    wt: Worktree,
    status: WorktreeStatus,
    merged_into_base: bool,
    repo: RepoInfo,
    base: Seq<char>,
    current_path: Seq<char>,
    opts: CleanOptions,
    days: u32,
    age: i64,
)
    requires
        passes_identity_gates(wt, repo, base, current_path),
        !opts.merged,
        !opts.gone,
        opts.stale_days == Some(days),
        status.last_commit_time == Some(age),
    ensures
        clean_eligible(wt, Some(status), merged_into_base, repo, base, current_path, opts) <==> age
            > (days as int) * 86400,
        age == ((days as int) + 1) * 86400 ==> clean_eligible(
            wt,
            Some(status),
            merged_into_base,
            repo,
            base,
            current_path,
            opts,
        ),
        age == ((days as int) - 1) * 86400 ==> !clean_eligible(
            wt,
            Some(status),
            merged_into_base,
            repo,
            base,
            current_path,
            opts,
        ),
{
}

/// A dirty candidate is reported but never removed: over pairwise distinct
/// candidates, no candidate whose dirty flag is set reaches the removal
/// list, and every candidate lands in exactly one of the two reported
/// lists.
pub proof fn lemma_dirty_never_removed(xs: Seq<usize>, flags: Seq<bool>)
    requires
        xs.len() == flags.len(),
        forall|i: int, j: int| 0 <= i < j < xs.len() ==> xs[i] != xs[j],
    ensures
        forall|j: int|
            0 <= j < xs.len() && flags[j] ==> !keep_where(xs, flags, false).contains(
                #[trigger] xs[j],
            ),
        forall|j: int|
            0 <= j < xs.len() && !flags[j] ==> keep_where(xs, flags, false).contains(
                #[trigger] xs[j],
            ),
        forall|j: int|
            0 <= j < xs.len() && flags[j] ==> keep_where(xs, flags, true).contains(
                #[trigger] xs[j],
            ),
    decreases xs.len(),
{
    if xs.len() > 0 {
        lemma_dirty_never_removed(xs.drop_last(), flags.drop_last());
        let n = xs.len() - 1;
        assert forall|j: int| 0 <= j < xs.len() && flags[j] implies !keep_where(
            xs,
            flags,
            false,
        ).contains(#[trigger] xs[j]) by {
            let kept = keep_where(xs.drop_last(), flags.drop_last(), false);
            if j < n {
                assert(xs.drop_last()[j] == xs[j]);
                assert(flags.drop_last()[j] == flags[j]);
                if keep_where(xs, flags, false).contains(xs[j]) {
                    if !flags.last() {
                        let full = kept.push(xs.last());
                        let k = choose|k: int| 0 <= k < full.len() && full[k] == xs[j];
                        if k < kept.len() {
                            assert(kept.contains(xs[j]));
                        } else {
                            assert(xs[n] == xs[j]);
                        }
                    }
                }
            } else {
                if !flags.last() {
                } else {
                    if keep_where(xs, flags, false).contains(xs[j]) {
                        assert(kept.contains(xs[n]));
                        let k = choose|k: int| 0 <= k < kept.len() && kept[k] == xs[n];
                        lemma_keep_where_from(xs.drop_last(), flags.drop_last(), false, k);
                    }
                }
            }
        }
        assert forall|j: int| 0 <= j < xs.len() && !flags[j] implies keep_where(
            xs,
            flags,
            false,
        ).contains(#[trigger] xs[j]) by {
            lemma_keep_contains(xs, flags, false, j);
        }
        assert forall|j: int| 0 <= j < xs.len() && flags[j] implies keep_where(
            xs,
            flags,
            true,
        ).contains(#[trigger] xs[j]) by {
            lemma_keep_contains(xs, flags, true, j);
        }
    }
}

/// Every element that `keep_where` keeps stems from a position whose flag
/// equals `want`.
proof fn lemma_keep_where_from(xs: Seq<usize>, flags: Seq<bool>, want: bool, k: int)
    requires
        xs.len() == flags.len(),
        0 <= k < keep_where(xs, flags, want).len(),
    ensures
        exists|j: int|
            0 <= j < xs.len() && #[trigger] flags[j] == want && xs[j] == keep_where(
                xs,
                flags,
                want,
            )[k],
    decreases xs.len(),
{
    let rest = keep_where(xs.drop_last(), flags.drop_last(), want);
    if flags.last() == want && k == rest.len() {
        assert(flags[xs.len() - 1] == want && xs[xs.len() - 1] == keep_where(xs, flags, want)[k]);
    } else {
        lemma_keep_where_from(xs.drop_last(), flags.drop_last(), want, k);
        let j = choose|j: int|
            0 <= j < xs.drop_last().len() && #[trigger] flags.drop_last()[j] == want
                && xs.drop_last()[j] == rest[k];
        assert(flags[j] == want && xs[j] == keep_where(xs, flags, want)[k]);
    }
}

/// A position whose flag equals `want` is kept.
proof fn lemma_keep_contains(xs: Seq<usize>, flags: Seq<bool>, want: bool, j: int)
    requires
        xs.len() == flags.len(),
        0 <= j < xs.len(),
        flags[j] == want,
    ensures
        keep_where(xs, flags, want).contains(xs[j]),
    decreases xs.len(),
{
    let rest = keep_where(xs.drop_last(), flags.drop_last(), want);
    if j == xs.len() - 1 {
        assert(keep_where(xs, flags, want)[rest.len() as int] == xs[j]);
    } else {
        lemma_keep_contains(xs.drop_last(), flags.drop_last(), want, j);
        let k = choose|k: int| 0 <= k < rest.len() && rest[k] == xs.drop_last()[j];
        assert(keep_where(xs, flags, want)[k] == xs[j]);
    }
}

} // verus!
