//! The status aggregator: turning what the repository accessor observed
//! about each worktree into an immutable per-worktree status snapshot, and
//! aggregating one snapshot per worktree in input order.
use vstd::prelude::*;

use crate::text::clone_opt_string;
use crate::worktree::Worktree;

verus! {

/// A point-in-time snapshot of one worktree's synchronization state.
/// Optional fields are absent, never zero, when the underlying datum could
/// not be read.
pub struct WorktreeStatus {
    /// Count of modified, added or removed paths; 0 when unknown or skipped.
    pub dirty_count: usize,
    /// The configured upstream reference's name, when one is configured.
    pub upstream: Option<String>,
    /// Commits ahead of the upstream.
    pub ahead: Option<usize>,
    /// Commits behind the upstream.
    pub behind: Option<usize>,
    /// Seconds since the HEAD commit was made.
    pub last_commit_time: Option<i64>,
    /// Commits behind the shared base branch.
    pub behind_main: Option<usize>,
    /// Commits with no upstream tracking them; meaningful only when no
    /// upstream is configured and the worktree is not detached.
    pub untracked_commits: Option<usize>,
    /// The configured upstream's reference no longer resolves to a commit.
    pub upstream_gone: bool,
}

impl WorktreeStatus {
    /// A snapshot is never partially populated in a way that implies missing
    /// data is zero: the ahead and behind counts are present together, an
    /// untracked-commit estimate appears only where it is meaningful, and a
    /// detached worktree has no upstream data at all.
    pub open spec fn wf(self, detached: bool) -> bool {
        &&& self.ahead is Some <==> self.behind is Some
        &&& self.untracked_commits is Some ==> self.upstream is None && !detached
        &&& detached ==> self.upstream is None && self.ahead is None && self.behind is None
            && !self.upstream_gone && self.untracked_commits is None
    }

    /// The all-absent snapshot reported for an unreadable worktree.
    pub open spec fn spec_default() -> WorktreeStatus {
        WorktreeStatus {
            dirty_count: 0,
            upstream: None,
            ahead: None,
            behind: None,
            last_commit_time: None,
            behind_main: None,
            untracked_commits: None,
            upstream_gone: false,
        }
    }

    pub fn is_dirty(&self) -> (r: bool)
        ensures
            r == (self.dirty_count > 0),
    {
        self.dirty_count > 0
    }

    pub fn has_upstream(&self) -> (r: bool)
        ensures
            r == (self.upstream is Some),
    {
        self.upstream.is_some()
    }

    /// The branch has commits to pick up from the shared base.
    pub fn needs_rebase(&self) -> (r: bool)
        ensures
            r == (self.behind_main matches Some(b) && b > 0),
    {
        match self.behind_main {
            Some(b) => b > 0,
            None => false,
        }
    }

    /// There are commits not known to any upstream: commits ahead of the
    /// configured upstream, or, with no upstream at all, commits not on the
    /// shared base.
    pub fn has_unpushed(&self) -> (r: bool)
        ensures
            r == ({
                ||| self.ahead matches Some(a) && a > 0
                ||| self.upstream is None && (self.untracked_commits matches Some(c) && c > 0)
            }),
    {
        if match self.ahead {
            Some(a) => a > 0,
            None => false,
        } {
            return true;
        }
        if self.upstream.is_none() && match self.untracked_commits {
            Some(c) => c > 0,
            None => false,
        } {
            return true;
        }
        false
    }

    /// How many commits are not pushed: the ahead count when positive, else
    /// the untracked-commit estimate.
    pub fn unpushed_count(&self) -> (r: usize)
        ensures
            r == (if self.ahead matches Some(a) && a > 0 {
                self.ahead.unwrap()
            } else if self.untracked_commits is Some {
                self.untracked_commits.unwrap()
            } else {
                0
            }),
    {
        match self.ahead {
            Some(a) => if a > 0 {
                return a;
            },
            None => {},
        }
        match self.untracked_commits {
            Some(c) => c,
            None => 0,
        }
    }
}

impl Default for WorktreeStatus {
    fn default() -> (r: Self)
        ensures
            r == WorktreeStatus::spec_default(),
    {
        WorktreeStatus {
            dirty_count: 0,
            upstream: None,
            ahead: None,
            behind: None,
            last_commit_time: None,
            behind_main: None,
            untracked_commits: None,
            upstream_gone: false,
        }
    }
}

impl Clone for WorktreeStatus {
    fn clone(&self) -> (r: Self)
        ensures
            r == *self,
    {
        WorktreeStatus {
            dirty_count: self.dirty_count,
            upstream: clone_opt_string(&self.upstream),
            ahead: self.ahead,
            behind: self.behind,
            last_commit_time: self.last_commit_time,
            behind_main: self.behind_main,
            untracked_commits: self.untracked_commits,
            upstream_gone: self.upstream_gone,
        }
    }
}

/// What probing a branch's configured upstream yielded.
pub enum UpstreamObservation {
    /// No upstream is configured, or HEAD is not on a branch at all.
    Absent,
    /// An upstream is configured but the local HEAD resolves to no commit.
    LocalUnresolved { name: Option<String> },
    /// An upstream is configured but its reference no longer resolves to a
    /// commit, or the graph distance to it could not be computed.
    Gone { name: Option<String> },
    /// The graph distance between the local HEAD and the upstream tip.
    Distance { name: Option<String>, ahead: usize, behind: usize },
}

/// Everything the repository accessor reads from one worktree, raw and
/// best-effort: each field records one independent read.
pub struct RepoObservation {
    /// The worktree's repository state could be opened at all.
    pub opened: bool,
    /// Count of modified, added or removed paths in the working tree.
    pub dirty_count: usize,
    /// What probing the configured upstream yielded.
    pub upstream: UpstreamObservation,
    /// Seconds since the HEAD commit; absent when HEAD cannot be resolved.
    pub last_commit_seconds: Option<i64>,
    /// Graph distance (ahead, behind) between HEAD and the shared base
    /// commit; absent when either side cannot be resolved.
    pub base_distance: Option<(usize, usize)>,
}

/// Whether a snapshot includes the costly working-tree scan.
#[derive(Clone, Copy, PartialEq, Eq, Structural)]
pub enum StatusMode {
    /// Everything, including the dirty-file count.
    Full,
    /// Everything but the dirty-file count, which is reported as zero.
    Minimal,
}

/// The upstream, ahead, behind and upstream-gone fields a snapshot takes
/// from an upstream probe: a detached worktree has none.
pub open spec fn spec_upstream_fields(detached: bool, u: UpstreamObservation) -> (
    Option<String>,
    Option<usize>,
    Option<usize>,
    bool,
) {
    if detached {
        (None, None, None, false)
    } else {
        match u {
            UpstreamObservation::Absent => (None, None, None, false),
            UpstreamObservation::LocalUnresolved { name } => (name, None, None, false),
            UpstreamObservation::Gone { name } => (name, None, None, true),
            UpstreamObservation::Distance { name, ahead, behind } => (
                name,
                Some(ahead),
                Some(behind),
                false,
            ),
        }
    }
}

/// The snapshot built from one worktree's observation: all-absent when the
/// worktree could not be opened; otherwise each field carries the
/// corresponding read, with the dirty count forced to zero in minimal mode
/// and the untracked-commit estimate only where no upstream is configured
/// on an attached worktree.
pub open spec fn spec_build_status(
    detached: bool,
    obs: RepoObservation,
    mode: StatusMode,
) -> WorktreeStatus {
    if !obs.opened {
        WorktreeStatus::spec_default()
    } else {
        let u = spec_upstream_fields(detached, obs.upstream);
        WorktreeStatus {
            dirty_count: if mode is Full {
                obs.dirty_count
            } else {
                0
            },
            upstream: u.0,
            ahead: u.1,
            behind: u.2,
            last_commit_time: obs.last_commit_seconds,
            behind_main: match obs.base_distance {
                Some(d) => Some(d.1),
                None => None,
            },
            untracked_commits: if u.0 is None && !detached {
                match obs.base_distance {
                    Some(d) => Some(d.0),
                    None => None,
                }
            } else {
                None
            },
            upstream_gone: u.3,
        }
    }
}

fn upstream_fields(detached: bool, u: &UpstreamObservation) -> (r: (
    Option<String>,
    Option<usize>,
    Option<usize>,
    bool,
))
    ensures
        r == spec_upstream_fields(detached, *u),
{
    if detached {
        (None, None, None, false)
    } else {
        match u {
            UpstreamObservation::Absent => (None, None, None, false),
            UpstreamObservation::LocalUnresolved { name } => (
                clone_opt_string(name),
                None,
                None,
                false,
            ),
            UpstreamObservation::Gone { name } => (clone_opt_string(name), None, None, true),
            UpstreamObservation::Distance { name, ahead, behind } => (
                clone_opt_string(name),
                Some(*ahead),
                Some(*behind),
                false,
            ),
        }
    }
}

/// Builds the snapshot for one worktree from its observation.
pub fn build_status(worktree: &Worktree, obs: &RepoObservation, mode: StatusMode) -> (st:
    WorktreeStatus)
    ensures
        st == spec_build_status(worktree.detached, *obs, mode),
        st.wf(worktree.detached),
{
    if !obs.opened {
        return WorktreeStatus::default();
    }
    let u = upstream_fields(worktree.detached, &obs.upstream);
    let untracked_commits = if u.0.is_none() && !worktree.detached {
        match obs.base_distance {
            Some(d) => Some(d.0),
            None => None,
        }
    } else {
        None
    };
    WorktreeStatus {
        dirty_count: if matches!(mode, StatusMode::Full) {
            obs.dirty_count
        } else {
            0
        },
        upstream: u.0,
        ahead: u.1,
        behind: u.2,
        last_commit_time: obs.last_commit_seconds,
        behind_main: match obs.base_distance {
            Some(d) => Some(d.1),
            None => None,
        },
        untracked_commits,
        upstream_gone: u.3,
    }
}

/// The full snapshot for one worktree.
pub fn get_worktree_status(worktree: &Worktree, obs: &RepoObservation) -> (st: WorktreeStatus)
    ensures
        st == spec_build_status(worktree.detached, *obs, StatusMode::Full),
        st.wf(worktree.detached),
{
    build_status(worktree, obs, StatusMode::Full)
}

/// Pairs each worktree with the snapshot built from its observation, in
/// input order: the result always has exactly one entry per input worktree,
/// however the observations were gathered.
pub fn aggregate(
    worktrees: &Vec<Worktree>,
    observations: &Vec<RepoObservation>,
    mode: StatusMode,
) -> (r: Vec<(Worktree, WorktreeStatus)>)
    requires
        observations@.len() == worktrees@.len(),
    ensures
        r@.len() == worktrees@.len(),
        forall|i: int|
            0 <= i < r@.len() ==> (#[trigger] r@[i]).0 == worktrees@[i] && r@[i].1
                == spec_build_status(worktrees@[i].detached, observations@[i], mode),
        forall|i: int| 0 <= i < r@.len() ==> (#[trigger] r@[i]).1.wf(worktrees@[i].detached),
{
    let mut r: Vec<(Worktree, WorktreeStatus)> = Vec::new();
    let mut i: usize = 0;
    while i < worktrees.len()
        invariant
            observations@.len() == worktrees@.len(),
            0 <= i <= worktrees@.len(),
            r@.len() == i,
            forall|j: int|
                0 <= j < i ==> (#[trigger] r@[j]).0 == worktrees@[j] && r@[j].1
                    == spec_build_status(worktrees@[j].detached, observations@[j], mode),
            forall|j: int| 0 <= j < i ==> (#[trigger] r@[j]).1.wf(worktrees@[j].detached),
        decreases worktrees@.len() - i,
    {
        let st = build_status(&worktrees[i], &observations[i], mode);
        r.push((worktrees[i].clone(), st));
        i = i + 1;
    }
    r
}

/// Full snapshots for all worktrees, one per input, in input order.
pub fn get_all_statuses(worktrees: &Vec<Worktree>, observations: &Vec<RepoObservation>) -> (r: Vec<
    (Worktree, WorktreeStatus),
>)
    requires
        observations@.len() == worktrees@.len(),
    ensures
        r@.len() == worktrees@.len(),
        forall|i: int|
            0 <= i < r@.len() ==> (#[trigger] r@[i]).0 == worktrees@[i] && r@[i].1
                == spec_build_status(worktrees@[i].detached, observations@[i], StatusMode::Full),
{
    aggregate(worktrees, observations, StatusMode::Full)
}

/// Fast snapshots for all worktrees: skips the costly working-tree scan, so
/// every dirty count is zero.
pub fn get_all_statuses_fast(worktrees: &Vec<Worktree>, observations: &Vec<RepoObservation>) -> (r:
    Vec<(Worktree, WorktreeStatus)>)
    requires
        observations@.len() == worktrees@.len(),
    ensures
        r@.len() == worktrees@.len(),
        forall|i: int|
            0 <= i < r@.len() ==> (#[trigger] r@[i]).0 == worktrees@[i] && r@[i].1
                == spec_build_status(worktrees@[i].detached, observations@[i], StatusMode::Minimal),
        forall|i: int| 0 <= i < r@.len() ==> (#[trigger] r@[i]).1.dirty_count == 0,
{
    aggregate(worktrees, observations, StatusMode::Minimal)
}

/// A worktree with no modified, added or removed paths reports a dirty
/// count of zero, in either mode.
pub proof fn lemma_clean_worktree_zero_dirty(detached: bool, obs: RepoObservation, mode: StatusMode)
    requires
        obs.dirty_count == 0,
    ensures
        spec_build_status(detached, obs, mode).dirty_count == 0,
{
}

/// Minimal mode reports a dirty count of zero whatever the working tree
/// holds.
pub proof fn lemma_minimal_mode_zero_dirty(detached: bool, obs: RepoObservation)
    ensures
        spec_build_status(detached, obs, StatusMode::Minimal).dirty_count == 0,
{
}

} // verus!
