use workty::status::{
    build_status, get_all_statuses, get_all_statuses_fast, get_worktree_status, RepoObservation,
    StatusMode, UpstreamObservation, WorktreeStatus,
};
use workty::worktree::Worktree;

fn wt(path: &str, branch: Option<&str>, detached: bool) -> Worktree {
    Worktree {
        path: path.to_string(),
        head: "abc123".to_string(),
        branch: if detached {
            None
        } else {
            branch.map(|b| format!("refs/heads/{}", b))
        },
        branch_short: if detached {
            None
        } else {
            branch.map(|b| b.to_string())
        },
        detached,
        locked: false,
        prunable: false,
    }
}

fn obs(
    opened: bool,
    dirty: usize,
    upstream: UpstreamObservation,
    age: Option<i64>,
    base: Option<(usize, usize)>,
) -> RepoObservation {
    RepoObservation {
        opened,
        dirty_count: dirty,
        upstream,
        last_commit_seconds: age,
        base_distance: base,
    }
}

fn with_upstream(name: &str, ahead: usize, behind: usize) -> UpstreamObservation {
    UpstreamObservation::Distance {
        name: Some(name.to_string()),
        ahead,
        behind,
    }
}

#[test]
fn unreadable_worktree_gets_all_absent_status() {
    let w = wt("/repos/x", Some("x"), false);
    let o = obs(false, 7, with_upstream("origin/x", 1, 2), Some(5), Some((1, 1)));
    let st = get_worktree_status(&w, &o);
    assert_eq!(st.dirty_count, 0);
    assert!(st.upstream.is_none());
    assert!(st.ahead.is_none() && st.behind.is_none());
    assert!(st.last_commit_time.is_none());
    assert!(st.behind_main.is_none());
    assert!(st.untracked_commits.is_none());
    assert!(!st.upstream_gone);
}

#[test]
fn full_status_carries_every_read() {
    let w = wt("/repos/x", Some("x"), false);
    let o = obs(true, 3, with_upstream("origin/x", 1, 2), Some(500), Some((4, 6)));
    let st = get_worktree_status(&w, &o);
    assert_eq!(st.dirty_count, 3);
    assert_eq!(st.upstream.as_deref(), Some("origin/x"));
    assert_eq!(st.ahead, Some(1));
    assert_eq!(st.behind, Some(2));
    assert_eq!(st.last_commit_time, Some(500));
    assert_eq!(st.behind_main, Some(6));
    assert!(st.untracked_commits.is_none());
    assert!(!st.upstream_gone);
}

#[test]
fn upstream_gone_sets_flag_without_counts() {
    let w = wt("/repos/x", Some("x"), false);
    let o = obs(
        true,
        0,
        UpstreamObservation::Gone {
            name: Some("origin/x".to_string()),
        },
        Some(10),
        None,
    );
    let st = get_worktree_status(&w, &o);
    assert!(st.upstream_gone);
    assert_eq!(st.upstream.as_deref(), Some("origin/x"));
    assert!(st.ahead.is_none() && st.behind.is_none());
}

#[test]
fn detached_worktree_has_no_upstream_data() {
    let w = wt("/repos/x", None, true);
    let o = obs(true, 1, with_upstream("origin/x", 1, 2), Some(10), Some((3, 5)));
    let st = get_worktree_status(&w, &o);
    assert!(st.upstream.is_none());
    assert!(st.ahead.is_none() && st.behind.is_none());
    assert!(!st.upstream_gone);
    assert_eq!(st.behind_main, Some(5));
    assert!(st.untracked_commits.is_none());
    assert_eq!(st.dirty_count, 1);
}

#[test]
fn untracked_commits_only_without_upstream_on_attached_worktree() {
    let w = wt("/repos/x", Some("x"), false);
    let o = obs(true, 0, UpstreamObservation::Absent, Some(10), Some((4, 2)));
    let st = get_worktree_status(&w, &o);
    assert!(st.upstream.is_none());
    assert_eq!(st.untracked_commits, Some(4));
    assert_eq!(st.behind_main, Some(2));
}

#[test]
fn clean_worktree_reports_zero_dirty() {
    let w = wt("/repos/x", Some("x"), false);
    let o = obs(true, 0, with_upstream("origin/x", 0, 0), Some(10), None);
    let st = build_status(&w, &o, StatusMode::Full);
    assert_eq!(st.dirty_count, 0);
}

#[test]
fn minimal_mode_always_reports_zero_dirty() {
    let w = wt("/repos/x", Some("x"), false);
    let o = obs(true, 42, with_upstream("origin/x", 0, 0), Some(10), None);
    let st = build_status(&w, &o, StatusMode::Minimal);
    assert_eq!(st.dirty_count, 0);
    assert_eq!(st.upstream.as_deref(), Some("origin/x"));
}

#[test]
fn aggregation_returns_one_entry_per_worktree_in_order() {
    let worktrees = vec![
        wt("/repos/a", Some("a"), false),
        wt("/repos/b", Some("b"), false),
        wt("/repos/c", None, true),
    ];
    let observations = vec![
        obs(true, 1, with_upstream("origin/a", 0, 1), Some(10), Some((0, 0))),
        obs(false, 9, UpstreamObservation::Absent, None, None),
        obs(true, 2, UpstreamObservation::Absent, Some(20), None),
    ];
    let r = get_all_statuses(&worktrees, &observations);
    assert_eq!(r.len(), 3);
    assert_eq!(r[0].0.path, "/repos/a");
    assert_eq!(r[1].0.path, "/repos/b");
    assert_eq!(r[2].0.path, "/repos/c");
    assert_eq!(r[0].1.dirty_count, 1);
    assert_eq!(r[0].1.behind, Some(1));
    assert_eq!(r[1].1.dirty_count, 0);
    assert!(r[1].1.upstream.is_none());

    let fast = get_all_statuses_fast(&worktrees, &observations);
    assert_eq!(fast.len(), 3);
    for (w, st) in &fast {
        assert_eq!(st.dirty_count, 0);
        let _ = w;
    }
}

#[test]
fn default_status_is_all_absent() {
    let st = WorktreeStatus::default();
    assert_eq!(st.dirty_count, 0);
    assert!(st.upstream.is_none());
    assert!(st.ahead.is_none());
    assert!(st.behind.is_none());
    assert!(st.last_commit_time.is_none());
    assert!(st.behind_main.is_none());
    assert!(st.untracked_commits.is_none());
    assert!(!st.upstream_gone);
}

#[test]
fn status_accessors() {
    let st = WorktreeStatus {
        dirty_count: 2,
        upstream: Some("origin/x".to_string()),
        ahead: Some(3),
        behind: Some(0),
        last_commit_time: Some(100),
        behind_main: Some(4),
        untracked_commits: None,
        upstream_gone: false,
    };
    assert!(st.is_dirty());
    assert!(st.has_upstream());
    assert!(st.needs_rebase());
    assert!(st.has_unpushed());
    assert_eq!(st.unpushed_count(), 3);

    let quiet = WorktreeStatus {
        dirty_count: 0,
        upstream: None,
        ahead: None,
        behind: None,
        last_commit_time: None,
        behind_main: Some(0),
        untracked_commits: Some(5),
        upstream_gone: false,
    };
    assert!(!quiet.is_dirty());
    assert!(!quiet.has_upstream());
    assert!(!quiet.needs_rebase());
    assert!(quiet.has_unpushed());
    assert_eq!(quiet.unpushed_count(), 5);
}
