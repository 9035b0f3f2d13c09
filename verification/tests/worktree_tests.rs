use workty::worktree::{
    find_worktree, list_worktrees, slug_from_branch, HeadInfo, LinkedWorktreeInfo, OpenOutcome,
    RepoInfo, Worktree,
};

fn wt(path: &str, branch: Option<&str>, detached: bool, prunable: bool) -> Worktree {
    Worktree {
        path: path.to_string(),
        head: if prunable { String::new() } else { "abc123".to_string() },
        branch: if detached || prunable {
            None
        } else {
            branch.map(|b| format!("refs/heads/{}", b))
        },
        branch_short: if detached || prunable {
            None
        } else {
            branch.map(|b| b.to_string())
        },
        detached,
        locked: false,
        prunable,
    }
}

fn head(branch: Option<&str>, detached: bool) -> HeadInfo {
    HeadInfo {
        head: "abc123".to_string(),
        name: branch.map(|b| format!("refs/heads/{}", b)),
        shorthand: branch.map(|b| b.to_string()),
        detached,
    }
}

#[test]
fn test_slug_from_branch() {
    assert_eq!(slug_from_branch("feat/login"), "feat-login");
    assert_eq!(slug_from_branch("fix/bug-123"), "fix-bug-123");
    assert_eq!(
        slug_from_branch("feature/add user auth"),
        "feature-add-user-auth"
    );
}

#[test]
fn slug_trims_dashes_and_keeps_underscores() {
    assert_eq!(slug_from_branch("//weird//"), "weird");
    assert_eq!(slug_from_branch("a_b"), "a_b");
    assert_eq!(slug_from_branch("---"), "");
    assert_eq!(slug_from_branch(""), "");
}

#[test]
fn name_prefers_branch_then_path_segment() {
    let a = wt("/repos/alpha", Some("feat"), false, false);
    assert_eq!(a.name(), "feat");
    let b = wt("/repos/beta", None, true, false);
    assert_eq!(b.name(), "beta");
    let c = wt("/", None, true, false);
    assert_eq!(c.name(), "unknown");
}

#[test]
fn is_main_matches_root_or_common_parent() {
    let repo = RepoInfo {
        root: "/repos/main".to_string(),
        common_parent: "/repos/main".to_string(),
    };
    assert!(wt("/repos/main", Some("main"), false, false).is_main_worktree(&repo));
    assert!(!wt("/repos/feat", Some("feat"), false, false).is_main_worktree(&repo));
}

#[test]
fn find_worktree_by_branch_or_path() {
    let v = vec![
        wt("/repos/one", Some("alpha"), false, false),
        wt("/repos/two", None, true, false),
        wt("/repos/three", Some("gamma"), false, false),
    ];
    assert_eq!(find_worktree(&v, "alpha").unwrap().path, "/repos/one");
    assert_eq!(find_worktree(&v, "two").unwrap().path, "/repos/two");
    assert_eq!(find_worktree(&v, "gamma").unwrap().path, "/repos/three");
    assert!(find_worktree(&v, "missing").is_none());
}

#[test]
fn registry_synthesizes_main_entry_once() {
    let linked = vec![
        LinkedWorktreeInfo {
            path: "/repos/feat".to_string(),
            locked: false,
            prunable: false,
            open: OpenOutcome::Opened {
                head: Some(head(Some("feat"), false)),
            },
        },
        LinkedWorktreeInfo {
            path: "/repos/broken".to_string(),
            locked: true,
            prunable: true,
            open: OpenOutcome::Unopenable,
        },
    ];
    let main_path = "/repos/main".to_string();
    let main_open = OpenOutcome::Opened {
        head: Some(head(Some("main"), false)),
    };
    let r = list_worktrees(&linked, &main_path, &main_open);
    assert_eq!(r.len(), 3);
    assert_eq!(r[0].path, "/repos/feat");
    assert_eq!(r[0].branch_short.as_deref(), Some("feat"));
    assert!(!r[0].prunable);
    assert_eq!(r[1].path, "/repos/broken");
    assert!(r[1].prunable);
    assert!(r[1].locked);
    assert_eq!(r[1].head, "");
    assert!(r[1].branch.is_none() && r[1].branch_short.is_none());
    assert_eq!(r[2].path, "/repos/main");
    assert!(!r[2].locked && !r[2].prunable);
    let mains = r.iter().filter(|w| w.path == main_path).count();
    assert_eq!(mains, 1);
}

#[test]
fn registry_keeps_single_main_when_linked_covers_it() {
    let linked = vec![LinkedWorktreeInfo {
        path: "/repos/main".to_string(),
        locked: false,
        prunable: false,
        open: OpenOutcome::Opened {
            head: Some(head(Some("main"), false)),
        },
    }];
    let main_path = "/repos/main".to_string();
    let main_open = OpenOutcome::Opened {
        head: Some(head(Some("main"), false)),
    };
    let r = list_worktrees(&linked, &main_path, &main_open);
    assert_eq!(r.len(), 1);
    let mains = r.iter().filter(|w| w.path == main_path).count();
    assert_eq!(mains, 1);
}

#[test]
fn registry_degrades_unopenable_to_stub() {
    let linked = vec![LinkedWorktreeInfo {
        path: "/repos/gone".to_string(),
        locked: false,
        prunable: false,
        open: OpenOutcome::Unopenable,
    }];
    let main_path = "/repos/main".to_string();
    let r = list_worktrees(&linked, &main_path, &OpenOutcome::Unopenable);
    assert_eq!(r.len(), 1);
    assert!(r[0].prunable);
}

#[test]
fn registry_detached_head_drops_branch_names() {
    let linked = vec![LinkedWorktreeInfo {
        path: "/repos/pin".to_string(),
        locked: false,
        prunable: false,
        open: OpenOutcome::Opened {
            head: Some(head(Some("ignored"), true)),
        },
    }];
    let r = list_worktrees(&linked, &"/repos/main".to_string(), &OpenOutcome::Unopenable);
    assert_eq!(r.len(), 1);
    assert!(r[0].detached);
    assert!(r[0].branch.is_none() && r[0].branch_short.is_none());
    assert_eq!(r[0].head, "abc123");
}
