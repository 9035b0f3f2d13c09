//! The worktree registry: the identity of each working copy linked to one
//! shared repository, and how a registry snapshot is assembled from what the
//! repository accessor observed on disk.
use vstd::prelude::*;

use crate::text::{
    char_is_alphanumeric, clone_opt_string, is_alphanum, last_segment, last_segment_of, push_char,
};

verus! {

/// The main repository's identity as plain canonical paths: the working-tree
/// root, and the parent directory of the shared metadata directory (which is
/// the main worktree's path in the standard layout).
pub struct RepoInfo {
    pub root: String,
    pub common_parent: String,
}

/// Identity of one working copy. `path` is the canonical filesystem path.
/// A `prunable` entry is a stub for a broken checkout: its `head` is empty
/// and its branch fields are unset, so it can never be mistaken for a live
/// worktree.
pub struct Worktree {
    pub path: String,
    pub head: String,
    pub branch: Option<String>,
    pub branch_short: Option<String>,
    pub detached: bool,
    pub locked: bool,
    pub prunable: bool,
}

impl Worktree {
    /// Structural well-formedness: broken stubs carry no head or branch data,
    /// and a detached checkout has no branch names.
    pub open spec fn wf(self) -> bool {
        &&& self.prunable ==> self.head@.len() == 0 && self.branch is None
            && self.branch_short is None && !self.detached
        &&& self.detached ==> self.branch is None && self.branch_short is None
    }

    /// Lookup identity: the short branch name when present, else the final
    /// path segment, else a fixed placeholder.
    pub open spec fn spec_name(self) -> Seq<char> {
        match self.branch_short {
            Some(b) => b@,
            None => if last_segment(self.path@).len() > 0 {
                last_segment(self.path@)
            } else {
                "unknown"@
            },
        }
    }

    pub fn name(&self) -> (r: String)
        ensures
            r@ == self.spec_name(),
    {
        match &self.branch_short {
            Some(b) => b.clone(),
            None => {
                let seg = last_segment_of(self.path.as_str());
                if seg.unicode_len() > 0 {
                    seg.to_owned()
                } else {
                    "unknown".to_owned()
                }
            },
        }
    }

    /// A worktree is the main one when its path is the parent of the shared
    /// metadata directory, or the repository root itself.
    pub open spec fn spec_is_main(self, repo: RepoInfo) -> bool {
        self.path@ == repo.common_parent@ || self.path@ == repo.root@
    }

    pub fn is_main_worktree(&self, repo: &RepoInfo) -> (r: bool)
        ensures
            r == self.spec_is_main(*repo),
    {
        self.path == repo.common_parent || self.path == repo.root
    }
}

impl Clone for Worktree {
    fn clone(&self) -> (r: Self)
        ensures
            r == *self,
    {
        Worktree {
            path: self.path.clone(),
            head: self.head.clone(),
            branch: clone_opt_string(&self.branch),
            branch_short: clone_opt_string(&self.branch_short),
            detached: self.detached,
            locked: self.locked,
            prunable: self.prunable,
        }
    }
}

/// What reading a checkout's HEAD yields: the commit id, the full reference
/// name and its short form, and whether HEAD points at a commit directly
/// rather than at a branch.
pub struct HeadInfo {
    pub head: String,
    pub name: Option<String>,
    pub shorthand: Option<String>,
    pub detached: bool,
}

/// The outcome of opening one worktree's repository state.
pub enum OpenOutcome {
    /// The checkout could not be opened at all.
    Unopenable,
    /// Opened; `head` is `None` when HEAD itself could not be read (for
    /// instance in a repository with no commits yet).
    Opened { head: Option<HeadInfo> },
}

/// One linked worktree's administrative entry, as enumerated on disk:
/// its checkout path, its lock state, whether the administrative metadata
/// says the checkout is gone, and what opening it yielded.
pub struct LinkedWorktreeInfo {
    pub path: String,
    pub locked: bool,
    pub prunable: bool,
    pub open: OpenOutcome,
}

/// The head and branch fields of an entry are all empty.
pub open spec fn empty_fields(wt: Worktree) -> bool {
    &&& wt.head@.len() == 0
    &&& wt.branch is None
    &&& wt.branch_short is None
    &&& !wt.detached
}

/// The entry is a stub for a checkout that cannot be queried further.
pub open spec fn is_broken_stub(wt: Worktree) -> bool {
    wt.prunable && empty_fields(wt)
}

/// The entry's head and branch fields record exactly what was read from
/// HEAD: a detached HEAD keeps the commit id and drops the branch names.
pub open spec fn head_fields_match(h: Option<HeadInfo>, wt: Worktree) -> bool {
    match h {
        None => empty_fields(wt),
        Some(hi) => {
            &&& wt.head == hi.head
            &&& wt.detached == hi.detached
            &&& if hi.detached {
                wt.branch is None && wt.branch_short is None
            } else {
                wt.branch == hi.name && wt.branch_short == hi.shorthand
            }
        },
    }
}

/// The entry built for one linked worktree: a broken stub when the
/// administrative metadata marks it prunable or it could not be opened,
/// else a live entry carrying what HEAD showed.
pub open spec fn linked_entry_matches(info: LinkedWorktreeInfo, wt: Worktree) -> bool {
    &&& wt.path == info.path
    &&& wt.locked == info.locked
    &&& if info.prunable || info.open is Unopenable {
        is_broken_stub(wt)
    } else {
        &&& !wt.prunable
        &&& match info.open {
            OpenOutcome::Opened { head } => head_fields_match(head, wt),
            OpenOutcome::Unopenable => false,
        }
    }
}

/// The entry synthesized for the main worktree: never locked, never
/// prunable.
pub open spec fn main_entry_matches(main_path: String, head: Option<HeadInfo>, wt: Worktree) -> bool {
    &&& wt.path == main_path
    &&& !wt.locked
    &&& !wt.prunable
    &&& head_fields_match(head, wt)
}

/// Some linked entry already occupies the main worktree's path.
pub open spec fn linked_covers_main(linked: Seq<LinkedWorktreeInfo>, main_path: Seq<char>) -> bool {
    exists|i: int| 0 <= i < linked.len() && linked[i].path@ == main_path
}

/// The assembled registry: one entry per linked worktree, in order, followed
/// by a synthesized main entry unless the main checkout could not be opened
/// or a linked entry already has its path.
pub open spec fn registry_matches(
    linked: Seq<LinkedWorktreeInfo>,
    main_path: String,
    main_open: OpenOutcome,
    r: Seq<Worktree>,
) -> bool {
    &&& forall|i: int| 0 <= i < linked.len() ==> linked_entry_matches(linked[i], #[trigger] r[i])
    &&& if main_open is Unopenable || linked_covers_main(linked, main_path@) {
        r.len() == linked.len()
    } else {
        &&& r.len() == linked.len() + 1
        &&& match main_open {
            OpenOutcome::Opened { head } => main_entry_matches(main_path, head, r.last()),
            OpenOutcome::Unopenable => false,
        }
    }
}

/// Builds the fields a registry entry takes from what HEAD showed.
fn entry_from_head(path: String, locked: bool, head: &Option<HeadInfo>) -> (wt: Worktree)
    ensures
        wt.path == path,
        wt.locked == locked,
        !wt.prunable,
        head_fields_match(*head, wt),
        wt.wf(),
{
    match head {
        None => Worktree {
            path,
            head: String::new(),
            branch: None,
            branch_short: None,
            detached: false,
            locked,
            prunable: false,
        },
        Some(hi) => {
            if hi.detached {
                Worktree {
                    path,
                    head: hi.head.clone(),
                    branch: None,
                    branch_short: None,
                    detached: true,
                    locked,
                    prunable: false,
                }
            } else {
                Worktree {
                    path,
                    head: hi.head.clone(),
                    branch: clone_opt_string(&hi.name),
                    branch_short: clone_opt_string(&hi.shorthand),
                    detached: false,
                    locked,
                    prunable: false,
                }
            }
        },
    }
}

/// Builds the registry entry for one linked worktree.
fn build_linked_entry(info: &LinkedWorktreeInfo) -> (wt: Worktree)
    ensures
        linked_entry_matches(*info, wt),
        wt.wf(),
{
    let path = info.path.clone();
    match &info.open {
        OpenOutcome::Unopenable => Worktree {
            path,
            head: String::new(),
            branch: None,
            branch_short: None,
            detached: false,
            locked: info.locked,
            prunable: true,
        },
        OpenOutcome::Opened { head } => {
            if info.prunable {
                Worktree {
                    path,
                    head: String::new(),
                    branch: None,
                    branch_short: None,
                    detached: false,
                    locked: info.locked,
                    prunable: true,
                }
            } else {
                entry_from_head(path, info.locked, head)
            }
        },
    }
}

/// Assembles a registry snapshot from the enumerated linked worktrees and
/// the main checkout. A linked worktree that is marked prunable or cannot be
/// opened degrades to a broken stub and never aborts the enumeration of the
/// others; the main entry is synthesized unless its path is already present
/// or it could not be opened.
pub fn list_worktrees(
    linked: &Vec<LinkedWorktreeInfo>,
    main_path: &String,
    main_open: &OpenOutcome,
) -> (r: Vec<Worktree>)
    ensures
        registry_matches(linked@, *main_path, *main_open, r@),
        forall|i: int| 0 <= i < r@.len() ==> (#[trigger] r@[i]).wf(),
{
    let mut r: Vec<Worktree> = Vec::new();
    let mut i: usize = 0;
    while i < linked.len()
        invariant
            0 <= i <= linked@.len(),
            r@.len() == i,
            forall|j: int| 0 <= j < i ==> linked_entry_matches(linked@[j], #[trigger] r@[j]),
            forall|j: int| 0 <= j < i ==> (#[trigger] r@[j]).wf(),
        decreases linked@.len() - i,
    {
        let wt = build_linked_entry(&linked[i]);
        r.push(wt);
        i = i + 1;
    }

    match main_open {
        OpenOutcome::Unopenable => r,
        OpenOutcome::Opened { head } => {
            let mut covered = false;
            let mut j: usize = 0;
            while j < linked.len()
                invariant
                    0 <= j <= linked@.len(),
                    covered == exists|k: int|
                        0 <= k < j && (#[trigger] linked@[k].path)@ == main_path@,
                decreases linked@.len() - j,
            {
                if linked[j].path == *main_path {
                    covered = true;
                }
                j = j + 1;
            }
            if covered {
                r
            } else {
                let main_wt = entry_from_head(main_path.clone(), false, head);
                let mut r2 = r;
                r2.push(main_wt);
                r2
            }
        },
    }
}

/// The entry holds the main worktree's path.
pub open spec fn is_main_path(wt: Worktree, main_path: Seq<char>) -> bool {
    wt.path@ == main_path
}

/// The linked worktrees enumerated on disk have pairwise distinct paths.
pub open spec fn distinct_paths(linked: Seq<LinkedWorktreeInfo>) -> bool {
    forall|i: int, j: int|
        0 <= i < j < linked.len() ==> (#[trigger] linked[i].path)@ != (#[trigger] linked[j].path)@
}

/// For any registry snapshot assembled from linked worktrees with pairwise
/// distinct paths, where the main checkout opened or its path already
/// appears among the linked entries, exactly one registry entry is the main
/// worktree.
pub proof fn lemma_registry_unique_main(
    linked: Seq<LinkedWorktreeInfo>,
    main_path: String,
    main_open: OpenOutcome,
    r: Seq<Worktree>,
)
    requires
        registry_matches(linked, main_path, main_open, r),
        distinct_paths(linked),
        main_open is Opened || linked_covers_main(linked, main_path@),
    ensures
        exists|i: int| 0 <= i < r.len() && is_main_path(#[trigger] r[i], main_path@),
        forall|i: int, j: int|
            0 <= i < r.len() && 0 <= j < r.len() && is_main_path(#[trigger] r[i], main_path@)
                && is_main_path(#[trigger] r[j], main_path@) ==> i == j,
{
    if linked_covers_main(linked, main_path@) {
        let k = choose|k: int| 0 <= k < linked.len() && linked[k].path@ == main_path@;
        assert(linked_entry_matches(linked[k], r[k]));
        assert(is_main_path(r[k], main_path@));
        assert forall|i: int, j: int|
            0 <= i < r.len() && 0 <= j < r.len() && is_main_path(r[i], main_path@) && is_main_path(
                r[j],
                main_path@,
            ) implies i == j by {
            assert(r.len() == linked.len());
            assert(linked_entry_matches(linked[i], r[i]));
            assert(linked_entry_matches(linked[j], r[j]));
            assert(linked[i].path@ == main_path@);
            assert(linked[j].path@ == main_path@);
        }
    } else {
        let last = r.len() - 1;
        assert(r.len() == linked.len() + 1);
        assert(is_main_path(r[last], main_path@));
        assert forall|i: int, j: int|
            0 <= i < r.len() && 0 <= j < r.len() && is_main_path(r[i], main_path@) && is_main_path(
                r[j],
                main_path@,
            ) implies i == j by {
            if i < last {
                assert(linked_entry_matches(linked[i], r[i]));
                assert(linked[i].path@ == main_path@);
                assert(linked_covers_main(linked, main_path@));
            }
            if j < last {
                assert(linked_entry_matches(linked[j], r[j]));
                assert(linked[j].path@ == main_path@);
                assert(linked_covers_main(linked, main_path@));
            }
        }
    }
}

/// The entry answers to `name`: by its short branch name, or by the final
/// segment of its path.
pub open spec fn matches_name(wt: Worktree, name: Seq<char>) -> bool {
    ||| wt.branch_short matches Some(b) && b@ == name
    ||| last_segment(wt.path@).len() > 0 && last_segment(wt.path@) == name
}

/// Finds the first worktree that answers to `name`.
pub fn find_worktree<'a>(worktrees: &'a Vec<Worktree>, name: &str) -> (r: Option<&'a Worktree>)
    ensures
        match r {
            Some(wt) => exists|i: int|
                0 <= i < worktrees@.len() && *wt == worktrees@[i] && matches_name(
                    worktrees@[i],
                    name@,
                ) && forall|j: int| 0 <= j < i ==> !matches_name(#[trigger] worktrees@[j], name@),
            None => forall|i: int|
                0 <= i < worktrees@.len() ==> !matches_name(#[trigger] worktrees@[i], name@),
        },
{
    let nm: String = name.to_owned();
    let mut i: usize = 0;
    while i < worktrees.len()
        invariant
            0 <= i <= worktrees@.len(),
            nm@ == name@,
            forall|j: int| 0 <= j < i ==> !matches_name(#[trigger] worktrees@[j], name@),
        decreases worktrees@.len() - i,
    {
        let wt = &worktrees[i];
        let by_branch = match &wt.branch_short {
            Some(b) => *b == nm,
            None => false,
        };
        if by_branch {
            return Some(wt);
        }
        let seg = last_segment_of(wt.path.as_str());
        if seg.unicode_len() > 0 && seg.to_owned() == nm {
            return Some(wt);
        }
        i = i + 1;
    }
    None
}

/// `c` mapped into the slug alphabet: letters, digits, `'-'` and `'_'` are
/// kept, anything else becomes `'-'`.
pub open spec fn slug_map(c: char) -> char {
    if is_alphanum(c) || c == '-' || c == '_' {
        c
    } else {
        '-'
    }
}

/// `s` without its leading run of `'-'`.
pub open spec fn trim_leading(s: Seq<char>) -> Seq<char>
    decreases s.len(),
{
    if s.len() > 0 && s[0] == '-' {
        trim_leading(s.subrange(1, s.len() as int))
    } else {
        s
    }
}

/// `s` without its trailing run of `'-'`.
pub open spec fn trim_trailing(s: Seq<char>) -> Seq<char>
    decreases s.len(),
{
    if s.len() > 0 && s.last() == '-' {
        trim_trailing(s.drop_last())
    } else {
        s
    }
}

/// The slug of a branch name: each character mapped into the slug alphabet,
/// then the leading and trailing runs of `'-'` removed.
pub open spec fn spec_slug(s: Seq<char>) -> Seq<char> {
    trim_trailing(trim_leading(s.map_values(|c: char| slug_map(c))))
}

proof fn lemma_trim_leading_prefix(s: Seq<char>, k: int)
    requires
        0 <= k <= s.len(),
        forall|j: int| 0 <= j < k ==> s[j] == '-',
        k == s.len() || s[k] != '-',
    ensures
        trim_leading(s) == s.subrange(k, s.len() as int),
    decreases k,
{
    if k == 0 {
        assert(s.subrange(0, s.len() as int) =~= s);
    } else {
        let t = s.subrange(1, s.len() as int);
        lemma_trim_leading_prefix(t, k - 1);
        assert(t.subrange(k - 1, t.len() as int) =~= s.subrange(k, s.len() as int));
    }
}

proof fn lemma_trim_trailing_suffix(s: Seq<char>, k: int)
    requires
        0 <= k <= s.len(),
        forall|j: int| k <= j < s.len() ==> s[j] == '-',
        k == 0 || s[k - 1] != '-',
    ensures
        trim_trailing(s) == s.subrange(0, k),
    decreases s.len(),
{
    if k == s.len() {
        if s.len() > 0 && s.last() == '-' {
            assert(s[k - 1] == '-');
        }
        assert(s.subrange(0, s.len() as int) =~= s);
    } else {
        assert(s.last() == '-');
        let t = s.drop_last();
        lemma_trim_trailing_suffix(t, k);
        assert(t.subrange(0, k) =~= s.subrange(0, k));
    }
}

/// Turns a branch name into a filesystem-friendly slug.
pub fn slug_from_branch(branch: &str) -> (r: String)
    ensures
        r@ == spec_slug(branch@),
{
    let n = branch.unicode_len();
    let mut v: Vec<char> = Vec::new();
    let mut i: usize = 0;
    while i < n
        invariant
            n == branch@.len(),
            0 <= i <= n,
            v@ == branch@.subrange(0, i as int).map_values(|c: char| slug_map(c)),
        decreases n - i,
    {
        let c = branch.get_char(i);
        let mc = if char_is_alphanumeric(c) || c == '-' || c == '_' {
            c
        } else {
            '-'
        };
        v.push(mc);
        proof {
            assert(branch@.subrange(0, i + 1) =~= branch@.subrange(0, i as int).push(
                branch@[i as int],
            ));
            assert(branch@.subrange(0, i + 1).map_values(|c: char| slug_map(c)) =~= branch@
                .subrange(0, i as int).map_values(|c: char| slug_map(c)).push(
                slug_map(branch@[i as int]),
            ));
        }
        i = i + 1;
    }
    proof {
        assert(branch@.subrange(0, n as int) =~= branch@);
    }

    let len = v.len();
    let mut start: usize = 0;
    while start < len && v[start] == '-'
        invariant
            len == v@.len(),
            0 <= start <= len,
            forall|j: int| 0 <= j < start ==> v@[j] == '-',
        decreases len - start,
    {
        start = start + 1;
    }
    let mut end: usize = len;
    while end > start && v[end - 1] == '-'
        invariant
            len == v@.len(),
            start <= end <= len,
            forall|j: int| end <= j < len ==> v@[j] == '-',
        decreases end,
    {
        end = end - 1;
    }

    proof {
        lemma_trim_leading_prefix(v@, start as int);
        let t = v@.subrange(start as int, len as int);
        lemma_trim_trailing_suffix(t, end - start);
        assert(t.subrange(0, end - start) =~= v@.subrange(start as int, end as int));
    }

    let mut s = String::new();
    let mut j: usize = start;
    while j < end
        invariant
            start <= j <= end <= len,
            len == v@.len(),
            s@ == v@.subrange(start as int, j as int),
        decreases end - j,
    {
        push_char(&mut s, v[j]);
        proof {
            assert(v@.subrange(start as int, j as int).push(v@[j as int]) =~= v@.subrange(
                start as int,
                j + 1,
            ));
        }
        j = j + 1;
    }
    s
}

} // verus!
