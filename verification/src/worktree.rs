//! Git worktrees of the workspace projects: reading `git worktree list
//! --porcelain`, telling where a branch exists, and planning where a new
//! worktree goes and how `git worktree add` is called for it.
use vstd::prelude::*;
use vstd::string::*;

use crate::text;
use crate::workspace;

verus! {

// ---------------------------------------------------------------------------
// Worktree records
// ---------------------------------------------------------------------------

/// A worktree as `git worktree list --porcelain` describes it.
pub struct WorktreeInfo {
    pub branch: String,
    pub path: String,
    pub is_bare: bool,
    pub is_detached: bool,
    pub head: Option<String>,
}

/// The mathematical value of a [`WorktreeInfo`].
pub struct WorktreeView {
    pub branch: Seq<char>,
    pub path: Seq<char>,
    pub is_bare: bool,
    pub is_detached: bool,
    pub head: Option<Seq<char>>,
}

impl View for WorktreeInfo {
    type V = WorktreeView;

    open spec fn view(&self) -> WorktreeView {
        WorktreeView {
            branch: self.branch@,
            path: self.path@,
            is_bare: self.is_bare,
            is_detached: self.is_detached,
            head: match self.head {
                Some(h) => Some(h@),
                None => None,
            },
        }
    }
}

/// The views of a sequence of worktrees.
pub open spec fn worktrees_view(v: Seq<WorktreeInfo>) -> Seq<WorktreeView> {
    v.map_values(|w: WorktreeInfo| w@)
}

/// The view of an optional worktree.
pub open spec fn opt_worktree_view(w: Option<WorktreeInfo>) -> Option<WorktreeView> {
    match w {
        Some(x) => Some(x@),
        None => None,
    }
}

/// The worktrees finished so far and the one being read.
pub type PorcelainState = (Seq<WorktreeView>, Option<WorktreeView>);

/// Reading one line of the porcelain listing: `worktree <path>` starts a new
/// record; `HEAD <sha>`, `branch <ref>`, `bare` and `detached` fill in the
/// record being read; anything else is passed over.
pub open spec fn porcelain_step(st: PorcelainState, line: Seq<char>) -> PorcelainState {
    if text::is_prefix("worktree "@, line) {
        let done = match st.1 {
            Some(w) => st.0.push(w),
            None => st.0,
        };
        (
            done,
            Some(
                WorktreeView {
                    branch: Seq::empty(),
                    path: line.skip("worktree "@.len() as int),
                    is_bare: false,
                    is_detached: false,
                    head: None,
                },
            ),
        )
    } else if text::is_prefix("HEAD "@, line) {
        (st.0, match st.1 {
            Some(w) => Some(WorktreeView { head: Some(line.skip("HEAD "@.len() as int)), ..w }),
            None => None,
        })
    } else if text::is_prefix("branch "@, line) {
        (st.0, match st.1 {
            Some(w) => Some(WorktreeView { branch: line.skip("branch "@.len() as int), ..w }),
            None => None,
        })
    } else if line == "bare"@ {
        (st.0, match st.1 {
            Some(w) => Some(WorktreeView { is_bare: true, ..w }),
            None => None,
        })
    } else if line == "detached"@ {
        (st.0, match st.1 {
            Some(w) => Some(WorktreeView { is_detached: true, ..w }),
            None => None,
        })
    } else {
        st
    }
}

/// The state after reading the given lines.
pub open spec fn porcelain_fold(lines: Seq<Seq<char>>) -> PorcelainState
    decreases lines.len(),
{
    if lines.len() == 0 {
        (Seq::empty(), None)
    } else {
        porcelain_step(porcelain_fold(lines.drop_last()), lines.last())
    }
}

/// The worktrees a porcelain listing describes, in order.
pub open spec fn parse_worktrees(out: Seq<char>) -> Seq<WorktreeView> {
    let st = porcelain_fold(text::lines(out));
    match st.1 {
        Some(w) => st.0.push(w),
        None => st.0,
    }
}

/// Viewing worktrees commutes with appending one.
proof fn lemma_worktrees_view_push(v: Seq<WorktreeInfo>, w: WorktreeInfo)
    ensures
        worktrees_view(v.push(w)) == worktrees_view(v).push(w@),
{
    assert(worktrees_view(v.push(w)) =~= worktrees_view(v).push(w@));
}

/// The text after a prefix of the given length.
fn rest_after(line: &Vec<char>, n: usize) -> (r: String)
    requires
        n <= line.len(),
    ensures
        r@ == line@.skip(n as int),
{
    let piece = text::chars_slice(line, n, line.len());
    assert(line@.subrange(n as int, line.len() as int) =~= line@.skip(n as int));
    text::string_of(&piece)
}

/// The worktrees of a `git worktree list --porcelain` listing.
pub fn parse_worktree_list(output: &str) -> (r: Vec<WorktreeInfo>)
    ensures
        worktrees_view(r@) == parse_worktrees(output@),
{
    let lines = text::chars_lines(&text::chars_of(output));
    let ghost ls = text::seqs_view(lines@);
    let p_worktree = text::chars_of("worktree ");
    let p_head = text::chars_of("HEAD ");
    let p_branch = text::chars_of("branch ");
    let w_bare = text::chars_of("bare");
    let w_detached = text::chars_of("detached");
    let mut done: Vec<WorktreeInfo> = Vec::new();
    let mut cur: Option<WorktreeInfo> = None;
    let mut i: usize = 0;
    assert(ls.take(0) =~= Seq::<Seq<char>>::empty());
    assert(worktrees_view(done@) =~= Seq::<WorktreeView>::empty());
    while i < lines.len()
        invariant
            i <= lines.len(),
            ls == text::seqs_view(lines@),
            ls == text::lines(output@),
            p_worktree@ == "worktree "@,
            p_head@ == "HEAD "@,
            p_branch@ == "branch "@,
            w_bare@ == "bare"@,
            w_detached@ == "detached"@,
            (worktrees_view(done@), opt_worktree_view(cur)) == porcelain_fold(ls.take(i as int)),
        decreases lines.len() - i,
    {
        let line = &lines[i];
        assert(ls.take(i + 1).drop_last() =~= ls.take(i as int));
        assert(ls.take(i + 1).last() == line@);
        if text::chars_starts_with(line, &p_worktree) {
            let ghost before = done@;
            match cur {
                Some(w) => {
                    done.push(w);
                    proof {
                        lemma_worktrees_view_push(before, w);
                    }
                },
                None => {},
            }
            cur = Some(
                WorktreeInfo {
                    branch: String::new(),
                    path: rest_after(line, p_worktree.len()),
                    is_bare: false,
                    is_detached: false,
                    head: None,
                },
            );
        } else if text::chars_starts_with(line, &p_head) {
            if let Some(w) = &mut cur {
                w.head = Some(rest_after(line, p_head.len()));
            }
        } else if text::chars_starts_with(line, &p_branch) {
            if let Some(w) = &mut cur {
                w.branch = rest_after(line, p_branch.len());
            }
        } else if text::chars_eq(line, &w_bare) {
            if let Some(w) = &mut cur {
                w.is_bare = true;
            }
        } else if text::chars_eq(line, &w_detached) {
            if let Some(w) = &mut cur {
                w.is_detached = true;
            }
        }
        i += 1;
    }
    assert(ls.take(lines.len() as int) =~= ls);
    match cur {
        Some(w) => {
            let ghost before = done@;
            done.push(w);
            proof {
                lemma_worktrees_view_push(before, w);
            }
        },
        None => {},
    }
    done
}

// ---------------------------------------------------------------------------
// Matching worktrees to a branch
// ---------------------------------------------------------------------------

/// A worktree belongs to a branch name when its directory has that name or
/// its branch is that name.
pub open spec fn worktree_matches(w: WorktreeView, branch: Seq<char>) -> bool {
    workspace::file_name(w.path) == Some(branch) || w.branch == branch
}

/// Whether the worktree belongs to the branch name.
pub fn matches_branch(w: &WorktreeInfo, branch: &str) -> (r: bool)
    ensures
        r == worktree_matches(w@, branch@),
{
    let b = String::from_str(branch);
    let by_dir = match workspace::path_file_name(w.path.as_str()) {
        Some(n) => n == b,
        None => false,
    };
    by_dir || w.branch == b
}

/// The position of the first worktree that belongs to the branch name.
pub fn find_matching_worktree(ws: &Vec<WorktreeInfo>, branch: &str) -> (r: Option<usize>)
    ensures
        match r {
            Some(i) => i < ws.len() && worktree_matches(ws@[i as int]@, branch@) && forall|j: int|
                0 <= j < i ==> !worktree_matches(#[trigger] ws@[j]@, branch@),
            None => forall|j: int| 0 <= j < ws.len() ==> !worktree_matches(#[trigger] ws@[j]@, branch@),
        },
{
    let mut i: usize = 0;
    while i < ws.len()
        invariant
            i <= ws.len(),
            forall|j: int| 0 <= j < i ==> !worktree_matches(#[trigger] ws@[j]@, branch@),
        decreases ws.len() - i,
    {
        if matches_branch(&ws[i], branch) {
            return Some(i);
        }
        i += 1;
    }
    None
}

/// How a worktree is named in the workspace listing: its branch, else its
/// directory name, else `unknown`.
pub open spec fn worktree_label(w: WorktreeView) -> Seq<char> {
    if w.branch.len() > 0 {
        w.branch
    } else {
        match workspace::file_name(w.path) {
            Some(n) => n,
            None => "unknown"@,
        }
    }
}

/// The name a worktree is listed under.
pub fn label_of(w: &WorktreeInfo) -> (r: String)
    ensures
        r@ == worktree_label(w@),
{
    if !w.branch.as_str().is_empty() {
        w.branch.clone()
    } else {
        match workspace::path_file_name(w.path.as_str()) {
            Some(n) => n,
            None => String::from_str("unknown"),
        }
    }
}

/// The worktrees of one project of the workspace.
pub struct ProjectWorktrees {
    pub project_name: String,
    pub project_path: String,
    pub worktrees: Vec<WorktreeInfo>,
}

// ---------------------------------------------------------------------------
// Listing the worktrees of the workspace
// ---------------------------------------------------------------------------

/// The views of worktrees listed with the name of their project.
pub open spec fn listed_view(v: Seq<(String, WorktreeInfo)>) -> Seq<(Seq<char>, WorktreeView)> {
    v.map_values(|e: (String, WorktreeInfo)| (e.0@, e.1@))
}

/// The views of (project, path) pairs.
pub open spec fn places_view(v: Seq<(String, String)>) -> Seq<(Seq<char>, Seq<char>)> {
    v.map_values(|p: (String, String)| (p.0@, p.1@))
}

/// The views of labelled groups of (project, path) pairs.
pub open spec fn groups_view(v: Seq<(String, Vec<(String, String)>)>) -> Seq<(Seq<char>, Seq<(Seq<char>, Seq<char>)>)> {
    v.map_values(|g: (String, Vec<(String, String)>)| (g.0@, places_view(g.1@)))
}

/// The worktrees of `es` listed under `label`, as (project, path), in order.
pub open spec fn group_of(es: Seq<(Seq<char>, WorktreeView)>, label: Seq<char>) -> Seq<(Seq<char>, Seq<char>)>
    decreases es.len(),
{
    if es.len() == 0 {
        Seq::empty()
    } else {
        let rest = group_of(es.drop_last(), label);
        if worktree_label(es.last().1) == label {
            rest.push((es.last().0, es.last().1.path))
        } else {
            rest
        }
    }
}

/// `gs` groups the worktrees `es` by the name they are listed under: the
/// labels come in increasing order, each once; a label is there exactly when
/// some worktree has it; and each label holds its worktrees, in order.
pub open spec fn grouped_by_label(
    es: Seq<(Seq<char>, WorktreeView)>,
    gs: Seq<(Seq<char>, Seq<(Seq<char>, Seq<char>)>)>,
) -> bool {
    &&& forall|i: int, j: int| 0 <= i < j < gs.len() ==> crate::tree::name_lt(#[trigger] gs[i].0, #[trigger] gs[j].0)
    &&& forall|i: int| 0 <= i < gs.len() ==> #[trigger] gs[i].1 == group_of(es, gs[i].0) && gs[i].1.len() > 0
    &&& forall|l: Seq<char>| #[trigger] group_of(es, l).len() > 0 ==> exists|i: int| 0 <= i < gs.len() && gs[i].0 == l
}

/// Adding a worktree adds it to its label's group and to no other.
proof fn lemma_group_of_push(es: Seq<(Seq<char>, WorktreeView)>, e: (Seq<char>, WorktreeView), l: Seq<char>)
    ensures
        group_of(es.push(e), l) == (if worktree_label(e.1) == l {
            group_of(es, l).push((e.0, e.1.path))
        } else {
            group_of(es, l)
        }),
{
    assert(es.push(e).drop_last() =~= es);
}

/// The position of the group labelled `label`, if there is one.
fn position_of_label(groups: &Vec<(String, Vec<(String, String)>)>, label: &String) -> (r: Option<usize>)
    ensures
        match r {
            Some(i) => i < groups.len() && groups@[i as int].0@ == label@,
            None => forall|i: int| 0 <= i < groups.len() ==> groups@[i].0@ != label@,
        },
{
    let want = text::chars_of(label.as_str());
    let mut i: usize = 0;
    while i < groups.len()
        invariant
            i <= groups.len(),
            want@ == label@,
            forall|k: int| 0 <= k < i ==> groups@[k].0@ != label@,
        decreases groups.len() - i,
    {
        if text::chars_eq(&text::chars_of(groups[i].0.as_str()), &want) {
            return Some(i);
        }
        i += 1;
    }
    None
}

/// The worktrees grouped by the name they are listed under (see
/// [`grouped_by_label`]).
pub fn group_by_label(entries: &Vec<(String, WorktreeInfo)>) -> (r: Vec<(String, Vec<(String, String)>)>)
    ensures
        grouped_by_label(listed_view(entries@), groups_view(r@)),
{
    let ghost es = listed_view(entries@);
    let mut groups: Vec<(String, Vec<(String, String)>)> = Vec::new();
    let mut k: usize = 0;
    while k < entries.len()
        invariant
            k <= entries.len(),
            es == listed_view(entries@),
            grouped_by_label(es.take(k as int), groups_view(groups@)),
        decreases entries.len() - k,
    {
        let ghost before = es.take(k as int);
        let ghost gv = groups_view(groups@);
        let ghost e = es[k as int];
        assert(es.take(k + 1) =~= before.push(e));
        let label = label_of(&entries[k].1);
        let place = (entries[k].0.clone(), entries[k].1.path.clone());
        let ghost pv = (place.0@, place.1@);
        assert(pv == (e.0, e.1.path));
        assert forall|l: Seq<char>| true implies #[trigger] group_of(es.take(k + 1), l) == (if worktree_label(e.1) == l {
            group_of(before, l).push(pv)
        } else {
            group_of(before, l)
        }) by {
            lemma_group_of_push(before, e, l);
        }
        match position_of_label(&groups, &label) {
            Some(p) => {
                let mut g = groups.remove(p);
                let ghost old_places = g.1@;
                g.1.push(place);
                groups.insert(p, g);
                proof {
                    assert(places_view(g.1@) =~= places_view(old_places).push(pv));
                    let gs = groups_view(groups@);
                    assert(gs =~= gv.update(p as int, (label@, gv[p as int].1.push(pv))));
                    let now = es.take(k + 1);
                    assert forall|i: int| 0 <= i < gs.len() implies #[trigger] gs[i].1 == group_of(now, gs[i].0)
                        && gs[i].1.len() > 0 by {
                        if i != p {
                            if i < p {
                                assert(crate::tree::name_lt(gv[i].0, gv[p as int].0));
                            } else {
                                assert(crate::tree::name_lt(gv[p as int].0, gv[i].0));
                            }
                            crate::tree::lemma_name_lt_irreflexive(gv[i].0);
                            assert(gv[i].0 != label@);
                        }
                    }
                    assert forall|l: Seq<char>| #[trigger] group_of(now, l).len() > 0 implies exists|i: int|
                        0 <= i < gs.len() && gs[i].0 == l by {
                        if l == label@ {
                            assert(gs[p as int].0 == l);
                        } else {
                            assert(group_of(before, l).len() > 0);
                            let i = choose|i: int| 0 <= i < gv.len() && gv[i].0 == l;
                            assert(gs[i].0 == l);
                        }
                    }
                    assert forall|i: int, j: int| 0 <= i < j < gs.len() implies crate::tree::name_lt(
                        #[trigger] gs[i].0,
                        #[trigger] gs[j].0,
                    ) by {
                        assert(gs[i].0 == gv[i].0 && gs[j].0 == gv[j].0);
                    }
                }
            },
            None => {
                assert(group_of(before, label@).len() == 0) by {
                    if group_of(before, label@).len() > 0 {
                        let i = choose|i: int| 0 <= i < gv.len() && gv[i].0 == label@;
                        assert(groups@[i].0@ == label@);
                    }
                }
                let mut q: usize = 0;
                while q < groups.len() && !crate::tree::name_before(&label, &groups[q].0)
                    invariant
                        q <= groups.len(),
                        gv == groups_view(groups@),
                        forall|i: int| 0 <= i < q ==> !crate::tree::name_lt(label@, #[trigger] gv[i].0),
                    decreases groups.len() - q,
                {
                    q += 1;
                }
                let mut fresh: Vec<(String, String)> = Vec::new();
                fresh.push(place);
                let ghost fv = places_view(fresh@);
                assert(fv =~= seq![pv]);
                groups.insert(q, (label, fresh));
                proof {
                    let gs = groups_view(groups@);
                    assert(gs =~= gv.insert(q as int, (label@, fv)));
                    let now = es.take(k + 1);
                    assert forall|i: int| 0 <= i < q implies crate::tree::name_lt(#[trigger] gv[i].0, label@) by {
                        assert(gv[i].0 != label@);
                        crate::tree::lemma_name_lt_total(gv[i].0, label@);
                    }
                    assert forall|j: int| q <= j < gv.len() implies crate::tree::name_lt(label@, #[trigger] gv[j].0) by {
                        if j > q {
                            crate::tree::lemma_name_lt_transitive(label@, gv[q as int].0, gv[j].0);
                        }
                    }
                    assert forall|i: int, j: int| 0 <= i < j < gs.len() implies crate::tree::name_lt(
                        #[trigger] gs[i].0,
                        #[trigger] gs[j].0,
                    ) by {
                        if j < q {
                            assert(gs[i].0 == gv[i].0 && gs[j].0 == gv[j].0);
                        } else if j == q {
                            assert(gs[i].0 == gv[i].0);
                        } else if i < q {
                            assert(gs[i].0 == gv[i].0 && gs[j].0 == gv[j - 1].0);
                            assert(crate::tree::name_lt(label@, gv[j - 1].0));
                            crate::tree::lemma_name_lt_transitive(gv[i].0, label@, gv[j - 1].0);
                        } else if i == q {
                            assert(gs[j].0 == gv[j - 1].0);
                        } else {
                            assert(gs[i].0 == gv[i - 1].0 && gs[j].0 == gv[j - 1].0);
                        }
                    }
                    assert forall|i: int| 0 <= i < gs.len() implies #[trigger] gs[i].1 == group_of(now, gs[i].0)
                        && gs[i].1.len() > 0 by {
                        if i < q {
                            assert(gs[i] == gv[i]);
                            assert(gv[i].0 != label@);
                        } else if i == q {
                            assert(group_of(before, label@) =~= Seq::<(Seq<char>, Seq<char>)>::empty());
                            assert(group_of(now, label@) =~= seq![pv]);
                        } else {
                            assert(gs[i] == gv[i - 1]);
                            assert(gv[i - 1].0 != label@);
                        }
                    }
                    assert forall|l: Seq<char>| #[trigger] group_of(now, l).len() > 0 implies exists|i: int|
                        0 <= i < gs.len() && gs[i].0 == l by {
                        if l == label@ {
                            assert(gs[q as int].0 == l);
                        } else {
                            assert(group_of(before, l).len() > 0);
                            let i = choose|i: int| 0 <= i < gv.len() && gv[i].0 == l;
                            if i < q {
                                assert(gs[i].0 == l);
                            } else {
                                assert(gs[i + 1].0 == l);
                            }
                        }
                    }
                }
            },
        }
        k += 1;
    }
    assert(es.take(entries.len() as int) =~= es);
    groups
}

// ---------------------------------------------------------------------------
// Removing a project with uncommitted changes
// ---------------------------------------------------------------------------

/// Whether removing a project may go ahead.
pub enum RemovalCheck {
    /// Nothing stands in the way.
    Allowed,
    /// This worktree (by its directory name) has changes not yet committed.
    DirtyWorktree(String),
    /// The repository has changes not yet committed.
    DirtyRepository,
}

/// The mathematical value of a [`RemovalCheck`].
pub enum RemovalCheckView {
    Allowed,
    DirtyWorktree(Seq<char>),
    DirtyRepository,
}

impl View for RemovalCheck {
    type V = RemovalCheckView;

    open spec fn view(&self) -> RemovalCheckView {
        match self {
            RemovalCheck::Allowed => RemovalCheckView::Allowed,
            RemovalCheck::DirtyWorktree(n) => RemovalCheckView::DirtyWorktree(n@),
            RemovalCheck::DirtyRepository => RemovalCheckView::DirtyRepository,
        }
    }
}

/// A worktree that stops a removal: not the bare repository itself, and
/// with changes.
pub open spec fn blocks_removal(w: (WorktreeView, bool)) -> bool {
    !w.0.is_bare && w.1
}

/// The name a worktree is reported under: its directory's name.
pub open spec fn worktree_dir_name(w: WorktreeView) -> Seq<char> {
    match workspace::file_name(w.path) {
        Some(n) => n,
        None => "unknown"@,
    }
}

/// The first worktree, from position `i` on, that stops a removal.
pub open spec fn first_blocking(ws: Seq<(WorktreeView, bool)>, i: int) -> Option<int>
    decreases ws.len() - i,
{
    if i < 0 || i >= ws.len() {
        None
    } else if blocks_removal(ws[i]) {
        Some(i)
    } else {
        first_blocking(ws, i + 1)
    }
}

/// Whether a project may be removed: always with `force` or when its
/// directory is gone; a bare project is refused for the first worktree with
/// changes (the bare repository itself aside); any other project is refused
/// when its repository has changes.
pub open spec fn removal_check_of(
    force: bool,
    dir_exists: bool,
    bare: bool,
    worktrees: Seq<(WorktreeView, bool)>,
    repo_dirty: bool,
) -> RemovalCheckView {
    if force || !dir_exists {
        RemovalCheckView::Allowed
    } else if bare {
        match first_blocking(worktrees, 0) {
            Some(i) => RemovalCheckView::DirtyWorktree(worktree_dir_name(worktrees[i].0)),
            None => RemovalCheckView::Allowed,
        }
    } else if repo_dirty {
        RemovalCheckView::DirtyRepository
    } else {
        RemovalCheckView::Allowed
    }
}

/// Decides whether a project may be removed (see [`removal_check_of`]);
/// each worktree comes with whether it has changes.
pub fn removal_check(
    force: bool,
    dir_exists: bool,
    bare: bool,
    worktrees: &Vec<(WorktreeInfo, bool)>,
    repo_dirty: bool,
) -> (r: RemovalCheck)
    ensures
        r@ == removal_check_of(
            force,
            dir_exists,
            bare,
            worktrees@.map_values(|w: (WorktreeInfo, bool)| (w.0@, w.1)),
            repo_dirty,
        ),
{
    let ghost ws = worktrees@.map_values(|w: (WorktreeInfo, bool)| (w.0@, w.1));
    if force || !dir_exists {
        return RemovalCheck::Allowed;
    }
    if !bare {
        return if repo_dirty {
            RemovalCheck::DirtyRepository
        } else {
            RemovalCheck::Allowed
        };
    }
    let mut i: usize = 0;
    while i < worktrees.len()
        invariant
            i <= worktrees.len(),
            ws == worktrees@.map_values(|w: (WorktreeInfo, bool)| (w.0@, w.1)),
            !force && dir_exists && bare,
            first_blocking(ws, 0) == first_blocking(ws, i as int),
        decreases worktrees.len() - i,
    {
        assert(ws[i as int] == (worktrees@[i as int].0@, worktrees@[i as int].1));
        if !worktrees[i].0.is_bare && worktrees[i].1 {
            let name = match workspace::path_file_name(worktrees[i].0.path.as_str()) {
                Some(n) => n,
                None => String::from_str("unknown"),
            };
            assert(blocks_removal(ws[i as int]));
            assert(first_blocking(ws, i as int) == Some(i as int));
            assert(name@ == worktree_dir_name(ws[i as int].0));
            return RemovalCheck::DirtyWorktree(name);
        }
        i += 1;
    }
    RemovalCheck::Allowed
}

// ---------------------------------------------------------------------------
// Where a branch exists
// ---------------------------------------------------------------------------

/// Where a branch was found.
pub enum BranchStatus {
    /// A local branch of that name exists.
    Local,
    /// A remote branch exists, under this ref (such as `origin/feature`).
    Remote(String),
    /// Neither exists.
    NotFound,
}

/// The mathematical value of a [`BranchStatus`].
pub enum BranchStatusView {
    Local,
    Remote(Seq<char>),
    NotFound,
}

impl View for BranchStatus {
    type V = BranchStatusView;

    open spec fn view(&self) -> BranchStatusView {
        match self {
            BranchStatus::Local => BranchStatusView::Local,
            BranchStatus::Remote(r) => BranchStatusView::Remote(r@),
            BranchStatus::NotFound => BranchStatusView::NotFound,
        }
    }
}

/// The output of `git branch --list <branch>` lists the branch when the
/// branch's name occurs in it, once trimmed.
pub open spec fn local_listed(stdout: Seq<char>, branch: Seq<char>) -> bool {
    text::is_substring(branch, text::trim(stdout))
}

/// The first line of `git branch -r --list */<branch>` that ends in the
/// branch's name, trimmed.
pub open spec fn remote_ref_in(ls: Seq<Seq<char>>, branch: Seq<char>) -> Option<Seq<char>>
    decreases ls.len(),
{
    if ls.len() == 0 {
        None
    } else if text::is_suffix(branch, text::trim(ls[0])) {
        Some(text::trim(ls[0]))
    } else {
        remote_ref_in(ls.drop_first(), branch)
    }
}

/// Where a branch exists, from the outputs of the local listing and the
/// remote listing (each `None` when that command failed): local when the
/// local listing names it, else remote when a remote listing line ends in
/// it, else nowhere.
pub open spec fn branch_status_of(
    local: Option<Seq<char>>,
    remote: Option<Seq<char>>,
    branch: Seq<char>,
) -> BranchStatusView {
    if local is Some && local_listed(local.unwrap(), branch) {
        BranchStatusView::Local
    } else {
        match remote {
            Some(out) => match remote_ref_in(text::lines(out), branch) {
                Some(r) => BranchStatusView::Remote(r),
                None => BranchStatusView::NotFound,
            },
            None => BranchStatusView::NotFound,
        }
    }
}

/// Whether the local branch listing names the branch.
pub fn local_branch_listed(stdout: &str, branch: &str) -> (r: bool)
    ensures
        r == local_listed(stdout@, branch@),
{
    let t = text::chars_trim(&text::chars_of(stdout));
    text::chars_contains_seq(&t, &text::chars_of(branch))
}

/// The remote ref in the remote branch listing that ends in the branch name.
pub fn remote_branch_ref(stdout: &str, branch: &str) -> (r: Option<String>)
    ensures
        match r {
            Some(s) => remote_ref_in(text::lines(stdout@), branch@) == Some(s@),
            None => remote_ref_in(text::lines(stdout@), branch@) is None,
        },
{
    let lines = text::chars_lines(&text::chars_of(stdout));
    let b = text::chars_of(branch);
    let ghost ls = text::seqs_view(lines@);
    let mut i: usize = 0;
    assert(ls.skip(0) =~= ls);
    while i < lines.len()
        invariant
            i <= lines.len(),
            ls == text::seqs_view(lines@),
            ls == text::lines(stdout@),
            b@ == branch@,
            remote_ref_in(ls, branch@) == remote_ref_in(ls.skip(i as int), branch@),
        decreases lines.len() - i,
    {
        assert(ls.skip(i as int)[0] == lines[i as int]@);
        assert(ls.skip(i as int).drop_first() =~= ls.skip(i + 1));
        let t = text::chars_trim(&lines[i]);
        if text::chars_ends_with(&t, &b) {
            return Some(text::string_of(&t));
        }
        i += 1;
    }
    assert(ls.skip(lines.len() as int) =~= Seq::<Seq<char>>::empty());
    None
}

/// Where a branch exists, from the two listings (see [`branch_status_of`]).
pub fn branch_status(local: Option<&str>, remote: Option<&str>, branch: &str) -> (r: BranchStatus)
    ensures
        r@ == branch_status_of(
            match local {
                Some(s) => Some(s@),
                None => None,
            },
            match remote {
                Some(s) => Some(s@),
                None => None,
            },
            branch@,
        ),
{
    if let Some(out) = local {
        if local_branch_listed(out, branch) {
            return BranchStatus::Local;
        }
    }
    match remote {
        Some(out) => match remote_branch_ref(out, branch) {
            Some(r) => BranchStatus::Remote(r),
            None => BranchStatus::NotFound,
        },
        None => BranchStatus::NotFound,
    }
}

// ---------------------------------------------------------------------------
// Adding a worktree
// ---------------------------------------------------------------------------

/// Where a new worktree goes and where its repository's git directory is,
/// each as path components under the project directory.
pub struct WorktreeLayout {
    pub worktree: Vec<String>,
    pub git_dir: Vec<String>,
}

/// The worktree's directory name: the path suffix when given, else the
/// branch.
pub open spec fn worktree_dir(path_suffix: Option<Seq<char>>, branch: Seq<char>) -> Seq<char> {
    match path_suffix {
        Some(s) => s,
        None => branch,
    }
}

/// The components of a new worktree's path under its project: in a bare
/// repository `<dir>`, otherwise `.worktrees/<dir>`.
pub open spec fn worktree_components(is_bare: bool, dir: Seq<char>) -> Seq<Seq<char>> {
    if is_bare {
        seq![dir]
    } else {
        seq![".worktrees"@, dir]
    }
}

/// The components of the git directory under its project: `.git` in a bare
/// repository, the project directory itself otherwise.
pub open spec fn git_dir_components(is_bare: bool) -> Seq<Seq<char>> {
    if is_bare {
        seq![".git"@]
    } else {
        Seq::empty()
    }
}

/// Where a new worktree goes, and the git directory to run `git` in.
pub fn worktree_layout(is_bare: bool, path_suffix: Option<&str>, branch: &str) -> (r: WorktreeLayout)
    ensures
        text::strings_view(r.worktree@) == worktree_components(
            is_bare,
            worktree_dir(
                match path_suffix {
                    Some(s) => Some(s@),
                    None => None,
                },
                branch@,
            ),
        ),
        text::strings_view(r.git_dir@) == git_dir_components(is_bare),
{
    let dir = match path_suffix {
        Some(s) => String::from_str(s),
        None => String::from_str(branch),
    };
    let mut worktree: Vec<String> = Vec::new();
    let mut git_dir: Vec<String> = Vec::new();
    if is_bare {
        worktree.push(dir);
        git_dir.push(String::from_str(".git"));
    } else {
        worktree.push(String::from_str(".worktrees"));
        worktree.push(dir);
    }
    assert(text::strings_view(worktree@) =~= worktree_components(is_bare, dir@));
    assert(text::strings_view(git_dir@) =~= git_dir_components(is_bare));
    WorktreeLayout { worktree, git_dir }
}

/// How `git worktree add` is called for a branch.
pub enum AddPlan {
    /// Check the existing local branch out: `<path> <branch>`.
    Checkout,
    /// Create the branch: `-b <branch> <path> [<start>]`.
    CreateBranch(Option<String>),
    /// The branch exists nowhere and no starting point was given: ask for one.
    AskStartPoint,
}

/// The mathematical value of an [`AddPlan`].
pub enum AddPlanView {
    Checkout,
    CreateBranch(Option<Seq<char>>),
    AskStartPoint,
}

impl View for AddPlan {
    type V = AddPlanView;

    open spec fn view(&self) -> AddPlanView {
        match self {
            AddPlan::Checkout => AddPlanView::Checkout,
            AddPlan::CreateBranch(s) => AddPlanView::CreateBranch(
                match s {
                    Some(x) => Some(x@),
                    None => None,
                },
            ),
            AddPlan::AskStartPoint => AddPlanView::AskStartPoint,
        }
    }
}

/// How a worktree is added: with `-b` the branch is created from the given
/// starting point (if any); otherwise an existing local branch is checked
/// out, a remote branch gets a local tracking branch, and a branch found
/// nowhere is created from the starting point, which is asked for when none
/// was given.
pub open spec fn add_plan(create_branch: bool, starting_point: Option<Seq<char>>, status: BranchStatusView) -> AddPlanView {
    if create_branch {
        AddPlanView::CreateBranch(starting_point)
    } else {
        match status {
            BranchStatusView::Local => AddPlanView::Checkout,
            BranchStatusView::Remote(r) => AddPlanView::CreateBranch(Some(r)),
            BranchStatusView::NotFound => match starting_point {
                Some(s) => AddPlanView::CreateBranch(Some(s)),
                None => AddPlanView::AskStartPoint,
            },
        }
    }
}

/// Plans the `git worktree add` call (see [`add_plan`]); with `-b` the
/// branch status is not read.
pub fn plan_worktree_add(create_branch: bool, starting_point: Option<&str>, status: &BranchStatus) -> (r: AddPlan)
    ensures
        r@ == add_plan(
            create_branch,
            match starting_point {
                Some(s) => Some(s@),
                None => None,
            },
            status@,
        ),
{
    let start = match starting_point {
        Some(s) => Some(String::from_str(s)),
        None => None,
    };
    if create_branch {
        return AddPlan::CreateBranch(start);
    }
    match status {
        BranchStatus::Local => AddPlan::Checkout,
        BranchStatus::Remote(r) => AddPlan::CreateBranch(Some(r.clone())),
        BranchStatus::NotFound => match start {
            Some(s) => AddPlan::CreateBranch(Some(s)),
            None => AddPlan::AskStartPoint,
        },
    }
}

/// An argument of `git worktree add` after `-q`.
pub enum AddArg {
    /// This text.
    Text(String),
    /// The new worktree's path.
    WorktreePath,
}

/// The mathematical value of an [`AddArg`].
pub enum AddArgView {
    Text(Seq<char>),
    WorktreePath,
}

impl View for AddArg {
    type V = AddArgView;

    open spec fn view(&self) -> AddArgView {
        match self {
            AddArg::Text(s) => AddArgView::Text(s@),
            AddArg::WorktreePath => AddArgView::WorktreePath,
        }
    }
}

/// The arguments a plan passes to `git worktree add`; a plan that still asks
/// for a starting point passes none.
pub open spec fn add_args_of(plan: AddPlanView, branch: Seq<char>) -> Seq<AddArgView> {
    match plan {
        AddPlanView::Checkout => seq![AddArgView::WorktreePath, AddArgView::Text(branch)],
        AddPlanView::CreateBranch(start) => {
            let base = seq![AddArgView::Text("-b"@), AddArgView::Text(branch), AddArgView::WorktreePath];
            match start {
                Some(s) => base.push(AddArgView::Text(s)),
                None => base,
            }
        },
        AddPlanView::AskStartPoint => Seq::empty(),
    }
}

/// The views of a sequence of arguments.
pub open spec fn args_view(v: Seq<AddArg>) -> Seq<AddArgView> {
    v.map_values(|a: AddArg| a@)
}

/// The arguments of `git worktree add` for a plan (see [`add_args_of`]).
pub fn add_args(plan: &AddPlan, branch: &str) -> (r: Vec<AddArg>)
    ensures
        args_view(r@) == add_args_of(plan@, branch@),
{
    let mut r: Vec<AddArg> = Vec::new();
    match plan {
        AddPlan::Checkout => {
            r.push(AddArg::WorktreePath);
            r.push(AddArg::Text(String::from_str(branch)));
        },
        AddPlan::CreateBranch(start) => {
            r.push(AddArg::Text(String::from_str("-b")));
            r.push(AddArg::Text(String::from_str(branch)));
            r.push(AddArg::WorktreePath);
            match start {
                Some(s) => r.push(AddArg::Text(s.clone())),
                None => {},
            }
        },
        AddPlan::AskStartPoint => {},
    }
    assert(args_view(r@) =~= add_args_of(plan@, branch@));
    r
}

} // verus!
