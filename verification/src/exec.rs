//! Choosing where `exec` (and the worktree commands) run: the filters given
//! on the command line, the projects named there, and how the run is laid
//! out.
use vstd::prelude::*;
use vstd::string::*;

use crate::iterator;
use crate::iterator::{Criteria, ProjectIterator, ProjectIteratorView};
use crate::text;
use crate::workspace;
use crate::workspace::{WorkspaceConfig, WorkspaceView};

verus! {

// ---------------------------------------------------------------------------
// Comma-separated lists
// ---------------------------------------------------------------------------

/// The pieces of a comma-separated list, each trimmed.
pub open spec fn trimmed_pieces(s: Seq<char>) -> Seq<Seq<char>> {
    text::split_on(s, ',').map_values(|p: Seq<char>| text::trim(p))
}

/// The pieces of a comma-separated list, as they are.
pub fn comma_pieces(s: &str) -> (r: Vec<String>)
    ensures
        text::strings_view(r@) == text::split_on(s@, ','),
{
    let parts = text::chars_split(&text::chars_of(s), ',');
    let ghost ps = text::seqs_view(parts@);
    let mut r: Vec<String> = Vec::new();
    let mut i: usize = 0;
    assert(text::strings_view(r@) =~= ps.take(0));
    while i < parts.len()
        invariant
            i <= parts.len(),
            ps == text::seqs_view(parts@),
            text::strings_view(r@) == ps.take(i as int),
        decreases parts.len() - i,
    {
        let ghost before = r@;
        let piece = text::string_of(&parts[i]);
        r.push(piece);
        proof {
            text::lemma_strings_view_push(before, piece);
        }
        assert(ps.take(i + 1) =~= ps.take(i as int).push(ps[i as int]));
        i += 1;
    }
    assert(ps.take(parts.len() as int) =~= ps);
    r
}

/// The pieces of a comma-separated list, each trimmed.
pub fn trimmed_comma_pieces(s: &str) -> (r: Vec<String>)
    ensures
        text::strings_view(r@) == trimmed_pieces(s@),
{
    let parts = text::chars_split(&text::chars_of(s), ',');
    let ghost ps = text::seqs_view(parts@);
    let ghost want = trimmed_pieces(s@);
    let mut r: Vec<String> = Vec::new();
    let mut i: usize = 0;
    assert(text::strings_view(r@) =~= want.take(0));
    while i < parts.len()
        invariant
            i <= parts.len(),
            ps == text::seqs_view(parts@),
            ps == text::split_on(s@, ','),
            want == trimmed_pieces(s@),
            text::strings_view(r@) == want.take(i as int),
        decreases parts.len() - i,
    {
        let ghost before = r@;
        let piece = text::string_of(&text::chars_trim(&parts[i]));
        r.push(piece);
        proof {
            text::lemma_strings_view_push(before, piece);
        }
        assert(want.take(i + 1) =~= want.take(i as int).push(want[i as int]));
        i += 1;
    }
    assert(want.take(parts.len() as int) =~= want);
    r
}

// ---------------------------------------------------------------------------
// Filters
// ---------------------------------------------------------------------------

/// The project filters `exec` was given.
pub struct ExecFilters {
    /// Comma-separated patterns a project must match.
    pub include_only: Option<String>,
    /// Comma-separated patterns a project must not match.
    pub exclude: Option<String>,
    /// Comma-separated tags of which a project must have one.
    pub include_tags: Option<String>,
    /// Comma-separated tags of which a project must have none.
    pub exclude_tags: Option<String>,
    /// Only projects whose directory exists.
    pub existing_only: bool,
    /// Only projects that are git repositories.
    pub git_only: bool,
}

/// The mathematical value of an [`ExecFilters`].
pub struct ExecFiltersView {
    pub include_only: Option<Seq<char>>,
    pub exclude: Option<Seq<char>>,
    pub include_tags: Option<Seq<char>>,
    pub exclude_tags: Option<Seq<char>>,
    pub existing_only: bool,
    pub git_only: bool,
}

/// The view of an optional string.
pub open spec fn opt_str(s: Option<String>) -> Option<Seq<char>> {
    match s {
        Some(x) => Some(x@),
        None => None,
    }
}

impl View for ExecFilters {
    type V = ExecFiltersView;

    open spec fn view(&self) -> ExecFiltersView {
        ExecFiltersView {
            include_only: opt_str(self.include_only),
            exclude: opt_str(self.exclude),
            include_tags: opt_str(self.include_tags),
            exclude_tags: opt_str(self.exclude_tags),
            existing_only: self.existing_only,
            git_only: self.git_only,
        }
    }
}

/// Some filter was given.
pub open spec fn any_filter(f: ExecFiltersView) -> bool {
    f.include_only is Some || f.exclude is Some || f.include_tags is Some || f.exclude_tags is Some
        || f.existing_only || f.git_only
}

/// The iterator's criteria once the filters are applied: patterns are split
/// at commas as they are, tags are split at commas and trimmed; a filter that
/// was not given leaves its criterion as it was.
pub open spec fn criteria_after(c: Criteria, f: ExecFiltersView) -> Criteria {
    Criteria {
        include_patterns: match f.include_only {
            Some(p) => text::split_on(p, ','),
            None => c.include_patterns,
        },
        exclude_patterns: match f.exclude {
            Some(p) => text::split_on(p, ','),
            None => c.exclude_patterns,
        },
        include_tags: match f.include_tags {
            Some(t) => trimmed_pieces(t),
            None => c.include_tags,
        },
        exclude_tags: match f.exclude_tags {
            Some(t) => trimmed_pieces(t),
            None => c.exclude_tags,
        },
    }
}

/// The iterator's projects once the filters are applied: only existing ones
/// with `existing_only`, then only git repositories with `git_only`.
pub open spec fn projects_after(ps: Seq<iterator::ProjectInfoView>, f: ExecFiltersView) -> Seq<iterator::ProjectInfoView> {
    let a = if f.existing_only {
        ps.filter(iterator::keep_existing())
    } else {
        ps
    };
    if f.git_only {
        a.filter(iterator::keep_git_repos())
    } else {
        a
    }
}

impl ExecFilters {
    /// Whether any filter was given.
    pub fn has_filters(&self) -> (r: bool)
        ensures
            r == any_filter(self@),
    {
        self.include_only.is_some() || self.exclude.is_some() || self.include_tags.is_some()
            || self.exclude_tags.is_some() || self.existing_only || self.git_only
    }

    /// The iterator with the filters applied (see [`criteria_after`] and
    /// [`projects_after`]).
    pub fn apply(&self, it: ProjectIterator) -> (r: ProjectIterator)
        ensures
            r@ == (ProjectIteratorView {
                projects: projects_after(it@.projects, self@),
                criteria: criteria_after(it@.criteria, self@),
                ..it@
            }),
    {
        let mut it = it;
        if let Some(p) = &self.include_only {
            it = it.with_include_patterns(comma_pieces(p.as_str()));
        }
        if let Some(p) = &self.exclude {
            it = it.with_exclude_patterns(comma_pieces(p.as_str()));
        }
        if let Some(t) = &self.include_tags {
            it = it.with_include_tags(trimmed_comma_pieces(t.as_str()));
        }
        if let Some(t) = &self.exclude_tags {
            it = it.with_exclude_tags(trimmed_comma_pieces(t.as_str()));
        }
        if self.existing_only {
            it = it.filter_existing();
        }
        if self.git_only {
            it = it.filter_git_repos();
        }
        it
    }
}

// ---------------------------------------------------------------------------
// Named projects
// ---------------------------------------------------------------------------

/// A name or alias as the workspace resolves it, or the identifier itself
/// when it resolves to nothing.
pub open spec fn resolve_or_keep(w: WorkspaceView, id: Seq<char>) -> Seq<char> {
    match workspace::resolve_identifier(w, id) {
        Some(n) => n,
        None => id,
    }
}

/// Each identifier of a list, resolved or kept.
pub open spec fn resolved_or_kept(w: WorkspaceView, ids: Seq<Seq<char>>) -> Seq<Seq<char>> {
    ids.map_values(|id: Seq<char>| resolve_or_keep(w, id))
}

/// The projects named by `--project` and then by `--projects` (a
/// comma-separated list), each resolved.
pub open spec fn named_projects_of(w: WorkspaceView, project: Option<Seq<char>>, projects: Option<Seq<char>>) -> Seq<Seq<char>> {
    let first = match project {
        Some(p) => seq![resolve_or_keep(w, p)],
        None => Seq::empty(),
    };
    let rest = match projects {
        Some(l) => resolved_or_kept(w, trimmed_pieces(l)),
        None => Seq::empty(),
    };
    first + rest
}

/// The identifiers of a list, each resolved or kept.
fn resolve_all_or_keep(config: &WorkspaceConfig, ids: &Vec<String>) -> (r: Vec<String>)
    ensures
        text::strings_view(r@) == resolved_or_kept(config@, text::strings_view(ids@)),
{
    let ghost want = resolved_or_kept(config@, text::strings_view(ids@));
    let mut r: Vec<String> = Vec::new();
    let mut i: usize = 0;
    assert(text::strings_view(r@) =~= want.take(0));
    while i < ids.len()
        invariant
            i <= ids.len(),
            want == resolved_or_kept(config@, text::strings_view(ids@)),
            text::strings_view(r@) == want.take(i as int),
        decreases ids.len() - i,
    {
        let ghost before = r@;
        let n = resolve_one_or_keep(config, ids[i].as_str());
        r.push(n);
        proof {
            text::lemma_strings_view_push(before, n);
        }
        assert(want.take(i + 1) =~= want.take(i as int).push(want[i as int]));
        i += 1;
    }
    assert(want.take(ids.len() as int) =~= want);
    r
}

/// An identifier resolved, or kept when it names nothing.
fn resolve_one_or_keep(config: &WorkspaceConfig, id: &str) -> (r: String)
    ensures
        r@ == resolve_or_keep(config@, id@),
{
    match config.resolve_project_identifier(id) {
        Some(n) => n,
        None => String::from_str(id),
    }
}

/// The projects named by `--project` and `--projects` (see
/// [`named_projects_of`]).
pub fn named_projects(config: &WorkspaceConfig, project: Option<&str>, projects: Option<&str>) -> (r: Vec<String>)
    ensures
        text::strings_view(r@) == named_projects_of(
            config@,
            match project {
                Some(p) => Some(p@),
                None => None,
            },
            match projects {
                Some(l) => Some(l@),
                None => None,
            },
        ),
{
    let mut first: Vec<String> = Vec::new();
    if let Some(p) = project {
        first.push(resolve_one_or_keep(config, p));
    }
    let rest = match projects {
        Some(l) => resolve_all_or_keep(config, &trimmed_comma_pieces(l)),
        None => Vec::new(),
    };
    let ghost f = text::strings_view(first@);
    let ghost rv = text::strings_view(rest@);
    assert(f =~= match project {
        Some(p) => seq![resolve_or_keep(config@, p@)],
        None => Seq::empty(),
    });
    assert(rv =~= match projects {
        Some(l) => resolved_or_kept(config@, trimmed_pieces(l@)),
        None => Seq::empty(),
    });
    let mut out = first;
    let mut i: usize = 0;
    while i < rest.len()
        invariant
            i <= rest.len(),
            rv == text::strings_view(rest@),
            text::strings_view(out@) == f + rv.take(i as int),
        decreases rest.len() - i,
    {
        let ghost before = out@;
        let n = rest[i].clone();
        out.push(n);
        proof {
            text::lemma_strings_view_push(before, n);
        }
        assert(f + rv.take(i + 1) =~= (f + rv.take(i as int)).push(rv[i as int]));
        i += 1;
    }
    assert(rv.take(rest.len() as int) =~= rv);
    out
}

/// The identifiers the worktree commands pass on: `--all` alone with
/// `--all`; else the project of `--project`; else those of `--projects`;
/// else none (the current project or a prompt decides later).
pub open spec fn worktree_request_of(
    w: WorkspaceView,
    all: bool,
    project: Option<Seq<char>>,
    projects: Option<Seq<char>>,
) -> Seq<Seq<char>> {
    if all {
        seq!["--all"@]
    } else if project is Some {
        seq![resolve_or_keep(w, project.unwrap())]
    } else if projects is Some {
        resolved_or_kept(w, trimmed_pieces(projects.unwrap()))
    } else {
        Seq::empty()
    }
}

/// The identifiers the worktree commands pass on (see
/// [`worktree_request_of`]).
pub fn worktree_request(config: &WorkspaceConfig, all: bool, project: Option<&str>, projects: Option<&str>) -> (r: Vec<String>)
    ensures
        text::strings_view(r@) == worktree_request_of(
            config@,
            all,
            match project {
                Some(p) => Some(p@),
                None => None,
            },
            match projects {
                Some(l) => Some(l@),
                None => None,
            },
        ),
{
    let mut r: Vec<String> = Vec::new();
    if all {
        r.push(String::from_str("--all"));
        assert(text::strings_view(r@) =~= seq!["--all"@]);
        r
    } else if let Some(p) = project {
        r.push(resolve_one_or_keep(config, p));
        assert(text::strings_view(r@) =~= seq![resolve_or_keep(config@, p@)]);
        r
    } else if let Some(l) = projects {
        resolve_all_or_keep(config, &trimmed_comma_pieces(l))
    } else {
        assert(text::strings_view(r@) =~= Seq::<Seq<char>>::empty());
        r
    }
}

// ---------------------------------------------------------------------------
// Where and how `exec` runs
// ---------------------------------------------------------------------------

/// Where `exec` runs.
pub enum ExecTarget {
    /// Every project that passes the filters.
    Filtered,
    /// These projects.
    Projects(Vec<String>),
    /// Nothing was named and there is no current project.
    NoContext,
}

/// The mathematical value of an [`ExecTarget`].
pub enum ExecTargetView {
    Filtered,
    Projects(Seq<Seq<char>>),
    NoContext,
}

impl View for ExecTarget {
    type V = ExecTargetView;

    open spec fn view(&self) -> ExecTargetView {
        match self {
            ExecTarget::Filtered => ExecTargetView::Filtered,
            ExecTarget::Projects(v) => ExecTargetView::Projects(text::strings_view(v@)),
            ExecTarget::NoContext => ExecTargetView::NoContext,
        }
    }
}

/// Where `exec` runs: with `--all` or any filter, in every project that
/// passes the filters; else in the projects named; else in the current
/// project; else nowhere.
pub open spec fn exec_target_of(all: bool, filtered: bool, named: Seq<Seq<char>>, current: Option<Seq<char>>) -> ExecTargetView {
    if all || filtered {
        ExecTargetView::Filtered
    } else if named.len() > 0 {
        ExecTargetView::Projects(named)
    } else {
        match current {
            Some(c) => ExecTargetView::Projects(seq![c]),
            None => ExecTargetView::NoContext,
        }
    }
}

/// Decides where `exec` runs (see [`exec_target_of`]).
pub fn exec_target(all: bool, filters: &ExecFilters, named: Vec<String>, current: Option<&str>) -> (r: ExecTarget)
    ensures
        r@ == exec_target_of(
            all,
            any_filter(filters@),
            text::strings_view(named@),
            match current {
                Some(c) => Some(c@),
                None => None,
            },
        ),
{
    if all || filters.has_filters() {
        ExecTarget::Filtered
    } else if named.len() > 0 {
        ExecTarget::Projects(named)
    } else {
        match current {
            Some(c) => {
                let mut v: Vec<String> = Vec::new();
                v.push(String::from_str(c));
                assert(text::strings_view(v@) =~= seq![c@]);
                ExecTarget::Projects(v)
            },
            None => ExecTarget::NoContext,
        }
    }
}

/// A filter needs no `--all`: with any filter given, `exec` runs where it
/// would with `--all`, in every project that passes the filters, whatever
/// projects are named or current.
pub proof fn law_filters_apply_to_all(
    f: ExecFiltersView,
    named: Seq<Seq<char>>,
    current: Option<Seq<char>>,
)
    requires
        any_filter(f),
    ensures
        exec_target_of(false, any_filter(f), named, current) == exec_target_of(true, any_filter(f), named, current),
        exec_target_of(false, any_filter(f), named, current) == ExecTargetView::Filtered,
{
}

/// How many places a command runs in: the projects, and the main
/// repository when it is included.
pub fn run_count(projects: usize, include_main: bool) -> (r: usize)
    requires
        projects < usize::MAX,
    ensures
        r == projects + (if include_main {
            1int
        } else {
            0int
        }),
{
    if include_main {
        projects + 1
    } else {
        projects
    }
}

/// Whether a run collects each project's output and shows it at the end:
/// in parallel, over more than one project, and not streaming.
pub fn buffered_parallel(parallel: bool, projects: usize, streaming: bool) -> (r: bool)
    ensures
        r == (parallel && projects > 1 && !streaming),
{
    parallel && projects > 1 && !streaming
}

} // verus!
