//! The workspace configuration (the projects of a `.meta` file and the
//! workspace-wide settings) and the decisions taken on it: resolving project
//! identifiers, finding scripts, adding, removing and renaming projects.
use vstd::prelude::*;
use vstd::string::*;
use vstd::pervasive::VecAdditionalExecFns;

use crate::text;
use crate::import::NestedConfig;
use crate::iterator::{ProjectInfo, ProjectInfoView};

verus! {

// ---------------------------------------------------------------------------
// Values
// ---------------------------------------------------------------------------

/// The characters of each component of a list of string pairs.
pub open spec fn pairs_view(v: Seq<(String, String)>) -> Seq<(Seq<char>, Seq<char>)> {
    v.map_values(|p: (String, String)| (p.0@, p.1@))
}

/// Viewing a list of pairs commutes with appending one.
pub proof fn lemma_pairs_view_push(v: Seq<(String, String)>, p: (String, String))
    ensures
        pairs_view(v.push(p)) == pairs_view(v).push((p.0@, p.1@)),
{
    assert(pairs_view(v.push(p)) =~= pairs_view(v).push((p.0@, p.1@)));
}

/// A list of pairs read as a map; a later pair overrides an earlier one
/// with the same key.
pub open spec fn pair_map(v: Seq<(Seq<char>, Seq<char>)>) -> Map<Seq<char>, Seq<char>>
    decreases v.len(),
{
    if v.len() == 0 {
        Map::empty()
    } else {
        pair_map(v.drop_last()).insert(v.last().0, v.last().1)
    }
}

/// The map of an optional list of pairs (empty when absent).
pub open spec fn opt_pair_map(v: Option<Seq<(Seq<char>, Seq<char>)>>) -> Map<Seq<char>, Seq<char>> {
    match v {
        Some(p) => pair_map(p),
        None => Map::empty(),
    }
}

/// The settings of a project given in full form.
pub struct ProjectMetadata {
    pub url: String,
    pub aliases: Vec<String>,
    pub scripts: Vec<(String, String)>,
    pub env: Vec<(String, String)>,
    pub worktree_init: Option<String>,
    pub bare: Option<bool>,
    pub tags: Vec<String>,
}

/// The mathematical value of a [`ProjectMetadata`].
pub struct MetadataView {
    pub url: Seq<char>,
    pub aliases: Seq<Seq<char>>,
    pub scripts: Seq<(Seq<char>, Seq<char>)>,
    pub env: Seq<(Seq<char>, Seq<char>)>,
    pub worktree_init: Option<Seq<char>>,
    pub bare: Option<bool>,
    pub tags: Seq<Seq<char>>,
}

impl View for ProjectMetadata {
    type V = MetadataView;

    open spec fn view(&self) -> MetadataView {
        MetadataView {
            url: self.url@,
            aliases: text::strings_view(self.aliases@),
            scripts: pairs_view(self.scripts@),
            env: pairs_view(self.env@),
            worktree_init: match self.worktree_init {
                Some(w) => Some(w@),
                None => None,
            },
            bare: self.bare,
            tags: text::strings_view(self.tags@),
        }
    }
}

/// A project of the workspace: a bare repository URL, or full settings.
pub enum ProjectEntry {
    Url(String),
    Metadata(ProjectMetadata),
}

/// The mathematical value of a [`ProjectEntry`].
pub enum EntryView {
    Url(Seq<char>),
    Metadata(MetadataView),
}

impl View for ProjectEntry {
    type V = EntryView;

    open spec fn view(&self) -> EntryView {
        match self {
            ProjectEntry::Url(u) => EntryView::Url(u@),
            ProjectEntry::Metadata(m) => EntryView::Metadata(m@),
        }
    }
}

/// The repository URL of an entry.
pub open spec fn entry_url(e: EntryView) -> Seq<char> {
    match e {
        EntryView::Url(u) => u,
        EntryView::Metadata(m) => m.url,
    }
}

/// The tags of an entry (none for the URL form).
pub open spec fn entry_tags(e: EntryView) -> Seq<Seq<char>> {
    match e {
        EntryView::Url(_) => Seq::empty(),
        EntryView::Metadata(m) => m.tags,
    }
}

/// A copy of a list of string pairs.
fn copy_pairs(v: &Vec<(String, String)>) -> (r: Vec<(String, String)>)
    ensures
        pairs_view(r@) == pairs_view(v@),
{
    let mut r: Vec<(String, String)> = Vec::new();
    let mut i: usize = 0;
    while i < v.len()
        invariant
            i <= v.len(),
            pairs_view(r@) == pairs_view(v@).take(i as int),
        decreases v.len() - i,
    {
        let ghost before = r@;
        let p = (v[i].0.clone(), v[i].1.clone());
        r.push(p);
        proof { lemma_pairs_view_push(before, p); }
        assert(pairs_view(r@) =~= pairs_view(v@).take(i + 1));
        i += 1;
    }
    assert(pairs_view(v@).take(v.len() as int) =~= pairs_view(v@));
    r
}

impl ProjectMetadata {
    /// A copy with the same value.
    pub fn duplicate(&self) -> (r: Self)
        ensures
            r@ == self@,
    {
        ProjectMetadata {
            url: self.url.clone(),
            aliases: text::copy_strings(&self.aliases),
            scripts: copy_pairs(&self.scripts),
            env: copy_pairs(&self.env),
            worktree_init: match &self.worktree_init {
                Some(w) => Some(w.clone()),
                None => None,
            },
            bare: self.bare,
            tags: text::copy_strings(&self.tags),
        }
    }
}

impl ProjectEntry {
    /// A copy with the same value.
    pub fn duplicate(&self) -> (r: Self)
        ensures
            r@ == self@,
    {
        match self {
            ProjectEntry::Url(u) => ProjectEntry::Url(u.clone()),
            ProjectEntry::Metadata(m) => ProjectEntry::Metadata(m.duplicate()),
        }
    }

    /// The repository URL.
    pub fn url(&self) -> (r: String)
        ensures
            r@ == entry_url(self@),
    {
        match self {
            ProjectEntry::Url(u) => u.clone(),
            ProjectEntry::Metadata(m) => m.url.clone(),
        }
    }

    /// The tags (none for the URL form).
    pub fn tags(&self) -> (r: Vec<String>)
        ensures
            text::strings_view(r@) == entry_tags(self@),
    {
        match self {
            ProjectEntry::Url(_) => {
                let r: Vec<String> = Vec::new();
                assert(text::strings_view(r@) =~= Seq::<Seq<char>>::empty());
                r
            },
            ProjectEntry::Metadata(m) => text::copy_strings(&m.tags),
        }
    }
}

// ---------------------------------------------------------------------------
// The configuration
// ---------------------------------------------------------------------------

/// The names of a list of projects.
pub open spec fn names_of(v: Seq<(Seq<char>, EntryView)>) -> Seq<Seq<char>> {
    v.map_values(|p: (Seq<char>, EntryView)| p.0)
}

/// The project list as a map from name to entry.
pub open spec fn as_map(v: Seq<(Seq<char>, EntryView)>) -> Map<Seq<char>, EntryView>
    decreases v.len(),
{
    if v.len() == 0 {
        Map::empty()
    } else {
        as_map(v.drop_last()).insert(v.last().0, v.last().1)
    }
}

/// The projects of a workspace with the workspace-wide settings.
pub struct WorkspaceConfig {
    projects: Vec<(String, ProjectEntry)>,
    scripts: Option<Vec<(String, String)>>,
    aliases: Option<Vec<(String, String)>>,
    default_bare: Option<bool>,
    plugins: Option<Vec<(String, String)>>,
    worktree_init: Option<String>,
    nested: Option<NestedConfig>,
}

/// The mathematical value of a [`WorkspaceConfig`]: the projects in their
/// order (each name once) and the settings.
pub struct WorkspaceView {
    pub projects: Seq<(Seq<char>, EntryView)>,
    pub scripts: Option<Seq<(Seq<char>, Seq<char>)>>,
    pub aliases: Option<Seq<(Seq<char>, Seq<char>)>>,
    pub default_bare: Option<bool>,
    pub plugins: Option<Seq<(Seq<char>, Seq<char>)>>,
    pub worktree_init: Option<Seq<char>>,
    pub nested: Option<NestedConfig>,
}

/// The optional list of pairs, viewed.
pub open spec fn opt_pairs_view(v: Option<Vec<(String, String)>>) -> Option<Seq<(Seq<char>, Seq<char>)>> {
    match v {
        Some(p) => Some(pairs_view(p@)),
        None => None,
    }
}

/// The project list, viewed.
pub open spec fn projects_view(v: Seq<(String, ProjectEntry)>) -> Seq<(Seq<char>, EntryView)> {
    v.map_values(|p: (String, ProjectEntry)| (p.0@, p.1@))
}

impl View for WorkspaceConfig {
    type V = WorkspaceView;

    closed spec fn view(&self) -> WorkspaceView {
        WorkspaceView {
            projects: projects_view(self.projects@),
            scripts: opt_pairs_view(self.scripts),
            aliases: opt_pairs_view(self.aliases),
            default_bare: self.default_bare,
            plugins: opt_pairs_view(self.plugins),
            worktree_init: match self.worktree_init {
                Some(w) => Some(w@),
                None => None,
            },
            nested: self.nested,
        }
    }
}

/// Two workspaces have the same workspace-wide settings.
pub open spec fn same_settings(a: WorkspaceView, b: WorkspaceView) -> bool {
    same_settings_but_plugins(a, b) && a.plugins == b.plugins
}

/// Two workspaces have the same workspace-wide settings, the plugins aside.
pub open spec fn same_settings_but_plugins(a: WorkspaceView, b: WorkspaceView) -> bool {
    &&& a.scripts == b.scripts
    &&& a.aliases == b.aliases
    &&& a.default_bare == b.default_bare
    &&& a.worktree_init == b.worktree_init
    &&& a.nested == b.nested
}

/// The projects as a map from name to entry.
pub open spec fn project_map(w: WorkspaceView) -> Map<Seq<char>, EntryView> {
    as_map(w.projects)
}

/// The map of a list with distinct names holds exactly its pairs.
proof fn lemma_as_map(v: Seq<(Seq<char>, EntryView)>)
    requires
        names_of(v).no_duplicates(),
    ensures
        forall|k: Seq<char>| #[trigger] as_map(v).contains_key(k) <==> names_of(v).contains(k),
        forall|i: int| 0 <= i < v.len() ==> #[trigger] as_map(v)[v[i].0] == v[i].1,
    decreases v.len(),
{
    if v.len() == 0 {
        assert forall|k: Seq<char>| #[trigger] as_map(v).contains_key(k) <==> names_of(v).contains(k) by {
            assert(!as_map(v).contains_key(k));
        }
    } else {
        let w = v.drop_last();
        let x = v.last();
        assert(names_of(w) =~= names_of(v).drop_last());
        assert(names_of(v) =~= names_of(w).push(x.0));
        assert(names_of(w).no_duplicates());
        lemma_as_map(w);
        assert(as_map(v) == as_map(w).insert(x.0, x.1));
        assert forall|k: Seq<char>| #[trigger] as_map(v).contains_key(k) <==> names_of(v).contains(k) by {
            if k == x.0 {
                assert(names_of(v)[v.len() - 1] == k);
            } else {
                if as_map(v).contains_key(k) {
                    assert(as_map(w).contains_key(k));
                    assert(names_of(w).contains(k));
                    let i = choose|i: int| 0 <= i < names_of(w).len() && names_of(w)[i] == k;
                    assert(names_of(v)[i] == k);
                }
                if names_of(v).contains(k) {
                    let i = choose|i: int| 0 <= i < names_of(v).len() && names_of(v)[i] == k;
                    assert(i < w.len());
                    assert(names_of(w)[i] == k);
                    assert(names_of(w).contains(k));
                    assert(as_map(w).contains_key(k));
                }
            }
        }
        assert forall|i: int| 0 <= i < v.len() implies #[trigger] as_map(v)[v[i].0] == v[i].1 by {
            if i < v.len() - 1 {
                assert(names_of(v)[i] != names_of(v)[v.len() - 1]);
                assert(w[i] == v[i]);
                assert(as_map(w)[w[i].0] == w[i].1);
            }
        }
    }
}

/// A project name in the map, found at its position.
proof fn lemma_map_index(v: Seq<(Seq<char>, EntryView)>, k: Seq<char>)
    requires
        names_of(v).no_duplicates(),
    ensures
        as_map(v).contains_key(k) <==> exists|i: int| 0 <= i < v.len() && v[i].0 == k,
{
    lemma_as_map(v);
    if as_map(v).contains_key(k) {
        let i = choose|i: int| 0 <= i < names_of(v).len() && names_of(v)[i] == k;
        assert(v[i].0 == k);
    }
    if exists|i: int| 0 <= i < v.len() && v[i].0 == k {
        let i = choose|i: int| 0 <= i < v.len() && v[i].0 == k;
        assert(names_of(v)[i] == k);
    }
}

/// Appending a pair with a fresh name inserts it into the map.
proof fn lemma_as_map_push(v: Seq<(Seq<char>, EntryView)>, p: (Seq<char>, EntryView))
    ensures
        as_map(v.push(p)) == as_map(v).insert(p.0, p.1),
{
    assert(v.push(p).drop_last() =~= v);
}

/// Replacing the entry at the position of a name updates the map.
proof fn lemma_as_map_update(v: Seq<(Seq<char>, EntryView)>, i: int, e: EntryView)
    requires
        names_of(v).no_duplicates(),
        0 <= i < v.len(),
    ensures
        as_map(v.update(i, (v[i].0, e))) == as_map(v).insert(v[i].0, e),
    decreases v.len(),
{
    let u = v.update(i, (v[i].0, e));
    assert(names_of(u) =~= names_of(v));
    lemma_as_map(v);
    lemma_as_map(u);
    assert forall|k: Seq<char>| #[trigger] as_map(u).contains_key(k) <==> as_map(v).insert(v[i].0, e).contains_key(k) by {
        assert(as_map(u).contains_key(k) <==> names_of(u).contains(k));
        assert(as_map(v).contains_key(k) <==> names_of(v).contains(k));
        if k == v[i].0 {
            assert(names_of(v)[i] == k);
        }
    }
    assert forall|k: Seq<char>| as_map(u).contains_key(k) implies #[trigger] as_map(u)[k] == as_map(v).insert(v[i].0, e)[k] by {
        let j = choose|j: int| 0 <= j < names_of(u).len() && names_of(u)[j] == k;
        assert(u[j].0 == k);
        if j != i {
            assert(names_of(v)[j] != names_of(v)[i]);
        }
    }
    assert(as_map(u) =~= as_map(v).insert(v[i].0, e));
}

/// Removing the pair at a position removes its name from the map.
proof fn lemma_as_map_remove(v: Seq<(Seq<char>, EntryView)>, i: int)
    requires
        names_of(v).no_duplicates(),
        0 <= i < v.len(),
    ensures
        names_of(v.remove(i)).no_duplicates(),
        as_map(v.remove(i)) == as_map(v).remove(v[i].0),
{
    let u = v.remove(i);
    assert(names_of(u) =~= names_of(v).remove(i));
    assert(names_of(u).no_duplicates()) by {
        assert forall|a: int, b: int| 0 <= a < names_of(u).len() && 0 <= b < names_of(u).len() && a != b implies names_of(u)[a] != names_of(u)[b] by {
            let a2 = if a < i { a } else { a + 1 };
            let b2 = if b < i { b } else { b + 1 };
            assert(names_of(u)[a] == names_of(v)[a2]);
            assert(names_of(u)[b] == names_of(v)[b2]);
        }
    }
    lemma_as_map(v);
    lemma_as_map(u);
    assert forall|k: Seq<char>| #[trigger] as_map(u).contains_key(k) <==> as_map(v).remove(v[i].0).contains_key(k) by {
        if names_of(u).contains(k) {
            let a = choose|a: int| 0 <= a < names_of(u).len() && names_of(u)[a] == k;
            let a2 = if a < i { a } else { a + 1 };
            assert(names_of(v)[a2] == k);
            assert(a2 != i);
            assert(names_of(v)[a2] != names_of(v)[i]);
        }
        if names_of(v).contains(k) && k != v[i].0 {
            let a = choose|a: int| 0 <= a < names_of(v).len() && names_of(v)[a] == k;
            assert(a != i);
            let a1 = if a < i { a } else { a - 1 };
            assert(names_of(u)[a1] == k);
        }
    }
    assert forall|k: Seq<char>| as_map(u).contains_key(k) implies #[trigger] as_map(u)[k] == as_map(v).remove(v[i].0)[k] by {
        let a = choose|a: int| 0 <= a < names_of(u).len() && names_of(u)[a] == k;
        let a2 = if a < i { a } else { a + 1 };
        assert(u[a] == v[a2]);
    }
    assert(as_map(u) =~= as_map(v).remove(v[i].0));
}

/// What a rename of `from` to `to` answers on a project map.
pub open spec fn rename_outcome(m: Map<Seq<char>, EntryView>, from: Seq<char>, to: Seq<char>) -> Result<(), RenameError> {
    if !m.contains_key(from) {
        Err(RenameError::NotFound)
    } else if m.contains_key(to) {
        Err(RenameError::AlreadyExists)
    } else {
        Ok(())
    }
}

/// The project map after a successful rename of `from` to `to`.
pub open spec fn renamed(m: Map<Seq<char>, EntryView>, from: Seq<char>, to: Seq<char>) -> Map<Seq<char>, EntryView> {
    m.remove(from).insert(to, m[from])
}

/// Why a rename was refused.
#[derive(Debug, Clone, Copy, PartialEq, Eq, Structural)]
pub enum RenameError {
    /// No project has the old name.
    NotFound,
    /// A project already has the new name.
    AlreadyExists,
}

impl WorkspaceConfig {
    /// Each project name occurs once.
    #[verifier::type_invariant]
    spec fn names_distinct(self) -> bool {
        names_of(projects_view(self.projects@)).no_duplicates()
    }

    /// An empty workspace with the given settings.
    pub fn new(
        scripts: Option<Vec<(String, String)>>,
        aliases: Option<Vec<(String, String)>>,
        default_bare: Option<bool>,
        plugins: Option<Vec<(String, String)>>,
        worktree_init: Option<String>,
        nested: Option<NestedConfig>,
    ) -> (r: Self)
        ensures
            r@.projects.len() == 0,
            r@.scripts == opt_pairs_view(scripts),
            r@.aliases == opt_pairs_view(aliases),
            r@.default_bare == default_bare,
            r@.plugins == opt_pairs_view(plugins),
            r@.worktree_init == match worktree_init {
                Some(w) => Some(w@),
                None => None::<Seq<char>>,
            },
            r@.nested == nested,
    {
        let r = WorkspaceConfig {
            projects: Vec::new(),
            scripts,
            aliases,
            default_bare,
            plugins,
            worktree_init,
            nested,
        };
        assert(names_of(projects_view(r.projects@)) =~= Seq::<Seq<char>>::empty());
        r
    }

    /// The workspace-wide `default_bare` setting.
    pub fn default_bare(&self) -> (r: Option<bool>)
        ensures
            r == self@.default_bare,
    {
        self.default_bare
    }

    /// The command run in every new worktree unless a project names its own.
    pub fn worktree_init(&self) -> (r: &Option<String>)
        ensures
            match *r {
                Some(c) => self@.worktree_init == Some(c@),
                None => self@.worktree_init is None,
            },
    {
        &self.worktree_init
    }

    /// The workspace-wide scripts.
    pub fn scripts(&self) -> (r: &Option<Vec<(String, String)>>)
        ensures
            opt_pairs_view(*r) == self@.scripts,
    {
        &self.scripts
    }

    /// The workspace-wide aliases.
    pub fn aliases(&self) -> (r: &Option<Vec<(String, String)>>)
        ensures
            opt_pairs_view(*r) == self@.aliases,
    {
        &self.aliases
    }

    /// The plugins the workspace names, with their specs.
    pub fn plugins(&self) -> (r: &Option<Vec<(String, String)>>)
        ensures
            opt_pairs_view(*r) == self@.plugins,
    {
        &self.plugins
    }

    /// The number of projects.
    pub fn project_count(&self) -> (r: usize)
        ensures
            r == self@.projects.len(),
    {
        self.projects.len()
    }

    /// The name and entry of the `i`-th project.
    pub fn project_at(&self, i: usize) -> (r: (&String, &ProjectEntry))
        requires
            i < self@.projects.len(),
        ensures
            r.0@ == self@.projects[i as int].0,
            r.1@ == self@.projects[i as int].1,
    {
        (&self.projects[i].0, &self.projects[i].1)
    }

    /// The project names, in order.
    pub fn project_names(&self) -> (r: Vec<String>)
        ensures
            text::strings_view(r@) == names_of(self@.projects),
    {
        let mut r: Vec<String> = Vec::new();
        let mut i: usize = 0;
        while i < self.projects.len()
            invariant
                i <= self.projects.len(),
                text::strings_view(r@) == names_of(self@.projects).take(i as int),
            decreases self.projects.len() - i,
        {
            let ghost before = r@;
            let n = self.projects[i].0.clone();
            r.push(n);
            proof {
                text::lemma_strings_view_push(before, n);
            }
            assert(names_of(self@.projects)[i as int] == n@);
            assert(text::strings_view(r@) =~= names_of(self@.projects).take(i + 1));
            i += 1;
        }
        assert(names_of(self@.projects).take(self.projects.len() as int) =~= names_of(self@.projects));
        r
    }

    /// The position of the named project.
    fn position(&self, name: &str) -> (r: Option<usize>)
        ensures
            match r {
                Some(i) => i < self@.projects.len() && self@.projects[i as int].0 == name@,
                None => forall|j: int| 0 <= j < self@.projects.len() ==> self@.projects[j].0 != name@,
            },
    {
        let n = String::from_str(name);
        let mut i: usize = 0;
        while i < self.projects.len()
            invariant
                i <= self.projects.len(),
                n@ == name@,
                forall|j: int| 0 <= j < i ==> self@.projects[j].0 != name@,
            decreases self.projects.len() - i,
        {
            if self.projects[i].0 == n {
                return Some(i);
            }
            i += 1;
        }
        None
    }

    /// Whether a project has this name.
    pub fn contains_project(&self, name: &str) -> (r: bool)
        ensures
            r == project_map(self@).contains_key(name@),
    {
        proof {
            use_type_invariant(self);
            lemma_map_index(self@.projects, name@);
        }
        self.position(name).is_some()
    }

    /// The entry of the named project.
    pub fn get_project(&self, name: &str) -> (r: Option<&ProjectEntry>)
        ensures
            match r {
                Some(e) => project_map(self@).contains_key(name@) && e@ == project_map(self@)[name@],
                None => !project_map(self@).contains_key(name@),
            },
    {
        proof {
            use_type_invariant(self);
            lemma_map_index(self@.projects, name@);
            lemma_as_map(self@.projects);
        }
        match self.position(name) {
            Some(i) => Some(&self.projects[i].1),
            None => None,
        }
    }

    /// The repository URL of the named project.
    pub fn get_project_url(&self, name: &str) -> (r: Option<String>)
        ensures
            match r {
                Some(u) => project_map(self@).contains_key(name@) && u@ == entry_url(project_map(self@)[name@]),
                None => !project_map(self@).contains_key(name@),
            },
    {
        match self.get_project(name) {
            Some(e) => Some(e.url()),
            None => None,
        }
    }

    /// Adds the project, or replaces the entry of the project of that name.
    pub fn insert_project(&mut self, name: String, entry: ProjectEntry)
        ensures
            project_map(final(self)@) == project_map(old(self)@).insert(name@, entry@),
            same_settings(final(self)@, old(self)@),
    {
        proof {
            use_type_invariant(&*self);
        }
        let ghost v = self@.projects;
        let pos = self.position(name.as_str());
        let mut projects: Vec<(String, ProjectEntry)> = Vec::new();
        std::mem::swap(&mut projects, &mut self.projects);
        assert(projects_view(projects@) == v);
        if let Some(i) = pos {
            let ghost ev = entry@;
            let nm = projects[i].0.clone();
            let ghost before = projects@;
            projects.set(i, (nm, entry));
            proof {
                assert(projects_view(projects@) =~= v.update(i as int, (v[i as int].0, ev)));
                assert(names_of(projects_view(projects@)) =~= names_of(v));
                lemma_as_map_update(v, i as int, ev);
            }
        } else {
            let ghost ev = entry@;
            let ghost nv = name@;
            projects.push((name, entry));
            proof {
                assert(projects_view(projects@) =~= v.push((nv, ev)));
                lemma_as_map_push(v, (nv, ev));
                assert(names_of(projects_view(projects@)) =~= names_of(v).push(nv));
                assert(names_of(v.push((nv, ev))).no_duplicates()) by {
                    assert forall|a: int, b: int| 0 <= a < names_of(v).len() + 1 && 0 <= b < names_of(v).len() + 1 && a != b implies names_of(v.push((nv, ev)))[a] != names_of(v.push((nv, ev)))[b] by {
                        if a < v.len() && b < v.len() {
                        } else if a == v.len() {
                            assert(v[b].0 != nv);
                        } else {
                            assert(v[a].0 != nv);
                        }
                    }
                }
            }
        }
        self.projects = projects;
    }

    /// Removes the named project; whether there was one.
    pub fn remove_project(&mut self, name: &str) -> (r: bool)
        ensures
            r == project_map(old(self)@).contains_key(name@),
            project_map(final(self)@) == project_map(old(self)@).remove(name@),
            same_settings(final(self)@, old(self)@),
    {
        proof {
            use_type_invariant(&*self);
            lemma_map_index(self@.projects, name@);
        }
        match self.position(name) {
            Some(i) => {
                let ghost v = self@.projects;
                let mut projects: Vec<(String, ProjectEntry)> = Vec::new();
                std::mem::swap(&mut projects, &mut self.projects);
                let _ = projects.remove(i);
                proof {
                    assert(projects_view(projects@) =~= v.remove(i as int));
                    lemma_as_map_remove(v, i as int);
                }
                self.projects = projects;
                true
            },
            None => {
                proof {
                    assert(project_map(self@).remove(name@) =~= project_map(self@));
                }
                false
            },
        }
    }

    /// Renames a project: refused when no project has the old name, or when
    /// one already has the new name; otherwise the entry moves to the new name.
    pub fn rename_project(&mut self, old_name: &str, new_name: &str) -> (r: Result<(), RenameError>)
        ensures
            r == rename_outcome(project_map(old(self)@), old_name@, new_name@),
            r is Ok ==> project_map(final(self)@) == renamed(project_map(old(self)@), old_name@, new_name@),
            r is Err ==> final(self)@ == old(self)@,
            same_settings(final(self)@, old(self)@),
    {
        if !self.contains_project(old_name) {
            return Err(RenameError::NotFound);
        }
        if self.contains_project(new_name) {
            return Err(RenameError::AlreadyExists);
        }
        let entry = match self.get_project(old_name) {
            Some(e) => e.duplicate(),
            None => {
                return Err(RenameError::NotFound);
            },
        };
        self.remove_project(old_name);
        self.insert_project(String::from_str(new_name), entry);
        Ok(())
    }

    /// Records a plugin with its spec, creating the plugin list if needed;
    /// an earlier spec of the same plugin is replaced.
    pub fn add_plugin(&mut self, name: String, spec: String)
        ensures
            final(self)@.projects == old(self)@.projects,
            same_settings_but_plugins(final(self)@, old(self)@),
            final(self)@.plugins is Some,
            opt_pair_map(final(self)@.plugins) == opt_pair_map(old(self)@.plugins).insert(name@, spec@),
    {
        proof {
            use_type_invariant(&*self);
        }
        let mut kept = match &self.plugins {
            Some(p) => without_key(p, &name),
            None => {
                let v: Vec<(String, String)> = Vec::new();
                assert(pairs_view(v@) =~= Seq::empty());
                v
            },
        };
        let ghost before = pairs_view(kept@);
        let ghost nv = name@;
        let ghost sv = spec@;
        let ghost kept0 = kept@;
        let pair = (name, spec);
        kept.push(pair);
        proof {
            lemma_pairs_view_push(kept0, pair);
            assert(pairs_view(kept@).drop_last() =~= before);
            assert(pair_map(pairs_view(kept@)) == pair_map(before).insert(nv, sv));
            assert(pair_map(before) == opt_pair_map(self@.plugins).remove(nv));
            assert(opt_pair_map(self@.plugins).remove(nv).insert(nv, sv) =~= opt_pair_map(self@.plugins).insert(nv, sv));
        }
        self.plugins = Some(kept);
    }

    /// Forgets the named plugin; whether it was recorded.
    pub fn remove_plugin(&mut self, name: &str) -> (r: bool)
        ensures
            r == opt_pair_map(old(self)@.plugins).contains_key(name@),
            final(self)@.projects == old(self)@.projects,
            same_settings_but_plugins(final(self)@, old(self)@),
            final(self)@.plugins is Some <==> old(self)@.plugins is Some,
            opt_pair_map(final(self)@.plugins) == opt_pair_map(old(self)@.plugins).remove(name@),
    {
        proof {
            use_type_invariant(&*self);
        }
        let n = String::from_str(name);
        match &self.plugins {
            Some(p) => {
                let found = pairs_have_key(p, &n);
                let kept = without_key(p, &n);
                self.plugins = Some(kept);
                found
            },
            None => {
                assert(Map::<Seq<char>, Seq<char>>::empty().remove(name@) =~= Map::empty());
                false
            },
        }
    }
}

/// The pairs whose key differs from `k`, in their order.
fn without_key(v: &Vec<(String, String)>, k: &String) -> (r: Vec<(String, String)>)
    ensures
        pair_map(pairs_view(r@)) == pair_map(pairs_view(v@)).remove(k@),
{
    let mut r: Vec<(String, String)> = Vec::new();
    let mut i: usize = 0;
    proof {
        assert(pairs_view(v@).take(0) =~= Seq::empty());
        assert(pairs_view(r@) =~= Seq::empty());
        assert(Map::<Seq<char>, Seq<char>>::empty().remove(k@) =~= Map::empty());
    }
    while i < v.len()
        invariant
            i <= v.len(),
            pair_map(pairs_view(r@)) == pair_map(pairs_view(v@).take(i as int)).remove(k@),
        decreases v.len() - i,
    {
        let ghost before = pairs_view(r@);
        assert(pairs_view(v@).take(i + 1).drop_last() =~= pairs_view(v@).take(i as int));
        let ghost e = pairs_view(v@)[i as int];
        if v[i].0 != *k {
            let ghost r0 = r@;
            let pair = (v[i].0.clone(), v[i].1.clone());
            r.push(pair);
            proof { lemma_pairs_view_push(r0, pair); }
            assert(pairs_view(r@).drop_last() =~= before);
            assert(pair_map(before).insert(e.0, e.1) =~= pair_map(pairs_view(v@).take(i as int)).insert(e.0, e.1).remove(k@));
        } else {
            assert(pair_map(pairs_view(v@).take(i as int)).remove(k@) =~= pair_map(pairs_view(v@).take(i as int)).insert(e.0, e.1).remove(k@));
        }
        i += 1;
    }
    assert(pairs_view(v@).take(v.len() as int) =~= pairs_view(v@));
    r
}

/// Whether some pair has the key `k`.
pub(crate) fn pairs_have_key(v: &Vec<(String, String)>, k: &String) -> (r: bool)
    ensures
        r == pair_map(pairs_view(v@)).contains_key(k@),
{
    let mut i: usize = 0;
    let mut found = false;
    proof {
        assert(pairs_view(v@).take(0) =~= Seq::empty());
    }
    while i < v.len()
        invariant
            i <= v.len(),
            found == pair_map(pairs_view(v@).take(i as int)).contains_key(k@),
        decreases v.len() - i,
    {
        assert(pairs_view(v@).take(i + 1).drop_last() =~= pairs_view(v@).take(i as int));
        if v[i].0 == *k {
            found = true;
        }
        i += 1;
    }
    assert(pairs_view(v@).take(v.len() as int) =~= pairs_view(v@));
    found
}

// ---------------------------------------------------------------------------
// Tags
// ---------------------------------------------------------------------------

/// The tags `existing` with the tags of `new` appended, in order, each one
/// only when it is not there yet.
pub open spec fn tags_added(existing: Seq<Seq<char>>, new: Seq<Seq<char>>) -> Seq<Seq<char>>
    decreases new.len(),
{
    if new.len() == 0 {
        existing
    } else {
        let t = tags_added(existing, new.drop_last());
        if t.contains(new.last()) {
            t
        } else {
            t.push(new.last())
        }
    }
}

/// The tags `existing` without any of the tags of `gone`.
pub open spec fn tags_removed(existing: Seq<Seq<char>>, gone: Seq<Seq<char>>) -> Seq<Seq<char>> {
    existing.filter(|t: Seq<char>| !gone.contains(t))
}

/// The entry with the tags `new` added: a bare URL becomes full settings with
/// only that URL and the tags.
pub open spec fn tagged(e: EntryView, new: Seq<Seq<char>>) -> EntryView {
    match e {
        EntryView::Url(u) => EntryView::Metadata(
            MetadataView {
                url: u,
                aliases: Seq::empty(),
                scripts: Seq::empty(),
                env: Seq::empty(),
                worktree_init: None,
                bare: None,
                tags: tags_added(Seq::empty(), new),
            },
        ),
        EntryView::Metadata(m) => EntryView::Metadata(MetadataView { tags: tags_added(m.tags, new), ..m }),
    }
}

/// The entry with the tags of `gone` removed (a bare URL has none).
pub open spec fn untagged(e: EntryView, gone: Seq<Seq<char>>) -> EntryView {
    match e {
        EntryView::Url(u) => EntryView::Url(u),
        EntryView::Metadata(m) => EntryView::Metadata(MetadataView { tags: tags_removed(m.tags, gone), ..m }),
    }
}

/// After tags are added, the project has each of them, and keeps the tags
/// it had; adding tags it already has changes nothing.
pub proof fn law_added_tags_are_listed(existing: Seq<Seq<char>>, new: Seq<Seq<char>>)
    ensures
        forall|i: int| 0 <= i < new.len() ==> tags_added(existing, new).contains(#[trigger] new[i]),
        forall|i: int| 0 <= i < existing.len() ==> tags_added(existing, new).contains(#[trigger] existing[i]),
        (forall|i: int| 0 <= i < new.len() ==> existing.contains(#[trigger] new[i])) ==> tags_added(existing, new)
            == existing,
    decreases new.len(),
{
    if new.len() > 0 {
        let rest = new.drop_last();
        law_added_tags_are_listed(existing, rest);
        let t = tags_added(existing, rest);
        let x = new.last();
        assert forall|i: int| 0 <= i < new.len() implies tags_added(existing, new).contains(#[trigger] new[i]) by {
            if i < new.len() - 1 {
                assert(rest[i] == new[i]);
                let j = choose|j: int| 0 <= j < t.len() && t[j] == new[i];
                if !t.contains(x) {
                    assert(t.push(x)[j] == new[i]);
                }
            } else if !t.contains(x) {
                assert(t.push(x)[t.len() as int] == x);
            }
        }
        assert forall|i: int| 0 <= i < existing.len() implies tags_added(existing, new).contains(
            #[trigger] existing[i],
        ) by {
            let j = choose|j: int| 0 <= j < t.len() && t[j] == existing[i];
            if !t.contains(x) {
                assert(t.push(x)[j] == existing[i]);
            }
        }
        if forall|i: int| 0 <= i < new.len() ==> existing.contains(#[trigger] new[i]) {
            assert forall|i: int| 0 <= i < rest.len() implies existing.contains(#[trigger] rest[i]) by {
                assert(rest[i] == new[i]);
            }
            assert(existing.contains(new[new.len() - 1]));
        }
    }
}

/// After tags are removed, the project has none of them, and keeps every
/// other tag it had, in order.
pub proof fn law_removed_tags_are_gone(existing: Seq<Seq<char>>, gone: Seq<Seq<char>>)
    ensures
        forall|t: Seq<char>| #[trigger] tags_removed(existing, gone).contains(t) ==> !gone.contains(t)
            && existing.contains(t),
        forall|i: int| 0 <= i < existing.len() && !gone.contains(existing[i]) ==> tags_removed(existing, gone).contains(
            #[trigger] existing[i],
        ),
{
    broadcast use vstd::seq_lib::group_filter_ensures;
    let keep = |t: Seq<char>| !gone.contains(t);
    assert forall|t: Seq<char>| #[trigger] tags_removed(existing, gone).contains(t) implies !gone.contains(t)
        && existing.contains(t) by {
        existing.lemma_filter_contains_rev(keep, t);
        let j = choose|j: int| 0 <= j < existing.filter(keep).len() && existing.filter(keep)[j] == t;
        assert(keep(existing.filter(keep)[j]));
    }
    assert forall|i: int| 0 <= i < existing.len() && !gone.contains(existing[i]) implies tags_removed(
        existing,
        gone,
    ).contains(#[trigger] existing[i]) by {
        existing.lemma_filter_contains(keep, i);
    }
}

/// The tags with the new ones appended (see [`tags_added`]).
fn tags_with(existing: &Vec<String>, new: &Vec<String>) -> (r: Vec<String>)
    ensures
        text::strings_view(r@) == tags_added(text::strings_view(existing@), text::strings_view(new@)),
{
    let ghost e = text::strings_view(existing@);
    let ghost n = text::strings_view(new@);
    let mut r = text::copy_strings(existing);
    let mut i: usize = 0;
    assert(n.take(0) =~= Seq::<Seq<char>>::empty());
    while i < new.len()
        invariant
            i <= new.len(),
            e == text::strings_view(existing@),
            n == text::strings_view(new@),
            text::strings_view(r@) == tags_added(e, n.take(i as int)),
        decreases new.len() - i,
    {
        assert(n.take(i + 1).drop_last() =~= n.take(i as int));
        assert(n.take(i + 1).last() == new@[i as int]@);
        if !text::strings_contain(&r, &new[i]) {
            let ghost before = r@;
            let t = new[i].clone();
            r.push(t);
            proof {
                text::lemma_strings_view_push(before, t);
            }
        }
        i += 1;
    }
    assert(n.take(new.len() as int) =~= n);
    r
}

/// The tags without the removed ones (see [`tags_removed`]).
fn tags_without(existing: &Vec<String>, gone: &Vec<String>) -> (r: Vec<String>)
    ensures
        text::strings_view(r@) == tags_removed(text::strings_view(existing@), text::strings_view(gone@)),
{
    let ghost e = text::strings_view(existing@);
    let ghost g = text::strings_view(gone@);
    let ghost keep = |t: Seq<char>| !g.contains(t);
    let mut r: Vec<String> = Vec::new();
    let mut i: usize = 0;
    assert(e.take(0) =~= Seq::<Seq<char>>::empty());
    assert(text::strings_view(r@) =~= Seq::<Seq<char>>::empty());
    while i < existing.len()
        invariant
            i <= existing.len(),
            e == text::strings_view(existing@),
            g == text::strings_view(gone@),
            keep == (|t: Seq<char>| !g.contains(t)),
            text::strings_view(r@) == e.take(i as int).filter(keep),
        decreases existing.len() - i,
    {
        assert(e.take(i + 1) =~= e.take(i as int).push(e[i as int]));
        proof {
            e.take(i as int).lemma_filter_push(e[i as int], keep);
        }
        if !text::strings_contain(gone, &existing[i]) {
            let ghost before = r@;
            let t = existing[i].clone();
            r.push(t);
            proof {
                text::lemma_strings_view_push(before, t);
            }
        }
        i += 1;
    }
    assert(e.take(existing.len() as int) =~= e);
    r
}

/// The entry with the tags added (see [`tagged`]).
fn entry_tagged(e: &ProjectEntry, tags: &Vec<String>) -> (r: ProjectEntry)
    ensures
        r@ == tagged(e@, text::strings_view(tags@)),
{
    match e {
        ProjectEntry::Url(u) => {
            let none: Vec<String> = Vec::new();
            let aliases: Vec<String> = Vec::new();
            let scripts: Vec<(String, String)> = Vec::new();
            let env: Vec<(String, String)> = Vec::new();
            let m = ProjectMetadata {
                url: u.clone(),
                aliases,
                scripts,
                env,
                worktree_init: None,
                bare: None,
                tags: tags_with(&none, tags),
            };
            assert(text::strings_view(none@) =~= Seq::<Seq<char>>::empty());
            assert(text::strings_view(m.aliases@) =~= Seq::<Seq<char>>::empty());
            assert(pairs_view(m.scripts@) =~= Seq::<(Seq<char>, Seq<char>)>::empty());
            assert(pairs_view(m.env@) =~= Seq::<(Seq<char>, Seq<char>)>::empty());
            ProjectEntry::Metadata(m)
        },
        ProjectEntry::Metadata(m) => {
            let mut d = m.duplicate();
            d.tags = tags_with(&m.tags, tags);
            ProjectEntry::Metadata(d)
        },
    }
}

/// The entry with the tags removed (see [`untagged`]).
fn entry_untagged(e: &ProjectEntry, tags: &Vec<String>) -> (r: ProjectEntry)
    ensures
        r@ == untagged(e@, text::strings_view(tags@)),
{
    match e {
        ProjectEntry::Url(u) => ProjectEntry::Url(u.clone()),
        ProjectEntry::Metadata(m) => {
            let mut d = m.duplicate();
            d.tags = tags_without(&m.tags, tags);
            ProjectEntry::Metadata(d)
        },
    }
}

impl WorkspaceConfig {
    /// Adds tags to the named project (see [`tagged`]); whether there is such
    /// a project (nothing changes when there is none).
    pub fn add_tags(&mut self, name: &str, tags: &Vec<String>) -> (r: bool)
        ensures
            r == project_map(old(self)@).contains_key(name@),
            r ==> project_map(final(self)@) == project_map(old(self)@).insert(
                name@,
                tagged(project_map(old(self)@)[name@], text::strings_view(tags@)),
            ),
            !r ==> final(self)@ == old(self)@,
            same_settings(final(self)@, old(self)@),
    {
        let entry = match self.get_project(name) {
            Some(e) => entry_tagged(e, tags),
            None => {
                return false;
            },
        };
        self.insert_project(String::from_str(name), entry);
        true
    }

    /// Removes tags from the named project (see [`untagged`]); whether there
    /// is such a project (nothing changes when there is none).
    pub fn remove_tags(&mut self, name: &str, tags: &Vec<String>) -> (r: bool)
        ensures
            r == project_map(old(self)@).contains_key(name@),
            r ==> project_map(final(self)@) == project_map(old(self)@).insert(
                name@,
                untagged(project_map(old(self)@)[name@], text::strings_view(tags@)),
            ),
            !r ==> final(self)@ == old(self)@,
            same_settings(final(self)@, old(self)@),
    {
        let entry = match self.get_project(name) {
            Some(e) => entry_untagged(e, tags),
            None => {
                return false;
            },
        };
        self.insert_project(String::from_str(name), entry);
        true
    }
}

} // verus!

verus! {

// ---------------------------------------------------------------------------
// Laws of the project map
// ---------------------------------------------------------------------------

/// A rename that succeeds can be undone: renaming the project back succeeds
/// and gives the workspace its projects as they were.
pub proof fn law_rename_round_trip(m: Map<Seq<char>, EntryView>, from: Seq<char>, to: Seq<char>)
    requires
        rename_outcome(m, from, to) is Ok,
    ensures
        rename_outcome(renamed(m, from, to), to, from) is Ok,
        renamed(renamed(m, from, to), to, from) == m,
{
    let m1 = renamed(m, from, to);
    assert(from != to);
    assert(m1.contains_key(to));
    assert(!m1.contains_key(from));
    assert(renamed(m1, to, from) =~= m);
}

/// A rename keeps the number of projects.
pub proof fn law_rename_keeps_count(m: Map<Seq<char>, EntryView>, from: Seq<char>, to: Seq<char>)
    requires
        m.dom().finite(),
        rename_outcome(m, from, to) is Ok,
    ensures
        renamed(m, from, to).dom().finite(),
        renamed(m, from, to).len() == m.len(),
{
    let m0 = m.remove(from);
    assert(m0.dom() =~= m.dom().remove(from));
    assert(!m0.contains_key(to));
    assert(m0.insert(to, m[from]).dom() =~= m0.dom().insert(to));
}

/// Adding a project under a fresh name and removing it again gives the
/// workspace its projects as they were.
pub proof fn law_insert_then_remove(m: Map<Seq<char>, EntryView>, name: Seq<char>, e: EntryView)
    requires
        !m.contains_key(name),
    ensures
        m.insert(name, e).remove(name) == m,
{
    assert(m.insert(name, e).remove(name) =~= m);
}

/// After a removal the name is free, so a rename onto it, or an insert
/// under it, is accepted.
pub proof fn law_removed_name_is_free(m: Map<Seq<char>, EntryView>, name: Seq<char>, other: Seq<char>)
    requires
        m.contains_key(other),
        other != name,
    ensures
        !m.remove(name).contains_key(name),
        rename_outcome(m.remove(name), other, name) is Ok,
{
}

/// Recording a plugin and forgetting it again leaves no record of it, and
/// the other plugins keep their specs.
pub proof fn law_plugin_add_then_remove(m: Map<Seq<char>, Seq<char>>, name: Seq<char>, spec: Seq<char>)
    ensures
        !m.insert(name, spec).remove(name).contains_key(name),
        m.insert(name, spec).remove(name) == m.remove(name),
{
    assert(m.insert(name, spec).remove(name) =~= m.remove(name));
}

} // verus!

verus! {

// ---------------------------------------------------------------------------
// Reading entries
// ---------------------------------------------------------------------------

/// The aliases of an entry (none for the URL form).
pub open spec fn entry_aliases(e: EntryView) -> Seq<Seq<char>> {
    match e {
        EntryView::Url(_) => Seq::empty(),
        EntryView::Metadata(m) => m.aliases,
    }
}

/// The scripts of an entry (none for the URL form).
pub open spec fn entry_scripts(e: EntryView) -> Seq<(Seq<char>, Seq<char>)> {
    match e {
        EntryView::Url(_) => Seq::empty(),
        EntryView::Metadata(m) => m.scripts,
    }
}

/// The environment variables of an entry (none for the URL form).
pub open spec fn entry_env(e: EntryView) -> Seq<(Seq<char>, Seq<char>)> {
    match e {
        EntryView::Url(_) => Seq::empty(),
        EntryView::Metadata(m) => m.env,
    }
}

// ---------------------------------------------------------------------------
// Paths
// ---------------------------------------------------------------------------

/// The last named component of a path split at `/`: empty and `.` components
/// are skipped, and a path that ends in `..` (or has no component) has none.
pub open spec fn final_component(parts: Seq<Seq<char>>) -> Option<Seq<char>>
    decreases parts.len(),
{
    if parts.len() == 0 {
        None
    } else if parts.last().len() == 0 || parts.last() == seq!['.'] {
        final_component(parts.drop_last())
    } else if parts.last() == seq!['.', '.'] {
        None
    } else {
        Some(parts.last())
    }
}

/// The file name of a `/`-separated path, as `std::path::Path::file_name`
/// gives it on Unix.
pub open spec fn file_name(p: Seq<char>) -> Option<Seq<char>> {
    final_component(text::split_on(p, '/'))
}

/// `name` joined under `base` as `std::path::Path::join` does on Unix: an
/// absolute `name` replaces `base`, and a `/` is put between them unless
/// `base` is empty or already ends in one.
pub open spec fn path_join(base: Seq<char>, name: Seq<char>) -> Seq<char> {
    if name.len() > 0 && name[0] == '/' {
        name
    } else if base.len() == 0 || base.last() == '/' {
        base + name
    } else {
        base + seq!['/'] + name
    }
}

/// The file name of a path.
pub fn path_file_name(path: &str) -> (r: Option<String>)
    ensures
        match r {
            Some(s) => file_name(path@) == Some(s@),
            None => file_name(path@) is None,
        },
{
    let chars = text::chars_of(path);
    let parts = text::chars_split(&chars, '/');
    let ghost ps = text::seqs_view(parts@);
    let mut i: usize = parts.len();
    assert(ps.take(parts.len() as int) =~= ps);
    while i > 0
        invariant
            i <= parts.len(),
            ps == text::seqs_view(parts@),
            ps == text::split_on(path@, '/'),
            final_component(ps) == final_component(ps.take(i as int)),
        decreases i,
    {
        let last = &parts[i - 1];
        let ghost pre = ps.take(i as int);
        assert(pre.last() == last@);
        assert(pre.drop_last() =~= ps.take(i - 1));
        if last.len() == 0 || (last.len() == 1 && last[0] == '.') {
            assert(last@.len() == 1 ==> last@ =~= seq!['.']);
            i -= 1;
        } else if last.len() == 2 && last[0] == '.' && last[1] == '.' {
            assert(last@ =~= seq!['.', '.']);
            return None;
        } else {
            assert(last@ != seq!['.']);
            assert(last@ != seq!['.', '.']);
            return Some(text::string_of(last));
        }
    }
    assert(ps.take(0) =~= Seq::<Seq<char>>::empty());
    None
}

/// `name` joined under `base` (see [`path_join`]).
pub fn join_path(base: &str, name: &str) -> (r: String)
    ensures
        r@ == path_join(base@, name@),
{
    let b = text::chars_of(base);
    let n = text::chars_of(name);
    if n.len() > 0 && n[0] == '/' {
        return text::string_of(&n);
    }
    let mut out = b.clone();
    if !(b.len() == 0 || b[b.len() - 1] == '/') {
        out.push('/');
    }
    let ghost start = out@;
    let mut i: usize = 0;
    while i < n.len()
        invariant
            i <= n.len(),
            out@ == start + n@.take(i as int),
        decreases n.len() - i,
    {
        out.push(n[i]);
        assert(start + n@.take(i + 1) =~= (start + n@.take(i as int)).push(n@[i as int]));
        i += 1;
    }
    assert(n@.take(n.len() as int) =~= n@);
    proof {
        if !(b@.len() == 0 || b@.last() == '/') {
            assert(start =~= b@ + seq!['/']);
        } else {
            assert(start =~= b@);
        }
    }
    text::string_of(&out)
}

// ---------------------------------------------------------------------------
// Resolving project identifiers
// ---------------------------------------------------------------------------

/// The name of the first project, in workspace order, that `pred` accepts.
pub open spec fn first_named(
    ps: Seq<(Seq<char>, EntryView)>,
    pred: spec_fn((Seq<char>, EntryView)) -> bool,
) -> Option<Seq<char>>
    decreases ps.len(),
{
    if ps.len() == 0 {
        None
    } else if pred(ps[0]) {
        Some(ps[0].0)
    } else {
        first_named(ps.drop_first(), pred)
    }
}

/// Projects that list `id` among their aliases.
pub open spec fn alias_owner(id: Seq<char>) -> spec_fn((Seq<char>, EntryView)) -> bool {
    |p: (Seq<char>, EntryView)| entry_aliases(p.1).contains(id)
}

/// Projects whose path has the file name `id`.
pub open spec fn basename_is(id: Seq<char>) -> spec_fn((Seq<char>, EntryView)) -> bool {
    |p: (Seq<char>, EntryView)| file_name(p.0) == Some(id)
}

/// What a project identifier names for `run`: a project of that name; else
/// the target of a workspace alias; else the first project listing it as an
/// alias; else the first project whose path ends in it.
pub open spec fn resolve_identifier(w: WorkspaceView, id: Seq<char>) -> Option<Seq<char>> {
    if project_map(w).contains_key(id) {
        Some(id)
    } else if opt_pair_map(w.aliases).contains_key(id) {
        Some(opt_pair_map(w.aliases)[id])
    } else if first_named(w.projects, alias_owner(id)) is Some {
        first_named(w.projects, alias_owner(id))
    } else {
        first_named(w.projects, basename_is(id))
    }
}

/// What a project identifier names for `worktree`: a project of that name,
/// else the first project whose path ends in it.
pub open spec fn resolve_worktree_identifier(w: WorkspaceView, id: Seq<char>) -> Option<Seq<char>> {
    if project_map(w).contains_key(id) {
        Some(id)
    } else {
        first_named(w.projects, basename_is(id))
    }
}

/// One step of [`first_named`] from position `i`.
proof fn lemma_first_named_step(
    ps: Seq<(Seq<char>, EntryView)>,
    pred: spec_fn((Seq<char>, EntryView)) -> bool,
    i: int,
)
    requires
        0 <= i < ps.len(),
    ensures
        first_named(ps.skip(i), pred) == (if pred(ps[i]) {
            Some(ps[i].0)
        } else {
            first_named(ps.skip(i + 1), pred)
        }),
{
    assert(ps.skip(i)[0] == ps[i]);
    assert(ps.skip(i).drop_first() =~= ps.skip(i + 1));
}

/// Where the value of a key comes from when no later pair has that key.
proof fn lemma_pair_map_prefix(v: Seq<(Seq<char>, Seq<char>)>, i: int, k: Seq<char>)
    requires
        0 <= i <= v.len(),
        forall|j: int| i <= j < v.len() ==> v[j].0 != k,
    ensures
        pair_map(v).contains_key(k) == pair_map(v.take(i)).contains_key(k),
        pair_map(v).contains_key(k) ==> pair_map(v)[k] == pair_map(v.take(i))[k],
    decreases v.len(),
{
    if i == v.len() {
        assert(v.take(i) =~= v);
    } else {
        let w = v.drop_last();
        assert(w.take(i) =~= v.take(i));
        lemma_pair_map_prefix(w, i, k);
    }
}

/// The value of a key in a list of pairs, found from the end.
pub(crate) fn lookup_pair(v: &Vec<(String, String)>, k: &str) -> (r: Option<String>)
    ensures
        match r {
            Some(x) => pair_map(pairs_view(v@)).contains_key(k@) && x@ == pair_map(pairs_view(v@))[k@],
            None => !pair_map(pairs_view(v@)).contains_key(k@),
        },
{
    let key = String::from_str(k);
    let ghost pv = pairs_view(v@);
    let mut i: usize = v.len();
    while i > 0
        invariant
            i <= v.len(),
            key@ == k@,
            pv == pairs_view(v@),
            forall|j: int| i <= j < v.len() ==> pv[j].0 != k@,
        decreases i,
    {
        if v[i - 1].0 == key {
            proof {
                lemma_pair_map_prefix(pv, i as int, k@);
                assert(pv.take(i as int).drop_last() =~= pv.take(i - 1));
                assert(pv.take(i as int).last() == pv[i - 1]);
            }
            return Some(v[i - 1].1.clone());
        }
        i -= 1;
    }
    proof {
        lemma_pair_map_prefix(pv, 0, k@);
        assert(pv.take(0) =~= Seq::<(Seq<char>, Seq<char>)>::empty());
    }
    None
}

impl WorkspaceConfig {
    /// The name of the first project that lists `id` as an alias.
    fn project_with_alias(&self, id: &String) -> (r: Option<String>)
        ensures
            match r {
                Some(s) => first_named(self@.projects, alias_owner(id@)) == Some(s@),
                None => first_named(self@.projects, alias_owner(id@)) is None,
            },
    {
        let ghost ps = self@.projects;
        let mut i: usize = 0;
        assert(ps.skip(0) =~= ps);
        while i < self.projects.len()
            invariant
                i <= self.projects.len(),
                ps == self@.projects,
                first_named(ps, alias_owner(id@)) == first_named(ps.skip(i as int), alias_owner(id@)),
            decreases self.projects.len() - i,
        {
            proof {
                lemma_first_named_step(ps, alias_owner(id@), i as int);
            }
            let found = match &self.projects[i].1 {
                ProjectEntry::Metadata(m) => text::strings_contain(&m.aliases, id),
                ProjectEntry::Url(_) => false,
            };
            assert(found == alias_owner(id@)(ps[i as int]));
            if found {
                return Some(self.projects[i].0.clone());
            }
            i += 1;
        }
        assert(ps.skip(ps.len() as int) =~= Seq::<(Seq<char>, EntryView)>::empty());
        None
    }

    /// The name of the first project whose path has the file name `id`.
    fn project_with_basename(&self, id: &str) -> (r: Option<String>)
        ensures
            match r {
                Some(s) => first_named(self@.projects, basename_is(id@)) == Some(s@),
                None => first_named(self@.projects, basename_is(id@)) is None,
            },
    {
        let ghost ps = self@.projects;
        let want = String::from_str(id);
        let mut i: usize = 0;
        assert(ps.skip(0) =~= ps);
        while i < self.projects.len()
            invariant
                i <= self.projects.len(),
                ps == self@.projects,
                want@ == id@,
                first_named(ps, basename_is(id@)) == first_named(ps.skip(i as int), basename_is(id@)),
            decreases self.projects.len() - i,
        {
            proof {
                lemma_first_named_step(ps, basename_is(id@), i as int);
            }
            let found = match path_file_name(self.projects[i].0.as_str()) {
                Some(b) => b == want,
                None => false,
            };
            assert(found == basename_is(id@)(ps[i as int]));
            if found {
                return Some(self.projects[i].0.clone());
            }
            i += 1;
        }
        assert(ps.skip(ps.len() as int) =~= Seq::<(Seq<char>, EntryView)>::empty());
        None
    }

    /// Resolves a project identifier for `run` (see [`resolve_identifier`]).
    pub fn resolve_project_identifier(&self, identifier: &str) -> (r: Option<String>)
        ensures
            match r {
                Some(s) => resolve_identifier(self@, identifier@) == Some(s@),
                None => resolve_identifier(self@, identifier@) is None,
            },
    {
        if self.contains_project(identifier) {
            return Some(String::from_str(identifier));
        }
        if let Some(aliases) = &self.aliases {
            if let Some(target) = lookup_pair(aliases, identifier) {
                return Some(target);
            }
        }
        let id = String::from_str(identifier);
        if let Some(n) = self.project_with_alias(&id) {
            return Some(n);
        }
        self.project_with_basename(identifier)
    }

    /// Resolves a project identifier for `worktree` (see
    /// [`resolve_worktree_identifier`]).
    pub fn resolve_worktree_project(&self, identifier: &str) -> (r: Option<String>)
        ensures
            match r {
                Some(s) => resolve_worktree_identifier(self@, identifier@) == Some(s@),
                None => resolve_worktree_identifier(self@, identifier@) is None,
            },
    {
        if self.contains_project(identifier) {
            return Some(String::from_str(identifier));
        }
        self.project_with_basename(identifier)
    }
}

} // verus!

verus! {

// ---------------------------------------------------------------------------
// Per-project settings
// ---------------------------------------------------------------------------

/// Whether a project is kept as a bare repository with worktrees: as its
/// own `bare` setting says, else as the workspace's `default_bare` says, else
/// not.
pub open spec fn is_bare_of(w: WorkspaceView, name: Seq<char>) -> bool {
    let fallback = w.default_bare == Some(true);
    if project_map(w).contains_key(name) {
        match project_map(w)[name] {
            EntryView::Metadata(m) => match m.bare {
                Some(b) => b,
                None => fallback,
            },
            EntryView::Url(_) => fallback,
        }
    } else {
        fallback
    }
}

/// The command run in a new worktree of a project: the project's own
/// `worktree_init`, else the workspace's.
pub open spec fn worktree_init_of(w: WorkspaceView, name: Seq<char>) -> Option<Seq<char>> {
    let own = if project_map(w).contains_key(name) {
        match project_map(w)[name] {
            EntryView::Metadata(m) => m.worktree_init,
            EntryView::Url(_) => None,
        }
    } else {
        None
    };
    match own {
        Some(c) => Some(c),
        None => w.worktree_init,
    }
}

/// The record of the `i`-th project the iterator works on: its name, its
/// path under `base`, its URL and tags, and what was found on disk.
pub open spec fn info_of(w: WorkspaceView, base: Seq<char>, i: int, found: (bool, bool)) -> ProjectInfoView {
    ProjectInfoView {
        name: w.projects[i].0,
        path: path_join(base, w.projects[i].0),
        repo_url: entry_url(w.projects[i].1),
        exists: found.0,
        git_dir_exists: found.1,
        tags: entry_tags(w.projects[i].1),
    }
}

/// What converting a project to a bare repository meets first.
#[derive(Debug, Clone, Copy, PartialEq, Eq, Structural)]
pub enum ConversionCheck {
    /// The project is not in the workspace: refused.
    NotListed,
    /// Its directory does not exist: refused.
    NoDirectory,
    /// It is a bare repository already: nothing to do.
    AlreadyBare,
    /// Its directory is not a git repository: refused.
    NotGit,
    /// It can be converted.
    Convert,
}

/// What converting a project meets first: the project must be listed, its
/// directory must exist, a bare project needs nothing, and the directory must
/// hold `.git`.
pub open spec fn conversion_check_of(listed: bool, dir_exists: bool, bare: bool, has_git: bool) -> ConversionCheck {
    if !listed {
        ConversionCheck::NotListed
    } else if !dir_exists {
        ConversionCheck::NoDirectory
    } else if bare {
        ConversionCheck::AlreadyBare
    } else if !has_git {
        ConversionCheck::NotGit
    } else {
        ConversionCheck::Convert
    }
}

impl WorkspaceConfig {
    /// Whether the named project is a bare repository (see [`is_bare_of`]).
    pub fn is_bare_repo(&self, name: &str) -> (r: bool)
        ensures
            r == is_bare_of(self@, name@),
    {
        let fallback = match self.default_bare {
            Some(b) => b,
            None => false,
        };
        match self.get_project(name) {
            Some(ProjectEntry::Metadata(m)) => match m.bare {
                Some(b) => b,
                None => fallback,
            },
            _ => fallback,
        }
    }

    /// Whether the named project may be converted to a bare repository (see
    /// [`conversion_check_of`]), given whether its directory exists and
    /// whether it holds `.git`.
    pub fn conversion_check(&self, name: &str, dir_exists: bool, has_git: bool) -> (r: ConversionCheck)
        ensures
            r == conversion_check_of(
                project_map(self@).contains_key(name@),
                dir_exists,
                is_bare_of(self@, name@),
                has_git,
            ),
    {
        if !self.contains_project(name) {
            ConversionCheck::NotListed
        } else if !dir_exists {
            ConversionCheck::NoDirectory
        } else if self.is_bare_repo(name) {
            ConversionCheck::AlreadyBare
        } else if !has_git {
            ConversionCheck::NotGit
        } else {
            ConversionCheck::Convert
        }
    }

    /// The command run in a new worktree of the named project (see
    /// [`worktree_init_of`]).
    pub fn get_worktree_init(&self, name: &str) -> (r: Option<String>)
        ensures
            match r {
                Some(c) => worktree_init_of(self@, name@) == Some(c@),
                None => worktree_init_of(self@, name@) is None,
            },
    {
        if let Some(ProjectEntry::Metadata(m)) = self.get_project(name) {
            if let Some(c) = &m.worktree_init {
                return Some(c.clone());
            }
        }
        match &self.worktree_init {
            Some(c) => Some(c.clone()),
            None => None,
        }
    }

    /// The environment variables set for the named project's commands.
    pub fn project_env(&self, name: &str) -> (r: Vec<(String, String)>)
        ensures
            pairs_view(r@) == (if project_map(self@).contains_key(name@) {
                entry_env(project_map(self@)[name@])
            } else {
                Seq::empty()
            }),
    {
        match self.get_project(name) {
            Some(ProjectEntry::Metadata(m)) => copy_pairs(&m.env),
            _ => {
                let v: Vec<(String, String)> = Vec::new();
                assert(pairs_view(v@) =~= Seq::<(Seq<char>, Seq<char>)>::empty());
                v
            },
        }
    }

    /// The nested-import settings of the workspace.
    pub fn nested(&self) -> (r: &Option<NestedConfig>)
        ensures
            *r == self@.nested,
    {
        &self.nested
    }

    /// The project records the iterator works on, in workspace order;
    /// `found[i]` tells whether the `i`-th project's directory, and a `.git`
    /// entry in it, exist.
    pub fn project_infos(&self, base_path: &str, found: &Vec<(bool, bool)>) -> (r: Vec<ProjectInfo>)
        requires
            found.len() == self@.projects.len(),
        ensures
            r.len() == self@.projects.len(),
            forall|i: int| 0 <= i < r.len() ==> #[trigger] r@[i]@ == info_of(self@, base_path@, i, found@[i]),
    {
        let mut r: Vec<ProjectInfo> = Vec::new();
        let mut i: usize = 0;
        while i < self.projects.len()
            invariant
                i <= self.projects.len(),
                found.len() == self.projects.len(),
                r.len() == i,
                forall|j: int| 0 <= j < i ==> #[trigger] r@[j]@ == info_of(self@, base_path@, j, found@[j]),
            decreases self.projects.len() - i,
        {
            let (name, entry) = (&self.projects[i].0, &self.projects[i].1);
            let info = ProjectInfo::new(
                name.clone(),
                join_path(base_path, name.as_str()),
                entry.url(),
                entry.tags(),
                found[i].0,
                found[i].1,
            );
            r.push(info);
            i += 1;
        }
        r
    }
}

} // verus!

verus! {

// ---------------------------------------------------------------------------
// Listing projects
// ---------------------------------------------------------------------------

/// How a project's directory stands.
#[derive(Debug, Clone, Copy, PartialEq, Eq, Structural)]
pub enum ProjectStatus {
    /// A link to a directory outside the workspace.
    External,
    /// A git repository.
    Active,
    /// A directory that is no git repository.
    NoGit,
    /// No directory.
    Missing,
}

/// How a project's directory stands: missing when it does not exist; else a
/// link is external; else it is active with a `.git` entry, not a git
/// repository without one.
pub fn project_status(exists: bool, is_symlink: bool, has_git: bool) -> (r: ProjectStatus)
    ensures
        r == (if !exists {
            ProjectStatus::Missing
        } else if is_symlink {
            ProjectStatus::External
        } else if has_git {
            ProjectStatus::Active
        } else {
            ProjectStatus::NoGit
        }),
{
    if !exists {
        ProjectStatus::Missing
    } else if is_symlink {
        ProjectStatus::External
    } else if has_git {
        ProjectStatus::Active
    } else {
        ProjectStatus::NoGit
    }
}

/// What a project URL records.
pub enum UrlKind {
    /// A linked directory without a remote, at this path.
    LocalPath(String),
    /// A linked directory with this remote.
    External(String),
    /// A project without a remote.
    Local,
    /// A project cloned from this remote.
    Remote(String),
}

/// The mathematical value of a [`UrlKind`].
pub enum UrlKindView {
    LocalPath(Seq<char>),
    External(Seq<char>),
    Local,
    Remote(Seq<char>),
}

impl View for UrlKind {
    type V = UrlKindView;

    open spec fn view(&self) -> UrlKindView {
        match self {
            UrlKind::LocalPath(p) => UrlKindView::LocalPath(p@),
            UrlKind::External(u) => UrlKindView::External(u@),
            UrlKind::Local => UrlKindView::Local,
            UrlKind::Remote(u) => UrlKindView::Remote(u@),
        }
    }
}

/// What a project URL records: `external:local:<path>`, `external:<remote>`,
/// `local:...`, or a remote URL.
pub open spec fn url_kind_of(url: Seq<char>) -> UrlKindView {
    if text::is_prefix("external:local:"@, url) {
        UrlKindView::LocalPath(url.skip("external:local:"@.len() as int))
    } else if text::is_prefix("external:"@, url) {
        UrlKindView::External(url.skip("external:"@.len() as int))
    } else if text::is_prefix("local:"@, url) {
        UrlKindView::Local
    } else {
        UrlKindView::Remote(url)
    }
}

/// The text after a prefix of the given length.
fn after_prefix(v: &Vec<char>, n: usize) -> (r: String)
    requires
        n <= v.len(),
    ensures
        r@ == v@.skip(n as int),
{
    let rest = text::chars_slice(v, n, v.len());
    assert(v@.subrange(n as int, v@.len() as int) =~= v@.skip(n as int));
    text::string_of(&rest)
}

/// What a project URL records (see [`url_kind_of`]).
pub fn url_kind(url: &str) -> (r: UrlKind)
    ensures
        r@ == url_kind_of(url@),
{
    let u = text::chars_of(url);
    let ext_local = text::chars_of("external:local:");
    let ext = text::chars_of("external:");
    if text::chars_starts_with(&u, &ext_local) {
        UrlKind::LocalPath(after_prefix(&u, ext_local.len()))
    } else if text::chars_starts_with(&u, &ext) {
        UrlKind::External(after_prefix(&u, ext.len()))
    } else if text::chars_starts_with(&u, &text::chars_of("local:")) {
        UrlKind::Local
    } else {
        UrlKind::Remote(String::from_str(url))
    }
}

/// A project to clone: its name, URL and whether it is kept bare.
pub struct MissingProject {
    pub name: String,
    pub url: String,
    pub bare: bool,
}

/// The projects whose directory is missing (`exists[i]` tells whether the
/// `i`-th project's directory exists), in workspace order, each with its URL
/// and whether it is kept bare.
pub open spec fn missing_of(w: WorkspaceView, exists: Seq<bool>) -> Seq<(Seq<char>, Seq<char>, bool)>
    decreases exists.len(),
{
    if exists.len() == 0 || exists.len() > w.projects.len() {
        Seq::empty()
    } else {
        let i = exists.len() - 1;
        let r = missing_of(w, exists.drop_last());
        if exists[i] {
            r
        } else {
            r.push((w.projects[i].0, entry_url(w.projects[i].1), is_bare_of(w, w.projects[i].0)))
        }
    }
}

/// The views of a list of missing projects.
pub open spec fn missing_view(v: Seq<MissingProject>) -> Seq<(Seq<char>, Seq<char>, bool)> {
    v.map_values(|m: MissingProject| (m.name@, m.url@, m.bare))
}

impl WorkspaceConfig {
    /// The projects whose directory is missing (see [`missing_of`]).
    pub fn missing_projects(&self, exists: &Vec<bool>) -> (r: Vec<MissingProject>)
        requires
            exists.len() == self@.projects.len(),
        ensures
            missing_view(r@) == missing_of(self@, exists@),
    {
        let mut r: Vec<MissingProject> = Vec::new();
        let mut i: usize = 0;
        assert(exists@.take(0) =~= Seq::<bool>::empty());
        assert(missing_view(r@) =~= Seq::<(Seq<char>, Seq<char>, bool)>::empty());
        while i < exists.len()
            invariant
                i <= exists.len(),
                exists.len() == self@.projects.len(),
                missing_view(r@) == missing_of(self@, exists@.take(i as int)),
            decreases exists.len() - i,
        {
            assert(exists@.take(i + 1).drop_last() =~= exists@.take(i as int));
            if !exists[i] {
                let name = self.projects[i].0.clone();
                let m = MissingProject {
                    url: self.projects[i].1.url(),
                    bare: self.is_bare_repo(name.as_str()),
                    name,
                };
                let ghost before = r@;
                r.push(m);
                assert(missing_view(r@) =~= missing_view(before).push((m.name@, m.url@, m.bare)));
            }
            i += 1;
        }
        assert(exists@.take(exists.len() as int) =~= exists@);
        r
    }
}

} // verus!
