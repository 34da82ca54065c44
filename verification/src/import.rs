//! Nested repository imports: the import context that detects cycles and
//! bounds the depth, and the decisions on what a project source is.
use vstd::prelude::*;
use vstd::string::*;

use crate::text;
use crate::workspace;
use crate::workspace::{EntryView, MetadataView, ProjectEntry, ProjectMetadata};

verus! {

/// Settings for importing nested meta repositories.
pub struct NestedConfig {
    pub recursive_import: bool,
    pub max_depth: usize,
    pub flatten: bool,
    pub cycle_detection: bool,
    pub ignore_nested: Vec<String>,
}

impl NestedConfig {
    /// The settings used when a workspace names none: no recursive import,
    /// depth 3, no flattening, cycle detection on, nothing ignored.
    pub fn standard() -> (r: Self)
        ensures
            !r.recursive_import,
            r.max_depth == 3,
            !r.flatten,
            r.cycle_detection,
            r.ignore_nested@.len() == 0,
    {
        NestedConfig {
            recursive_import: false,
            max_depth: 3,
            flatten: false,
            cycle_detection: true,
            ignore_nested: Vec::new(),
        }
    }
}

/// Why entering an import was refused.
#[derive(Debug)]
pub enum ImportError {
    /// The URL is already on the import chain; the cycle runs along `path`,
    /// which ends with the URL again.
    Cycle { path: Vec<String> },
    /// The chain is already `max_depth` long.
    MaxDepthExceeded { max_depth: usize },
}

/// The line of the cycle listing for the `i`-th URL of the path, counting
/// from one; the last is marked as the cycle.
pub open spec fn cycle_line(path: Seq<Seq<char>>, i: int) -> Seq<char> {
    "  "@ + text::decimal((i + 1) as nat) + ". "@ + path[i] + (if i == path.len() - 1 {
        " (CYCLE!)"@
    } else {
        ""@
    })
}

/// What a cycle is reported as: the path joined by arrows, then the path
/// numbered line by line.
pub open spec fn cycle_message(path: Seq<Seq<char>>) -> Seq<char> {
    "Circular dependency detected!\n  "@ + text::joined(path, " → "@) + "\n\nCycle path:\n"@ + text::joined(
        Seq::new(path.len(), |i: int| cycle_line(path, i)),
        "\n"@,
    )
}

/// What reaching the maximum depth is reported as.
pub open spec fn depth_message(max_depth: nat) -> Seq<char> {
    "Maximum recursion depth ("@ + text::decimal(max_depth)
        + ") exceeded. Use --max-depth to increase the limit."@
}

impl ImportError {
    /// The message the refusal is reported with.
    pub fn message(&self) -> (r: String)
        ensures
            r@ == match self {
                ImportError::Cycle { path } => cycle_message(text::strings_view(path@)),
                ImportError::MaxDepthExceeded { max_depth } => depth_message(*max_depth as nat),
            },
    {
        match self {
            ImportError::Cycle { path } => {
                let ghost p = text::strings_view(path@);
                let mut lines: Vec<String> = Vec::new();
                let mut i: usize = 0;
                while i < path.len()
                    invariant
                        i <= path.len(),
                        p == text::strings_view(path@),
                        text::strings_view(lines@) == Seq::new(i as nat, |k: int| cycle_line(p, k)),
                    decreases path.len() - i,
                {
                    let suffix = if i == path.len() - 1 {
                        " (CYCLE!)"
                    } else {
                        ""
                    };
                    let a = text::concat_str("  ", text::decimal_string(i + 1).as_str());
                    let b = text::concat_str(a.as_str(), ". ");
                    let c = text::concat_str(b.as_str(), path[i].as_str());
                    let line = text::concat_str(c.as_str(), suffix);
                    assert(line@ == cycle_line(p, i as int));
                    let ghost before = lines@;
                    lines.push(line);
                    proof {
                        text::lemma_strings_view_push(before, line);
                    }
                    assert(text::strings_view(lines@) =~= Seq::new((i + 1) as nat, |k: int| cycle_line(p, k)));
                    i += 1;
                }
                let head = text::concat_str("Circular dependency detected!\n  ", text::join_strings(path, " → ").as_str());
                let mid = text::concat_str(head.as_str(), "\n\nCycle path:\n");
                text::concat_str(mid.as_str(), text::join_strings(&lines, "\n").as_str())
            },
            ImportError::MaxDepthExceeded { max_depth } => {
                let a = text::concat_str("Maximum recursion depth (", text::decimal_string(*max_depth).as_str());
                text::concat_str(a.as_str(), ") exceeded. Use --max-depth to increase the limit.")
            },
        }
    }
}

/// Tracks the chain of nested imports under way.
pub struct ImportContext {
    visited: Vec<String>,
    import_chain: Vec<String>,
    current_depth: usize,
    max_depth: usize,
    cycle_detection: bool,
    ignore_nested: Vec<String>,
    flatten: bool,
    base_path: String,
}

/// The mathematical value of an [`ImportContext`].
pub struct ImportContextView {
    pub visited: Set<Seq<char>>,
    pub chain: Seq<Seq<char>>,
    pub depth: nat,
    pub max_depth: nat,
    pub cycle_detection: bool,
    pub ignore: Seq<Seq<char>>,
    pub flatten: bool,
    pub base_path: Seq<char>,
}

impl View for ImportContext {
    type V = ImportContextView;

    closed spec fn view(&self) -> ImportContextView {
        ImportContextView {
            visited: text::strings_view(self.visited@).to_set(),
            chain: text::strings_view(self.import_chain@),
            depth: self.current_depth as nat,
            max_depth: self.max_depth as nat,
            cycle_detection: self.cycle_detection,
            ignore: text::strings_view(self.ignore_nested@),
            flatten: self.flatten,
            base_path: self.base_path@,
        }
    }
}

/// A context is consistent when its depth is the length of its chain and
/// does not exceed the maximum.
pub open spec fn ctx_wf(c: ImportContextView) -> bool {
    &&& c.chain.len() == c.depth
    &&& 0 <= c.depth <= c.max_depth
}

/// Importing `url` would close a cycle.
pub open spec fn closes_cycle(c: ImportContextView, url: Seq<char>) -> bool {
    c.cycle_detection && c.chain.contains(url)
}

/// The chain already has the maximum length.
pub open spec fn at_max(c: ImportContextView) -> bool {
    c.depth >= c.max_depth
}

/// Entering `url` is allowed.
pub open spec fn may_enter(c: ImportContextView, url: Seq<char>) -> bool {
    !closes_cycle(c, url) && !at_max(c)
}

/// The context after entering `url`.
pub open spec fn entered(c: ImportContextView, url: Seq<char>) -> ImportContextView {
    ImportContextView {
        visited: c.visited.insert(url),
        chain: c.chain.push(url),
        depth: c.depth + 1,
        ..c
    }
}

/// The context after leaving the innermost import.
pub open spec fn exited(c: ImportContextView) -> ImportContextView {
    ImportContextView {
        chain: if c.chain.len() > 0 {
            c.chain.drop_last()
        } else {
            c.chain
        },
        depth: if c.depth > 0 {
            (c.depth - 1) as nat
        } else {
            c.depth
        },
        ..c
    }
}

impl ImportContext {
    /// A fresh context rooted at `base_path`, with the given settings or the
    /// standard ones.
    pub fn new(base_path: String, nested_config: Option<&NestedConfig>) -> (r: Self)
        ensures
            r@.chain.len() == 0,
            r@.depth == 0,
            r@.visited.len() == 0,
            r@.base_path == base_path@,
            ctx_wf(r@),
            match nested_config {
                Some(cfg) => {
                    &&& r@.max_depth == cfg.max_depth
                    &&& r@.cycle_detection == cfg.cycle_detection
                    &&& r@.ignore == text::strings_view(cfg.ignore_nested@)
                    &&& r@.flatten == cfg.flatten
                },
                None => {
                    &&& r@.max_depth == 3
                    &&& r@.cycle_detection
                    &&& r@.ignore.len() == 0
                    &&& !r@.flatten
                },
            },
    {
        let (max_depth, cycle_detection, ignore_nested, flatten) = match nested_config {
            Some(cfg) => (
                cfg.max_depth,
                cfg.cycle_detection,
                text::copy_strings(&cfg.ignore_nested),
                cfg.flatten,
            ),
            None => {
                let std_cfg = NestedConfig::standard();
                (std_cfg.max_depth, std_cfg.cycle_detection, Vec::new(), std_cfg.flatten)
            },
        };
        let r = ImportContext {
            visited: Vec::new(),
            import_chain: Vec::new(),
            current_depth: 0,
            max_depth,
            cycle_detection,
            ignore_nested,
            flatten,
            base_path,
        };
        assert(r@.visited =~= Set::<Seq<char>>::empty());
        r
    }

    /// The base path of all imports.
    pub fn base_path(&self) -> (r: &String)
        ensures
            r@ == self@.base_path,
    {
        &self.base_path
    }

    /// The maximum depth.
    pub fn max_depth(&self) -> (r: usize)
        ensures
            r == self@.max_depth,
    {
        self.max_depth
    }

    /// When `url` is already on the import chain (and cycle detection is on),
    /// the chain followed by `url` again; otherwise `None`.
    pub fn would_create_cycle(&self, url: &str) -> (r: Option<Vec<String>>)
        ensures
            r is Some <==> closes_cycle(self@, url@),
            r matches Some(path) ==> text::strings_view(path@) == self@.chain.push(url@),
    {
        if !self.cycle_detection {
            return None;
        }
        let u = String::from_str(url);
        if text::strings_contain(&self.import_chain, &u) {
            let mut path = text::copy_strings(&self.import_chain);
            let ghost before = path@;
            path.push(u);
            proof {
                text::lemma_strings_view_push(before, u);
            }
            return Some(path);
        }
        None
    }

    /// Whether the chain has reached the maximum depth.
    pub fn at_max_depth(&self) -> (r: bool)
        ensures
            r == at_max(self@),
    {
        self.current_depth >= self.max_depth
    }

    /// Enters the import of `url`: refused when it closes a cycle (checked
    /// first) or when the maximum depth is reached; otherwise `url` joins the
    /// chain and the visited set and the depth grows by one.
    pub fn enter_import(&mut self, url: &str) -> (r: Result<(), ImportError>)
        ensures
            r is Ok <==> may_enter(old(self)@, url@),
            r is Ok ==> final(self)@ == entered(old(self)@, url@),
            r is Err ==> final(self)@ == old(self)@,
            r matches Err(ImportError::Cycle { path }) ==> closes_cycle(old(self)@, url@)
                && text::strings_view(path@) == old(self)@.chain.push(url@),
            r matches Err(ImportError::MaxDepthExceeded { max_depth }) ==> !closes_cycle(
                old(self)@,
                url@,
            ) && at_max(old(self)@) && max_depth == old(self)@.max_depth,
    {
        if let Some(cycle_path) = self.would_create_cycle(url) {
            return Err(ImportError::Cycle { path: cycle_path });
        }
        if self.at_max_depth() {
            return Err(ImportError::MaxDepthExceeded { max_depth: self.max_depth });
        }
        let ghost c = self@;
        let u = String::from_str(url);
        let ghost chain_before = self.import_chain@;
        let ghost visited_before = self.visited@;
        self.import_chain.push(u.clone());
        self.current_depth += 1;
        self.visited.push(u);
        proof {
            text::lemma_strings_view_push(chain_before, u);
            text::lemma_strings_view_push(visited_before, u);
            text::strings_view(visited_before).lemma_push_to_set_commute(url@);
        }
        Ok(())
    }

    /// Leaves the innermost import.
    pub fn exit_import(&mut self)
        ensures
            final(self)@ == exited(old(self)@),
    {
        let ghost c = self@;
        let ghost chain_before = self.import_chain@;
        self.import_chain.pop();
        if self.current_depth > 0 {
            self.current_depth -= 1;
        }
        proof {
            if chain_before.len() > 0 {
                assert(text::strings_view(self.import_chain@) =~= c.chain.drop_last());
            } else {
                assert(text::strings_view(self.import_chain@) =~= c.chain);
            }
        }
    }

    /// Whether nested imports skip the project of this name.
    pub fn should_ignore(&self, project_name: &str) -> (r: bool)
        ensures
            r == self@.ignore.contains(project_name@),
    {
        let name = String::from_str(project_name);
        text::strings_contain(&self.ignore_nested, &name)
    }

    /// Whether nested projects are imported at the workspace root.
    pub fn should_flatten(&self) -> (r: bool)
        ensures
            r == self@.flatten,
    {
        self.flatten
    }
}

/// Every operation keeps a consistent context consistent.
pub proof fn law_context_stays_consistent(c: ImportContextView, url: Seq<char>)
    requires
        ctx_wf(c),
    ensures
        may_enter(c, url) ==> ctx_wf(entered(c, url)),
        ctx_wf(exited(c)),
{
}

/// Entering an import and leaving it again restores the chain and the depth.
pub proof fn law_enter_then_exit_restores(c: ImportContextView, url: Seq<char>)
    requires
        may_enter(c, url),
    ensures
        exited(entered(c, url)).chain == c.chain,
        exited(entered(c, url)).depth == c.depth,
        exited(entered(c, url)).visited.contains(url),
{
    assert(c.chain.push(url).drop_last() =~= c.chain);
}

/// Once `url` has been entered, entering it again is refused as a cycle
/// (when cycle detection is on).
pub proof fn law_reentry_is_cycle(c: ImportContextView, url: Seq<char>)
    requires
        may_enter(c, url),
        c.cycle_detection,
    ensures
        closes_cycle(entered(c, url), url),
        !may_enter(entered(c, url), url),
{
    assert(entered(c, url).chain[c.chain.len() as int] == url);
}

/// A consistent context never holds a chain longer than its maximum depth,
/// so a chain of imports always ends.
pub proof fn law_depth_bounded(c: ImportContextView, url: Seq<char>)
    requires
        ctx_wf(c),
        may_enter(c, url),
    ensures
        entered(c, url).chain.len() <= c.max_depth,
{
}

// ---------------------------------------------------------------------------
// Project sources
// ---------------------------------------------------------------------------

/// A source is a remote git URL when it starts with `http`, `git@` or `ssh://`;
/// anything else is taken as a path on disk.
pub open spec fn is_remote_source(src: Seq<char>) -> bool {
    text::is_prefix("http"@, src) || text::is_prefix("git@"@, src) || text::is_prefix(
        "ssh://"@,
        src,
    )
}

/// Whether a project source is a remote URL rather than a local path.
pub fn source_is_remote(src: &str) -> (r: bool)
    ensures
        r == is_remote_source(src@),
{
    let s = text::chars_of(src);
    let http = text::chars_of("http");
    let git = text::chars_of("git@");
    let ssh = text::chars_of("ssh://");
    text::chars_starts_with(&s, &http) || text::chars_starts_with(&s, &git)
        || text::chars_starts_with(&s, &ssh)
}

/// Whether the URL of a project must not be cloned because it marks a local
/// project (`local:`) or a linked external directory (`external:`).
pub open spec fn is_local_marker(url: Seq<char>) -> bool {
    text::is_prefix("local:"@, url) || text::is_prefix("external:"@, url)
}

/// Whether a project URL is one of the local markers.
pub fn url_is_local_marker(url: &str) -> (r: bool)
    ensures
        r == is_local_marker(url@),
{
    let u = text::chars_of(url);
    let local = text::chars_of("local:");
    let external = text::chars_of("external:");
    text::chars_starts_with(&u, &local) || text::chars_starts_with(&u, &external)
}

/// What a nested import does with a project URL.
#[derive(Debug, PartialEq, Eq)]
pub enum NestedAction {
    /// Clone from this URL.
    Clone(String),
    /// A local project linked from outside the workspace: skipped.
    SkipLocalExternal,
    /// A local project without a remote: skipped.
    SkipLocal,
}

/// The action for a nested project URL: `external:local:` is skipped,
/// `external:` is cloned from the URL after the prefix, `local:` is skipped,
/// and any other URL is cloned as it is.
pub open spec fn nested_action_spec(url: Seq<char>) -> NestedActionView {
    if text::is_prefix("external:local:"@, url) {
        NestedActionView::SkipLocalExternal
    } else if text::is_prefix("external:"@, url) {
        NestedActionView::Clone(url.subrange(9, url.len() as int))
    } else if text::is_prefix("local:"@, url) {
        NestedActionView::SkipLocal
    } else {
        NestedActionView::Clone(url)
    }
}

/// The mathematical value of a [`NestedAction`].
pub enum NestedActionView {
    Clone(Seq<char>),
    SkipLocalExternal,
    SkipLocal,
}

impl View for NestedAction {
    type V = NestedActionView;

    open spec fn view(&self) -> NestedActionView {
        match self {
            NestedAction::Clone(u) => NestedActionView::Clone(u@),
            NestedAction::SkipLocalExternal => NestedActionView::SkipLocalExternal,
            NestedAction::SkipLocal => NestedActionView::SkipLocal,
        }
    }
}

/// Decides what a nested import does with a project URL.
pub fn nested_action(url: &str) -> (r: NestedAction)
    ensures
        r@ == nested_action_spec(url@),
{
    let u = text::chars_of(url);
    let ext_local = text::chars_of("external:local:");
    let ext = text::chars_of("external:");
    let local = text::chars_of("local:");
    proof {
        reveal_strlit("external:");
    }
    if text::chars_starts_with(&u, &ext_local) {
        NestedAction::SkipLocalExternal
    } else if text::chars_starts_with(&u, &ext) {
        let rest = text::chars_slice(&u, 9, u.len());
        NestedAction::Clone(text::string_of(&rest))
    } else if text::chars_starts_with(&u, &local) {
        NestedAction::SkipLocal
    } else {
        NestedAction::Clone(String::from_str(url))
    }
}

/// Whether `meta project add` imports recursively: never with `--no-recursive`;
/// always with `--recursive`, `--flatten` or `--max-depth`; otherwise as the
/// workspace's nested settings say (off when there are none).
pub fn use_recursive_import(
    no_recursive: bool,
    recursive: bool,
    flatten: bool,
    max_depth_given: bool,
    configured: Option<bool>,
) -> (r: bool)
    ensures
        r == (!no_recursive && (recursive || flatten || max_depth_given || configured
            == Some(true))),
{
    if no_recursive {
        false
    } else if recursive || flatten || max_depth_given {
        true
    } else {
        match configured {
            Some(b) => b,
            None => false,
        }
    }
}

/// Whether a project is added as a bare repository: with `--bare`, or as the
/// workspace's `default_bare` says (bare when it says nothing).
pub fn use_bare_repository(bare_flag: bool, default_bare: Option<bool>) -> (r: bool)
    ensures
        r == (bare_flag || default_bare != Some(false)),
{
    if bare_flag {
        true
    } else {
        match default_bare {
            Some(b) => b,
            None => true,
        }
    }
}

/// The depth for nested updates below a project: `None` when the remaining
/// depth (3 when none is given) is spent, otherwise one less.
pub fn nested_update_depth(depth: Option<usize>) -> (r: Option<usize>)
    ensures
        ({
            let d: int = match depth {
                Some(d) => d as int,
                None => 3,
            };
            if d > 0 {
                r == Some((d - 1) as usize)
            } else {
                r is None
            }
        }),
{
    let d = match depth {
        Some(d) => d,
        None => 3,
    };
    if d > 0 {
        Some(d - 1)
    } else {
        None
    }
}

/// The URL recorded for a project whose directory is in the workspace: its
/// remote's URL, or `local:<project>` when it has none.
pub open spec fn local_url_of(project: Seq<char>, remote: Option<Seq<char>>) -> Seq<char> {
    match remote {
        Some(u) => u,
        None => "local:"@ + project,
    }
}

/// The URL recorded for a directory outside the workspace that the project
/// links to: `external:<remote>`, or `external:local:<path>` when it has no
/// remote.
pub open spec fn external_url_of(remote: Option<Seq<char>>, path: Seq<char>) -> Seq<char> {
    match remote {
        Some(u) => "external:"@ + u,
        None => "external:local:"@ + path,
    }
}

/// The URL recorded for a project found in the workspace (see
/// [`local_url_of`]).
pub fn local_project_url(project: &str, remote: Option<&str>) -> (r: String)
    ensures
        r@ == local_url_of(
            project@,
            match remote {
                Some(u) => Some(u@),
                None => None,
            },
        ),
{
    match remote {
        Some(u) => String::from_str(u),
        None => text::concat_str("local:", project),
    }
}

/// The URL recorded for a linked external directory (see
/// [`external_url_of`]).
pub fn external_project_url(remote: Option<&str>, path: &str) -> (r: String)
    ensures
        r@ == external_url_of(
            match remote {
                Some(u) => Some(u@),
                None => None,
            },
            path@,
        ),
{
    match remote {
        Some(u) => text::concat_str("external:", u),
        None => text::concat_str("external:local:", path),
    }
}

/// Whether an added project is cloned.
#[derive(Debug, Clone, Copy, PartialEq, Eq, Structural)]
pub enum CloneStep {
    /// Nothing to clone: the directory is there, or is a link.
    Skip,
    /// Clone the URL into the project directory.
    Clone,
    /// The URL marks a local project, which cannot be cloned.
    RefuseLocalUrl,
}

/// Whether an added project is cloned: only when it is not a link and its
/// directory is missing, and then only from a URL that is no local marker.
pub open spec fn clone_step_of(is_external: bool, dir_exists: bool, url: Seq<char>) -> CloneStep {
    if !is_external && !dir_exists {
        if is_local_marker(url) {
            CloneStep::RefuseLocalUrl
        } else {
            CloneStep::Clone
        }
    } else {
        CloneStep::Skip
    }
}

/// Decides whether an added project is cloned (see [`clone_step_of`]).
pub fn clone_step(is_external: bool, dir_exists: bool, url: &str) -> (r: CloneStep)
    ensures
        r == clone_step_of(is_external, dir_exists, url@),
{
    if !is_external && !dir_exists {
        if url_is_local_marker(url) {
            CloneStep::RefuseLocalUrl
        } else {
            CloneStep::Clone
        }
    } else {
        CloneStep::Skip
    }
}

/// The entry recorded for an added project: the full form with `bare` set
/// for a bare repository, the URL form otherwise.
pub open spec fn imported_entry_of(url: Seq<char>, bare: bool) -> EntryView {
    if bare {
        EntryView::Metadata(
            MetadataView {
                url,
                aliases: Seq::empty(),
                scripts: Seq::empty(),
                env: Seq::empty(),
                worktree_init: None,
                bare: Some(true),
                tags: Seq::empty(),
            },
        )
    } else {
        EntryView::Url(url)
    }
}

/// The entry recorded for an added project (see [`imported_entry_of`]).
pub fn imported_entry(url: String, bare: bool) -> (r: ProjectEntry)
    ensures
        r@ == imported_entry_of(url@, bare),
{
    if bare {
        let m = ProjectMetadata {
            url,
            aliases: Vec::new(),
            scripts: Vec::new(),
            env: Vec::new(),
            worktree_init: None,
            bare: Some(true),
            tags: Vec::new(),
        };
        assert(text::strings_view(m.aliases@) =~= Seq::<Seq<char>>::empty());
        assert(workspace::pairs_view(m.scripts@) =~= Seq::<(Seq<char>, Seq<char>)>::empty());
        assert(workspace::pairs_view(m.env@) =~= Seq::<(Seq<char>, Seq<char>)>::empty());
        ProjectEntry::Metadata(m)
    } else {
        ProjectEntry::Url(url)
    }
}


// ---------------------------------------------------------------------------
// One nested import
// ---------------------------------------------------------------------------

/// What a nested import does with one project of a nested workspace.
pub enum NestedStep {
    /// Entering it was refused; nothing changed.
    Refused(ImportError),
    /// Its directory is there already: skipped (entered and left again).
    SkipExisting,
    /// A local project linked from outside: skipped (entered and left again).
    SkipLocalExternal,
    /// A local project without a remote: skipped (entered and left again).
    SkipLocal,
    /// Clone it from this URL; the import stays entered until it is done.
    Clone(String),
}

impl ImportContext {
    /// Starts the nested import of a project from `url` whose directory exists
    /// or not: first the import is entered (refused on a cycle or at the
    /// maximum depth, see [`ImportContext::enter_import`]); then an existing
    /// directory is skipped, and otherwise the URL decides (see
    /// [`nested_action_spec`]). Every skip leaves the import again; a clone
    /// stays inside it.
    pub fn begin_nested(&mut self, url: &str, target_exists: bool) -> (r: NestedStep)
        ensures
            r is Refused <==> !may_enter(old(self)@, url@),
            r matches NestedStep::Refused(e) ==> final(self)@ == old(self)@ && (match e {
                ImportError::Cycle { path } => closes_cycle(old(self)@, url@) && text::strings_view(path@)
                    == old(self)@.chain.push(url@),
                ImportError::MaxDepthExceeded { max_depth } => !closes_cycle(old(self)@, url@) && at_max(
                    old(self)@,
                ) && max_depth == old(self)@.max_depth,
            }),
            r is SkipExisting <==> may_enter(old(self)@, url@) && target_exists,
            r is SkipLocalExternal <==> may_enter(old(self)@, url@) && !target_exists && nested_action_spec(url@)
                is SkipLocalExternal,
            r is SkipLocal <==> may_enter(old(self)@, url@) && !target_exists && nested_action_spec(url@)
                is SkipLocal,
            r matches NestedStep::Clone(u) ==> may_enter(old(self)@, url@) && !target_exists
                && nested_action_spec(url@) == NestedActionView::Clone(u@),
            r is Clone ==> final(self)@ == entered(old(self)@, url@),
            (r is SkipExisting || r is SkipLocalExternal || r is SkipLocal) ==> final(self)@ == exited(
                entered(old(self)@, url@),
            ),
    {
        match self.enter_import(url) {
            Err(e) => NestedStep::Refused(e),
            Ok(()) => {
                if target_exists {
                    self.exit_import();
                    return NestedStep::SkipExisting;
                }
                match nested_action(url) {
                    NestedAction::SkipLocalExternal => {
                        self.exit_import();
                        NestedStep::SkipLocalExternal
                    },
                    NestedAction::SkipLocal => {
                        self.exit_import();
                        NestedStep::SkipLocal
                    },
                    NestedAction::Clone(u) => NestedStep::Clone(u),
                }
            },
        }
    }

    /// Whether a freshly cloned nested project is searched for nested
    /// projects in turn: when imports are recursive and the maximum depth is
    /// not reached.
    pub fn should_descend(&self, recursive: bool) -> (r: bool)
        ensures
            r == (recursive && !at_max(self@)),
    {
        recursive && !self.at_max_depth()
    }
}

/// The projects of a nested workspace to import, in order: those not
/// ignored, each with its URL.
pub open spec fn nested_queue_of(c: ImportContextView, ps: Seq<(Seq<char>, EntryView)>) -> Seq<(Seq<char>, Seq<char>)> {
    ps.filter(|p: (Seq<char>, EntryView)| !c.ignore.contains(p.0)).map_values(
        |p: (Seq<char>, EntryView)| (p.0, workspace::entry_url(p.1)),
    )
}

impl ImportContext {
    /// The projects of a nested workspace to import (see
    /// [`nested_queue_of`]).
    pub fn nested_queue(&self, nested: &workspace::WorkspaceConfig) -> (r: Vec<(String, String)>)
        ensures
            r@.map_values(|p: (String, String)| (p.0@, p.1@)) == nested_queue_of(self@, nested@.projects),
    {
        let ghost ps = nested@.projects;
        let ghost keep = |p: (Seq<char>, EntryView)| !self@.ignore.contains(p.0);
        let ghost url_of = |p: (Seq<char>, EntryView)| (p.0, workspace::entry_url(p.1));
        let mut r: Vec<(String, String)> = Vec::new();
        let mut i: usize = 0;
        assert(ps.take(0).filter(keep).map_values(url_of) =~= Seq::<(Seq<char>, Seq<char>)>::empty());
        assert(r@.map_values(|p: (String, String)| (p.0@, p.1@)) =~= Seq::<(Seq<char>, Seq<char>)>::empty());
        while i < nested.project_count()
            invariant
                i <= nested@.projects.len(),
                ps == nested@.projects,
                keep == (|p: (Seq<char>, EntryView)| !self@.ignore.contains(p.0)),
                url_of == (|p: (Seq<char>, EntryView)| (p.0, workspace::entry_url(p.1))),
                r@.map_values(|p: (String, String)| (p.0@, p.1@)) == ps.take(i as int).filter(keep).map_values(
                    url_of,
                ),
            decreases nested@.projects.len() - i,
        {
            let (name, entry) = nested.project_at(i);
            assert(ps.take(i + 1) =~= ps.take(i as int).push(ps[i as int]));
            proof {
                ps.take(i as int).lemma_filter_push(ps[i as int], keep);
            }
            if !self.should_ignore(name.as_str()) {
                let ghost before = r@;
                r.push((name.clone(), entry.url()));
                assert(r@.map_values(|p: (String, String)| (p.0@, p.1@)) =~= before.map_values(
                    |p: (String, String)| (p.0@, p.1@),
                ).push(url_of(ps[i as int])));
                assert(ps.take(i as int).filter(keep).push(ps[i as int]).map_values(url_of) =~= ps.take(
                    i as int,
                ).filter(keep).map_values(url_of).push(url_of(ps[i as int])));
            }
            i += 1;
        }
        assert(ps.take(ps.len() as int) =~= ps);
        r
    }
}


// ---------------------------------------------------------------------------
// Adding a project
// ---------------------------------------------------------------------------

/// What adding a project does, decided from what is on disk.
pub enum ImportPlan {
    /// The project is in the workspace already: refused.
    AlreadyListed,
    /// The source is a git repository outside the workspace: link it in,
    /// once its remote is read (see [`link_step`]).
    LinkExternal,
    /// The source is outside the workspace, but the project's directory
    /// exists already: refused (decided by [`link_step`]).
    TargetExists,
    /// The source is a git repository inside the workspace: take it as it is.
    UseSourceRepository,
    /// The source exists but is not a git repository: refused.
    SourceNotGit,
    /// Clone from this URL (a remote URL, or a path that does not exist).
    CloneFrom(String),
    /// No source, and the project's directory is a git repository: take it.
    UseLocalRepository,
    /// No source, and the project's directory is not a git repository: make
    /// it one (when allowed).
    InitLocal,
    /// No source and no directory: refused.
    NothingToImport,
}

/// The mathematical value of an [`ImportPlan`].
pub enum ImportPlanView {
    AlreadyListed,
    LinkExternal,
    TargetExists,
    UseSourceRepository,
    SourceNotGit,
    CloneFrom(Seq<char>),
    UseLocalRepository,
    InitLocal,
    NothingToImport,
}

impl View for ImportPlan {
    type V = ImportPlanView;

    open spec fn view(&self) -> ImportPlanView {
        match self {
            ImportPlan::AlreadyListed => ImportPlanView::AlreadyListed,
            ImportPlan::LinkExternal => ImportPlanView::LinkExternal,
            ImportPlan::TargetExists => ImportPlanView::TargetExists,
            ImportPlan::UseSourceRepository => ImportPlanView::UseSourceRepository,
            ImportPlan::SourceNotGit => ImportPlanView::SourceNotGit,
            ImportPlan::CloneFrom(u) => ImportPlanView::CloneFrom(u@),
            ImportPlan::UseLocalRepository => ImportPlanView::UseLocalRepository,
            ImportPlan::InitLocal => ImportPlanView::InitLocal,
            ImportPlan::NothingToImport => ImportPlanView::NothingToImport,
        }
    }
}

/// What adding a project does: refused when it is listed already; with a
/// remote source, clone it; with a path source that is a git repository,
/// link it when it lies outside the workspace and take it as it is
/// otherwise; with a path source
/// that exists but is no git repository, refused; with a path that does not
/// exist, clone from it; without a source, take the project's directory when
/// it is a git repository, make it one when it is not, and refuse when there
/// is none.
pub open spec fn import_plan_of(
    listed: bool,
    source: Option<Seq<char>>,
    src_external: bool,
    src_exists: bool,
    src_has_git: bool,
    local_exists: bool,
    local_has_git: bool,
) -> ImportPlanView {
    if listed {
        ImportPlanView::AlreadyListed
    } else {
        match source {
            Some(src) => if is_remote_source(src) {
                ImportPlanView::CloneFrom(src)
            } else if src_exists && src_has_git {
                if src_external {
                    ImportPlanView::LinkExternal
                } else {
                    ImportPlanView::UseSourceRepository
                }
            } else if src_exists {
                ImportPlanView::SourceNotGit
            } else {
                ImportPlanView::CloneFrom(src)
            },
            None => if local_exists {
                if local_has_git {
                    ImportPlanView::UseLocalRepository
                } else {
                    ImportPlanView::InitLocal
                }
            } else {
                ImportPlanView::NothingToImport
            },
        }
    }
}

/// Decides what adding a project does (see [`import_plan_of`]).
pub fn plan_import(
    listed: bool,
    source: Option<&str>,
    src_external: bool,
    src_exists: bool,
    src_has_git: bool,
    local_exists: bool,
    local_has_git: bool,
) -> (r: ImportPlan)
    ensures
        r@ == import_plan_of(
            listed,
            match source {
                Some(s) => Some(s@),
                None => None,
            },
            src_external,
            src_exists,
            src_has_git,
            local_exists,
            local_has_git,
        ),
{
    if listed {
        return ImportPlan::AlreadyListed;
    }
    match source {
        Some(src) => {
            if source_is_remote(src) {
                ImportPlan::CloneFrom(String::from_str(src))
            } else if src_exists && src_has_git {
                if src_external {
                    ImportPlan::LinkExternal
                } else {
                    ImportPlan::UseSourceRepository
                }
            } else if src_exists {
                ImportPlan::SourceNotGit
            } else {
                ImportPlan::CloneFrom(String::from_str(src))
            }
        },
        None => {
            if local_exists {
                if local_has_git {
                    ImportPlan::UseLocalRepository
                } else {
                    ImportPlan::InitLocal
                }
            } else {
                ImportPlan::NothingToImport
            }
        },
    }
}

/// The link step, once the remote of an outside repository has been read:
/// refused when the project's directory exists, otherwise the link is made.
pub fn link_step(target_exists: bool) -> (r: ImportPlan)
    ensures
        r@ == (if target_exists {
            ImportPlanView::TargetExists
        } else {
            ImportPlanView::LinkExternal
        }),
{
    if target_exists {
        ImportPlan::TargetExists
    } else {
        ImportPlan::LinkExternal
    }
}

/// Whether an added project goes into `.gitignore`: unless it is a local
/// project without a remote (`local:`).
pub fn records_in_gitignore(url: &str) -> (r: bool)
    ensures
        r == !text::is_prefix("local:"@, url@),
{
    let u = text::chars_of(url);
    let local = text::chars_of("local:");
    !text::chars_starts_with(&u, &local)
}

} // verus!
