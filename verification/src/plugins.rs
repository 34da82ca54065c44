//! The built-in plugins' identities, plugin templates, how a plugin spec is
//! located, and how an external plugin's protocol replies are read.
use vstd::prelude::*;
use vstd::string::*;

use crate::text;

verus! {

// ---------------------------------------------------------------------------
// Built-in plugins
// ---------------------------------------------------------------------------

/// The author the built-in plugins name.
pub open spec fn builtin_author() -> Seq<char> {
    "Metarepo Contributors"@
}

/// The plugin for `.meta` configuration files.
pub struct ConfigPlugin;

/// The plugin that runs commands across projects.
pub struct ExecPlugin;

/// The plugin that manages plugins.
pub struct PluginManagerPlugin;

/// The plugin that manages the workspace projects.
pub struct ProjectPlugin;

/// The plugin that manages git worktrees across projects.
pub struct WorktreePlugin;

impl ConfigPlugin {
    /// The plugin.
    pub fn new() -> (r: Self) {
        ConfigPlugin
    }

    /// Its command name.
    pub fn name(&self) -> (r: &'static str)
        ensures
            r@ == "config"@,
    {
        "config"
    }

    /// What it does.
    pub fn description(&self) -> (r: &'static str)
        ensures
            r@ == "Manage .meta configuration files"@,
    {
        "Manage .meta configuration files"
    }

    /// Who wrote it.
    pub fn author(&self) -> (r: &'static str)
        ensures
            r@ == builtin_author(),
    {
        "Metarepo Contributors"
    }

    /// Whether it is only offered with `--experimental`.
    pub fn is_experimental(&self) -> (r: bool)
        ensures
            !r,
    {
        false
    }
}

impl ExecPlugin {
    /// The plugin.
    pub fn new() -> (r: Self) {
        ExecPlugin
    }

    /// Its command name.
    pub fn name(&self) -> (r: &'static str)
        ensures
            r@ == "exec"@,
    {
        "exec"
    }

    /// What it does.
    pub fn description(&self) -> (r: &'static str)
        ensures
            r@ == "Execute commands across multiple repositories"@,
    {
        "Execute commands across multiple repositories"
    }

    /// Who wrote it.
    pub fn author(&self) -> (r: &'static str)
        ensures
            r@ == builtin_author(),
    {
        "Metarepo Contributors"
    }

    /// Whether it is only offered with `--experimental`.
    pub fn is_experimental(&self) -> (r: bool)
        ensures
            !r,
    {
        false
    }
}

impl PluginManagerPlugin {
    /// The plugin.
    pub fn new() -> (r: Self) {
        PluginManagerPlugin
    }

    /// Its command name.
    pub fn name(&self) -> (r: &'static str)
        ensures
            r@ == "plugin"@,
    {
        "plugin"
    }

    /// What it does.
    pub fn description(&self) -> (r: &'static str)
        ensures
            r@ == "Manage metarepo plugins"@,
    {
        "Manage metarepo plugins"
    }

    /// Who wrote it.
    pub fn author(&self) -> (r: &'static str)
        ensures
            r@ == builtin_author(),
    {
        "Metarepo Contributors"
    }

    /// Whether it is only offered with `--experimental`: it is.
    pub fn is_experimental(&self) -> (r: bool)
        ensures
            r,
    {
        true
    }
}

impl ProjectPlugin {
    /// The plugin.
    pub fn new() -> (r: Self) {
        ProjectPlugin
    }

    /// Its command name.
    pub fn name(&self) -> (r: &'static str)
        ensures
            r@ == "project"@,
    {
        "project"
    }

    /// What it does.
    pub fn description(&self) -> (r: &'static str)
        ensures
            r@ == "Project management operations"@,
    {
        "Project management operations"
    }

    /// Who wrote it.
    pub fn author(&self) -> (r: &'static str)
        ensures
            r@ == builtin_author(),
    {
        "Metarepo Contributors"
    }

    /// Whether it is only offered with `--experimental`.
    pub fn is_experimental(&self) -> (r: bool)
        ensures
            !r,
    {
        false
    }
}

impl WorktreePlugin {
    /// The plugin.
    pub fn new() -> (r: Self) {
        WorktreePlugin
    }

    /// Its command name.
    pub fn name(&self) -> (r: &'static str)
        ensures
            r@ == "worktree"@,
    {
        "worktree"
    }

    /// What it does.
    pub fn description(&self) -> (r: &'static str)
        ensures
            r@ == "Git worktree management across workspace projects"@,
    {
        "Git worktree management across workspace projects"
    }

    /// Who wrote it.
    pub fn author(&self) -> (r: &'static str)
        ensures
            r@ == builtin_author(),
    {
        "Metarepo Contributors"
    }

    /// Whether it is only offered with `--experimental`.
    pub fn is_experimental(&self) -> (r: bool)
        ensures
            !r,
    {
        false
    }
}

/// Whether the command line asks for experimental features (`--experimental`
/// or `-x` among the arguments).
pub open spec fn asks_experimental(args: Seq<Seq<char>>) -> bool {
    args.contains("--experimental"@) || args.contains("-x"@)
}

/// Whether the command line asks for experimental features.
pub fn wants_experimental(args: &Vec<String>) -> (r: bool)
    ensures
        r == asks_experimental(text::strings_view(args@)),
{
    let long = String::from_str("--experimental");
    let short = String::from_str("-x");
    text::strings_contain(args, &long) || text::strings_contain(args, &short)
}

// ---------------------------------------------------------------------------
// Plugin templates
// ---------------------------------------------------------------------------

/// The kinds of plugin a new plugin can be scaffolded as.
#[derive(Debug, Clone, Copy, PartialEq, Eq, Structural)]
pub enum PluginTemplate {
    Rust,
    Python,
    JavaScript,
    Binary,
}

/// `s` spells the ASCII word `w` in any case (`w` in lower case).
pub open spec fn spells(s: Seq<char>, w: Seq<char>) -> bool {
    s.len() == w.len() && forall|i: int|
        0 <= i < s.len() ==> (s[i] == w[i] || (#[trigger] s[i] as u32) + 32 == w[i] as u32 && 'a' <= w[i]
            <= 'z')
}

/// The template a name chooses, compared without case: `rust`/`rs`,
/// `python`/`py`, `javascript`/`js`/`node`, `binary`/`bin`/`shell`/`bash`.
/// (Lower-casing maps no character but the ASCII capitals and the Kelvin
/// sign onto an ASCII letter, and none of these names holds a `k`, so
/// comparing without ASCII case is comparing the lower-cased name.)
pub open spec fn template_named(s: Seq<char>) -> Option<PluginTemplate> {
    if spells(s, "rust"@) || spells(s, "rs"@) {
        Some(PluginTemplate::Rust)
    } else if spells(s, "python"@) || spells(s, "py"@) {
        Some(PluginTemplate::Python)
    } else if spells(s, "javascript"@) || spells(s, "js"@) || spells(s, "node"@) {
        Some(PluginTemplate::JavaScript)
    } else if spells(s, "binary"@) || spells(s, "bin"@) || spells(s, "shell"@) || spells(s, "bash"@) {
        Some(PluginTemplate::Binary)
    } else {
        None
    }
}

/// Whether `s` spells the lower-case ASCII word `w` in any case.
fn spells_word(s: &Vec<char>, w: &str) -> (r: bool)
    ensures
        r == spells(s@, w@),
{
    let wv = text::chars_of(w);
    if s.len() != wv.len() {
        return false;
    }
    let mut i: usize = 0;
    while i < s.len()
        invariant
            i <= s.len(),
            s.len() == wv.len(),
            wv@ == w@,
            forall|j: int|
                0 <= j < i ==> (s@[j] == wv@[j] || (#[trigger] s@[j] as u32) + 32 == wv@[j] as u32 && 'a'
                    <= wv@[j] <= 'z'),
        decreases s.len() - i,
    {
        let a = s[i];
        let b = wv[i];
        let same = a == b || ('a' <= b && b <= 'z' && (a as u32) == (b as u32) - 32);
        if !same {
            return false;
        }
        i += 1;
    }
    true
}

impl PluginTemplate {
    /// The template a name chooses (see [`template_named`]).
    pub fn from_str(s: &str) -> (r: Option<Self>)
        ensures
            r == template_named(s@),
    {
        let v = text::chars_of(s);
        if spells_word(&v, "rust") || spells_word(&v, "rs") {
            Some(PluginTemplate::Rust)
        } else if spells_word(&v, "python") || spells_word(&v, "py") {
            Some(PluginTemplate::Python)
        } else if spells_word(&v, "javascript") || spells_word(&v, "js") || spells_word(&v, "node") {
            Some(PluginTemplate::JavaScript)
        } else if spells_word(&v, "binary") || spells_word(&v, "bin") || spells_word(&v, "shell")
            || spells_word(&v, "bash") {
            Some(PluginTemplate::Binary)
        } else {
            None
        }
    }
}

// ---------------------------------------------------------------------------
// Locating plugins
// ---------------------------------------------------------------------------

/// Where a plugin spec of the `.meta` file points.
pub enum PluginSource {
    /// `file:<path>`: an executable at this path.
    File(String),
    /// `git+...`: a repository, which cannot be loaded yet.
    Git,
    /// Anything else: a version of a plugin installed with cargo.
    Installed,
}

/// The mathematical value of a [`PluginSource`].
pub enum PluginSourceView {
    File(Seq<char>),
    Git,
    Installed,
}

impl View for PluginSource {
    type V = PluginSourceView;

    open spec fn view(&self) -> PluginSourceView {
        match self {
            PluginSource::File(p) => PluginSourceView::File(p@),
            PluginSource::Git => PluginSourceView::Git,
            PluginSource::Installed => PluginSourceView::Installed,
        }
    }
}

/// Where a plugin spec points: `file:` is followed by a path, `git+` names a
/// repository, anything else an installed version.
pub open spec fn plugin_source_of(spec: Seq<char>) -> PluginSourceView {
    if text::is_prefix("file:"@, spec) {
        PluginSourceView::File(spec.skip("file:"@.len() as int))
    } else if text::is_prefix("git+"@, spec) {
        PluginSourceView::Git
    } else {
        PluginSourceView::Installed
    }
}

/// Where a plugin spec points (see [`plugin_source_of`]).
pub fn plugin_source(spec: &str) -> (r: PluginSource)
    ensures
        r@ == plugin_source_of(spec@),
{
    let s = text::chars_of(spec);
    let file = text::chars_of("file:");
    if text::chars_starts_with(&s, &file) {
        let rest = text::chars_slice(&s, file.len(), s.len());
        assert(s@.subrange(file@.len() as int, s@.len() as int) =~= s@.skip(file@.len() as int));
        PluginSource::File(text::string_of(&rest))
    } else if text::chars_starts_with(&s, &text::chars_of("git+")) {
        PluginSource::Git
    } else {
        PluginSource::Installed
    }
}

/// The name of the executable cargo installs for a plugin:
/// `metarepo-plugin-<name>`.
pub fn installed_binary_name(name: &str) -> (r: String)
    ensures
        r@ == "metarepo-plugin-"@ + name@,
{
    text::concat_str("metarepo-plugin-", name)
}

/// Whether a file's Unix permission bits let someone execute it.
pub fn is_executable_mode(mode: u32) -> (r: bool)
    ensures
        r == (mode & 0o111 != 0),
{
    mode & 0o111 != 0
}

/// The arguments of the command line itself, which are not passed on to an
/// external plugin.
pub open spec fn is_builtin_arg_id(id: Seq<char>) -> bool {
    id == "verbose"@ || id == "quiet"@ || id == "experimental"@
}

/// Whether an argument belongs to the command line itself rather than to
/// an external plugin's command.
pub fn is_builtin_arg(id: &str) -> (r: bool)
    ensures
        r == is_builtin_arg_id(id@),
{
    let s = String::from_str(id);
    s == String::from_str("verbose") || s == String::from_str("quiet") || s == String::from_str(
        "experimental",
    )
}

// ---------------------------------------------------------------------------
// The external plugin protocol
// ---------------------------------------------------------------------------

/// An argument of an external plugin's command.
pub struct ArgInfo {
    pub name: String,
    pub help: String,
    pub required: bool,
}

/// A command of an external plugin, with its subcommands and arguments.
pub struct CommandInfo {
    pub name: String,
    pub about: String,
    pub subcommands: Vec<CommandInfo>,
    pub args: Vec<ArgInfo>,
}

/// A reply of an external plugin.
pub enum PluginResponse {
    Info { name: String, version: String, experimental: bool },
    Commands { commands: Vec<CommandInfo> },
    Success { message: Option<String> },
    Error { message: String },
}

/// Why a reply of an external plugin was refused.
pub enum ReplyError {
    /// The plugin answered with an error.
    Plugin(String),
    /// The plugin answered something else than was asked for.
    Unexpected,
}

/// What a reply to the info request gives: the plugin's name, version and
/// whether it is experimental.
pub open spec fn info_reply(r: PluginResponse) -> Option<(Seq<char>, Seq<char>, bool)> {
    match r {
        PluginResponse::Info { name, version, experimental } => Some((name@, version@, experimental)),
        _ => None,
    }
}

/// The plugin's identity from its reply to the info request; an error reply
/// passes its message on, any other reply is unexpected.
pub fn read_info_reply(r: PluginResponse) -> (out: Result<(String, String, bool), ReplyError>)
    ensures
        match out {
            Ok((n, v, x)) => info_reply(r) == Some((n@, v@, x)),
            Err(ReplyError::Plugin(m)) => r matches PluginResponse::Error { message } && message@ == m@,
            Err(ReplyError::Unexpected) => info_reply(r) is None && !(r is Error),
        },
{
    match r {
        PluginResponse::Info { name, version, experimental } => Ok((name, version, experimental)),
        PluginResponse::Error { message } => Err(ReplyError::Plugin(message)),
        _ => Err(ReplyError::Unexpected),
    }
}

/// The plugin's commands from its reply to the command request; an error
/// reply passes its message on, any other reply is unexpected.
pub fn read_commands_reply(r: PluginResponse) -> (out: Result<Vec<CommandInfo>, ReplyError>)
    ensures
        match out {
            Ok(c) => r matches PluginResponse::Commands { commands } && commands@ == c@,
            Err(ReplyError::Plugin(m)) => r matches PluginResponse::Error { message } && message@ == m@,
            Err(ReplyError::Unexpected) => !(r is Commands) && !(r is Error),
        },
{
    match r {
        PluginResponse::Commands { commands } => Ok(commands),
        PluginResponse::Error { message } => Err(ReplyError::Plugin(message)),
        _ => Err(ReplyError::Unexpected),
    }
}

/// The outcome of a command an external plugin handled: success with the
/// message to show, if any; an error reply passes its message on, any other
/// reply is unexpected.
pub fn read_command_reply(r: PluginResponse) -> (out: Result<Option<String>, ReplyError>)
    ensures
        match out {
            Ok(m) => r matches PluginResponse::Success { message } && message == m,
            Err(ReplyError::Plugin(m)) => r matches PluginResponse::Error { message } && message@ == m@,
            Err(ReplyError::Unexpected) => !(r is Success) && !(r is Error),
        },
{
    match r {
        PluginResponse::Success { message } => Ok(message),
        PluginResponse::Error { message } => Err(ReplyError::Plugin(message)),
        _ => Err(ReplyError::Unexpected),
    }
}

// ---------------------------------------------------------------------------
// Rules
// ---------------------------------------------------------------------------

/// Where a project's rules come from: its own `.rules.yaml` when it has
/// one, the workspace otherwise.
pub fn check_project_rules_inheritance(has_rules_file: bool) -> (r: String)
    ensures
        r@ == (if has_rules_file {
            "project-specific"@
        } else {
            "workspace"@
        }),
{
    if has_rules_file {
        String::from_str("project-specific")
    } else {
        String::from_str("workspace")
    }
}

/// How many rules of each kind a rules configuration holds, and where it
/// comes from.
pub struct RulesStats {
    pub total_directories: usize,
    pub total_components: usize,
    pub total_files: usize,
    pub source: String,
}

impl RulesStats {
    /// The statistics of a configuration with the given numbers of
    /// directory, component and file rules.
    pub fn from_config(directories: usize, components: usize, files: usize, source: String) -> (r: Self)
        ensures
            r.total_directories == directories,
            r.total_components == components,
            r.total_files == files,
            r.source@ == source@,
    {
        RulesStats { total_directories: directories, total_components: components, total_files: files, source }
    }
}

} // verus!
