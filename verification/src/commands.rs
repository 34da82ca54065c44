//! The commands each built-in plugin offers on the command line, described
//! with the builders of [`crate::builder`], and the set of built-in plugins
//! the command line is made of.
use vstd::prelude::*;

use crate::builder::{arg, command, plugin, ArgBuilderView, BuiltPlugin, CommandBuilder, CommandBuilderView};
use crate::plugins::{builtin_author, ConfigPlugin, ExecPlugin, PluginManagerPlugin, ProjectPlugin, WorktreePlugin};

verus! {

// ---------------------------------------------------------------------------
// What the parser makes of a description
// ---------------------------------------------------------------------------

/// What the parser makes of an argument: its name, its short flag, its long
/// flag, whether it must be given, and whether it takes a value.
pub type ArgShape = (Seq<char>, Option<char>, Option<Seq<char>>, bool, bool);

/// The shape of an argument description.
pub open spec fn arg_shape(a: ArgBuilderView) -> ArgShape {
    (a.name, a.short, a.long, a.required, a.takes_value)
}

/// A positional argument.
pub open spec fn positional(name: Seq<char>, required: bool) -> ArgShape {
    (name, None, None, required, true)
}

/// A flag whose long form is its name.
pub open spec fn switch(name: Seq<char>, short: Option<char>) -> ArgShape {
    (name, short, Some(name), false, false)
}

/// An option with a value whose long form is its name.
pub open spec fn valued(name: Seq<char>, short: Option<char>) -> ArgShape {
    (name, short, Some(name), false, true)
}

/// A command description has this name, these aliases, and arguments of
/// these shapes, in order.
pub open spec fn shaped(c: CommandBuilderView, name: Seq<char>, aliases: Seq<Seq<char>>, args: Seq<ArgShape>) -> bool {
    &&& c.name == name
    &&& c.aliases == aliases
    &&& c.args.map_values(|a: ArgBuilderView| arg_shape(a)) == args
}

/// The help texts of a command description's arguments, in order.
pub open spec fn arg_helps(c: CommandBuilderView) -> Seq<Option<Seq<char>>> {
    c.args.map_values(|a: ArgBuilderView| a.help)
}

// ---------------------------------------------------------------------------
// Help texts
// ---------------------------------------------------------------------------

/// The help texts of the arguments of project add, in order.
pub open spec fn project_add_helps() -> Seq<Option<Seq<char>>> {
    seq![
        Some("Local directory name for the project"@),
        Some("Git URL or path to external directory (optional)"@),
        Some("Recursively import nested meta repositories"@),
        Some("Maximum depth for recursive imports (default: 3)"@),
        Some("Import nested projects at root level instead of maintaining hierarchy"@),
        Some("Disable recursive import even if configured in .meta"@),
        Some("Automatically initialize git repository if directory is not a git repo"@),
        Some("Clone as bare repository with worktree structure"@),
    ]
}

/// The help texts of the arguments of project list, in order.
pub open spec fn project_list_helps() -> Seq<Option<Seq<char>>> {
    seq![
        Some("Display projects as a flat list with details"@),
        Some("Display only project names (minimal output)"@),
    ]
}

/// The help texts of the arguments of project tree, in order.
pub open spec fn project_tree_helps() -> Seq<Option<Seq<char>>> {
    seq![
        Some("Display projects as a flat list with details"@),
        Some("Display only project names (minimal output)"@),
    ]
}

/// The help texts of the arguments of project update, in order.
pub open spec fn project_update_helps() -> Seq<Option<Seq<char>>> {
    seq![
        Some("Also update nested repositories"@),
        Some("Maximum depth for recursive updates (default: 3)"@),
    ]
}

/// The help texts of the arguments of project remove, in order.
pub open spec fn project_remove_helps() -> Seq<Option<Seq<char>>> {
    seq![
        Some("Name of the project to remove"@),
        Some("Force removal even with uncommitted changes, and delete directory"@),
    ]
}

/// The help texts of the arguments of project update gitignore, in order.
pub open spec fn project_update_gitignore_helps() -> Seq<Option<Seq<char>>> {
    seq![
        Some("Name of the project to update"@),
    ]
}

/// The help texts of the arguments of project rename, in order.
pub open spec fn project_rename_helps() -> Seq<Option<Seq<char>>> {
    seq![
        Some("Current name of the project"@),
        Some("New name for the project"@),
    ]
}

/// The help texts of the arguments of project convert to bare, in order.
pub open spec fn project_convert_to_bare_helps() -> Seq<Option<Seq<char>>> {
    seq![
        Some("Name of the project to convert"@),
    ]
}

/// The help texts of the arguments of project tag edit, in order.
pub open spec fn project_tag_edit_helps() -> Seq<Option<Seq<char>>> {
    seq![
        Some("Project to tag (left out with --all)"@),
        Some("Comma-separated tags"@),
        Some("Apply to all projects"@),
    ]
}

/// The help texts of the arguments of worktree add, in order.
pub open spec fn worktree_add_helps() -> Seq<Option<Seq<char>>> {
    seq![
        Some("Branch name or commit to create worktree from"@),
        Some("Starting point (branch/tag/commit) for the worktree"@),
        Some("Starting point to create the branch from (e.g., origin/main, HEAD)"@),
        Some("Single project to create worktree for"@),
        Some("Comma-separated list of projects"@),
        Some("Create worktrees for all projects"@),
        Some("Create a new branch for the worktree"@),
        Some("Custom path suffix for worktree directory (default: branch name)"@),
        Some("Skip running post-create worktree_init command"@),
    ]
}

/// The help texts of the arguments of worktree remove, in order.
pub open spec fn worktree_remove_helps() -> Seq<Option<Seq<char>>> {
    seq![
        Some("Branch name or worktree directory name to remove"@),
        Some("Single project to remove worktree from"@),
        Some("Comma-separated list of projects"@),
        Some("Remove worktrees from all projects that have it"@),
        Some("Force removal even if worktree has uncommitted changes"@),
    ]
}

/// The help texts of the arguments of worktree list, in order.
pub open spec fn worktree_list_helps() -> Seq<Option<Seq<char>>> {
    seq![
        Some("Show detailed information about each worktree"@),
    ]
}

/// The help texts of the arguments of worktree prune, in order.
pub open spec fn worktree_prune_helps() -> Seq<Option<Seq<char>>> {
    seq![
        Some("Show what would be pruned without actually removing"@),
    ]
}

/// The help texts of the arguments of exec selection, in order.
pub open spec fn exec_selection_helps() -> Seq<Option<Seq<char>>> {
    seq![
        Some("Single project to run command in"@),
        Some("Comma-separated list of specific projects"@),
        Some("Run command in all projects"@),
        Some("Only include projects matching these patterns (comma-separated)"@),
        Some("Exclude projects matching these patterns (comma-separated)"@),
        Some("Only include projects with these tags (comma-separated)"@),
        Some("Exclude projects with these tags (comma-separated)"@),
        Some("Only iterate over existing projects"@),
        Some("Only iterate over git repositories"@),
        Some("Execute commands in parallel"@),
        Some("Include the main meta repository"@),
    ]
}

/// The long description of `project add`.
pub open spec fn project_add_long_about() -> Seq<char> {
    "Add a project to the workspace.\n\n\
             This command can:\n\
             • Clone a new repository from a URL\n\
             • Import an existing local repository\n\
             • Create a symlink to an external directory\n\
             • Auto-detect repository URLs from existing directories\n\
             • Recursively import nested meta repositories\n\n\
             Examples:\n\
               meta project add myproject https://github.com/user/repo.git  # Clone new\n\
               meta project add myproject ../external-repo                   # Symlink\n\
               meta project add myproject                                    # Use existing"@
}

/// The long description of `worktree add`.
pub open spec fn worktree_add_long_about() -> Seq<char> {
    "Create git worktrees for selected projects in the workspace.\n\n\
             Worktrees allow you to have multiple working trees attached to the same repository,\n\
             enabling parallel development on different branches without stashing or switching.\n\n\
             The command intelligently handles branches:\n\
               • If the branch exists locally, it checks it out\n\
               • If it exists remotely, it creates a local tracking branch\n\
               • If it doesn't exist, it prompts for a starting point or uses --from\n\n\
             Examples:\n\
               meta worktree add feature-123                           # Smart detection\n\
               meta worktree add feature-123 --from origin/main        # Create from specific branch\n\
               meta worktree add feature-123 --project containers      # Single project\n\
               meta worktree add feature-123 --all                     # All projects\n\
               meta worktree add -b feature-123                        # Force create new branch"@
}

/// The help texts of the arguments of project tag list, in order.
pub open spec fn project_tag_list_helps() -> Seq<Option<Seq<char>>> {
    seq![
        Some("Project whose tags to list (left out with --all)"@),
        Some("List the tags of all projects"@),
    ]
}

/// The help texts of the arguments of `plugin add`, in order.
pub open spec fn plugin_add_helps() -> Seq<Option<Seq<char>>> {
    seq![
        Some("Path to the plugin executable"@),
    ]
}

/// The help texts of the arguments of `plugin install`, in order.
pub open spec fn plugin_install_helps() -> Seq<Option<Seq<char>>> {
    seq![
        Some("Name of the plugin to install"@),
    ]
}

/// The help texts of the arguments of `plugin remove`, in order.
pub open spec fn plugin_remove_helps() -> Seq<Option<Seq<char>>> {
    seq![
        Some("Name of the plugin to remove"@),
    ]
}

/// The help texts of the arguments of `plugin list`, in order (it has none).
pub open spec fn plugin_list_helps() -> Seq<Option<Seq<char>>> {
    Seq::empty()
}

/// The help texts of the arguments of `plugin update`, in order (it has none).
pub open spec fn plugin_update_helps() -> Seq<Option<Seq<char>>> {
    Seq::empty()
}

/// The help texts of the arguments of `config edit`, in order.
pub open spec fn config_edit_helps() -> Seq<Option<Seq<char>>> {
    seq![
        Some("Path to .meta file"@),
    ]
}

/// The help texts of the arguments of `config show`, in order.
pub open spec fn config_show_helps() -> Seq<Option<Seq<char>>> {
    seq![
        Some("Output format (json, yaml, toml)"@),
    ]
}

/// The help texts of the arguments of `config get`, in order.
pub open spec fn config_get_helps() -> Seq<Option<Seq<char>>> {
    seq![
        Some("Config key path (e.g., 'default_bare' or 'projects.myproject.url')"@),
    ]
}

/// The help texts of the arguments of `config set`, in order.
pub open spec fn config_set_helps() -> Seq<Option<Seq<char>>> {
    seq![
        Some("Config key path"@),
        Some("Value to set"@),
    ]
}

/// The help texts of the arguments of `config validate`, in order.
pub open spec fn config_validate_helps() -> Seq<Option<Seq<char>>> {
    seq![
        Some("Path to .meta file to validate"@),
    ]
}

/// The help texts of the arguments of `exec` that choose how runs are shown, in order.
pub open spec fn exec_display_helps() -> Seq<Option<Seq<char>>> {
    seq![
        Some("Disable progress indicators (useful for CI environments)"@),
        Some("Show output as it happens instead of buffered (legacy behavior)"@),
    ]
}

// ---------------------------------------------------------------------------
// `meta project`
// ---------------------------------------------------------------------------

fn project_add() -> (r: CommandBuilder)
    ensures
        r@.long_about == Some(project_add_long_about()),
        arg_helps(r@) == project_add_helps(),
        r@.about == "Add a project to the workspace"@,
        shaped(
            r@,
            "add"@,
            seq!["import"@, "i"@, "a"@],
            seq![
                positional("path"@, false),
                positional("source"@, false),
                switch("recursive"@, Some('r')),
                valued("max-depth"@, None),
                switch("flatten"@, None),
                switch("no-recursive"@, None),
                switch("init-git"@, None),
                switch("bare"@, None),
            ],
        ),
{
    let r = command("add")
        .about("Add a project to the workspace")
        .long_about(
            "Add a project to the workspace.\n\n\
             This command can:\n\
             • Clone a new repository from a URL\n\
             • Import an existing local repository\n\
             • Create a symlink to an external directory\n\
             • Auto-detect repository URLs from existing directories\n\
             • Recursively import nested meta repositories\n\n\
             Examples:\n\
               meta project add myproject https://github.com/user/repo.git  # Clone new\n\
               meta project add myproject ../external-repo                   # Symlink\n\
               meta project add myproject                                    # Use existing",
        )
        .alias("import")
        .alias("i")
        .alias("a")
        .with_help_formatting()
        .arg(arg("path").help("Local directory name for the project").required(false).takes_value(true))
        .arg(arg("source").help("Git URL or path to external directory (optional)").required(false).takes_value(true))
        .arg(arg("recursive").long("recursive").short('r').help("Recursively import nested meta repositories"))
        .arg(arg("max-depth").long("max-depth").help("Maximum depth for recursive imports (default: 3)").takes_value(true))
        .arg(arg("flatten").long("flatten").help("Import nested projects at root level instead of maintaining hierarchy"))
        .arg(arg("no-recursive").long("no-recursive").help("Disable recursive import even if configured in .meta"))
        .arg(arg("init-git").long("init-git").help("Automatically initialize git repository if directory is not a git repo"))
        .arg(arg("bare").long("bare").help("Clone as bare repository with worktree structure"));
    assert(r@.aliases =~= seq!["import"@, "i"@, "a"@]);
    assert(r@.args.map_values(|a: ArgBuilderView| arg_shape(a)) =~= seq![
        positional("path"@, false),
        positional("source"@, false),
        switch("recursive"@, Some('r')),
        valued("max-depth"@, None),
        switch("flatten"@, None),
        switch("no-recursive"@, None),
        switch("init-git"@, None),
        switch("bare"@, None),
    ]);
    assert(arg_helps(r@) =~= project_add_helps());
    r
}

fn project_list() -> (r: CommandBuilder)
    ensures
        arg_helps(r@) == project_list_helps(),
        r@.about == "List all projects in the workspace (tree view by default)"@,
        shaped(
            r@,
            "list"@,
            seq!["ls"@, "l"@],
            seq![switch("flat"@, Some('f')), switch("minimal"@, Some('m'))],
        ),
{
    let r = command("list")
        .about("List all projects in the workspace (tree view by default)")
        .with_help_formatting()
        .alias("ls")
        .alias("l")
        .arg(arg("flat").long("flat").short('f').help("Display projects as a flat list with details"))
        .arg(arg("minimal").long("minimal").short('m').help("Display only project names (minimal output)"));
    assert(r@.aliases =~= seq!["ls"@, "l"@]);
    assert(r@.args.map_values(|a: ArgBuilderView| arg_shape(a)) =~= seq![
        switch("flat"@, Some('f')),
        switch("minimal"@, Some('m')),
    ]);
    assert(arg_helps(r@) =~= project_list_helps());
    r
}

fn project_tree() -> (r: CommandBuilder)
    ensures
        arg_helps(r@) == project_tree_helps(),
        r@.about == "Display project hierarchy as a tree"@,
        shaped(
            r@,
            "tree"@,
            seq![],
            seq![switch("flat"@, Some('f')), switch("minimal"@, Some('m'))],
        ),
{
    let r = command("tree")
        .about("Display project hierarchy as a tree")
        .with_help_formatting()
        .arg(arg("flat").long("flat").short('f').help("Display projects as a flat list with details"))
        .arg(arg("minimal").long("minimal").short('m').help("Display only project names (minimal output)"));
    assert(r@.aliases =~= seq![]);
    assert(r@.args.map_values(|a: ArgBuilderView| arg_shape(a)) =~= seq![
        switch("flat"@, Some('f')),
        switch("minimal"@, Some('m')),
    ]);
    assert(arg_helps(r@) =~= project_tree_helps());
    r
}

fn project_update() -> (r: CommandBuilder)
    ensures
        arg_helps(r@) == project_update_helps(),
        r@.about == "Update all projects (pull latest changes)"@,
        shaped(r@, "update"@, seq!["pull"@], seq![switch("recursive"@, Some('r')), valued("depth"@, None)]),
{
    let r = command("update")
        .about("Update all projects (pull latest changes)")
        .alias("pull")
        .with_help_formatting()
        .arg(arg("recursive").long("recursive").short('r').help("Also update nested repositories"))
        .arg(arg("depth").long("depth").help("Maximum depth for recursive updates (default: 3)").takes_value(true));
    assert(r@.aliases =~= seq!["pull"@]);
    assert(r@.args.map_values(|a: ArgBuilderView| arg_shape(a)) =~= seq![
        switch("recursive"@, Some('r')),
        valued("depth"@, None),
    ]);
    assert(arg_helps(r@) =~= project_update_helps());
    r
}

fn project_remove() -> (r: CommandBuilder)
    ensures
        arg_helps(r@) == project_remove_helps(),
        r@.about == "Remove a project from the workspace"@,
        shaped(r@, "remove"@, seq!["rm"@, "r"@], seq![positional("name"@, false), switch("force"@, Some('f'))]),
{
    let r = command("remove")
        .about("Remove a project from the workspace")
        .alias("rm")
        .alias("r")
        .with_help_formatting()
        .arg(arg("name").help("Name of the project to remove").required(false).takes_value(true))
        .arg(arg("force").long("force").short('f').help("Force removal even with uncommitted changes, and delete directory"));
    assert(r@.aliases =~= seq!["rm"@, "r"@]);
    assert(r@.args.map_values(|a: ArgBuilderView| arg_shape(a)) =~= seq![
        positional("name"@, false),
        switch("force"@, Some('f')),
    ]);
    assert(arg_helps(r@) =~= project_remove_helps());
    r
}

fn project_update_gitignore() -> (r: CommandBuilder)
    ensures
        arg_helps(r@) == project_update_gitignore_helps(),
        r@.about == "Update .gitignore for a project that now has a remote"@,
        shaped(r@, "update-gitignore"@, seq![], seq![positional("name"@, true)]),
{
    let r = command("update-gitignore")
        .about("Update .gitignore for a project that now has a remote")
        .with_help_formatting()
        .arg(arg("name").help("Name of the project to update").required(true).takes_value(true));
    assert(r@.aliases =~= seq![]);
    assert(r@.args.map_values(|a: ArgBuilderView| arg_shape(a)) =~= seq![positional("name"@, true)]);
    assert(arg_helps(r@) =~= project_update_gitignore_helps());
    r
}

fn project_rename() -> (r: CommandBuilder)
    ensures
        arg_helps(r@) == project_rename_helps(),
        r@.about == "Rename a project in the workspace"@,
        shaped(
            r@,
            "rename"@,
            seq!["mv"@, "move"@],
            seq![positional("old_name"@, true), positional("new_name"@, true)],
        ),
{
    let r = command("rename")
        .about("Rename a project in the workspace")
        .alias("mv")
        .alias("move")
        .with_help_formatting()
        .arg(arg("old_name").help("Current name of the project").required(true).takes_value(true))
        .arg(arg("new_name").help("New name for the project").required(true).takes_value(true));
    assert(r@.aliases =~= seq!["mv"@, "move"@]);
    assert(r@.args.map_values(|a: ArgBuilderView| arg_shape(a)) =~= seq![
        positional("old_name"@, true),
        positional("new_name"@, true),
    ]);
    assert(arg_helps(r@) =~= project_rename_helps());
    r
}

fn project_convert_to_bare() -> (r: CommandBuilder)
    ensures
        arg_helps(r@) == project_convert_to_bare_helps(),
        r@.about == "Convert a normal repository to bare repository with worktrees"@,
        shaped(r@, "convert-to-bare"@, seq![], seq![positional("project"@, true)]),
{
    let r = command("convert-to-bare")
        .about("Convert a normal repository to bare repository with worktrees")
        .with_help_formatting()
        .arg(arg("project").help("Name of the project to convert").required(true).takes_value(true));
    assert(r@.aliases =~= seq![]);
    assert(r@.args.map_values(|a: ArgBuilderView| arg_shape(a)) =~= seq![positional("project"@, true)]);
    assert(arg_helps(r@) =~= project_convert_to_bare_helps());
    r
}

/// The arguments of `project tag add` and `project tag remove`.
pub open spec fn tag_edit_shapes() -> Seq<ArgShape> {
    seq![positional("project"@, false), positional("tags"@, false), switch("all"@, Some('a'))]
}

fn project_tag_edit(name: &str, about: &str) -> (r: CommandBuilder)
    ensures
        arg_helps(r@) == project_tag_edit_helps(),
        r@.about == about@,
        shaped(r@, name@, seq![], tag_edit_shapes()),
        r@.subcommands.len() == 0,
{
    let r = command(name)
        .about(about)
        .with_help_formatting()
        .arg(arg("project").help("Project to tag (left out with --all)").required(false).takes_value(true))
        .arg(arg("tags").help("Comma-separated tags").required(false).takes_value(true))
        .arg(arg("all").long("all").short('a').help("Apply to all projects"));
    assert(r@.aliases =~= seq![]);
    assert(r@.args.map_values(|a: ArgBuilderView| arg_shape(a)) =~= tag_edit_shapes());
    assert(arg_helps(r@) =~= project_tag_edit_helps());
    r
}

fn project_tag() -> (r: CommandBuilder)
    ensures
        arg_helps(r@.subcommands[0]@) == project_tag_edit_helps(),
        arg_helps(r@.subcommands[1]@) == project_tag_edit_helps(),
        arg_helps(r@.subcommands[2]@) == project_tag_list_helps(),
        r@.about == "Manage project tags"@,
        r@.subcommands[0]@.about == "Add tags to a project"@,
        r@.subcommands[1]@.about == "Remove tags from a project"@,
        r@.subcommands[2]@.about == "List the tags of a project"@,
        shaped(r@, "tag"@, seq![], seq![]),
        r@.subcommands.len() == 3,
        shaped(r@.subcommands[0]@, "add"@, seq![], tag_edit_shapes()),
        shaped(r@.subcommands[1]@, "remove"@, seq![], tag_edit_shapes()),
        shaped(
            r@.subcommands[2]@,
            "list"@,
            seq![],
            seq![positional("project"@, false), switch("all"@, Some('a'))],
        ),
{
    let list = command("list")
        .about("List the tags of a project")
        .with_help_formatting()
        .arg(arg("project").help("Project whose tags to list (left out with --all)").required(false).takes_value(true))
        .arg(arg("all").long("all").short('a').help("List the tags of all projects"));
    assert(list@.aliases =~= seq![]);
    assert(list@.args.map_values(|a: ArgBuilderView| arg_shape(a)) =~= seq![
        positional("project"@, false),
        switch("all"@, Some('a')),
    ]);
    assert(arg_helps(list@) =~= project_tag_list_helps());
    let r = command("tag")
        .about("Manage project tags")
        .with_help_formatting()
        .subcommand(project_tag_edit("add", "Add tags to a project"))
        .subcommand(project_tag_edit("remove", "Remove tags from a project"))
        .subcommand(list);
    assert(r@.aliases =~= seq![]);
    assert(r@.args.map_values(|a: ArgBuilderView| arg_shape(a)) =~= seq![]);
    r
}

impl ProjectPlugin {
    /// The `project` command: adding, listing, updating, removing, renaming,
    /// converting and tagging projects, with these subcommands, aliases and
    /// arguments (with their help texts).
    pub fn create_plugin() -> (r: BuiltPlugin)
        ensures
            r@.name == "project"@,
            r@.version == "0.1.0"@,
            r@.description == "Project management operations"@,
            r@.author == builtin_author(),
            !r@.experimental,
            r@.commands.len() == 9,
            arg_helps(r@.commands[0]@) == project_add_helps(),
            arg_helps(r@.commands[1]@) == project_list_helps(),
            arg_helps(r@.commands[2]@) == project_tree_helps(),
            arg_helps(r@.commands[3]@) == project_update_helps(),
            arg_helps(r@.commands[4]@) == project_remove_helps(),
            arg_helps(r@.commands[5]@) == project_update_gitignore_helps(),
            arg_helps(r@.commands[6]@) == project_rename_helps(),
            arg_helps(r@.commands[7]@) == project_convert_to_bare_helps(),
            r@.commands[0]@.long_about == Some(project_add_long_about()),
            arg_helps(r@.commands[8]@.subcommands[0]@) == project_tag_edit_helps(),
            arg_helps(r@.commands[8]@.subcommands[1]@) == project_tag_edit_helps(),
            arg_helps(r@.commands[8]@.subcommands[2]@) == project_tag_list_helps(),
            r@.commands[0]@.about == "Add a project to the workspace"@,
            r@.commands[1]@.about == "List all projects in the workspace (tree view by default)"@,
            r@.commands[2]@.about == "Display project hierarchy as a tree"@,
            r@.commands[3]@.about == "Update all projects (pull latest changes)"@,
            r@.commands[4]@.about == "Remove a project from the workspace"@,
            r@.commands[5]@.about == "Update .gitignore for a project that now has a remote"@,
            r@.commands[6]@.about == "Rename a project in the workspace"@,
            r@.commands[7]@.about == "Convert a normal repository to bare repository with worktrees"@,
            r@.commands[8]@.about == "Manage project tags"@,
            r@.commands[8]@.subcommands[0]@.about == "Add tags to a project"@,
            r@.commands[8]@.subcommands[1]@.about == "Remove tags from a project"@,
            r@.commands[8]@.subcommands[2]@.about == "List the tags of a project"@,
            shaped(
                r@.commands[0]@,
                "add"@,
                seq!["import"@, "i"@, "a"@],
                seq![
                    positional("path"@, false),
                    positional("source"@, false),
                    switch("recursive"@, Some('r')),
                    valued("max-depth"@, None),
                    switch("flatten"@, None),
                    switch("no-recursive"@, None),
                    switch("init-git"@, None),
                    switch("bare"@, None),
                ],
            ),
            shaped(
                r@.commands[1]@,
                "list"@,
                seq!["ls"@, "l"@],
                seq![switch("flat"@, Some('f')), switch("minimal"@, Some('m'))],
            ),
            shaped(
                r@.commands[2]@,
                "tree"@,
                seq![],
                seq![switch("flat"@, Some('f')), switch("minimal"@, Some('m'))],
            ),
            shaped(
                r@.commands[3]@,
                "update"@,
                seq!["pull"@],
                seq![switch("recursive"@, Some('r')), valued("depth"@, None)],
            ),
            shaped(
                r@.commands[4]@,
                "remove"@,
                seq!["rm"@, "r"@],
                seq![positional("name"@, false), switch("force"@, Some('f'))],
            ),
            shaped(r@.commands[5]@, "update-gitignore"@, seq![], seq![positional("name"@, true)]),
            shaped(
                r@.commands[6]@,
                "rename"@,
                seq!["mv"@, "move"@],
                seq![positional("old_name"@, true), positional("new_name"@, true)],
            ),
            shaped(r@.commands[7]@, "convert-to-bare"@, seq![], seq![positional("project"@, true)]),
            shaped(r@.commands[8]@, "tag"@, seq![], seq![]),
            r@.commands[8]@.subcommands.len() == 3,
            shaped(r@.commands[8]@.subcommands[0]@, "add"@, seq![], tag_edit_shapes()),
            shaped(r@.commands[8]@.subcommands[1]@, "remove"@, seq![], tag_edit_shapes()),
            shaped(
                r@.commands[8]@.subcommands[2]@,
                "list"@,
                seq![],
                seq![positional("project"@, false), switch("all"@, Some('a'))],
            ),
    {
        let this = ProjectPlugin::new();
        plugin(this.name())
            .version("0.1.0")
            .description(this.description())
            .author(this.author())
            .command(project_add())
            .command(project_list())
            .command(project_tree())
            .command(project_update())
            .command(project_remove())
            .command(project_update_gitignore())
            .command(project_rename())
            .command(project_convert_to_bare())
            .command(project_tag())
            .build()
    }
}

// ---------------------------------------------------------------------------
// `meta worktree`
// ---------------------------------------------------------------------------

fn worktree_add() -> (r: CommandBuilder)
    ensures
        r@.long_about == Some(worktree_add_long_about()),
        arg_helps(r@) == worktree_add_helps(),
        r@.about == "Create worktrees for selected projects"@,
        shaped(
            r@,
            "add"@,
            seq!["create"@, "new"@],
            seq![
                positional("branch"@, false),
                positional("commit"@, false),
                valued("from"@, Some('f')),
                valued("project"@, Some('p')),
                valued("projects"@, None),
                switch("all"@, Some('a')),
                switch("create-branch"@, Some('b')),
                valued("path"@, None),
                switch("no-hooks"@, None),
            ],
        ),
{
    let r = command("add")
        .about("Create worktrees for selected projects")
        .long_about(
            "Create git worktrees for selected projects in the workspace.\n\n\
             Worktrees allow you to have multiple working trees attached to the same repository,\n\
             enabling parallel development on different branches without stashing or switching.\n\n\
             The command intelligently handles branches:\n\
               • If the branch exists locally, it checks it out\n\
               • If it exists remotely, it creates a local tracking branch\n\
               • If it doesn't exist, it prompts for a starting point or uses --from\n\n\
             Examples:\n\
               meta worktree add feature-123                           # Smart detection\n\
               meta worktree add feature-123 --from origin/main        # Create from specific branch\n\
               meta worktree add feature-123 --project containers      # Single project\n\
               meta worktree add feature-123 --all                     # All projects\n\
               meta worktree add -b feature-123                        # Force create new branch",
        )
        .alias("create")
        .alias("new")
        .with_help_formatting()
        .arg(arg("branch").help("Branch name or commit to create worktree from").required(false).takes_value(true))
        .arg(arg("commit").help("Starting point (branch/tag/commit) for the worktree").required(false).takes_value(true))
        .arg(arg("from").long("from").short('f').help("Starting point to create the branch from (e.g., origin/main, HEAD)").takes_value(true))
        .arg(arg("project").long("project").short('p').help("Single project to create worktree for").takes_value(true))
        .arg(arg("projects").long("projects").help("Comma-separated list of projects").takes_value(true))
        .arg(arg("all").long("all").short('a').help("Create worktrees for all projects"))
        .arg(arg("create-branch").long("create-branch").short('b').help("Create a new branch for the worktree"))
        .arg(arg("path").long("path").help("Custom path suffix for worktree directory (default: branch name)").takes_value(true))
        .arg(arg("no-hooks").long("no-hooks").help("Skip running post-create worktree_init command"));
    assert(r@.aliases =~= seq!["create"@, "new"@]);
    assert(r@.args.map_values(|a: ArgBuilderView| arg_shape(a)) =~= seq![
        positional("branch"@, false),
        positional("commit"@, false),
        valued("from"@, Some('f')),
        valued("project"@, Some('p')),
        valued("projects"@, None),
        switch("all"@, Some('a')),
        switch("create-branch"@, Some('b')),
        valued("path"@, None),
        switch("no-hooks"@, None),
    ]);
    assert(arg_helps(r@) =~= worktree_add_helps());
    r
}

fn worktree_remove() -> (r: CommandBuilder)
    ensures
        arg_helps(r@) == worktree_remove_helps(),
        r@.about == "Remove worktrees from selected projects"@,
        shaped(
            r@,
            "remove"@,
            seq!["rm"@, "delete"@],
            seq![
                positional("branch"@, false),
                valued("project"@, Some('p')),
                valued("projects"@, None),
                switch("all"@, Some('a')),
                switch("force"@, Some('f')),
            ],
        ),
{
    let r = command("remove")
        .about("Remove worktrees from selected projects")
        .alias("rm")
        .alias("delete")
        .with_help_formatting()
        .arg(arg("branch").help("Branch name or worktree directory name to remove").required(false).takes_value(true))
        .arg(arg("project").long("project").short('p').help("Single project to remove worktree from").takes_value(true))
        .arg(arg("projects").long("projects").help("Comma-separated list of projects").takes_value(true))
        .arg(arg("all").long("all").short('a').help("Remove worktrees from all projects that have it"))
        .arg(arg("force").long("force").short('f').help("Force removal even if worktree has uncommitted changes"));
    assert(r@.aliases =~= seq!["rm"@, "delete"@]);
    assert(r@.args.map_values(|a: ArgBuilderView| arg_shape(a)) =~= seq![
        positional("branch"@, false),
        valued("project"@, Some('p')),
        valued("projects"@, None),
        switch("all"@, Some('a')),
        switch("force"@, Some('f')),
    ]);
    assert(arg_helps(r@) =~= worktree_remove_helps());
    r
}

fn worktree_list() -> (r: CommandBuilder)
    ensures
        arg_helps(r@) == worktree_list_helps(),
        r@.about == "List all worktrees across the workspace"@,
        shaped(r@, "list"@, seq!["ls"@, "l"@], seq![switch("verbose"@, None)]),
{
    let r = command("list")
        .about("List all worktrees across the workspace")
        .alias("ls")
        .alias("l")
        .with_help_formatting()
        .arg(arg("verbose").long("verbose").help("Show detailed information about each worktree"));
    assert(r@.aliases =~= seq!["ls"@, "l"@]);
    assert(r@.args.map_values(|a: ArgBuilderView| arg_shape(a)) =~= seq![switch("verbose"@, None)]);
    assert(arg_helps(r@) =~= worktree_list_helps());
    r
}

fn worktree_prune() -> (r: CommandBuilder)
    ensures
        arg_helps(r@) == worktree_prune_helps(),
        r@.about == "Remove stale worktrees that no longer exist"@,
        shaped(r@, "prune"@, seq![], seq![switch("dry-run"@, Some('n'))]),
{
    let r = command("prune")
        .about("Remove stale worktrees that no longer exist")
        .with_help_formatting()
        .arg(arg("dry-run").long("dry-run").short('n').help("Show what would be pruned without actually removing"));
    assert(r@.aliases =~= seq![]);
    assert(r@.args.map_values(|a: ArgBuilderView| arg_shape(a)) =~= seq![switch("dry-run"@, Some('n'))]);
    assert(arg_helps(r@) =~= worktree_prune_helps());
    r
}

impl WorktreePlugin {
    /// The `worktree` command: adding, removing, listing and pruning git
    /// worktrees across projects, with these subcommands, aliases and
    /// arguments (with their help texts).
    pub fn create_plugin() -> (r: BuiltPlugin)
        ensures
            r@.name == "worktree"@,
            r@.version == "0.1.0"@,
            r@.description == "Git worktree management across workspace projects"@,
            r@.author == builtin_author(),
            !r@.experimental,
            r@.commands.len() == 4,
            arg_helps(r@.commands[0]@) == worktree_add_helps(),
            arg_helps(r@.commands[1]@) == worktree_remove_helps(),
            arg_helps(r@.commands[2]@) == worktree_list_helps(),
            arg_helps(r@.commands[3]@) == worktree_prune_helps(),
            r@.commands[0]@.long_about == Some(worktree_add_long_about()),
            r@.commands[0]@.about == "Create worktrees for selected projects"@,
            r@.commands[1]@.about == "Remove worktrees from selected projects"@,
            r@.commands[2]@.about == "List all worktrees across the workspace"@,
            r@.commands[3]@.about == "Remove stale worktrees that no longer exist"@,
            shaped(
                r@.commands[0]@,
                "add"@,
                seq!["create"@, "new"@],
                seq![
                    positional("branch"@, false),
                    positional("commit"@, false),
                    valued("from"@, Some('f')),
                    valued("project"@, Some('p')),
                    valued("projects"@, None),
                    switch("all"@, Some('a')),
                    switch("create-branch"@, Some('b')),
                    valued("path"@, None),
                    switch("no-hooks"@, None),
                ],
            ),
            shaped(
                r@.commands[1]@,
                "remove"@,
                seq!["rm"@, "delete"@],
                seq![
                    positional("branch"@, false),
                    valued("project"@, Some('p')),
                    valued("projects"@, None),
                    switch("all"@, Some('a')),
                    switch("force"@, Some('f')),
                ],
            ),
            shaped(r@.commands[2]@, "list"@, seq!["ls"@, "l"@], seq![switch("verbose"@, None)]),
            shaped(r@.commands[3]@, "prune"@, seq![], seq![switch("dry-run"@, Some('n'))]),
    {
        let this = WorktreePlugin::new();
        plugin(this.name())
            .version("0.1.0")
            .description(this.description())
            .author(this.author())
            .command(worktree_add())
            .command(worktree_remove())
            .command(worktree_list())
            .command(worktree_prune())
            .build()
    }
}

// ---------------------------------------------------------------------------
// `meta exec`
// ---------------------------------------------------------------------------

/// The argument shapes of `exec`'s project selection and filters.
pub open spec fn exec_selection_shapes() -> Seq<ArgShape> {
    seq![
        valued("project"@, Some('p')),
        valued("projects"@, None),
        switch("all"@, Some('a')),
        valued("include-only"@, None),
        valued("exclude"@, None),
        valued("include-tags"@, None),
        valued("exclude-tags"@, None),
        switch("existing-only"@, None),
        switch("git-only"@, None),
        switch("parallel"@, None),
        switch("include-main"@, None),
    ]
}

/// `exec` with its selection and filter arguments.
fn exec_command() -> (r: CommandBuilder)
    ensures
        arg_helps(r@) == exec_selection_helps(),
        r@.name == "exec"@,
        r@.about == "Execute commands across multiple repositories"@,
        r@.aliases.len() == 0,
        r@.args.map_values(|a: ArgBuilderView| arg_shape(a)) == exec_selection_shapes(),
        r@.allow_external_subcommands,
        r@.subcommands.len() == 0,
{
    let r = command("exec")
        .about("Execute commands across multiple repositories")
        .allow_external_subcommands(true)
        .arg(arg("project").short('p').long("project").help("Single project to run command in").takes_value(true))
        .arg(arg("projects").long("projects").help("Comma-separated list of specific projects").takes_value(true))
        .arg(arg("all").short('a').long("all").help("Run command in all projects"))
        .arg(arg("include-only").long("include-only").help("Only include projects matching these patterns (comma-separated)").takes_value(true))
        .arg(arg("exclude").long("exclude").help("Exclude projects matching these patterns (comma-separated)").takes_value(true))
        .arg(arg("include-tags").long("include-tags").help("Only include projects with these tags (comma-separated)").takes_value(true))
        .arg(arg("exclude-tags").long("exclude-tags").help("Exclude projects with these tags (comma-separated)").takes_value(true))
        .arg(arg("existing-only").long("existing-only").help("Only iterate over existing projects"))
        .arg(arg("git-only").long("git-only").help("Only iterate over git repositories"))
        .arg(arg("parallel").long("parallel").help("Execute commands in parallel"))
        .arg(arg("include-main").long("include-main").help("Include the main meta repository"));
    assert(r@.args.map_values(|a: ArgBuilderView| arg_shape(a)) =~= exec_selection_shapes());
    assert(arg_helps(r@) =~= exec_selection_helps());
    r
}

impl ExecPlugin {
    /// The `exec` plugin: one command, `exec` (aliases `e` and `x`), through
    /// which the command to run passes as an unknown subcommand; the
    /// arguments choose the projects and how the runs are shown (with their
    /// help texts).
    pub fn create_plugin() -> (r: BuiltPlugin)
        ensures
            r@.name == "exec"@,
            r@.version == "0.1.0"@,
            r@.description == "Execute commands across multiple repositories"@,
            r@.author == builtin_author(),
            !r@.experimental,
            r@.commands.len() == 1,
            arg_helps(r@.commands[0]@) == exec_selection_helps() + exec_display_helps(),
            r@.commands[0]@.about == "Execute commands across multiple repositories"@,
            shaped(
                r@.commands[0]@,
                "exec"@,
                seq!["e"@, "x"@],
                exec_selection_shapes() + seq![switch("no-progress"@, None), switch("streaming"@, None)],
            ),
            r@.commands[0]@.allow_external_subcommands,
    {
        let this = ExecPlugin::new();
        let c = exec_command()
            .alias("e")
            .alias("x")
            .with_help_formatting()
            .arg(arg("no-progress").long("no-progress").help("Disable progress indicators (useful for CI environments)"))
            .arg(arg("streaming").long("streaming").help("Show output as it happens instead of buffered (legacy behavior)"));
        assert(c@.aliases =~= seq!["e"@, "x"@]);
        assert(c@.args.map_values(|a: ArgBuilderView| arg_shape(a)) =~= exec_selection_shapes() + seq![
            switch("no-progress"@, None),
            switch("streaming"@, None),
        ]);
        assert(arg_helps(c@) =~= exec_selection_helps() + exec_display_helps());
        plugin(this.name())
            .version("0.1.0")
            .description(this.description())
            .author(this.author())
            .command(c)
            .build()
    }

    /// The `exec` command as the command line offers it: the plugin's
    /// command, without its aliases, with `--no-progress` and `--streaming`
    /// besides (with their help texts).
    pub fn register_commands(&self) -> (r: CommandBuilder)
        ensures
            arg_helps(r@) == exec_selection_helps() + exec_display_helps(),
            shaped(
                r@,
                "exec"@,
                seq![],
                exec_selection_shapes() + seq![switch("no-progress"@, None), switch("streaming"@, None)],
            ),
            r@.about == "Execute commands across multiple repositories"@,
            r@.allow_external_subcommands,
            r@.subcommands.len() == 0,
    {
        let r = exec_command()
            .arg(arg("no-progress").long("no-progress").help("Disable progress indicators (useful for CI environments)"))
            .arg(arg("streaming").long("streaming").help("Show output as it happens instead of buffered (legacy behavior)"));
        assert(r@.aliases =~= seq![]);
        assert(r@.args.map_values(|a: ArgBuilderView| arg_shape(a)) =~= exec_selection_shapes() + seq![
            switch("no-progress"@, None),
            switch("streaming"@, None),
        ]);
        assert(arg_helps(r@) =~= exec_selection_helps() + exec_display_helps());
        r
    }
}

// ---------------------------------------------------------------------------
// `meta plugin`
// ---------------------------------------------------------------------------

impl PluginManagerPlugin {
    /// The `plugin` command: adding, installing, removing, listing and
    /// updating plugins (with their help texts).
    pub fn create_plugin() -> (r: BuiltPlugin)
        ensures
            r@.name == "plugin"@,
            r@.version == "0.1.0"@,
            r@.description == "Manage metarepo plugins"@,
            r@.author == builtin_author(),
            !r@.experimental,
            r@.commands.len() == 5,
            arg_helps(r@.commands[0]@) == plugin_add_helps(),
            arg_helps(r@.commands[1]@) == plugin_install_helps(),
            arg_helps(r@.commands[2]@) == plugin_remove_helps(),
            arg_helps(r@.commands[3]@) == plugin_list_helps(),
            arg_helps(r@.commands[4]@) == plugin_update_helps(),
            r@.commands[0]@.about == "Add a plugin from a local path"@,
            r@.commands[1]@.about == "Install a plugin from crates.io"@,
            r@.commands[2]@.about == "Remove an installed plugin"@,
            r@.commands[3]@.about == "List all installed plugins"@,
            r@.commands[4]@.about == "Update all plugins to their latest versions"@,
            shaped(r@.commands[0]@, "add"@, seq![], seq![positional("path"@, false)]),
            shaped(r@.commands[1]@, "install"@, seq![], seq![positional("name"@, true)]),
            shaped(r@.commands[2]@, "remove"@, seq![], seq![positional("name"@, true)]),
            shaped(r@.commands[3]@, "list"@, seq![], seq![]),
            shaped(r@.commands[4]@, "update"@, seq![], seq![]),
    {
        let this = PluginManagerPlugin::new();
        let add = command("add")
            .about("Add a plugin from a local path")
            .with_help_formatting()
            .arg(arg("path").help("Path to the plugin executable").required(false).takes_value(true));
        let install = command("install")
            .about("Install a plugin from crates.io")
            .with_help_formatting()
            .arg(arg("name").help("Name of the plugin to install").required(true).takes_value(true));
        let remove = command("remove")
            .about("Remove an installed plugin")
            .with_help_formatting()
            .arg(arg("name").help("Name of the plugin to remove").required(true).takes_value(true));
        let list = command("list").about("List all installed plugins").with_help_formatting();
        let update = command("update").about("Update all plugins to their latest versions").with_help_formatting();
        assert(add@.args.map_values(|a: ArgBuilderView| arg_shape(a)) =~= seq![positional("path"@, false)]);
        assert(install@.args.map_values(|a: ArgBuilderView| arg_shape(a)) =~= seq![positional("name"@, true)]);
        assert(remove@.args.map_values(|a: ArgBuilderView| arg_shape(a)) =~= seq![positional("name"@, true)]);
        assert(list@.args.map_values(|a: ArgBuilderView| arg_shape(a)) =~= seq![]);
        assert(update@.args.map_values(|a: ArgBuilderView| arg_shape(a)) =~= seq![]);
        assert(add@.aliases =~= seq![]);
        assert(install@.aliases =~= seq![]);
        assert(remove@.aliases =~= seq![]);
        assert(list@.aliases =~= seq![]);
        assert(update@.aliases =~= seq![]);
        assert(arg_helps(add@) =~= plugin_add_helps());
        assert(arg_helps(install@) =~= plugin_install_helps());
        assert(arg_helps(remove@) =~= plugin_remove_helps());
        assert(arg_helps(list@) =~= plugin_list_helps());
        assert(arg_helps(update@) =~= plugin_update_helps());
        plugin(this.name())
            .version("0.1.0")
            .description(this.description())
            .author(this.author())
            .command(add)
            .command(install)
            .command(remove)
            .command(list)
            .command(update)
            .build()
    }
}

// ---------------------------------------------------------------------------
// `meta config`
// ---------------------------------------------------------------------------

impl ConfigPlugin {
    /// The `config` command: editing, showing, reading, writing and checking
    /// the `.meta` file; `show` prints JSON unless YAML or TOML is asked for
    /// (with their help texts).
    pub fn register_commands(&self) -> (r: CommandBuilder)
        ensures
            r@.name == "config"@,
            r@.about == "Manage .meta configuration files"@,
            r@.aliases == seq!["c"@],
            r@.args.len() == 0,
            !r@.allow_external_subcommands,
            r@.subcommands.len() == 5,
            arg_helps(r@.subcommands[0]@) == config_edit_helps(),
            arg_helps(r@.subcommands[1]@) == config_show_helps(),
            arg_helps(r@.subcommands[2]@) == config_get_helps(),
            arg_helps(r@.subcommands[3]@) == config_set_helps(),
            arg_helps(r@.subcommands[4]@) == config_validate_helps(),
            r@.subcommands[0]@.about == "Edit config with interactive TUI"@,
            r@.subcommands[1]@.about == "Display current configuration"@,
            r@.subcommands[2]@.about == "Get a specific config value"@,
            r@.subcommands[3]@.about == "Set a specific config value"@,
            r@.subcommands[4]@.about == "Validate .meta file structure"@,
            shaped(r@.subcommands[0]@, "edit"@, seq!["e"@], seq![valued("file"@, Some('f'))]),
            shaped(r@.subcommands[1]@, "show"@, seq![], seq![valued("format"@, Some('f'))]),
            r@.subcommands[1]@.args[0].default_value == Some("json"@),
            r@.subcommands[1]@.args[0].possible_values == seq!["json"@, "yaml"@, "toml"@],
            shaped(r@.subcommands[2]@, "get"@, seq![], seq![positional("key"@, true)]),
            shaped(
                r@.subcommands[3]@,
                "set"@,
                seq![],
                seq![positional("key"@, true), positional("value"@, true)],
            ),
            shaped(r@.subcommands[4]@, "validate"@, seq![], seq![valued("file"@, Some('f'))]),
    {
        let edit = command("edit")
            .about("Edit config with interactive TUI")
            .alias("e")
            .arg(arg("file").short('f').long("file").help("Path to .meta file").takes_value(true));
        let show = command("show").about("Display current configuration").arg(
            arg("format")
                .short('f')
                .long("format")
                .help("Output format (json, yaml, toml)")
                .takes_value(true)
                .default_value("json")
                .possible_value("json")
                .possible_value("yaml")
                .possible_value("toml"),
        );
        let get = command("get").about("Get a specific config value").arg(
            arg("key")
                .required(true)
                .takes_value(true)
                .help("Config key path (e.g., 'default_bare' or 'projects.myproject.url')"),
        );
        let set = command("set")
            .about("Set a specific config value")
            .arg(arg("key").required(true).takes_value(true).help("Config key path"))
            .arg(arg("value").required(true).takes_value(true).help("Value to set"));
        let validate = command("validate")
            .about("Validate .meta file structure")
            .arg(arg("file").short('f').long("file").help("Path to .meta file to validate").takes_value(true));
        assert(edit@.aliases =~= seq!["e"@]);
        assert(show@.aliases =~= seq![]);
        assert(get@.aliases =~= seq![]);
        assert(set@.aliases =~= seq![]);
        assert(validate@.aliases =~= seq![]);
        assert(edit@.args.map_values(|a: ArgBuilderView| arg_shape(a)) =~= seq![valued("file"@, Some('f'))]);
        assert(show@.args.map_values(|a: ArgBuilderView| arg_shape(a)) =~= seq![valued("format"@, Some('f'))]);
        assert(show@.args[0].possible_values =~= seq!["json"@, "yaml"@, "toml"@]);
        assert(get@.args.map_values(|a: ArgBuilderView| arg_shape(a)) =~= seq![positional("key"@, true)]);
        assert(set@.args.map_values(|a: ArgBuilderView| arg_shape(a)) =~= seq![
            positional("key"@, true),
            positional("value"@, true),
        ]);
        assert(validate@.args.map_values(|a: ArgBuilderView| arg_shape(a)) =~= seq![valued("file"@, Some('f'))]);
        assert(arg_helps(edit@) =~= config_edit_helps());
        assert(arg_helps(show@) =~= config_show_helps());
        assert(arg_helps(get@) =~= config_get_helps());
        assert(arg_helps(set@) =~= config_set_helps());
        assert(arg_helps(validate@) =~= config_validate_helps());
        let r = command(self.name())
            .about(self.description())
            .alias("c")
            .subcommand(edit)
            .subcommand(show)
            .subcommand(get)
            .subcommand(set)
            .subcommand(validate);
        assert(r@.aliases =~= seq!["c"@]);
        r
    }
}

// ---------------------------------------------------------------------------
// `meta run`, `meta git` and `meta rules`
// ---------------------------------------------------------------------------

/// The `run` command: a script of the `.meta` file, run in the chosen
/// projects, or the list of scripts.
fn run_command() -> (r: CommandBuilder)
    ensures
        r@.about == "Run scripts defined in .meta configuration"@,
        r@.name == "run"@,
        r@.subcommands.len() == 0,
        shaped(
            r@,
            "run"@,
            seq![],
            seq![
                positional("script"@, false),
                switch("list"@, Some('l')),
                valued("project"@, Some('p')),
                valued("projects"@, None),
                switch("all"@, Some('a')),
                valued("include-tags"@, None),
                valued("exclude-tags"@, None),
                switch("parallel"@, None),
                switch("existing-only"@, None),
                switch("git-only"@, None),
                switch("no-progress"@, None),
                switch("streaming"@, None),
                valued("env"@, None),
            ],
        ),
{
    let r = command("run")
        .about("Run scripts defined in .meta configuration")
        .with_help_formatting()
        .arg(arg("script").help("Name of the script to run").required(false).takes_value(true))
        .arg(arg("list").long("list").short('l').help("List all available scripts"))
        .arg(arg("project").long("project").short('p').help("Run the script in a single project").takes_value(true))
        .arg(arg("projects").long("projects").help("Comma-separated list of projects").takes_value(true))
        .arg(arg("all").long("all").short('a').help("Run the script in all projects"))
        .arg(arg("include-tags").long("include-tags").help("Only run in projects with these tags (comma-separated)").takes_value(true))
        .arg(arg("exclude-tags").long("exclude-tags").help("Exclude projects with these tags (comma-separated)").takes_value(true))
        .arg(arg("parallel").long("parallel").help("Execute scripts in parallel"))
        .arg(arg("existing-only").long("existing-only").help("Only run in existing directories"))
        .arg(arg("git-only").long("git-only").help("Only run in git repositories"))
        .arg(arg("no-progress").long("no-progress").help("Disable progress indicators"))
        .arg(arg("streaming").long("streaming").help("Show output as it happens"))
        .arg(arg("env").long("env").help("Environment variables, KEY=VALUE (comma-separated)").takes_value(true));
    assert(r@.aliases =~= seq![]);
    assert(r@.args.map_values(|a: ArgBuilderView| arg_shape(a)) =~= seq![
        positional("script"@, false),
        switch("list"@, Some('l')),
        valued("project"@, Some('p')),
        valued("projects"@, None),
        switch("all"@, Some('a')),
        valued("include-tags"@, None),
        valued("exclude-tags"@, None),
        switch("parallel"@, None),
        switch("existing-only"@, None),
        switch("git-only"@, None),
        switch("no-progress"@, None),
        switch("streaming"@, None),
        valued("env"@, None),
    ]);
    r
}

/// The `git` command: cloning a workspace, the status of every project,
/// and cloning the missing ones.
fn git_command() -> (r: CommandBuilder)
    ensures
        r@.name == "git"@,
        r@.subcommands.len() == 3,
        r@.about == "Git operations across all repositories"@,
        r@.subcommands[0]@.about == "Clone meta repo and all child repositories"@,
        r@.subcommands[1]@.about == "Show git status across all repositories"@,
        r@.subcommands[2]@.about == "Clone missing repositories"@,
        shaped(
            r@.subcommands[0]@,
            "clone"@,
            seq![],
            seq![positional("url"@, true), positional("directory"@, false)],
        ),
        shaped(r@.subcommands[1]@, "status"@, seq![], seq![]),
        shaped(r@.subcommands[2]@, "update"@, seq![], seq![]),
{
    let clone = command("clone")
        .about("Clone meta repo and all child repositories")
        .arg(arg("url").help("URL of the meta repository").required(true).takes_value(true))
        .arg(arg("directory").help("Directory to clone into").required(false).takes_value(true));
    let status = command("status").about("Show git status across all repositories");
    let update = command("update").about("Clone missing repositories");
    assert(clone@.aliases =~= seq![]);
    assert(status@.aliases =~= seq![]);
    assert(update@.aliases =~= seq![]);
    assert(clone@.args.map_values(|a: ArgBuilderView| arg_shape(a)) =~= seq![
        positional("url"@, true),
        positional("directory"@, false),
    ]);
    assert(status@.args.map_values(|a: ArgBuilderView| arg_shape(a)) =~= seq![]);
    assert(update@.args.map_values(|a: ArgBuilderView| arg_shape(a)) =~= seq![]);
    command("git")
        .about("Git operations across all repositories")
        .subcommand(clone)
        .subcommand(status)
        .subcommand(update)
}

/// The `rules` command: the documentation of project structure rules.
fn rules_command() -> (r: CommandBuilder)
    ensures
        r@.name == "rules"@,
        r@.subcommands.len() == 1,
        r@.about == "Project structure rules"@,
        r@.subcommands[0]@.about == "Show documentation for creating and using rules"@,
        shaped(
            r@.subcommands[0]@,
            "docs"@,
            seq![],
            seq![positional("rule"@, false), switch("ai"@, None)],
        ),
{
    let docs = command("docs")
        .about("Show documentation for creating and using rules")
        .arg(
            arg("rule")
                .help(
                    "Show only one kind of rule (directory, component, naming, dependency, import, documentation, size, security, file)",
                )
                .required(false)
                .takes_value(true),
        )
        .arg(arg("ai").long("ai").help("Output documentation optimized for AI assistants"));
    assert(docs@.aliases =~= seq![]);
    assert(docs@.args.map_values(|a: ArgBuilderView| arg_shape(a)) =~= seq![
        positional("rule"@, false),
        switch("ai"@, None),
    ]);
    command("rules").about("Project structure rules").subcommand(docs)
}

// ---------------------------------------------------------------------------
// The command line
// ---------------------------------------------------------------------------

/// The command line: the commands of the built-in plugins, and whether
/// experimental features are on.
pub struct MetarepoCli {
    experimental: bool,
    commands: Vec<CommandBuilder>,
}

/// The mathematical value of a [`MetarepoCli`].
pub struct MetarepoCliView {
    pub experimental: bool,
    pub commands: Seq<CommandBuilder>,
}

impl View for MetarepoCli {
    type V = MetarepoCliView;

    closed spec fn view(&self) -> MetarepoCliView {
        MetarepoCliView { experimental: self.experimental, commands: self.commands@ }
    }
}

/// The names of the built-in commands, in the order they are offered:
/// `plugin` only with experimental features.
pub open spec fn builtin_command_names(experimental: bool) -> Seq<Seq<char>> {
    if experimental {
        seq!["config"@, "exec"@, "git"@, "plugin"@, "project"@, "rules"@, "run"@, "worktree"@]
    } else {
        seq!["config"@, "exec"@, "git"@, "project"@, "rules"@, "run"@, "worktree"@]
    }
}

/// The names of a list of command descriptions.
pub open spec fn command_names(cs: Seq<CommandBuilder>) -> Seq<Seq<char>> {
    cs.map_values(|c: CommandBuilder| c@.name)
}

impl MetarepoCli {
    /// The command line without experimental features.
    pub fn new() -> (r: Self)
        ensures
            !r@.experimental,
            command_names(r@.commands) == builtin_command_names(false),
    {
        Self::new_with_flags(false)
    }

    /// The command line with every built-in plugin registered; experimental
    /// ones (the plugin manager) only when `experimental` is set.
    pub fn new_with_flags(experimental: bool) -> (r: Self)
        ensures
            r@.experimental == experimental,
            command_names(r@.commands) == builtin_command_names(experimental),
    {
        let config = ConfigPlugin::new();
        let exec = ExecPlugin::new();
        let manager = PluginManagerPlugin::new();
        let project = ProjectPlugin::new();
        let worktree = WorktreePlugin::new();
        let mut commands: Vec<CommandBuilder> = Vec::new();
        if experimental || !config.is_experimental() {
            commands.push(config.register_commands());
        }
        if experimental || !exec.is_experimental() {
            commands.push(exec.register_commands());
        }
        commands.push(git_command());
        if experimental || !manager.is_experimental() {
            if let Some(c) = PluginManagerPlugin::create_plugin().register_commands() {
                commands.push(c);
            }
        }
        if experimental || !project.is_experimental() {
            if let Some(c) = ProjectPlugin::create_plugin().register_commands() {
                commands.push(c);
            }
        }
        commands.push(rules_command());
        commands.push(run_command());
        if experimental || !worktree.is_experimental() {
            if let Some(c) = WorktreePlugin::create_plugin().register_commands() {
                commands.push(c);
            }
        }
        assert(command_names(commands@) =~= builtin_command_names(experimental));
        MetarepoCli { experimental, commands }
    }

    /// Whether experimental features are on.
    pub fn experimental(&self) -> (r: bool)
        ensures
            r == self@.experimental,
    {
        self.experimental
    }

    /// The command descriptions, in the order they are offered.
    pub fn commands(&self) -> (r: &Vec<CommandBuilder>)
        ensures
            r@ == self@.commands,
    {
        &self.commands
    }
}

/// Experimental features only add commands: every command offered without
/// them is offered with them too, in the same order.
pub proof fn law_experimental_only_adds()
    ensures
        forall|i: int|
            0 <= i < builtin_command_names(false).len() ==> builtin_command_names(true).contains(
                #[trigger] builtin_command_names(false)[i],
            ),
        builtin_command_names(false) == builtin_command_names(true).remove(3),
{
    let with = builtin_command_names(true);
    let without = builtin_command_names(false);
    assert(without =~= with.remove(3));
    assert forall|i: int| 0 <= i < without.len() implies with.contains(#[trigger] without[i]) by {
        if i < 3 {
            assert(with[i] == without[i]);
        } else {
            assert(with[i + 1] == without[i]);
        }
    }
}

} // verus!
