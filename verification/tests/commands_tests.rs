use metarepo::builder::{ArgAction, BuiltPlugin, CommandBuilder, CommandSpec};
use metarepo::commands::MetarepoCli;
use metarepo::plugins::{ConfigPlugin, ExecPlugin, PluginManagerPlugin, ProjectPlugin, WorktreePlugin};

fn sub_names(c: &CommandBuilder) -> Vec<String> {
    c.subcommands().iter().map(|s| s.build().name).collect()
}

fn sub(c: &CommandBuilder, name: &str) -> CommandSpec {
    c.subcommands().iter().map(|s| s.build()).find(|s| s.name == name).unwrap()
}

fn registered(p: BuiltPlugin) -> CommandBuilder {
    p.register_commands().unwrap()
}

fn arg_names(s: &CommandSpec) -> Vec<String> {
    s.args.iter().map(|a| a.name.clone()).collect()
}

#[test]
fn project_plugin_offers_its_subcommands() {
    let p = ProjectPlugin::create_plugin();
    assert_eq!(p.name(), "project");
    assert_eq!(p.author(), Some("Metarepo Contributors"));
    assert!(!p.is_experimental());
    let c = registered(p);
    let top = c.build();
    assert_eq!(top.name, "project");
    assert_eq!(top.about, "Project management operations");
    assert_eq!(
        sub_names(&c),
        vec!["add", "list", "tree", "update", "remove", "update-gitignore", "rename", "convert-to-bare", "tag"]
    );
    let tag = c.subcommands().iter().find(|s| s.build().name == "tag").unwrap();
    assert_eq!(sub_names(tag), vec!["add", "remove", "list"]);
    let tag_add = sub(tag, "add");
    assert_eq!(arg_names(&tag_add), vec!["project", "tags", "all"]);
    assert_eq!(tag_add.args[2].short, Some('a'));
    let add = sub(&c, "add");
    assert_eq!(add.visible_aliases, vec!["import", "i", "a"]);
    assert_eq!(
        arg_names(&add),
        vec!["path", "source", "recursive", "max-depth", "flatten", "no-recursive", "init-git", "bare"]
    );
    let max_depth = &add.args[3];
    assert_eq!(max_depth.long.as_deref(), Some("max-depth"));
    assert_eq!(max_depth.action, ArgAction::StoreValue);
    let recursive = &add.args[2];
    assert_eq!(recursive.short, Some('r'));
    assert_eq!(recursive.action, ArgAction::StoreTrue);
    assert_eq!(recursive.default_value.as_deref(), Some("false"));
    let rename = sub(&c, "rename");
    assert!(rename.args.iter().all(|a| a.required && a.long.is_none()));
}

#[test]
fn worktree_plugin_offers_its_subcommands() {
    let c = registered(WorktreePlugin::create_plugin());
    assert_eq!(c.build().name, "worktree");
    assert_eq!(sub_names(&c), vec!["add", "remove", "list", "prune"]);
    let add = sub(&c, "add");
    assert_eq!(add.visible_aliases, vec!["create", "new"]);
    let from = add.args.iter().find(|a| a.name == "from").unwrap();
    assert_eq!(from.short, Some('f'));
    assert_eq!(from.action, ArgAction::StoreValue);
    let prune = sub(&c, "prune");
    assert_eq!(prune.args[0].short, Some('n'));
}

#[test]
fn exec_passes_unknown_commands_through() {
    let c = ExecPlugin::new().register_commands();
    let spec = c.build();
    assert_eq!(spec.name, "exec");
    assert!(spec.allow_external_subcommands);
    assert!(spec.visible_aliases.is_empty());
    assert_eq!(spec.args.len(), 13);
    let streaming = spec.args.iter().find(|a| a.name == "streaming").unwrap();
    assert_eq!(streaming.action, ArgAction::StoreTrue);
    assert!(c.subcommands().is_empty());
}

#[test]
fn config_show_defaults_to_json() {
    let c = ConfigPlugin::new().register_commands();
    assert_eq!(c.build().visible_aliases, vec!["c"]);
    assert_eq!(sub_names(&c), vec!["edit", "show", "get", "set", "validate"]);
    let show = sub(&c, "show");
    assert_eq!(show.args[0].default_value.as_deref(), Some("json"));
    assert_eq!(show.args[0].possible_values, vec!["json", "yaml", "toml"]);
}

#[test]
fn plugin_manager_offers_its_subcommands() {
    let c = registered(PluginManagerPlugin::create_plugin());
    assert_eq!(c.build().name, "plugin");
    assert_eq!(sub_names(&c), vec!["add", "install", "remove", "list", "update"]);
    assert!(sub(&c, "install").args[0].required);
}

#[test]
fn plugin_manager_only_with_experimental_features() {
    let plain = MetarepoCli::new();
    assert!(!plain.experimental());
    let names: Vec<String> = plain.commands().iter().map(|c| c.build().name).collect();
    assert_eq!(names, vec!["config", "exec", "git", "project", "rules", "run", "worktree"]);
    let experimental = MetarepoCli::new_with_flags(true);
    assert!(experimental.experimental());
    let names: Vec<String> = experimental.commands().iter().map(|c| c.build().name).collect();
    assert_eq!(names, vec!["config", "exec", "git", "plugin", "project", "rules", "run", "worktree"]);
}

#[test]
fn exec_plugin_has_one_aliased_command() {
    let p = ExecPlugin::create_plugin();
    assert_eq!(p.commands().len(), 1);
    let spec = p.commands()[0].build();
    assert_eq!(spec.name, "exec");
    assert_eq!(spec.visible_aliases, vec!["e", "x"]);
    assert_eq!(spec.args.len(), 13);
    assert!(spec.args.iter().any(|a| a.name == "no-progress" && a.action == ArgAction::StoreTrue));
    assert!(spec.args.iter().any(|a| a.name == "streaming" && a.action == ArgAction::StoreTrue));
    assert!(spec.allow_external_subcommands);
}

#[test]
fn help_texts_are_those_of_the_commands() {
    let c = registered(ProjectPlugin::create_plugin());
    let add = sub(&c, "add");
    assert_eq!(add.args[0].help.as_deref(), Some("Local directory name for the project"));
    assert!(add.long_about.as_deref().unwrap().starts_with("Add a project to the workspace.\n\nThis command can:"));
    let convert = sub(&c, "convert-to-bare");
    assert_eq!(convert.about, "Convert a normal repository to bare repository with worktrees");
    let exec = ExecPlugin::new().register_commands().build();
    let streaming = exec.args.iter().find(|a| a.name == "streaming").unwrap();
    assert_eq!(streaming.help.as_deref(), Some("Show output as it happens instead of buffered (legacy behavior)"));
}
