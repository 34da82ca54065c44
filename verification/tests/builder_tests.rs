use metarepo::builder::{arg, command, plugin, ArgAction};

#[test]
fn test_command_builder() {
    let cmd = command("test")
        .about("Test command")
        .long_about("This is a longer description")
        .aliases(vec!["t".to_string(), "tst".to_string()])
        .arg(arg("verbose").short('v').long("verbose").help("Enable verbose output"))
        .build();

    assert_eq!(cmd.name, "test");
    assert_eq!(Some(cmd.about.clone()), Some("Test command".to_string()));
    assert_eq!(cmd.long_about, Some("This is a longer description".to_string()));
    assert!(cmd.visible_aliases.contains(&"t".to_string()));
    assert!(cmd.visible_aliases.contains(&"tst".to_string()));
    let verbose_arg = cmd.args.iter().find(|a| a.name == "verbose");
    assert!(verbose_arg.is_some());
}

#[test]
fn test_arg_builder_flag() {
    let arg = arg("verbose").short('v').long("verbose").help("Enable verbose output").build();

    assert_eq!(arg.name, "verbose");
    assert_eq!(arg.short, Some('v'));
    assert_eq!(arg.long.as_deref(), Some("verbose"));
    assert_eq!(arg.help, Some("Enable verbose output".to_string()));
}

#[test]
fn test_arg_builder_with_value() {
    let arg = arg("input")
        .long("input")
        .help("Input file")
        .required(true)
        .takes_value(true)
        .default_value("default.txt")
        .build();

    assert_eq!(arg.name, "input");
    assert_eq!(arg.long.as_deref(), Some("input"));
    assert!(arg.required);
    assert_eq!(arg.default_value, Some("default.txt".to_string()));
}

#[test]
fn test_arg_builder_with_possible_values() {
    let arg = arg("format")
        .long("format")
        .help("Output format")
        .takes_value(true)
        .possible_value("json")
        .possible_value("yaml")
        .possible_value("text")
        .build();

    assert_eq!(arg.name, "format");
    assert_eq!(arg.possible_values, vec!["json", "yaml", "text"]);
}

#[test]
fn test_command_builder_with_subcommands() {
    let builder = command("parent")
        .about("Parent command")
        .subcommand(command("child1").about("First child"))
        .subcommand(command("child2").about("Second child").arg(arg("option").long("option").takes_value(true)));
    let cmd = builder.build();

    assert_eq!(cmd.name, "parent");

    let subs: Vec<_> = builder.subcommands().iter().map(|c| c.build()).collect();
    let child1 = subs.iter().find(|c| c.name == "child1");
    assert!(child1.is_some());
    assert_eq!(child1.unwrap().about, "First child");

    let child2 = subs.iter().find(|c| c.name == "child2");
    assert!(child2.is_some());
    let child2 = child2.unwrap();
    assert_eq!(child2.about, "Second child");

    let option_arg = child2.args.iter().find(|a| a.name == "option");
    assert!(option_arg.is_some());
}

#[test]
fn test_command_builder_external_subcommands() {
    let cmd = command("exec").about("Execute commands").allow_external_subcommands(true).build();

    assert_eq!(cmd.name, "exec");
    assert!(cmd.allow_external_subcommands);
}

#[test]
fn flags_read_false_when_absent_unless_a_default_is_given() {
    let flag = arg("quiet").build();
    assert_eq!(flag.action, ArgAction::StoreTrue);
    assert_eq!(flag.default_value, Some("false".to_string()));

    let flag = arg("quiet").default_value("true").build();
    assert_eq!(flag.default_value, Some("true".to_string()));

    let value = arg("name").takes_value(true).build();
    assert_eq!(value.action, ArgAction::StoreValue);
    assert_eq!(value.default_value, None);
}

#[test]
fn help_formatting_changes_nothing() {
    let a = command("x").about("y").with_help_formatting().build();
    assert_eq!(a.name, "x");
    assert_eq!(a.about, "y");
    assert!(a.args.is_empty());
    assert!(a.visible_aliases.is_empty());
    assert_eq!(a.long_about, None);
    assert!(!a.allow_external_subcommands);
}

#[test]
fn aliases_keep_their_order() {
    let cmd = command("rm").alias("remove").aliases(vec!["del".to_string(), "delete".to_string()]).build();
    assert_eq!(cmd.visible_aliases, vec!["remove", "del", "delete"]);
}

#[test]
fn test_plugin_builder_basic() {
    let plugin = plugin("test-plugin")
        .version("1.0.0")
        .description("Test plugin")
        .author("Test Author")
        .experimental(true)
        .build();

    assert_eq!(plugin.name(), "test-plugin");
    assert_eq!(plugin.version(), Some("1.0.0"));
    assert_eq!(plugin.description(), Some("Test plugin"));
    assert_eq!(plugin.author(), Some("Test Author"));
    assert!(plugin.is_experimental());
}

#[test]
fn test_plugin_builder_with_commands() {
    let plugin = plugin("test-plugin")
        .command(
            command("test-cmd")
                .about("Test command")
                .arg(arg("input").short('i').long("input").help("Input file").takes_value(true)),
        )
        .build();

    let plugin_cmd = plugin.register_commands();
    assert!(plugin_cmd.is_some());
    let plugin_cmd = plugin_cmd.unwrap();
    assert_eq!(plugin_cmd.build().name, "test-plugin");
    let test_cmd = plugin_cmd.subcommands().iter().find(|c| c.build().name == "test-cmd");
    assert!(test_cmd.is_some());
}

#[test]
fn plugin_defaults_and_empty_registration() {
    let p = plugin("bare").build();
    assert_eq!(p.version(), Some("0.1.0"));
    assert_eq!(p.description(), Some(""));
    assert!(!p.is_experimental());
    assert!(p.register_commands().is_none());
}
