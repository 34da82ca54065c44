//! Declarative descriptions of plugin commands and their arguments, and the
//! settings they give the command-line parser.
use vstd::prelude::*;
use vstd::string::*;

use crate::text;

verus! {

// ---------------------------------------------------------------------------
// Arguments
// ---------------------------------------------------------------------------

/// Describes one argument of a command.
pub struct ArgBuilder {
    name: String,
    short: Option<char>,
    long: Option<String>,
    help: Option<String>,
    required: bool,
    takes_value: bool,
    default_value: Option<String>,
    possible_values: Vec<String>,
}

/// The mathematical value of an [`ArgBuilder`].
pub struct ArgBuilderView {
    pub name: Seq<char>,
    pub short: Option<char>,
    pub long: Option<Seq<char>>,
    pub help: Option<Seq<char>>,
    pub required: bool,
    pub takes_value: bool,
    pub default_value: Option<Seq<char>>,
    pub possible_values: Seq<Seq<char>>,
}

/// The view of an optional string.
pub open spec fn opt_view(s: Option<String>) -> Option<Seq<char>> {
    match s {
        Some(x) => Some(x@),
        None => None,
    }
}

impl View for ArgBuilder {
    type V = ArgBuilderView;

    closed spec fn view(&self) -> ArgBuilderView {
        ArgBuilderView {
            name: self.name@,
            short: self.short,
            long: opt_view(self.long),
            help: opt_view(self.help),
            required: self.required,
            takes_value: self.takes_value,
            default_value: opt_view(self.default_value),
            possible_values: text::strings_view(self.possible_values@),
        }
    }
}

/// How the parser treats an argument.
#[derive(Debug, Clone, Copy, PartialEq, Eq, Structural)]
pub enum ArgAction {
    /// It takes a value, which is stored.
    StoreValue,
    /// It is a flag, true when present.
    StoreTrue,
}

/// The parser settings of an argument.
pub struct ArgSpec {
    pub name: String,
    pub short: Option<char>,
    pub long: Option<String>,
    pub help: Option<String>,
    pub required: bool,
    pub action: ArgAction,
    pub default_value: Option<String>,
    pub possible_values: Vec<String>,
}

/// The parser settings an argument description gives: a value argument is
/// set from its value, a flag is set true when present and reads `false`
/// when absent; an explicit default replaces that; possible values restrict
/// the value when there are any.
pub open spec fn arg_spec_of(a: ArgBuilderView, s: ArgSpec) -> bool {
    &&& s.name@ == a.name
    &&& s.short == a.short
    &&& opt_view(s.long) == a.long
    &&& opt_view(s.help) == a.help
    &&& s.required == a.required
    &&& s.action == (if a.takes_value {
        ArgAction::StoreValue
    } else {
        ArgAction::StoreTrue
    })
    &&& opt_view(s.default_value) == (match a.default_value {
        Some(d) => Some(d),
        None => if a.takes_value {
            None
        } else {
            Some("false"@)
        },
    })
    &&& text::strings_view(s.possible_values@) == a.possible_values
}

/// An argument with only a name: an optional flag.
pub open spec fn fresh_arg(name: Seq<char>) -> ArgBuilderView {
    ArgBuilderView {
        name,
        short: None,
        long: None,
        help: None,
        required: false,
        takes_value: false,
        default_value: None,
        possible_values: Seq::empty(),
    }
}

impl ArgBuilder {
    /// An argument with only a name: an optional flag.
    pub fn new(name: &str) -> (r: Self)
        ensures
            r@ == fresh_arg(name@),
    {
        let r = ArgBuilder {
            name: String::from_str(name),
            short: None,
            long: None,
            help: None,
            required: false,
            takes_value: false,
            default_value: None,
            possible_values: Vec::new(),
        };
        assert(text::strings_view(r.possible_values@) =~= Seq::<Seq<char>>::empty());
        r
    }

    /// Sets the short flag.
    pub fn short(self, short: char) -> (r: Self)
        ensures
            r@ == (ArgBuilderView { short: Some(short), ..self@ }),
    {
        ArgBuilder { short: Some(short), ..self }
    }

    /// Sets the long flag.
    pub fn long(self, long: &str) -> (r: Self)
        ensures
            r@ == (ArgBuilderView { long: Some(long@), ..self@ }),
    {
        ArgBuilder { long: Some(String::from_str(long)), ..self }
    }

    /// Sets the help text.
    pub fn help(self, help: &str) -> (r: Self)
        ensures
            r@ == (ArgBuilderView { help: Some(help@), ..self@ }),
    {
        ArgBuilder { help: Some(String::from_str(help)), ..self }
    }

    /// Sets whether the argument must be given.
    pub fn required(self, required: bool) -> (r: Self)
        ensures
            r@ == (ArgBuilderView { required, ..self@ }),
    {
        ArgBuilder { required, ..self }
    }

    /// Sets whether the argument takes a value.
    pub fn takes_value(self, takes: bool) -> (r: Self)
        ensures
            r@ == (ArgBuilderView { takes_value: takes, ..self@ }),
    {
        ArgBuilder { takes_value: takes, ..self }
    }

    /// Sets the default value.
    pub fn default_value(self, value: &str) -> (r: Self)
        ensures
            r@ == (ArgBuilderView { default_value: Some(value@), ..self@ }),
    {
        ArgBuilder { default_value: Some(String::from_str(value)), ..self }
    }

    /// Adds a possible value.
    pub fn possible_value(self, value: &str) -> (r: Self)
        ensures
            r@ == (ArgBuilderView {
                possible_values: self@.possible_values.push(value@),
                ..self@
            }),
    {
        let mut s = self;
        let ghost before = s.possible_values@;
        let v = String::from_str(value);
        s.possible_values.push(v);
        proof {
            text::lemma_strings_view_push(before, v);
        }
        s
    }

    /// The parser settings of the argument (see [`arg_spec_of`]).
    pub fn build(&self) -> (r: ArgSpec)
        ensures
            arg_spec_of(self@, r),
    {
        let default_value = match &self.default_value {
            Some(d) => Some(d.clone()),
            None => if self.takes_value {
                None
            } else {
                Some(String::from_str("false"))
            },
        };
        ArgSpec {
            name: self.name.clone(),
            short: self.short,
            long: match &self.long {
                Some(l) => Some(l.clone()),
                None => None,
            },
            help: match &self.help {
                Some(h) => Some(h.clone()),
                None => None,
            },
            required: self.required,
            action: if self.takes_value {
                ArgAction::StoreValue
            } else {
                ArgAction::StoreTrue
            },
            default_value,
            possible_values: text::copy_strings(&self.possible_values),
        }
    }
}

/// An argument description (shorthand for [`ArgBuilder::new`]).
pub fn arg(name: &str) -> (r: ArgBuilder)
    ensures
        r@ == fresh_arg(name@),
{
    ArgBuilder::new(name)
}

// ---------------------------------------------------------------------------
// Commands
// ---------------------------------------------------------------------------

/// Describes one command of a plugin, with its arguments and subcommands.
pub struct CommandBuilder {
    name: String,
    about: String,
    long_about: Option<String>,
    aliases: Vec<String>,
    args: Vec<ArgBuilder>,
    subcommands: Vec<CommandBuilder>,
    allow_external_subcommands: bool,
}

/// The mathematical value of a [`CommandBuilder`]; the subcommands are
/// themselves command descriptions.
pub struct CommandBuilderView {
    pub name: Seq<char>,
    pub about: Seq<char>,
    pub long_about: Option<Seq<char>>,
    pub aliases: Seq<Seq<char>>,
    pub args: Seq<ArgBuilderView>,
    pub subcommands: Seq<CommandBuilder>,
    pub allow_external_subcommands: bool,
}

/// The views of a sequence of argument descriptions.
pub open spec fn args_view(v: Seq<ArgBuilder>) -> Seq<ArgBuilderView> {
    v.map_values(|a: ArgBuilder| a@)
}

impl View for CommandBuilder {
    type V = CommandBuilderView;

    closed spec fn view(&self) -> CommandBuilderView {
        CommandBuilderView {
            name: self.name@,
            about: self.about@,
            long_about: opt_view(self.long_about),
            aliases: text::strings_view(self.aliases@),
            args: args_view(self.args@),
            subcommands: self.subcommands@,
            allow_external_subcommands: self.allow_external_subcommands,
        }
    }
}

/// A command with only a name.
pub open spec fn fresh_command(name: Seq<char>) -> CommandBuilderView {
    CommandBuilderView {
        name,
        about: Seq::empty(),
        long_about: None,
        aliases: Seq::empty(),
        args: Seq::empty(),
        subcommands: Seq::empty(),
        allow_external_subcommands: false,
    }
}

/// The parser settings of one command (its subcommands are built from
/// their own descriptions).
pub struct CommandSpec {
    pub name: String,
    pub about: String,
    pub long_about: Option<String>,
    pub visible_aliases: Vec<String>,
    pub args: Vec<ArgSpec>,
    pub allow_external_subcommands: bool,
}

/// The parser settings a command description gives: its name, description,
/// long description when set, its aliases as visible aliases, each argument's
/// settings in order, and whether unknown subcommands pass through.
pub open spec fn command_spec_of(c: CommandBuilderView, s: CommandSpec) -> bool {
    &&& s.name@ == c.name
    &&& s.about@ == c.about
    &&& opt_view(s.long_about) == c.long_about
    &&& text::strings_view(s.visible_aliases@) == c.aliases
    &&& s.args@.len() == c.args.len()
    &&& forall|i: int| 0 <= i < c.args.len() ==> arg_spec_of(c.args[i], #[trigger] s.args@[i])
    &&& s.allow_external_subcommands == c.allow_external_subcommands
}

impl CommandBuilder {
    /// A command with only a name.
    pub fn new(name: &str) -> (r: Self)
        ensures
            r@ == fresh_command(name@),
    {
        let r = CommandBuilder {
            name: String::from_str(name),
            about: String::new(),
            long_about: None,
            aliases: Vec::new(),
            args: Vec::new(),
            subcommands: Vec::new(),
            allow_external_subcommands: false,
        };
        assert(text::strings_view(r.aliases@) =~= Seq::<Seq<char>>::empty());
        assert(args_view(r.args@) =~= Seq::<ArgBuilderView>::empty());
        assert(r.subcommands@ =~= Seq::<CommandBuilder>::empty());
        r
    }

    /// Sets the description.
    pub fn about(self, about: &str) -> (r: Self)
        ensures
            r@ == (CommandBuilderView { about: about@, ..self@ }),
    {
        CommandBuilder { about: String::from_str(about), ..self }
    }

    /// Sets the long description.
    pub fn long_about(self, long_about: &str) -> (r: Self)
        ensures
            r@ == (CommandBuilderView { long_about: Some(long_about@), ..self@ }),
    {
        CommandBuilder { long_about: Some(String::from_str(long_about)), ..self }
    }

    /// Adds an alias.
    pub fn alias(self, alias: &str) -> (r: Self)
        ensures
            r@ == (CommandBuilderView { aliases: self@.aliases.push(alias@), ..self@ }),
    {
        let mut s = self;
        let ghost before = s.aliases@;
        let a = String::from_str(alias);
        s.aliases.push(a);
        proof {
            text::lemma_strings_view_push(before, a);
        }
        s
    }

    /// Adds several aliases, in order.
    pub fn aliases(self, aliases: Vec<String>) -> (r: Self)
        ensures
            r@ == (CommandBuilderView {
                aliases: self@.aliases + text::strings_view(aliases@),
                ..self@
            }),
    {
        let ghost orig = self@;
        let mut s = self;
        let ghost start = text::strings_view(s.aliases@);
        let mut i: usize = 0;
        while i < aliases.len()
            invariant
                i <= aliases.len(),
                start == orig.aliases,
                s@ == (CommandBuilderView { aliases: text::strings_view(s.aliases@), ..orig }),
                text::strings_view(s.aliases@) == start + text::strings_view(aliases@).take(i as int),
            decreases aliases.len() - i,
        {
            let ghost before = s.aliases@;
            let a = aliases[i].clone();
            s.aliases.push(a);
            proof {
                text::lemma_strings_view_push(before, a);
            }
            assert(start + text::strings_view(aliases@).take(i + 1) =~= (start + text::strings_view(
                aliases@,
            ).take(i as int)).push(a@));
            i += 1;
        }
        assert(text::strings_view(aliases@).take(aliases.len() as int) =~= text::strings_view(aliases@));
        s
    }

    /// Adds an argument.
    pub fn arg(self, arg: ArgBuilder) -> (r: Self)
        ensures
            r@ == (CommandBuilderView { args: self@.args.push(arg@), ..self@ }),
    {
        let mut s = self;
        let ghost before = s.args@;
        let ghost av = arg@;
        s.args.push(arg);
        proof {
            assert(args_view(s.args@) =~= args_view(before).push(av));
        }
        s
    }

    /// Adds a subcommand.
    pub fn subcommand(self, cmd: CommandBuilder) -> (r: Self)
        ensures
            r@ == (CommandBuilderView { subcommands: self@.subcommands.push(cmd), ..self@ }),
    {
        let mut s = self;
        s.subcommands.push(cmd);
        s
    }

    /// Sets whether unknown subcommands pass through to the handler (as
    /// `exec` needs for arbitrary commands).
    pub fn allow_external_subcommands(self, allow: bool) -> (r: Self)
        ensures
            r@ == (CommandBuilderView { allow_external_subcommands: allow, ..self@ }),
    {
        CommandBuilder { allow_external_subcommands: allow, ..self }
    }

    /// Kept so that older plugin descriptions still build: it changes
    /// nothing.
    pub fn with_help_formatting(self) -> (r: Self)
        ensures
            r@ == self@,
    {
        self
    }

    /// The subcommand descriptions, in order.
    pub fn subcommands(&self) -> (r: &Vec<CommandBuilder>)
        ensures
            r@ == self@.subcommands,
    {
        &self.subcommands
    }

    /// The parser settings of this command (see [`command_spec_of`]).
    pub fn build(&self) -> (r: CommandSpec)
        ensures
            command_spec_of(self@, r),
    {
        let mut args: Vec<ArgSpec> = Vec::new();
        let mut i: usize = 0;
        while i < self.args.len()
            invariant
                i <= self.args.len(),
                args@.len() == i,
                forall|j: int| 0 <= j < i ==> arg_spec_of(self.args@[j]@, #[trigger] args@[j]),
            decreases self.args.len() - i,
        {
            args.push(self.args[i].build());
            i += 1;
        }
        CommandSpec {
            name: self.name.clone(),
            about: self.about.clone(),
            long_about: match &self.long_about {
                Some(l) => Some(l.clone()),
                None => None,
            },
            visible_aliases: text::copy_strings(&self.aliases),
            args,
            allow_external_subcommands: self.allow_external_subcommands,
        }
    }
}

/// A command description (shorthand for [`CommandBuilder::new`]).
pub fn command(name: &str) -> (r: CommandBuilder)
    ensures
        r@ == fresh_command(name@),
{
    CommandBuilder::new(name)
}

// ---------------------------------------------------------------------------
// Plugins
// ---------------------------------------------------------------------------

/// Describes a plugin: who it is and the commands it offers. The code that
/// runs each command is attached where the command line is parsed.
pub struct PluginBuilder {
    name: String,
    version: String,
    description: String,
    author: String,
    experimental: bool,
    commands: Vec<CommandBuilder>,
}

/// The mathematical value of a [`PluginBuilder`] or a [`BuiltPlugin`].
pub struct PluginView {
    pub name: Seq<char>,
    pub version: Seq<char>,
    pub description: Seq<char>,
    pub author: Seq<char>,
    pub experimental: bool,
    pub commands: Seq<CommandBuilder>,
}

impl View for PluginBuilder {
    type V = PluginView;

    closed spec fn view(&self) -> PluginView {
        PluginView {
            name: self.name@,
            version: self.version@,
            description: self.description@,
            author: self.author@,
            experimental: self.experimental,
            commands: self.commands@,
        }
    }
}

/// A plugin with only a name: version 0.1.0, no description, no author,
/// not experimental, no commands.
pub open spec fn fresh_plugin(name: Seq<char>) -> PluginView {
    PluginView {
        name,
        version: "0.1.0"@,
        description: Seq::empty(),
        author: Seq::empty(),
        experimental: false,
        commands: Seq::empty(),
    }
}

impl PluginBuilder {
    /// A plugin with only a name (see [`fresh_plugin`]).
    pub fn new(name: &str) -> (r: Self)
        ensures
            r@ == fresh_plugin(name@),
    {
        let r = PluginBuilder {
            name: String::from_str(name),
            version: String::from_str("0.1.0"),
            description: String::new(),
            author: String::new(),
            experimental: false,
            commands: Vec::new(),
        };
        assert(r.commands@ =~= Seq::<CommandBuilder>::empty());
        r
    }

    /// Sets the version.
    pub fn version(self, version: &str) -> (r: Self)
        ensures
            r@ == (PluginView { version: version@, ..self@ }),
    {
        PluginBuilder { version: String::from_str(version), ..self }
    }

    /// Sets the description.
    pub fn description(self, desc: &str) -> (r: Self)
        ensures
            r@ == (PluginView { description: desc@, ..self@ }),
    {
        PluginBuilder { description: String::from_str(desc), ..self }
    }

    /// Sets the author.
    pub fn author(self, author: &str) -> (r: Self)
        ensures
            r@ == (PluginView { author: author@, ..self@ }),
    {
        PluginBuilder { author: String::from_str(author), ..self }
    }

    /// Marks the plugin as experimental, or not.
    pub fn experimental(self, experimental: bool) -> (r: Self)
        ensures
            r@ == (PluginView { experimental, ..self@ }),
    {
        PluginBuilder { experimental, ..self }
    }

    /// Adds a command.
    pub fn command(self, builder: CommandBuilder) -> (r: Self)
        ensures
            r@ == (PluginView { commands: self@.commands.push(builder), ..self@ }),
    {
        let mut s = self;
        s.commands.push(builder);
        s
    }

    /// The plugin described.
    pub fn build(self) -> (r: BuiltPlugin)
        ensures
            r@ == self@,
    {
        BuiltPlugin {
            name: self.name,
            version: self.version,
            description: self.description,
            author: self.author,
            experimental: self.experimental,
            commands: self.commands,
        }
    }
}

/// A plugin described by a [`PluginBuilder`].
pub struct BuiltPlugin {
    name: String,
    version: String,
    description: String,
    author: String,
    experimental: bool,
    commands: Vec<CommandBuilder>,
}

impl View for BuiltPlugin {
    type V = PluginView;

    closed spec fn view(&self) -> PluginView {
        PluginView {
            name: self.name@,
            version: self.version@,
            description: self.description@,
            author: self.author@,
            experimental: self.experimental,
            commands: self.commands@,
        }
    }
}

impl BuiltPlugin {
    /// Its name, which is its command's name.
    pub fn name(&self) -> (r: &str)
        ensures
            r@ == self@.name,
    {
        self.name.as_str()
    }

    /// Its version.
    pub fn version(&self) -> (r: Option<&str>)
        ensures
            r matches Some(v) && v@ == self@.version,
    {
        Some(self.version.as_str())
    }

    /// What it does.
    pub fn description(&self) -> (r: Option<&str>)
        ensures
            r matches Some(d) && d@ == self@.description,
    {
        Some(self.description.as_str())
    }

    /// Who wrote it.
    pub fn author(&self) -> (r: Option<&str>)
        ensures
            r matches Some(a) && a@ == self@.author,
    {
        Some(self.author.as_str())
    }

    /// Whether it is only offered with experimental features.
    pub fn is_experimental(&self) -> (r: bool)
        ensures
            r == self@.experimental,
    {
        self.experimental
    }

    /// Its commands, in order.
    pub fn commands(&self) -> (r: &Vec<CommandBuilder>)
        ensures
            r@ == self@.commands,
    {
        &self.commands
    }

    /// The command the plugin adds to the command line: one named after the
    /// plugin, described by its description, with its commands as
    /// subcommands; none when it has no commands.
    pub fn register_commands(self) -> (r: Option<CommandBuilder>)
        ensures
            self@.commands.len() == 0 <==> r is None,
            r matches Some(c) ==> c@ == (CommandBuilderView {
                about: self@.description,
                subcommands: self@.commands,
                ..fresh_command(self@.name)
            }),
    {
        if self.commands.len() == 0 {
            return None;
        }
        let c = CommandBuilder {
            name: self.name,
            about: self.description,
            long_about: None,
            aliases: Vec::new(),
            args: Vec::new(),
            subcommands: self.commands,
            allow_external_subcommands: false,
        };
        assert(text::strings_view(c.aliases@) =~= Seq::<Seq<char>>::empty());
        assert(args_view(c.args@) =~= Seq::<ArgBuilderView>::empty());
        Some(c)
    }
}

/// A plugin description (shorthand for [`PluginBuilder::new`]).
pub fn plugin(name: &str) -> (r: PluginBuilder)
    ensures
        r@ == fresh_plugin(name@),
{
    PluginBuilder::new(name)
}

} // verus!
