//! The command line of the server.

use vstd::prelude::*;

use crate::text::{blank, is_blank, is_space};
use crate::wire::opt_text;

verus! {

/// Environment variable consulted when `--config` is not given.
pub const CONFIG_ENV_VAR: &'static str = "PRAXIS_CONFIG";

/// What the server is, for the long help.
pub const LONG_ABOUT: &'static str = "Experimental Praxis AI gateway.\n\nMirrors the `--config` surface of praxis-ai's own bin. The validate and dump subcommands are deliberately not mirrored: they live in praxis-ai's private `commands` module and are not reachable from a downstream binary.";

/// What the configuration option means, for the long help.
pub const CONFIG_LONG_HELP: &'static str = "Path to the YAML configuration file.\n\nFalls back to `$PRAXIS_CONFIG`, then to `praxis.yaml` in the working directory. The container image sets that directory to `/etc/praxis`.";

/// `clap::Command`: a command line definition.
#[verifier::external_type_specification]
#[verifier::external_body]
pub struct ExCommand(clap::Command);

/// What defines a command line with one option that takes a value.
#[derive(Debug, Clone)]
pub struct Definition {
    /// The program's name.
    pub name: &'static str,
    /// The program's version.
    pub version: &'static str,
    /// What the program is.
    pub about: &'static str,
    /// What the program is, for the long help.
    pub long_about: &'static str,
    /// The option that its value is asked for by.
    pub option: &'static str,
    /// The option's short flag.
    pub short: char,
    /// The option's long flag.
    pub long: &'static str,
    /// What the option's value is called.
    pub value_name: &'static str,
    /// What the option means.
    pub help: &'static str,
    /// What the option means, for the long help.
    pub long_help: &'static str,
}

/// The content of a [`Definition`].
pub struct DefinitionView {
    pub name: Seq<char>,
    pub version: Seq<char>,
    pub about: Seq<char>,
    pub long_about: Seq<char>,
    pub option: Seq<char>,
    pub short: char,
    pub long: Seq<char>,
    pub value_name: Seq<char>,
    pub help: Seq<char>,
    pub long_help: Seq<char>,
}

impl View for Definition {
    type V = DefinitionView;

    open spec fn view(&self) -> DefinitionView {
        DefinitionView {
            name: self.name@,
            version: self.version@,
            about: self.about@,
            long_about: self.long_about@,
            option: self.option@,
            short: self.short,
            long: self.long@,
            value_name: self.value_name@,
            help: self.help@,
            long_help: self.long_help@,
        }
    }
}

/// The command line of the server: one option, `-c` or `--config`.
pub open spec fn server_definition() -> DefinitionView {
    DefinitionView {
        name: "praxis-experimental-server"@,
        version: "0.1.0"@,
        about: "Experimental Praxis AI gateway"@,
        long_about: LONG_ABOUT@,
        option: "config"@,
        short: 'c',
        long: "config"@,
        value_name: "CONFIG"@,
        help: "Path to the YAML configuration file"@,
        long_help: CONFIG_LONG_HELP@,
    }
}

/// What a `clap::Command` was made with.
pub uninterp spec fn defined_by(command: clap::Command) -> DefinitionView;

impl Definition {
    /// The command line of the server.
    pub fn server() -> (definition: Definition)
        ensures
            definition@ == server_definition(),
    {
        Definition {
            name: "praxis-experimental-server",
            version: "0.1.0",
            about: "Experimental Praxis AI gateway",
            long_about: LONG_ABOUT,
            option: "config",
            short: 'c',
            long: "config",
            value_name: "CONFIG",
            help: "Path to the YAML configuration file",
            long_help: CONFIG_LONG_HELP,
        }
    }
}

/// `clap::Command::new` and its builder methods, with one `clap::Arg`: the
/// command is made with what is handed in.
#[verifier::external_body]
pub(crate) fn build_command(definition: &Definition) -> (command: clap::Command)
    requires
        definition@ == server_definition(),
    ensures
        defined_by(command) == definition@,
{
    clap::Command::new(definition.name)
        .version(definition.version)
        .about(definition.about)
        .long_about(definition.long_about)
        .arg(
            clap::Arg::new(definition.option)
                .short(definition.short)
                .long(definition.long)
                .value_name(definition.value_name)
                .help(definition.help)
                .long_help(definition.long_help),
        )
}

/// The parsed command line.
#[derive(Debug, Clone)]
pub struct Cli {
    /// Path to the YAML configuration file. Falls back to `$PRAXIS_CONFIG`,
    /// then to `praxis.yaml` in the working directory.
    pub config: Option<String>,
}

/// What the command line of the server makes of these arguments, the first of
/// which is the program's name: the value of `--config`, if it is given; or the
/// text of the refusal.
pub uninterp spec fn matched_arguments(arguments: Seq<Seq<char>>) -> Result<
    Option<Seq<char>>,
    Seq<char>,
>;

/// The outcome of a match, by content.
pub open spec fn match_outcome(r: Result<Option<String>, String>) -> Result<
    Option<Seq<char>>,
    Seq<char>,
> {
    match r {
        Ok(config) => Ok(opt_text(config)),
        Err(message) => Err(message@),
    }
}

/// The texts of some arguments.
pub open spec fn argument_texts(arguments: Seq<String>) -> Seq<Seq<char>> {
    arguments.map_values(|argument: String| argument@)
}

/// A value that is not blank.
pub open spec fn usable(value: Option<Seq<char>>) -> Option<Seq<char>> {
    match value {
        Some(text) if !blank(text) => Some(text),
        _ => None,
    }
}

/// The explicit configuration path: the flag's, or else the environment's.
pub open spec fn explicit(flag: Option<Seq<char>>, environment: Option<Seq<char>>) -> Option<
    Seq<char>,
> {
    match usable(flag) {
        Some(path) => Some(path),
        None => usable(environment),
    }
}

/// Whether a match comes to `value`.
pub open spec fn gives(r: Result<Option<String>, String>, value: Option<Seq<char>>) -> bool {
    r matches Ok(config) && opt_text(config) == value
}

/// Whether `arguments` are the program's name alone.
pub open spec fn names_nothing(arguments: Seq<Seq<char>>) -> bool {
    arguments.len() <= 1
}

/// Whether `arguments` are the program's name, the flag and a value for it
/// that cannot be taken for a flag.
pub open spec fn names_config(arguments: Seq<Seq<char>>) -> bool {
    &&& arguments.len() == 3
    &&& arguments[1] == "-c"@ || arguments[1] == "--config"@
    &&& arguments[2].len() > 0 && arguments[2][0] != '-'
}

/// `clap::Command::try_get_matches_from` on the command line of the server, and
/// `clap::ArgMatches::get_one` of the result for its option. The outcome is
/// named; without arguments there is no value, and the argument behind the flag
/// is the value.
#[verifier::external_body]
pub(crate) fn match_arguments(
    command: clap::Command,
    option: &str,
    arguments: &Vec<String>,
) -> (r: Result<Option<String>, String>)
    requires
        defined_by(command) == server_definition(),
        option@ == defined_by(command).option,
    ensures
        match_outcome(r) == matched_arguments(argument_texts(arguments@)),
        names_nothing(argument_texts(arguments@)) ==> gives(r, None),
        names_config(argument_texts(arguments@)) ==> gives(r, Some(arguments@[2]@)),
{
    match command.try_get_matches_from(arguments) {
        Ok(matches) => Ok(matches.get_one::<String>(option).cloned()),
        Err(error) => Err(error.to_string()),
    }
}

impl Cli {
    /// The command line definition, with one option, `-c` or `--config`, that
    /// takes a value.
    pub fn command() -> (command: clap::Command)
        ensures
            defined_by(command) == server_definition(),
    {
        build_command(&Definition::server())
    }

    /// Parses a command line, the first argument of which is the program's
    /// name.
    pub fn try_parse_from(arguments: Vec<String>) -> (r: Result<Cli, String>)
        ensures
            match r {
                Ok(cli) => matched_arguments(argument_texts(arguments@)) == Ok::<
                    Option<Seq<char>>,
                    Seq<char>,
                >(opt_text(cli.config)),
                Err(message) => matched_arguments(argument_texts(arguments@)) == Err::<
                    Option<Seq<char>>,
                    Seq<char>,
                >(message@),
            },
            names_nothing(argument_texts(arguments@)) ==> (r matches Ok(cli)
                && cli.config is None),
            names_config(argument_texts(arguments@)) ==> (r matches Ok(cli) && opt_text(cli.config)
                == Some(arguments@[2]@)),
    {
        match match_arguments(Cli::command(), Definition::server().option, &arguments) {
            Ok(config) => Ok(Cli { config }),
            Err(message) => Err(message),
        }
    }

    /// Resolves the explicit configuration path from the flag, then from the
    /// environment. Each is checked on its own: a blank flag must not discard a
    /// usable environment value.
    pub fn explicit_config_from(&self, env_value: Option<String>) -> (r: Option<String>)
        ensures
            opt_text(r) == explicit(opt_text(self.config), opt_text(env_value)),
    {
        if let Some(path) = &self.config {
            if !is_blank(path.as_str()) {
                return Some(path.clone());
            }
        }
        if let Some(path) = env_value {
            if !is_blank(path.as_str()) {
                return Some(path);
            }
        }
        None
    }
}

/// Limits of the client that judge callouts go through.
#[derive(Debug, Clone, Copy, PartialEq, Eq, Structural)]
pub struct SubrequestLimits {
    /// How many idle connections are pooled.
    pub pool_size: usize,
    /// Largest reply in bytes.
    pub response_ceiling: usize,
}

/// The limits that a runtime configuration sets, with the server's defaults
/// where it sets none: the given pool size, and no ceiling.
pub fn subrequest_limits(
    pool_size: Option<usize>,
    default_pool_size: usize,
    max_response_bytes: Option<usize>,
) -> (r: SubrequestLimits)
    ensures
        r.pool_size == (match pool_size {
            Some(size) => size,
            None => default_pool_size,
        }),
        r.response_ceiling == (match max_response_bytes {
            Some(ceiling) => ceiling,
            None => usize::MAX,
        }),
{
    SubrequestLimits {
        pool_size: match pool_size {
            Some(size) => size,
            None => default_pool_size,
        },
        response_ceiling: match max_response_bytes {
            Some(ceiling) => ceiling,
            None => usize::MAX,
        },
    }
}

/// A usable flag wins, and a blank one is as good as none.
pub proof fn a_blank_flag_never_hides_the_environment(
    flag: Option<Seq<char>>,
    environment: Option<Seq<char>>,
)
    ensures
        usable(flag) is Some ==> explicit(flag, environment) == flag,
        usable(flag) is None ==> explicit(flag, environment) == explicit(None, environment),
        explicit(flag, environment) matches Some(path) ==> !blank(path),
{
}

/// The configuration path is the flag's where anything but white space stands
/// in it, as written; else the environment's under the same condition; else
/// there is none.
pub proof fn the_flag_comes_before_the_environment(
    cli: Cli,
    env_value: Option<String>,
    r: Option<String>,
    i: int,
)
    requires
        call_ensures(Cli::explicit_config_from, (&cli, env_value), r),
    ensures
        cli.config is Some && 0 <= i < cli.config->Some_0@.len() && !is_space(
            cli.config->Some_0@[i],
        ) ==> r is Some && r->Some_0@ == cli.config->Some_0@,
        (cli.config is Some ==> forall|k: int|
            0 <= k < cli.config->Some_0@.len() ==> is_space(#[trigger] cli.config->Some_0@[k]))
            ==> {
            &&& env_value is Some && 0 <= i < env_value->Some_0@.len() && !is_space(
                env_value->Some_0@[i],
            ) ==> r is Some && r->Some_0@ == env_value->Some_0@
            &&& (env_value is Some ==> forall|k: int|
                0 <= k < env_value->Some_0@.len() ==> is_space(#[trigger] env_value->Some_0@[k]))
                ==> r is None
        },
        opt_text(r) == explicit(opt_text(cli.config), opt_text(env_value)),
{
}

/// `-c` and `--config` take the next argument as it is written, and without
/// arguments no path is given.
pub proof fn the_flag_takes_the_next_argument(arguments: Vec<String>, r: Result<Cli, String>)
    requires
        call_ensures(Cli::try_parse_from, (arguments,), r),
    ensures
        arguments@.len() <= 1 ==> r is Ok && r->Ok_0.config is None,
        arguments@.len() == 3 && (arguments@[1]@ == "-c"@ || arguments@[1]@ == "--config"@)
            && arguments@[2]@.len() > 0 && arguments@[2]@[0] != '-' ==> r is Ok
            && r->Ok_0.config is Some && r->Ok_0.config->Some_0@ == arguments@[2]@,
{
    let texts = argument_texts(arguments@);
    assert(texts.len() == arguments@.len());
    if arguments@.len() == 3 {
        assert(texts[1] == arguments@[1]@);
        assert(texts[2] == arguments@[2]@);
    }
}

/// The server has one option, `config`, with the flags `-c` and `--config`.
pub proof fn the_server_takes_one_option(definition: Definition)
    requires
        call_ensures(Definition::server, (), definition),
    ensures
        definition.name@ == "praxis-experimental-server"@,
        definition.version@ == "0.1.0"@,
        definition.option@ == "config"@,
        definition.short == 'c',
        definition.long@ == "config"@,
        definition.value_name@ == "CONFIG"@,
        definition.about@ == "Experimental Praxis AI gateway"@,
        definition.help@ == "Path to the YAML configuration file"@,
        definition.long_about@ == LONG_ABOUT@,
        definition.long_help@ == CONFIG_LONG_HELP@,
        CONFIG_ENV_VAR@ == "PRAXIS_CONFIG"@,
{
}

/// A limit that is configured is the limit in force; where none is, the pool
/// has the given default size and replies are not limited.
pub proof fn configured_limits_are_in_force(
    pool_size: Option<usize>,
    default_pool_size: usize,
    max_response_bytes: Option<usize>,
    r: SubrequestLimits,
)
    requires
        call_ensures(subrequest_limits, (pool_size, default_pool_size, max_response_bytes), r),
    ensures
        pool_size is Some ==> pool_size == Some(r.pool_size),
        pool_size is None ==> r.pool_size == default_pool_size,
        max_response_bytes is Some ==> max_response_bytes == Some(r.response_ceiling),
        max_response_bytes is None ==> r.response_ceiling == usize::MAX,
{
}

} // verus!
