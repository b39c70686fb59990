//! The command line.

use switchyard_route::cli::{
    subrequest_limits, Cli, Definition, CONFIG_ENV_VAR, CONFIG_LONG_HELP, LONG_ABOUT,
};

fn words(arguments: &[&str]) -> Vec<String> {
    arguments.iter().map(|word| (*word).to_owned()).collect()
}

/// Guards against a malformed definition, which clap only detects when the
/// command is built.
#[test]
fn cli_definition_is_valid() {
    Cli::command().debug_assert();
}

#[test]
fn config_defaults_to_none_without_arguments() {
    let cli =
        Cli::try_parse_from(words(&["praxis-experimental-server"])).expect("no arguments should parse");
    assert_eq!(cli.config, None, "config should be unset by default");
}

#[test]
fn short_and_long_config_flags_are_equivalent() {
    let short = Cli::try_parse_from(words(&["praxis-experimental-server", "-c", "/etc/praxis/a.yaml"]))
        .expect("-c should parse");
    let long =
        Cli::try_parse_from(words(&["praxis-experimental-server", "--config", "/etc/praxis/a.yaml"]))
            .expect("--config should parse");
    assert_eq!(short.config, long.config, "-c and --config should agree");
    assert_eq!(short.config.as_deref(), Some("/etc/praxis/a.yaml"));
}

#[test]
fn unknown_flags_are_rejected() {
    let message = Cli::try_parse_from(words(&["praxis-experimental-server", "--nope"]))
        .expect_err("unknown flags should be rejected");
    assert!(message.contains("--nope"), "the refusal names the flag: {message}");
}

#[test]
fn the_long_help_explains_the_fallback() {
    let long = Cli::try_parse_from(words(&["server", "--help"])).unwrap_err();
    assert!(long.starts_with("Experimental Praxis AI gateway.\n\nMirrors the `--config` surface"), "{long}");
    assert!(long.contains("are not reachable from a downstream binary."), "{long}");
    assert!(long.contains("Path to the YAML configuration file.\n"), "{long}");
    assert!(
        long.contains("Falls back to `$PRAXIS_CONFIG`, then to `praxis.yaml` in the working directory."),
        "{long}"
    );
    let short = Cli::try_parse_from(words(&["server", "-h"])).unwrap_err();
    assert!(short.starts_with("Experimental Praxis AI gateway\n"), "{short}");
    assert!(!short.contains("PRAXIS_CONFIG"), "{short}");
}

#[test]
fn an_empty_command_line_parses() {
    let cli = Cli::try_parse_from(Vec::new()).expect("no words at all should parse");
    assert_eq!(cli.config, None);
    let blank = Cli::try_parse_from(words(&["server", "--config", ""])).expect("an empty value parses");
    assert_eq!(blank.config.as_deref(), Some(""));
    assert!(Cli::try_parse_from(words(&["server", "-c"])).is_err(), "the flag needs a value");
}

#[test]
fn explicit_config_prefers_flag_over_environment() {
    let with_flag = Cli { config: Some("/from/flag.yaml".to_owned()) };
    assert_eq!(
        with_flag.explicit_config_from(Some("/from/env.yaml".to_owned())).as_deref(),
        Some("/from/flag.yaml"),
        "the flag should win over the environment"
    );

    let without_flag = Cli { config: None };
    assert_eq!(
        without_flag.explicit_config_from(Some("/from/env.yaml".to_owned())).as_deref(),
        Some("/from/env.yaml"),
        "the environment should be used when the flag is absent"
    );
}

#[test]
fn blank_values_fall_through_to_the_next_source() {
    let blank_flag = Cli { config: Some("  ".to_owned()) };
    assert_eq!(
        blank_flag.explicit_config_from(Some("/from/env.yaml".to_owned())).as_deref(),
        Some("/from/env.yaml"),
        "a blank flag should fall through to the environment, not discard it"
    );

    let without_flag = Cli { config: None };
    assert_eq!(
        without_flag.explicit_config_from(Some("   ".to_owned())),
        None,
        "a blank environment value should fall through to the default path"
    );
    assert_eq!(
        without_flag.explicit_config_from(None),
        None,
        "an unset environment variable should fall through to the default path"
    );
    assert_eq!(
        blank_flag.explicit_config_from(None),
        None,
        "a blank flag with no environment value selects the default path"
    );
}

#[test]
fn config_env_var_name_is_stable() {
    assert_eq!(CONFIG_ENV_VAR, "PRAXIS_CONFIG");
}

#[test]
fn subrequest_limits_fall_back_to_the_defaults() {
    let set = subrequest_limits(Some(7), 128, Some(4_096));
    assert_eq!((set.pool_size, set.response_ceiling), (7, 4_096));
    let unset = subrequest_limits(None, 128, None);
    assert_eq!((unset.pool_size, unset.response_ceiling), (128, usize::MAX));
}

#[test]
fn the_command_is_made_with_its_definition() {
    let definition = Definition::server();
    assert_eq!((definition.option, definition.short, definition.long), ("config", 'c', "config"));
    let command = Cli::command();
    assert_eq!(command.get_name(), "praxis-experimental-server");
    assert_eq!(command.get_version(), Some("0.1.0"));
    assert_eq!(command.get_about().unwrap().to_string(), "Experimental Praxis AI gateway");
    assert_eq!(command.get_long_about().unwrap().to_string(), LONG_ABOUT);
    let options: Vec<&clap::Arg> = command.get_arguments().collect();
    assert_eq!(options.len(), 1);
    assert_eq!(options[0].get_id().as_str(), "config");
    assert_eq!(options[0].get_short(), Some('c'));
    assert_eq!(options[0].get_long(), Some("config"));
    assert_eq!(options[0].get_value_names().unwrap()[0].as_str(), "CONFIG");
    assert_eq!(
        options[0].get_help().unwrap().to_string(),
        "Path to the YAML configuration file"
    );
    assert_eq!(options[0].get_long_help().unwrap().to_string(), CONFIG_LONG_HELP);
}
