use vrc_tail::cli::{Cli, CliErrorKind, Config};

fn args(list: &[&str]) -> Vec<String> {
    list.iter().map(|a| a.to_string()).collect()
}

#[test]
fn uses_literal_runtime_defaults() {
    let config = Config::from(Cli::try_parse_from(args(&["vrc-tail"])).unwrap());

    assert_eq!(config.filter_text(), None);
    assert!(!config.case_sensitive);
    assert!(!config.ignore_blank_lines);
    assert!(config.colored_log_level);
    assert!(!config.suppress_log_date);
    assert!(config.watch_new_files);
    assert_eq!(config.group_period_secs, 30);
}

#[test]
fn maps_short_options_to_runtime_config() {
    let config = Config::from(
        Cli::try_parse_from(args(&[
            "vrc-tail",
            "-f",
            "Error",
            "-c",
            "-s",
            "-L",
            "-d",
            "-g",
            "12",
            "--no-watch",
        ]))
        .unwrap(),
    );

    assert_eq!(config.filter_text(), Some("Error"));
    assert!(config.case_sensitive);
    assert!(config.ignore_blank_lines);
    assert!(!config.colored_log_level);
    assert!(config.suppress_log_date);
    assert!(!config.watch_new_files);
    assert_eq!(config.group_period_secs, 12);
}

#[test]
fn maps_long_options_to_runtime_config() {
    let config = Config::from(
        Cli::try_parse_from(args(&[
            "vrc-tail",
            "--filter",
            "Warn",
            "--case-sensitive",
            "--ignore-blank-lines",
            "--no-colored-log-level",
            "--suppress-log-date",
            "--group-period",
            "9",
            "--no-watch",
        ]))
        .unwrap(),
    );

    assert_eq!(config.filter_text(), Some("Warn"));
    assert!(config.case_sensitive);
    assert!(config.ignore_blank_lines);
    assert!(!config.colored_log_level);
    assert!(config.suppress_log_date);
    assert!(!config.watch_new_files);
    assert_eq!(config.group_period_secs, 9);
}

#[test]
fn rejects_zero_negative_and_invalid_group_periods() {
    for value in ["0", "-1", "no"] {
        assert!(Cli::try_parse_from(args(&["vrc-tail", "--group-period", value])).is_err());
    }
}

#[test]
fn rejects_missing_values_and_unknown_options() {
    for list in [
        vec!["vrc-tail", "--filter"],
        vec!["vrc-tail", "--group-period"],
        vec!["vrc-tail", "--unknown"],
    ] {
        assert!(Cli::try_parse_from(args(&list)).is_err());
    }
}

#[test]
fn recognizes_help_and_version_options() {
    for option in ["-h", "--help"] {
        assert_eq!(
            Cli::try_parse_from(args(&["vrc-tail", option]))
                .err()
                .unwrap()
                .kind(),
            CliErrorKind::DisplayHelp
        );
    }
    for option in ["-V", "--version"] {
        assert_eq!(
            Cli::try_parse_from(args(&["vrc-tail", option]))
                .err()
                .unwrap()
                .kind(),
            CliErrorKind::DisplayVersion
        );
    }
}

#[test]
fn matching_uses_the_current_case_sensitivity() {
    let mut config =
        Config::from(Cli::try_parse_from(args(&["vrc-tail", "--filter", "Error"])).unwrap());

    assert!(config.line_matches("error"));
    config.case_sensitive = true;
    assert!(config.line_matches("Error"));
    assert!(!config.line_matches("error"));
}

#[test]
fn invalid_options_are_reported_with_clap_message() {
    let error = Cli::try_parse_from(args(&["vrc-tail", "--unknown"])).err().unwrap();
    assert_eq!(error.kind(), CliErrorKind::Invalid);
    assert!(error.message.contains("--unknown"));
    let error = Cli::try_parse_from(args(&["vrc-tail", "-g", "0"])).err().unwrap();
    assert_eq!(error.kind(), CliErrorKind::Invalid);
}

#[test]
fn filter_set_is_read_back_and_can_be_cleared() {
    let mut config = Config::from(Cli::try_parse_from(args(&["vrc-tail"])).unwrap());
    config.set_filter(Some("World".to_string()));
    assert_eq!(config.filter_text(), Some("World"));
    assert!(config.line_matches("hello world"));
    assert!(!config.line_matches("hello there"));
    config.set_filter(None);
    assert_eq!(config.filter_text(), None);
    assert!(config.line_matches("hello there"));
}

#[test]
fn empty_filter_matches_every_line() {
    let mut config = Config::from(Cli::try_parse_from(args(&["vrc-tail", "-c"])).unwrap());
    config.set_filter(Some(String::new()));
    assert!(config.line_matches(""));
    assert!(config.line_matches("anything"));
}

#[test]
fn case_insensitive_matching_lowercases_both_sides() {
    let config = Config::from(Cli::try_parse_from(args(&["vrc-tail", "-f", "ÅNG"])).unwrap());
    assert!(config.line_matches("warn ångström"));
    assert!(!config.line_matches("warn angstrom"));
}

#[test]
fn config_from_options_inverts_the_negative_switches() {
    let cli = Cli {
        filter: Some("x".to_string()),
        case_sensitive: true,
        ignore_blank_lines: false,
        no_colored_log_level: false,
        suppress_log_date: true,
        group_period_secs: 5,
        no_watch: false,
    };
    let config = Config::from(cli);
    assert_eq!(config.filter_text(), Some("x"));
    assert!(config.case_sensitive);
    assert!(!config.ignore_blank_lines);
    assert!(config.colored_log_level);
    assert!(config.suppress_log_date);
    assert!(config.watch_new_files);
    assert_eq!(config.group_period_secs, 5);
}

#[test]
fn values_found_become_options_with_defaults() {
    let cli = Cli::from_values(None, Some(true), None, Some(false), None, None, Some(true));
    let config = Config::from(cli);
    assert_eq!(config.filter_text(), None);
    assert!(config.case_sensitive);
    assert!(!config.ignore_blank_lines);
    assert!(config.colored_log_level);
    assert!(!config.suppress_log_date);
    assert!(!config.watch_new_files);
    assert_eq!(config.group_period_secs, 30);
    let cli = Cli::from_values(Some("x".to_string()), None, None, None, None, Some(7), None);
    assert_eq!(Config::from(cli).group_period_secs, 7);
}

#[test]
fn help_lists_each_option_with_its_description() {
    let error = match Cli::try_parse_from(args(&["vrc-tail", "--help"])) {
        Ok(_) => panic!("--help parsed as a command line"),
        Err(error) => error,
    };
    assert_eq!(error.kind(), CliErrorKind::DisplayHelp);
    for line in [
        "Usage: vrc-tail [OPTIONS]",
        "  -f, --filter <FILTER>                   Show only matching lines",
        "  -c, --case-sensitive                    Match filters case-sensitively",
        "  -s, --ignore-blank-lines                Suppress blank lines",
        "  -L, --no-colored-log-level              Disable per-level colors",
        "  -d, --suppress-log-date                 Remove VRChat's date prefix",
        "  -g, --group-period <GROUP_PERIOD_SECS>  Log group window [default: 30]",
        "      --no-watch                          Do not add newly created log files",
        "  -h, --help                              Print help",
        "  -V, --version                           Print version",
    ] {
        assert!(error.message.contains(line), "missing {line:?} in {}", error.message);
    }
}
