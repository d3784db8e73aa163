use vrc_tail::cli::{Cli, Config};
use vrc_tail::output::{
    has_log_date_prefix, log_level, render, strip_log_date, write_line, LinePiece, TermColor,
};

fn config(
    filter: Option<&str>,
    case_sensitive: bool,
    ignore_blank_lines: bool,
    suppress_log_date: bool,
) -> Config {
    let mut config = Config::from(
        Cli::try_parse_from(vec!["vrc-tail".to_string(), "--no-watch".to_string()]).unwrap(),
    );
    config.case_sensitive = case_sensitive;
    config.ignore_blank_lines = ignore_blank_lines;
    config.suppress_log_date = suppress_log_date;
    config.set_filter(filter.map(str::to_owned));
    config
}

#[test]
fn filters_dates_levels_blanks_and_formats_without_color() {
    let sensitive = config(Some("Warn"), true, true, false);
    assert!(sensitive.line_matches("Warn here"));
    assert!(!sensitive.line_matches("warn here"));
    assert!(!config(Some("missing"), true, true, false).line_matches("anything"));
    assert!(config(Some("å"), false, false, false).line_matches("WARN Ångström"));
    assert_eq!(strip_log_date("2026.09.05 12:34:56 hello"), "hello");
    assert_eq!(strip_log_date("not dated"), "not dated");
    assert_eq!(
        log_level("2026.09.05 12:34:56 Warning details"),
        Some(("Warning".to_string(), " details".to_string()))
    );
    assert_eq!(log_level("2026.09.05 12:34:56 Debug details"), None);
    let output = render(&write_line(
        "2026.09.05 12:34:56 Warning details",
        2,
        &config(None, true, false, true),
        false,
        "2026-09-05 12:34:56.0000",
    ));
    assert_eq!(output, "2026-09-05 12:34:56.0000 [2] Warning details\n");
    let output = render(&write_line(
        "",
        0,
        &config(None, true, true, false),
        false,
        "now",
    ));
    assert!(output.is_empty());
}

#[test]
fn cycles_through_the_legacy_file_colors() {
    crossterm::style::Colored::set_ansi_color_disabled(false);
    let mut output = String::new();
    for index in 0..7 {
        output.push_str(&render(&write_line(
            "line",
            index,
            &config(None, true, false, false),
            true,
            "now",
        )));
    }
    let colors = output
        .lines()
        .map(|line| line.split_once('m').unwrap().0)
        .collect::<Vec<_>>();
    assert_eq!(
        colors,
        [
            "\x1b[38;5;2",
            "\x1b[38;5;4",
            "\x1b[38;5;5",
            "\x1b[38;5;6",
            "\x1b[38;5;7",
            "\x1b[38;5;8",
            "\x1b[38;5;2",
        ]
    );
}

#[test]
fn date_prefix_needs_digits_and_delimiters_in_place() {
    assert!(has_log_date_prefix("2026.09.05 12:34:56 x"));
    assert!(has_log_date_prefix("2026.09.05 12:34:56 "));
    assert!(!has_log_date_prefix("2026.09.05 12:34:56"));
    assert!(!has_log_date_prefix("2026-09-05 12:34:56 x"));
    assert!(!has_log_date_prefix("2026.09.05 12:34:5a x"));
    assert!(!has_log_date_prefix("2026.09.05 12:34:56x x"));
    assert_eq!(strip_log_date("2026.09.05 12:34:56 "), "");
}

#[test]
fn levels_are_tried_in_order_and_need_the_prefix() {
    assert_eq!(
        log_level("2026.09.05 12:34:56 Exception: boom"),
        Some(("Exception".to_string(), ": boom".to_string()))
    );
    assert_eq!(
        log_level("2026.09.05 12:34:56 Error"),
        Some(("Error".to_string(), String::new()))
    );
    assert_eq!(
        log_level("2026.09.05 12:34:56 Logger"),
        Some(("Log".to_string(), "ger".to_string()))
    );
    assert_eq!(log_level("Warning without date"), None);
}

#[test]
fn colored_level_line_has_level_and_file_colors() {
    crossterm::style::Colored::set_ansi_color_disabled(false);
    let line = "2026.09.05 12:34:56 Error - broken";
    let pieces = write_line(line, 1, &config(None, true, false, false), true, "ts");
    assert_eq!(pieces.len(), 10);
    assert!(matches!(pieces[0], LinePiece::Foreground(TermColor::DarkBlue)));
    assert!(matches!(pieces[3], LinePiece::Foreground(TermColor::DarkRed)));
    assert_eq!(
        render(&pieces),
        "\x1b[38;5;4mts [1] \x1b[0m\x1b[38;5;1m2026.09.05 12:34:56 Error\x1b[0m\x1b[38;5;4m - broken\x1b[0m\n"
    );
    let suppressed = render(&write_line(line, 1, &config(None, true, false, true), true, "ts"));
    assert_eq!(
        suppressed,
        "\x1b[38;5;4mts [1] \x1b[0m\x1b[38;5;1mError\x1b[0m\x1b[38;5;4m - broken\x1b[0m\n"
    );
}

#[test]
fn warning_and_log_levels_use_their_colors() {
    crossterm::style::Colored::set_ansi_color_disabled(false);
    let warn = write_line("2026.09.05 12:34:56 Warning x", 0, &config(None, true, false, false), true, "t");
    assert!(matches!(warn[3], LinePiece::Foreground(TermColor::DarkYellow)));
    let log = write_line("2026.09.05 12:34:56 Log x", 0, &config(None, true, false, false), true, "t");
    assert!(matches!(log[3], LinePiece::Foreground(TermColor::DarkBlue)));
}

#[test]
fn uncolored_levels_show_the_plain_line_in_the_file_color() {
    crossterm::style::Colored::set_ansi_color_disabled(false);
    let mut cfg = config(None, true, false, false);
    cfg.colored_log_level = false;
    let out = render(&write_line("2026.09.05 12:34:56 Error x", 12, &cfg, true, "t"));
    assert_eq!(out, "\x1b[38;5;2mt [12] 2026.09.05 12:34:56 Error x\x1b[0m\n");
}

#[test]
fn filtered_out_lines_show_nothing() {
    let cfg = config(Some("needle"), false, false, false);
    assert!(write_line("hay", 3, &cfg, true, "t").is_empty());
    assert_eq!(
        render(&write_line("a NEEDLE", 3, &cfg, false, "t")),
        "t [3] a NEEDLE\n"
    );
}

#[test]
fn large_file_index_is_written_in_decimal() {
    let out = render(&write_line("x", 1234567890, &config(None, true, false, false), false, "t"));
    assert_eq!(out, "t [1234567890] x\n");
}

#[test]
fn disabled_colors_write_empty_color_sequences() {
    crossterm::style::Colored::set_ansi_color_disabled(true);
    let out = render(&write_line("x", 0, &config(None, true, false, false), true, "t"));
    assert_eq!(out, "\x1b[mt [0] x\x1b[0m\n");
}

#[test]
fn only_the_first_twenty_bytes_decide_the_date_prefix() {
    let line = "2026.09.05 12:34:56 ";
    for rest in ["", "Log", "é", "\u{1F600} anything"] {
        assert!(has_log_date_prefix(&format!("{line}{rest}")));
    }
    let broken = "2026.09.05 12:34:5é ";
    assert!(broken.len() >= 20);
    for rest in ["", " Log", "x"] {
        assert!(!has_log_date_prefix(&format!("{broken}{rest}")));
    }
    assert_eq!(strip_log_date("2026.09.05 12:34:56 é"), "é");
}
