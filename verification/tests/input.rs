use vrc_tail::cli::{Cli, Config};
use vrc_tail::events::{check_initial_group, handle_event, AppEvent, LoopAction, StartError};
use vrc_tail::input::{write_help, InputAction, InputState, Key, KeyCode};

fn default_config() -> Config {
    Config::from(Cli::try_parse_from(vec!["vrc-tail".to_string()]).unwrap())
}

fn key(ch: char) -> Key {
    Key { code: KeyCode::Char(ch), ctrl: false }
}

const ENTER: Key = Key { code: KeyCode::Enter, ctrl: false };

#[test]
fn switch_keys_toggle_and_report() {
    let mut state = InputState::default();
    let mut config = default_config();
    let mut out = String::new();
    assert_eq!(state.handle_key(key('c'), &mut config, &mut out), InputAction::Continue);
    assert!(config.case_sensitive);
    assert_eq!(state.handle_key(key('s'), &mut config, &mut out), InputAction::Continue);
    assert_eq!(state.handle_key(key('l'), &mut config, &mut out), InputAction::Continue);
    assert_eq!(state.handle_key(key('d'), &mut config, &mut out), InputAction::Continue);
    assert_eq!(
        out,
        "> caseSensitive = true\n> ignoreBlankLines = true\n> coloredLogLevel = false\n> suppressLogDate = true\n"
    );
    out.clear();
    state.handle_key(key('c'), &mut config, &mut out);
    assert!(!config.case_sensitive);
    assert_eq!(out, "> caseSensitive = false\n");
}

#[test]
fn typed_filter_is_set_on_enter() {
    let mut state = InputState::new();
    let mut config = default_config();
    let mut out = String::new();
    state.handle_key(key('/'), &mut config, &mut out);
    assert!(state.entering_filter());
    for ch in "qcs?".chars() {
        assert_eq!(state.handle_key(key(ch), &mut config, &mut out), InputAction::Continue);
    }
    assert_eq!(config.filter_text(), None);
    state.handle_key(ENTER, &mut config, &mut out);
    assert!(!state.entering_filter());
    assert_eq!(config.filter_text(), Some("qcs?"));
    assert!(!config.case_sensitive);
    assert_eq!(out, "/qcs?\n> filter = qcs?\n");
    out.clear();
    state.handle_key(key('r'), &mut config, &mut out);
    assert_eq!(config.filter_text(), None);
    assert_eq!(out, "> filter cleared!\n");
}

#[test]
fn quitting_and_other_keys() {
    let mut state = InputState::new();
    let mut config = default_config();
    let mut out = String::new();
    assert_eq!(state.handle_key(key('x'), &mut config, &mut out), InputAction::Continue);
    assert_eq!(state.handle_key(Key { code: KeyCode::Other, ctrl: false }, &mut config, &mut out), InputAction::Continue);
    assert_eq!(out, "");
    state.handle_key(ENTER, &mut config, &mut out);
    assert_eq!(out, "\n");
    assert_eq!(state.handle_key(key('q'), &mut config, &mut out), InputAction::Quit);
    state.handle_key(key('/'), &mut config, &mut out);
    assert_eq!(state.handle_key(key('q'), &mut config, &mut out), InputAction::Continue);
    assert_eq!(
        state.handle_key(Key { code: KeyCode::Char('C'), ctrl: true }, &mut config, &mut out),
        InputAction::Quit
    );
}

#[test]
fn help_lists_the_commands() {
    let mut out = String::new();
    write_help(&mut out);
    assert_eq!(
        out,
        "> Commands:\n>   ? - show this help\n>   q - quit\n>   c - toggle case sensitive\n>   s - toggle ignore blank lines\n>   l - toggle colored log level\n>   d - toggle suppress log date\n>   /<str> - filter\n>   r - reset filter\n"
    );
    let mut state = InputState::new();
    let mut config = default_config();
    let mut shown = String::new();
    state.handle_key(key('?'), &mut config, &mut shown);
    assert_eq!(shown, out);
}

#[test]
fn events_ask_for_rescans_or_the_fixed_group() {
    let mut state = InputState::new();
    let mut config = default_config();
    let mut out = String::new();
    assert_eq!(handle_event(AppEvent::FilesChanged, &mut state, &mut config, &mut out), LoopAction::Rescan);
    config.watch_new_files = false;
    assert_eq!(
        handle_event(AppEvent::FilesChanged, &mut state, &mut config, &mut out),
        LoopAction::ReconcileFixed
    );
    assert_eq!(handle_event(AppEvent::Key(key('s')), &mut state, &mut config, &mut out), LoopAction::Continue);
    assert!(config.ignore_blank_lines);
    assert_eq!(handle_event(AppEvent::Key(key('q')), &mut state, &mut config, &mut out), LoopAction::Quit);
}

#[test]
fn startup_needs_files_unless_watching() {
    let mut config = default_config();
    assert_eq!(check_initial_group(0, &config), Ok(()));
    config.watch_new_files = false;
    assert_eq!(check_initial_group(0, &config), Err(StartError::NoLogFiles));
    assert_eq!(check_initial_group(2, &config), Ok(()));
}
