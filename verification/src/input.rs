//! Console commands: single keys toggle switches, `/` starts typing a filter.

use crate::cli::{Config, ConfigModel};
use crate::text::{push_char, push_str};
use vstd::prelude::*;

verus! {

broadcast use vstd::seq_lib::group_seq_properties;

/// Which key was pressed.
#[derive(Debug, Clone, Copy, PartialEq, Eq, Structural)]
pub enum KeyCode {
    Char(char),
    Enter,
    /// Any key that the console commands do not use.
    Other,
}

/// A key press: the key and whether Control was held.
#[derive(Debug, Clone, Copy, PartialEq, Eq, Structural)]
pub struct Key {
    pub code: KeyCode,
    pub ctrl: bool,
}

/// What the caller does after a key.
#[derive(Debug, Clone, Copy, PartialEq, Eq, Structural)]
pub enum InputAction {
    Continue,
    Quit,
}

/// Whether a filter is being typed, and what has been typed so far.
pub struct InputState {
    entering_filter: bool,
    text: String,
}

/// The abstract state of an [`InputState`].
pub struct InputModel {
    pub entering_filter: bool,
    pub text: Seq<char>,
}

/// The effect of one key: the next input state and configuration, the action, and the
/// text written to the console.
pub struct KeyStep {
    pub state: InputModel,
    pub config: ConfigModel,
    pub action: InputAction,
    pub output: Seq<char>,
}

impl View for InputState {
    type V = InputModel;

    closed spec fn view(&self) -> InputModel {
        InputModel { entering_filter: self.entering_filter, text: self.text@ }
    }
}

/// How a switch's value is shown.
pub open spec fn bool_text(b: bool) -> Seq<char> {
    if b {
        "true"@
    } else {
        "false"@
    }
}

/// The help text that `?` shows.
pub open spec fn help_text() -> Seq<char> {
    "> Commands:\n"@ + ">   ? - show this help\n"@ + ">   q - quit\n"@
        + ">   c - toggle case sensitive\n"@ + ">   s - toggle ignore blank lines\n"@
        + ">   l - toggle colored log level\n"@ + ">   d - toggle suppress log date\n"@
        + ">   /<str> - filter\n"@ + ">   r - reset filter\n"@
}

/// A step that changes nothing but the console output and the action.
pub open spec fn plain_step(s: InputModel, c: ConfigModel, action: InputAction, output: Seq<char>) -> KeyStep {
    KeyStep { state: s, config: c, action, output }
}

/// A step that sets one switch of the configuration and reports its new value.
pub open spec fn switch_step(s: InputModel, c: ConfigModel, name: Seq<char>, value: bool) -> KeyStep {
    KeyStep { state: s, config: c, action: InputAction::Continue, output: "> "@ + name + " = "@ + bool_text(value) + "\n"@ }
}

/// What a key does while a filter is typed: Enter sets the typed text as the filter, a
/// character is added to it and echoed, other keys do nothing.
pub open spec fn filter_key_step(s: InputModel, key: Key, c: ConfigModel) -> KeyStep {
    match key.code {
        KeyCode::Enter => KeyStep {
            state: InputModel { entering_filter: false, text: Seq::empty() },
            config: ConfigModel { filter: Some(s.text), ..c },
            action: InputAction::Continue,
            output: "\n> filter = "@ + s.text + "\n"@,
        },
        KeyCode::Char(ch) => KeyStep {
            state: InputModel { entering_filter: true, text: s.text.push(ch) },
            config: c,
            action: InputAction::Continue,
            output: seq![ch],
        },
        KeyCode::Other => plain_step(s, c, InputAction::Continue, Seq::empty()),
    }
}

/// What a key does as a command: `q` quits, `?` shows the help, Enter writes an empty
/// line, `c`, `s`, `l` and `d` toggle a switch, `r` removes the filter and `/` starts
/// typing a new one; other keys do nothing.
pub open spec fn command_key_step(s: InputModel, key: Key, c: ConfigModel) -> KeyStep {
    if key.code == KeyCode::Char('q') {
        plain_step(s, c, InputAction::Quit, Seq::empty())
    } else if key.code == KeyCode::Char('?') {
        plain_step(s, c, InputAction::Continue, help_text())
    } else if key.code == KeyCode::Enter {
        plain_step(s, c, InputAction::Continue, "\n"@)
    } else if key.code == KeyCode::Char('c') {
        switch_step(s, ConfigModel { case_sensitive: !c.case_sensitive, ..c }, "caseSensitive"@, !c.case_sensitive)
    } else if key.code == KeyCode::Char('s') {
        switch_step(s, ConfigModel { ignore_blank_lines: !c.ignore_blank_lines, ..c }, "ignoreBlankLines"@, !c.ignore_blank_lines)
    } else if key.code == KeyCode::Char('l') {
        switch_step(s, ConfigModel { colored_log_level: !c.colored_log_level, ..c }, "coloredLogLevel"@, !c.colored_log_level)
    } else if key.code == KeyCode::Char('d') {
        switch_step(s, ConfigModel { suppress_log_date: !c.suppress_log_date, ..c }, "suppressLogDate"@, !c.suppress_log_date)
    } else if key.code == KeyCode::Char('r') {
        plain_step(s, ConfigModel { filter: None, ..c }, InputAction::Continue, "> filter cleared!\n"@)
    } else if key.code == KeyCode::Char('/') {
        plain_step(InputModel { entering_filter: true, text: Seq::empty() }, c, InputAction::Continue, "/"@)
    } else {
        plain_step(s, c, InputAction::Continue, Seq::empty())
    }
}

/// Whether the key is Control-C.
pub open spec fn is_ctrl_c(key: Key) -> bool {
    key.ctrl && (key.code == KeyCode::Char('c') || key.code == KeyCode::Char('C'))
}

/// What one key does: Control-C quits in every state; otherwise the key goes to the filter
/// being typed, or else is a command.
pub open spec fn key_step(s: InputModel, key: Key, c: ConfigModel) -> KeyStep {
    if is_ctrl_c(key) {
        plain_step(s, c, InputAction::Quit, Seq::empty())
    } else if s.entering_filter {
        filter_key_step(s, key, c)
    } else {
        command_key_step(s, key, c)
    }
}

/// Writes `name = value` for a switch.
fn write_switch(out: &mut String, name: &str, value: bool)
    ensures
        final(out)@ == old(out)@ + "> "@ + name@ + " = "@ + bool_text(value) + "\n"@,
{
    push_str(out, "> ");
    push_str(out, name);
    push_str(out, " = ");
    if value {
        push_str(out, "true");
    } else {
        push_str(out, "false");
    }
    push_str(out, "\n");
}

/// Writes the help text of the console commands.
pub fn write_help(out: &mut String)
    ensures
        final(out)@ == old(out)@ + help_text(),
{
    push_str(out, "> Commands:\n");
    push_str(out, ">   ? - show this help\n");
    push_str(out, ">   q - quit\n");
    push_str(out, ">   c - toggle case sensitive\n");
    push_str(out, ">   s - toggle ignore blank lines\n");
    push_str(out, ">   l - toggle colored log level\n");
    push_str(out, ">   d - toggle suppress log date\n");
    push_str(out, ">   /<str> - filter\n");
    push_str(out, ">   r - reset filter\n");
}

impl Default for InputState {
    fn default() -> (s: InputState)
        ensures
            s@ == (InputModel { entering_filter: false, text: Seq::empty() }),
    {
        InputState { entering_filter: false, text: String::new() }
    }
}

impl InputState {
    /// Not typing a filter, nothing typed.
    pub fn new() -> (s: InputState)
        ensures
            s@ == (InputModel { entering_filter: false, text: Seq::empty() }),
    {
        InputState { entering_filter: false, text: String::new() }
    }

    /// Whether a filter is being typed.
    pub fn entering_filter(&self) -> (b: bool)
        ensures
            b == self@.entering_filter,
    {
        self.entering_filter
    }

    /// Applies one key press as [`key_step`] says, appending what it shows to `out`.
    pub fn handle_key(&mut self, key: Key, config: &mut Config, out: &mut String) -> (action: InputAction)
        ensures
            final(self)@ == key_step(old(self)@, key, old(config)@).state,
            final(config)@ == key_step(old(self)@, key, old(config)@).config,
            action == key_step(old(self)@, key, old(config)@).action,
            final(out)@ == old(out)@ + key_step(old(self)@, key, old(config)@).output,
    {
        let ctrl_c = match key.code {
            KeyCode::Char(ch) => key.ctrl && (ch == 'c' || ch == 'C'),
            _ => false,
        };
        if ctrl_c {
            assert(out@ == old(out)@ + Seq::<char>::empty());
            InputAction::Quit
        } else if self.entering_filter {
            self.filter_key(key, config, out)
        } else {
            self.command_key(key, config, out)
        }
    }

    fn filter_key(&mut self, key: Key, config: &mut Config, out: &mut String) -> (action: InputAction)
        requires
            old(self)@.entering_filter,
        ensures
            final(self)@ == filter_key_step(old(self)@, key, old(config)@).state,
            final(config)@ == filter_key_step(old(self)@, key, old(config)@).config,
            action == filter_key_step(old(self)@, key, old(config)@).action,
            final(out)@ == old(out)@ + filter_key_step(old(self)@, key, old(config)@).output,
    {
        match key.code {
            KeyCode::Enter => {
                let typed = self.text.clone();
                self.entering_filter = false;
                self.text = String::new();
                config.set_filter(Some(typed));
                push_str(out, "\n> filter = ");
                match config.filter_text() {
                    Some(t) => push_str(out, t),
                    None => {},
                }
                push_str(out, "\n");
            },
            KeyCode::Char(ch) => {
                push_char(&mut self.text, ch);
                push_char(out, ch);
                assert(out@ == old(out)@ + seq![ch]);
            },
            KeyCode::Other => {
                assert(out@ == old(out)@ + Seq::<char>::empty());
            },
        }
        InputAction::Continue
    }

    #[verifier::rlimit(40)]
    fn command_key(&mut self, key: Key, config: &mut Config, out: &mut String) -> (action: InputAction)
        requires
            !old(self)@.entering_filter,
        ensures
            final(self)@ == command_key_step(old(self)@, key, old(config)@).state,
            final(config)@ == command_key_step(old(self)@, key, old(config)@).config,
            action == command_key_step(old(self)@, key, old(config)@).action,
            final(out)@ == old(out)@ + command_key_step(old(self)@, key, old(config)@).output,
    {
        match key.code {
            KeyCode::Char('q') => {
                assert(out@ == old(out)@ + Seq::<char>::empty());
                InputAction::Quit
            },
            KeyCode::Char('?') => {
                write_help(out);
                InputAction::Continue
            },
            KeyCode::Enter => {
                push_str(out, "\n");
                InputAction::Continue
            },
            KeyCode::Char('c') => {
                config.case_sensitive = !config.case_sensitive;
                write_switch(out, "caseSensitive", config.case_sensitive);
                InputAction::Continue
            },
            KeyCode::Char('s') => {
                config.ignore_blank_lines = !config.ignore_blank_lines;
                write_switch(out, "ignoreBlankLines", config.ignore_blank_lines);
                InputAction::Continue
            },
            KeyCode::Char('l') => {
                config.colored_log_level = !config.colored_log_level;
                write_switch(out, "coloredLogLevel", config.colored_log_level);
                InputAction::Continue
            },
            KeyCode::Char('d') => {
                config.suppress_log_date = !config.suppress_log_date;
                write_switch(out, "suppressLogDate", config.suppress_log_date);
                InputAction::Continue
            },
            KeyCode::Char('r') => {
                config.set_filter(None);
                push_str(out, "> filter cleared!\n");
                InputAction::Continue
            },
            KeyCode::Char('/') => {
                self.entering_filter = true;
                self.text = String::new();
                push_str(out, "/");
                InputAction::Continue
            },
            _ => {
                assert(out@ == old(out)@ + Seq::<char>::empty());
                InputAction::Continue
            },
        }
    }
}

/// A key pressed without Control.
pub open spec fn plain_key(code: KeyCode) -> Key {
    Key { code, ctrl: false }
}

/// The input state and configuration after typing the characters of `text`, each without
/// Control.
pub open spec fn type_chars(s: InputModel, text: Seq<char>, c: ConfigModel) -> (InputModel, ConfigModel)
    decreases text.len(),
{
    if text.len() == 0 {
        (s, c)
    } else {
        let (s1, c1) = type_chars(s, text.drop_last(), c);
        let st = key_step(s1, plain_key(KeyCode::Char(text.last())), c1);
        (st.state, st.config)
    }
}

/// While a filter is typed, characters without Control add to the typed text and change
/// nothing else.
proof fn lemma_typing(t0: Seq<char>, text: Seq<char>, c: ConfigModel)
    ensures
        type_chars(InputModel { entering_filter: true, text: t0 }, text, c) == (
        InputModel { entering_filter: true, text: t0 + text }, c),
    decreases text.len(),
{
    if text.len() == 0 {
        assert(t0 + text =~= t0);
    } else {
        let d = text.drop_last();
        lemma_typing(t0, d, c);
        assert((t0 + d).push(text.last()) =~= t0 + text);
    }
}

/// Typing `/`, then a text, then Enter sets that text as the filter, leaves the other
/// switches as they were, and ends the typing.
pub proof fn law_typed_filter(s: InputModel, c: ConfigModel, text: Seq<char>)
    requires
        !s.entering_filter,
    ensures
        ({
            let st1 = key_step(s, plain_key(KeyCode::Char('/')), c);
            let (s2, c2) = type_chars(st1.state, text, st1.config);
            let st3 = key_step(s2, plain_key(KeyCode::Enter), c2);
            &&& st3.config == (ConfigModel { filter: Some(text), ..c })
            &&& st3.state == (InputModel { entering_filter: false, text: Seq::empty() })
        }),
{
    lemma_typing(Seq::empty(), text, c);
    assert(Seq::<char>::empty() + text =~= text);
}

/// Pressing `c`, `s`, `l` or `d` twice gives back the configuration and input state from
/// before, with both presses asking to go on.
pub proof fn law_switch_twice(s: InputModel, c: ConfigModel, ch: char)
    requires
        !s.entering_filter,
        ch == 'c' || ch == 's' || ch == 'l' || ch == 'd',
    ensures
        ({
            let k = plain_key(KeyCode::Char(ch));
            let one = key_step(s, k, c);
            let two = key_step(one.state, k, one.config);
            &&& one.action == InputAction::Continue
            &&& two.action == InputAction::Continue
            &&& two.state == s
            &&& two.config == c
        }),
{
}

/// Outside filter typing, `c`, `s`, `l` and `d` each flip their own switch (case
/// sensitivity, ignoring blank lines, coloring log levels, suppressing the log date) and
/// leave every other setting and the input state as they were; the console is told the
/// switch's new value, and following goes on.
pub proof fn law_switch_key_flips_its_switch(s: InputModel, c: ConfigModel, ch: char)
    requires
        !s.entering_filter,
        ch == 'c' || ch == 's' || ch == 'l' || ch == 'd',
    ensures
        ({
            let r = key_step(s, plain_key(KeyCode::Char(ch)), c);
            let n = r.config;
            &&& r.state == s
            &&& r.action == InputAction::Continue
            &&& n.filter == c.filter
            &&& n.watch_new_files == c.watch_new_files
            &&& n.group_period_secs == c.group_period_secs
            &&& n.case_sensitive == (if ch == 'c' { !c.case_sensitive } else { c.case_sensitive })
            &&& n.ignore_blank_lines == (if ch == 's' { !c.ignore_blank_lines } else { c.ignore_blank_lines })
            &&& n.colored_log_level == (if ch == 'l' { !c.colored_log_level } else { c.colored_log_level })
            &&& n.suppress_log_date == (if ch == 'd' { !c.suppress_log_date } else { c.suppress_log_date })
            &&& ch == 'c' ==> r.output == "> caseSensitive = "@ + bool_text(n.case_sensitive) + "\n"@
            &&& ch == 's' ==> r.output == "> ignoreBlankLines = "@ + bool_text(n.ignore_blank_lines) + "\n"@
            &&& ch == 'l' ==> r.output == "> coloredLogLevel = "@ + bool_text(n.colored_log_level) + "\n"@
            &&& ch == 'd' ==> r.output == "> suppressLogDate = "@ + bool_text(n.suppress_log_date) + "\n"@
        }),
{
    assert("> "@ + "caseSensitive"@ + " = "@ =~= "> caseSensitive = "@) by {
        reveal_strlit("> ");
        reveal_strlit("caseSensitive");
        reveal_strlit(" = ");
        reveal_strlit("> caseSensitive = ");
    }
    assert("> "@ + "ignoreBlankLines"@ + " = "@ =~= "> ignoreBlankLines = "@) by {
        reveal_strlit("> ");
        reveal_strlit("ignoreBlankLines");
        reveal_strlit(" = ");
        reveal_strlit("> ignoreBlankLines = ");
    }
    assert("> "@ + "coloredLogLevel"@ + " = "@ =~= "> coloredLogLevel = "@) by {
        reveal_strlit("> ");
        reveal_strlit("coloredLogLevel");
        reveal_strlit(" = ");
        reveal_strlit("> coloredLogLevel = ");
    }
    assert("> "@ + "suppressLogDate"@ + " = "@ =~= "> suppressLogDate = "@) by {
        reveal_strlit("> ");
        reveal_strlit("suppressLogDate");
        reveal_strlit(" = ");
        reveal_strlit("> suppressLogDate = ");
    }
}

/// Outside filter typing, `q` quits and `?` shows the help, both changing nothing; `r`
/// removes the filter and keeps every other setting; `/` starts typing a new, empty filter
/// and keeps the configuration.
pub proof fn law_command_keys(s: InputModel, c: ConfigModel)
    requires
        !s.entering_filter,
    ensures
        ({
            let q = key_step(s, plain_key(KeyCode::Char('q')), c);
            let h = key_step(s, plain_key(KeyCode::Char('?')), c);
            let r = key_step(s, plain_key(KeyCode::Char('r')), c);
            let f = key_step(s, plain_key(KeyCode::Char('/')), c);
            &&& q.action == InputAction::Quit && q.state == s && q.config == c
            &&& h.action == InputAction::Continue && h.state == s && h.config == c
            &&& h.output == help_text()
            &&& r.action == InputAction::Continue && r.state == s && r.config.filter is None
            &&& r.config.case_sensitive == c.case_sensitive
            &&& r.config.ignore_blank_lines == c.ignore_blank_lines
            &&& r.config.colored_log_level == c.colored_log_level
            &&& r.config.suppress_log_date == c.suppress_log_date
            &&& r.config.watch_new_files == c.watch_new_files
            &&& r.config.group_period_secs == c.group_period_secs
            &&& f.action == InputAction::Continue && f.config == c
            &&& f.state.entering_filter && f.state.text.len() == 0
        }),
{
}

/// Control-C quits whatever the state, and changes nothing.
pub proof fn law_ctrl_c_quits(s: InputModel, c: ConfigModel, ch: char)
    requires
        ch == 'c' || ch == 'C',
    ensures
        key_step(s, Key { code: KeyCode::Char(ch), ctrl: true }, c) == plain_step(s, c, InputAction::Quit, Seq::empty()),
{
}

} // verus!
