//! How a log line is shown: the filter, the date prefix, the log level and the colors.

use crate::cli::{filter_accepts, Config, ConfigModel};
use crate::text::{chars_of, matches_at, push_char, push_str, string_from_chars};
use crossterm::Command;
use crossterm::style::{Color, ResetColor, SetForegroundColor};
use vstd::prelude::*;

verus! {

/// The length of VRChat's date prefix, `yyyy.mm.dd hh:mm:ss ` with its trailing space.
pub const LOG_DATE_PREFIX_LEN: usize = 20;

/// The terminal colors that log lines use.
#[derive(Debug, Clone, Copy, PartialEq, Eq, Structural)]
pub enum TermColor {
    DarkGreen,
    DarkBlue,
    DarkMagenta,
    DarkCyan,
    Grey,
    DarkGrey,
    DarkRed,
    DarkYellow,
}

/// The levels that VRChat writes after the date prefix, in the order they are tried.
#[derive(Debug, Clone, Copy, PartialEq, Eq, Structural)]
pub enum LogLevel {
    Warning,
    Exception,
    Error,
    Log,
}

/// One piece of a shown line.
#[derive(Debug)]
pub enum LinePiece {
    Text(String),
    /// Switch the foreground color.
    Foreground(TermColor),
    /// Back to the terminal's default colors.
    Reset,
}

/// The abstract value of a [`LinePiece`].
pub enum PieceModel {
    Text(Seq<char>),
    Foreground(TermColor),
    Reset,
}

impl View for LinePiece {
    type V = PieceModel;

    open spec fn view(&self) -> PieceModel {
        match self {
            LinePiece::Text(t) => PieceModel::Text(t@),
            LinePiece::Foreground(c) => PieceModel::Foreground(*c),
            LinePiece::Reset => PieceModel::Reset,
        }
    }
}

/// The abstract value of a sequence of pieces.
pub open spec fn pieces_view(p: Seq<LinePiece>) -> Seq<PieceModel> {
    p.map_values(|x: LinePiece| x@)
}

pub open spec fn is_digit(c: char) -> bool {
    '0' <= c && c <= '9'
}

/// The line starts with VRChat's date prefix: digits in the shape `yyyy.mm.dd hh:mm:ss`,
/// then a space.
pub open spec fn has_date_prefix(s: Seq<char>) -> bool {
    &&& s.len() >= 20
    &&& s[4] == '.'
    &&& s[7] == '.'
    &&& s[10] == ' '
    &&& s[13] == ':'
    &&& s[16] == ':'
    &&& s[19] == ' '
    &&& forall|i: int|
        0 <= i < 19 && i != 4 && i != 7 && i != 10 && i != 13 && i != 16 ==> is_digit(#[trigger] s[i])
}

/// Only the first twenty characters decide whether a line has the date prefix, and the
/// prefix is ASCII: a line of twenty or more bytes keeps its answer whatever follows it
/// (its first twenty characters are either all ASCII, then the first clause applies, or one
/// of them is not, then the third does), and the text after a prefix starts at byte twenty.
pub proof fn law_date_prefix_decided_by_first_20(line: Seq<char>, rest: Seq<char>)
    ensures
        line.len() >= 20 ==> has_date_prefix(line + rest) == has_date_prefix(line),
        has_date_prefix(line) ==> forall|i: int| 0 <= i < 20 ==> (#[trigger] line[i] as int) < 128,
        (exists|i: int| 0 <= i < line.len() && i < 20 && (#[trigger] line[i] as int) >= 128)
            ==> !has_date_prefix(line + rest),
{
    let joined = line + rest;
    assert forall|i: int| 0 <= i < line.len() implies #[trigger] joined[i] == line[i] by {}
    if line.len() >= 20 {
        if has_date_prefix(line) {
            assert forall|i: int| 0 <= i < 19 && i != 4 && i != 7 && i != 10 && i != 13 && i != 16
                implies is_digit(#[trigger] joined[i]) by {
                assert(is_digit(line[i]));
            }
        }
        if has_date_prefix(joined) {
            assert forall|i: int| 0 <= i < 19 && i != 4 && i != 7 && i != 10 && i != 13 && i != 16
                implies is_digit(#[trigger] line[i]) by {
                assert(is_digit(joined[i]));
            }
        }
    }
    if has_date_prefix(line) {
        assert forall|i: int| 0 <= i < 20 implies (#[trigger] line[i] as int) < 128 by {
            if i != 4 && i != 7 && i != 10 && i != 13 && i != 16 && i != 19 {
                assert(is_digit(line[i]));
            }
        }
    }
    if exists|i: int| 0 <= i < line.len() && i < 20 && (#[trigger] line[i] as int) >= 128 {
        let i = choose|i: int| 0 <= i < line.len() && i < 20 && (#[trigger] line[i] as int) >= 128;
        assert(joined[i] == line[i]);
        if has_date_prefix(joined) && i != 4 && i != 7 && i != 10 && i != 13 && i != 16 && i != 19 {
            assert(is_digit(joined[i]));
        }
    }
}

/// The line without its date prefix, or the whole line when it has none.
pub open spec fn strip_date(s: Seq<char>) -> Seq<char> {
    if has_date_prefix(s) {
        s.skip(20)
    } else {
        s
    }
}

/// The name of a log level as VRChat writes it.
pub open spec fn level_name(l: LogLevel) -> Seq<char> {
    match l {
        LogLevel::Warning => "Warning"@,
        LogLevel::Exception => "Exception"@,
        LogLevel::Error => "Error"@,
        LogLevel::Log => "Log"@,
    }
}

pub open spec fn starts_with(s: Seq<char>, prefix: Seq<char>) -> bool {
    s.len() >= prefix.len() && s.take(prefix.len() as int) == prefix
}

/// The first level, in the order Warning, Exception, Error, Log, whose name starts `rest`.
pub open spec fn level_at(rest: Seq<char>) -> Option<LogLevel> {
    if starts_with(rest, level_name(LogLevel::Warning)) {
        Some(LogLevel::Warning)
    } else if starts_with(rest, level_name(LogLevel::Exception)) {
        Some(LogLevel::Exception)
    } else if starts_with(rest, level_name(LogLevel::Error)) {
        Some(LogLevel::Error)
    } else if starts_with(rest, level_name(LogLevel::Log)) {
        Some(LogLevel::Log)
    } else {
        None
    }
}

/// A level found at the start of `rest` is a prefix of it.
pub proof fn lemma_level_at_is_prefix(rest: Seq<char>)
    ensures
        level_at(rest) matches Some(l) ==> starts_with(rest, level_name(l)),
{
}

/// The level right after the date prefix, if the line has both.
pub open spec fn line_level(s: Seq<char>) -> Option<LogLevel> {
    if has_date_prefix(s) {
        level_at(s.skip(20))
    } else {
        None
    }
}

/// The foreground color of the lines of the file with this index.
pub open spec fn file_color_spec(index: nat) -> TermColor {
    let k = index % 6;
    if k == 0 {
        TermColor::DarkGreen
    } else if k == 1 {
        TermColor::DarkBlue
    } else if k == 2 {
        TermColor::DarkMagenta
    } else if k == 3 {
        TermColor::DarkCyan
    } else if k == 4 {
        TermColor::Grey
    } else {
        TermColor::DarkGrey
    }
}

/// The color of a level: red for errors and exceptions, yellow for warnings, blue otherwise.
pub open spec fn level_color(l: LogLevel) -> TermColor {
    match l {
        LogLevel::Error | LogLevel::Exception => TermColor::DarkRed,
        LogLevel::Warning => TermColor::DarkYellow,
        LogLevel::Log => TermColor::DarkBlue,
    }
}

/// Exceptions are shown as errors are, in dark red (palette color 1), warnings in dark
/// yellow (3) and other log lines in dark blue (4): errors and exceptions stand out from
/// the rest, and the three kinds are told apart.
pub proof fn law_level_colors()
    ensures
        level_color(LogLevel::Exception) == level_color(LogLevel::Error),
        palette_number(level_color(LogLevel::Error)) == "1"@,
        palette_number(level_color(LogLevel::Warning)) == "3"@,
        palette_number(level_color(LogLevel::Log)) == "4"@,
        level_color(LogLevel::Error) != level_color(LogLevel::Warning),
        level_color(LogLevel::Error) != level_color(LogLevel::Log),
        level_color(LogLevel::Warning) != level_color(LogLevel::Log),
{
}

/// The decimal digit for `d < 10`.
pub open spec fn digit_char(d: nat) -> char {
    (48 + d) as char
}

/// `n` in decimal, without leading zeros.
pub open spec fn decimal(n: nat) -> Seq<char>
    decreases n,
{
    if n < 10 {
        seq![digit_char(n)]
    } else {
        decimal(n / 10).push(digit_char(n % 10))
    }
}

/// `timestamp [index] `, the start of every shown line.
pub open spec fn line_prefix(timestamp: Seq<char>, index: nat) -> Seq<char> {
    timestamp + " ["@ + decimal(index) + "] "@
}

/// The line's text when no level is colored: without the date prefix if that is suppressed.
pub open spec fn body_text(line: Seq<char>, suppress_date: bool) -> Seq<char> {
    if suppress_date {
        strip_date(line)
    } else {
        line
    }
}

/// Whether a line is shown at all: it passes the filter, and it is not a blank line that is
/// to be suppressed.
pub open spec fn line_shown(line: Seq<char>, c: ConfigModel) -> bool {
    filter_accepts(c.filter, c.case_sensitive, line) && !(c.ignore_blank_lines && line.len() == 0)
}

/// The pieces that show `line` of the file with number `index`.
///
/// Without color: the prefix, the text and a line break. With color: the prefix in the
/// file's color; then, if levels are colored and the line has one, the level (with the
/// date before it unless that is suppressed) in the level's color and the rest of the line
/// in the file's color; otherwise the text in the file's color; then the default colors
/// and a line break.
pub open spec fn line_pieces(line: Seq<char>, index: nat, c: ConfigModel, color_output: bool, timestamp: Seq<char>) -> Seq<PieceModel> {
    let prefix = line_prefix(timestamp, index);
    let fc = file_color_spec(index);
    if !line_shown(line, c) {
        Seq::empty()
    } else if !color_output {
        seq![PieceModel::Text(prefix), PieceModel::Text(body_text(line, c.suppress_log_date)), PieceModel::Text("\n"@)]
    } else if c.colored_log_level && line_level(line) is Some {
        let level = line_level(line)->0;
        let name = level_name(level);
        let shown_level = if c.suppress_log_date { name } else { line.take(20 + name.len() as int) };
        seq![
            PieceModel::Foreground(fc),
            PieceModel::Text(prefix),
            PieceModel::Reset,
            PieceModel::Foreground(level_color(level)),
            PieceModel::Text(shown_level),
            PieceModel::Reset,
            PieceModel::Foreground(fc),
            PieceModel::Text(line.skip(20 + name.len() as int)),
            PieceModel::Reset,
            PieceModel::Text("\n"@),
        ]
    } else {
        seq![
            PieceModel::Foreground(fc),
            PieceModel::Text(prefix),
            PieceModel::Text(body_text(line, c.suppress_log_date)),
            PieceModel::Reset,
            PieceModel::Text("\n"@),
        ]
    }
}

/// Whether the characters of a line start with the date prefix.
fn date_prefix_at_start(chars: &Vec<char>) -> (r: bool)
    ensures
        r == has_date_prefix(chars@),
{
    if chars.len() < LOG_DATE_PREFIX_LEN {
        return false;
    }
    if chars[4] != '.' || chars[7] != '.' || chars[10] != ' ' || chars[13] != ':' || chars[16] != ':'
        || chars[19] != ' ' {
        return false;
    }
    let mut i: usize = 0;
    while i < 19
        invariant
            i <= 19,
            chars.len() >= 20,
            forall|k: int|
                0 <= k < i && k != 4 && k != 7 && k != 10 && k != 13 && k != 16 ==> is_digit(
                    #[trigger] chars@[k],
                ),
        decreases 19 - i,
    {
        if i != 4 && i != 7 && i != 10 && i != 13 && i != 16 {
            let c = chars[i];
            if !('0' <= c && c <= '9') {
                return false;
            }
        }
        i = i + 1;
    }
    true
}

/// Whether `line` starts with VRChat's date prefix.
pub fn has_log_date_prefix(line: &str) -> (r: bool)
    ensures
        r == has_date_prefix(line@),
{
    let chars = chars_of(line);
    date_prefix_at_start(&chars)
}

/// `line` without its date prefix; the whole line when it has none.
pub fn strip_log_date(line: &str) -> (r: String)
    ensures
        r@ == strip_date(line@),
{
    let chars = chars_of(line);
    if date_prefix_at_start(&chars) {
        string_from_chars(&chars, LOG_DATE_PREFIX_LEN)
    } else {
        string_from_chars(&chars, 0)
    }
}

/// The name of a level.
pub fn level_str(l: LogLevel) -> (r: &'static str)
    ensures
        r@ == level_name(l),
{
    match l {
        LogLevel::Warning => "Warning",
        LogLevel::Exception => "Exception",
        LogLevel::Error => "Error",
        LogLevel::Log => "Log",
    }
}

/// Whether `chars[at..]` starts with `prefix`.
fn starts_with_at(chars: &Vec<char>, at: usize, prefix: &str) -> (r: bool)
    requires
        at <= chars.len(),
    ensures
        r == starts_with(chars@.skip(at as int), prefix@),
{
    let p = chars_of(prefix);
    if chars.len() - at < p.len() {
        return false;
    }
    let m = matches_at(chars, &p, at);
    assert(chars@.skip(at as int).take(p.len() as int) == chars@.subrange(at as int, at + p.len()));
    m
}

/// The level that follows the date prefix, in a line that has one.
fn level_after_prefix(chars: &Vec<char>) -> (r: Option<LogLevel>)
    requires
        chars.len() >= 20,
    ensures
        r == level_at(chars@.skip(20)),
{
    if starts_with_at(chars, LOG_DATE_PREFIX_LEN, level_str(LogLevel::Warning)) {
        Some(LogLevel::Warning)
    } else if starts_with_at(chars, LOG_DATE_PREFIX_LEN, level_str(LogLevel::Exception)) {
        Some(LogLevel::Exception)
    } else if starts_with_at(chars, LOG_DATE_PREFIX_LEN, level_str(LogLevel::Error)) {
        Some(LogLevel::Error)
    } else if starts_with_at(chars, LOG_DATE_PREFIX_LEN, level_str(LogLevel::Log)) {
        Some(LogLevel::Log)
    } else {
        None
    }
}

/// The level of a line's characters.
fn level_of_chars(chars: &Vec<char>) -> (r: Option<LogLevel>)
    ensures
        r == line_level(chars@),
{
    if date_prefix_at_start(chars) {
        level_after_prefix(chars)
    } else {
        None
    }
}

/// The level written after the date prefix and the rest of the line after it; `None` when
/// the line has no date prefix or no known level follows it.
pub fn log_level(line: &str) -> (r: Option<(String, String)>)
    ensures
        match line_level(line@) {
            None => r is None,
            Some(l) => match r {
                Some((name, rest)) => name@ == level_name(l) && rest@ == line@.skip(
                    20 + level_name(l).len() as int,
                ),
                None => false,
            },
        },
{
    let chars = chars_of(line);
    match level_of_chars(&chars) {
        None => None,
        Some(l) => {
            let name = level_str(l);
            let name_len = chars_of(name).len();
            Some((name.to_owned(), string_from_chars(&chars, LOG_DATE_PREFIX_LEN + name_len)))
        },
    }
}

/// Appends `n` in decimal.
pub fn push_decimal(out: &mut String, n: usize)
    ensures
        final(out)@ == old(out)@ + decimal(n as nat),
    decreases n,
{
    if n >= 10 {
        push_decimal(out, n / 10);
    }
    let d: u8 = (n % 10) as u8;
    push_char(out, (d + 48u8) as char);
    assert(out@ =~= old(out)@ + decimal(n as nat));
}

/// The color of the file with this index; the colors repeat after six files.
pub fn file_color(index: usize) -> (c: TermColor)
    ensures
        c == file_color_spec(index as nat),
{
    let k = index % 6;
    if k == 0 {
        TermColor::DarkGreen
    } else if k == 1 {
        TermColor::DarkBlue
    } else if k == 2 {
        TermColor::DarkMagenta
    } else if k == 3 {
        TermColor::DarkCyan
    } else if k == 4 {
        TermColor::Grey
    } else {
        TermColor::DarkGrey
    }
}

/// The color in which a level is shown.
fn color_of_level(l: LogLevel) -> (c: TermColor)
    ensures
        c == level_color(l),
{
    match l {
        LogLevel::Error | LogLevel::Exception => TermColor::DarkRed,
        LogLevel::Warning => TermColor::DarkYellow,
        LogLevel::Log => TermColor::DarkBlue,
    }
}

/// A string holding `s`.
fn owned(s: &str) -> (r: String)
    ensures
        r@ == s@,
{
    s.to_owned()
}

/// The pieces that show `line` of the file with number `index`, as [`line_pieces`] says;
/// none when the line is filtered out.
pub fn write_line(line: &str, index: usize, config: &Config, color_output: bool, timestamp: &str) -> (r: Vec<LinePiece>)
    ensures
        pieces_view(r@) == line_pieces(line@, index as nat, config@, color_output, timestamp@),
{
    let mut pieces: Vec<LinePiece> = Vec::new();
    if !config.line_matches(line) || (config.ignore_blank_lines && line.is_empty()) {
        assert(pieces_view(pieces@) =~= Seq::<PieceModel>::empty());
        return pieces;
    }
    let mut prefix = String::new();
    push_str(&mut prefix, timestamp);
    push_str(&mut prefix, " [");
    push_decimal(&mut prefix, index);
    push_str(&mut prefix, "] ");
    assert(prefix@ =~= line_prefix(timestamp@, index as nat));
    let chars = chars_of(line);
    let body = if config.suppress_log_date && date_prefix_at_start(&chars) {
        string_from_chars(&chars, LOG_DATE_PREFIX_LEN)
    } else {
        string_from_chars(&chars, 0)
    };
    assert(body@ =~= body_text(line@, config.suppress_log_date));
    if !color_output {
        pieces.push(LinePiece::Text(prefix));
        pieces.push(LinePiece::Text(body));
        pieces.push(LinePiece::Text(owned("\n")));
        assert(pieces_view(pieces@) =~= line_pieces(line@, index as nat, config@, color_output, timestamp@));
        return pieces;
    }
    let fc = file_color(index);
    pieces.push(LinePiece::Foreground(fc));
    pieces.push(LinePiece::Text(prefix));
    if config.colored_log_level {
        match level_of_chars(&chars) {
            Some(level) => {
                let name = level_str(level);
                let name_len = chars_of(name).len();
                proof {
                    lemma_level_at_is_prefix(chars@.skip(20));
                }
                assert(LOG_DATE_PREFIX_LEN + name_len <= chars.len());
                let end = LOG_DATE_PREFIX_LEN + name_len;
                let shown = if config.suppress_log_date {
                    owned(name)
                } else {
                    let mut t = String::new();
                    let mut i: usize = 0;
                    while i < LOG_DATE_PREFIX_LEN + name_len
                        invariant
                            i <= LOG_DATE_PREFIX_LEN + name_len,
                            LOG_DATE_PREFIX_LEN + name_len <= chars.len(),
                            t@ == chars@.take(i as int),
                        decreases LOG_DATE_PREFIX_LEN + name_len - i,
                    {
                        push_char(&mut t, chars[i]);
                        assert(chars@.take(i + 1) == chars@.take(i as int).push(chars@[i as int]));
                        i = i + 1;
                    }
                    t
                };
                let rest = string_from_chars(&chars, end);
                pieces.push(LinePiece::Reset);
                pieces.push(LinePiece::Foreground(color_of_level(level)));
                pieces.push(LinePiece::Text(shown));
                pieces.push(LinePiece::Reset);
                pieces.push(LinePiece::Foreground(fc));
                pieces.push(LinePiece::Text(rest));
                pieces.push(LinePiece::Reset);
                pieces.push(LinePiece::Text(owned("\n")));
                assert(pieces_view(pieces@) =~= line_pieces(line@, index as nat, config@, color_output, timestamp@));
                return pieces;
            },
            None => {},
        }
    }
    pieces.push(LinePiece::Text(body));
    pieces.push(LinePiece::Reset);
    pieces.push(LinePiece::Text(owned("\n")));
    assert(pieces_view(pieces@) =~= line_pieces(line@, index as nat, config@, color_output, timestamp@));
    pieces
}

/// The palette number that the escape sequence of a color names.
pub open spec fn palette_number(c: TermColor) -> Seq<char> {
    match c {
        TermColor::DarkRed => "1"@,
        TermColor::DarkGreen => "2"@,
        TermColor::DarkYellow => "3"@,
        TermColor::DarkBlue => "4"@,
        TermColor::DarkMagenta => "5"@,
        TermColor::DarkCyan => "6"@,
        TermColor::Grey => "7"@,
        TermColor::DarkGrey => "8"@,
    }
}

/// The ANSI escape sequence that sets the foreground color.
pub open spec fn foreground_escape(c: TermColor) -> Seq<char> {
    "\x1b[38;5;"@ + palette_number(c) + "m"@
}

/// What crossterm writes for a foreground color while its colors are disabled.
pub open spec fn disabled_foreground_escape() -> Seq<char> {
    "\x1b[m"@
}

/// The ANSI escape sequence that restores the default colors.
pub open spec fn reset_escape() -> Seq<char> {
    "\x1b[0m"@
}

/// Calls crossterm's `Command::write_ansi` for `SetForegroundColor` with the matching
/// crossterm color. Claims what crossterm's source writes: `ESC[38;5;<n>m` with the color's
/// palette number, or `ESC[m` while crossterm's process-wide switch that disables colors
/// (set from `NO_COLOR`, or by `Colored::set_ansi_color_disabled`) is on. Which of the two
/// comes back depends on that switch, so the claim leaves the choice open.
#[verifier::external_body]
fn ansi_foreground(c: TermColor) -> (r: String)
    ensures
        r@ == foreground_escape(c) || r@ == disabled_foreground_escape(),
{
    let color = match c {
        TermColor::DarkGreen => Color::DarkGreen,
        TermColor::DarkBlue => Color::DarkBlue,
        TermColor::DarkMagenta => Color::DarkMagenta,
        TermColor::DarkCyan => Color::DarkCyan,
        TermColor::Grey => Color::Grey,
        TermColor::DarkGrey => Color::DarkGrey,
        TermColor::DarkRed => Color::DarkRed,
        TermColor::DarkYellow => Color::DarkYellow,
    };
    let mut s = String::new();
    let _ = SetForegroundColor(color).write_ansi(&mut s);
    s
}

/// Calls crossterm's `Command::write_ansi` for `ResetColor`. Claims that it writes `ESC[0m`,
/// as crossterm's source does unconditionally.
#[verifier::external_body]
fn ansi_reset() -> (r: String)
    ensures
        r@ == reset_escape(),
{
    let mut s = String::new();
    let _ = ResetColor.write_ansi(&mut s);
    s
}

/// How one piece is written; `colored` says whether crossterm's colors were on for it.
pub open spec fn piece_text(p: PieceModel, colored: bool) -> Seq<char> {
    match p {
        PieceModel::Text(t) => t,
        PieceModel::Foreground(c) => if colored {
            foreground_escape(c)
        } else {
            disabled_foreground_escape()
        },
        PieceModel::Reset => reset_escape(),
    }
}

/// How a sequence of pieces is written, piece after piece.
pub open spec fn rendered(p: Seq<PieceModel>, colored: Seq<bool>) -> Seq<char>
    decreases p.len(),
{
    if p.len() == 0 {
        Seq::empty()
    } else {
        rendered(p.drop_last(), colored.drop_last()) + piece_text(p.last(), colored.last())
    }
}

/// The text and ANSI escape sequences that show the pieces on a terminal.
pub fn render(pieces: &Vec<LinePiece>) -> (r: String)
    ensures
        exists|colored: Seq<bool>|
            colored.len() == pieces.len() && r@ == #[trigger] rendered(pieces_view(pieces@), colored),
{
    let mut out = String::new();
    let ghost mut colored: Seq<bool> = Seq::empty();
    let mut i: usize = 0;
    while i < pieces.len()
        invariant
            i <= pieces.len(),
            colored.len() == i,
            out@ == rendered(pieces_view(pieces@).take(i as int), colored),
        decreases pieces.len() - i,
    {
        let ghost before = out@;
        let ghost flag: bool;
        match &pieces[i] {
            LinePiece::Text(t) => {
                push_str(&mut out, t.as_str());
                proof {
                    flag = true;
                }
            },
            LinePiece::Foreground(c) => {
                let esc = ansi_foreground(*c);
                push_str(&mut out, esc.as_str());
                proof {
                    flag = esc@ == foreground_escape(*c);
                }
            },
            LinePiece::Reset => {
                let esc = ansi_reset();
                push_str(&mut out, esc.as_str());
                proof {
                    flag = true;
                }
            },
        }
        proof {
            let p = pieces_view(pieces@);
            let next = colored.push(flag);
            assert(p.take(i + 1).drop_last() =~= p.take(i as int));
            assert(next.drop_last() =~= colored);
            assert(out@ == before + piece_text(p[i as int], flag));
            colored = next;
        }
        i = i + 1;
    }
    assert(pieces_view(pieces@).take(pieces.len() as int) =~= pieces_view(pieces@));
    out
}

/// The text of the pieces without the color changes.
pub open spec fn plain_text(p: Seq<PieceModel>) -> Seq<char>
    decreases p.len(),
{
    if p.len() == 0 {
        Seq::empty()
    } else {
        plain_text(p.drop_last()) + match p.last() {
            PieceModel::Text(t) => t,
            _ => Seq::empty(),
        }
    }
}

/// Color changes only add escape sequences: the text of a line shown in color is the text
/// of the same line shown without color.
pub proof fn law_color_adds_only_escapes(line: Seq<char>, index: nat, c: ConfigModel, timestamp: Seq<char>)
    ensures
        plain_text(line_pieces(line, index, c, true, timestamp)) == plain_text(
            line_pieces(line, index, c, false, timestamp),
        ),
{
    reveal_with_fuel(plain_text, 11);
    if line_shown(line, c) {
        let plain = line_prefix(timestamp, index) + body_text(line, c.suppress_log_date) + "\n"@;
        assert(plain_text(line_pieces(line, index, c, false, timestamp)) =~= plain);
        let colored = line_pieces(line, index, c, true, timestamp);
        if c.colored_log_level && line_level(line) is Some {
            let name = level_name(line_level(line)->0);
            lemma_level_at_is_prefix(line.skip(20));
            if c.suppress_log_date {
                assert(name + line.skip(20 + name.len() as int) =~= line.skip(20));
            } else {
                assert(line.take(20 + name.len() as int) + line.skip(20 + name.len() as int) =~= line);
            }
        }
        assert(plain_text(colored) =~= plain);
    }
}

/// Without color a shown line is written as plain text, `timestamp [index] text` and a line
/// break, with no escape sequence, whatever crossterm's color switch says.
pub proof fn law_plain_output_has_no_escapes(line: Seq<char>, index: nat, c: ConfigModel, timestamp: Seq<char>, colored: Seq<bool>)
    requires
        colored.len() == line_pieces(line, index, c, false, timestamp).len(),
    ensures
        rendered(line_pieces(line, index, c, false, timestamp), colored) == if line_shown(line, c) {
            line_prefix(timestamp, index) + body_text(line, c.suppress_log_date) + "\n"@
        } else {
            Seq::empty()
        },
{
    reveal_with_fuel(rendered, 4);
    let p = line_pieces(line, index, c, false, timestamp);
    if line_shown(line, c) {
        assert(p.drop_last().drop_last().drop_last() =~= Seq::<PieceModel>::empty());
        assert(rendered(p, colored) =~= line_prefix(timestamp, index) + body_text(line, c.suppress_log_date) + "\n"@);
    }
}

/// The file colors repeat after six files.
pub proof fn law_file_colors_repeat(index: nat)
    ensures
        file_color_spec(index + 6) == file_color_spec(index),
{
    assert((index + 6) % 6 == index % 6);
}

} // verus!
