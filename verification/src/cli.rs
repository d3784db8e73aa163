//! Command-line options and the runtime configuration they produce.

use crate::text::{contains_seq, lowercase, str_contains, to_lowercase};
use clap::error::ErrorKind;
use clap::{Arg, Command};
use vstd::prelude::*;

verus! {

/// The default width, in seconds, of the window that selects the current log group.
pub const DEFAULT_GROUP_PERIOD_SECS: i64 = 30;

/// clap's description of a command; carried through opaquely.
#[verifier::external_type_specification]
#[verifier::external_body]
pub struct ExCommand(Command);


/// Why the command line was not accepted.
#[derive(Debug, Clone, Copy, PartialEq, Eq)]
pub enum CliErrorKind {
    /// `-h` or `--help` was given: the caller shows the help text.
    DisplayHelp,
    /// `-V` or `--version` was given: the caller shows the version.
    DisplayVersion,
    /// The arguments do not fit the options.
    Invalid,
}

/// A refused command line, with the message that clap rendered for it.
#[derive(Debug)]
pub struct CliError {
    pub kind: CliErrorKind,
    pub message: String,
}

impl CliError {
    /// What kind of refusal this is.
    pub fn kind(&self) -> (k: CliErrorKind)
        ensures
            k == self.kind,
    {
        self.kind
    }
}

/// The options as given on the command line.
pub struct Cli {
    pub filter: Option<String>,
    pub case_sensitive: bool,
    pub ignore_blank_lines: bool,
    pub no_colored_log_level: bool,
    pub suppress_log_date: bool,
    pub group_period_secs: i64,
    pub no_watch: bool,
}

/// How an option of the command line takes its value.
#[derive(Debug, Clone, Copy, PartialEq, Eq, Structural)]
pub enum OptionKind {
    /// A switch without a value: `true` when given, `false` otherwise.
    Switch,
    /// Any text.
    Text,
    /// A whole number no smaller than the one given.
    AtLeast(i64),
}

/// One option of the command line, as data: the name it is stored under, its `-<short>`
/// and `--<long>` forms, the placeholder for its value in the help, how it takes its value,
/// the value used when it is not given, and its line of help.
#[derive(Debug)]
pub struct OptionDef {
    pub id: &'static str,
    pub short: Option<char>,
    pub long: &'static str,
    pub value_name: Option<&'static str>,
    pub kind: OptionKind,
    pub default_value: Option<&'static str>,
    pub help: Option<&'static str>,
}

/// The switch `-<short>, --<long>` stored under `id`, with its line of help.
pub open spec fn switch_def(id: &'static str, short: Option<char>, long: &'static str, help: &'static str) -> OptionDef {
    OptionDef { id, short, long, value_name: None, kind: OptionKind::Switch, default_value: None, help: Some(help) }
}

/// The options of the program, in the order they are declared to clap.
pub open spec fn cli_options() -> Seq<OptionDef> {
    seq![
        OptionDef {
            id: "filter",
            short: Some('f'),
            long: "filter",
            value_name: Some("FILTER"),
            kind: OptionKind::Text,
            default_value: None,
            help: Some("Show only matching lines"),
        },
        switch_def("case_sensitive", Some('c'), "case-sensitive", "Match filters case-sensitively"),
        switch_def("ignore_blank_lines", Some('s'), "ignore-blank-lines", "Suppress blank lines"),
        switch_def("no_colored_log_level", Some('L'), "no-colored-log-level", "Disable per-level colors"),
        switch_def("suppress_log_date", Some('d'), "suppress-log-date", "Remove VRChat's date prefix"),
        OptionDef {
            id: "group_period_secs",
            short: Some('g'),
            long: "group-period",
            value_name: Some("GROUP_PERIOD_SECS"),
            kind: OptionKind::AtLeast(1),
            default_value: Some("30"),
            help: Some("Log group window"),
        },
        switch_def("no_watch", None, "no-watch", "Do not add newly created log files"),
    ]
}

/// The switch `-<short>, --<long>` stored under `id`, with its line of help.
fn switch(id: &'static str, short: char, long: &'static str, help: &'static str) -> (d: OptionDef)
    ensures
        d == switch_def(id, Some(short), long, help),
{
    OptionDef {
        id,
        short: Some(short),
        long,
        value_name: None,
        kind: OptionKind::Switch,
        default_value: None,
        help: Some(help),
    }
}

/// The options of the program, as [`cli_options`] lists them.
fn cli_command() -> (options: Vec<OptionDef>)
    ensures
        options@ == cli_options(),
{
    let mut options: Vec<OptionDef> = Vec::new();
    options.push(OptionDef {
        id: "filter",
        short: Some('f'),
        long: "filter",
        value_name: Some("FILTER"),
        kind: OptionKind::Text,
        default_value: None,
        help: Some("Show only matching lines"),
    });
    options.push(switch("case_sensitive", 'c', "case-sensitive", "Match filters case-sensitively"));
    options.push(switch("ignore_blank_lines", 's', "ignore-blank-lines", "Suppress blank lines"));
    options.push(switch("no_colored_log_level", 'L', "no-colored-log-level", "Disable per-level colors"));
    options.push(switch("suppress_log_date", 'd', "suppress-log-date", "Remove VRChat's date prefix"));
    options.push(OptionDef {
        id: "group_period_secs",
        short: Some('g'),
        long: "group-period",
        value_name: Some("GROUP_PERIOD_SECS"),
        kind: OptionKind::AtLeast(1),
        default_value: Some("30"),
        help: Some("Log group window"),
    });
    options.push(OptionDef {
        id: "no_watch",
        short: None,
        long: "no-watch",
        value_name: None,
        kind: OptionKind::Switch,
        default_value: None,
        help: Some("Do not add newly created log files"),
    });
    assert(options@ =~= cli_options());
    options
}

/// The abstract value of an [`OptionDef`].
pub struct OptionModel {
    pub id: Seq<char>,
    pub short: Option<char>,
    pub long: Seq<char>,
    pub value_name: Option<Seq<char>>,
    pub kind: OptionKind,
    pub default_value: Option<Seq<char>>,
    pub help: Option<Seq<char>>,
}

pub open spec fn str_option_view(s: Option<&'static str>) -> Option<Seq<char>> {
    match s {
        Some(x) => Some(x@),
        None => None,
    }
}

impl View for OptionDef {
    type V = OptionModel;

    open spec fn view(&self) -> OptionModel {
        OptionModel {
            id: self.id@,
            short: self.short,
            long: self.long@,
            value_name: str_option_view(self.value_name),
            kind: self.kind,
            default_value: str_option_view(self.default_value),
            help: str_option_view(self.help),
        }
    }
}

/// The abstract values of a list of options.
pub open spec fn options_view(s: Seq<OptionDef>) -> Seq<OptionModel> {
    Seq::new(s.len(), |i: int| s[i]@)
}

/// An option that clap accepts without a debug assertion failing: a nonempty name and long
/// form, a long form not starting with `-`, a short form other than `-`, none of the forms
/// that clap gives to its own help and version options (`help`, `version`, `-h`, `-V`), and
/// no value name or default for a switch.
pub open spec fn option_valid(o: OptionModel) -> bool {
    &&& o.id.len() > 0
    &&& o.long.len() > 0
    &&& o.long[0] != '-'
    &&& o.id != "help"@ && o.id != "version"@
    &&& o.long != "help"@ && o.long != "version"@
    &&& (o.short matches Some(c) ==> c != '-' && c != 'h' && c != 'V')
    &&& (o.kind == OptionKind::Switch ==> o.value_name is None && o.default_value is None)
}

/// A list of options that clap accepts: each valid, with names, long forms and short forms
/// that no two share.
pub open spec fn options_valid(s: Seq<OptionModel>) -> bool {
    &&& forall|i: int| 0 <= i < s.len() ==> option_valid(#[trigger] s[i])
    &&& forall|i: int, j: int|
        0 <= i < s.len() && 0 <= j < s.len() && i != j ==> {
            &&& #[trigger] s[i].id != #[trigger] s[j].id
            &&& s[i].long != s[j].long
            &&& (s[i].short is Some ==> s[i].short != s[j].short)
        }
}

/// What clap found for one option on a command line.
#[derive(Debug)]
pub enum Found {
    Switch(Option<bool>),
    Text(Option<String>),
    Integer(Option<i64>),
}

/// The abstract value of a [`Found`].
pub enum FoundModel {
    Switch(Option<bool>),
    Text(Option<Seq<char>>),
    Integer(Option<i64>),
}

impl View for Found {
    type V = FoundModel;

    open spec fn view(&self) -> FoundModel {
        match self {
            Found::Switch(b) => FoundModel::Switch(*b),
            Found::Text(t) => FoundModel::Text(t.deep_view()),
            Found::Integer(n) => FoundModel::Integer(*n),
        }
    }
}

/// The abstract value of a parse: the values found, or the kind and message of a refusal.
pub open spec fn parse_view(r: Result<Vec<Found>, CliError>) -> Result<Seq<FoundModel>, (CliErrorKind, Seq<char>)> {
    match r {
        Ok(v) => Ok(Seq::new(v.len() as nat, |i: int| v@[i]@)),
        Err(e) => Err((e.kind, e.message@)),
    }
}

/// What clap's `Command::try_get_matches_from` gives for a command named `name`, with version
/// `version` and the given options, on the command line `args`: for each option, the value
/// found (or its default), or the kind and message of a refusal.
pub uninterp spec fn clap_found(name: Seq<char>, version: Seq<char>, options: Seq<OptionModel>, args: Seq<Seq<char>>) -> Result<Seq<FoundModel>, (CliErrorKind, Seq<char>)>;

/// A found value of the kind that the option takes; for a whole number bounded below, a
/// value found is no smaller than the bound.
pub open spec fn found_fits(f: FoundModel, o: OptionModel) -> bool {
    match o.kind {
        OptionKind::Switch => f is Switch,
        OptionKind::Text => f is Text,
        OptionKind::AtLeast(min) => f matches FoundModel::Integer(n) && (n matches Some(v) ==> v >= min),
    }
}

/// A clap command built from options as data, together with that data.
pub struct ClapCommand {
    cmd: Command,
    name: &'static str,
    version: &'static str,
    options: Vec<OptionDef>,
}

/// Calls clap's builder: `Command::new(name).version(version)`, then for each option in
/// order `Command::arg` with `Arg::new(id).long(long).short(short).value_name(value_name)
/// .default_value(default_value).help(help)` and, by kind, `action(ArgAction::SetTrue)`, nothing, or
/// `value_parser(RangedI64ValueParser::<i64>::new().range(min..))`. `Arg::short` panics on
/// `-` in debug builds, which `options_valid` rules out. Claims nothing of the result.
#[verifier::external_body]
fn clap_build(name: &'static str, version: &'static str, options: &Vec<OptionDef>) -> Command
    requires
        options_valid(options_view(options@)),
{
    options.iter().fold(Command::new(name).version(version), |cmd, o| {
        let arg = Arg::new(o.id).long(o.long).short(o.short).value_name(o.value_name).default_value(o.default_value).help(o.help);
        cmd.arg(match o.kind {
            OptionKind::Switch => arg.action(clap::ArgAction::SetTrue),
            OptionKind::Text => arg,
            OptionKind::AtLeast(min) => arg.value_parser(clap::builder::RangedI64ValueParser::<i64>::new().range(min..)),
        })
    })
}

/// Calls `clap::Command::try_get_matches_from` on (a copy of) the command, then reads each
/// option's value with `ArgMatches::get_one` of the option's type (`bool`, `String`,
/// `i64`); `get_one` panics only for an id that the command lacks or a type other than the
/// one its value parser gives, and neither can happen for options of the command itself. A refusal is carried over as its kind
/// (`clap::Error::kind`, the two kinds that ask for help or version told apart) and its
/// message (`to_string`). Claims: the result is clap's answer [`clap_found`] for the
/// command's name, version and options and these arguments (clap's answer depends on these
/// alone: without its `wrap_help` feature it reads no terminal size, and no option reads the
/// environment); the values come one per option, in order, of the option's type; and a
/// whole number found for a bounded option is within the bound, as `RangedI64ValueParser`
/// refuses any other. The debug assertions of `try_get_matches_from` (`assert_app`) hold for
/// options that `options_valid` accepts, which every `ClapCommand` has.
#[verifier::external_body]
fn clap_parse(c: &ClapCommand, args: Vec<String>) -> (r: Result<Vec<Found>, CliError>)
    ensures
        parse_view(r) == clap_found(c.name@, c.version@, options_view(c.options@), args.deep_view()),
        r matches Ok(v) ==> v.len() == c.options.len() && forall|i: int|
            0 <= i < v.len() ==> found_fits(#[trigger] v@[i]@, c.options@[i]@),
{
    let m = match c.cmd.clone().try_get_matches_from(args) {
        Ok(m) => m,
        Err(e) => return Err(CliError { kind: match e.kind() {
            ErrorKind::DisplayHelp => CliErrorKind::DisplayHelp,
            ErrorKind::DisplayVersion => CliErrorKind::DisplayVersion,
            _ => CliErrorKind::Invalid,
        }, message: e.to_string() }),
    };
    Ok(c.options.iter().map(|o| match o.kind {
        OptionKind::Switch => Found::Switch(m.get_one::<bool>(o.id).copied()),
        OptionKind::Text => Found::Text(m.get_one::<String>(o.id).cloned()),
        OptionKind::AtLeast(_) => Found::Integer(m.get_one::<i64>(o.id).copied()),
    }).collect())
}

impl ClapCommand {
    /// The command `name`, version `version`, with these options.
    pub fn new(name: &'static str, version: &'static str, options: Vec<OptionDef>) -> (c: ClapCommand)
        requires
            options_valid(options_view(options@)),
        ensures
            c.name() == name,
            c.version() == version,
            c.options() == options@,
    {
        let cmd = clap_build(name, version, &options);
        ClapCommand { cmd, name, version, options }
    }

    pub closed spec fn name(&self) -> &'static str {
        self.name
    }

    pub closed spec fn version(&self) -> &'static str {
        self.version
    }

    pub closed spec fn options(&self) -> Seq<OptionDef> {
        self.options@
    }

    /// Parses `args` (the program name first): clap's answer [`clap_found`].
    pub fn parse(&self, args: Vec<String>) -> (r: Result<Vec<Found>, CliError>)
        ensures
            parse_view(r) == clap_found(self.name()@, self.version()@, options_view(self.options()), args.deep_view()),
            r matches Ok(v) ==> v.len() == self.options().len() && forall|i: int|
                0 <= i < v.len() ==> found_fits(#[trigger] v@[i]@, self.options()[i]@),
    {
        clap_parse(self, args)
    }
}

/// The switch found, if the value is one.
pub open spec fn found_switch(f: FoundModel) -> Option<bool> {
    match f {
        FoundModel::Switch(b) => b,
        _ => None,
    }
}

/// The text found, if the value is one.
pub open spec fn found_text(f: FoundModel) -> Option<Seq<char>> {
    match f {
        FoundModel::Text(t) => t,
        _ => None,
    }
}

/// The whole number found, if the value is one.
pub open spec fn found_integer(f: FoundModel) -> Option<i64> {
    match f {
        FoundModel::Integer(n) => n,
        _ => None,
    }
}

/// The options that the values found for [`cli_options`] give: a switch is on only when
/// found set, and the group period is 30 seconds when none was found.
pub open spec fn cli_from_found(cli: Cli, v: Seq<FoundModel>) -> bool {
    &&& cli.filter.deep_view() == found_text(v[0])
    &&& cli.case_sensitive == (found_switch(v[1]) == Some(true))
    &&& cli.ignore_blank_lines == (found_switch(v[2]) == Some(true))
    &&& cli.no_colored_log_level == (found_switch(v[3]) == Some(true))
    &&& cli.suppress_log_date == (found_switch(v[4]) == Some(true))
    &&& cli.group_period_secs == (match found_integer(v[5]) {
        Some(p) => p,
        None => DEFAULT_GROUP_PERIOD_SECS,
    })
    &&& cli.no_watch == (found_switch(v[6]) == Some(true))
}

/// The program's name, as clap shows it.
pub const PROGRAM_NAME: &'static str = "vrc-tail";

/// The program's version, as `--version` shows it.
pub const PROGRAM_VERSION: &'static str = "0.1.0";

fn take_switch(f: &Found) -> (b: Option<bool>)
    ensures
        b == found_switch(f@),
{
    match f {
        Found::Switch(b) => *b,
        _ => None,
    }
}

fn take_integer(f: &Found) -> (n: Option<i64>)
    ensures
        n == found_integer(f@),
{
    match f {
        Found::Integer(n) => *n,
        _ => None,
    }
}

fn take_text(f: Found) -> (t: Option<String>)
    ensures
        t.deep_view() == found_text(f@),
{
    match f {
        Found::Text(t) => t,
        _ => None,
    }
}

impl Cli {
    /// The options from the values found on a command line: a switch is on only when it was
    /// found set, and the group period is 30 seconds when none was found.
    pub fn from_values(
        filter: Option<String>,
        case_sensitive: Option<bool>,
        ignore_blank_lines: Option<bool>,
        no_colored_log_level: Option<bool>,
        suppress_log_date: Option<bool>,
        group_period_secs: Option<i64>,
        no_watch: Option<bool>,
    ) -> (cli: Cli)
        ensures
            cli.filter == filter,
            cli.case_sensitive == (case_sensitive == Some(true)),
            cli.ignore_blank_lines == (ignore_blank_lines == Some(true)),
            cli.no_colored_log_level == (no_colored_log_level == Some(true)),
            cli.suppress_log_date == (suppress_log_date == Some(true)),
            cli.group_period_secs == (match group_period_secs {
                Some(p) => p,
                None => DEFAULT_GROUP_PERIOD_SECS,
            }),
            cli.no_watch == (no_watch == Some(true)),
    {
        let period = match group_period_secs {
            Some(p) => p,
            None => DEFAULT_GROUP_PERIOD_SECS,
        };
        Cli {
            filter,
            case_sensitive: case_sensitive == Some(true),
            ignore_blank_lines: ignore_blank_lines == Some(true),
            no_colored_log_level: no_colored_log_level == Some(true),
            suppress_log_date: suppress_log_date == Some(true),
            group_period_secs: period,
            no_watch: no_watch == Some(true),
        }
    }

    /// Parses a command line (the program name first) into the options of [`cli_options`]:
    /// `-f`/`--filter <FILTER>`, the switches `-c`/`--case-sensitive`,
    /// `-s`/`--ignore-blank-lines`, `-L`/`--no-colored-log-level`, `-d`/`--suppress-log-date`
    /// and `--no-watch`, and `-g`/`--group-period <GROUP_PERIOD_SECS>`, a whole number of
    /// seconds of at least 1 (30 when not given); `-h`/`--help` and `-V`/`--version` are
    /// refused with their own kind. Succeeds exactly when clap accepts the command line; the
    /// values it finds become the options as [`cli_from_found`] says.
    pub fn try_parse_from(args: Vec<String>) -> (r: Result<Cli, CliError>)
        ensures
            match clap_found(PROGRAM_NAME@, PROGRAM_VERSION@, options_view(cli_options()), args.deep_view()) {
                Err((kind, message)) => r matches Err(e) && e.kind == kind && e.message@ == message,
                Ok(v) => r matches Ok(cli) && cli_from_found(cli, v),
            },
            r matches Ok(cli) ==> cli.group_period_secs >= 1,
    {
        let options = cli_command();
        proof {
            lemma_cli_options_valid();
        }
        let command = ClapCommand::new(PROGRAM_NAME, PROGRAM_VERSION, options);
        match command.parse(args) {
            Err(e) => Err(e),
            Ok(found) => {
                assert(found_fits(found@[5]@, cli_options()[5]@));
                let mut found = found;
                let case_sensitive = take_switch(&found[1]);
                let ignore_blank_lines = take_switch(&found[2]);
                let no_colored_log_level = take_switch(&found[3]);
                let suppress_log_date = take_switch(&found[4]);
                let group_period_secs = take_integer(&found[5]);
                let no_watch = take_switch(&found[6]);
                let filter = take_text(found.swap_remove(0));
                Ok(Cli::from_values(
                    filter,
                    case_sensitive,
                    ignore_blank_lines,
                    no_colored_log_level,
                    suppress_log_date,
                    group_period_secs,
                    no_watch,
                ))
            },
        }
    }
}

/// Each field of the parsed command line follows the option of its own name, wherever that
/// option stands among [`cli_options`]: the filter is the text found for `-f`/`--filter`;
/// `case_sensitive` is on exactly when `-c`/`--case-sensitive` was found set, and likewise
/// `ignore_blank_lines` for `-s`/`--ignore-blank-lines`, `no_colored_log_level` for
/// `-L`/`--no-colored-log-level`, `suppress_log_date` for `-d`/`--suppress-log-date` and
/// `no_watch` for `--no-watch`; the group period is the number found for
/// `-g`/`--group-period`, or 30 seconds.
pub proof fn law_fields_follow_named_options(cli: Cli, v: Seq<FoundModel>, i: int)
    requires
        cli_from_found(cli, v),
        0 <= i < cli_options().len(),
    ensures
        ({
            let o = cli_options()[i];
            let set = found_switch(v[i]) == Some(true);
            &&& o.long@ == "filter"@ || o.short == Some('f') ==> cli.filter.deep_view() == found_text(v[i])
            &&& o.long@ == "case-sensitive"@ || o.short == Some('c') ==> cli.case_sensitive == set
            &&& o.long@ == "ignore-blank-lines"@ || o.short == Some('s') ==> cli.ignore_blank_lines == set
            &&& o.long@ == "no-colored-log-level"@ || o.short == Some('L') ==> cli.no_colored_log_level == set
            &&& o.long@ == "suppress-log-date"@ || o.short == Some('d') ==> cli.suppress_log_date == set
            &&& o.long@ == "no-watch"@ ==> cli.no_watch == set
            &&& o.long@ == "group-period"@ || o.short == Some('g') ==> cli.group_period_secs == (match found_integer(v[i]) {
                Some(p) => p,
                None => 30,
            })
        }),
{
    reveal_strlit("filter");
    reveal_strlit("case-sensitive");
    reveal_strlit("ignore-blank-lines");
    reveal_strlit("no-colored-log-level");
    reveal_strlit("suppress-log-date");
    reveal_strlit("group-period");
    reveal_strlit("no-watch");
    let o = cli_options();
    assert(o[0].long@.len() == 6 && o[1].long@.len() == 14 && o[2].long@.len() == 18);
    assert(o[3].long@.len() == 20 && o[4].long@.len() == 17 && o[5].long@.len() == 12);
    assert(o[6].long@.len() == 8);
}

/// The options of the program are ones that clap accepts.
pub proof fn lemma_cli_options_valid()
    ensures
        options_valid(options_view(cli_options())),
{
    reveal_strlit("filter");
    reveal_strlit("case_sensitive");
    reveal_strlit("case-sensitive");
    reveal_strlit("ignore_blank_lines");
    reveal_strlit("ignore-blank-lines");
    reveal_strlit("no_colored_log_level");
    reveal_strlit("no-colored-log-level");
    reveal_strlit("suppress_log_date");
    reveal_strlit("suppress-log-date");
    reveal_strlit("group_period_secs");
    reveal_strlit("group-period");
    reveal_strlit("no_watch");
    reveal_strlit("no-watch");
    reveal_strlit("help");
    reveal_strlit("version");
    let s = options_view(cli_options());
    let o = cli_options();
    assert(s.len() == 7);
    assert(s[0] == o[0]@ && s[1] == o[1]@ && s[2] == o[2]@ && s[3] == o[3]@);
    assert(s[4] == o[4]@ && s[5] == o[5]@ && s[6] == o[6]@);
    assert(s[0].id.len() == 6 && s[1].id.len() == 14 && s[2].id.len() == 18 && s[3].id.len() == 20);
    assert(s[4].id.len() == 17 && s[5].id.len() == 17 && s[6].id.len() == 8);
    assert(s[4].id[0] == 's' && s[5].id[0] == 'g');
    assert(s[0].long.len() == 6 && s[1].long.len() == 14 && s[2].long.len() == 18 && s[3].long.len() == 20);
    assert(s[4].long.len() == 17 && s[5].long.len() == 12 && s[6].long.len() == 8);
    assert forall|i: int| 0 <= i < s.len() implies option_valid(#[trigger] s[i]) by {
        assert(s[i].long[0] != '-');
    }
    assert forall|i: int, j: int|
        0 <= i < s.len() && 0 <= j < s.len() && i != j implies {
            &&& #[trigger] s[i].id != #[trigger] s[j].id
            &&& s[i].long != s[j].long
            &&& (s[i].short is Some ==> s[i].short != s[j].short)
        } by {
        if s[i].id.len() == s[j].id.len() {
            assert(s[i].id[0] != s[j].id[0]);
        }
    }
}

/// A filter text together with its lowercase form, kept for case-insensitive matching.
pub struct Filter {
    text: String,
    normalized: String,
}

impl Filter {
    #[verifier::type_invariant]
    spec fn normalized_is_lowercase(self) -> bool {
        self.normalized@ == lowercase(self.text@)
    }

    /// The text that a matching line must hold.
    pub closed spec fn text_spec(self) -> Seq<char> {
        self.text@
    }

    /// A filter for `text`.
    pub fn new(text: String) -> (f: Filter)
        ensures
            f.text_spec() == text@,
    {
        let normalized = to_lowercase(text.as_str());
        Filter { text, normalized }
    }
}

/// The abstract state of a [`Config`]: the filter text and the switches.
pub struct ConfigModel {
    pub filter: Option<Seq<char>>,
    pub case_sensitive: bool,
    pub ignore_blank_lines: bool,
    pub colored_log_level: bool,
    pub suppress_log_date: bool,
    pub watch_new_files: bool,
    pub group_period_secs: i64,
}

/// The runtime configuration: what is shown and how.
pub struct Config {
    pub filter: Option<Filter>,
    pub case_sensitive: bool,
    pub ignore_blank_lines: bool,
    pub colored_log_level: bool,
    pub suppress_log_date: bool,
    pub watch_new_files: bool,
    pub group_period_secs: i64,
}

/// Whether a line passes the filter `filter` under the given case sensitivity.
pub open spec fn filter_accepts(filter: Option<Seq<char>>, case_sensitive: bool, line: Seq<char>) -> bool {
    match filter {
        None => true,
        Some(text) => if case_sensitive {
            contains_seq(line, text)
        } else {
            contains_seq(lowercase(line), lowercase(text))
        },
    }
}

/// A case-sensitive filter `t` passes exactly the lines that hold `t` as a run of
/// characters, anywhere in them: every line `x + t + y` passes, whatever comes before and
/// after, and a line passes only if it splits so. Without case sensitivity the same is
/// asked of the lowercase line and the lowercase filter; without a filter every line passes.
pub proof fn law_filter_finds_text_anywhere(t: Seq<char>, x: Seq<char>, y: Seq<char>, line: Seq<char>)
    ensures
        filter_accepts(Some(t), true, x + t + y),
        filter_accepts(Some(t), true, line) ==> exists|a: Seq<char>, b: Seq<char>| #[trigger] (a + t + b) == line,
        filter_accepts(Some(t), false, line) == filter_accepts(Some(lowercase(t)), true, lowercase(line)),
        filter_accepts(None, true, line) && filter_accepts(None, false, line),
{
    let whole = x + t + y;
    assert(whole.subrange(x.len() as int, (x.len() + t.len()) as int) =~= t);
    if filter_accepts(Some(t), true, line) {
        let i = choose|i: int| 0 <= i <= line.len() - t.len() && #[trigger] line.subrange(i, i + t.len()) == t;
        let a = line.take(i);
        let b = line.skip(i + t.len());
        assert(a + t + b =~= line);
    }
}

impl View for Config {
    type V = ConfigModel;

    open spec fn view(&self) -> ConfigModel {
        ConfigModel {
            filter: self.filter_spec(),
            case_sensitive: self.case_sensitive,
            ignore_blank_lines: self.ignore_blank_lines,
            colored_log_level: self.colored_log_level,
            suppress_log_date: self.suppress_log_date,
            watch_new_files: self.watch_new_files,
            group_period_secs: self.group_period_secs,
        }
    }
}

impl Config {
    /// The current filter text, if any.
    pub open spec fn filter_spec(&self) -> Option<Seq<char>> {
        match self.filter {
            Some(f) => Some(f.text_spec()),
            None => None,
        }
    }

    /// Whether `line` passes the current filter.
    pub open spec fn accepts(&self, line: Seq<char>) -> bool {
        filter_accepts(self.filter_spec(), self.case_sensitive, line)
    }

    /// Replaces the filter; `None` removes it.
    pub fn set_filter(&mut self, text: Option<String>)
        ensures
            final(self).filter_spec() == text.deep_view(),
            final(self).case_sensitive == old(self).case_sensitive,
            final(self).ignore_blank_lines == old(self).ignore_blank_lines,
            final(self).colored_log_level == old(self).colored_log_level,
            final(self).suppress_log_date == old(self).suppress_log_date,
            final(self).watch_new_files == old(self).watch_new_files,
            final(self).group_period_secs == old(self).group_period_secs,
    {
        self.filter = match text {
            Some(t) => Some(Filter::new(t)),
            None => None,
        };
    }

    /// The current filter text, if any.
    pub fn filter_text(&self) -> (r: Option<&str>)
        ensures
            r.deep_view() == self.filter_spec(),
    {
        match &self.filter {
            Some(f) => Some(f.text.as_str()),
            None => None,
        }
    }

    /// Whether `line` passes the filter: always without one; otherwise whether the line
    /// holds the filter text, compared in lowercase unless matching is case-sensitive.
    pub fn line_matches(&self, line: &str) -> (r: bool)
        ensures
            r == self.accepts(line@),
    {
        match &self.filter {
            None => true,
            Some(f) => {
                proof {
                    use_type_invariant(f);
                }
                if self.case_sensitive {
                    str_contains(line, f.text.as_str())
                } else {
                    let lower = to_lowercase(line);
                    str_contains(lower.as_str(), f.normalized.as_str())
                }
            },
        }
    }

    /// The configuration that the command-line options ask for.
    pub fn from(cli: Cli) -> (c: Config)
        ensures
            c.filter_spec() == cli.filter.deep_view(),
            c.case_sensitive == cli.case_sensitive,
            c.ignore_blank_lines == cli.ignore_blank_lines,
            c.colored_log_level == !cli.no_colored_log_level,
            c.suppress_log_date == cli.suppress_log_date,
            c.watch_new_files == !cli.no_watch,
            c.group_period_secs == cli.group_period_secs,
    {
        let mut config = Config {
            filter: None,
            case_sensitive: cli.case_sensitive,
            ignore_blank_lines: cli.ignore_blank_lines,
            colored_log_level: !cli.no_colored_log_level,
            suppress_log_date: cli.suppress_log_date,
            watch_new_files: !cli.no_watch,
            group_period_secs: cli.group_period_secs,
        };
        config.set_filter(cli.filter);
        config
    }
}

} // verus!
