//! VRChat log files, named by the time they were started, and the choice of the current group.

use crate::text::{chars_of, matches_at, push_char};
use crate::timestamp::days_in_month;
use chrono::{DateTime, NaiveDateTime, TimeDelta, Timelike};
use vstd::prelude::*;

verus! {

broadcast use vstd::seq_lib::group_seq_properties;

/// Seconds from 1970-01-01T00:00:00 to chrono's earliest date and time (`NaiveDateTime::MIN`).
pub const DATETIME_MIN_SECS: i64 = -8334601228800;

/// Seconds from 1970-01-01T00:00:00 to the last whole second of chrono's latest date and
/// time (`NaiveDateTime::MAX`).
pub const DATETIME_MAX_SECS: i64 = 8210266876799;

/// The largest number of seconds that a chrono `TimeDelta` holds (`i64::MAX` milliseconds).
pub const TIME_DELTA_MAX_SECS: i64 = 9223372036854775;

/// The name of every log file starts with this.
pub const LOG_NAME_PREFIX: &'static str = "output_log_";

/// The name of every log file ends with this.
pub const LOG_NAME_SUFFIX: &'static str = ".txt";

/// The chrono format of the time in a log file's name.
pub const LOG_NAME_TIME_FORMAT: &'static str = "%Y-%m-%d_%H-%M-%S";

/// A whole second that chrono's date and time type can hold.
pub open spec fn in_datetime_range(t: int) -> bool {
    DATETIME_MIN_SECS <= t <= DATETIME_MAX_SECS
}

/// The value of the decimal digits `v[start..start + len]`.
pub open spec fn digits_value(v: Seq<char>, start: int, len: nat) -> int
    decreases len,
{
    if len == 0 {
        0
    } else {
        digits_value(v, start, (len - 1) as nat) * 10 + (v[start + len - 1] as int - '0' as int)
    }
}

/// The number of leap years among the years 0 to `year - 1`, for a year from 0 on.
pub open spec fn leap_years_before(year: int) -> int {
    (year + 3) / 4 - (year + 99) / 100 + (year + 399) / 400
}

/// The days of `year` before the first day of `month`.
pub open spec fn days_before_month(year: int, month: int) -> int
    decreases month,
{
    if month <= 1 {
        0
    } else {
        days_before_month(year, month - 1) + days_in_month(year, month - 1)
    }
}

/// The days from 1970-01-01 to a date of a year from 0 on, in the proleptic Gregorian
/// calendar.
pub open spec fn days_from_epoch(year: int, month: int, day: int) -> int {
    365 * (year - 1970) + leap_years_before(year) - leap_years_before(1970)
        + days_before_month(year, month) + day - 1
}

/// The start time, in seconds from 1970-01-01T00:00:00 and nanoseconds, that a time of the
/// shape `YYYY-MM-DD_hh-mm-ss` names: `None` for a day that does not exist, an hour from 24,
/// a minute from 60 or a second from 61; a second 60 is a leap second, held as `:59` and a
/// billion nanoseconds.
pub open spec fn stamp_time(v: Seq<char>) -> Option<(i64, u32)> {
    let year = digits_value(v, 0, 4);
    let month = digits_value(v, 5, 2);
    let day = digits_value(v, 8, 2);
    let hour = digits_value(v, 11, 2);
    let minute = digits_value(v, 14, 2);
    let second = digits_value(v, 17, 2);
    if 1 <= month <= 12 && 1 <= day <= days_in_month(year, month) && hour < 24 && minute < 60
        && second <= 60 {
        let whole = if second == 60 { 59 } else { second };
        let secs = days_from_epoch(year, month, day) * 86400 + hour * 3600 + minute * 60 + whole;
        Some((secs as i64, if second == 60 { 1_000_000_000u32 } else { 0u32 }))
    } else {
        None
    }
}

/// A start time that chrono can hold, as seconds from 1970-01-01T00:00:00 and nanoseconds
/// into that second: no fraction, or a whole leap second (`:60`, which chrono holds as a
/// second `:59` with a billion nanoseconds).
pub open spec fn valid_start(secs: int, nanos: int) -> bool {
    &&& in_datetime_range(secs)
    &&& (nanos == 0 || (nanos == 1_000_000_000 && secs % 60 == 59))
}

/// Where a start time lies in chrono's order of times, counted in half seconds: twice the
/// second, one more within a leap second, which comes after its `:59` and before the next
/// second.
pub open spec fn instant(secs: int, nanos: int) -> int {
    2 * secs + if nanos >= 1_000_000_000 { 1int } else { 0int }
}

/// What chrono's `NaiveDateTime::parse_from_str(value, fmt)` gives, as seconds from
/// 1970-01-01T00:00:00 and nanoseconds into the second; `None` when chrono refuses the text
/// (a date that does not exist, such as February 29 of a common year, among other things).
pub uninterp spec fn chrono_parse_time(value: Seq<char>, fmt: Seq<char>) -> Option<(i64, u32)>;

/// Calls chrono's `NaiveDateTime::parse_from_str` and gives the parsed date and time as
/// seconds from 1970-01-01T00:00:00 (`and_utc().timestamp()`) and nanoseconds
/// (`nanosecond()`). Claims that the result is chrono's answer for these two arguments; that
/// a parsed time lies in chrono's range, with a leap second only at a `:59`; and that with
/// [`LOG_NAME_TIME_FORMAT`] on text of the shape `YYYY-MM-DD_hh-mm-ss` the answer is
/// [`stamp_time`]: chrono reads each number from its digits (`%Y` four of them unsigned,
/// the others two), refuses a month outside 1 to 12, a day the month lacks, an hour from 24,
/// a minute from 60 and a second from 61, and holds a second 60 as `:59` with a billion
/// nanoseconds (`Parsed::set_*`, `to_naive_time`, `NaiveDate::from_ymd_opt`).
#[verifier::external_body]
fn parse_datetime(value: &str, fmt: &str) -> (r: Option<(i64, u32)>)
    ensures
        r == chrono_parse_time(value@, fmt@),
        r matches Some((t, n)) ==> in_datetime_range(t as int) && n < 2_000_000_000
            && (n >= 1_000_000_000 ==> t % 60 == 59),
        fmt@ == LOG_NAME_TIME_FORMAT@ && stamp_shaped(value@) ==> r == stamp_time(value@),
{
    NaiveDateTime::parse_from_str(value, fmt).ok().map(|t| (t.and_utc().timestamp(), t.nanosecond()))
}

/// What chrono's `checked_sub_signed` gives for a start time less `secs` seconds: leaving a
/// leap second backwards starts from the next second, forwards from its `:59`; zero seconds
/// keep it. `None` when the result lies outside chrono's range.
pub open spec fn sub_seconds(t: int, nanos: int, secs: int) -> Option<(i64, u32)> {
    if nanos >= 1_000_000_000 && secs == 0 {
        Some((t as i64, nanos as u32))
    } else {
        let from = if nanos >= 1_000_000_000 && secs > 0 { t + 1 } else { t };
        if in_datetime_range(from - secs) {
            Some(((from - secs) as i64, 0u32))
        } else {
            None
        }
    }
}

/// Calls chrono's `NaiveDateTime::checked_sub_signed` with `TimeDelta::seconds(secs)` on the
/// date and time `t` seconds and `nanos` nanoseconds after 1970-01-01T00:00:00 (built by
/// `DateTime::from_timestamp`), and gives the result again in seconds and nanoseconds.
/// Claims what chrono's source does (see [`sub_seconds`]). `TimeDelta::seconds` panics
/// beyond `TIME_DELTA_MAX_SECS`, and `t` and `nanos` must be a time that chrono can hold.
#[verifier::external_body]
fn checked_sub_seconds(t: i64, nanos: u32, secs: i64) -> (r: Option<(i64, u32)>)
    requires
        valid_start(t as int, nanos as int),
        -TIME_DELTA_MAX_SECS <= secs <= TIME_DELTA_MAX_SECS,
    ensures
        r == sub_seconds(t as int, nanos as int, secs as int),
{
    let start = DateTime::from_timestamp(t, nanos).unwrap().naive_utc();
    start.checked_sub_signed(TimeDelta::seconds(secs)).map(|d| (d.and_utc().timestamp(), d.nanosecond()))
}

/// `instant(secs, nanos)` for a start time.
fn instant_of(secs: i64, nanos: u32) -> (r: i64)
    requires
        valid_start(secs as int, nanos as int),
    ensures
        r == instant(secs as int, nanos as int),
{
    if nanos >= 1_000_000_000 {
        2 * secs + 1
    } else {
        2 * secs
    }
}

/// The abstract value of a [`LogEntry`]: its path, and where its start lies in chrono's
/// order of times ([`instant`]).
pub struct EntryModel {
    pub path: Seq<char>,
    pub time: int,
}

/// A log file and the time its name says it was started.
pub struct LogEntry {
    path: String,
    time: i64,
    nanos: u32,
}

impl View for LogEntry {
    type V = EntryModel;

    closed spec fn view(&self) -> EntryModel {
        EntryModel { path: self.path@, time: instant(self.time as int, self.nanos as int) }
    }
}

impl Clone for LogEntry {
    /// The same file and start time.
    fn clone(&self) -> (r: LogEntry)
        ensures
            r@ == self@,
    {
        proof {
            use_type_invariant(self);
        }
        LogEntry { path: self.path.clone(), time: self.time, nanos: self.nanos }
    }
}

impl LogEntry {
    #[verifier::type_invariant]
    spec fn time_in_range(self) -> bool {
        valid_start(self.time as int, self.nanos as int)
    }

    /// The file's path.
    pub fn path(&self) -> (p: &str)
        ensures
            p@ == self@.path,
    {
        self.path.as_str()
    }

    /// The start time, in seconds from 1970-01-01T00:00:00 (for a leap second, its `:59`).
    pub fn time(&self) -> (t: i64)
        ensures
            t == self@.time / 2,
            in_datetime_range(t as int),
    {
        proof {
            use_type_invariant(self);
        }
        self.time
    }

    /// The nanoseconds into the start second: a billion for a leap second, else none.
    pub fn nanos(&self) -> (n: u32)
        ensures
            n == (if self@.time % 2 == 1 { 1_000_000_000u32 } else { 0u32 }),
            valid_start(self@.time / 2, n as int),
    {
        proof {
            use_type_invariant(self);
        }
        self.nanos
    }

    /// Where the start lies in chrono's order of times ([`instant`]).
    pub fn instant(&self) -> (k: i64)
        ensures
            k == self@.time,
    {
        proof {
            use_type_invariant(self);
        }
        instant_of(self.time, self.nanos)
    }

    /// An entry for `path` started at `time` seconds and `nanos` nanoseconds, a time that
    /// chrono can hold.
    pub fn new(path: String, time: i64, nanos: u32) -> (e: LogEntry)
        requires
            valid_start(time as int, nanos as int),
        ensures
            e@ == (EntryModel { path: path@, time: instant(time as int, nanos as int) }),
    {
        LogEntry { path, time, nanos }
    }
}

/// The shape of the time in a log file's name, `0000-00-00_00-00-00` with any digits.
pub open spec fn stamp_shaped(v: Seq<char>) -> bool {
    &&& v.len() == 19
    &&& forall|i: int|
        0 <= i < 19 ==> if i == 4 || i == 7 || i == 13 || i == 16 {
            #[trigger] v[i] == '-'
        } else if i == 10 {
            v[i] == '_'
        } else {
            '0' <= v[i] && v[i] <= '9'
        }
}

/// The time part of a log file's name, `output_log_<time>.txt`, when the name has that form
/// and the time part has the right shape.
pub open spec fn log_name_stamp(name: Seq<char>) -> Option<Seq<char>> {
    if name.len() == 34 && name.take(11) == LOG_NAME_PREFIX@ && name.skip(30) == LOG_NAME_SUFFIX@
        && stamp_shaped(name.subrange(11, 30)) {
        Some(name.subrange(11, 30))
    } else {
        None
    }
}

/// The start time that a log file's name gives, in seconds and nanoseconds, if it is the
/// name of a log file.
pub open spec fn log_name_time(name: Seq<char>) -> Option<(i64, u32)> {
    match log_name_stamp(name) {
        None => None,
        Some(v) => stamp_time(v),
    }
}

/// Whether `chars[11..30]` has the shape of a log file's time.
fn stamp_shape_at(chars: &Vec<char>) -> (r: bool)
    requires
        chars.len() == 34,
    ensures
        r == stamp_shaped(chars@.subrange(11, 30)),
{
    let ghost v = chars@.subrange(11, 30);
    let mut i: usize = 0;
    while i < 19
        invariant
            i <= 19,
            chars.len() == 34,
            v == chars@.subrange(11, 30),
            forall|k: int|
                0 <= k < i ==> if k == 4 || k == 7 || k == 13 || k == 16 {
                    #[trigger] v[k] == '-'
                } else if k == 10 {
                    v[k] == '_'
                } else {
                    '0' <= v[k] && v[k] <= '9'
                },
        decreases 19 - i,
    {
        let c = chars[11 + i];
        assert(c == v[i as int]);
        let ok = if i == 4 || i == 7 || i == 13 || i == 16 {
            c == '-'
        } else if i == 10 {
            c == '_'
        } else {
            '0' <= c && c <= '9'
        };
        if !ok {
            return false;
        }
        i = i + 1;
    }
    true
}

/// Whether `chars[at..at + word.len()]` spells `word`.
fn spells_at(chars: &Vec<char>, at: usize, word: &str) -> (r: bool)
    requires
        at <= chars.len(),
    ensures
        r == (at + word@.len() <= chars.len() && chars@.subrange(at as int, at + word@.len()) == word@),
{
    let w = chars_of(word);
    if chars.len() - at < w.len() {
        return false;
    }
    matches_at(chars, &w, at)
}

/// The time part of the name, when it is the name of a log file.
fn log_name_time_text(name: &str) -> (r: Option<String>)
    ensures
        r.deep_view() == log_name_stamp(name@),
{
    let chars = chars_of(name);
    if chars.len() != 34 {
        return None;
    }
    proof {
        reveal_strlit("output_log_");
        reveal_strlit(".txt");
    }
    assert(LOG_NAME_PREFIX@.len() == 11);
    assert(LOG_NAME_SUFFIX@.len() == 4);
    let prefix_ok = spells_at(&chars, 0, LOG_NAME_PREFIX);
    let suffix_ok = spells_at(&chars, 30, LOG_NAME_SUFFIX);
    assert(chars@.take(11) == chars@.subrange(0, 11));
    assert(chars@.skip(30) == chars@.subrange(30, 34));
    if !prefix_ok || !suffix_ok || !stamp_shape_at(&chars) {
        return None;
    }
    let mut v = String::new();
    let mut i: usize = 11;
    while i < 30
        invariant
            11 <= i <= 30,
            chars.len() == 34,
            v@ == chars@.subrange(11, i as int),
        decreases 30 - i,
    {
        push_char(&mut v, chars[i]);
        assert(chars@.subrange(11, i + 1) == chars@.subrange(11, i as int).push(chars@[i as int]));
        i = i + 1;
    }
    Some(v)
}

/// The log entry that a file name gives: `output_log_<time>.txt` with the time in the shape
/// `YYYY-MM-DD_hh-mm-ss` and a date and time that chrono accepts; `None` for any other name.
pub fn parse_log_name(name: &str, path: String) -> (r: Option<LogEntry>)
    ensures
        match log_name_time(name@) {
            None => r is None,
            Some((t, n)) => r is Some && r->0@ == (EntryModel { path: path@, time: instant(t as int, n as int) }),
        },
{
    match log_name_time_text(name) {
        None => None,
        Some(v) => match parse_datetime(v.as_str(), LOG_NAME_TIME_FORMAT) {
            None => None,
            Some((t, n)) => Some(LogEntry::new(path, t, n)),
        },
    }
}

/// The abstract values of a sequence of entries.
pub open spec fn entries_view(s: Seq<LogEntry>) -> Seq<EntryModel> {
    s.map_values(|e: LogEntry| e@)
}

/// Holds of the entries started at second `t`.
pub open spec fn time_is(t: int) -> spec_fn(EntryModel) -> bool {
    |e: EntryModel| e.time == t
}

/// The entries of `s` started at second `t`, in their order in `s`.
pub open spec fn with_time(s: Seq<EntryModel>, t: int) -> Seq<EntryModel> {
    s.filter(time_is(t))
}

/// No entry starts before an entry that comes earlier.
pub open spec fn sorted_by_time(s: Seq<EntryModel>) -> bool {
    forall|i: int, j: int| 0 <= i <= j < s.len() ==> s[i].time <= s[j].time
}

/// The latest start time among the entries of a nonempty `s`.
pub open spec fn newest_time(s: Seq<EntryModel>) -> int
    decreases s.len(),
{
    if s.len() <= 1 {
        s[0].time
    } else if newest_time(s.drop_last()) >= s.last().time {
        newest_time(s.drop_last())
    } else {
        s.last().time
    }
}

/// The earliest start of the group, `period` seconds before the newest as chrono subtracts
/// them ([`sub_seconds`]); `None` when that falls outside chrono's range, in which case every
/// entry belongs to the group.
pub open spec fn group_cutoff(newest: int, period: int) -> Option<int> {
    match sub_seconds(newest / 2, if newest % 2 == 1 { 1_000_000_000int } else { 0int }, period) {
        Some((t, n)) => Some(instant(t as int, n as int)),
        None => None,
    }
}

/// Whether an entry started at second `t` belongs to the group with this cutoff.
pub open spec fn in_group(t: int, cutoff: Option<int>) -> bool {
    match cutoff {
        None => true,
        Some(c) => t >= c,
    }
}

/// `r` is the latest group of `s`: the entries of `s` that started no more than `period`
/// seconds before the newest one ([`group_cutoff`]), ordered by start time, entries that
/// started at the same time keeping their order in `s`.
pub open spec fn is_latest_group(r: Seq<EntryModel>, s: Seq<EntryModel>, period: int) -> bool {
    &&& sorted_by_time(r)
    &&& forall|t: int| #[trigger]
        with_time(r, t) == if s.len() > 0 && in_group(t, group_cutoff(newest_time(s), period)) {
            with_time(s, t)
        } else {
            Seq::empty()
        }
}

/// `s` with `e` placed after the last entry that did not start later than `e`.
spec fn insert_by_time(s: Seq<EntryModel>, e: EntryModel) -> Seq<EntryModel>
    decreases s.len(),
{
    if s.len() == 0 || s.last().time <= e.time {
        s.push(e)
    } else {
        insert_by_time(s.drop_last(), e).push(s.last())
    }
}

/// `s` sorted by start time by inserting its entries one after another.
spec fn sort_by_time(s: Seq<EntryModel>) -> Seq<EntryModel>
    decreases s.len(),
{
    if s.len() == 0 {
        s
    } else {
        insert_by_time(sort_by_time(s.drop_last()), s.last())
    }
}

proof fn lemma_insert_at(s: Seq<EntryModel>, e: EntryModel, j: int)
    requires
        0 <= j <= s.len(),
        j == 0 || s[j - 1].time <= e.time,
        forall|k: int| j <= k < s.len() ==> s[k].time > e.time,
    ensures
        insert_by_time(s, e) == s.insert(j, e),
    decreases s.len() - j,
{
    if j == s.len() {
        assert(s.insert(j, e) =~= s.push(e));
    } else {
        lemma_insert_at(s.drop_last(), e, j);
        assert(s.insert(j, e) =~= s.drop_last().insert(j, e).push(s.last()));
    }
}

proof fn lemma_insert_bounded(s: Seq<EntryModel>, e: EntryModel, m: int)
    requires
        forall|k: int| 0 <= k < s.len() ==> s[k].time <= m,
        e.time <= m,
    ensures
        insert_by_time(s, e).len() == s.len() + 1,
        forall|k: int| 0 <= k < insert_by_time(s, e).len() ==> #[trigger] insert_by_time(s, e)[k].time <= m,
    decreases s.len(),
{
    if s.len() > 0 && s.last().time > e.time {
        lemma_insert_bounded(s.drop_last(), e, m);
    }
}

proof fn lemma_insert_sorted(s: Seq<EntryModel>, e: EntryModel)
    requires
        sorted_by_time(s),
    ensures
        sorted_by_time(insert_by_time(s, e)),
    decreases s.len(),
{
    if s.len() > 0 && s.last().time > e.time {
        let l = s.last();
        lemma_insert_sorted(s.drop_last(), e);
        lemma_insert_bounded(s.drop_last(), e, l.time);
    }
}

proof fn lemma_insert_with_time(s: Seq<EntryModel>, e: EntryModel, t: int)
    ensures
        with_time(insert_by_time(s, e), t) == with_time(s.push(e), t),
    decreases s.len(),
{
    if s.len() > 0 && s.last().time > e.time {
        let l = s.last();
        let d = s.drop_last();
        lemma_insert_with_time(d, e, t);
        d.lemma_filter_push(e, time_is(t));
        insert_by_time(d, e).lemma_filter_push(l, time_is(t));
        d.lemma_filter_push(l, time_is(t));
        s.lemma_filter_push(e, time_is(t));
        assert(d.push(l) =~= s);
    }
}

proof fn lemma_sort(s: Seq<EntryModel>)
    ensures
        sorted_by_time(sort_by_time(s)),
        forall|t: int| #[trigger] with_time(sort_by_time(s), t) == with_time(s, t),
    decreases s.len(),
{
    if s.len() > 0 {
        let d = s.drop_last();
        lemma_sort(d);
        lemma_insert_sorted(sort_by_time(d), s.last());
        assert forall|t: int| #[trigger] with_time(sort_by_time(s), t) == with_time(s, t) by {
            assert(d.push(s.last()) =~= s);
            assert(sort_by_time(s) == insert_by_time(sort_by_time(d), s.last()));
            lemma_insert_with_time(sort_by_time(d), s.last(), t);
            sort_by_time(d).lemma_filter_push(s.last(), time_is(t));
            d.lemma_filter_push(s.last(), time_is(t));
            assert(with_time(sort_by_time(d), t) == with_time(d, t));
        }
    }
}

/// Inserts `e` after the last entry of `v` that did not start later.
fn insert_entry(v: &mut Vec<LogEntry>, e: LogEntry)
    ensures
        entries_view(final(v)@) == insert_by_time(entries_view(old(v)@), e@),
{
    let t = e.instant();
    let mut j = v.len();
    while j > 0 && v[j - 1].instant() > t
        invariant
            j <= v.len(),
            forall|k: int| j <= k < v.len() ==> #[trigger] v@[k]@.time > t,
        decreases j,
    {
        j = j - 1;
    }
    proof {
        lemma_insert_at(entries_view(v@), e@, j as int);
    }
    let ghost before = v@;
    v.insert(j, e);
    assert(entries_view(v@) =~= entries_view(before).insert(j as int, e@));
}

/// The entries ordered by start time; entries that started at the same time keep their
/// order.
fn sort_entries(entries: Vec<LogEntry>) -> (r: Vec<LogEntry>)
    ensures
        entries_view(r@) == sort_by_time(entries_view(entries@)),
{
    let ghost all = entries_view(entries@);
    let mut rest = entries;
    let mut sorted: Vec<LogEntry> = Vec::new();
    let ghost mut done: int = 0;
    while rest.len() > 0
        invariant
            0 <= done <= all.len(),
            entries_view(rest@) == all.skip(done),
            entries_view(sorted@) == sort_by_time(all.take(done)),
        decreases rest.len(),
    {
        let ghost before = rest@;
        let e = rest.remove(0);
        assert(entries_view(rest@) =~= all.skip(done + 1)) by {
            assert(entries_view(before).drop_first() =~= entries_view(rest@));
        }
        assert(all.take(done + 1).drop_last() =~= all.take(done));
        assert(e@ == all[done]);
        insert_entry(&mut sorted, e);
        proof {
            done = done + 1;
        }
    }
    assert(all.take(done) =~= all);
    sorted
}

/// Holds of the entries that belong to the group with this cutoff.
pub open spec fn group_member(cutoff: Option<int>) -> spec_fn(EntryModel) -> bool {
    |e: EntryModel| in_group(e.time, cutoff)
}

proof fn lemma_newest_bounds(s: Seq<EntryModel>)
    requires
        s.len() > 0,
    ensures
        forall|i: int| 0 <= i < s.len() ==> #[trigger] s[i].time <= newest_time(s),
        exists|i: int| 0 <= i < s.len() && #[trigger] s[i].time == newest_time(s),
    decreases s.len(),
{
    if s.len() > 1 {
        let d = s.drop_last();
        lemma_newest_bounds(d);
        let w = choose|i: int| 0 <= i < d.len() && #[trigger] d[i].time == newest_time(d);
        assert forall|i: int| 0 <= i < s.len() implies #[trigger] s[i].time <= newest_time(s) by {
            if i < d.len() {
                assert(s[i] == d[i]);
            }
        }
        if newest_time(d) >= s.last().time {
            assert(s[w].time == newest_time(s));
        } else {
            assert(s[s.len() - 1].time == newest_time(s));
        }
    } else {
        assert(s[0].time == newest_time(s));
    }
}

/// Some entry of `s` started at second `t` exactly when the entries of `s` started at `t`
/// are not none.
proof fn lemma_with_time_nonempty(s: Seq<EntryModel>, t: int)
    ensures
        with_time(s, t).len() > 0 <==> exists|i: int| 0 <= i < s.len() && #[trigger] s[i].time == t,
{
    if exists|i: int| 0 <= i < s.len() && #[trigger] s[i].time == t {
        let i = choose|i: int| 0 <= i < s.len() && #[trigger] s[i].time == t;
        s.lemma_filter_contains(time_is(t), i);
    }
    if with_time(s, t).len() > 0 {
        let x = with_time(s, t)[0];
        s.lemma_filter_pred(time_is(t), 0);
        assert(with_time(s, t).contains(x));
        s.lemma_filter_contains_rev(time_is(t), x);
        let i = choose|i: int| 0 <= i < s.len() && s[i] == x;
        assert(s[i].time == t);
    }
}

/// In a sorted sequence that holds, time by time, the same entries as `s`, the last
/// entry is one of the newest of `s`.
proof fn lemma_sorted_last_is_newest(r: Seq<EntryModel>, s: Seq<EntryModel>)
    requires
        s.len() > 0,
        sorted_by_time(r),
        forall|t: int| #[trigger] with_time(r, t) == with_time(s, t),
    ensures
        r.len() > 0,
        r.last().time == newest_time(s),
{
    lemma_newest_bounds(s);
    let n = newest_time(s);
    lemma_with_time_nonempty(s, n);
    lemma_with_time_nonempty(r, n);
    assert(with_time(r, n) == with_time(s, n));
    let i = choose|i: int| 0 <= i < r.len() && #[trigger] r[i].time == n;
    assert(r[i].time <= r[r.len() - 1].time);
    let l = r.last().time;
    lemma_with_time_nonempty(r, l);
    lemma_with_time_nonempty(s, l);
    assert(r[r.len() - 1].time == l);
    assert(with_time(r, l) == with_time(s, l));
    let j = choose|j: int| 0 <= j < s.len() && #[trigger] s[j].time == l;
    assert(s[j].time <= n);
}

proof fn lemma_filter_sorted(s: Seq<EntryModel>, p: spec_fn(EntryModel) -> bool)
    requires
        sorted_by_time(s),
    ensures
        sorted_by_time(s.filter(p)),
    decreases s.len(),
{
    if s.len() > 0 {
        let d = s.drop_last();
        assert(d.push(s.last()) =~= s);
        lemma_filter_sorted(d, p);
        d.lemma_filter_push(s.last(), p);
        assert forall|k: int| 0 <= k < d.filter(p).len() implies #[trigger] d.filter(p)[k].time <= s.last().time by {
            let x = d.filter(p)[k];
            assert(d.filter(p).contains(x));
            d.lemma_filter_contains_rev(p, x);
            let i = choose|i: int| 0 <= i < d.len() && d[i] == x;
            assert(s[i] == x);
        }
    }
}

proof fn lemma_with_time_of_group(s: Seq<EntryModel>, cutoff: Option<int>, t: int)
    ensures
        with_time(s.filter(group_member(cutoff)), t) == if in_group(t, cutoff) {
            with_time(s, t)
        } else {
            Seq::empty()
        },
    decreases s.len(),
{
    reveal_with_fuel(Seq::filter, 1);
    if s.len() > 0 {
        let d = s.drop_last();
        let l = s.last();
        assert(d.push(l) =~= s);
        lemma_with_time_of_group(d, cutoff, t);
        d.lemma_filter_push(l, group_member(cutoff));
        d.lemma_filter_push(l, time_is(t));
        d.filter(group_member(cutoff)).lemma_filter_push(l, time_is(t));
    }
}

/// The latest group of log files: the files started no more than `period` seconds before the
/// newest one, in the order they were started (files started at the same time keep their
/// order). When the start of that window lies before the earliest time that chrono can
/// hold, every file belongs to the group.
pub fn latest_group(entries: Vec<LogEntry>, period: i64) -> (r: Vec<LogEntry>)
    requires
        entries@.len() > 0 ==> -TIME_DELTA_MAX_SECS <= period <= TIME_DELTA_MAX_SECS,
    ensures
        is_latest_group(entries_view(r@), entries_view(entries@), period as int),
{
    let ghost all = entries_view(entries@);
    let sorted = sort_entries(entries);
    proof {
        lemma_sort(all);
    }
    let ghost ss = entries_view(sorted@);
    if sorted.len() == 0 {
        proof {
            assert forall|t: int| #[trigger] with_time(ss, t) == Seq::<EntryModel>::empty() by {
                reveal_with_fuel(Seq::filter, 1);
            }
        }
        return sorted;
    }
    let newest_secs = sorted[sorted.len() - 1].time();
    let newest_nanos = sorted[sorted.len() - 1].nanos();
    proof {
        lemma_sorted_last_is_newest(ss, all);
    }
    let cutoff: Option<i64> = match checked_sub_seconds(newest_secs, newest_nanos, period) {
        Some((t, n)) => Some(instant_of(t, n)),
        None => None,
    };
    let ghost gc: Option<int> = match cutoff {
        Some(c) => Some(c as int),
        None => None,
    };
    assert(gc == group_cutoff(newest_time(all), period as int));
    let mut rest = sorted;
    let mut group: Vec<LogEntry> = Vec::new();
    let ghost mut done: int = 0;
    while rest.len() > 0
        invariant
            0 <= done <= ss.len(),
            entries_view(rest@) == ss.skip(done),
            entries_view(group@) == ss.take(done).filter(group_member(gc)),
            gc == (match cutoff {
                Some(c) => Some(c as int),
                None => None::<int>,
            }),
        decreases rest.len(),
    {
        let ghost before = rest@;
        let e = rest.remove(0);
        assert(entries_view(rest@) =~= ss.skip(done + 1)) by {
            assert(entries_view(before).drop_first() =~= entries_view(rest@));
        }
        assert(e@ == ss[done]);
        assert(ss.take(done + 1) =~= ss.take(done).push(e@));
        proof {
            ss.take(done).lemma_filter_push(e@, group_member(gc));
        }
        let t = e.instant();
        let keep = match cutoff {
            Some(c) => t >= c,
            None => true,
        };
        if keep {
            group.push(e);
            assert(entries_view(group@) =~= ss.take(done).filter(group_member(gc)).push(e@));
        }
        proof {
            done = done + 1;
        }
    }
    proof {
        assert(ss.take(done) =~= ss);
        lemma_filter_sorted(ss, group_member(gc));
        assert forall|t: int| #[trigger]
            with_time(entries_view(group@), t) == (if all.len() > 0 && in_group(t, group_cutoff(newest_time(all), period as int)) {
                with_time(all, t)
            } else {
                Seq::empty()
            }) by {
            lemma_with_time_of_group(ss, gc, t);
        }
    }
    group
}

/// The log entries that the names of a directory listing give (pairs of a file name and its
/// path), in the listing's order.
pub fn log_entries(listing: &Vec<(String, String)>) -> (r: Vec<LogEntry>)
    ensures
        entries_view(r@) == listed_entries(listing@),
{
    let mut entries: Vec<LogEntry> = Vec::new();
    let mut i: usize = 0;
    while i < listing.len()
        invariant
            i <= listing@.len(),
            entries_view(entries@) == listed_entries(listing@.take(i as int)),
        decreases listing@.len() - i,
    {
        let name = &listing[i].0;
        let path = listing[i].1.clone();
        assert(listing@.take(i + 1).drop_last() =~= listing@.take(i as int));
        match parse_log_name(name.as_str(), path) {
            Some(e) => {
                entries.push(e);
                assert(entries_view(entries@) =~= listed_entries(listing@.take(i + 1)));
            },
            None => {
                assert(entries_view(entries@) =~= listed_entries(listing@.take(i + 1)));
            },
        }
        i = i + 1;
    }
    assert(listing@.take(i as int) =~= listing@);
    entries
}

/// The latest group among the files of a directory listing, given as pairs of a file name
/// and its path: the files whose names are log file names, grouped as [`latest_group`] says.
pub fn scan_group(listing: Vec<(String, String)>, period: i64) -> (r: Vec<LogEntry>)
    requires
        listed_entries(listing@).len() > 0 ==> -TIME_DELTA_MAX_SECS <= period <= TIME_DELTA_MAX_SECS,
    ensures
        is_latest_group(entries_view(r@), listed_entries(listing@), period as int),
{
    latest_group(log_entries(&listing), period)
}

/// [`scan_group`] where chrono can make the period into a `TimeDelta` or the listing names
/// no log file; `None` where a log file is listed and the period lies beyond
/// `TIME_DELTA_MAX_SECS` either way, which chrono refuses.
pub fn try_scan_group(listing: Vec<(String, String)>, period: i64) -> (r: Option<Vec<LogEntry>>)
    ensures
        r is None <==> listed_entries(listing@).len() > 0 && !(-TIME_DELTA_MAX_SECS <= period
            <= TIME_DELTA_MAX_SECS),
        r matches Some(g) ==> is_latest_group(entries_view(g@), listed_entries(listing@), period as int),
{
    let found = log_entries(&listing).len();
    if found > 0 && (period < -TIME_DELTA_MAX_SECS || period > TIME_DELTA_MAX_SECS) {
        None
    } else {
        Some(scan_group(listing, period))
    }
}

/// The log entries that the names of a directory listing give, in the listing's order.
pub open spec fn listed_entries(listing: Seq<(String, String)>) -> Seq<EntryModel>
    decreases listing.len(),
{
    if listing.len() == 0 {
        Seq::empty()
    } else {
        let (name, path) = listing.last();
        let before = listed_entries(listing.drop_last());
        match log_name_time(name@) {
            Some((t, n)) => before.push(EntryModel { path: path@, time: instant(t as int, n as int) }),
            None => before,
        }
    }
}

/// An order by start time that keeps, within each second, a given order is unique: two
/// sequences ordered by start time that hold, time by time, the same entries in the
/// same order are equal. So [`is_latest_group`] pins the group down completely.
pub proof fn law_time_order_is_unique(r1: Seq<EntryModel>, r2: Seq<EntryModel>)
    requires
        sorted_by_time(r1),
        sorted_by_time(r2),
        forall|t: int| #[trigger] with_time(r1, t) == with_time(r2, t),
    ensures
        r1 == r2,
    decreases r1.len() + r2.len(),
{
    if r1.len() == 0 || r2.len() == 0 {
        if r1.len() > 0 {
            lemma_with_time_nonempty(r1, r1[0].time);
            lemma_with_time_nonempty(r2, r1[0].time);
            assert(with_time(r1, r1[0].time) == with_time(r2, r1[0].time));
        }
        if r2.len() > 0 {
            lemma_with_time_nonempty(r2, r2[0].time);
            lemma_with_time_nonempty(r1, r2[0].time);
            assert(with_time(r1, r2[0].time) == with_time(r2, r2[0].time));
        }
        assert(r1 =~= r2);
    } else {
        let l1 = r1.last();
        let l2 = r2.last();
        lemma_with_time_nonempty(r1, l1.time);
        lemma_with_time_nonempty(r2, l1.time);
        lemma_with_time_nonempty(r1, l2.time);
        lemma_with_time_nonempty(r2, l2.time);
        assert(r1[r1.len() - 1] == l1);
        assert(r2[r2.len() - 1] == l2);
        assert(with_time(r1, l1.time) == with_time(r2, l1.time));
        assert(with_time(r1, l2.time) == with_time(r2, l2.time));
        let i = choose|i: int| 0 <= i < r2.len() && #[trigger] r2[i].time == l1.time;
        let j = choose|j: int| 0 <= j < r1.len() && #[trigger] r1[j].time == l2.time;
        assert(r2[i].time <= r2[r2.len() - 1].time);
        assert(r1[j].time <= r1[r1.len() - 1].time);
        let tt = l1.time;
        let d1 = r1.drop_last();
        let d2 = r2.drop_last();
        assert(d1.push(l1) =~= r1);
        assert(d2.push(l2) =~= r2);
        d1.lemma_filter_push(l1, time_is(tt));
        d2.lemma_filter_push(l2, time_is(tt));
        assert(with_time(r1, tt) == with_time(r2, tt));
        assert(with_time(d1, tt).push(l1) == with_time(d2, tt).push(l2));
        assert(with_time(d1, tt).push(l1).last() == l1);
        assert(l1 == l2);
        assert(with_time(d1, tt).push(l1).drop_last() =~= with_time(d1, tt));
        assert(with_time(d2, tt).push(l2).drop_last() =~= with_time(d2, tt));
        assert forall|t: int| #[trigger] with_time(d1, t) == with_time(d2, t) by {
            d1.lemma_filter_push(l1, time_is(t));
            d2.lemma_filter_push(l2, time_is(t));
            assert(with_time(r1, t) == with_time(r2, t));
        }
        law_time_order_is_unique(d1, d2);
    }
}

/// A sequence that holds no entry of any second is empty.
proof fn lemma_no_times_is_empty(r: Seq<EntryModel>)
    requires
        forall|t: int| #[trigger] with_time(r, t) == Seq::<EntryModel>::empty(),
    ensures
        r.len() == 0,
{
    if r.len() > 0 {
        lemma_with_time_nonempty(r, r[0].time);
        assert(with_time(r, r[0].time) == Seq::<EntryModel>::empty());
    }
}

/// Choosing the latest group again changes nothing: the group of a group is the group.
pub proof fn law_latest_group_idempotent(s: Seq<EntryModel>, r: Seq<EntryModel>, r2: Seq<EntryModel>, period: int)
    requires
        is_latest_group(r, s, period),
        is_latest_group(r2, r, period),
    ensures
        r2 == r,
{
    if r.len() == 0 {
        assert forall|t: int| #[trigger] with_time(r2, t) == Seq::<EntryModel>::empty() by {}
        lemma_no_times_is_empty(r2);
        assert(r2 =~= r);
    } else {
        if s.len() == 0 {
            assert forall|t: int| #[trigger] with_time(r, t) == Seq::<EntryModel>::empty() by {}
            lemma_no_times_is_empty(r);
        }
        let n = newest_time(s);
        let c = group_cutoff(n, period);
        lemma_newest_bounds(s);
        lemma_newest_bounds(r);
        let m = newest_time(r);
        // the newest entry of the group is an entry of `s` in the group
        lemma_with_time_nonempty(r, m);
        assert(with_time(r, m).len() > 0);
        assert(in_group(m, c));
        lemma_with_time_nonempty(s, m);
        assert(with_time(r, m) == with_time(s, m));
        let j = choose|j: int| 0 <= j < s.len() && #[trigger] s[j].time == m;
        assert(m <= n);
        // so the newest entry of `s` is in the group too
        assert(in_group(n, c));
        lemma_with_time_nonempty(s, n);
        lemma_with_time_nonempty(r, n);
        assert(with_time(r, n) == with_time(s, n));
        let i = choose|i: int| 0 <= i < r.len() && #[trigger] r[i].time == n;
        assert(n <= m);
        assert forall|t: int| #[trigger] with_time(r2, t) == with_time(r, t) by {
            assert(with_time(r2, t) == (if in_group(t, group_cutoff(m, period)) { with_time(r, t) } else { Seq::<EntryModel>::empty() }));
        }
        law_time_order_is_unique(r2, r);
    }
}

} // verus!
