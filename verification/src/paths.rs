//! Where VRChat keeps its logs, worked out from the local application-data directory.
//!
//! Paths follow the rules of `std::path` on Windows, where the program runs: `\` and `/`
//! both separate components (only `\` in a verbatim path), a path may start with a prefix
//! (`C:`, `\\server\share`, `\\.\device`, `\\?\…`), repeated separators and `.` components
//! are ignored outside verbatim paths, and file names are read from the back as
//! `Path::components` reads them.

use crate::text::{chars_of, string_from_chars};
use vstd::prelude::*;

verus! {

/// Why no log directory could be worked out.
#[derive(Debug, Clone, Copy, PartialEq, Eq, Structural)]
pub enum PathError {
    /// The local application-data path has no final name to put `Low` after.
    NoFileName,
}

/// The kinds of path prefix that Windows knows.
#[derive(Debug, Clone, Copy, PartialEq, Eq, Structural)]
pub enum PrefixKind {
    /// `\\?\prefix`
    Verbatim,
    /// `\\?\UNC\server\share`
    VerbatimUnc,
    /// `\\?\C:`
    VerbatimDisk,
    /// `\\.\device`
    DeviceNs,
    /// `\\server\share`
    Unc,
    /// `C:`
    Disk,
}

pub open spec fn is_ascii_alpha(c: char) -> bool {
    ('a' <= c && c <= 'z') || ('A' <= c && c <= 'Z')
}

/// A separator: `\`, and also `/` outside verbatim paths.
pub open spec fn is_sep_for(c: char, verbatim: bool) -> bool {
    c == '\\' || (!verbatim && c == '/')
}

/// The character at `i` as the prefix is recognized: `/` reads as `\` in the first eight.
pub open spec fn prefix_char(p: Seq<char>, i: int) -> char {
    if i < 8 && p[i] == '/' {
        '\\'
    } else {
        p[i]
    }
}

/// The first separator at or after `i`, or the end of `p`.
pub open spec fn first_sep_from(p: Seq<char>, i: int, verbatim: bool) -> int
    decreases p.len() - i,
{
    if i >= p.len() {
        p.len() as int
    } else if is_sep_for(p[i], verbatim) {
        i
    } else {
        first_sep_from(p, i + 1, verbatim)
    }
}

/// The end of `\\server\share` read from `start` (the server) on: the end of the share when
/// the share is not empty, else the end of the server.
pub open spec fn unc_end(p: Seq<char>, start: int, verbatim: bool) -> int {
    let e1 = first_sep_from(p, start, verbatim);
    let e2 = if e1 < p.len() {
        first_sep_from(p, e1 + 1, verbatim)
    } else {
        e1
    };
    if e2 > e1 + 1 {
        e2
    } else {
        e1
    }
}

/// The prefix of a path and its length.
pub open spec fn path_prefix(p: Seq<char>) -> Option<(PrefixKind, int)> {
    if p.len() >= 2 && prefix_char(p, 0) == '\\' && prefix_char(p, 1) == '\\' {
        if p.len() >= 4 && p[0] == '\\' && p[1] == '\\' && p[2] == '?' && p[3] == '\\' {
            if p.len() >= 8 && prefix_char(p, 4) == 'U' && prefix_char(p, 5) == 'N' && prefix_char(p, 6)
                == 'C' && prefix_char(p, 7) == '\\' {
                Some((PrefixKind::VerbatimUnc, unc_end(p, 8, true)))
            } else if p.len() >= 6 && is_ascii_alpha(p[4]) && p[5] == ':' && (p.len() == 6
                || is_sep_for(p[6], false)) {
                Some((PrefixKind::VerbatimDisk, 6))
            } else {
                Some((PrefixKind::Verbatim, first_sep_from(p, 4, true)))
            }
        } else if p.len() >= 4 && prefix_char(p, 2) == '.' && prefix_char(p, 3) == '\\' {
            Some((PrefixKind::DeviceNs, first_sep_from(p, 4, false)))
        } else {
            let e1 = first_sep_from(p, 2, false);
            let end = unc_end(p, 2, false);
            if e1 > 2 && end > e1 {
                Some((PrefixKind::Unc, end))
            } else {
                None
            }
        }
    } else if p.len() >= 2 && is_ascii_alpha(p[0]) && p[1] == ':' {
        Some((PrefixKind::Disk, 2))
    } else {
        None
    }
}

/// Whether the path is verbatim (`\\?\…`).
pub open spec fn is_verbatim(p: Seq<char>) -> bool {
    match path_prefix(p) {
        Some((k, _)) => k == PrefixKind::Verbatim || k == PrefixKind::VerbatimUnc || k
            == PrefixKind::VerbatimDisk,
        None => false,
    }
}

/// The length of the prefix, 0 without one.
pub open spec fn prefix_len(p: Seq<char>) -> int {
    match path_prefix(p) {
        Some((_, n)) => n,
        None => 0,
    }
}

/// A separator right after the prefix: the path has a root.
pub open spec fn has_root(p: Seq<char>) -> bool {
    prefix_len(p) < p.len() && is_sep_for(p[prefix_len(p)], is_verbatim(p))
}

/// A `.` component right after the prefix of a path without root.
pub open spec fn has_cur_dir(p: Seq<char>) -> bool {
    let n = prefix_len(p);
    !has_root(p) && n < p.len() && p[n] == '.' && (n + 1 == p.len() || is_sep_for(
        p[n + 1],
        is_verbatim(p),
    ))
}

/// Where the components after prefix, root and leading `.` start.
pub open spec fn body_start(p: Seq<char>) -> int {
    prefix_len(p) + (if has_root(p) {
        1int
    } else {
        0
    }) + (if has_cur_dir(p) {
        1int
    } else {
        0
    })
}

/// The last separator in `p[lo..end]`, or `lo - 1` when there is none.
pub open spec fn last_sep_before(p: Seq<char>, lo: int, end: int, verbatim: bool) -> int
    decreases end - lo,
{
    if end <= lo {
        lo - 1
    } else if is_sep_for(p[end - 1], verbatim) {
        end - 1
    } else {
        last_sep_before(p, lo, end - 1, verbatim)
    }
}

/// The last component of `p[..end]`, read from the back, and where what is before it ends.
pub open spec fn back_component(p: Seq<char>, end: int) -> (int, Seq<char>) {
    let lo = body_start(p);
    let i = last_sep_before(p, lo, end, is_verbatim(p));
    if i < lo {
        (lo, p.subrange(lo, end))
    } else {
        (i, p.subrange(i + 1, end))
    }
}

/// A component that `Path::components` skips: empty, or `.` outside verbatim paths.
pub open spec fn is_skipped(c: Seq<char>, verbatim: bool) -> bool {
    c.len() == 0 || (!verbatim && c == "."@)
}

/// The last component of `p[..end]` that is not skipped, with where what is before it ends.
pub open spec fn last_component(p: Seq<char>, end: int) -> Option<(int, Seq<char>)>
    decreases end,
{
    if end <= body_start(p) || end > p.len() {
        None
    } else {
        let (e2, c) = back_component(p, end);
        if e2 >= end || e2 < 0 {
            None
        } else if is_skipped(c, is_verbatim(p)) {
            last_component(p, e2)
        } else {
            Some((e2, c))
        }
    }
}

/// `p[..end]` without trailing separators and skipped components.
pub open spec fn trim_back(p: Seq<char>, end: int) -> int
    decreases end,
{
    if end <= body_start(p) || end > p.len() {
        end
    } else {
        let (e2, c) = back_component(p, end);
        if 0 <= e2 < end && is_skipped(c, is_verbatim(p)) {
            trim_back(p, e2)
        } else {
            end
        }
    }
}

/// The file name of a path, as `Path::file_name` gives it: its last component, when that is
/// a name and not `.` or `..`.
pub open spec fn file_name(p: Seq<char>) -> Option<Seq<char>> {
    match last_component(p, p.len() as int) {
        Some((_, c)) => if c == "."@ || c == ".."@ {
            None
        } else {
            Some(c)
        },
        None => None,
    }
}

/// The path without its file name, as `PathBuf::pop` leaves it.
pub open spec fn parent_text(p: Seq<char>) -> Seq<char> {
    match last_component(p, p.len() as int) {
        Some((e2, _)) => p.take(trim_back(p, e2)),
        None => p,
    }
}

/// The components of `p[..end]` after the prefix, root and leading `.`, skipped ones left out.
pub open spec fn body_components(p: Seq<char>, end: int) -> Seq<Seq<char>>
    decreases end,
{
    if end <= body_start(p) || end > p.len() {
        Seq::empty()
    } else {
        let (e2, c) = back_component(p, end);
        if e2 >= end || e2 < 0 {
            Seq::empty()
        } else if is_skipped(c, is_verbatim(p)) {
            body_components(p, e2)
        } else {
            body_components(p, e2).push(c)
        }
    }
}

/// Components joined by `\`, with one before the first when `lead` holds.
pub open spec fn join_components(cs: Seq<Seq<char>>, lead: bool) -> Seq<char>
    decreases cs.len(),
{
    if cs.len() == 0 {
        Seq::empty()
    } else {
        join_components(cs.drop_last(), lead) + (if cs.len() > 1 || lead {
            "\\"@
        } else {
            Seq::empty()
        }) + cs.last()
    }
}

/// `b` pushed onto a verbatim path: the path is rebuilt from its components with `b` added.
pub open spec fn verbatim_push(a: Seq<char>, b: Seq<char>) -> Seq<char> {
    let pre = a.take(prefix_len(a));
    let after_prefix = !(path_prefix(a) matches Some((PrefixKind::Disk, _)));
    let cur = if has_cur_dir(a) {
        seq!["."@]
    } else {
        Seq::empty()
    };
    let comps = cur + body_components(a, a.len() as int) + seq![b];
    if has_root(a) {
        pre + "\\"@ + join_components(comps, false)
    } else {
        pre + join_components(comps, after_prefix)
    }
}

/// `PathBuf::push` of `b`, a text without separators: `b` alone when it starts with a
/// prefix; the rebuilt path for a verbatim `a`; otherwise `a` and `b` with a `\` between them
/// unless `a` is empty, ends with a separator or is only a drive (`C:`).
pub open spec fn push_path(a: Seq<char>, b: Seq<char>) -> Seq<char> {
    if path_prefix(b) is Some {
        b
    } else if is_verbatim(a) && b.len() > 0 {
        verbatim_push(a, b)
    } else if a.len() == 0 || is_sep_for(a.last(), false) || (path_prefix(a) matches Some(
        (PrefixKind::Disk, n),
    ) && n == a.len()) {
        a + b
    } else {
        a + "\\"@ + b
    }
}

/// VRChat's log directory for a local application-data path such as
/// `C:\Users\me\AppData\Local`: `path.with_file_name(name + "Low").join("VRChat").join("VRChat")`
/// for the path's file name `name`; none when the path has no file name.
pub open spec fn vrchat_log_dir_spec(p: Seq<char>) -> Option<Seq<char>> {
    match file_name(p) {
        None => None,
        Some(name) => Some(
            push_path(push_path(push_path(parent_text(p), name + "Low"@), "VRChat"@), "VRChat"@),
        ),
    }
}

/// The abstract value of a list of components.
pub open spec fn components_view(v: Seq<Vec<char>>) -> Seq<Seq<char>> {
    Seq::new(v.len(), |i: int| v[i]@)
}

fn is_sep_char(c: char, verbatim: bool) -> (r: bool)
    ensures
        r == is_sep_for(c, verbatim),
{
    c == '\\' || (!verbatim && c == '/')
}

fn is_alpha_char(c: char) -> (r: bool)
    ensures
        r == is_ascii_alpha(c),
{
    ('a' <= c && c <= 'z') || ('A' <= c && c <= 'Z')
}

fn prefix_char_at(p: &Vec<char>, i: usize) -> (c: char)
    requires
        i < p.len(),
    ensures
        c == prefix_char(p@, i as int),
{
    if i < 8 && p[i] == '/' {
        '\\'
    } else {
        p[i]
    }
}

fn first_sep(p: &Vec<char>, i: usize, verbatim: bool) -> (r: usize)
    requires
        i <= p.len(),
    ensures
        r == first_sep_from(p@, i as int, verbatim),
        i <= r <= p.len(),
    decreases p.len() - i,
{
    if i >= p.len() {
        p.len()
    } else if is_sep_char(p[i], verbatim) {
        i
    } else {
        first_sep(p, i + 1, verbatim)
    }
}

fn unc_end_at(p: &Vec<char>, start: usize, verbatim: bool) -> (r: usize)
    requires
        start <= p.len(),
    ensures
        r == unc_end(p@, start as int, verbatim),
        start <= r <= p.len(),
{
    let e1 = first_sep(p, start, verbatim);
    let e2 = if e1 < p.len() {
        first_sep(p, e1 + 1, verbatim)
    } else {
        e1
    };
    if e1 < e2 && e2 - e1 > 1 {
        e2
    } else {
        e1
    }
}

fn prefix_at_start(p: &Vec<char>) -> (r: Option<(PrefixKind, usize)>)
    ensures
        match path_prefix(p@) {
            None => r is None,
            Some((k, n)) => r == Some((k, n as usize)) && 0 <= n <= p.len(),
        },
{
    let len = p.len();
    if len >= 2 && prefix_char_at(p, 0) == '\\' && prefix_char_at(p, 1) == '\\' {
        if len >= 4 && p[0] == '\\' && p[1] == '\\' && p[2] == '?' && p[3] == '\\' {
            if len >= 8 && prefix_char_at(p, 4) == 'U' && prefix_char_at(p, 5) == 'N'
                && prefix_char_at(p, 6) == 'C' && prefix_char_at(p, 7) == '\\' {
                Some((PrefixKind::VerbatimUnc, unc_end_at(p, 8, true)))
            } else if len >= 6 && is_alpha_char(p[4]) && p[5] == ':' && (len == 6 || is_sep_char(
                p[6],
                false,
            )) {
                Some((PrefixKind::VerbatimDisk, 6))
            } else {
                Some((PrefixKind::Verbatim, first_sep(p, 4, true)))
            }
        } else if len >= 4 && prefix_char_at(p, 2) == '.' && prefix_char_at(p, 3) == '\\' {
            Some((PrefixKind::DeviceNs, first_sep(p, 4, false)))
        } else {
            let e1 = first_sep(p, 2, false);
            let end = unc_end_at(p, 2, false);
            if e1 > 2 && end > e1 {
                Some((PrefixKind::Unc, end))
            } else {
                None
            }
        }
    } else if len >= 2 && is_alpha_char(p[0]) && p[1] == ':' {
        Some((PrefixKind::Disk, 2))
    } else {
        None
    }
}

/// What the components of a path start with.
struct PathHead {
    kind: Option<PrefixKind>,
    prefix_len: usize,
    verbatim: bool,
    root: bool,
    cur: bool,
    body_start: usize,
}

fn path_head(p: &Vec<char>) -> (h: PathHead)
    ensures
        h.kind == (match path_prefix(p@) {
            Some((k, _)) => Some(k),
            None => None,
        }),
        h.prefix_len == prefix_len(p@),
        h.verbatim == is_verbatim(p@),
        h.root == has_root(p@),
        h.cur == has_cur_dir(p@),
        h.body_start == body_start(p@),
        h.body_start <= p.len(),
{
    let (kind, plen) = match prefix_at_start(p) {
        Some((k, n)) => (Some(k), n),
        None => (None, 0),
    };
    let verbatim = match kind {
        Some(PrefixKind::Verbatim) | Some(PrefixKind::VerbatimUnc) | Some(PrefixKind::VerbatimDisk) => true,
        _ => false,
    };
    let root = plen < p.len() && is_sep_char(p[plen], verbatim);
    let cur = !root && plen < p.len() && p[plen] == '.' && (plen + 1 == p.len() || is_sep_char(
        p[plen + 1],
        verbatim,
    ));
    let mut start = plen;
    if root {
        start = start + 1;
    }
    if cur {
        start = start + 1;
    }
    PathHead { kind, prefix_len: plen, verbatim, root, cur, body_start: start }
}

fn last_sep(p: &Vec<char>, lo: usize, end: usize, verbatim: bool) -> (r: Option<usize>)
    requires
        lo <= end <= p.len(),
    ensures
        match r {
            Some(i) => i == last_sep_before(p@, lo as int, end as int, verbatim) && lo <= i < end,
            None => last_sep_before(p@, lo as int, end as int, verbatim) == lo - 1,
        },
    decreases end - lo,
{
    if end <= lo {
        None
    } else if is_sep_char(p[end - 1], verbatim) {
        Some(end - 1)
    } else {
        last_sep(p, lo, end - 1, verbatim)
    }
}

fn chars_between(p: &Vec<char>, from: usize, to: usize) -> (r: Vec<char>)
    requires
        from <= to <= p.len(),
    ensures
        r@ == p@.subrange(from as int, to as int),
{
    let mut r: Vec<char> = Vec::new();
    let mut i = from;
    while i < to
        invariant
            from <= i <= to <= p.len(),
            r@ == p@.subrange(from as int, i as int),
        decreases to - i,
    {
        r.push(p[i]);
        assert(p@.subrange(from as int, i + 1) == p@.subrange(from as int, i as int).push(p@[i as int]));
        i = i + 1;
    }
    r
}

fn back_component_at(p: &Vec<char>, h: &PathHead, end: usize) -> (r: (usize, Vec<char>))
    requires
        h.body_start == body_start(p@),
        h.verbatim == is_verbatim(p@),
        h.body_start <= end <= p.len(),
    ensures
        (r.0 as int, r.1@) == back_component(p@, end as int),
        r.0 <= end,
        h.body_start <= r.0,
{
    match last_sep(p, h.body_start, end, h.verbatim) {
        None => (h.body_start, chars_between(p, h.body_start, end)),
        Some(i) => (i, chars_between(p, i + 1, end)),
    }
}

fn is_text(v: &Vec<char>, s: &str) -> (r: bool)
    ensures
        r == (v@ == s@),
{
    let t = chars_of(s);
    if v.len() != t.len() {
        return false;
    }
    let mut i: usize = 0;
    while i < v.len()
        invariant
            v.len() == t.len(),
            t@ == s@,
            i <= v.len(),
            forall|k: int| 0 <= k < i ==> v@[k] == t@[k],
        decreases v.len() - i,
    {
        if v[i] != t[i] {
            assert(v@[i as int] != s@[i as int]);
            return false;
        }
        i = i + 1;
    }
    assert(v@ =~= t@);
    true
}

fn skipped(c: &Vec<char>, verbatim: bool) -> (r: bool)
    ensures
        r == is_skipped(c@, verbatim),
{
    c.len() == 0 || (!verbatim && is_text(c, "."))
}

fn last_component_at(p: &Vec<char>, h: &PathHead, end: usize) -> (r: Option<(usize, Vec<char>)>)
    requires
        h.body_start == body_start(p@),
        h.verbatim == is_verbatim(p@),
        end <= p.len(),
    ensures
        match last_component(p@, end as int) {
            None => r is None,
            Some((e2, c)) => r matches Some((e, v)) && e == e2 && v@ == c && e < end,
        },
    decreases end,
{
    if end <= h.body_start {
        return None;
    }
    let (e2, c) = back_component_at(p, h, end);
    if e2 >= end {
        None
    } else if skipped(&c, h.verbatim) {
        last_component_at(p, h, e2)
    } else {
        Some((e2, c))
    }
}

fn trim_back_at(p: &Vec<char>, h: &PathHead, end: usize) -> (r: usize)
    requires
        h.body_start == body_start(p@),
        h.verbatim == is_verbatim(p@),
        end <= p.len(),
    ensures
        r == trim_back(p@, end as int),
        r <= end,
    decreases end,
{
    if end <= h.body_start {
        return end;
    }
    let (e2, c) = back_component_at(p, h, end);
    if e2 < end && skipped(&c, h.verbatim) {
        trim_back_at(p, h, e2)
    } else {
        end
    }
}

fn body_components_at(p: &Vec<char>, h: &PathHead, end: usize) -> (r: Vec<Vec<char>>)
    requires
        h.body_start == body_start(p@),
        h.verbatim == is_verbatim(p@),
        end <= p.len(),
    ensures
        components_view(r@) == body_components(p@, end as int),
    decreases end,
{
    if end <= h.body_start {
        let r: Vec<Vec<char>> = Vec::new();
        assert(components_view(r@) =~= Seq::<Seq<char>>::empty());
        return r;
    }
    let (e2, c) = back_component_at(p, h, end);
    if e2 >= end {
        let r: Vec<Vec<char>> = Vec::new();
        assert(components_view(r@) =~= Seq::<Seq<char>>::empty());
        r
    } else if skipped(&c, h.verbatim) {
        body_components_at(p, h, e2)
    } else {
        let mut r = body_components_at(p, h, e2);
        let ghost before = components_view(r@);
        r.push(c);
        assert(components_view(r@) =~= before.push(c@));
        r
    }
}

fn append_chars(out: &mut Vec<char>, s: &Vec<char>)
    ensures
        final(out)@ == old(out)@ + s@,
{
    let mut i: usize = 0;
    let ghost start = out@;
    while i < s.len()
        invariant
            i <= s.len(),
            out@ == start + s@.take(i as int),
        decreases s.len() - i,
    {
        out.push(s[i]);
        assert(s@.take(i + 1) == s@.take(i as int).push(s@[i as int]));
        i = i + 1;
    }
    assert(s@.take(s.len() as int) =~= s@);
}

fn join_at(cs: &Vec<Vec<char>>, k: usize, lead: bool) -> (r: Vec<char>)
    requires
        k <= cs.len(),
    ensures
        r@ == join_components(components_view(cs@).take(k as int), lead),
    decreases k,
{
    let ghost all = components_view(cs@);
    if k == 0 {
        assert(all.take(0) =~= Seq::<Seq<char>>::empty());
        return Vec::new();
    }
    let mut r = join_at(cs, k - 1, lead);
    assert(all.take(k as int).drop_last() =~= all.take(k - 1));
    if k > 1 || lead {
        r.push('\\');
    }
    append_chars(&mut r, &cs[k - 1]);
    proof {
        reveal_strlit("\\");
        assert(all.take(k as int).last() == cs@[k - 1]@);
    }
    assert(r@ =~= join_components(all.take(k as int), lead));
    r
}

fn push_path_at(a: &Vec<char>, b: &Vec<char>) -> (r: Vec<char>)
    ensures
        r@ == push_path(a@, b@),
{
    proof {
        reveal_strlit("\\");
        reveal_strlit(".");
    }
    match prefix_at_start(b) {
        Some(_) => {
            return b.clone();
        },
        None => {},
    }
    let h = path_head(a);
    if h.verbatim && b.len() > 0 {
        let mut cs: Vec<Vec<char>> = Vec::new();
        if h.cur {
            cs.push(chars_of("."));
        }
        let body = body_components_at(a, &h, a.len());
        let ghost before = components_view(cs@);
        let mut i: usize = 0;
        while i < body.len()
            invariant
                i <= body.len(),
                components_view(cs@) == before + components_view(body@).take(i as int),
            decreases body.len() - i,
        {
            let ghost prev = components_view(cs@);
            cs.push(body[i].clone());
            assert(components_view(cs@) =~= prev.push(body@[i as int]@));
            assert(components_view(body@).take(i + 1) =~= components_view(body@).take(i as int).push(body@[i as int]@));
            i = i + 1;
        }
        let ghost mid = components_view(cs@);
        cs.push(b.clone());
        assert(components_view(cs@) =~= mid.push(b@));
        assert(components_view(body@).take(body.len() as int) =~= components_view(body@));
        let ghost cur_part: Seq<Seq<char>> = if h.cur { seq!["."@] } else { Seq::empty() };
        assert(before =~= cur_part);
        assert(components_view(cs@) =~= cur_part + body_components(a@, a@.len() as int) + seq![b@]);
        assert(components_view(cs@).take(cs.len() as int) =~= components_view(cs@));
        let mut out = chars_between(a, 0, h.prefix_len);
        assert(out@ =~= a@.take(prefix_len(a@)));
        let lead = match h.kind {
            Some(PrefixKind::Disk) => false,
            _ => true,
        };
        if h.root {
            out.push('\\');
            let joined = join_at(&cs, cs.len(), false);
            append_chars(&mut out, &joined);
        } else {
            let joined = join_at(&cs, cs.len(), lead);
            append_chars(&mut out, &joined);
        }
        return out;
    }
    let n = a.len();
    let bare = n == 0 || is_sep_char(a[n - 1], false) || (match h.kind {
        Some(PrefixKind::Disk) => h.prefix_len == n,
        _ => false,
    });
    let mut out = a.clone();
    if !bare {
        out.push('\\');
    }
    append_chars(&mut out, b);
    out
}

/// VRChat's log directory beside the local application-data directory `local_app_data`, as
/// the Windows rules of `std::path` give it: `with_file_name(<name>Low)`, then
/// `join("VRChat")` twice. Fails when the path has no file name.
pub fn vrchat_log_dir_from_local_app_data(local_app_data: &str) -> (r: Result<String, PathError>)
    ensures
        match vrchat_log_dir_spec(local_app_data@) {
            None => r == Err::<String, PathError>(PathError::NoFileName),
            Some(d) => r matches Ok(s) && s@ == d,
        },
{
    let p = chars_of(local_app_data);
    let h = path_head(&p);
    match last_component_at(&p, &h, p.len()) {
        None => Err(PathError::NoFileName),
        Some((e2, name)) => {
            if is_text(&name, ".") || is_text(&name, "..") {
                return Err(PathError::NoFileName);
            }
            let parent_end = trim_back_at(&p, &h, e2);
            let parent = chars_between(&p, 0, parent_end);
            assert(parent@ =~= parent_text(p@));
            let mut low = name;
            append_chars(&mut low, &chars_of("Low"));
            let d1 = push_path_at(&parent, &low);
            let d2 = push_path_at(&d1, &chars_of("VRChat"));
            let d3 = push_path_at(&d2, &chars_of("VRChat"));
            Ok(string_from_chars(&d3, 0))
        },
    }
}

} // verus!
