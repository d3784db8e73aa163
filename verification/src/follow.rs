//! Following a new group of log files: which files keep being read where they were, and
//! which are read from their start.

use crate::text::same_text;
use vstd::prelude::*;

verus! {

/// One file of the set that is followed after a new group was found.
#[derive(Debug, Clone, Copy, PartialEq, Eq, Structural)]
pub enum FollowStep {
    /// Go on reading the `tail`-th file of the current set where it was; its lines are now
    /// shown with `index`.
    Keep { tail: usize, index: usize },
    /// Read the file at `index` of the new group from its start; its lines are shown with
    /// `index`.
    Open { index: usize },
}

/// The texts of a sequence of strings.
pub open spec fn texts(v: Seq<String>) -> Seq<Seq<char>> {
    v.map_values(|s: String| s@)
}

/// The first position of `p` in `s`, if it occurs there.
pub open spec fn first_position(s: Seq<Seq<char>>, p: Seq<char>) -> Option<int>
    decreases s.len(),
{
    if s.len() == 0 {
        None
    } else {
        match first_position(s.drop_last(), p) {
            Some(i) => Some(i),
            None => if s.last() == p { Some(s.len() - 1) } else { None },
        }
    }
}

/// The files among the first `n` of the current set that the group still holds, in the
/// current order, each shown with its first position in the group.
pub open spec fn kept_steps(current: Seq<Seq<char>>, group: Seq<Seq<char>>, n: int) -> Seq<FollowStep>
    decreases n,
{
    if n <= 0 {
        Seq::empty()
    } else {
        let before = kept_steps(current, group, n - 1);
        match first_position(group, current[n - 1]) {
            Some(i) => before.push(FollowStep::Keep { tail: (n - 1) as usize, index: i as usize }),
            None => before,
        }
    }
}

/// The files among the first `n` of the group that the current set does not follow, in the
/// group's order.
pub open spec fn opened_steps(current: Seq<Seq<char>>, group: Seq<Seq<char>>, n: int) -> Seq<FollowStep>
    decreases n,
{
    if n <= 0 {
        Seq::empty()
    } else {
        let before = opened_steps(current, group, n - 1);
        if first_position(current, group[n - 1]) is None {
            before.push(FollowStep::Open { index: (n - 1) as usize })
        } else {
            before
        }
    }
}

/// The set followed after a new group: the current files that the group holds go on where
/// they were, then the group's new files are read from their start.
pub open spec fn follow_plan(current: Seq<Seq<char>>, group: Seq<Seq<char>>) -> Seq<FollowStep> {
    kept_steps(current, group, current.len() as int) + opened_steps(current, group, group.len() as int)
}

/// The file that a step follows.
pub open spec fn step_path(current: Seq<Seq<char>>, group: Seq<Seq<char>>, step: FollowStep) -> Seq<char> {
    match step {
        FollowStep::Keep { tail, .. } => current[tail as int],
        FollowStep::Open { index } => group[index as int],
    }
}

/// The index that a step's lines are shown with.
pub open spec fn step_index(step: FollowStep) -> int {
    match step {
        FollowStep::Keep { index, .. } => index as int,
        FollowStep::Open { index } => index as int,
    }
}

proof fn lemma_first_position(s: Seq<Seq<char>>, p: Seq<char>)
    ensures
        first_position(s, p) matches Some(i) ==> 0 <= i < s.len() && s[i] == p && forall|k: int|
            0 <= k < i ==> s[k] != p,
        first_position(s, p) is None ==> forall|k: int| 0 <= k < s.len() ==> s[k] != p,
    decreases s.len(),
{
    if s.len() > 0 {
        let d = s.drop_last();
        lemma_first_position(d, p);
        match first_position(d, p) {
            Some(i) => {
                assert forall|k: int| 0 <= k < i implies #[trigger] s[k] != p by {
                    assert(d[k] == s[k]);
                }
            },
            None => {
                assert forall|k: int| 0 <= k < d.len() implies #[trigger] s[k] != p by {
                    assert(d[k] == s[k]);
                }
                assert(s.last() == s[s.len() - 1]);
            },
        }
    }
}

proof fn lemma_first_position_take(s: Seq<Seq<char>>, p: Seq<char>, j: int)
    requires
        0 <= j < s.len(),
    ensures
        first_position(s.take(j + 1), p) == (match first_position(s.take(j), p) {
            Some(i) => Some(i),
            None => if s[j] == p { Some(j) } else { None },
        }),
{
    assert(s.take(j + 1).drop_last() =~= s.take(j));
}

/// Whether `p` occurs in `s`, as `first_position` finds it.
spec fn found_in(s: Seq<Seq<char>>, p: Seq<char>) -> bool {
    first_position(s, p) is Some
}

/// `kept_steps` grows by at most one step, at its end.
proof fn lemma_kept_step(current: Seq<Seq<char>>, group: Seq<Seq<char>>, n: int)
    requires
        0 < n <= current.len(),
    ensures
        ({
            let before = kept_steps(current, group, n - 1);
            let after = kept_steps(current, group, n);
            match first_position(group, current[n - 1]) {
                Some(i) => after == before.push(FollowStep::Keep { tail: (n - 1) as usize, index: i as usize }),
                None => after == before,
            }
        }),
{
}

proof fn lemma_kept_steps(current: Seq<Seq<char>>, group: Seq<Seq<char>>, n: int)
    requires
        0 <= n <= current.len(),
        current.len() <= usize::MAX,
        group.len() <= usize::MAX,
    ensures
        forall|m: int| 0 <= m < kept_steps(current, group, n).len() ==> {
            let step = #[trigger] kept_steps(current, group, n)[m];
            &&& step is Keep
            &&& 0 <= step->tail < n
            &&& first_position(group, current[step->tail as int]) == Some(step->Keep_index as int)
        },
        forall|m1: int, m2: int| 0 <= m1 < m2 < kept_steps(current, group, n).len()
            ==> (#[trigger] kept_steps(current, group, n)[m1])->tail < (#[trigger] kept_steps(current, group, n)[m2])->tail,
        forall|k: int| 0 <= k < n && #[trigger] found_in(group, current[k])
            ==> exists|m: int| 0 <= m < kept_steps(current, group, n).len()
                && (#[trigger] kept_steps(current, group, n)[m])->tail == k,
    decreases n,
{
    if n > 0 {
        lemma_kept_steps(current, group, n - 1);
        lemma_kept_step(current, group, n);
        let before = kept_steps(current, group, n - 1);
        let after = kept_steps(current, group, n);
        if first_position(group, current[n - 1]) is Some {
            let last = before.len() as int;
            lemma_first_position(group, current[n - 1]);
            assert(after[last]->tail == n - 1);
            assert forall|m: int| 0 <= m < last implies #[trigger] after[m] == before[m] by {}
            assert forall|m: int| 0 <= m < after.len() implies {
                let step = #[trigger] after[m];
                &&& step is Keep
                &&& 0 <= step->tail < n
                &&& first_position(group, current[step->tail as int]) == Some(step->Keep_index as int)
            } by {
                if m < last {
                    assert(after[m] == before[m]);
                }
            }
            assert forall|m1: int, m2: int| 0 <= m1 < m2 < after.len()
                implies (#[trigger] after[m1])->tail < (#[trigger] after[m2])->tail by {
                assert(after[m1] == before[m1]);
                if m2 < last {
                    assert(after[m2] == before[m2]);
                }
            }
            assert forall|k: int| 0 <= k < n && #[trigger] found_in(group, current[k])
                implies exists|m: int| 0 <= m < after.len() && (#[trigger] after[m])->tail == k by {
                if k < n - 1 {
                    let m = choose|m: int| 0 <= m < before.len() && (#[trigger] before[m])->tail == k;
                    assert(after[m] == before[m]);
                } else {
                    assert(after[last]->tail == k);
                }
            }
        }
    }
}

/// `opened_steps` grows by at most one step, at its end.
proof fn lemma_opened_step(current: Seq<Seq<char>>, group: Seq<Seq<char>>, n: int)
    requires
        0 < n <= group.len(),
    ensures
        ({
            let before = opened_steps(current, group, n - 1);
            let after = opened_steps(current, group, n);
            if first_position(current, group[n - 1]) is None {
                after == before.push(FollowStep::Open { index: (n - 1) as usize })
            } else {
                after == before
            }
        }),
{
}

proof fn lemma_opened_steps(current: Seq<Seq<char>>, group: Seq<Seq<char>>, n: int)
    requires
        0 <= n <= group.len(),
        group.len() <= usize::MAX,
    ensures
        forall|m: int| 0 <= m < opened_steps(current, group, n).len() ==> {
            let step = #[trigger] opened_steps(current, group, n)[m];
            &&& step is Open
            &&& 0 <= step->Open_index < n
            &&& first_position(current, group[step->Open_index as int]) is None
        },
        forall|m1: int, m2: int| 0 <= m1 < m2 < opened_steps(current, group, n).len()
            ==> (#[trigger] opened_steps(current, group, n)[m1])->Open_index
                < (#[trigger] opened_steps(current, group, n)[m2])->Open_index,
        forall|j: int| 0 <= j < n && !#[trigger] found_in(current, group[j])
            ==> exists|m: int| 0 <= m < opened_steps(current, group, n).len()
                && (#[trigger] opened_steps(current, group, n)[m])->Open_index == j,
    decreases n,
{
    if n > 0 {
        lemma_opened_steps(current, group, n - 1);
        lemma_opened_step(current, group, n);
        let before = opened_steps(current, group, n - 1);
        let after = opened_steps(current, group, n);
        if first_position(current, group[n - 1]) is None {
            let last = before.len() as int;
            assert(after[last]->Open_index == n - 1);
            assert forall|m: int| 0 <= m < after.len() implies {
                let step = #[trigger] after[m];
                &&& step is Open
                &&& 0 <= step->Open_index < n
                &&& first_position(current, group[step->Open_index as int]) is None
            } by {
                if m < last {
                    assert(after[m] == before[m]);
                }
            }
            assert forall|m1: int, m2: int| 0 <= m1 < m2 < after.len()
                implies (#[trigger] after[m1])->Open_index < (#[trigger] after[m2])->Open_index by {
                assert(after[m1] == before[m1]);
                if m2 < last {
                    assert(after[m2] == before[m2]);
                }
            }
            assert forall|j: int| 0 <= j < n && !#[trigger] found_in(current, group[j])
                implies exists|m: int| 0 <= m < after.len() && (#[trigger] after[m])->Open_index == j by {
                if j < n - 1 {
                    let m = choose|m: int| 0 <= m < before.len() && (#[trigger] before[m])->Open_index == j;
                    assert(after[m] == before[m]);
                } else {
                    assert(after[last]->Open_index == j);
                }
            }
        }
    }
}

/// Some step of `plan` follows the group's file at `j`, shown with index `j`.
pub open spec fn follows_index(current: Seq<Seq<char>>, group: Seq<Seq<char>>, plan: Seq<FollowStep>, j: int) -> bool {
    exists|n: int| 0 <= n < plan.len() && step_index(#[trigger] plan[n]) == j && step_path(current, group, plan[n]) == group[j]
}

/// No text occurs twice.
pub open spec fn all_distinct(s: Seq<Seq<char>>) -> bool {
    forall|i: int, j: int| 0 <= i < j < s.len() ==> s[i] != s[j]
}

/// Following a new group follows exactly its files: every step follows the group's file at
/// its index, every file of the group is followed by exactly one step, a file that was
/// followed already goes on where it was, and only a file that was not is read from its
/// start (which is how new log files come to be followed). The current set and the group
/// each name a file once, as a directory listing does.
pub proof fn law_follow_plan_follows_group(current: Seq<Seq<char>>, group: Seq<Seq<char>>)
    requires
        all_distinct(current),
        all_distinct(group),
        current.len() <= usize::MAX,
        group.len() <= usize::MAX,
    ensures
        forall|n: int| 0 <= n < follow_plan(current, group).len() ==> {
            let step = #[trigger] follow_plan(current, group)[n];
            &&& 0 <= step_index(step) < group.len()
            &&& step_path(current, group, step) == group[step_index(step)]
            &&& step matches FollowStep::Keep { tail, .. } ==> tail < current.len()
            &&& (step is Open <==> !current.contains(group[step_index(step)]))
        },
        forall|j: int| 0 <= j < group.len() ==> #[trigger] follows_index(current, group, follow_plan(current, group), j),
        forall|n1: int, n2: int| 0 <= n1 < n2 < follow_plan(current, group).len()
            ==> step_index(#[trigger] follow_plan(current, group)[n1]) != step_index(#[trigger] follow_plan(current, group)[n2]),
{
    let kept = kept_steps(current, group, current.len() as int);
    let opened = opened_steps(current, group, group.len() as int);
    lemma_kept_steps(current, group, current.len() as int);
    lemma_opened_steps(current, group, group.len() as int);
    assert forall|n: int| 0 <= n < follow_plan(current, group).len() implies {
        let step = #[trigger] follow_plan(current, group)[n];
        &&& 0 <= step_index(step) < group.len()
        &&& step_path(current, group, step) == group[step_index(step)]
        &&& step matches FollowStep::Keep { tail, .. } ==> tail < current.len()
        &&& (step is Open <==> !current.contains(group[step_index(step)]))
    } by {
        if n < kept.len() {
            let step = kept[n];
            assert(follow_plan(current, group)[n] == step);
            lemma_first_position(group, current[step->tail as int]);
            assert(current.contains(group[step_index(step)]) && step !is Open) by {
                assert(current[step->tail as int] == group[step_index(step)]);
            }
        } else {
            let step = opened[n - kept.len()];
            assert(follow_plan(current, group)[n] == step);
            lemma_first_position(current, group[step->Open_index as int]);
        }
    }
    assert forall|j: int| 0 <= j < group.len() implies #[trigger] follows_index(current, group, follow_plan(current, group), j) by {
        lemma_first_position(current, group[j]);
        match first_position(current, group[j]) {
            Some(k) => {
                lemma_first_position(group, current[k]);
                assert(found_in(group, current[k]));
                let m = choose|m: int| 0 <= m < kept.len() && (#[trigger] kept[m])->tail == k;
                assert(follow_plan(current, group)[m] == kept[m]);
                assert(step_index(follow_plan(current, group)[m]) == j);
                assert(step_path(current, group, follow_plan(current, group)[m]) == group[j]);
            },
            None => {
                assert(!found_in(current, group[j]));
                let m = choose|m: int| 0 <= m < opened.len() && (#[trigger] opened[m])->Open_index == j;
                assert(follow_plan(current, group)[kept.len() + m] == opened[m]);
                assert(step_path(current, group, follow_plan(current, group)[kept.len() + m]) == group[j]);
            },
        }
    }
    assert forall|n1: int, n2: int| 0 <= n1 < n2 < follow_plan(current, group).len() implies step_index(#[trigger] follow_plan(current, group)[n1])
        != step_index(#[trigger] follow_plan(current, group)[n2]) by {
        if n2 < kept.len() {
            assert(follow_plan(current, group)[n1] == kept[n1] && follow_plan(current, group)[n2] == kept[n2]);
            let (t1, t2) = (kept[n1]->tail as int, kept[n2]->tail as int);
            lemma_first_position(group, current[t1]);
            lemma_first_position(group, current[t2]);
            assert(t1 < t2);
        } else if n1 >= kept.len() {
            assert(follow_plan(current, group)[n1] == opened[n1 - kept.len()] && follow_plan(current, group)[n2] == opened[n2 - kept.len()]);
        } else {
            assert(follow_plan(current, group)[n1] == kept[n1] && follow_plan(current, group)[n2] == opened[n2 - kept.len()]);
            let t1 = kept[n1]->tail as int;
            lemma_first_position(group, current[t1]);
            lemma_first_position(current, group[opened[n2 - kept.len()]->Open_index as int]);
        }
    }
}

/// Where `p` first occurs in `v`, if anywhere.
fn find_text(v: &Vec<String>, p: &str) -> (r: Option<usize>)
    ensures
        r == (match first_position(texts(v@), p@) {
            Some(i) => Some(i as usize),
            None => None::<usize>,
        }),
{
    let ghost s = texts(v@);
    let mut j: usize = 0;
    while j < v.len()
        invariant
            j <= v.len(),
            s == texts(v@),
            first_position(s.take(j as int), p@) is None,
        decreases v.len() - j,
    {
        proof {
            lemma_first_position_take(s, p@, j as int);
        }
        if same_text(v[j].as_str(), p) {
            proof {
                lemma_first_position(s, p@);
                lemma_first_position(s.take(j as int), p@);
                assert forall|k: int| 0 <= k < j implies #[trigger] s[k] != p@ by {
                    assert(s.take(j as int)[k] == s[k]);
                }
                assert(s[j as int] == p@);
            }
            return Some(j);
        }
        j = j + 1;
    }
    assert(s.take(j as int) =~= s);
    None
}

/// How to follow `group` when the files of `current` are followed now: see [`follow_plan`].
pub fn plan_follow(current: &Vec<String>, group: &Vec<String>) -> (r: Vec<FollowStep>)
    ensures
        r@ == follow_plan(texts(current@), texts(group@)),
{
    let ghost c = texts(current@);
    let ghost g = texts(group@);
    let mut steps: Vec<FollowStep> = Vec::new();
    let mut k: usize = 0;
    while k < current.len()
        invariant
            k <= current.len(),
            c == texts(current@),
            g == texts(group@),
            steps@ == kept_steps(c, g, k as int),
        decreases current.len() - k,
    {
        match find_text(group, current[k].as_str()) {
            Some(i) => steps.push(FollowStep::Keep { tail: k, index: i }),
            None => {},
        }
        k = k + 1;
    }
    let mut j: usize = 0;
    while j < group.len()
        invariant
            j <= group.len(),
            c == texts(current@),
            g == texts(group@),
            steps@ == kept_steps(c, g, c.len() as int) + opened_steps(c, g, j as int),
        decreases group.len() - j,
    {
        if find_text(current, group[j].as_str()).is_none() {
            steps.push(FollowStep::Open { index: j });
            assert(steps@ =~= kept_steps(c, g, c.len() as int) + opened_steps(c, g, j + 1));
        }
        j = j + 1;
    }
    steps
}

} // verus!
