use vrc_tail::follow::{plan_follow, FollowStep};
use vrc_tail::text::same_text;

fn strings(v: &[&str]) -> Vec<String> {
    v.iter().map(|s| s.to_string()).collect()
}

#[test]
fn followed_files_go_on_and_new_files_are_read_from_their_start() {
    let plan = plan_follow(&strings(&["a", "b", "c"]), &strings(&["b", "d", "c"]));
    assert_eq!(
        plan,
        vec![
            FollowStep::Keep { tail: 1, index: 0 },
            FollowStep::Keep { tail: 2, index: 2 },
            FollowStep::Open { index: 1 },
        ]
    );
}

#[test]
fn a_first_group_is_read_from_the_start_of_each_file() {
    let plan = plan_follow(&Vec::new(), &strings(&["x", "y"]));
    assert_eq!(plan, vec![FollowStep::Open { index: 0 }, FollowStep::Open { index: 1 }]);
}

#[test]
fn files_that_left_the_group_are_dropped() {
    assert!(plan_follow(&strings(&["a", "b"]), &Vec::new()).is_empty());
    let plan = plan_follow(&strings(&["old", "kept"]), &strings(&["kept"]));
    assert_eq!(plan, vec![FollowStep::Keep { tail: 1, index: 0 }]);
}

#[test]
fn every_file_of_the_group_is_followed_once_with_its_index() {
    let current = strings(&["p3", "p1", "p9"]);
    let group = strings(&["p1", "p2", "p3", "p4"]);
    let plan = plan_follow(&current, &group);
    let mut shown: Vec<(String, usize)> = plan
        .iter()
        .map(|step| match *step {
            FollowStep::Keep { tail, index } => (current[tail].clone(), index),
            FollowStep::Open { index } => (group[index].clone(), index),
        })
        .collect();
    shown.sort_by_key(|(_, index)| *index);
    let expected: Vec<(String, usize)> =
        group.iter().cloned().enumerate().map(|(i, p)| (p, i)).collect();
    assert_eq!(shown, expected);
}

#[test]
fn same_text_compares_whole_texts() {
    assert!(same_text("abc", "abc"));
    assert!(same_text("", ""));
    assert!(!same_text("abc", "abd"));
    assert!(!same_text("abc", "ab"));
    assert!(!same_text("ab", "abc"));
}
