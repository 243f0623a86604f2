use rebind::groups::{empty_slot, join_same_action};
use rebind::order::compare_pairs;
use rebind::{Action, Button};
use std::cmp::Ordering;

#[derive(Clone, Copy, Debug, Eq, Hash, PartialEq, Ord, PartialOrd)]
struct Act(u64);

impl Action for Act {
    fn spec_rank(&self) -> u64 {
        self.0
    }

    fn rank(&self) -> u64 {
        self.0
    }
}

#[test]
fn pairs_compare_by_first_then_second() {
    assert_eq!(compare_pairs(&(1, 9), &(2, 0)), Ordering::Less);
    assert_eq!(compare_pairs(&(2, 0), &(1, 9)), Ordering::Greater);
    assert_eq!(compare_pairs(&(3, 4), &(3, 5)), Ordering::Less);
    assert_eq!(compare_pairs(&(3, 5), &(3, 4)), Ordering::Greater);
    assert_eq!(compare_pairs(&(3, 4), &(3, 4)), Ordering::Equal);
    assert_eq!(compare_pairs(&(0, u64::MAX), &(u64::MAX, 0)), Ordering::Less);
}

#[test]
fn groups_of_one_rank_join() {
    let first = (Act(1), vec![Some(Button::Keyboard(1))]);
    let second = (Act(1), vec![Some(Button::Keyboard(2)), None]);
    assert_eq!(
        join_same_action(first, second),
        Ok((Act(1), vec![Some(Button::Keyboard(1)), Some(Button::Keyboard(2)), None]))
    );
}

#[test]
fn groups_of_different_ranks_stay_apart() {
    let first = (Act(1), vec![Some(Button::Keyboard(1))]);
    let second = (Act(2), vec![Some(Button::Keyboard(2))]);
    assert_eq!(
        join_same_action(first.clone(), second.clone()),
        Err((first, second))
    );
}

#[test]
fn empty_slot_is_empty_at_every_position() {
    assert_eq!(empty_slot(0), None);
    assert_eq!(empty_slot(2), None);
    assert_eq!(empty_slot(usize::MAX), None);
}
