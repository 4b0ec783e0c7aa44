use shared_ledger::arith::{get_2, get_sum_2, get_sum_3, get_sum_gen, sum_list, use_func};
use shared_ledger::calendar::Day;
use shared_ledger::chance::random_num;
use shared_ledger::text::change_string;
use shared_ledger::tree::TreeNode;

#[test]
fn get_sum_2_adds() {
    assert_eq!(get_sum_2(5, 3), 8);
    assert_eq!(get_sum_2(-7, 7), 0);
    assert_eq!(get_sum_2(i32::MAX, i32::MIN), -1);
}

#[test]
fn get_sum_3_adds() {
    assert_eq!(get_sum_3(7, 8), 15);
    assert_eq!(get_sum_3(i32::MAX - 1, 1), i32::MAX);
}

#[test]
fn get_2_gives_the_next_two() {
    assert_eq!(get_2(3), (4, 5));
    assert_eq!(get_2(i32::MAX - 2), (i32::MAX - 1, i32::MAX));
    assert_eq!(get_2(i32::MIN), (i32::MIN + 1, i32::MIN + 2));
}

#[test]
fn sum_list_adds_all_values() {
    assert_eq!(sum_list(&[1, 2, 3, 4, 5]), 15);
    assert_eq!(sum_list(&[]), 0);
    assert_eq!(sum_list(&[i32::MAX, -1, -i32::MAX]), -1);
}

#[test]
fn get_sum_gen_adds_integers_and_floats() {
    assert_eq!(get_sum_gen(5, 4), 9);
    assert_eq!(get_sum_gen(5u64, 4u64), 9u64);
    assert_eq!(get_sum_gen(5.5f64, 4.25f64), 9.75f64);
}

#[test]
fn change_string_appends() {
    let mut name = String::from("Derek");
    change_string(&mut name);
    assert_eq!(name, "Derek is Happy");
    change_string(&mut name);
    assert_eq!(name, "Derek is Happy is Happy");
}

#[test]
fn random_num_lies_from_one_to_a_hundred() {
    let mut seen = [false; 101];
    for _ in 0..20_000 {
        let drawn = random_num();
        assert!((1..=100).contains(&drawn));
        seen[drawn as usize] = true;
    }
    assert!(seen[1..].iter().filter(|hit| **hit).count() > 1);
}

#[test]
fn use_func_hands_both_numbers_to_the_function() {
    assert_eq!(use_func(5, 4, |a, b| a + b), 9);
    assert_eq!(use_func(5, 4, |a, b| a * b), 20);
    assert_eq!(use_func(5, 4, |a, _| a), 5);
    assert_eq!(use_func(5, 4, |_, b| b), 4);
}

#[test]
fn only_saturday_and_sunday_are_weekend() {
    assert!(Day::Saturday.is_weekend());
    assert!(Day::Sunday.is_weekend());
    for day in [Day::Monday, Day::Tuesday, Day::Wednesday, Day::Thursday, Day::Friday] {
        assert!(!day.is_weekend());
    }
}

#[test]
fn tree_is_built_from_the_root_down() {
    let root = TreeNode::new(1).left(TreeNode::new(2)).right(TreeNode::new(3));
    assert_eq!(root.key, 1);
    let left = root.left.unwrap();
    let right = root.right.unwrap();
    assert_eq!(left.key, 2);
    assert!(left.left.is_none() && left.right.is_none());
    assert_eq!(right.key, 3);
    assert!(right.left.is_none() && right.right.is_none());
}

#[test]
fn tree_subtree_replaces_the_one_before() {
    let root = TreeNode::new("root").left(TreeNode::new("first")).left(TreeNode::new("second"));
    assert_eq!(root.left.unwrap().key, "second");
    assert!(root.right.is_none());
}
