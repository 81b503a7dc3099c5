use primitives::flatten::{flatten, IteratorExt};

#[test]
fn empty() {
    assert_eq!(flatten(std::iter::empty::<Vec<()>>().collect()).count(), 0);
}

#[test]
fn empty_wide() {
    assert_eq!(flatten(vec![Vec::<()>::new(), vec![], vec![]]).count(), 0);
}

#[test]
fn one() {
    assert_eq!(flatten(std::iter::once(vec!["a"]).collect()).count(), 1);
}

#[test]
fn two() {
    assert_eq!(flatten(std::iter::once(vec!["a", "b"]).collect()).count(), 2);
}

#[test]
fn two_wide() {
    assert_eq!(flatten(vec![vec!["a"], vec!["b"]]).count(), 2);
}

#[test]
fn reverse() {
    assert_eq!(
        flatten(std::iter::once(vec!["a", "b"]).collect()).collect_rev(),
        vec!["b", "a"]
    );
}

#[test]
fn reverse_wide() {
    assert_eq!(
        flatten(vec![vec!["a"], vec!["b"]]).collect_rev(),
        vec!["b", "a"]
    );
}

#[test]
fn both_ends() {
    let mut iter = flatten(vec![vec!["a1", "a2", "a3"], vec!["b1", "b2", "b3"]]);
    assert_eq!(iter.next(), Some("a1"));
    assert_eq!(iter.next_back(), Some("b3"));
    assert_eq!(iter.next(), Some("a2"));
    assert_eq!(iter.next_back(), Some("b2"));
    assert_eq!(iter.next(), Some("a3"));
    assert_eq!(iter.next_back(), Some("b1"));
    assert_eq!(iter.next(), None);
    assert_eq!(iter.next_back(), None);
}

#[test]
fn ext() {
    assert_eq!(vec![vec![0, 1]].our_flatten().count(), 2);
}

#[test]
fn collect_keeps_order() {
    let walk = flatten(vec![vec![1, 2], vec![], vec![3, 4], vec![5]]);
    assert_eq!(walk.collect(), vec![1, 2, 3, 4, 5]);
}

#[test]
fn collect_after_taking_from_both_ends() {
    let mut walk = flatten(vec![vec![1, 2], vec![], vec![3, 4], vec![5]]);
    assert_eq!(walk.next_back(), Some(5));
    assert_eq!(walk.next(), Some(1));
    assert_eq!(walk.next_back(), Some(4));
    assert_eq!(walk.collect(), vec![2, 3]);
}

#[test]
fn back_crosses_into_front_list() {
    let mut walk = flatten(vec![vec![1, 2, 3]]);
    assert_eq!(walk.next(), Some(1));
    assert_eq!(walk.next_back(), Some(3));
    assert_eq!(walk.next_back(), Some(2));
    assert_eq!(walk.next_back(), None);
    assert_eq!(walk.next(), None);
}

#[test]
fn front_crosses_into_back_list() {
    let mut walk = flatten(vec![vec![1, 2, 3]]);
    assert_eq!(walk.next_back(), Some(3));
    assert_eq!(walk.next(), Some(1));
    assert_eq!(walk.next(), Some(2));
    assert_eq!(walk.next(), None);
    assert_eq!(walk.next_back(), None);
}

#[test]
fn items_need_not_be_copyable() {
    let walk = flatten(vec![vec![String::from("a")], vec![String::from("b"), String::from("c")]]);
    assert_eq!(walk.collect_rev(), vec!["c", "b", "a"]);
}
