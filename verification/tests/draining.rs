use std::cell::Cell;

use drain_while::DrainWhile;
use drain_while::DrainWhileable;

fn pull_all<T>(mut dw: DrainWhile<T>) -> Vec<T> {
    let mut out = Vec::new();
    while let Some(x) = dw.next() {
        out.push(x);
    }
    out
}

#[test]
fn no_match_leaves_vector_unchanged() {
    let mut v: Vec<usize> = vec![0, 1, 2, 3, 4, 5];
    let produced = pull_all(v.drain_while(|_| false));
    assert_eq!(produced, vec![]);
    assert_eq!(v, vec![0, 1, 2, 3, 4, 5]);
}

#[test]
fn partial_match_splits_at_first_rejection() {
    let mut v: Vec<usize> = vec![0, 1, 2, 3, 4, 5];
    let produced = pull_all(v.drain_while(|x| *x < 3));
    assert_eq!(produced, vec![0, 1, 2]);
    assert_eq!(v, vec![3, 4, 5]);
}

#[test]
fn full_match_empties_vector() {
    let mut v: Vec<usize> = vec![3, 4, 5];
    let produced = pull_all(v.drain_while(|_| true));
    assert_eq!(produced, vec![3, 4, 5]);
    assert_eq!(v, vec![]);
}

#[test]
fn chained_scenarios_on_one_vector() {
    let mut orig: Vec<usize> = vec![0, 1, 2, 3, 4, 5];
    let none = pull_all(orig.drain_while(|_| false));
    let some = pull_all(orig.drain_while(|x| *x < 3));
    let rest = pull_all(orig.drain_while(|_| true));
    assert_eq!(none, vec![]);
    assert_eq!(some, vec![0, 1, 2]);
    assert_eq!(rest, vec![3, 4, 5]);
    assert_eq!(orig, vec![]);
}

#[test]
fn differs_from_drain_then_take_while() {
    let mut v1 = vec![1, 2, 3, 4, 5];
    let mut v2 = vec![1, 2, 3, 4, 5];
    let taken1: Vec<i32> = v1.drain(..).take_while(|x| *x < 3).collect();
    let taken2 = pull_all(v2.drain_while(|x| *x < 3));
    assert_eq!(taken1, taken2);
    assert_eq!(v1, vec![]);
    assert_eq!(v2, vec![3, 4, 5]);
    assert_ne!(v1, v2);
}

#[test]
fn partial_consumption_still_removes_whole_prefix() {
    let mut v = vec![1, 2, 3, 4, 5];
    let mut dw = v.drain_while(|x| *x < 3);
    assert_eq!(dw.next(), Some(1));
    drop(dw);
    assert_eq!(v, vec![3, 4, 5]);
}

#[test]
fn unconsumed_result_still_removes_whole_prefix() {
    let mut v = vec![1, 2, 3, 4, 5];
    let dw = v.drain_while(|x| *x < 3);
    drop(dw);
    assert_eq!(v, vec![3, 4, 5]);
}

#[test]
fn empty_vector_produces_nothing() {
    let mut v: Vec<i32> = vec![];
    let calls = Cell::new(0usize);
    let produced = pull_all(v.drain_while(|_| {
        calls.set(calls.get() + 1);
        true
    }));
    assert_eq!(produced, vec![]);
    assert_eq!(v, vec![]);
    assert_eq!(calls.get(), 0);
}

#[test]
fn first_rejection_stops_predicate_calls() {
    let mut v = vec![10, 1, 2, 3];
    let calls = Cell::new(0usize);
    let produced = pull_all(v.drain_while(|x| {
        calls.set(calls.get() + 1);
        *x < 5
    }));
    assert_eq!(produced, vec![]);
    assert_eq!(v, vec![10, 1, 2, 3]);
    assert_eq!(calls.get(), 1);
}

#[test]
fn each_element_tested_at_most_once() {
    let mut v = vec![1, 2, 3, 4, 5];
    let calls = Cell::new(0usize);
    let produced = pull_all(v.drain_while(|x| {
        calls.set(calls.get() + 1);
        *x < 3
    }));
    assert_eq!(produced, vec![1, 2]);
    assert_eq!(v, vec![3, 4, 5]);
    assert_eq!(calls.get(), 3);
}

#[test]
fn next_keeps_returning_none_after_exhaustion() {
    let mut v = vec![1, 2];
    let mut dw = v.drain_while(|_| true);
    assert_eq!(dw.next(), Some(1));
    assert_eq!(dw.next(), Some(2));
    assert_eq!(dw.next(), None);
    assert_eq!(dw.next(), None);
}

#[test]
fn moves_non_copy_elements_in_order() {
    let mut v: Vec<String> = vec![
        String::from("aa"),
        String::from("ab"),
        String::from("ba"),
        String::from("ac"),
    ];
    let produced = pull_all(v.drain_while(|s| s.starts_with('a')));
    assert_eq!(produced, vec![String::from("aa"), String::from("ab")]);
    assert_eq!(v, vec![String::from("ba"), String::from("ac")]);
}

#[test]
fn predicate_may_read_captured_state() {
    let limit = 3;
    let mut v = vec![1, 2, 3, 4, 1];
    let produced = pull_all(v.drain_while(|x| *x < limit));
    assert_eq!(produced, vec![1, 2]);
    assert_eq!(v, vec![3, 4, 1]);
}
