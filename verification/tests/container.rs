use dptree::{DependencyMap, ResolutionFailure};
use std::sync::Arc;

const NUM: u64 = 1;
const TEXT: u64 = 2;
const FLAG: u64 = 3;

#[test]
fn new_container_is_empty() {
    let deps: DependencyMap<i32> = DependencyMap::new();
    assert!(deps.is_empty());
    assert_eq!(deps.len(), 0);
    assert!(!deps.contains(NUM));
    assert_eq!(deps.get(NUM), Err(ResolutionFailure { missing: NUM }));
}

#[test]
fn insert_then_get_returns_the_inserted_value() {
    let mut deps = DependencyMap::new();
    assert!(deps.insert(NUM, 42).is_none());
    assert!(deps.insert(TEXT, 7).is_none());
    assert_eq!(deps.get(NUM).map(|handle| *handle), Ok(42));
    assert_eq!(deps.get(TEXT).map(|handle| *handle), Ok(7));
    assert_eq!(deps.len(), 2);
    assert!(!deps.is_empty());
    assert!(deps.contains(NUM));
    assert!(!deps.contains(FLAG));
}

#[test]
fn insert_then_get_for_several_value_types() {
    let mut words: DependencyMap<String> = DependencyMap::new();
    words.insert(TEXT, "hello".to_string());
    assert_eq!(words.get(TEXT).unwrap().as_str(), "hello");

    let mut lists: DependencyMap<Vec<u8>> = DependencyMap::new();
    lists.insert(NUM, vec![1, 2, 3]);
    assert_eq!(*lists.get(NUM).unwrap(), vec![1, 2, 3]);
}

#[test]
fn latest_insertion_wins_and_prior_is_returned() {
    let mut deps = DependencyMap::new();
    assert!(deps.insert(NUM, 1).is_none());
    let prior = deps.insert(NUM, 2);
    assert_eq!(prior.map(|handle| *handle), Some(1));
    assert_eq!(deps.get(NUM).map(|handle| *handle), Ok(2));
    assert_eq!(deps.len(), 1);
}

#[test]
fn get_of_a_key_never_inserted_names_the_key() {
    let mut deps = DependencyMap::new();
    deps.insert(NUM, 1);
    assert_eq!(deps.get(FLAG), Err(ResolutionFailure { missing: FLAG }));
    assert_eq!(deps.get(0), Err(ResolutionFailure { missing: 0 }));
    assert_eq!(deps.get(u64::MAX), Err(ResolutionFailure { missing: u64::MAX }));
}

#[test]
fn get_shares_the_stored_value() {
    let mut deps = DependencyMap::new();
    deps.insert(NUM, String::from("shared"));
    let first = deps.get(NUM).unwrap();
    assert_eq!(Arc::strong_count(&first), 2);
    let second = deps.get(NUM).unwrap();
    assert!(Arc::ptr_eq(&first, &second));
    assert_eq!(Arc::strong_count(&first), 3);
    drop(second);
    assert_eq!(Arc::strong_count(&first), 2);
}

#[test]
fn clone_shares_values_and_is_independent_afterwards() {
    let mut deps = DependencyMap::new();
    deps.insert(NUM, 5);
    let mut copy = deps.clone();
    assert_eq!(copy, deps);
    assert!(Arc::ptr_eq(&deps.get(NUM).unwrap(), &copy.get(NUM).unwrap()));
    copy.insert(TEXT, 6);
    assert!(!deps.contains(TEXT));
    assert_eq!(deps.len(), 1);
    assert_eq!(copy.len(), 2);
}

#[test]
fn resolve_returns_handles_in_declared_order() {
    let mut deps = DependencyMap::new();
    deps.insert(NUM, 10);
    deps.insert(TEXT, 20);
    deps.insert(FLAG, 30);
    let args = deps.resolve(&vec![FLAG, NUM, FLAG, TEXT]).unwrap();
    let values: Vec<i32> = args.iter().map(|handle| **handle).collect();
    assert_eq!(values, vec![30, 10, 30, 20]);
    assert!(Arc::ptr_eq(&args[0], &args[2]));
}

#[test]
fn resolve_of_nothing_is_empty() {
    let deps: DependencyMap<i32> = DependencyMap::new();
    assert_eq!(deps.resolve(&vec![]).map(|args| args.len()), Ok(0));
}

#[test]
fn resolve_names_the_first_missing_dependency() {
    let mut deps = DependencyMap::new();
    deps.insert(NUM, 10);
    assert_eq!(
        deps.resolve(&vec![NUM, FLAG, TEXT]).map(|args| args.len()),
        Err(ResolutionFailure { missing: FLAG })
    );
    assert_eq!(
        deps.resolve(&vec![TEXT, FLAG]).map(|args| args.len()),
        Err(ResolutionFailure { missing: TEXT })
    );
}
