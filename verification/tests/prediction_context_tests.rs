//! Prediction contexts: construction, hashing, and the merge laws on
//! concrete values.

use antlr_rust::prediction_context::PredictionContext;
use antlr_rust::prediction_context::PredictionContextCache;
use antlr_rust::prediction_context::PREDICTION_CONTEXT_EMPTY_RETURN_STATE;

fn singleton(parent: Option<PredictionContext>, ret: isize) -> PredictionContext {
    PredictionContext::new_singleton_prediction_context(parent.map(Box::new), ret)
}

fn chain(rets: &[isize]) -> PredictionContext {
    // builds bottom-up: last entry sits nearest the empty context
    let mut ctx = PredictionContext::new_empty_prediction_context();
    for &r in rets.iter().rev() {
        ctx = singleton(Some(ctx), r);
    }
    ctx
}

#[test]
fn hash_is_reproducible_for_equal_structure() {
    let a = chain(&[7, 12]);
    let b = chain(&[7, 12]);
    // rebuilt from scratch, the structural hash is identical
    assert_eq!(a.hash_code(), a.hash_code());
    assert_eq!(a.hash_code(), b.hash_code());
    assert!(a.equals(&b));
}

#[test]
fn different_structures_usually_hash_apart() {
    let a = chain(&[7, 12]);
    let b = chain(&[8, 12]);
    assert!(!a.equals(&b));
    // the two particular values here do differ
    assert_ne!(a.hash_code(), b.hash_code());
}

#[test]
fn merge_identical_returns_same() {
    let a = chain(&[3, 4]);
    let b = chain(&[3, 4]);
    let m = PredictionContext::merge(a, b, true);
    let expect = chain(&[3, 4]);
    assert!(m.equals(&expect));
}

#[test]
fn merge_with_empty_under_wildcard_is_empty() {
    let a = chain(&[3]);
    let empty = PredictionContext::new_empty_prediction_context();
    let m = PredictionContext::merge(a, empty, true);
    assert!(m.is_empty());
    let empty2 = PredictionContext::new_empty_prediction_context();
    let b = chain(&[5, 6]);
    let m2 = PredictionContext::merge(empty2, b, true);
    assert!(m2.is_empty());
}

#[test]
fn merge_with_empty_without_wildcard_adds_empty_branch() {
    let a = chain(&[3]);
    let empty = PredictionContext::new_empty_prediction_context();
    let m = PredictionContext::merge(a, empty, false);
    // the result keeps the original pair and adds the empty branch last
    assert_eq!(m.length(), 2);
    assert_eq!(m.get_return_state(0), 3);
    assert_eq!(m.get_return_state(1), PREDICTION_CONTEXT_EMPTY_RETURN_STATE);
    assert!(m.has_empty_path());
}

#[test]
fn merge_different_singletons_sorts_by_return_state() {
    let a = chain(&[9]);
    let b = chain(&[4]);
    let m = PredictionContext::merge(a, b, true);
    assert_eq!(m.length(), 2);
    assert_eq!(m.get_return_state(0), 4);
    assert_eq!(m.get_return_state(1), 9);
    assert!(!m.has_empty_path());
}

#[test]
fn merge_same_return_state_merges_parents() {
    // both stacks return to 5, but from different callers
    let a = singleton(Some(chain(&[2])), 5);
    let b = singleton(Some(chain(&[3])), 5);
    let m = PredictionContext::merge(a, b, true);
    assert_eq!(m.length(), 1);
    assert_eq!(m.get_return_state(0), 5);
    // the merged parent is the union of both callers
    let parent = m.get_parent(0).expect("merged parent");
    assert_eq!(parent.length(), 2);
    assert_eq!(parent.get_return_state(0), 2);
    assert_eq!(parent.get_return_state(1), 3);
}

#[test]
fn merge_arrays_unions_return_states() {
    let a1 = chain(&[1]);
    let a2 = chain(&[5]);
    let left = PredictionContext::merge(a1, a2, true);
    let b1 = chain(&[3]);
    let b2 = chain(&[5]);
    let right = PredictionContext::merge(b1, b2, true);
    let m = PredictionContext::merge(left, right, true);
    assert_eq!(m.length(), 3);
    assert_eq!(m.get_return_state(0), 1);
    assert_eq!(m.get_return_state(1), 3);
    assert_eq!(m.get_return_state(2), 5);
}

#[test]
fn empty_context_shape() {
    let e = PredictionContext::new_empty_prediction_context();
    assert!(e.is_empty());
    assert!(e.has_empty_path());
    assert_eq!(e.length(), 1);
    assert_eq!(e.get_return_state(0), PREDICTION_CONTEXT_EMPTY_RETURN_STATE);
    assert!(e.get_parent(0).is_none());
}

#[test]
fn cache_deduplicates_structural_equals() {
    let mut cache = PredictionContextCache::new();
    cache.add(chain(&[4, 7]));
    cache.add(chain(&[4, 7]));
    cache.add(chain(&[4, 8]));
    assert_eq!(cache.length(), 2);
    let probe = chain(&[4, 7]);
    assert!(cache.get(&probe).is_some());
    let missing = chain(&[9]);
    assert!(cache.get(&missing).is_none());
}
