//! Configuration sets: deduplication by (state, alternative), context
//! merging on hits, the counters, and the display form.

use antlr_rust::atn_config::ATNConfig;
use antlr_rust::atn_config_set::ATNConfigSet;
use antlr_rust::prediction_context::PredictionContext;
use antlr_rust::prediction_context::PREDICTION_CONTEXT_EMPTY_RETURN_STATE;

fn chain(rets: &[isize]) -> PredictionContext {
    let mut ctx = PredictionContext::new_empty_prediction_context();
    for &r in rets.iter().rev() {
        ctx = PredictionContext::new_singleton_prediction_context(Some(Box::new(ctx)), r);
    }
    ctx
}

#[test]
fn distinct_pairs_append() {
    let mut set = ATNConfigSet::new_ordered_atnconfig_set();
    set.add(ATNConfig::new_lexer_atnconfig6(3, 1, chain(&[5])));
    set.add(ATNConfig::new_lexer_atnconfig6(4, 1, chain(&[5])));
    set.add(ATNConfig::new_lexer_atnconfig6(3, 2, chain(&[5])));
    assert_eq!(set.length(), 3);
    assert!(!set.is_empty());
}

#[test]
fn same_pair_merges_contexts() {
    let mut set = ATNConfigSet::new_ordered_atnconfig_set();
    set.add(ATNConfig::new_lexer_atnconfig6(3, 1, chain(&[5])));
    set.add(ATNConfig::new_lexer_atnconfig6(3, 1, chain(&[9])));
    // one stored configuration whose context is the union of both chains
    assert_eq!(set.length(), 1);
    let stored = &set.get_items()[0];
    let ctx = stored.get_context().expect("merged context present");
    assert_eq!(ctx.length(), 2);
    assert_eq!(ctx.get_return_state(0), 5);
    assert_eq!(ctx.get_return_state(1), 9);
}

#[test]
fn outer_context_counters_join() {
    let mut set = ATNConfigSet::new_ordered_atnconfig_set();
    let mut a = ATNConfig::new_lexer_atnconfig6(3, 1, chain(&[5]));
    a.set_reaches_into_outer_context(2);
    set.add_cached(a);
    assert!(set.get_dips_into_outer_context());
    let mut b = ATNConfig::new_lexer_atnconfig6(3, 1, chain(&[5]));
    b.set_reaches_into_outer_context(7);
    b.set_precedence_filter_suppressed(true);
    set.add_cached(b);
    assert_eq!(set.length(), 1);
    let stored = &set.get_items()[0];
    assert_eq!(stored.get_reaches_into_outer_context(), 7);
    assert!(stored.get_precedence_filter_suppressed());
}

#[test]
fn contains_goes_by_pair() {
    let mut set = ATNConfigSet::new_ordered_atnconfig_set();
    set.add(ATNConfig::new_lexer_atnconfig6(3, 1, chain(&[5])));
    let same_pair = ATNConfig::new_lexer_atnconfig6(3, 1, chain(&[9]));
    let other_pair = ATNConfig::new_lexer_atnconfig6(4, 1, chain(&[5]));
    assert!(set.contains(&same_pair));
    assert!(set.contains_fast(&same_pair));
    assert!(!set.contains(&other_pair));
}

#[test]
fn structural_equality_of_sets() {
    let mut a = ATNConfigSet::new_ordered_atnconfig_set();
    a.add(ATNConfig::new_lexer_atnconfig6(3, 1, chain(&[5])));
    let mut b = ATNConfigSet::new_ordered_atnconfig_set();
    b.add(ATNConfig::new_lexer_atnconfig6(3, 1, chain(&[5])));
    assert!(a.equals(&b));
    b.add(ATNConfig::new_lexer_atnconfig6(4, 1, chain(&[5])));
    assert!(!a.equals(&b));
}

#[test]
fn display_form_lists_pairs() {
    let mut set = ATNConfigSet::new_ordered_atnconfig_set();
    assert_eq!(set.to_display_string(), "[]");
    set.add(ATNConfig::new_lexer_atnconfig6(3, 1, chain(&[5])));
    set.add(ATNConfig::new_lexer_atnconfig6(4, 2, chain(&[5])));
    assert_eq!(set.to_display_string(), "[(3,1),(4,2)]");
}

#[test]
fn empty_branch_merge_keeps_parent() {
    // merging a one-call chain with the empty context under a non-wildcard
    // root keeps the chain's parent on the kept pair
    let a = chain(&[5, 9]);
    let empty = PredictionContext::new_empty_prediction_context();
    let m = PredictionContext::merge(a, empty, false);
    assert_eq!(m.length(), 2);
    assert_eq!(m.get_return_state(0), 5);
    assert_eq!(m.get_return_state(1), PREDICTION_CONTEXT_EMPTY_RETURN_STATE);
    let parent = m.get_parent(0).expect("kept parent");
    assert_eq!(parent.get_return_state(0), 9);
    assert!(m.get_parent(1).is_none());
}
