//! Lookahead analysis over a deserialized network: the expected-token sets
//! and the frozen per-state caches.

use antlr_rust::atn_deserializer::supported_uuid_words;
use antlr_rust::atn_deserializer::ATNDeserializer;
use antlr_rust::ll1_analyzer::LL1Analyzer;
use antlr_rust::token::TOKEN_EPSILON;

/// The two-rule word/whitespace lexer grammar: a word over `a..z` under a
/// plus loop, and whitespace from a character set.
fn two_rule_lexer_words() -> Vec<u16> {
    vec![
        3, 24715, 42794, 33075, 47597, 16764, 15335, 30598, 22884, 2, 4, 16, 8, 1, 4, 2, 9, 2, 4,
        3, 9, 3, 3, 2, 6, 2, 9, 10, 2, 13, 2, 14, 2, 10, 3, 3, 3, 3, 3, 3, 3, 3, 2, 2, 4, 3, 3, 5,
        4, 3, 2, 3, 4, 2, 12, 12, 34, 34, 2, 16, 2, 3, 3, 2, 2, 2, 2, 5, 3, 2, 2, 2, 3, 8, 3, 2,
        2, 2, 5, 12, 3, 2, 2, 2, 7, 9, 4, 99, 124, 2, 8, 7, 3, 2, 2, 2, 9, 10, 3, 2, 2, 2, 10, 8,
        3, 2, 2, 2, 10, 11, 3, 2, 2, 2, 11, 4, 3, 2, 2, 2, 12, 13, 9, 2, 2, 2, 13, 14, 3, 2, 2, 2,
        14, 15, 8, 3, 2, 2, 15, 6, 3, 2, 2, 2, 4, 2, 10, 3, 8, 2, 2,
    ]
}

#[test]
fn lookahead_from_word_rule_start() {
    let d = ATNDeserializer::new(None);
    let atn = d.deserialize(&two_rule_lexer_words()).expect("well-formed");
    let analyzer = LL1Analyzer::new(&atn);
    // from the word rule's start state, only letters can come next
    let start = atn.rule_to_start_state[0];
    let look = analyzer.look(start, None, None);
    assert!(look.contains('a' as isize));
    assert!(look.contains('m' as isize));
    assert!(look.contains('z' as isize));
    assert!(!look.contains('0' as isize));
    assert!(!look.contains(' ' as isize));
}

#[test]
fn lookahead_from_whitespace_rule_start() {
    let d = ATNDeserializer::new(None);
    let atn = d.deserialize(&two_rule_lexer_words()).expect("well-formed");
    let analyzer = LL1Analyzer::new(&atn);
    let start = atn.rule_to_start_state[1];
    let look = analyzer.look(start, None, None);
    assert!(look.contains('\n' as isize));
    assert!(look.contains(' ' as isize));
    assert!(!look.contains('a' as isize));
}

#[test]
fn lookahead_past_rule_stop_is_epsilon() {
    let d = ATNDeserializer::new(None);
    let atn = d.deserialize(&two_rule_lexer_words()).expect("well-formed");
    let analyzer = LL1Analyzer::new(&atn);
    // at a rule stop with no context, anything can follow
    let stop = atn.rule_to_stop_state[0];
    let look = analyzer.look(stop, None, None);
    assert!(look.contains(TOKEN_EPSILON));
}

/// A two-rule parser network: the first rule matches token 65 and then
/// calls the second; the second matches token 66 or nothing.
fn calling_parser_words() -> Vec<u16> {
    let mut out: Vec<u16> = vec![3];
    out.extend_from_slice(&supported_uuid_words());
    let mut w = |v: i64| {
        if v == -1 {
            out.push(0xffff);
        } else {
            out.push((v + 2) as u16);
        }
    };
    w(1); // a parser network
    w(70);
    // states: rule starts and stops for both rules, plus the plain states
    let states: &[(i64, i64)] = &[
        (2, 0),
        (7, 0),
        (2, 1),
        (7, 1),
        (1, 0),
        (1, 0),
        (1, 1),
    ];
    w(states.len() as i64);
    for &(k, r) in states {
        w(k);
        w(r);
    }
    w(0);
    w(0);
    w(2);
    w(0);
    w(2);
    w(0); // no modes
    w(0); // no narrow sets
    w(0); // no wide sets
    let edges: &[[i64; 6]] = &[
        [0, 4, 5, 65, 0, 0], // match 65
        [4, 5, 3, 2, 1, 0],  // call the second rule, returning to state 5
        [5, 1, 1, 0, 0, 0],
        [2, 6, 5, 66, 0, 0], // match 66
        [6, 3, 1, 0, 0, 0],
        [2, 3, 1, 0, 0, 0],  // or match nothing
    ];
    w(edges.len() as i64);
    for ed in edges {
        for &v in ed {
            w(v);
        }
    }
    w(0); // no decisions
    out
}

#[test]
fn lookahead_enters_called_rules() {
    let d = ATNDeserializer::new(None);
    let atn = d.deserialize(&calling_parser_words()).expect("well-formed");
    let analyzer = LL1Analyzer::new(&atn);
    // before the call only 65 can come
    let look0 = analyzer.look(0, None, None);
    assert!(look0.contains(65));
    assert!(!look0.contains(66));
    // at the call site, the called rule offers 66; since it can also match
    // nothing and the outer rule then ends, anything may follow
    let look4 = analyzer.look(4, None, None);
    assert!(look4.contains(66));
    assert!(look4.contains(TOKEN_EPSILON));
    assert!(!look4.contains(65));
}

#[test]
fn expected_tokens_widen_through_invoking_rules() {
    let d = ATNDeserializer::new(None);
    let atn = d.deserialize(&calling_parser_words()).expect("well-formed");
    // at the first rule's start only its own token is expected
    let at_start = atn.get_expected_tokens(0, &vec![]);
    assert!(at_start.contains(65));
    assert!(!at_start.contains(-1));
    // inside the called rule, after its token, the rule can end; the
    // caller can then end too, so end of input is expected
    let inside = atn.get_expected_tokens(6, &vec![4]);
    assert!(inside.contains(-1));
    assert!(!inside.contains(65));
}

#[test]
fn next_tokens_cache_is_frozen_and_sorted() {
    let d = ATNDeserializer::new(None);
    let atn = d.deserialize(&two_rule_lexer_words()).expect("well-formed");
    let set = atn.next_tokens(atn.rule_to_start_state[0]);
    assert!(set.read_only());
    // intervals come out sorted, disjoint, and non-adjacent
    let n = set.num_intervals();
    assert!(n >= 1);
    let mut prev_b: Option<isize> = None;
    for i in 0..n {
        let iv = set.get_interval(i);
        assert!(iv.a <= iv.b);
        if let Some(pb) = prev_b {
            assert!(pb + 1 < iv.a);
        }
        prev_b = Some(iv.b);
    }
}
