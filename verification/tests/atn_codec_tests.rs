//! Reading a serialized network, the failure cases, and the write/read
//! round trip.

use antlr_rust::atn::ATNType;
use antlr_rust::atn_deserializer::supported_uuid_words;
use antlr_rust::atn_deserializer::ATNDeserializer;
use antlr_rust::atn_serializer::atn_equals;
use antlr_rust::atn_serializer::serialize_atn;

/// A small two-rule lexer grammar (a word rule over `a..z` under a plus
/// loop, and a skipped whitespace rule over a character set), in the
/// serialized form.
fn two_rule_lexer_words() -> Vec<u16> {
    vec![
        3, 24715, 42794, 33075, 47597, 16764, 15335, 30598, 22884, 2, 4, 16, 8, 1, 4, 2, 9, 2, 4,
        3, 9, 3, 3, 2, 6, 2, 9, 10, 2, 13, 2, 14, 2, 10, 3, 3, 3, 3, 3, 3, 3, 3, 2, 2, 4, 3, 3, 5,
        4, 3, 2, 3, 4, 2, 12, 12, 34, 34, 2, 16, 2, 3, 3, 2, 2, 2, 2, 5, 3, 2, 2, 2, 3, 8, 3, 2,
        2, 2, 5, 12, 3, 2, 2, 2, 7, 9, 4, 99, 124, 2, 8, 7, 3, 2, 2, 2, 9, 10, 3, 2, 2, 2, 10, 8,
        3, 2, 2, 2, 10, 11, 3, 2, 2, 2, 11, 4, 3, 2, 2, 2, 12, 13, 9, 2, 2, 2, 13, 14, 3, 2, 2, 2,
        14, 15, 8, 3, 2, 2, 15, 6, 3, 2, 2, 2, 4, 2, 10, 3, 8, 2, 2,
    ]
}

#[test]
fn deserialize_two_rule_lexer() {
    let words = two_rule_lexer_words();
    let d = ATNDeserializer::new(None);
    let atn = d.deserialize(&words).expect("well-formed serialized network");
    assert!(atn.grammar_type == ATNType::LEXER);
    assert_eq!(atn.max_token_type, 2);
    assert_eq!(atn.states.len(), 14);
    assert_eq!(atn.rule_to_start_state.len(), 2);
    assert_eq!(atn.rule_to_start_state, vec![1, 3]);
    // rule stops back-linked by scanning the states
    assert_eq!(atn.rule_to_stop_state, vec![2, 4]);
    assert_eq!(atn.rule_to_token_type, vec![1, 2]);
    assert_eq!(atn.mode_to_start_state, vec![0]);
    assert_eq!(atn.decision_to_state, vec![0, 8]);
    assert_eq!(atn.lexer_actions.len(), 1);
}

#[test]
fn unsupported_version_is_fatal() {
    let mut words = two_rule_lexer_words();
    words[0] = 7;
    let d = ATNDeserializer::new(None);
    assert!(d.deserialize(&words).is_err());
}

#[test]
fn unsupported_uuid_is_fatal() {
    let mut words = two_rule_lexer_words();
    words[1] = words[1].wrapping_add(1);
    let d = ATNDeserializer::new(None);
    assert!(d.deserialize(&words).is_err());
}

#[test]
fn truncated_data_is_fatal() {
    let words = two_rule_lexer_words();
    let cut: Vec<u16> = words[..40].to_vec();
    let d = ATNDeserializer::new(None);
    assert!(d.deserialize(&cut).is_err());
}

#[test]
fn serialize_then_deserialize_reproduces_the_network() {
    let words = two_rule_lexer_words();
    let d = ATNDeserializer::new(None);
    let atn1 = d.deserialize(&words).expect("well-formed serialized network");
    let written = serialize_atn(&atn1);
    let atn2 = d.deserialize(&written).expect("rewritten network reads back");
    assert!(atn_equals(&atn1, &atn2));
    // and the write is stable: writing again yields the identical words
    let written2 = serialize_atn(&atn2);
    assert_eq!(written, written2);
}

#[test]
fn writer_uses_a_supported_uuid() {
    let u = supported_uuid_words();
    assert_eq!(u.len(), 8);
    let words = two_rule_lexer_words();
    // the embedded grammar was written with the same format identifier
    assert_eq!(&words[1..9], u.as_slice());
}
