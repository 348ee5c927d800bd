//! The error values: which operations produce which variant, and which
//! variants generated code may recover from.

use antlr_rust::atn_deserializer::ATNDeserializer;
use antlr_rust::errors::ANTLRError;
use antlr_rust::input_stream::InputStream;
use antlr_rust::lexer::LexerRecog;
use antlr_rust::lexer_atn_simulator::LexerATNSimulator;

struct PlainRecog;

impl LexerRecog for PlainRecog {
    fn sempred(&mut self, _rule_index: isize, _pred_index: isize) -> bool {
        true
    }

    fn action(&mut self, _rule_index: isize, _action_index: isize) {}
}

fn two_rule_lexer_words() -> Vec<u16> {
    vec![
        3, 24715, 42794, 33075, 47597, 16764, 15335, 30598, 22884, 2, 4, 16, 8, 1, 4, 2, 9, 2, 4,
        3, 9, 3, 3, 2, 6, 2, 9, 10, 2, 13, 2, 14, 2, 10, 3, 3, 3, 3, 3, 3, 3, 3, 2, 2, 4, 3, 3, 5,
        4, 3, 2, 3, 4, 2, 12, 12, 34, 34, 2, 16, 2, 3, 3, 2, 2, 2, 2, 5, 3, 2, 2, 2, 3, 8, 3, 2,
        2, 2, 5, 12, 3, 2, 2, 2, 7, 9, 4, 99, 124, 2, 8, 7, 3, 2, 2, 2, 9, 10, 3, 2, 2, 2, 10, 8,
        3, 2, 2, 2, 10, 11, 3, 2, 2, 2, 11, 4, 3, 2, 2, 2, 12, 13, 9, 2, 2, 2, 13, 14, 3, 2, 2, 2,
        14, 15, 8, 3, 2, 2, 15, 6, 3, 2, 2, 2, 4, 2, 10, 3, 8, 2, 2,
    ]
}

#[test]
fn unmatched_character_is_a_lexer_no_alt_error() {
    let d = ATNDeserializer::new(None);
    let atn = d.deserialize(&two_rule_lexer_words()).expect("well-formed");
    let mut sim = LexerATNSimulator::new_lexer_atnsimulator(atn);
    let mut input = InputStream::new("@").expect("input fits");
    let mut recog = PlainRecog;
    let r = sim.match_token(0, &mut input, &mut recog);
    match r {
        Err(ANTLRError::LexerNoAltError { start_index }) => {
            assert_eq!(start_index, 0);
        },
        other => panic!("expected the no-viable-alternative lexer error, got {:?}", other.is_ok()),
    }
}

#[test]
fn consuming_past_the_end_is_an_illegal_state() {
    let mut s = InputStream::new("").expect("input fits");
    match s.consume() {
        Err(ANTLRError::IllegalStateError(_)) => {},
        _ => panic!("expected the illegal-state error"),
    }
}

#[test]
fn malformed_serialized_data_is_an_illegal_state() {
    let d = ATNDeserializer::new(None);
    let words: Vec<u16> = vec![3, 1, 2];
    match d.deserialize(&words) {
        Err(ANTLRError::IllegalStateError(_)) => {},
        _ => panic!("expected the illegal-state error"),
    }
}

#[test]
fn recoverability_by_variant() {
    assert!(ANTLRError::LexerNoAltError { start_index: 0 }.is_recoverable());
    assert!(ANTLRError::NoViableAltError { start_index: 0 }.is_recoverable());
    assert!(ANTLRError::InputMismatchError.is_recoverable());
    assert!(
        ANTLRError::FailedPredicateError { rule_index: 0, pred_index: 0 }.is_recoverable()
    );
    // the internal-invariant failure is fatal, and the sentinel must be
    // rethrown rather than handled
    assert!(!ANTLRError::IllegalStateError("".to_string()).is_recoverable());
    assert!(!ANTLRError::FallThrough.is_recoverable());
}
